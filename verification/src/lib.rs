pub mod bytes;
pub mod formats;
pub mod gpu;
pub mod hle;
pub mod kernel;
pub mod linker;
pub mod loader;
pub mod memory;
pub mod text;
pub mod types;
