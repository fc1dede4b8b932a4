//! High-level emulation of the guest's system libraries.
pub mod dispatcher;
pub mod exports;
pub mod libkernel;
pub mod libraries;
pub mod stubs;
