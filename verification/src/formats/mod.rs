//! Game metadata formats.
pub mod psf;
