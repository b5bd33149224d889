//! The C library.

pub mod cxxabi;
pub mod stdlib;
