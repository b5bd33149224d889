//! Core Graphics.

pub mod cg_context;
