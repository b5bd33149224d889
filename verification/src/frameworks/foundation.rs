//! Foundation.

pub mod ns_object;
