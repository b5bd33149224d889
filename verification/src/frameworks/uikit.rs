//! UIKit.

pub mod ui_nib;
