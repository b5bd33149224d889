//! Host-side logic of a handful of emulated iOS libraries: the C standard
//! library's `stdlib.h`, Audio Toolbox, Core Graphics contexts, Foundation's
//! `NSObject` and UIKit's nib loading. Guest memory is modelled by byte
//! slices and the emulator's object registries by plain collections.

pub mod bytes;
pub mod frameworks;
pub mod libc;
pub mod literals;
