//! The emulated system frameworks.

use vstd::prelude::*;

pub mod audio_toolbox;
pub mod core_audio_types;
pub mod core_graphics;
pub mod foundation;
pub mod uikit;

verus! {

/// The host-side state that the frameworks keep.
pub struct State {
    pub audio_toolbox: audio_toolbox::State,
}

} // verus!
