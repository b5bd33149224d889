//! Audio Toolbox.

use vstd::prelude::*;

pub mod audio_file;
pub mod audio_unit;

verus! {

/// The host-side state of Audio Toolbox.
pub struct State {
    pub audio_file: audio_file::State,
    pub audio_units: audio_unit::AudioUnits,
}

} // verus!
