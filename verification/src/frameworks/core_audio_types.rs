//! Core Audio types: stream descriptions and the status codes shared by the
//! audio frameworks.

use vstd::prelude::*;

verus! {

/// `OSStatus`: 0 for success, an error code otherwise.
pub type OSStatus = i32;

/// `paramErr`: an invalid parameter.
#[allow(non_upper_case_globals)]
pub const paramErr: OSStatus = -50;

/// `eofErr`: the end of the data was reached.
#[allow(non_upper_case_globals)]
pub const eofErr: OSStatus = -39;

/// `kAudioFormatLinearPCM` (`'lpcm'`).
#[allow(non_upper_case_globals)]
pub const kAudioFormatLinearPCM: u32 = 0x6c70636d;

/// `kAudioFormatMPEG4AAC` (`'aac '`).
#[allow(non_upper_case_globals)]
pub const kAudioFormatMPEG4AAC: u32 = 0x61616320;

/// `kAudioFormatAppleIMA4` (`'ima4'`).
#[allow(non_upper_case_globals)]
pub const kAudioFormatAppleIMA4: u32 = 0x696d6134;

/// The format identifier reported for a format that has none here
/// (`'fmt?'`).
pub const UNKNOWN_FORMAT_ID: u32 = 0x666d743f;

/// `kAudioFormatFlagIsFloat`.
#[allow(non_upper_case_globals)]
pub const kAudioFormatFlagIsFloat: u32 = 1;

/// `kAudioFormatFlagIsBigEndian`.
#[allow(non_upper_case_globals)]
pub const kAudioFormatFlagIsBigEndian: u32 = 2;

/// `kAudioFormatFlagIsSignedInteger`.
#[allow(non_upper_case_globals)]
pub const kAudioFormatFlagIsSignedInteger: u32 = 4;

/// `kAudioFormatFlagIsPacked`.
#[allow(non_upper_case_globals)]
pub const kAudioFormatFlagIsPacked: u32 = 8;

/// `AudioStreamBasicDescription`. The sample rate, a `f64`, is carried as
/// its bit pattern.
#[derive(Clone, Copy, Debug, PartialEq, Eq, Structural)]
pub struct AudioStreamBasicDescription {
    pub sample_rate_bits: u64,
    pub format_id: u32,
    pub format_flags: u32,
    pub bytes_per_packet: u32,
    pub frames_per_packet: u32,
    pub bytes_per_frame: u32,
    pub channels_per_frame: u32,
    pub bits_per_channel: u32,
    pub reserved: u32,
}

/// The size of an `AudioStreamBasicDescription` in guest memory.
pub const ASBD_SIZE: u32 = 40;

} // verus!
