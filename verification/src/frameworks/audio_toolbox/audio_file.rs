//! `AudioFile.h` (Audio File Services): the registry of open audio files
//! and the answers to property queries and reads. Opening, parsing and
//! reading a real file's data are the host's work; a file that cannot be
//! read is replaced by two seconds of silence.

use vstd::prelude::*;
use std::collections::HashMap;
use crate::frameworks::core_audio_types::{
    AudioStreamBasicDescription, OSStatus, paramErr, eofErr, kAudioFormatLinearPCM,
    kAudioFormatMPEG4AAC, kAudioFormatAppleIMA4, UNKNOWN_FORMAT_ID, kAudioFormatFlagIsFloat,
    kAudioFormatFlagIsBigEndian, kAudioFormatFlagIsSignedInteger, kAudioFormatFlagIsPacked,
    ASBD_SIZE,
};

verus! {

broadcast use vstd::std_specs::hash::group_hash_axioms;

/// `AudioFileID`: the guest address of a file's handle; 0 is null.
pub type AudioFileID = u32;

pub type AudioFilePropertyID = u32;

pub type AudioFileTypeID = u32;

/// `kAudioFileNotOpenError`.
#[allow(non_upper_case_globals)]
pub const kAudioFileNotOpenError: OSStatus = -38;

/// `kAudioFileSuccess`.
#[allow(non_upper_case_globals)]
pub const kAudioFileSuccess: OSStatus = 0;

/// `kAudioFileBadPropertySizeError` (`'!siz'`).
#[allow(non_upper_case_globals)]
pub const kAudioFileBadPropertySizeError: OSStatus = 0x2173697a;

/// `kAudioFileUnsupportedPropertyError` (`'pty?'`).
#[allow(non_upper_case_globals)]
pub const kAudioFileUnsupportedPropertyError: OSStatus = 0x7074793f;

/// `kAudioFileUnsupportedFileTypeError` (`'typ?'`).
#[allow(non_upper_case_globals)]
pub const kAudioFileUnsupportedFileTypeError: OSStatus = 0x7479703f;

/// `kAudioFileUnspecifiedError` (`'wht?'`).
#[allow(non_upper_case_globals)]
pub const kAudioFileUnspecifiedError: OSStatus = 0x7768743f;

/// `kAudioFileCAFType` (`'caff'`).
#[allow(non_upper_case_globals)]
pub const kAudioFileCAFType: AudioFileTypeID = 0x63616666;

/// `kAudioFilePropertyDataFormat` (`'dfmt'`).
#[allow(non_upper_case_globals)]
pub const kAudioFilePropertyDataFormat: AudioFilePropertyID = 0x64666d74;

/// `kAudioFilePropertyAudioDataByteCount` (`'bcnt'`).
#[allow(non_upper_case_globals)]
pub const kAudioFilePropertyAudioDataByteCount: AudioFilePropertyID = 0x62636e74;

/// `kAudioFilePropertyAudioDataPacketCount` (`'pcnt'`).
#[allow(non_upper_case_globals)]
pub const kAudioFilePropertyAudioDataPacketCount: AudioFilePropertyID = 0x70636e74;

/// `kAudioFilePropertyPacketSizeUpperBound` (`'pkub'`).
#[allow(non_upper_case_globals)]
pub const kAudioFilePropertyPacketSizeUpperBound: AudioFilePropertyID = 0x706b7562;

/// `kAudioFilePropertyMaximumPacketSize` (`'psze'`).
#[allow(non_upper_case_globals)]
pub const kAudioFilePropertyMaximumPacketSize: AudioFilePropertyID = 0x70737a65;

/// `kAudioFilePropertyMagicCookieData` (`'mgic'`).
#[allow(non_upper_case_globals)]
pub const kAudioFilePropertyMagicCookieData: AudioFilePropertyID = 0x6d676963;

/// `kAudioFilePropertyChannelLayout` (`'cmap'`).
#[allow(non_upper_case_globals)]
pub const kAudioFilePropertyChannelLayout: AudioFilePropertyID = 0x636d6170;

/// `kAudioFilePropertyEstimatedDuration` (`'edur'`).
#[allow(non_upper_case_globals)]
pub const kAudioFilePropertyEstimatedDuration: AudioFilePropertyID = 0x65647572;

/// `kAudioFilePropertyPacketTableInfo` (`'pnfo'`).
#[allow(non_upper_case_globals)]
pub const kAudioFilePropertyPacketTableInfo: AudioFilePropertyID = 0x706e666f;

/// `kAudioFilePropertyPacketToFrame` (`'flst'`).
#[allow(non_upper_case_globals)]
pub const kAudioFilePropertyPacketToFrame: AudioFilePropertyID = 0x666c7374;

/// `kAudioFilePropertyFileFormat` (`'ffmt'`).
#[allow(non_upper_case_globals)]
pub const kAudioFilePropertyFileFormat: AudioFilePropertyID = 0x66666d74;

/// The bit pattern of the `f64` 44100.0.
pub const SAMPLE_RATE_44100_BITS: u64 = 0x40e5888000000000;

/// The bit pattern of the `f64` 1.0.
pub const F64_ONE_BITS: u64 = 0x3ff0000000000000;

/// The encodings that the host's audio decoder reports.
#[derive(Clone, Copy, Debug, PartialEq, Eq, Structural)]
pub enum AudioFormat {
    LinearPcm { is_float: bool, is_little_endian: bool },
    Mpeg4Aac,
    AppleIma4,
    /// An encoding the decoder reads but that has no description here.
    Other,
}

/// What the host's audio decoder reports about a file's audio; the sample
/// rate, a `f64`, is carried as its bit pattern.
#[derive(Clone, Copy, Debug, PartialEq, Eq, Structural)]
pub struct AudioDescription {
    pub sample_rate_bits: u64,
    pub format: AudioFormat,
    pub bytes_per_packet: u32,
    pub frames_per_packet: u32,
    pub channels_per_frame: u32,
    pub bits_per_channel: u32,
}

/// A file that the host's decoder opened: what the queries read of it.
#[derive(Clone, Copy, Debug, PartialEq, Eq, Structural)]
pub struct RealAudioFile {
    pub description: AudioDescription,
    pub byte_count: u64,
    pub packet_count: u64,
    pub packet_size_upper_bound: u32,
    pub packet_size_fixed: u32,
}

impl RealAudioFile {
    /// A description that the stream description can be computed from:
    /// packets hold at least one frame, and the packing check does not
    /// overflow.
    pub open spec fn wf(self) -> bool {
        let d = self.description;
        &&& d.frames_per_packet != 0
        &&& d.bits_per_channel * d.channels_per_frame <= u32::MAX
        &&& d.bits_per_channel * d.channels_per_frame * d.frames_per_packet <= u32::MAX
        &&& d.bytes_per_packet * 8 <= u32::MAX
    }
}

/// An open audio file: one the decoder read, or a stand-in of silence.
#[derive(Clone, Copy, Debug, PartialEq, Eq, Structural)]
pub enum AudioFileHostObject {
    Real(RealAudioFile),
    Dummy { format: AudioStreamBasicDescription, byte_count: u64, packet_count: u64 },
}

impl AudioFileHostObject {
    pub open spec fn wf(self) -> bool {
        match self {
            AudioFileHostObject::Real(f) => f.wf(),
            AudioFileHostObject::Dummy { .. } => true,
        }
    }
}

/// The guest-visible object behind an `AudioFileID`: a single byte.
pub struct OpaqueAudioFileID {
    pub filler: u8,
}

/// The open audio files, by handle.
pub struct State {
    pub audio_files: HashMap<AudioFileID, AudioFileHostObject>,
}

/// The open files: none under the null handle (a handle is the address of
/// the guest block allocated for it), each well formed.
pub open spec fn files_wf(files: Map<AudioFileID, AudioFileHostObject>) -> bool {
    &&& !files.contains_key(0)
    &&& forall|k: AudioFileID| #[trigger] files.contains_key(k) ==> files[k].wf()
}

impl Default for State {
    /// No file is open.
    fn default() -> (r: Self)
        ensures
            r.audio_files@ == Map::<AudioFileID, AudioFileHostObject>::empty(),
    {
        State { audio_files: HashMap::new() }
    }
}

impl State {
    /// No file is open under the null handle, and every open file is well
    /// formed.
    pub open spec fn wf(&self) -> bool {
        files_wf(self.audio_files@)
    }

    /// The Audio File Services state within the frameworks' state.
    pub fn get(framework_state: &mut crate::frameworks::State) -> (r: &mut Self)
        ensures
            *r == old(framework_state).audio_toolbox.audio_file,
            final(framework_state).audio_toolbox.audio_file == *final(r),
    {
        &mut framework_state.audio_toolbox.audio_file
    }
}

/// The 16-bit stereo, 44.1 kHz linear PCM format of the silent stand-in.
pub open spec fn dummy_format() -> AudioStreamBasicDescription {
    AudioStreamBasicDescription {
        sample_rate_bits: SAMPLE_RATE_44100_BITS,
        format_id: kAudioFormatLinearPCM,
        format_flags: kAudioFormatFlagIsSignedInteger | kAudioFormatFlagIsPacked,
        bytes_per_packet: 4,
        frames_per_packet: 1,
        bytes_per_frame: 4,
        channels_per_frame: 2,
        bits_per_channel: 16,
        reserved: 0,
    }
}

/// The stand-in for a file that could not be read: two seconds of silence.
pub open spec fn dummy_audio_file() -> AudioFileHostObject {
    AudioFileHostObject::Dummy { format: dummy_format(), byte_count: 352800, packet_count: 88200 }
}

/// Creates the silent stand-in.
pub fn create_dummy_audio_file() -> (r: AudioFileHostObject)
    ensures
        r == dummy_audio_file(),
{
    AudioFileHostObject::Dummy {
        format: AudioStreamBasicDescription {
            sample_rate_bits: SAMPLE_RATE_44100_BITS,
            format_id: kAudioFormatLinearPCM,
            format_flags: kAudioFormatFlagIsSignedInteger | kAudioFormatFlagIsPacked,
            bytes_per_packet: 4,
            frames_per_packet: 1,
            bytes_per_frame: 4,
            channels_per_frame: 2,
            bits_per_channel: 16,
            reserved: 0,
        },
        byte_count: 352800,
        packet_count: 88200,
    }
}

/// The object registered for an open attempt: the decoded file, or the
/// silent stand-in where decoding failed.
pub open spec fn host_object_for(opened: Option<RealAudioFile>) -> AudioFileHostObject {
    match opened {
        Some(f) => AudioFileHostObject::Real(f),
        None => dummy_audio_file(),
    }
}

fn host_object_from(opened: Option<RealAudioFile>) -> (r: AudioFileHostObject)
    ensures
        r == host_object_for(opened),
{
    match opened {
        Some(f) => AudioFileHostObject::Real(f),
        None => create_dummy_audio_file(),
    }
}

/// `AudioFileOpenURL`: registers the file that the host opened (`None`
/// where opening or decoding failed: the silent stand-in is registered
/// then) under the newly allocated handle. A null URL is refused with
/// `paramErr`. The handle is the address of a guest block allocated for
/// the file, so it is never null and no open file has it.
#[allow(non_snake_case)]
pub fn AudioFileOpenURL(
    state: &mut State,
    in_file_ref_is_null: bool,
    opened: Option<RealAudioFile>,
    handle: AudioFileID,
) -> (r: OSStatus)
    requires
        old(state).wf(),
        opened matches Some(f) ==> f.wf(),
        handle != 0,
        !old(state).audio_files@.contains_key(handle),
    ensures
        final(state).wf(),
        in_file_ref_is_null ==> r == paramErr && final(state).audio_files@ == old(state).audio_files@,
        !in_file_ref_is_null ==> r == kAudioFileSuccess && final(state).audio_files@ == old(
            state,
        ).audio_files@.insert(handle, host_object_for(opened)),
{
    if in_file_ref_is_null {
        return paramErr;
    }
    let host_object = host_object_from(opened);
    state.audio_files.insert(handle, host_object);
    kAudioFileSuccess
}

/// The number of bytes to read through the guest's read callback: the size
/// its size callback reported, or 0 (which fails the open) where that does
/// not fit a `u32`.
pub fn callback_file_size(size: i64) -> (r: u32)
    ensures
        r == (if 0 <= size <= u32::MAX { size as u32 } else { 0 }),
{
    if 0 <= size && size <= 0xffff_ffffi64 {
        size as u32
    } else {
        0
    }
}

/// `AudioFileOpenWithCallbacks`: once the guest's callbacks have reported
/// the size (`size`) and read the data (`read_status`), and the host has
/// decoded it (`parsed`), registers the file under the newly allocated
/// handle. A size of 0 (or one that does not fit) fails with
/// `kAudioFileUnspecifiedError`, a failed read with the read's status; in
/// both cases nothing is registered. The handle is the address of a guest
/// block allocated for the file, so it is never null and no open file has
/// it.
#[allow(non_snake_case)]
pub fn AudioFileOpenWithCallbacks(
    state: &mut State,
    size: i64,
    read_status: OSStatus,
    parsed: Option<RealAudioFile>,
    handle: AudioFileID,
) -> (r: OSStatus)
    requires
        old(state).wf(),
        parsed matches Some(f) ==> f.wf(),
        handle != 0,
        !old(state).audio_files@.contains_key(handle),
    ensures
        final(state).wf(),
        r == (if !(0 < size <= u32::MAX) {
            kAudioFileUnspecifiedError
        } else if read_status != 0 {
            read_status
        } else {
            kAudioFileSuccess
        }),
        final(state).audio_files@ == (if r == kAudioFileSuccess {
            old(state).audio_files@.insert(handle, host_object_for(parsed))
        } else {
            old(state).audio_files@
        }),
{
    let size = callback_file_size(size);
    if size == 0 {
        return kAudioFileUnspecifiedError;
    }
    if read_status != 0 {
        return read_status;
    }
    let host_object = host_object_from(parsed);
    state.audio_files.insert(handle, host_object);
    kAudioFileSuccess
}

/// The size in guest memory of a property's value; 0 for a property that is
/// not supported.
pub open spec fn spec_property_size(property_id: AudioFilePropertyID) -> u32 {
    if property_id == kAudioFilePropertyDataFormat {
        ASBD_SIZE
    } else if property_id == kAudioFilePropertyAudioDataByteCount
        || property_id == kAudioFilePropertyAudioDataPacketCount {
        8
    } else if property_id == kAudioFilePropertyPacketSizeUpperBound
        || property_id == kAudioFilePropertyMaximumPacketSize {
        4
    } else if property_id == kAudioFilePropertyEstimatedDuration
        || property_id == kAudioFilePropertyPacketToFrame {
        8
    } else if property_id == kAudioFilePropertyPacketTableInfo {
        16
    } else if property_id == kAudioFilePropertyFileFormat {
        4
    } else {
        0
    }
}

/// `property_size`.
pub fn property_size(property_id: AudioFilePropertyID) -> (r: u32)
    ensures
        r == spec_property_size(property_id),
{
    if property_id == kAudioFilePropertyDataFormat {
        ASBD_SIZE
    } else if property_id == kAudioFilePropertyAudioDataByteCount || property_id
        == kAudioFilePropertyAudioDataPacketCount {
        8
    } else if property_id == kAudioFilePropertyPacketSizeUpperBound || property_id
        == kAudioFilePropertyMaximumPacketSize {
        4
    } else if property_id == kAudioFilePropertyEstimatedDuration || property_id
        == kAudioFilePropertyPacketToFrame {
        8
    } else if property_id == kAudioFilePropertyPacketTableInfo {
        16
    } else if property_id == kAudioFilePropertyFileFormat {
        4
    } else {
        0
    }
}

/// What `AudioFileGetPropertyInfo` reports: its status, and the size and
/// writability to store where the file is not null.
#[derive(Debug, PartialEq, Eq)]
pub struct PropertyInfo {
    pub status: OSStatus,
    pub data_size_and_writable: Option<(u32, u32)>,
}

/// `AudioFileGetPropertyInfo`: the size of a supported property's value
/// (no property is writable); the magic cookie, the channel layout and
/// unknown properties are unsupported (size 0). A null file is refused with
/// `paramErr`.
#[allow(non_snake_case)]
pub fn AudioFileGetPropertyInfo(in_audio_file: AudioFileID, in_property_id: AudioFilePropertyID) -> (r:
    PropertyInfo)
    ensures
        in_audio_file == 0 ==> r.status == paramErr && r.data_size_and_writable is None,
        in_audio_file != 0 ==> {
            let size = spec_property_size(in_property_id);
            if in_property_id == kAudioFilePropertyMagicCookieData || in_property_id
                == kAudioFilePropertyChannelLayout || size == 0 {
                r.status == kAudioFileUnsupportedPropertyError && r.data_size_and_writable == Some(
                    (0u32, 0u32),
                )
            } else {
                r.status == kAudioFileSuccess && r.data_size_and_writable == Some((size, 0u32))
            }
        },
{
    if in_audio_file == 0 {
        return PropertyInfo { status: paramErr, data_size_and_writable: None };
    }
    if in_property_id == kAudioFilePropertyMagicCookieData || in_property_id
        == kAudioFilePropertyChannelLayout {
        return PropertyInfo {
            status: kAudioFileUnsupportedPropertyError,
            data_size_and_writable: Some((0, 0)),
        };
    }
    let req_size = property_size(in_property_id);
    if req_size == 0 {
        return PropertyInfo {
            status: kAudioFileUnsupportedPropertyError,
            data_size_and_writable: Some((0, 0)),
        };
    }
    PropertyInfo { status: kAudioFileSuccess, data_size_and_writable: Some((req_size, 0)) }
}

/// The value of a property. Durations are floating-point quotients that the
/// caller evaluates from the integers given.
#[derive(Debug, PartialEq, Eq, Structural)]
pub enum PropertyValue {
    Format(AudioStreamBasicDescription),
    U64(u64),
    U32(u32),
    /// A `f64`, as its bit pattern.
    F64Bits(u64),
    /// `byte_count * frames_per_packet / (bytes_per_packet * sample_rate)`.
    DurationFromBytes {
        byte_count: u64,
        frames_per_packet: u32,
        bytes_per_packet: u32,
        sample_rate_bits: u64,
    },
    /// `packet_count * frames_per_packet / sample_rate`.
    DurationFromPackets { packet_count: u64, frames_per_packet: u32, sample_rate_bits: u64 },
}

/// The format flags of a linear PCM stream: float or (for 16 and 24 bits)
/// signed integer samples, packed where the samples fill the packets
/// exactly, big-endian where not little-endian.
pub open spec fn lpcm_flags(is_float: bool, is_little_endian: bool, bits_per_channel: u32, is_packed: bool) -> u32 {
    (if is_float { kAudioFormatFlagIsFloat } else { 0u32 }) | (if !is_float && (bits_per_channel == 16
        || bits_per_channel == 24) {
        kAudioFormatFlagIsSignedInteger
    } else {
        0u32
    }) | (if is_packed { kAudioFormatFlagIsPacked } else { 0u32 }) | (if !is_little_endian {
        kAudioFormatFlagIsBigEndian
    } else {
        0u32
    })
}

/// The stream description reported for a decoded file.
pub open spec fn description_to_asbd(d: AudioDescription) -> AudioStreamBasicDescription {
    match d.format {
        AudioFormat::LinearPcm { is_float, is_little_endian } => {
            let is_packed = d.bits_per_channel * d.channels_per_frame * d.frames_per_packet
                == d.bytes_per_packet * 8;
            AudioStreamBasicDescription {
                sample_rate_bits: d.sample_rate_bits,
                format_id: kAudioFormatLinearPCM,
                format_flags: lpcm_flags(is_float, is_little_endian, d.bits_per_channel, is_packed),
                bytes_per_packet: d.bytes_per_packet,
                frames_per_packet: d.frames_per_packet,
                bytes_per_frame: (d.bytes_per_packet / d.frames_per_packet) as u32,
                channels_per_frame: d.channels_per_frame,
                bits_per_channel: d.bits_per_channel,
                reserved: 0,
            }
        },
        _ => AudioStreamBasicDescription {
            sample_rate_bits: d.sample_rate_bits,
            format_id: match d.format {
                AudioFormat::Mpeg4Aac => kAudioFormatMPEG4AAC,
                AudioFormat::AppleIma4 => kAudioFormatAppleIMA4,
                _ => UNKNOWN_FORMAT_ID,
            },
            format_flags: 0,
            bytes_per_packet: d.bytes_per_packet,
            frames_per_packet: d.frames_per_packet,
            bytes_per_frame: 0,
            channels_per_frame: d.channels_per_frame,
            bits_per_channel: d.bits_per_channel,
            reserved: 0,
        },
    }
}

/// The four-character code that names an encoding: `'lpcm'`, `'aac '`,
/// `'ima4'`, and `'fmt?'` for one that has no description.
pub open spec fn encoding_id(format: AudioFormat) -> u32 {
    match format {
        AudioFormat::LinearPcm { .. } => 0x6c70636d,
        AudioFormat::Mpeg4Aac => 0x61616320,
        AudioFormat::AppleIma4 => 0x696d6134,
        AudioFormat::Other => 0x666d743f,
    }
}

/// Computes the stream description reported for a decoded file.
pub fn asbd_for_description(d: &AudioDescription) -> (r: AudioStreamBasicDescription)
    requires
        d.frames_per_packet != 0,
        d.bits_per_channel * d.channels_per_frame <= u32::MAX,
        d.bits_per_channel * d.channels_per_frame * d.frames_per_packet <= u32::MAX,
        d.bytes_per_packet * 8 <= u32::MAX,
    ensures
        r == description_to_asbd(*d),
        r.format_id == encoding_id(d.format),
        r.sample_rate_bits == d.sample_rate_bits,
        r.bytes_per_packet == d.bytes_per_packet,
        r.frames_per_packet == d.frames_per_packet,
        r.channels_per_frame == d.channels_per_frame,
        r.bits_per_channel == d.bits_per_channel,
{
    match d.format {
        AudioFormat::LinearPcm { is_float, is_little_endian } => {
            let is_packed = d.bits_per_channel * d.channels_per_frame * d.frames_per_packet
                == d.bytes_per_packet * 8;
            let format_flags = (if is_float { kAudioFormatFlagIsFloat } else { 0u32 }) | (if !is_float
                && (d.bits_per_channel == 16 || d.bits_per_channel == 24) {
                kAudioFormatFlagIsSignedInteger
            } else {
                0u32
            }) | (if is_packed { kAudioFormatFlagIsPacked } else { 0u32 }) | (if !is_little_endian {
                kAudioFormatFlagIsBigEndian
            } else {
                0u32
            });
            AudioStreamBasicDescription {
                sample_rate_bits: d.sample_rate_bits,
                format_id: kAudioFormatLinearPCM,
                format_flags,
                bytes_per_packet: d.bytes_per_packet,
                frames_per_packet: d.frames_per_packet,
                bytes_per_frame: d.bytes_per_packet / d.frames_per_packet,
                channels_per_frame: d.channels_per_frame,
                bits_per_channel: d.bits_per_channel,
                reserved: 0,
            }
        },
        _ => {
            let format_id = match d.format {
                AudioFormat::Mpeg4Aac => kAudioFormatMPEG4AAC,
                AudioFormat::AppleIma4 => kAudioFormatAppleIMA4,
                _ => UNKNOWN_FORMAT_ID,
            };
            AudioStreamBasicDescription {
                sample_rate_bits: d.sample_rate_bits,
                format_id,
                format_flags: 0,
                bytes_per_packet: d.bytes_per_packet,
                frames_per_packet: d.frames_per_packet,
                bytes_per_frame: 0,
                channels_per_frame: d.channels_per_frame,
                bits_per_channel: d.bits_per_channel,
                reserved: 0,
            }
        },
    }
}

/// A property of an open file: its value, or `None` where the property is
/// not supported for the file.
pub open spec fn spec_property_value(obj: AudioFileHostObject, id: AudioFilePropertyID) -> Option<
    PropertyValue,
> {
    match obj {
        AudioFileHostObject::Real(f) => {
            let d = f.description;
            if id == kAudioFilePropertyDataFormat {
                Some(PropertyValue::Format(description_to_asbd(d)))
            } else if id == kAudioFilePropertyAudioDataByteCount {
                Some(PropertyValue::U64(f.byte_count))
            } else if id == kAudioFilePropertyAudioDataPacketCount {
                Some(PropertyValue::U64(f.packet_count))
            } else if id == kAudioFilePropertyPacketSizeUpperBound || id
                == kAudioFilePropertyMaximumPacketSize {
                Some(PropertyValue::U32(f.packet_size_upper_bound))
            } else if id == kAudioFilePropertyEstimatedDuration || id
                == kAudioFilePropertyPacketToFrame {
                Some(
                    PropertyValue::DurationFromBytes {
                        byte_count: f.byte_count,
                        frames_per_packet: d.frames_per_packet,
                        bytes_per_packet: d.bytes_per_packet,
                        sample_rate_bits: d.sample_rate_bits,
                    },
                )
            } else if id == kAudioFilePropertyFileFormat {
                Some(PropertyValue::U32(kAudioFileCAFType))
            } else {
                None
            }
        },
        AudioFileHostObject::Dummy { format, byte_count, packet_count } => {
            if id == kAudioFilePropertyDataFormat {
                Some(PropertyValue::Format(format))
            } else if id == kAudioFilePropertyAudioDataByteCount {
                Some(PropertyValue::U64(byte_count))
            } else if id == kAudioFilePropertyAudioDataPacketCount {
                Some(PropertyValue::U64(packet_count))
            } else if id == kAudioFilePropertyPacketSizeUpperBound || id
                == kAudioFilePropertyMaximumPacketSize {
                Some(PropertyValue::U32(format.bytes_per_packet))
            } else if id == kAudioFilePropertyEstimatedDuration {
                Some(
                    PropertyValue::DurationFromPackets {
                        packet_count,
                        frames_per_packet: format.frames_per_packet,
                        sample_rate_bits: format.sample_rate_bits,
                    },
                )
            } else if id == kAudioFilePropertyPacketToFrame {
                Some(PropertyValue::F64Bits(F64_ONE_BITS))
            } else if id == kAudioFilePropertyFileFormat {
                Some(PropertyValue::U32(kAudioFileCAFType))
            } else {
                None
            }
        },
    }
}

fn property_value(obj: &AudioFileHostObject, id: AudioFilePropertyID) -> (r: Option<PropertyValue>)
    requires
        obj.wf(),
    ensures
        r == spec_property_value(*obj, id),
{
    match obj {
        AudioFileHostObject::Real(f) => {
            let d = &f.description;
            if id == kAudioFilePropertyDataFormat {
                Some(PropertyValue::Format(asbd_for_description(d)))
            } else if id == kAudioFilePropertyAudioDataByteCount {
                Some(PropertyValue::U64(f.byte_count))
            } else if id == kAudioFilePropertyAudioDataPacketCount {
                Some(PropertyValue::U64(f.packet_count))
            } else if id == kAudioFilePropertyPacketSizeUpperBound || id
                == kAudioFilePropertyMaximumPacketSize {
                Some(PropertyValue::U32(f.packet_size_upper_bound))
            } else if id == kAudioFilePropertyEstimatedDuration || id
                == kAudioFilePropertyPacketToFrame {
                Some(
                    PropertyValue::DurationFromBytes {
                        byte_count: f.byte_count,
                        frames_per_packet: d.frames_per_packet,
                        bytes_per_packet: d.bytes_per_packet,
                        sample_rate_bits: d.sample_rate_bits,
                    },
                )
            } else if id == kAudioFilePropertyFileFormat {
                Some(PropertyValue::U32(kAudioFileCAFType))
            } else {
                None
            }
        },
        AudioFileHostObject::Dummy { format, byte_count, packet_count } => {
            if id == kAudioFilePropertyDataFormat {
                Some(PropertyValue::Format(*format))
            } else if id == kAudioFilePropertyAudioDataByteCount {
                Some(PropertyValue::U64(*byte_count))
            } else if id == kAudioFilePropertyAudioDataPacketCount {
                Some(PropertyValue::U64(*packet_count))
            } else if id == kAudioFilePropertyPacketSizeUpperBound || id
                == kAudioFilePropertyMaximumPacketSize {
                Some(PropertyValue::U32(format.bytes_per_packet))
            } else if id == kAudioFilePropertyEstimatedDuration {
                Some(
                    PropertyValue::DurationFromPackets {
                        packet_count: *packet_count,
                        frames_per_packet: format.frames_per_packet,
                        sample_rate_bits: format.sample_rate_bits,
                    },
                )
            } else if id == kAudioFilePropertyPacketToFrame {
                Some(PropertyValue::F64Bits(F64_ONE_BITS))
            } else if id == kAudioFilePropertyFileFormat {
                Some(PropertyValue::U32(kAudioFileCAFType))
            } else {
                None
            }
        },
    }
}

/// What `AudioFileGetProperty` reports: its status, the size to store in
/// `ioDataSize` (where one is stored) and the value to store (where one is
/// stored).
#[derive(Debug, PartialEq, Eq, Structural)]
pub struct GetPropertyResult {
    pub status: OSStatus,
    pub io_data_size: Option<u32>,
    pub data: Option<PropertyValue>,
}

/// `AudioFileGetProperty`. `io_data_size` is the size the caller provided
/// (`None` for a null pointer); `out_data_is_null` tells whether the value
/// pointer is null. A null file or size pointer is refused with `paramErr`;
/// an unsupported property with `kAudioFileUnsupportedPropertyError`; a
/// provided size below the value's with `kAudioFileBadPropertySizeError`.
/// Otherwise the value's size is stored back and, where there is somewhere
/// to store it, the value of the open file's property (an unknown handle
/// is `kAudioFileNotOpenError`).
#[allow(non_snake_case)]
pub fn AudioFileGetProperty(
    state: &State,
    in_audio_file: AudioFileID,
    in_property_id: AudioFilePropertyID,
    io_data_size: Option<u32>,
    out_data_is_null: bool,
) -> (r: GetPropertyResult)
    requires
        state.wf(),
    ensures
        ({
            let required = spec_property_size(in_property_id);
            if in_audio_file == 0 || io_data_size is None {
                r.status == paramErr && r.io_data_size is None && r.data is None
            } else if required == 0 {
                r.status == kAudioFileUnsupportedPropertyError && r.io_data_size is None
                    && r.data is None
            } else if io_data_size.unwrap() < required {
                r.status == kAudioFileBadPropertySizeError && r.io_data_size is None
                    && r.data is None
            } else if out_data_is_null {
                r.status == kAudioFileSuccess && r.io_data_size == Some(required) && r.data is None
            } else if !state.audio_files@.contains_key(in_audio_file) {
                r.status == kAudioFileNotOpenError && r.io_data_size == Some(required)
                    && r.data is None
            } else {
                let v = spec_property_value(state.audio_files@[in_audio_file], in_property_id);
                &&& r.io_data_size == Some(required)
                &&& r.data == v
                &&& r.status == (if v is Some {
                    kAudioFileSuccess
                } else {
                    kAudioFileUnsupportedPropertyError
                })
            }
        }),
{
    if in_audio_file == 0 {
        return GetPropertyResult { status: paramErr, io_data_size: None, data: None };
    }
    let provided_size = match io_data_size {
        None => return GetPropertyResult { status: paramErr, io_data_size: None, data: None },
        Some(s) => s,
    };
    let required_size = property_size(in_property_id);
    if required_size == 0 {
        return GetPropertyResult {
            status: kAudioFileUnsupportedPropertyError,
            io_data_size: None,
            data: None,
        };
    }
    if provided_size < required_size {
        return GetPropertyResult {
            status: kAudioFileBadPropertySizeError,
            io_data_size: None,
            data: None,
        };
    }
    if out_data_is_null {
        return GetPropertyResult {
            status: kAudioFileSuccess,
            io_data_size: Some(required_size),
            data: None,
        };
    }
    let host_object = match state.audio_files.get(&in_audio_file) {
        Some(obj) => obj,
        None => {
            return GetPropertyResult {
                status: kAudioFileNotOpenError,
                io_data_size: Some(required_size),
                data: None,
            };
        },
    };
    match property_value(host_object, in_property_id) {
        Some(v) => GetPropertyResult {
            status: kAudioFileSuccess,
            io_data_size: Some(required_size),
            data: Some(v),
        },
        None => GetPropertyResult {
            status: kAudioFileUnsupportedPropertyError,
            io_data_size: Some(required_size),
            data: None,
        },
    }
}

/// How a read of file data proceeds.
#[derive(Debug, PartialEq, Eq, Structural)]
pub enum ReadStep {
    /// Nothing is read: the call returns this status (and stores nothing
    /// back).
    Finished(OSStatus),
    /// The host reads up to `len` bytes of the decoded file's data from
    /// `offset` on; the number it read is then handed to the outcome.
    ReadFile { offset: u64, len: u32 },
    /// The stand-in's data: the buffer's `len` bytes are zeroed, of which
    /// `bytes_read` count as read.
    Zeros { len: u32, bytes_read: u64 },
}

/// A starting position as the stand-in reads it: a negative one wraps to a
/// position past every byte.
pub open spec fn dummy_start(start: i64) -> int {
    if start >= 0 {
        start as int
    } else {
        start + 0x1_0000_0000_0000_0000
    }
}

/// The bytes the stand-in delivers: the requested number, or what is left
/// after the start, whichever is fewer.
pub open spec fn dummy_bytes_read(byte_count: u64, start: i64, requested: u32) -> u64 {
    let left = if byte_count >= dummy_start(start) { byte_count - dummy_start(start) } else { 0 };
    if requested < left {
        requested as u64
    } else {
        left as u64
    }
}

fn dummy_read(byte_count: u64, start: i64, requested: u32) -> (r: u64)
    ensures
        r == dummy_bytes_read(byte_count, start, requested),
        r <= requested,
{
    let s: u64 = if start >= 0 {
        start as u64
    } else {
        (start + 0x7fff_ffff_ffff_ffffi64 + 1) as u64 + 0x8000_0000_0000_0000u64
    };
    let left = byte_count.saturating_sub(s);
    if (requested as u64) < left {
        requested as u64
    } else {
        left
    }
}

/// A file position as the decoder takes it: a negative one reads from 0.
pub open spec fn file_offset(start: i64) -> u64 {
    if start >= 0 {
        start as u64
    } else {
        0
    }
}

/// `AudioFileReadBytes`: `io_num_bytes` is the number of bytes requested
/// (`None` for a null pointer). A null file or count pointer is refused
/// with `paramErr`, an unknown handle with `kAudioFileNotOpenError`;
/// nothing is read where no bytes are requested or the buffer is null.
#[allow(non_snake_case)]
pub fn AudioFileReadBytes(
    state: &State,
    in_audio_file: AudioFileID,
    in_starting_byte: i64,
    io_num_bytes: Option<u32>,
    out_buffer_is_null: bool,
) -> (r: ReadStep)
    ensures
        ({
            if in_audio_file == 0 || io_num_bytes is None {
                r == ReadStep::Finished(paramErr)
            } else if !state.audio_files@.contains_key(in_audio_file) {
                r == ReadStep::Finished(kAudioFileNotOpenError)
            } else if io_num_bytes.unwrap() == 0 || out_buffer_is_null {
                r == ReadStep::Finished(kAudioFileSuccess)
            } else {
                let n = io_num_bytes.unwrap();
                match state.audio_files@[in_audio_file] {
                    AudioFileHostObject::Real(_) => r == ReadStep::ReadFile {
                        offset: file_offset(in_starting_byte),
                        len: n,
                    },
                    AudioFileHostObject::Dummy { byte_count, .. } => r == ReadStep::Zeros {
                        len: n,
                        bytes_read: dummy_bytes_read(byte_count, in_starting_byte, n),
                    },
                }
            }
        }),
{
    if in_audio_file == 0 {
        return ReadStep::Finished(paramErr);
    }
    let bytes_to_read = match io_num_bytes {
        None => return ReadStep::Finished(paramErr),
        Some(n) => n,
    };
    let host_object = match state.audio_files.get(&in_audio_file) {
        Some(obj) => obj,
        None => return ReadStep::Finished(kAudioFileNotOpenError),
    };
    if bytes_to_read == 0 || out_buffer_is_null {
        return ReadStep::Finished(kAudioFileSuccess);
    }
    match host_object {
        AudioFileHostObject::Real(_) => {
            let offset: u64 = if in_starting_byte >= 0 { in_starting_byte as u64 } else { 0 };
            ReadStep::ReadFile { offset, len: bytes_to_read }
        },
        AudioFileHostObject::Dummy { byte_count, .. } => {
            let bytes_read = dummy_read(*byte_count, in_starting_byte, bytes_to_read);
            ReadStep::Zeros { len: bytes_to_read, bytes_read }
        },
    }
}

/// The end of `AudioFileReadBytes` once `bytes_read` bytes were read of
/// `bytes_to_read` requested: the count to store back (0 where it does not
/// fit), and `eofErr` where fewer bytes than requested were read.
pub fn read_bytes_outcome(bytes_to_read: u32, bytes_read: u64) -> (r: (u32, OSStatus))
    ensures
        r.0 == (if bytes_read <= u32::MAX { bytes_read as u32 } else { 0 }),
        r.1 == (if bytes_read < bytes_to_read { eofErr } else { kAudioFileSuccess }),
{
    let stored: u32 = if bytes_read <= 0xffff_ffffu64 { bytes_read as u32 } else { 0 };
    let status = if bytes_read < bytes_to_read as u64 { eofErr } else { kAudioFileSuccess };
    (stored, status)
}

/// How a read of packets proceeds.
#[derive(Debug, PartialEq, Eq, Structural)]
pub enum PacketReadStep {
    /// Nothing is read: the call returns `status`, and stores the packet
    /// and byte counts given (where given).
    Finished { status: OSStatus, num_packets: Option<u32>, num_bytes: Option<u32> },
    /// The host reads up to `len` bytes from `offset` on; the outcome
    /// follows from how many it read.
    ReadFile { offset: u64, len: u32, packet_size: u32 },
    /// The stand-in's data: `len` bytes zeroed, `bytes_read` of them read.
    Zeros { len: u32, bytes_read: u64, packet_size: u32 },
}

/// The fixed packet size of an open file.
pub open spec fn packet_size_of(obj: AudioFileHostObject) -> u32 {
    match obj {
        AudioFileHostObject::Real(f) => f.packet_size_fixed,
        AudioFileHostObject::Dummy { format, .. } => format.bytes_per_packet,
    }
}

/// The step `AudioFileReadPackets` takes (see there).
pub open spec fn spec_read_packets(
    files: Map<AudioFileID, AudioFileHostObject>,
    in_audio_file: AudioFileID,
    in_starting_packet: i64,
    io_num_packets: Option<u32>,
    out_buffer_is_null: bool,
) -> PacketReadStep {
    if in_audio_file == 0 || io_num_packets is None {
        PacketReadStep::Finished { status: paramErr, num_packets: None, num_bytes: None }
    } else if !files.contains_key(in_audio_file) {
        PacketReadStep::Finished { status: kAudioFileNotOpenError, num_packets: None, num_bytes: None }
    } else {
        let obj = files[in_audio_file];
        let packet_size = packet_size_of(obj);
        let packets = io_num_packets.unwrap();
        let start = packet_size * in_starting_packet;
        let len = packets * packet_size;
        if packet_size == 0 || packets == 0 {
            PacketReadStep::Finished {
                status: kAudioFileSuccess,
                num_packets: Some(0u32),
                num_bytes: Some(0u32),
            }
        } else if !(i64::MIN <= start <= i64::MAX) || len > u32::MAX {
            PacketReadStep::Finished {
                status: kAudioFileBadPropertySizeError,
                num_packets: None,
                num_bytes: None,
            }
        } else if out_buffer_is_null {
            PacketReadStep::Finished {
                status: kAudioFileSuccess,
                num_packets: Some(0u32),
                num_bytes: Some(0u32),
            }
        } else {
            match obj {
                AudioFileHostObject::Real(_) => PacketReadStep::ReadFile {
                    offset: file_offset(start as i64),
                    len: len as u32,
                    packet_size,
                },
                AudioFileHostObject::Dummy { byte_count, .. } => PacketReadStep::Zeros {
                    len: len as u32,
                    bytes_read: dummy_bytes_read(byte_count, start as i64, len as u32),
                    packet_size,
                },
            }
        }
    }
}

/// `AudioFileReadPackets` (and `AudioFileReadPacketData`): reads
/// `io_num_packets` fixed-size packets from `in_starting_packet` on. A null
/// file or count pointer is refused with `paramErr`, an unknown handle with
/// `kAudioFileNotOpenError`; a byte position or length that overflows with
/// `kAudioFileBadPropertySizeError`. With a zero packet size, no packets
/// requested or a null buffer, nothing is read and both counts become 0.
#[allow(non_snake_case)]
pub fn AudioFileReadPackets(
    state: &State,
    in_audio_file: AudioFileID,
    in_starting_packet: i64,
    io_num_packets: Option<u32>,
    out_buffer_is_null: bool,
) -> (r: PacketReadStep)
    ensures
        r == spec_read_packets(
            state.audio_files@,
            in_audio_file,
            in_starting_packet,
            io_num_packets,
            out_buffer_is_null,
        ),
{
    if in_audio_file == 0 {
        return PacketReadStep::Finished { status: paramErr, num_packets: None, num_bytes: None };
    }
    let packets_to_read = match io_num_packets {
        None => return PacketReadStep::Finished { status: paramErr, num_packets: None, num_bytes: None },
        Some(n) => n,
    };
    let host_object = match state.audio_files.get(&in_audio_file) {
        Some(obj) => obj,
        None => return PacketReadStep::Finished {
            status: kAudioFileNotOpenError,
            num_packets: None,
            num_bytes: None,
        },
    };
    let packet_size = match host_object {
        AudioFileHostObject::Real(f) => f.packet_size_fixed,
        AudioFileHostObject::Dummy { format, .. } => format.bytes_per_packet,
    };
    if packet_size == 0 || packets_to_read == 0 {
        return PacketReadStep::Finished {
            status: kAudioFileSuccess,
            num_packets: Some(0),
            num_bytes: Some(0),
        };
    }
    let starting_byte = match (packet_size as i64).checked_mul(in_starting_packet) {
        Some(v) => v,
        None => return PacketReadStep::Finished {
            status: kAudioFileBadPropertySizeError,
            num_packets: None,
            num_bytes: None,
        },
    };
    let bytes_to_read = match packets_to_read.checked_mul(packet_size) {
        Some(v) => v,
        None => return PacketReadStep::Finished {
            status: kAudioFileBadPropertySizeError,
            num_packets: None,
            num_bytes: None,
        },
    };
    if out_buffer_is_null {
        return PacketReadStep::Finished {
            status: kAudioFileSuccess,
            num_packets: Some(0),
            num_bytes: Some(0),
        };
    }
    match host_object {
        AudioFileHostObject::Real(_) => {
            let offset: u64 = if starting_byte >= 0 { starting_byte as u64 } else { 0 };
            PacketReadStep::ReadFile { offset, len: bytes_to_read, packet_size }
        },
        AudioFileHostObject::Dummy { byte_count, .. } => {
            let bytes_read = dummy_read(*byte_count, starting_byte, bytes_to_read);
            PacketReadStep::Zeros { len: bytes_to_read, bytes_read, packet_size }
        },
    }
}

/// `AudioFileReadPacketData`: as `AudioFileReadPackets`.
#[allow(non_snake_case)]
pub fn AudioFileReadPacketData(
    state: &State,
    in_audio_file: AudioFileID,
    in_starting_packet: i64,
    io_num_packets: Option<u32>,
    out_buffer_is_null: bool,
) -> (r: PacketReadStep)
    ensures
        r == spec_read_packets(
            state.audio_files@,
            in_audio_file,
            in_starting_packet,
            io_num_packets,
            out_buffer_is_null,
        ),
{
    AudioFileReadPackets(state, in_audio_file, in_starting_packet, io_num_packets, out_buffer_is_null)
}

/// The end of a packet read once `bytes_read` of `bytes_to_read` bytes were
/// read: the status (`eofErr` where fewer bytes than requested were read),
/// the whole packets read, and the bytes read.
pub fn read_packets_outcome(bytes_to_read: u32, bytes_read: u32, packet_size: u32) -> (r: (
    OSStatus,
    u32,
    u32,
))
    requires
        packet_size > 0,
    ensures
        r.0 == (if bytes_read < bytes_to_read { eofErr } else { kAudioFileSuccess }),
        r.1 == bytes_read / packet_size,
        r.2 == bytes_read,
{
    let packets_read = bytes_read / packet_size;
    let status = if bytes_read < bytes_to_read { eofErr } else { kAudioFileSuccess };
    (status, packets_read, bytes_read)
}

/// What `AudioFileClose` returns, and the open files after it.
pub open spec fn spec_close(files: Map<AudioFileID, AudioFileHostObject>, in_audio_file: AudioFileID) -> (
    OSStatus,
    Map<AudioFileID, AudioFileHostObject>,
) {
    if in_audio_file == 0 {
        (paramErr, files)
    } else if files.contains_key(in_audio_file) {
        (kAudioFileSuccess, files.remove(in_audio_file))
    } else {
        (kAudioFileUnspecifiedError, files)
    }
}

/// `AudioFileClose`: forgets an open file (whose handle the caller then
/// frees). A null file is refused with `paramErr`; a handle that is not
/// open (closed twice, say) with `kAudioFileUnspecifiedError`.
#[allow(non_snake_case)]
pub fn AudioFileClose(state: &mut State, in_audio_file: AudioFileID) -> (r: OSStatus)
    requires
        old(state).wf(),
    ensures
        final(state).wf(),
        (r, final(state).audio_files@) == spec_close(old(state).audio_files@, in_audio_file),
{
    if in_audio_file == 0 {
        return paramErr;
    }
    match state.audio_files.remove(&in_audio_file) {
        Some(_) => kAudioFileSuccess,
        None => kAudioFileUnspecifiedError,
    }
}

/// `AudioFormatGetPropertyInfo`: no format property is supported.
#[allow(non_snake_case)]
pub fn AudioFormatGetPropertyInfo() -> (r: OSStatus)
    ensures
        r == paramErr,
{
    paramErr
}

/// A file just opened under a handle closes successfully, and closing the
/// handle again fails with `kAudioFileUnspecifiedError`.
pub proof fn lemma_open_then_close_twice(
    files: Map<AudioFileID, AudioFileHostObject>,
    handle: AudioFileID,
    obj: AudioFileHostObject,
)
    requires
        handle != 0,
    ensures
        spec_close(files.insert(handle, obj), handle).0 == kAudioFileSuccess,
        spec_close(spec_close(files.insert(handle, obj), handle).1, handle).0
            == kAudioFileUnspecifiedError,
        spec_close(files.insert(handle, obj), handle).1 == files.remove(handle),
{
    assert(files.insert(handle, obj).remove(handle) =~= files.remove(handle));
}

/// Any open file closes successfully and is forgotten; closing its handle
/// again fails with `kAudioFileUnspecifiedError` and changes nothing.
pub proof fn lemma_close_twice(files: Map<AudioFileID, AudioFileHostObject>, handle: AudioFileID)
    requires
        files_wf(files),
        files.contains_key(handle),
    ensures
        spec_close(files, handle) == (kAudioFileSuccess, files.remove(handle)),
        spec_close(files.remove(handle), handle) == (kAudioFileUnspecifiedError, files.remove(handle)),
        files_wf(files.remove(handle)),
{
}

/// The data format reported for a decoded file names the file's encoding
/// (`'lpcm'`, `'aac '`, `'ima4'`, or `'fmt?'` for another), carries its
/// sample rate and its packet, frame and channel layout through unchanged,
/// and gives flags and a frame size only to linear PCM, whose frame size is
/// the packet size over the frames per packet.
pub proof fn lemma_reported_data_format(f: RealAudioFile)
    ensures
        match spec_property_value(AudioFileHostObject::Real(f), kAudioFilePropertyDataFormat) {
            Some(PropertyValue::Format(a)) => {
                let d = f.description;
                &&& (d.format is Mpeg4Aac ==> a.format_id == 0x61616320)
                &&& (d.format is AppleIma4 ==> a.format_id == 0x696d6134)
                &&& (d.format is LinearPcm ==> a.format_id == 0x6c70636d)
                &&& (d.format is Other ==> a.format_id == 0x666d743f)
                &&& a.sample_rate_bits == d.sample_rate_bits
                &&& a.bytes_per_packet == d.bytes_per_packet
                &&& a.frames_per_packet == d.frames_per_packet
                &&& a.channels_per_frame == d.channels_per_frame
                &&& a.bits_per_channel == d.bits_per_channel
                &&& a.reserved == 0
                &&& (d.format is LinearPcm && d.frames_per_packet != 0 ==> a.bytes_per_frame
                    * d.frames_per_packet <= d.bytes_per_packet < (a.bytes_per_frame + 1)
                    * d.frames_per_packet)
                &&& (!(d.format is LinearPcm) ==> a.format_flags == 0 && a.bytes_per_frame == 0)
            },
            _ => false,
        },
{
    let d = f.description;
    if d.format is LinearPcm && d.frames_per_packet != 0 {
        let q = d.bytes_per_packet / d.frames_per_packet;
        assert(q * d.frames_per_packet <= d.bytes_per_packet < (q + 1) * d.frames_per_packet)
            by (nonlinear_arith)
            requires
                d.frames_per_packet > 0,
                q == d.bytes_per_packet / d.frames_per_packet,
        ;
    }
}

/// A decoded file reports its own byte and packet counts, its packet size
/// upper bound as both the upper bound and the maximum packet size, the CAF
/// file type, and its duration from its byte count; it does not report a
/// packet table. The stand-in reports a packet-to-frame factor of 1.0 and
/// its duration from its packet count.
pub proof fn lemma_property_values(f: RealAudioFile, format: AudioStreamBasicDescription, bytes: u64, packets: u64)
    ensures
        ({
            let o = AudioFileHostObject::Real(f);
            &&& spec_property_value(o, kAudioFilePropertyAudioDataByteCount) == Some(
                PropertyValue::U64(f.byte_count),
            )
            &&& spec_property_value(o, kAudioFilePropertyAudioDataPacketCount) == Some(
                PropertyValue::U64(f.packet_count),
            )
            &&& spec_property_value(o, kAudioFilePropertyPacketSizeUpperBound) == Some(
                PropertyValue::U32(f.packet_size_upper_bound),
            )
            &&& spec_property_value(o, kAudioFilePropertyMaximumPacketSize) == Some(
                PropertyValue::U32(f.packet_size_upper_bound),
            )
            &&& spec_property_value(o, kAudioFilePropertyFileFormat) == Some(
                PropertyValue::U32(0x63616666),
            )
            &&& spec_property_value(o, kAudioFilePropertyEstimatedDuration) == Some(
                PropertyValue::DurationFromBytes {
                    byte_count: f.byte_count,
                    frames_per_packet: f.description.frames_per_packet,
                    bytes_per_packet: f.description.bytes_per_packet,
                    sample_rate_bits: f.description.sample_rate_bits,
                },
            )
            &&& spec_property_value(o, kAudioFilePropertyPacketTableInfo) is None
        }),
        ({
            let d = AudioFileHostObject::Dummy { format, byte_count: bytes, packet_count: packets };
            &&& spec_property_value(d, kAudioFilePropertyDataFormat) == Some(PropertyValue::Format(format))
            &&& spec_property_value(d, kAudioFilePropertyPacketToFrame) == Some(
                PropertyValue::F64Bits(0x3ff0000000000000),
            )
            &&& spec_property_value(d, kAudioFilePropertyEstimatedDuration) == Some(
                PropertyValue::DurationFromPackets {
                    packet_count: packets,
                    frames_per_packet: format.frames_per_packet,
                    sample_rate_bits: format.sample_rate_bits,
                },
            )
            &&& spec_property_value(d, kAudioFilePropertyMaximumPacketSize) == Some(
                PropertyValue::U32(format.bytes_per_packet),
            )
        }),
{
}

/// Reading packets reads `count` packets of the file's fixed size from the
/// byte `size * start` on (a negative position reads from 0); a stand-in
/// delivers what is left of its bytes after that position, at most the
/// bytes requested.
pub proof fn lemma_read_packets_positions(
    files: Map<AudioFileID, AudioFileHostObject>,
    handle: AudioFileID,
    start: i64,
    count: u32,
)
    requires
        handle != 0,
        files.contains_key(handle),
        packet_size_of(files[handle]) > 0,
        count > 0,
        count * packet_size_of(files[handle]) <= u32::MAX,
        i64::MIN <= packet_size_of(files[handle]) * start <= i64::MAX,
    ensures
        ({
            let size = packet_size_of(files[handle]);
            let pos = size * start;
            match spec_read_packets(files, handle, start, Some(count), false) {
                PacketReadStep::ReadFile { offset, len, packet_size } => files[handle] is Real && len
                    == count * size && packet_size == size && offset == (if pos >= 0 {
                    pos
                } else {
                    0
                }),
                PacketReadStep::Zeros { len, bytes_read, packet_size } => files[handle] is Dummy && len
                    == count * size && packet_size == size && bytes_read <= len && (pos >= 0 && pos
                    + len <= files[handle]->byte_count ==> bytes_read == len),
                PacketReadStep::Finished { .. } => false,
            }
        }),
{
}

/// Each property's size is that of its value in guest memory: 40 bytes for
/// a stream description, 8 for the `u64` counts and the `f64` durations, 4
/// for the `u32` packet sizes and file type, 16 for a packet table; the
/// magic cookie and the channel layout have none, and `AudioFileGetPropertyInfo`
/// reports them unsupported.
pub proof fn lemma_property_sizes()
    ensures
        spec_property_size(0x64666d74) == 40,
        spec_property_size(0x62636e74) == 8,
        spec_property_size(0x70636e74) == 8,
        spec_property_size(0x706b7562) == 4,
        spec_property_size(0x70737a65) == 4,
        spec_property_size(0x65647572) == 8,
        spec_property_size(0x666c7374) == 8,
        spec_property_size(0x706e666f) == 16,
        spec_property_size(0x66666d74) == 4,
        spec_property_size(0x6d676963) == 0,
        spec_property_size(0x636d6170) == 0,
{
}

/// The stand-in that replaces an unreadable file reports its silent
/// format, its byte and packet counts, and a fixed packet size of four
/// bytes.
pub proof fn lemma_dummy_properties()
    ensures
        spec_property_value(dummy_audio_file(), kAudioFilePropertyDataFormat) == Some(
            PropertyValue::Format(dummy_format()),
        ),
        spec_property_value(dummy_audio_file(), kAudioFilePropertyAudioDataByteCount) == Some(
            PropertyValue::U64(352800),
        ),
        spec_property_value(dummy_audio_file(), kAudioFilePropertyAudioDataPacketCount) == Some(
            PropertyValue::U64(88200),
        ),
        packet_size_of(dummy_audio_file()) == 4,
{
}

/// Reading the stand-in never yields more bytes than requested or than
/// remain after the start; a request that runs past its end reports
/// `eofErr`, one that stays within it success.
pub proof fn lemma_dummy_read_bounds(byte_count: u64, start: i64, requested: u32)
    ensures
        dummy_bytes_read(byte_count, start, requested) <= requested,
        start >= 0 && start + requested <= byte_count ==> dummy_bytes_read(
            byte_count,
            start,
            requested,
        ) == requested,
        start >= 0 && requested > 0 && start + requested > byte_count ==> dummy_bytes_read(
            byte_count,
            start,
            requested,
        ) < requested,
{
}

/// The packets reported read fit in the bytes read, and every whole packet
/// in them is reported.
pub proof fn lemma_packets_read_fit(bytes_read: u32, packet_size: u32)
    requires
        packet_size > 0,
    ensures
        (bytes_read / packet_size) * packet_size <= bytes_read,
        bytes_read - (bytes_read / packet_size) * packet_size < packet_size,
{
    let q = bytes_read / packet_size;
    let r = bytes_read % packet_size;
    assert(bytes_read == q * packet_size + r) by (nonlinear_arith)
        requires
            q == bytes_read / packet_size,
            r == bytes_read % packet_size,
            packet_size > 0,
    ;
}

} // verus!
