//! `AudioUnit.h` (Audio Unit Services): the state of audio unit instances
//! and the decisions of their property, parameter, start/stop and render
//! calls. OpenAL, the clock and the guest's render callback are the host's
//! work; floating-point values are carried as their bit patterns.

use vstd::prelude::*;
use std::collections::HashMap;
use crate::frameworks::core_audio_types::{AudioStreamBasicDescription, OSStatus, paramErr, ASBD_SIZE};

verus! {

broadcast use vstd::std_specs::hash::group_hash_axioms;

/// `AudioUnit`: the guest address of an audio unit instance.
pub type AudioUnit = u32;

pub type AudioUnitPropertyID = u32;

pub type AudioUnitScope = u32;

pub type AudioUnitElement = u32;

pub type AudioUnitParameterID = u32;

#[allow(non_upper_case_globals)]
pub const kAudioUnitScope_Global: AudioUnitScope = 0;

#[allow(non_upper_case_globals)]
pub const kAudioUnitScope_Input: AudioUnitScope = 1;

#[allow(non_upper_case_globals)]
pub const kAudioUnitScope_Output: AudioUnitScope = 2;

#[allow(non_upper_case_globals)]
pub const kAudioUnitProperty_MakeConnection: AudioUnitPropertyID = 1;

#[allow(non_upper_case_globals)]
pub const kAudioUnitProperty_SampleRate: AudioUnitPropertyID = 2;

#[allow(non_upper_case_globals)]
pub const kAudioUnitProperty_StreamFormat: AudioUnitPropertyID = 8;

#[allow(non_upper_case_globals)]
pub const kAudioUnitProperty_MaximumFramesPerSlice: AudioUnitPropertyID = 14;

#[allow(non_upper_case_globals)]
pub const kAudioUnitProperty_SetRenderCallback: AudioUnitPropertyID = 23;

#[allow(non_upper_case_globals)]
pub const kAudioOutputUnitProperty_IsRunning: AudioUnitPropertyID = 2001;

#[allow(non_upper_case_globals)]
pub const kAudioOutputUnitProperty_EnableIO: AudioUnitPropertyID = 2003;

#[allow(non_upper_case_globals)]
pub const kAudioOutputUnitProperty_SetInputCallback: AudioUnitPropertyID = 2005;

/// `kAudioUnitProperty_3DMixerDistanceParams` (`'3ddp'`).
#[allow(non_upper_case_globals)]
pub const kAudioUnitProperty_3DMixerDistanceParams: AudioUnitPropertyID = 0x33646470;

/// `kAudioUnitProperty_MatrixLevels` (`'mxmv'`).
#[allow(non_upper_case_globals)]
pub const kAudioUnitProperty_MatrixLevels: AudioUnitPropertyID = 0x6d786d76;

/// `kAudioUnitProperty_SpatializationAlgorithm` (`'spat'`).
#[allow(non_upper_case_globals)]
pub const kAudioUnitProperty_SpatializationAlgorithm: AudioUnitPropertyID = 0x73706174;

/// `kAudioUnitProperty_3DMixerRenderingFlags` (`'3drf'`).
#[allow(non_upper_case_globals)]
pub const kAudioUnitProperty_3DMixerRenderingFlags: AudioUnitPropertyID = 0x33647266;

#[allow(non_upper_case_globals)]
pub const k3DMixerParam_Azimuth: AudioUnitParameterID = 0;

#[allow(non_upper_case_globals)]
pub const k3DMixerParam_Elevation: AudioUnitParameterID = 1;

#[allow(non_upper_case_globals)]
pub const k3DMixerParam_Distance: AudioUnitParameterID = 2;

/// The bit pattern of the `f32` 1.0.
pub const F32_ONE_BITS: u32 = 0x3f800000;

/// The most frames rendered at once.
pub const MAX_RENDER_FRAMES: u32 = 2048;

/// `AudioBuffer`: a buffer of interleaved samples in guest memory.
#[derive(Clone, Copy, Debug, PartialEq, Eq, Structural)]
pub struct AudioBuffer {
    pub number_channels: u32,
    pub data_byte_size: u32,
    pub data: u32,
}

/// `AudioBufferList` with `COUNT` buffers.
#[derive(Debug, PartialEq, Eq)]
pub struct AudioBufferList<const COUNT: usize> {
    pub number_buffers: u32,
    pub buffers: [AudioBuffer; COUNT],
}

/// `MixerDistanceParams` of the 3D mixer (`f32` fields as bit patterns).
#[derive(Clone, Copy, Debug, PartialEq, Eq, Structural)]
pub struct MixerDistanceParams {
    pub reference_distance_bits: u32,
    pub maximum_distance_bits: u32,
    pub rolloff_factor_bits: u32,
}

/// `AURenderCallbackStruct`: the guest's render function and its context.
#[derive(Clone, Copy, Debug, PartialEq, Eq, Structural)]
pub struct AURenderCallbackStruct {
    pub input_proc: u32,
    pub input_proc_ref_con: u32,
}

/// A position in space (`f32` coordinates as bit patterns).
#[derive(Clone, Copy, Debug, PartialEq, Eq, Structural)]
pub struct PositionBits {
    pub x: u32,
    pub y: u32,
    pub z: u32,
}

/// A bus of the 3D mixer: its distance parameters, the OpenAL source that
/// plays it (if any), and its position (`f32` bit patterns).
#[derive(Clone, Copy, Debug, PartialEq, Eq, Structural)]
pub struct MixerBus {
    pub distance_params: MixerDistanceParams,
    pub al_source: Option<u32>,
    pub position_bits: PositionBits,
}

/// A new bus: zero parameters and position, no source.
pub open spec fn default_bus() -> MixerBus {
    MixerBus {
        distance_params: MixerDistanceParams {
            reference_distance_bits: 0,
            maximum_distance_bits: 0,
            rolloff_factor_bits: 0,
        },
        al_source: None,
        position_bits: PositionBits { x: 0, y: 0, z: 0 },
    }
}

fn new_bus() -> (r: MixerBus)
    ensures
        r == default_bus(),
{
    MixerBus {
        distance_params: MixerDistanceParams {
            reference_distance_bits: 0,
            maximum_distance_bits: 0,
            rolloff_factor_bits: 0,
        },
        al_source: None,
        position_bits: PositionBits { x: 0, y: 0, z: 0 },
    }
}

/// The state of an audio unit instance. Times are the host clock's
/// readings.
#[derive(Debug)]
pub struct AudioUnitHostObject {
    pub mixer_buses: HashMap<AudioUnitElement, MixerBus>,
    pub render_callback: Option<AURenderCallbackStruct>,
    pub global_stream_format: AudioStreamBasicDescription,
    pub output_stream_format: Option<AudioStreamBasicDescription>,
    pub input_stream_format: Option<AudioStreamBasicDescription>,
    pub maximum_frames_per_slice: u32,
    pub started: bool,
    pub al_source: Option<u32>,
    pub last_render_time: Option<u64>,
    pub is_running_handler: bool,
}

/// The audio unit instances, by address.
pub struct AudioUnits {
    pub instances: HashMap<AudioUnit, AudioUnitHostObject>,
}

/// The value passed to `AudioUnitSetProperty`, as read from guest memory
/// according to the property.
#[derive(Debug, PartialEq, Eq, Structural)]
pub enum SetPropertyData {
    DistanceParams(MixerDistanceParams),
    RenderCallback(AURenderCallbackStruct),
    StreamFormat(AudioStreamBasicDescription),
    /// A `f64` sample rate, as its bit pattern.
    SampleRate(u64),
    MaximumFrames(u32),
    /// A value that is read and ignored.
    Ignored,
}

/// What `AudioUnitSetProperty` reads from guest memory for a property.
#[derive(Debug, PartialEq, Eq, Structural)]
pub enum SetPropertyDataKind {
    DistanceParams,
    RenderCallback,
    StreamFormat,
    SampleRate,
    MaximumFrames,
    /// An `AudioUnitConnection` or an `u32` flag, read and ignored.
    Ignored,
    /// Nothing is read.
    Nothing,
}

/// The kind of value read for a property.
pub open spec fn spec_set_property_data_kind(id: AudioUnitPropertyID) -> SetPropertyDataKind {
    if id == kAudioUnitProperty_3DMixerDistanceParams {
        SetPropertyDataKind::DistanceParams
    } else if id == kAudioUnitProperty_SetRenderCallback || id
        == kAudioOutputUnitProperty_SetInputCallback {
        SetPropertyDataKind::RenderCallback
    } else if id == kAudioUnitProperty_StreamFormat {
        SetPropertyDataKind::StreamFormat
    } else if id == kAudioUnitProperty_SampleRate {
        SetPropertyDataKind::SampleRate
    } else if id == kAudioUnitProperty_MaximumFramesPerSlice {
        SetPropertyDataKind::MaximumFrames
    } else if id == kAudioUnitProperty_MakeConnection || id == kAudioOutputUnitProperty_EnableIO {
        SetPropertyDataKind::Ignored
    } else {
        SetPropertyDataKind::Nothing
    }
}

/// Which value `AudioUnitSetProperty` reads for a property.
pub fn set_property_data_kind(id: AudioUnitPropertyID) -> (r: SetPropertyDataKind)
    ensures
        r == spec_set_property_data_kind(id),
{
    if id == kAudioUnitProperty_3DMixerDistanceParams {
        SetPropertyDataKind::DistanceParams
    } else if id == kAudioUnitProperty_SetRenderCallback || id
        == kAudioOutputUnitProperty_SetInputCallback {
        SetPropertyDataKind::RenderCallback
    } else if id == kAudioUnitProperty_StreamFormat {
        SetPropertyDataKind::StreamFormat
    } else if id == kAudioUnitProperty_SampleRate {
        SetPropertyDataKind::SampleRate
    } else if id == kAudioUnitProperty_MaximumFramesPerSlice {
        SetPropertyDataKind::MaximumFrames
    } else if id == kAudioUnitProperty_MakeConnection || id == kAudioOutputUnitProperty_EnableIO {
        SetPropertyDataKind::Ignored
    } else {
        SetPropertyDataKind::Nothing
    }
}

/// The stream format a scope reports: the input or output format where
/// one was set, the global one otherwise.
pub open spec fn scope_format(obj: AudioUnitHostObject, scope: AudioUnitScope) -> AudioStreamBasicDescription {
    if scope == kAudioUnitScope_Output {
        match obj.output_stream_format {
            Some(f) => f,
            None => obj.global_stream_format,
        }
    } else if scope == kAudioUnitScope_Input {
        match obj.input_stream_format {
            Some(f) => f,
            None => obj.global_stream_format,
        }
    } else {
        obj.global_stream_format
    }
}

/// A value that `AudioUnitGetProperty` stores, with its size.
#[derive(Debug, PartialEq, Eq, Structural)]
pub enum UnitPropertyValue {
    U32(u32),
    StreamFormat(AudioStreamBasicDescription),
    /// A `f64`, as its bit pattern.
    F64Bits(u64),
}

/// What `AudioUnitGetProperty` reports for an instance: the value and its
/// size, or `None` (status -1) for a property it does not answer.
pub open spec fn spec_get_property(obj: AudioUnitHostObject, id: AudioUnitPropertyID, scope: AudioUnitScope) -> Option<
    (UnitPropertyValue, u32),
> {
    if id == kAudioUnitProperty_MaximumFramesPerSlice {
        Some((UnitPropertyValue::U32(obj.maximum_frames_per_slice), 4u32))
    } else if id == kAudioUnitProperty_StreamFormat {
        Some((UnitPropertyValue::StreamFormat(scope_format(obj, scope)), ASBD_SIZE))
    } else if id == kAudioUnitProperty_SampleRate {
        Some((UnitPropertyValue::F64Bits(obj.global_stream_format.sample_rate_bits), 8u32))
    } else if id == kAudioOutputUnitProperty_IsRunning {
        Some((UnitPropertyValue::U32(if obj.started { 1u32 } else { 0u32 }), 4u32))
    } else {
        None
    }
}

/// What a render does.
#[derive(Debug, PartialEq, Eq, Structural)]
pub enum RenderPlan {
    /// Nothing is rendered.
    Skip,
    /// The guest's callback renders `frames` (computed by the caller from
    /// the time since `last_render_time` at `sample_rate_bits`) in
    /// `stream_format`, into one buffer where the unit has an input format
    /// and two otherwise; the result is queued on `al_source`.
    Render {
        sample_rate_bits: u64,
        stream_format: AudioStreamBasicDescription,
        has_input_format: bool,
        al_source: u32,
        last_render_time: u64,
        callback: AURenderCallbackStruct,
    },
}

/// The render an instance does once it is marked as rendering.
pub open spec fn spec_render_plan(o: AudioUnitHostObject, hardware_sample_rate_bits: u64) -> RenderPlan {
    let sample_rate_bits = match o.input_stream_format {
        Some(f) => f.sample_rate_bits,
        None => hardware_sample_rate_bits,
    };
    let stream_format = match o.input_stream_format {
        Some(f) => f,
        None => match o.output_stream_format {
            Some(f) => f,
            None => o.global_stream_format,
        },
    };
    match (o.al_source, o.last_render_time, o.render_callback) {
        (Some(al_source), Some(last_render_time), Some(callback)) => RenderPlan::Render {
            sample_rate_bits,
            stream_format,
            has_input_format: o.input_stream_format is Some,
            al_source,
            last_render_time,
            callback,
        },
        _ => RenderPlan::Skip,
    }
}

/// The buffers handed to the guest's render callback.
#[derive(Debug, PartialEq, Eq)]
pub enum RenderBuffers {
    One(AudioBufferList<1>),
    Two(AudioBufferList<2>),
}

/// The size of each render buffer: `frames` frames of the stream format's
/// channels, at whole bytes per sample.
pub open spec fn render_buffer_size(frames: u32, format: AudioStreamBasicDescription) -> int {
    frames * format.channels_per_frame * (format.bits_per_channel / 8)
}

/// The buffer list for a render: one buffer (at `data1`) where the unit has
/// an input format, two (at `data1` and `data2`) otherwise, each of
/// `render_buffer_size` bytes with the stream format's channel count.
pub fn render_buffers(
    stream_format: &AudioStreamBasicDescription,
    frames: u32,
    has_input_format: bool,
    data1: u32,
    data2: u32,
) -> (r: RenderBuffers)
    requires
        frames * stream_format.channels_per_frame <= u32::MAX,
        render_buffer_size(frames, *stream_format) <= u32::MAX,
    ensures
        ({
            let b1 = AudioBuffer {
                number_channels: stream_format.channels_per_frame,
                data_byte_size: render_buffer_size(frames, *stream_format) as u32,
                data: data1,
            };
            let b2 = AudioBuffer { data: data2, ..b1 };
            match r {
                RenderBuffers::One(l) => has_input_format && l.number_buffers == 1 && l.buffers@
                    == seq![b1],
                RenderBuffers::Two(l) => !has_input_format && l.number_buffers == 2 && l.buffers@
                    == seq![b1, b2],
            }
        }),
{
    let samples = frames * stream_format.channels_per_frame;
    let buffer_size = samples * (stream_format.bits_per_channel / 8);
    let b1 = AudioBuffer {
        number_channels: stream_format.channels_per_frame,
        data_byte_size: buffer_size,
        data: data1,
    };
    if has_input_format {
        let l = AudioBufferList::<1> { number_buffers: 1, buffers: [b1] };
        assert(l.buffers@ =~= seq![b1]);
        RenderBuffers::One(l)
    } else {
        let b2 = AudioBuffer { data: data2, ..b1 };
        let l = AudioBufferList::<2> { number_buffers: 2, buffers: [b1, b2] };
        assert(l.buffers@ =~= seq![b1, b2]);
        RenderBuffers::Two(l)
    }
}

/// The bus that a property or parameter addresses: the element's bus, or
/// a new one where the element has none yet.
pub open spec fn bus_of(o: AudioUnitHostObject, element: AudioUnitElement) -> MixerBus {
    if o.mixer_buses@.contains_key(element) {
        o.mixer_buses@[element]
    } else {
        default_bus()
    }
}

/// What `AudioUnitSetProperty` may change: the mixer buses, the render
/// callback, the global, output and input stream formats and the maximum
/// frames per slice.
pub open spec fn settings(o: AudioUnitHostObject) -> (
    Map<AudioUnitElement, MixerBus>,
    Option<AURenderCallbackStruct>,
    AudioStreamBasicDescription,
    Option<AudioStreamBasicDescription>,
    Option<AudioStreamBasicDescription>,
    u32,
) {
    (
        o.mixer_buses@,
        o.render_callback,
        o.global_stream_format,
        o.output_stream_format,
        o.input_stream_format,
        o.maximum_frames_per_slice,
    )
}

/// The playing state, which only starting, stopping, resetting and
/// rendering change.
pub open spec fn same_run_state(n: AudioUnitHostObject, o: AudioUnitHostObject) -> bool {
    &&& n.started == o.started
    &&& n.al_source == o.al_source
    &&& n.last_render_time == o.last_render_time
    &&& n.is_running_handler == o.is_running_handler
}

/// The settings after `AudioUnitSetProperty` stores a value: distance
/// parameters go to the element's bus, a render or input callback becomes
/// the render callback, a stream format goes to its scope (other scopes
/// are ignored), the sample rate into the global format, the maximum frames
/// per slice as they are. A value that does not belong to the property, or
/// a property that is not stored, changes nothing.
pub open spec fn settings_after_set(
    o: AudioUnitHostObject,
    id: AudioUnitPropertyID,
    scope: AudioUnitScope,
    element: AudioUnitElement,
    data: SetPropertyData,
) -> (
    Map<AudioUnitElement, MixerBus>,
    Option<AURenderCallbackStruct>,
    AudioStreamBasicDescription,
    Option<AudioStreamBasicDescription>,
    Option<AudioStreamBasicDescription>,
    u32,
) {
    let (buses, callback, global, output, input, frames) = settings(o);
    match data {
        SetPropertyData::DistanceParams(p) => if id == kAudioUnitProperty_3DMixerDistanceParams {
            (
                buses.insert(element, (MixerBus { distance_params: p, ..bus_of(o, element) })),
                callback,
                global,
                output,
                input,
                frames,
            )
        } else {
            settings(o)
        },
        SetPropertyData::RenderCallback(cb) => if id == kAudioUnitProperty_SetRenderCallback || id
            == kAudioOutputUnitProperty_SetInputCallback {
            (buses, Some(cb), global, output, input, frames)
        } else {
            settings(o)
        },
        SetPropertyData::StreamFormat(f) => if id == kAudioUnitProperty_StreamFormat {
            (
                buses,
                callback,
                if scope == kAudioUnitScope_Global { f } else { global },
                if scope == kAudioUnitScope_Output { Some(f) } else { output },
                if scope == kAudioUnitScope_Input { Some(f) } else { input },
                frames,
            )
        } else {
            settings(o)
        },
        SetPropertyData::SampleRate(bits) => if id == kAudioUnitProperty_SampleRate {
            (
                buses,
                callback,
                AudioStreamBasicDescription { sample_rate_bits: bits, ..global },
                output,
                input,
                frames,
            )
        } else {
            settings(o)
        },
        SetPropertyData::MaximumFrames(n) => if id == kAudioUnitProperty_MaximumFramesPerSlice {
            (buses, callback, global, output, input, n)
        } else {
            settings(o)
        },
        SetPropertyData::Ignored => settings(o),
    }
}

/// The position of the element's bus after a 3D mixer parameter is set:
/// the azimuth sets x to `sin` and z to `-cos` of the angle, the elevation
/// y to `sin`; the distance leaves it as it is.
pub open spec fn position_after(
    o: AudioUnitHostObject,
    id: AudioUnitParameterID,
    element: AudioUnitElement,
    sin_bits: u32,
    neg_cos_bits: u32,
) -> PositionBits {
    let p = bus_of(o, element).position_bits;
    if id == k3DMixerParam_Azimuth {
        PositionBits { x: sin_bits, y: p.y, z: neg_cos_bits }
    } else if id == k3DMixerParam_Elevation {
        PositionBits { x: p.x, y: sin_bits, z: p.z }
    } else {
        p
    }
}

/// The OpenAL source to update, with the new distance parameters, after
/// distance parameters are set on a bus that plays through one.
pub open spec fn distance_update(
    o: AudioUnitHostObject,
    id: AudioUnitPropertyID,
    element: AudioUnitElement,
    data: SetPropertyData,
) -> Option<(u32, MixerDistanceParams)> {
    match data {
        SetPropertyData::DistanceParams(p) => if id == kAudioUnitProperty_3DMixerDistanceParams {
            match bus_of(o, element).al_source {
                Some(s) => Some((s, p)),
                None => None,
            }
        } else {
            None
        },
        _ => None,
    }
}

impl AudioUnits {
    /// No instance exists.
    pub fn new() -> (r: Self)
        ensures
            r.instances@ == Map::<AudioUnit, AudioUnitHostObject>::empty(),
    {
        AudioUnits { instances: HashMap::new() }
    }

    /// `AudioUnitSetProperty`: stores the value of a property (read per
    /// `set_property_data_kind`). Distance parameters go to the element's
    /// mixer bus (created where missing); where that bus plays through an
    /// OpenAL source, the source and parameters are returned for the host
    /// to apply. A stream format is stored for its scope (global, input or
    /// output; other scopes are ignored). Other properties are ignored. An
    /// unknown unit is refused with `paramErr`.
    #[allow(non_snake_case)]
    pub fn AudioUnitSetProperty(
        &mut self,
        in_unit: AudioUnit,
        in_id: AudioUnitPropertyID,
        in_scope: AudioUnitScope,
        in_element: AudioUnitElement,
        data: SetPropertyData,
    ) -> (r: (OSStatus, Option<(u32, MixerDistanceParams)>))
        ensures
            !old(self).instances@.contains_key(in_unit) ==> r == (paramErr, None::<(u32, MixerDistanceParams)>)
                && final(self).instances@ == old(self).instances@,
            old(self).instances@.contains_key(in_unit) ==> {
                let o = old(self).instances@[in_unit];
                let n = final(self).instances@[in_unit];
                &&& final(self).instances@ == old(self).instances@.insert(in_unit, n)
                &&& r == (0i32, distance_update(o, in_id, in_element, data))
                &&& settings(n) == settings_after_set(o, in_id, in_scope, in_element, data)
                &&& same_run_state(n, o)
            },
    {
        let mut obj = match self.instances.remove(&in_unit) {
            None => return (paramErr, None),
            Some(o) => o,
        };
        let ghost o = obj;
        let mut update = None;
        match data {
            SetPropertyData::DistanceParams(params) => {
                if in_id == kAudioUnitProperty_3DMixerDistanceParams {
                    let mut bus = match obj.mixer_buses.remove(&in_element) {
                        Some(b) => b,
                        None => new_bus(),
                    };
                    bus.distance_params = params;
                    if let Some(source) = bus.al_source {
                        update = Some((source, params));
                    }
                    obj.mixer_buses.insert(in_element, bus);
                    proof {
                        assert(obj.mixer_buses@ =~= o.mixer_buses@.insert(in_element, bus));
                    }
                }
            },
            SetPropertyData::RenderCallback(cb) => {
                if in_id == kAudioUnitProperty_SetRenderCallback || in_id
                    == kAudioOutputUnitProperty_SetInputCallback {
                    obj.render_callback = Some(cb);
                }
            },
            SetPropertyData::StreamFormat(f) => {
                if in_id == kAudioUnitProperty_StreamFormat {
                    if in_scope == kAudioUnitScope_Global {
                        obj.global_stream_format = f;
                    } else if in_scope == kAudioUnitScope_Output {
                        obj.output_stream_format = Some(f);
                    } else if in_scope == kAudioUnitScope_Input {
                        obj.input_stream_format = Some(f);
                    }
                }
            },
            SetPropertyData::SampleRate(bits) => {
                if in_id == kAudioUnitProperty_SampleRate {
                    obj.global_stream_format.sample_rate_bits = bits;
                }
            },
            SetPropertyData::MaximumFrames(frames) => {
                if in_id == kAudioUnitProperty_MaximumFramesPerSlice {
                    obj.maximum_frames_per_slice = frames;
                }
            },
            SetPropertyData::Ignored => {},
        }
        self.instances.insert(in_unit, obj);
        proof {
            assert(self.instances@ =~= old(self).instances@.insert(in_unit, obj));
        }
        (0, update)
    }

    /// `AudioUnitGetProperty`: the maximum frames per slice, a scope's
    /// stream format, the sample rate or whether the unit runs, with the
    /// size to store; other properties give -1, an unknown unit `paramErr`.
    #[allow(non_snake_case)]
    pub fn AudioUnitGetProperty(
        &self,
        in_unit: AudioUnit,
        in_id: AudioUnitPropertyID,
        in_scope: AudioUnitScope,
    ) -> (r: (OSStatus, Option<(UnitPropertyValue, u32)>))
        ensures
            r == (if !self.instances@.contains_key(in_unit) {
                (paramErr, None)
            } else {
                match spec_get_property(self.instances@[in_unit], in_id, in_scope) {
                    Some(v) => (0i32, Some(v)),
                    None => (-1i32, None),
                }
            }),
    {
        let obj = match self.instances.get(&in_unit) {
            None => return (paramErr, None),
            Some(o) => o,
        };
        if in_id == kAudioUnitProperty_MaximumFramesPerSlice {
            (0, Some((UnitPropertyValue::U32(obj.maximum_frames_per_slice), 4)))
        } else if in_id == kAudioUnitProperty_StreamFormat {
            let fmt = if in_scope == kAudioUnitScope_Output {
                match obj.output_stream_format {
                    Some(f) => f,
                    None => obj.global_stream_format,
                }
            } else if in_scope == kAudioUnitScope_Input {
                match obj.input_stream_format {
                    Some(f) => f,
                    None => obj.global_stream_format,
                }
            } else {
                obj.global_stream_format
            };
            (0, Some((UnitPropertyValue::StreamFormat(fmt), ASBD_SIZE)))
        } else if in_id == kAudioUnitProperty_SampleRate {
            (0, Some((UnitPropertyValue::F64Bits(obj.global_stream_format.sample_rate_bits), 8)))
        } else if in_id == kAudioOutputUnitProperty_IsRunning {
            let running: u32 = if obj.started { 1 } else { 0 };
            (0, Some((UnitPropertyValue::U32(running), 4)))
        } else {
            (-1, None)
        }
    }

    /// `AudioUnitSetParameter`: the 3D mixer's azimuth, elevation and
    /// distance parameters select the element's bus (created where
    /// missing). The azimuth sets the position's x to `sin` and z to `-cos`
    /// of the angle, the elevation its y to `sin`; the caller supplies those
    /// values (`sin_bits`, `neg_cos_bits`). Where the bus plays through an
    /// OpenAL source, the source and position are returned for the host to
    /// apply. Other parameters are ignored; an unknown unit is refused with
    /// `paramErr`.
    #[allow(non_snake_case)]
    pub fn AudioUnitSetParameter(
        &mut self,
        in_unit: AudioUnit,
        in_id: AudioUnitParameterID,
        in_element: AudioUnitElement,
        sin_bits: u32,
        neg_cos_bits: u32,
    ) -> (r: (OSStatus, Option<(u32, PositionBits)>))
        ensures
            !old(self).instances@.contains_key(in_unit) ==> r == (paramErr, None::<(u32, PositionBits)>)
                && final(self).instances@ == old(self).instances@,
            old(self).instances@.contains_key(in_unit) && in_id > k3DMixerParam_Distance ==> r == (
                0i32,
                None::<(u32, PositionBits)>,
            ) && final(self).instances@ == old(self).instances@,
            old(self).instances@.contains_key(in_unit) && in_id <= k3DMixerParam_Distance ==> {
                let o = old(self).instances@[in_unit];
                let n = final(self).instances@[in_unit];
                let pos = position_after(o, in_id, in_element, sin_bits, neg_cos_bits);
                let (buses, callback, global, output, input, frames) = settings(o);
                &&& final(self).instances@ == old(self).instances@.insert(in_unit, n)
                &&& settings(n) == (
                    buses.insert(in_element, (MixerBus { position_bits: pos, ..bus_of(o, in_element) })),
                    callback,
                    global,
                    output,
                    input,
                    frames,
                )
                &&& same_run_state(n, o)
                &&& r == (0i32, match bus_of(o, in_element).al_source {
                    Some(s) => Some((s, pos)),
                    None => None,
                })
            },
    {
        if !self.instances.contains_key(&in_unit) {
            return (paramErr, None);
        }
        if in_id > k3DMixerParam_Distance {
            return (0, None);
        }
        let mut obj = match self.instances.remove(&in_unit) {
            None => return (paramErr, None),
            Some(o) => o,
        };
        let ghost o = obj;
        let mut bus = match obj.mixer_buses.remove(&in_element) {
            Some(b) => b,
            None => new_bus(),
        };
        if in_id == k3DMixerParam_Azimuth {
            bus.position_bits = PositionBits { x: sin_bits, y: bus.position_bits.y, z: neg_cos_bits };
        } else if in_id == k3DMixerParam_Elevation {
            bus.position_bits = PositionBits { x: bus.position_bits.x, y: sin_bits, z: bus.position_bits.z };
        }
        let update = match bus.al_source {
            Some(source) => Some((source, bus.position_bits)),
            None => None,
        };
        obj.mixer_buses.insert(in_element, bus);
        proof {
            assert(obj.mixer_buses@ =~= o.mixer_buses@.insert(in_element, bus));
        }
        self.instances.insert(in_unit, obj);
        proof {
            assert(self.instances@ =~= old(self).instances@.insert(in_unit, obj));
        }
        (0, update)
    }

    /// `AudioUnitReset`: forgets when the unit last rendered. Returns 0,
    /// also for an unknown unit.
    #[allow(non_snake_case)]
    pub fn AudioUnitReset(&mut self, in_unit: AudioUnit) -> (r: OSStatus)
        ensures
            r == 0,
            final(self).instances@.dom() == old(self).instances@.dom(),
            old(self).instances@.contains_key(in_unit) ==> final(self).instances@[in_unit]
                == (AudioUnitHostObject { last_render_time: None, ..old(self).instances@[in_unit] }),
            forall|u: AudioUnit|
                u != in_unit && old(self).instances@.contains_key(u) ==> final(self).instances@[u]
                    == old(self).instances@[u],
    {
        if let Some(mut obj) = self.instances.remove(&in_unit) {
            obj.last_render_time = None;
            self.instances.insert(in_unit, obj);
        }
        proof {
            assert(self.instances@.dom() =~= old(self).instances@.dom());
        }
        0
    }

    /// `AudioOutputUnitStart`: once the host has created and started an
    /// OpenAL source, the unit plays through it from `now` on and counts as
    /// started. An unknown unit is refused with `paramErr`.
    #[allow(non_snake_case)]
    pub fn AudioOutputUnitStart(&mut self, ci: AudioUnit, source: u32, now: u64) -> (r: OSStatus)
        ensures
            !old(self).instances@.contains_key(ci) ==> r == paramErr && final(self).instances@
                == old(self).instances@,
            old(self).instances@.contains_key(ci) ==> r == 0 && final(self).instances@ == old(self).instances@.insert(
                ci,
                (AudioUnitHostObject {
                    al_source: Some(source),
                    last_render_time: Some(now),
                    started: true,
                    ..old(self).instances@[ci]
                }),
            ),
    {
        match self.instances.remove(&ci) {
            None => paramErr,
            Some(mut obj) => {
                obj.al_source = Some(source);
                obj.last_render_time = Some(now);
                obj.started = true;
                self.instances.insert(ci, obj);
                0
            },
        }
    }

    /// `AudioOutputUnitStop`: the unit stops and drops its OpenAL source,
    /// which is returned for the host to delete. An unknown unit gives -1.
    #[allow(non_snake_case)]
    pub fn AudioOutputUnitStop(&mut self, ci: AudioUnit) -> (r: (OSStatus, Option<u32>))
        ensures
            !old(self).instances@.contains_key(ci) ==> r == (-1i32, None::<u32>) && final(self).instances@ == old(self).instances@,
            old(self).instances@.contains_key(ci) ==> r == (0i32, old(self).instances@[ci].al_source)
                && final(self).instances@ == old(self).instances@.insert(
                ci,
                (AudioUnitHostObject {
                    started: false,
                    al_source: None,
                    ..old(self).instances@[ci]
                }),
            ),
    {
        match self.instances.remove(&ci) {
            None => (-1, None),
            Some(mut obj) => {
                obj.started = false;
                let source = obj.al_source;
                obj.al_source = None;
                self.instances.insert(ci, obj);
                (0, source)
            },
        }
    }
    /// The start of `render_audio_unit`: decides whether the unit renders
    /// now. Nothing happens where rendering is disabled for the running
    /// app, for an unknown unit, for a unit that is not started, or while
    /// a render of it is already in progress. Otherwise the unit is marked
    /// as rendering, and it renders where it has an OpenAL source, a last
    /// render time and a render callback (where one is missing the mark
    /// stays). The sample rate is the input format's, or the hardware's
    /// where there is no input format; the stream format is the input, the
    /// output or else the global format.
    pub fn render_begin(
        &mut self,
        audio_unit: AudioUnit,
        rendering_disabled: bool,
        hardware_sample_rate_bits: u64,
    ) -> (r: RenderPlan)
        ensures
            ({
                let old_map = old(self).instances@;
                if rendering_disabled || !old_map.contains_key(audio_unit) || !old_map[audio_unit].started
                    || old_map[audio_unit].is_running_handler {
                    r == RenderPlan::Skip && final(self).instances@ == old_map
                } else {
                    let o = old_map[audio_unit];
                    &&& final(self).instances@ == old_map.insert(
                        audio_unit,
                        (AudioUnitHostObject { is_running_handler: true, ..o }),
                    )
                    &&& r == spec_render_plan(o, hardware_sample_rate_bits)
                }
            }),
    {
        if rendering_disabled {
            return RenderPlan::Skip;
        }
        let mut obj = match self.instances.remove(&audio_unit) {
            None => return RenderPlan::Skip,
            Some(o) => o,
        };
        if !obj.started || obj.is_running_handler {
            self.instances.insert(audio_unit, obj);
            proof {
                assert(self.instances@ =~= old(self).instances@);
            }
            return RenderPlan::Skip;
        }
        let sample_rate_bits = match obj.input_stream_format {
            Some(f) => f.sample_rate_bits,
            None => hardware_sample_rate_bits,
        };
        let stream_format = match obj.input_stream_format {
            Some(f) => f,
            None => match obj.output_stream_format {
                Some(f) => f,
                None => obj.global_stream_format,
            },
        };
        let has_input_format = obj.input_stream_format.is_some();
        let al_source = obj.al_source;
        let last_render_time = obj.last_render_time;
        let callback = obj.render_callback;
        obj.is_running_handler = true;
        self.instances.insert(audio_unit, obj);
        match (al_source, last_render_time, callback) {
            (Some(al_source), Some(last_render_time), Some(callback)) => RenderPlan::Render {
                sample_rate_bits,
                stream_format,
                has_input_format,
                al_source,
                last_render_time,
                callback,
            },
            _ => RenderPlan::Skip,
        }
    }

    /// The end of `render_audio_unit`: the unit rendered at `now` and is no
    /// longer rendering.
    pub fn render_end(&mut self, audio_unit: AudioUnit, now: u64)
        ensures
            final(self).instances@ == (if old(self).instances@.contains_key(audio_unit) {
                old(self).instances@.insert(
                    audio_unit,
                    (AudioUnitHostObject {
                        last_render_time: Some(now),
                        is_running_handler: false,
                        ..old(self).instances@[audio_unit]
                    }),
                )
            } else {
                old(self).instances@
            }),
    {
        if let Some(mut obj) = self.instances.remove(&audio_unit) {
            obj.last_render_time = Some(now);
            obj.is_running_handler = false;
            self.instances.insert(audio_unit, obj);
        } else {
            proof {
                assert(self.instances@ =~= old(self).instances@);
            }
        }
    }
}

/// `AudioUnitUninitialize`: once the host has tried to take the unit off
/// the main run loop, 0 where it was registered there and `paramErr` where
/// it was not.
#[allow(non_snake_case)]
pub fn AudioUnitUninitialize(removed_from_run_loop: bool) -> (r: OSStatus)
    ensures
        r == (if removed_from_run_loop { 0 } else { paramErr }),
{
    if removed_from_run_loop {
        0
    } else {
        paramErr
    }
}

/// `AudioUnitGetPropertyInfo`: the size and writability of the stream
/// format, the sample rate and the running state; -1 for other properties.
#[allow(non_snake_case)]
pub fn AudioUnitGetPropertyInfo(in_id: AudioUnitPropertyID) -> (r: (OSStatus, Option<(u32, bool)>))
    ensures
        r == (if in_id == kAudioUnitProperty_StreamFormat {
            (0i32, Some((ASBD_SIZE, true)))
        } else if in_id == kAudioUnitProperty_SampleRate {
            (0i32, Some((8u32, true)))
        } else if in_id == kAudioOutputUnitProperty_IsRunning {
            (0i32, Some((4u32, false)))
        } else {
            (-1i32, None)
        }),
{
    if in_id == kAudioUnitProperty_StreamFormat {
        (0, Some((ASBD_SIZE, true)))
    } else if in_id == kAudioUnitProperty_SampleRate {
        (0, Some((8, true)))
    } else if in_id == kAudioOutputUnitProperty_IsRunning {
        (0, Some((4, false)))
    } else {
        (-1, None)
    }
}

/// `AudioUnitGetParameter`: every parameter reads as 1.0 (stored where the
/// pointer is not null). Returns 0.
#[allow(non_snake_case)]
pub fn AudioUnitGetParameter() -> (r: (OSStatus, u32))
    ensures
        r == (0i32, F32_ONE_BITS),
{
    (0, F32_ONE_BITS)
}

/// Reading a property back after `AudioUnitSetProperty` stored it gives
/// the value stored: a stream format set for the global, input or output
/// scope is what that scope reports (and what the input and output scopes
/// report where a global one was set and they have none of their own); a
/// sample rate and a maximum frame count are reported as set.
pub proof fn lemma_set_then_get_property(
    o: AudioUnitHostObject,
    n: AudioUnitHostObject,
    id: AudioUnitPropertyID,
    scope: AudioUnitScope,
    element: AudioUnitElement,
    data: SetPropertyData,
)
    requires
        settings(n) == settings_after_set(o, id, scope, element, data),
        same_run_state(n, o),
    ensures
        match data {
            SetPropertyData::StreamFormat(f) => id == kAudioUnitProperty_StreamFormat ==> {
                &&& scope <= kAudioUnitScope_Output ==> spec_get_property(n, id, scope) == Some(
                    (UnitPropertyValue::StreamFormat(f), ASBD_SIZE),
                )
                &&& scope == kAudioUnitScope_Global && o.input_stream_format is None
                    ==> spec_get_property(n, id, kAudioUnitScope_Input) == Some(
                    (UnitPropertyValue::StreamFormat(f), ASBD_SIZE),
                )
                &&& scope == kAudioUnitScope_Global && o.output_stream_format is None
                    ==> spec_get_property(n, id, kAudioUnitScope_Output) == Some(
                    (UnitPropertyValue::StreamFormat(f), ASBD_SIZE),
                )
            },
            SetPropertyData::SampleRate(bits) => id == kAudioUnitProperty_SampleRate
                ==> spec_get_property(n, id, scope) == Some((UnitPropertyValue::F64Bits(bits), 8u32)),
            SetPropertyData::MaximumFrames(frames) => id == kAudioUnitProperty_MaximumFramesPerSlice
                ==> spec_get_property(n, id, scope) == Some((UnitPropertyValue::U32(frames), 4u32)),
            _ => true,
        },
        spec_get_property(n, kAudioOutputUnitProperty_IsRunning, scope) == spec_get_property(
            o,
            kAudioOutputUnitProperty_IsRunning,
            scope,
        ),
{
}

/// The render of a started unit that has its OpenAL source, last render
/// time and render callback uses the input stream format where the unit
/// has one (at that format's sample rate), else the output stream format,
/// else the global one (both at the hardware's sample rate); it renders
/// into one buffer exactly where there is an input format, through the
/// unit's source and callback, from its last render time. A unit that
/// lacks the source, the time or the callback renders nothing.
pub proof fn lemma_render_plan_formats(o: AudioUnitHostObject, hardware_sample_rate_bits: u64)
    ensures
        match spec_render_plan(o, hardware_sample_rate_bits) {
            RenderPlan::Render {
                sample_rate_bits,
                stream_format,
                has_input_format,
                al_source,
                last_render_time,
                callback,
            } => {
                &&& o.al_source == Some(al_source)
                &&& o.last_render_time == Some(last_render_time)
                &&& o.render_callback == Some(callback)
                &&& has_input_format == o.input_stream_format.is_some()
                &&& (o.input_stream_format matches Some(f) ==> stream_format == f
                    && sample_rate_bits == f.sample_rate_bits)
                &&& (o.input_stream_format is None ==> (o.output_stream_format matches Some(f)
                    ==> stream_format == f && sample_rate_bits == hardware_sample_rate_bits))
                &&& (o.input_stream_format is None && o.output_stream_format is None
                    ==> stream_format == o.global_stream_format && sample_rate_bits
                    == hardware_sample_rate_bits)
            },
            RenderPlan::Skip => o.al_source is None || o.last_render_time is None
                || o.render_callback is None,
        },
{
}

/// `AudioUnitSetProperty` changes only what the property names: a stream
/// format only the format of its own scope (global, input or output; other
/// scopes nothing), a sample rate only the global format's rate, a maximum
/// frame count only that count, a render or input callback only the
/// callback, distance parameters only those of the element's bus. Whatever
/// a property does not name, and any value that does not belong to the
/// property, leaves all settings as they were; in particular a format set
/// for the input or output scope is not what the global scope reports.
pub proof fn lemma_set_property_changes_only_its_value(
    o: AudioUnitHostObject,
    n: AudioUnitHostObject,
    id: AudioUnitPropertyID,
    scope: AudioUnitScope,
    element: AudioUnitElement,
    data: SetPropertyData,
)
    requires
        settings(n) == settings_after_set(o, id, scope, element, data),
    ensures
        match data {
            SetPropertyData::StreamFormat(f) => if id == kAudioUnitProperty_StreamFormat {
                &&& n.global_stream_format == (if scope == kAudioUnitScope_Global {
                    f
                } else {
                    o.global_stream_format
                })
                &&& n.input_stream_format == (if scope == kAudioUnitScope_Input {
                    Some(f)
                } else {
                    o.input_stream_format
                })
                &&& n.output_stream_format == (if scope == kAudioUnitScope_Output {
                    Some(f)
                } else {
                    o.output_stream_format
                })
                &&& n.mixer_buses@ == o.mixer_buses@
                &&& n.render_callback == o.render_callback
                &&& n.maximum_frames_per_slice == o.maximum_frames_per_slice
                &&& scope != kAudioUnitScope_Global ==> spec_get_property(
                    n,
                    kAudioUnitProperty_StreamFormat,
                    kAudioUnitScope_Global,
                ) == spec_get_property(o, kAudioUnitProperty_StreamFormat, kAudioUnitScope_Global)
                    && spec_get_property(n, kAudioUnitProperty_SampleRate, kAudioUnitScope_Global)
                    == spec_get_property(o, kAudioUnitProperty_SampleRate, kAudioUnitScope_Global)
            } else {
                settings(n) == settings(o)
            },
            SetPropertyData::SampleRate(bits) => if id == kAudioUnitProperty_SampleRate {
                &&& n.global_stream_format.sample_rate_bits == bits
                &&& n.global_stream_format.format_id == o.global_stream_format.format_id
                &&& n.global_stream_format.format_flags == o.global_stream_format.format_flags
                &&& n.global_stream_format.bytes_per_packet == o.global_stream_format.bytes_per_packet
                &&& n.global_stream_format.frames_per_packet == o.global_stream_format.frames_per_packet
                &&& n.global_stream_format.bytes_per_frame == o.global_stream_format.bytes_per_frame
                &&& n.global_stream_format.channels_per_frame == o.global_stream_format.channels_per_frame
                &&& n.global_stream_format.bits_per_channel == o.global_stream_format.bits_per_channel
                &&& n.input_stream_format == o.input_stream_format
                &&& n.output_stream_format == o.output_stream_format
                &&& n.mixer_buses@ == o.mixer_buses@
                &&& n.render_callback == o.render_callback
                &&& n.maximum_frames_per_slice == o.maximum_frames_per_slice
            } else {
                settings(n) == settings(o)
            },
            SetPropertyData::MaximumFrames(frames) => if id == kAudioUnitProperty_MaximumFramesPerSlice {
                &&& n.maximum_frames_per_slice == frames
                &&& n.global_stream_format == o.global_stream_format
                &&& n.input_stream_format == o.input_stream_format
                &&& n.output_stream_format == o.output_stream_format
                &&& n.mixer_buses@ == o.mixer_buses@
                &&& n.render_callback == o.render_callback
            } else {
                settings(n) == settings(o)
            },
            SetPropertyData::RenderCallback(cb) => if id == kAudioUnitProperty_SetRenderCallback || id
                == kAudioOutputUnitProperty_SetInputCallback {
                &&& n.render_callback == Some(cb)
                &&& n.global_stream_format == o.global_stream_format
                &&& n.input_stream_format == o.input_stream_format
                &&& n.output_stream_format == o.output_stream_format
                &&& n.mixer_buses@ == o.mixer_buses@
                &&& n.maximum_frames_per_slice == o.maximum_frames_per_slice
            } else {
                settings(n) == settings(o)
            },
            SetPropertyData::DistanceParams(p) => if id == kAudioUnitProperty_3DMixerDistanceParams {
                &&& n.mixer_buses@.contains_key(element)
                &&& n.mixer_buses@[element].distance_params == p
                &&& n.mixer_buses@[element].al_source == (if o.mixer_buses@.contains_key(element) {
                    o.mixer_buses@[element].al_source
                } else {
                    None
                })
                &&& n.mixer_buses@[element].position_bits == (if o.mixer_buses@.contains_key(element) {
                    o.mixer_buses@[element].position_bits
                } else {
                    PositionBits { x: 0, y: 0, z: 0 }
                })
                &&& forall|e: AudioUnitElement| e != element ==> (n.mixer_buses@.contains_key(e)
                    == o.mixer_buses@.contains_key(e)) && (o.mixer_buses@.contains_key(e)
                    ==> n.mixer_buses@[e] == o.mixer_buses@[e])
                &&& n.global_stream_format == o.global_stream_format
                &&& n.input_stream_format == o.input_stream_format
                &&& n.output_stream_format == o.output_stream_format
                &&& n.render_callback == o.render_callback
                &&& n.maximum_frames_per_slice == o.maximum_frames_per_slice
            } else {
                settings(n) == settings(o)
            },
            SetPropertyData::Ignored => settings(n) == settings(o),
        },
{
}

/// A started unit reports that it runs; a stopped one that it does not.
pub proof fn lemma_is_running_follows_start_stop(o: AudioUnitHostObject, source: u32, now: u64)
    ensures
        spec_get_property(
            (AudioUnitHostObject {
                al_source: Some(source),
                last_render_time: Some(now),
                started: true,
                ..o
            }),
            kAudioOutputUnitProperty_IsRunning,
            kAudioUnitScope_Global,
        ) == Some((UnitPropertyValue::U32(1), 4u32)),
        spec_get_property(
            (AudioUnitHostObject { started: false, al_source: None, ..o }),
            kAudioOutputUnitProperty_IsRunning,
            kAudioUnitScope_Global,
        ) == Some((UnitPropertyValue::U32(0), 4u32)),
{
}

} // verus!
