use std::collections::HashMap;

use lib::frameworks::audio_toolbox::audio_unit::{
    k3DMixerParam_Azimuth, k3DMixerParam_Distance, k3DMixerParam_Elevation,
    kAudioOutputUnitProperty_EnableIO, kAudioOutputUnitProperty_IsRunning,
    kAudioOutputUnitProperty_SetInputCallback, kAudioUnitProperty_3DMixerDistanceParams,
    kAudioUnitProperty_MakeConnection, kAudioUnitProperty_MatrixLevels,
    kAudioUnitProperty_MaximumFramesPerSlice, kAudioUnitProperty_SampleRate,
    kAudioUnitProperty_SetRenderCallback, kAudioUnitProperty_StreamFormat, kAudioUnitScope_Global,
    kAudioUnitScope_Input, kAudioUnitScope_Output, render_buffers, set_property_data_kind,
    AURenderCallbackStruct, AudioBuffer, AudioUnitGetParameter, AudioUnitGetPropertyInfo,
    AudioUnitHostObject, AudioUnits, MixerBus, MixerDistanceParams, PositionBits, RenderBuffers,
    RenderPlan, SetPropertyData, SetPropertyDataKind, UnitPropertyValue, F32_ONE_BITS,
};
use lib::frameworks::core_audio_types::{paramErr, AudioStreamBasicDescription};

const UNIT: u32 = 0x3000;

fn format(rate: f64, channels: u32) -> AudioStreamBasicDescription {
    AudioStreamBasicDescription {
        sample_rate_bits: rate.to_bits(),
        format_id: 0x6c70636d,
        format_flags: 12,
        bytes_per_packet: 2 * channels,
        frames_per_packet: 1,
        bytes_per_frame: 2 * channels,
        channels_per_frame: channels,
        bits_per_channel: 16,
        reserved: 0,
    }
}

fn unit() -> AudioUnitHostObject {
    AudioUnitHostObject {
        mixer_buses: HashMap::new(),
        render_callback: None,
        global_stream_format: format(44100.0, 2),
        output_stream_format: None,
        input_stream_format: None,
        maximum_frames_per_slice: 1024,
        started: false,
        al_source: None,
        last_render_time: None,
        is_running_handler: false,
    }
}

fn units() -> AudioUnits {
    let mut u = AudioUnits::new();
    u.instances.insert(UNIT, unit());
    u
}

#[test]
fn unknown_unit_is_refused() {
    let mut u = AudioUnits::new();
    assert_eq!(u.AudioUnitGetProperty(UNIT, kAudioUnitProperty_StreamFormat, 0), (paramErr, None));
    assert_eq!(
        u.AudioUnitSetProperty(UNIT, kAudioUnitProperty_MaximumFramesPerSlice, 0, 0, SetPropertyData::MaximumFrames(5)),
        (paramErr, None)
    );
    assert_eq!(u.AudioUnitSetParameter(UNIT, k3DMixerParam_Azimuth, 0, 1, 2), (paramErr, None));
    assert_eq!(u.AudioOutputUnitStart(UNIT, 7, 100), paramErr);
    assert_eq!(u.AudioOutputUnitStop(UNIT), (-1, None));
    assert_eq!(u.AudioUnitReset(UNIT), 0);
    assert!(u.instances.is_empty());
}

#[test]
fn stream_format_per_scope() {
    let mut u = units();
    let out = format(22050.0, 1);
    assert_eq!(
        u.AudioUnitSetProperty(UNIT, kAudioUnitProperty_StreamFormat, kAudioUnitScope_Output, 0, SetPropertyData::StreamFormat(out)),
        (0, None)
    );
    assert_eq!(
        u.AudioUnitGetProperty(UNIT, kAudioUnitProperty_StreamFormat, kAudioUnitScope_Output),
        (0, Some((UnitPropertyValue::StreamFormat(out), 40)))
    );
    assert_eq!(
        u.AudioUnitGetProperty(UNIT, kAudioUnitProperty_StreamFormat, kAudioUnitScope_Input),
        (0, Some((UnitPropertyValue::StreamFormat(format(44100.0, 2)), 40)))
    );
    let global = format(8000.0, 2);
    u.AudioUnitSetProperty(UNIT, kAudioUnitProperty_StreamFormat, kAudioUnitScope_Global, 0, SetPropertyData::StreamFormat(global));
    assert_eq!(
        u.AudioUnitGetProperty(UNIT, kAudioUnitProperty_StreamFormat, kAudioUnitScope_Global),
        (0, Some((UnitPropertyValue::StreamFormat(global), 40)))
    );
    assert_eq!(
        u.AudioUnitGetProperty(UNIT, kAudioUnitProperty_StreamFormat, kAudioUnitScope_Input),
        (0, Some((UnitPropertyValue::StreamFormat(global), 40)))
    );
    assert_eq!(
        u.AudioUnitGetProperty(UNIT, kAudioUnitProperty_StreamFormat, kAudioUnitScope_Output),
        (0, Some((UnitPropertyValue::StreamFormat(out), 40)))
    );
    u.AudioUnitSetProperty(UNIT, kAudioUnitProperty_StreamFormat, 7, 0, SetPropertyData::StreamFormat(out));
    assert_eq!(u.instances[&UNIT].global_stream_format, global);
}

#[test]
fn sample_rate_and_frames() {
    let mut u = units();
    let bits = 48000.0f64.to_bits();
    assert_eq!(
        u.AudioUnitSetProperty(UNIT, kAudioUnitProperty_SampleRate, kAudioUnitScope_Global, 0, SetPropertyData::SampleRate(bits)),
        (0, None)
    );
    assert_eq!(
        u.AudioUnitGetProperty(UNIT, kAudioUnitProperty_SampleRate, kAudioUnitScope_Global),
        (0, Some((UnitPropertyValue::F64Bits(bits), 8)))
    );
    assert_eq!(u.instances[&UNIT].global_stream_format.channels_per_frame, 2);
    u.AudioUnitSetProperty(UNIT, kAudioUnitProperty_MaximumFramesPerSlice, 0, 0, SetPropertyData::MaximumFrames(4096));
    assert_eq!(
        u.AudioUnitGetProperty(UNIT, kAudioUnitProperty_MaximumFramesPerSlice, 0),
        (0, Some((UnitPropertyValue::U32(4096), 4)))
    );
    assert_eq!(u.AudioUnitGetProperty(UNIT, kAudioUnitProperty_MatrixLevels, 0), (-1, None));
}

#[test]
fn render_callback_and_ignored_properties() {
    let mut u = units();
    let cb = AURenderCallbackStruct { input_proc: 0x4001, input_proc_ref_con: 0x5000 };
    u.AudioUnitSetProperty(UNIT, kAudioOutputUnitProperty_SetInputCallback, 0, 0, SetPropertyData::RenderCallback(cb));
    assert_eq!(u.instances[&UNIT].render_callback, Some(cb));
    assert_eq!(
        u.AudioUnitSetProperty(UNIT, kAudioUnitProperty_MakeConnection, 0, 0, SetPropertyData::Ignored),
        (0, None)
    );
    assert_eq!(u.instances[&UNIT].render_callback, Some(cb));
}

#[test]
fn distance_params_create_bus() {
    let mut u = units();
    let p = MixerDistanceParams { reference_distance_bits: 1, maximum_distance_bits: 2, rolloff_factor_bits: 3 };
    assert_eq!(
        u.AudioUnitSetProperty(UNIT, kAudioUnitProperty_3DMixerDistanceParams, 0, 5, SetPropertyData::DistanceParams(p)),
        (0, None)
    );
    let bus = u.instances[&UNIT].mixer_buses[&5];
    assert_eq!(bus.distance_params, p);
    assert_eq!(bus.al_source, None);
    assert_eq!(bus.position_bits, PositionBits { x: 0, y: 0, z: 0 });
    u.instances.get_mut(&UNIT).unwrap().mixer_buses.insert(
        6,
        MixerBus { distance_params: p, al_source: Some(9), position_bits: PositionBits { x: 0, y: 0, z: 0 } },
    );
    let q = MixerDistanceParams { reference_distance_bits: 4, ..p };
    assert_eq!(
        u.AudioUnitSetProperty(UNIT, kAudioUnitProperty_3DMixerDistanceParams, 0, 6, SetPropertyData::DistanceParams(q)),
        (0, Some((9, q)))
    );
}

#[test]
fn mixer_parameters_position_bus() {
    let mut u = units();
    assert_eq!(u.AudioUnitSetParameter(UNIT, k3DMixerParam_Azimuth, 1, 11, 22), (0, None));
    assert_eq!(u.instances[&UNIT].mixer_buses[&1].position_bits, PositionBits { x: 11, y: 0, z: 22 });
    u.instances.get_mut(&UNIT).unwrap().mixer_buses.get_mut(&1).unwrap().al_source = Some(3);
    assert_eq!(
        u.AudioUnitSetParameter(UNIT, k3DMixerParam_Elevation, 1, 33, 44),
        (0, Some((3, PositionBits { x: 11, y: 33, z: 22 })))
    );
    assert_eq!(
        u.AudioUnitSetParameter(UNIT, k3DMixerParam_Distance, 1, 55, 66),
        (0, Some((3, PositionBits { x: 11, y: 33, z: 22 })))
    );
    assert_eq!(u.AudioUnitSetParameter(UNIT, 5, 2, 1, 1), (0, None));
    assert!(!u.instances[&UNIT].mixer_buses.contains_key(&2));
}

#[test]
fn start_stop_and_running() {
    let mut u = units();
    assert_eq!(
        u.AudioUnitGetProperty(UNIT, kAudioOutputUnitProperty_IsRunning, 0),
        (0, Some((UnitPropertyValue::U32(0), 4)))
    );
    assert_eq!(u.AudioOutputUnitStart(UNIT, 7, 100), 0);
    assert_eq!(
        u.AudioUnitGetProperty(UNIT, kAudioOutputUnitProperty_IsRunning, 0),
        (0, Some((UnitPropertyValue::U32(1), 4)))
    );
    assert_eq!(u.instances[&UNIT].last_render_time, Some(100));
    assert_eq!(u.AudioUnitReset(UNIT), 0);
    assert_eq!(u.instances[&UNIT].last_render_time, None);
    assert_eq!(u.AudioOutputUnitStop(UNIT), (0, Some(7)));
    assert_eq!(
        u.AudioUnitGetProperty(UNIT, kAudioOutputUnitProperty_IsRunning, 0),
        (0, Some((UnitPropertyValue::U32(0), 4)))
    );
    assert_eq!(u.AudioOutputUnitStop(UNIT), (0, None));
}

#[test]
fn render_cycle() {
    let mut u = units();
    let hw = 44100.0f64.to_bits();
    assert_eq!(u.render_begin(UNIT, false, hw), RenderPlan::Skip);
    assert_eq!(u.render_begin(0x9999, false, hw), RenderPlan::Skip);
    u.AudioOutputUnitStart(UNIT, 7, 100);
    assert_eq!(u.render_begin(UNIT, true, hw), RenderPlan::Skip);
    assert!(!u.instances[&UNIT].is_running_handler);
    assert_eq!(u.render_begin(UNIT, false, hw), RenderPlan::Skip);
    assert!(u.instances[&UNIT].is_running_handler);
    u.render_end(UNIT, 150);
    assert!(!u.instances[&UNIT].is_running_handler);
    assert_eq!(u.instances[&UNIT].last_render_time, Some(150));
    let cb = AURenderCallbackStruct { input_proc: 0x4001, input_proc_ref_con: 0x5000 };
    u.AudioUnitSetProperty(UNIT, kAudioUnitProperty_SetRenderCallback, 0, 0, SetPropertyData::RenderCallback(cb));
    let plan = u.render_begin(UNIT, false, hw);
    assert_eq!(
        plan,
        RenderPlan::Render {
            sample_rate_bits: hw,
            stream_format: format(44100.0, 2),
            has_input_format: false,
            al_source: 7,
            last_render_time: 150,
            callback: cb,
        }
    );
    assert_eq!(u.render_begin(UNIT, false, hw), RenderPlan::Skip);
    u.render_end(UNIT, 200);
    let input = format(11025.0, 1);
    u.AudioUnitSetProperty(UNIT, kAudioUnitProperty_StreamFormat, kAudioUnitScope_Input, 0, SetPropertyData::StreamFormat(input));
    match u.render_begin(UNIT, false, hw) {
        RenderPlan::Render { sample_rate_bits, stream_format, has_input_format, .. } => {
            assert_eq!(sample_rate_bits, 11025.0f64.to_bits());
            assert_eq!(stream_format, input);
            assert!(has_input_format);
        }
        RenderPlan::Skip => panic!("expected a render"),
    }
}

#[test]
fn render_buffer_lists() {
    let f = format(44100.0, 2);
    match render_buffers(&f, 512, false, 0x100, 0x200) {
        RenderBuffers::Two(l) => {
            assert_eq!(l.number_buffers, 2);
            assert_eq!(l.buffers[0], AudioBuffer { number_channels: 2, data_byte_size: 2048, data: 0x100 });
            assert_eq!(l.buffers[1], AudioBuffer { number_channels: 2, data_byte_size: 2048, data: 0x200 });
        }
        RenderBuffers::One(_) => panic!("expected two buffers"),
    }
    match render_buffers(&format(44100.0, 1), 10, true, 0x100, 0x200) {
        RenderBuffers::One(l) => {
            assert_eq!(l.number_buffers, 1);
            assert_eq!(l.buffers[0], AudioBuffer { number_channels: 1, data_byte_size: 20, data: 0x100 });
        }
        RenderBuffers::Two(_) => panic!("expected one buffer"),
    }
}

#[test]
fn property_info_and_parameters() {
    assert_eq!(AudioUnitGetPropertyInfo(kAudioUnitProperty_StreamFormat), (0, Some((40, true))));
    assert_eq!(AudioUnitGetPropertyInfo(kAudioUnitProperty_SampleRate), (0, Some((8, true))));
    assert_eq!(AudioUnitGetPropertyInfo(kAudioOutputUnitProperty_IsRunning), (0, Some((4, false))));
    assert_eq!(AudioUnitGetPropertyInfo(kAudioUnitProperty_MaximumFramesPerSlice), (-1, None));
    assert_eq!(AudioUnitGetParameter(), (0, F32_ONE_BITS));
    assert_eq!(F32_ONE_BITS, 1.0f32.to_bits());
}

#[test]
fn property_data_kinds() {
    assert_eq!(set_property_data_kind(kAudioUnitProperty_3DMixerDistanceParams), SetPropertyDataKind::DistanceParams);
    assert_eq!(set_property_data_kind(kAudioUnitProperty_SetRenderCallback), SetPropertyDataKind::RenderCallback);
    assert_eq!(set_property_data_kind(kAudioOutputUnitProperty_SetInputCallback), SetPropertyDataKind::RenderCallback);
    assert_eq!(set_property_data_kind(kAudioUnitProperty_StreamFormat), SetPropertyDataKind::StreamFormat);
    assert_eq!(set_property_data_kind(kAudioUnitProperty_SampleRate), SetPropertyDataKind::SampleRate);
    assert_eq!(set_property_data_kind(kAudioUnitProperty_MaximumFramesPerSlice), SetPropertyDataKind::MaximumFrames);
    assert_eq!(set_property_data_kind(kAudioUnitProperty_MakeConnection), SetPropertyDataKind::Ignored);
    assert_eq!(set_property_data_kind(kAudioOutputUnitProperty_EnableIO), SetPropertyDataKind::Ignored);
    assert_eq!(set_property_data_kind(kAudioUnitProperty_MatrixLevels), SetPropertyDataKind::Nothing);
    let _ = kAudioUnitScope_Global;
}

#[test]
fn uninitialize_reports_run_loop_removal() {
    assert_eq!(lib::frameworks::audio_toolbox::audio_unit::AudioUnitUninitialize(true), 0);
    assert_eq!(lib::frameworks::audio_toolbox::audio_unit::AudioUnitUninitialize(false), paramErr);
}
