use lib::frameworks::audio_toolbox::audio_file::{
    asbd_for_description, callback_file_size, create_dummy_audio_file, kAudioFileBadPropertySizeError,
    kAudioFileCAFType, kAudioFileNotOpenError, kAudioFilePropertyAudioDataByteCount,
    kAudioFilePropertyAudioDataPacketCount, kAudioFilePropertyChannelLayout,
    kAudioFilePropertyDataFormat, kAudioFilePropertyEstimatedDuration,
    kAudioFilePropertyFileFormat, kAudioFilePropertyMagicCookieData,
    kAudioFilePropertyMaximumPacketSize, kAudioFilePropertyPacketSizeUpperBound,
    kAudioFilePropertyPacketTableInfo, kAudioFilePropertyPacketToFrame, kAudioFileSuccess,
    kAudioFileUnspecifiedError, kAudioFileUnsupportedPropertyError, property_size,
    read_bytes_outcome, read_packets_outcome, AudioDescription, AudioFileClose,
    AudioFileGetProperty, AudioFileGetPropertyInfo, AudioFileHostObject, AudioFileOpenURL,
    AudioFileOpenWithCallbacks, AudioFileReadBytes, AudioFileReadPacketData, AudioFileReadPackets,
    AudioFormat, AudioFormatGetPropertyInfo, PacketReadStep, PropertyInfo, PropertyValue,
    ReadStep, RealAudioFile, State, F64_ONE_BITS, SAMPLE_RATE_44100_BITS,
};
use lib::frameworks::core_audio_types::{
    eofErr, kAudioFormatAppleIMA4, kAudioFormatLinearPCM, paramErr, AudioStreamBasicDescription,
};

const HANDLE: u32 = 0x1000;

fn dummy_format() -> AudioStreamBasicDescription {
    AudioStreamBasicDescription {
        sample_rate_bits: 44100.0f64.to_bits(),
        format_id: kAudioFormatLinearPCM,
        format_flags: 12,
        bytes_per_packet: 4,
        frames_per_packet: 1,
        bytes_per_frame: 4,
        channels_per_frame: 2,
        bits_per_channel: 16,
        reserved: 0,
    }
}

fn pcm_file(is_float: bool, is_little_endian: bool, bits: u32, channels: u32) -> RealAudioFile {
    let bytes_per_packet = bits / 8 * channels;
    RealAudioFile {
        description: AudioDescription {
            sample_rate_bits: 22050.0f64.to_bits(),
            format: AudioFormat::LinearPcm { is_float, is_little_endian },
            bytes_per_packet,
            frames_per_packet: 1,
            channels_per_frame: channels,
            bits_per_channel: bits,
        },
        byte_count: 1000,
        packet_count: 1000 / bytes_per_packet as u64,
        packet_size_upper_bound: bytes_per_packet,
        packet_size_fixed: bytes_per_packet,
    }
}

fn opened_dummy() -> State {
    let mut st = State::default();
    assert_eq!(AudioFileOpenURL(&mut st, false, None, HANDLE), kAudioFileSuccess);
    st
}

#[test]
fn sample_rate_constant_is_44100() {
    assert_eq!(SAMPLE_RATE_44100_BITS, 44100.0f64.to_bits());
    assert_eq!(F64_ONE_BITS, 1.0f64.to_bits());
}

#[test]
fn dummy_file_is_two_seconds_of_silence() {
    match create_dummy_audio_file() {
        AudioFileHostObject::Dummy { format, byte_count, packet_count } => {
            assert_eq!(format, dummy_format());
            assert_eq!(byte_count, 352800);
            assert_eq!(packet_count, 88200);
        }
        other => panic!("unexpected {:?}", other),
    }
}

#[test]
fn open_url_registers_file() {
    let mut st = State::default();
    assert_eq!(AudioFileOpenURL(&mut st, true, None, HANDLE), paramErr);
    assert!(st.audio_files.is_empty());
    assert_eq!(AudioFileOpenURL(&mut st, false, None, HANDLE), kAudioFileSuccess);
    assert_eq!(st.audio_files.get(&HANDLE), Some(&create_dummy_audio_file()));
    let f = pcm_file(false, true, 16, 2);
    assert_eq!(AudioFileOpenURL(&mut st, false, Some(f), 0x2000), kAudioFileSuccess);
    assert_eq!(st.audio_files.get(&0x2000), Some(&AudioFileHostObject::Real(f)));
}

#[test]
fn open_with_callbacks_checks_size_and_read() {
    let mut st = State::default();
    assert_eq!(AudioFileOpenWithCallbacks(&mut st, 0, 0, None, HANDLE), kAudioFileUnspecifiedError);
    assert_eq!(AudioFileOpenWithCallbacks(&mut st, -1, 0, None, HANDLE), kAudioFileUnspecifiedError);
    assert_eq!(
        AudioFileOpenWithCallbacks(&mut st, 5_000_000_000, 0, None, HANDLE),
        kAudioFileUnspecifiedError
    );
    assert_eq!(AudioFileOpenWithCallbacks(&mut st, 100, -36, None, HANDLE), -36);
    assert!(st.audio_files.is_empty());
    assert_eq!(AudioFileOpenWithCallbacks(&mut st, 100, 0, None, HANDLE), kAudioFileSuccess);
    assert_eq!(st.audio_files.len(), 1);
    assert_eq!(callback_file_size(5_000_000_000), 0);
    assert_eq!(callback_file_size(4096), 4096);
    assert_eq!(callback_file_size(-5), 0);
}

#[test]
fn property_sizes() {
    assert_eq!(property_size(kAudioFilePropertyDataFormat), 40);
    assert_eq!(property_size(kAudioFilePropertyAudioDataByteCount), 8);
    assert_eq!(property_size(kAudioFilePropertyAudioDataPacketCount), 8);
    assert_eq!(property_size(kAudioFilePropertyPacketSizeUpperBound), 4);
    assert_eq!(property_size(kAudioFilePropertyMaximumPacketSize), 4);
    assert_eq!(property_size(kAudioFilePropertyEstimatedDuration), 8);
    assert_eq!(property_size(kAudioFilePropertyPacketToFrame), 8);
    assert_eq!(property_size(kAudioFilePropertyPacketTableInfo), 16);
    assert_eq!(property_size(kAudioFilePropertyFileFormat), 4);
    assert_eq!(property_size(0x12345678), 0);
}

#[test]
fn property_info() {
    assert_eq!(
        AudioFileGetPropertyInfo(HANDLE, kAudioFilePropertyDataFormat),
        PropertyInfo { status: kAudioFileSuccess, data_size_and_writable: Some((40, 0)) }
    );
    assert_eq!(
        AudioFileGetPropertyInfo(0, kAudioFilePropertyDataFormat),
        PropertyInfo { status: paramErr, data_size_and_writable: None }
    );
    let unsupported =
        PropertyInfo { status: kAudioFileUnsupportedPropertyError, data_size_and_writable: Some((0, 0)) };
    assert_eq!(AudioFileGetPropertyInfo(HANDLE, kAudioFilePropertyMagicCookieData), unsupported);
    assert_eq!(AudioFileGetPropertyInfo(HANDLE, kAudioFilePropertyChannelLayout), unsupported);
    assert_eq!(AudioFileGetPropertyInfo(HANDLE, 0x12345678), unsupported);
}

#[test]
fn get_property_of_dummy() {
    let st = opened_dummy();
    let r = AudioFileGetProperty(&st, HANDLE, kAudioFilePropertyDataFormat, Some(40), false);
    assert_eq!(r.status, kAudioFileSuccess);
    assert_eq!(r.io_data_size, Some(40));
    assert_eq!(r.data, Some(PropertyValue::Format(dummy_format())));
    let r = AudioFileGetProperty(&st, HANDLE, kAudioFilePropertyAudioDataByteCount, Some(8), false);
    assert_eq!(r.data, Some(PropertyValue::U64(352800)));
    let r = AudioFileGetProperty(&st, HANDLE, kAudioFilePropertyAudioDataPacketCount, Some(64), false);
    assert_eq!(r.data, Some(PropertyValue::U64(88200)));
    assert_eq!(r.io_data_size, Some(8));
    let r = AudioFileGetProperty(&st, HANDLE, kAudioFilePropertyMaximumPacketSize, Some(4), false);
    assert_eq!(r.data, Some(PropertyValue::U32(4)));
    let r = AudioFileGetProperty(&st, HANDLE, kAudioFilePropertyEstimatedDuration, Some(8), false);
    assert_eq!(
        r.data,
        Some(PropertyValue::DurationFromPackets {
            packet_count: 88200,
            frames_per_packet: 1,
            sample_rate_bits: SAMPLE_RATE_44100_BITS,
        })
    );
    let r = AudioFileGetProperty(&st, HANDLE, kAudioFilePropertyPacketToFrame, Some(8), false);
    assert_eq!(r.data, Some(PropertyValue::F64Bits(1.0f64.to_bits())));
    let r = AudioFileGetProperty(&st, HANDLE, kAudioFilePropertyFileFormat, Some(4), false);
    assert_eq!(r.data, Some(PropertyValue::U32(kAudioFileCAFType)));
    let r = AudioFileGetProperty(&st, HANDLE, kAudioFilePropertyPacketTableInfo, Some(16), false);
    assert_eq!((r.status, r.io_data_size, r.data), (kAudioFileUnsupportedPropertyError, Some(16), None));
}

#[test]
fn get_property_errors() {
    let st = opened_dummy();
    let r = AudioFileGetProperty(&st, 0, kAudioFilePropertyDataFormat, Some(40), false);
    assert_eq!((r.status, r.io_data_size, r.data), (paramErr, None, None));
    let r = AudioFileGetProperty(&st, HANDLE, kAudioFilePropertyDataFormat, None, false);
    assert_eq!(r.status, paramErr);
    let r = AudioFileGetProperty(&st, HANDLE, 0x12345678, Some(40), false);
    assert_eq!((r.status, r.io_data_size), (kAudioFileUnsupportedPropertyError, None));
    let r = AudioFileGetProperty(&st, HANDLE, kAudioFilePropertyDataFormat, Some(39), false);
    assert_eq!((r.status, r.io_data_size), (kAudioFileBadPropertySizeError, None));
    let r = AudioFileGetProperty(&st, HANDLE, kAudioFilePropertyDataFormat, Some(40), true);
    assert_eq!((r.status, r.io_data_size, r.data), (kAudioFileSuccess, Some(40), None));
    let r = AudioFileGetProperty(&st, 0x9999, kAudioFilePropertyDataFormat, Some(40), false);
    assert_eq!((r.status, r.io_data_size, r.data), (kAudioFileNotOpenError, Some(40), None));
}

#[test]
fn real_file_formats() {
    let f = pcm_file(false, true, 16, 2);
    let asbd = asbd_for_description(&f.description);
    assert_eq!(asbd.format_id, kAudioFormatLinearPCM);
    assert_eq!(asbd.format_flags, 12);
    assert_eq!(asbd.bytes_per_frame, 4);
    let f = pcm_file(true, false, 32, 1);
    assert_eq!(asbd_for_description(&f.description).format_flags, 11);
    let f = pcm_file(false, true, 8, 1);
    assert_eq!(asbd_for_description(&f.description).format_flags, 8);
    let mut d = pcm_file(false, false, 24, 2).description;
    d.bytes_per_packet = 8;
    assert_eq!(asbd_for_description(&d).format_flags, 4 | 2);
    let ima = AudioDescription {
        sample_rate_bits: 22050.0f64.to_bits(),
        format: AudioFormat::AppleIma4,
        bytes_per_packet: 34,
        frames_per_packet: 64,
        channels_per_frame: 1,
        bits_per_channel: 0,
    };
    let asbd = asbd_for_description(&ima);
    assert_eq!((asbd.format_id, asbd.format_flags, asbd.bytes_per_frame), (kAudioFormatAppleIMA4, 0, 0));
}

#[test]
fn get_property_of_real_file() {
    let mut st = State::default();
    let f = pcm_file(false, true, 16, 2);
    assert_eq!(AudioFileOpenURL(&mut st, false, Some(f), HANDLE), kAudioFileSuccess);
    let r = AudioFileGetProperty(&st, HANDLE, kAudioFilePropertyEstimatedDuration, Some(8), false);
    assert_eq!(
        r.data,
        Some(PropertyValue::DurationFromBytes {
            byte_count: 1000,
            frames_per_packet: 1,
            bytes_per_packet: 4,
            sample_rate_bits: 22050.0f64.to_bits(),
        })
    );
    let r = AudioFileGetProperty(&st, HANDLE, kAudioFilePropertyAudioDataPacketCount, Some(8), false);
    assert_eq!(r.data, Some(PropertyValue::U64(250)));
    let r = AudioFileGetProperty(&st, HANDLE, kAudioFilePropertyFileFormat, Some(4), false);
    assert_eq!(r.data, Some(PropertyValue::U32(kAudioFileCAFType)));
}

#[test]
fn read_bytes_of_dummy() {
    let st = opened_dummy();
    assert_eq!(
        AudioFileReadBytes(&st, HANDLE, 0, Some(100), false),
        ReadStep::Zeros { len: 100, bytes_read: 100 }
    );
    assert_eq!(
        AudioFileReadBytes(&st, HANDLE, 352790, Some(100), false),
        ReadStep::Zeros { len: 100, bytes_read: 10 }
    );
    assert_eq!(
        AudioFileReadBytes(&st, HANDLE, -1, Some(100), false),
        ReadStep::Zeros { len: 100, bytes_read: 0 }
    );
    assert_eq!(AudioFileReadBytes(&st, HANDLE, 0, Some(0), false), ReadStep::Finished(kAudioFileSuccess));
    assert_eq!(AudioFileReadBytes(&st, HANDLE, 0, Some(10), true), ReadStep::Finished(kAudioFileSuccess));
    assert_eq!(AudioFileReadBytes(&st, 0, 0, Some(10), false), ReadStep::Finished(paramErr));
    assert_eq!(AudioFileReadBytes(&st, HANDLE, 0, None, false), ReadStep::Finished(paramErr));
    assert_eq!(AudioFileReadBytes(&st, 0x9999, 0, Some(1), false), ReadStep::Finished(kAudioFileNotOpenError));
}

#[test]
fn read_bytes_of_real_file() {
    let mut st = State::default();
    AudioFileOpenURL(&mut st, false, Some(pcm_file(false, true, 16, 2)), HANDLE);
    assert_eq!(
        AudioFileReadBytes(&st, HANDLE, 64, Some(32), false),
        ReadStep::ReadFile { offset: 64, len: 32 }
    );
    assert_eq!(
        AudioFileReadBytes(&st, HANDLE, -8, Some(32), false),
        ReadStep::ReadFile { offset: 0, len: 32 }
    );
}

#[test]
fn read_bytes_outcomes() {
    assert_eq!(read_bytes_outcome(100, 10), (10, eofErr));
    assert_eq!(read_bytes_outcome(100, 100), (100, kAudioFileSuccess));
    assert_eq!(read_bytes_outcome(1, 0x1_0000_0000), (0, kAudioFileSuccess));
}

#[test]
fn read_packets() {
    let st = opened_dummy();
    assert_eq!(
        AudioFileReadPackets(&st, HANDLE, 2, Some(3), false),
        PacketReadStep::Zeros { len: 12, bytes_read: 12, packet_size: 4 }
    );
    assert_eq!(
        AudioFileReadPacketData(&st, HANDLE, 88199, Some(3), false),
        PacketReadStep::Zeros { len: 12, bytes_read: 4, packet_size: 4 }
    );
    assert_eq!(
        AudioFileReadPackets(&st, HANDLE, 0, Some(0), false),
        PacketReadStep::Finished { status: kAudioFileSuccess, num_packets: Some(0), num_bytes: Some(0) }
    );
    assert_eq!(
        AudioFileReadPackets(&st, HANDLE, i64::MAX, Some(1), false),
        PacketReadStep::Finished { status: kAudioFileBadPropertySizeError, num_packets: None, num_bytes: None }
    );
    assert_eq!(
        AudioFileReadPackets(&st, HANDLE, 0, Some(u32::MAX), false),
        PacketReadStep::Finished { status: kAudioFileBadPropertySizeError, num_packets: None, num_bytes: None }
    );
    assert_eq!(
        AudioFileReadPackets(&st, HANDLE, 0, Some(5), true),
        PacketReadStep::Finished { status: kAudioFileSuccess, num_packets: Some(0), num_bytes: Some(0) }
    );
    assert_eq!(
        AudioFileReadPackets(&st, 0, 0, Some(5), false),
        PacketReadStep::Finished { status: paramErr, num_packets: None, num_bytes: None }
    );
    assert_eq!(
        AudioFileReadPackets(&st, 0x9999, 0, Some(5), false),
        PacketReadStep::Finished { status: kAudioFileNotOpenError, num_packets: None, num_bytes: None }
    );
    let mut st2 = State::default();
    AudioFileOpenURL(&mut st2, false, Some(pcm_file(false, true, 16, 2)), HANDLE);
    assert_eq!(
        AudioFileReadPackets(&st2, HANDLE, 10, Some(2), false),
        PacketReadStep::ReadFile { offset: 40, len: 8, packet_size: 4 }
    );
}

#[test]
fn read_packet_outcomes() {
    assert_eq!(read_packets_outcome(12, 12, 4), (kAudioFileSuccess, 3, 12));
    assert_eq!(read_packets_outcome(12, 6, 4), (eofErr, 1, 6));
}

#[test]
fn close_twice() {
    let mut st = opened_dummy();
    assert_eq!(AudioFileClose(&mut st, 0), paramErr);
    assert_eq!(AudioFileClose(&mut st, HANDLE), kAudioFileSuccess);
    assert!(st.audio_files.is_empty());
    assert_eq!(AudioFileClose(&mut st, HANDLE), kAudioFileUnspecifiedError);
    let r = AudioFileGetProperty(&st, HANDLE, kAudioFilePropertyDataFormat, Some(40), false);
    assert_eq!(r.status, kAudioFileNotOpenError);
}

#[test]
fn format_property_info_is_refused() {
    assert_eq!(AudioFormatGetPropertyInfo(), paramErr);
}

#[test]
fn close_any_open_file_twice() {
    let mut st = State::default();
    AudioFileOpenURL(&mut st, false, None, 0x4000);
    AudioFileOpenURL(&mut st, false, Some(pcm_file(true, true, 32, 2)), 0x5000);
    assert_eq!(AudioFileClose(&mut st, 0x5000), kAudioFileSuccess);
    assert_eq!(AudioFileClose(&mut st, 0x5000), kAudioFileUnspecifiedError);
    assert_eq!(st.audio_files.len(), 1);
    assert!(st.audio_files.contains_key(&0x4000));
}
