use crambo_desktop::audio::{
    find_device_by_name, first_matching_name, get_input_device, get_state, opus_channels, opus_container,
    opus_frame_size, opus_frames, pcm_le_bytes, pcm_samples, wav_file_bytes, DeviceChoice,
    OpusChannels, Platform, RecordingState,
};

#[test]
fn initial_state_is_idle_48k_mono() {
    let st: RecordingState<u8> = get_state();
    assert!(!st.is_recording);
    assert!(st.temp_file.is_none());
    assert!(st.stop_signal.is_none());
    assert_eq!(st.sample_rate, 48000);
    assert_eq!(st.channels, 1);
}

#[test]
fn start_then_stop_hands_back_file_and_format() {
    let mut st: RecordingState<u32> = get_state();
    assert!(st.check_not_recording().is_ok());
    st.set_format(44100, 2);
    st.mark_recording("/tmp/pcm".to_string(), 7);
    assert!(st.is_recording);
    assert_eq!(st.check_not_recording(), Err("Already recording".to_string()));
    let (signal, finished) = st.stop().unwrap();
    assert_eq!(signal, Some(7));
    let f = finished.unwrap();
    assert_eq!(f.path, "/tmp/pcm");
    assert_eq!(f.sample_rate, 44100);
    assert_eq!(f.channels, 2);
    assert!(!st.is_recording);
    assert!(st.temp_file.is_none());
    assert!(st.stop_signal.is_none());
    assert_eq!(st.sample_rate, 44100);
}

#[test]
fn stop_while_idle_is_refused() {
    let mut st: RecordingState<u32> = get_state();
    match st.stop() {
        Err(m) => assert_eq!(m, "Not recording"),
        Ok(_) => panic!("stop while idle must fail"),
    }
    assert!(!st.is_recording);
}

#[test]
fn stop_without_file_reports_missing_file() {
    let mut st: RecordingState<u32> = RecordingState {
        temp_file: None,
        is_recording: true,
        stop_signal: Some(3),
        sample_rate: 16000,
        channels: 1,
    };
    let (signal, finished) = st.stop().unwrap();
    assert_eq!(signal, Some(3));
    match finished {
        Err(m) => assert_eq!(m, "No temp file found"),
        Ok(_) => panic!("expected the missing-file error"),
    }
    assert!(st.is_recording);
    assert!(st.stop_signal.is_none());
}

#[test]
fn find_device_ignores_case_and_unreadable_names() {
    let names = vec![
        None,
        Some("MacBook Microphone".to_string()),
        Some("BLACKHOLE 2CH".to_string()),
        Some("BlackHole 16ch".to_string()),
    ];
    assert_eq!(find_device_by_name(&names, "BlackHole"), Some(2));
    assert_eq!(find_device_by_name(&names, "usb"), None);
    assert_eq!(find_device_by_name(&vec![], "x"), None);
}

#[test]
fn input_device_choice_per_platform_and_mode() {
    let names = vec![Some("Mic".to_string()), Some("BlackHole 2ch".to_string())];
    assert_eq!(get_input_device("system", Platform::MacOs, &names, true, true), Ok(DeviceChoice::Listed(1)));
    assert_eq!(get_input_device("mic", Platform::MacOs, &names, true, true), Ok(DeviceChoice::Default));
    let none: Vec<Option<String>> = vec![Some("Mic".to_string())];
    assert_eq!(get_input_device("system", Platform::MacOs, &none, true, true), Ok(DeviceChoice::Default));
    assert_eq!(
        get_input_device("system", Platform::MacOs, &none, false, true),
        Err("No input device available. Install BlackHole for system audio capture on macOS.".to_string())
    );
    assert_eq!(
        get_input_device("system", Platform::Other, &names, false, true),
        Err("No input device available".to_string())
    );
    assert_eq!(
        get_input_device("mic", Platform::Windows, &names, false, true),
        Err("No input device available".to_string())
    );
    assert_eq!(get_input_device("mic", Platform::Windows, &names, true, true), Ok(DeviceChoice::Default));
}

#[test]
fn windows_system_capture_loops_back_the_default_output() {
    let names = vec![Some("Microphone".to_string())];
    assert_eq!(
        get_input_device("system", Platform::Windows, &names, true, true),
        Ok(DeviceChoice::OutputLoopback)
    );
    assert_eq!(
        get_input_device("system", Platform::Windows, &names, false, true),
        Ok(DeviceChoice::OutputLoopback)
    );
    assert_eq!(
        get_input_device("system", Platform::Windows, &names, true, false),
        Err("No loopback device available. WASAPI loopback requires a compatible audio device.".to_string())
    );
}

#[test]
fn pcm_bytes_are_little_endian_and_read_back() {
    let samples: Vec<i16> = vec![0, 1, -1, 258, i16::MIN, i16::MAX];
    let bytes = pcm_le_bytes(&samples);
    assert_eq!(bytes, vec![0, 0, 1, 0, 0xff, 0xff, 2, 1, 0x00, 0x80, 0xff, 0x7f]);
    assert_eq!(pcm_samples(&bytes), samples);
    let mut odd = bytes.clone();
    odd.push(9);
    assert_eq!(pcm_samples(&odd), samples);
    assert_eq!(pcm_samples(&[]), Vec::<i16>::new());
}

#[test]
fn opus_frame_layout() {
    assert_eq!(opus_channels(1), OpusChannels::Mono);
    assert_eq!(opus_channels(0), OpusChannels::Mono);
    assert_eq!(opus_channels(2), OpusChannels::Stereo);
    assert_eq!(opus_channels(6), OpusChannels::Stereo);
    assert_eq!(opus_frame_size(48000, 1), 960);
    assert_eq!(opus_frame_size(44100, 2), 1764);
    assert_eq!(opus_frame_size(49, 2), 0);
}

#[test]
fn opus_frames_pad_the_last_frame() {
    let samples: Vec<i16> = vec![1, 2, 3, 4, 5, 6, 7];
    let frames = opus_frames(&samples, 3);
    assert_eq!(frames, vec![vec![1, 2, 3], vec![4, 5, 6], vec![7, 0, 0]]);
    let exact = opus_frames(&samples[..6], 3);
    assert_eq!(exact, vec![vec![1, 2, 3], vec![4, 5, 6]]);
    assert_eq!(opus_frames(&[], 4), Vec::<Vec<i16>>::new());
    let flat: Vec<i16> = frames.iter().flatten().copied().collect();
    assert_eq!(&flat[..7], &samples[..]);
}

#[test]
fn opus_container_prefixes_each_frame_with_its_length() {
    let frames = vec![vec![0xaa, 0xbb], vec![], vec![1u8; 300]];
    let c = opus_container(&frames);
    assert_eq!(&c[..6], &[2, 0, 0, 0, 0xaa, 0xbb]);
    assert_eq!(&c[6..10], &[0, 0, 0, 0]);
    assert_eq!(&c[10..14], &[44, 1, 0, 0]);
    assert_eq!(c.len(), 14 + 300);
    assert_eq!(opus_container(&vec![]), Vec::<u8>::new());
}

#[test]
fn wav_header_states_the_format() {
    let pcm = vec![1u8, 2, 3, 4];
    let wav = wav_file_bytes(&pcm, 48000, 2);
    assert_eq!(wav.len(), 48);
    assert_eq!(&wav[0..4], b"RIFF");
    assert_eq!(u32::from_le_bytes([wav[4], wav[5], wav[6], wav[7]]), 40);
    assert_eq!(&wav[8..12], b"WAVE");
    assert_eq!(&wav[12..16], b"fmt ");
    assert_eq!(u32::from_le_bytes([wav[16], wav[17], wav[18], wav[19]]), 16);
    assert_eq!(u16::from_le_bytes([wav[20], wav[21]]), 1);
    assert_eq!(u16::from_le_bytes([wav[22], wav[23]]), 2);
    assert_eq!(u32::from_le_bytes([wav[24], wav[25], wav[26], wav[27]]), 48000);
    assert_eq!(u32::from_le_bytes([wav[28], wav[29], wav[30], wav[31]]), 192000);
    assert_eq!(u16::from_le_bytes([wav[32], wav[33]]), 4);
    assert_eq!(u16::from_le_bytes([wav[34], wav[35]]), 16);
    assert_eq!(&wav[36..40], b"data");
    assert_eq!(u32::from_le_bytes([wav[40], wav[41], wav[42], wav[43]]), 4);
    assert_eq!(&wav[44..], &pcm[..]);
}

#[test]
fn first_matching_name_on_lowered_names() {
    let names = vec![None, Some("mic".to_string()), Some("blackhole 2ch".to_string())];
    assert_eq!(first_matching_name(&names, "blackhole"), Some(2));
    assert_eq!(first_matching_name(&names, "BlackHole"), None);
}
