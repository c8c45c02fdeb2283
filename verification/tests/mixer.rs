use audiopipe::mixer::{
    custom_mixer, default_client_mixer, default_server_mixer, mixdown, process_udp_server_output,
    read_from_mixer_async, read_from_mixer_sync, write_to_mixer_async, write_to_mixer_sync,
    MixerError, MixerTrack, MixerTrackSelector,
};

fn bits(data: &[f32]) -> Vec<u32> {
    data.iter().map(|x| x.to_bits()).collect()
}

fn mono_test_data(length: usize) -> Vec<f32> {
    (0..length).map(|i| i as f32).collect()
}

fn stereo_test_data(length: usize) -> Vec<f32> {
    (0..length * 2)
        .map(|i| if i & 1 > 0 { (i - 1) as f32 } else { i as f32 })
        .collect()
}

#[test]
fn test_mono_mixer_sync() {
    let bufsize = 16;
    let mut mixer = custom_mixer(1, 16, 44100);
    let input_data = bits(&mono_test_data(16));
    write_to_mixer_sync(&mut mixer, input_data.as_slice(), MixerTrackSelector::Mono(0));
    let mut output_buffer = vec![0u32; bufsize];
    read_from_mixer_sync(&mut mixer, &mut output_buffer).unwrap();
    assert_eq!(input_data, output_buffer);
}

#[test]
fn test_stereo_mixer_sync() {
    let bufsize = 16;
    let mut mixer = custom_mixer(2, bufsize, 44100);
    let input_data = bits(&stereo_test_data(bufsize));
    write_to_mixer_sync(&mut mixer, input_data.as_slice(), MixerTrackSelector::Stereo(0, 1));
    let mut output_buffer = vec![0u32; bufsize * 2];
    read_from_mixer_sync(&mut mixer, &mut output_buffer).unwrap();
    assert_eq!(input_data, output_buffer);
}

#[test]
fn test_mono_mixer_async() {
    let bufsize = 16;
    let mut mixer = custom_mixer(1, 16, 44100);
    let input_data = bits(&mono_test_data(16));
    write_to_mixer_async(&mut mixer, input_data.as_slice(), MixerTrackSelector::Mono(0));
    let mut output_buffer = vec![0u32; bufsize];
    read_from_mixer_async(&mut mixer, &mut output_buffer, MixerTrackSelector::Mono(0));
    assert_eq!(input_data, output_buffer);
}

#[test]
fn test_stereo_mixer_async() {
    let bufsize = 16;
    let mut mixer = custom_mixer(2, bufsize, 44100);
    let input_data = bits(&stereo_test_data(bufsize));
    write_to_mixer_async(&mut mixer, input_data.as_slice(), MixerTrackSelector::Stereo(0, 1));
    let mut output_buffer = vec![0u32; bufsize * 2];
    read_from_mixer_async(&mut mixer, &mut output_buffer, MixerTrackSelector::Stereo(0, 1));
    assert_eq!(input_data, output_buffer);
}

#[test]
fn mixer_test_mixer() {
    let mut output = default_server_mixer(2, 8, 44100);
    for ch in 0..2usize {
        write_to_mixer_sync(&mut output, &[((ch + 1) as f32).to_bits()], MixerTrackSelector::Mono(ch));
    }
    let mut master_buf = vec![0u32; 16];
    mixdown(&mut output, &mut master_buf);
    assert_eq!(&master_buf[..4], bits(&[1.0, 2.0, 0.0, 0.0]).as_slice());
}

#[test]
fn audio_test_mixer() {
    let mut mixer = custom_mixer(2, 8, 44100);
    for ch in 0..2usize {
        write_to_mixer_sync(&mut mixer, &[((ch + 1) as f32).to_bits()], MixerTrackSelector::Mono(ch));
    }
    let mut master_buf = vec![0u32; 16];
    let consumed = mixdown(&mut mixer, &mut master_buf);
    assert_eq!(&master_buf[..4], bits(&[1.0, 2.0, 0.0, 0.0]).as_slice());
    assert_eq!(consumed, 16);
}

#[test]
fn write_accounting_counts_drops() {
    let mut mixer = default_client_mixer(1, 4, 48000);
    let (consumed, dropped) = write_to_mixer_sync(&mut mixer, &[1, 2, 3, 4, 5, 6], MixerTrackSelector::Mono(0));
    assert_eq!((consumed, dropped), (4, 2));
    let mut out = vec![9u32; 6];
    let (popped, silent) = read_from_mixer_sync(&mut mixer, &mut out).unwrap();
    assert_eq!(out, vec![1, 2, 3, 4, 0, 0]);
    assert_eq!((popped, silent), (4, 2));
}

#[test]
fn selector_outside_mixer_is_rejected() {
    let mut mixer = custom_mixer(2, 4, 44100);
    assert_eq!(write_to_mixer_sync(&mut mixer, &[1, 2], MixerTrackSelector::Stereo(0, 2)), (0, 0));
    let mut out = vec![7u32; 3];
    assert_eq!(read_from_mixer_async(&mut mixer, &mut out, MixerTrackSelector::Mono(5)), (0, 0));
    assert_eq!(out, vec![7, 7, 7]);
    assert_eq!(mixer.get_raw_channel(2), Err(MixerError::InputChannelNotFound));
    assert_eq!(mixer.get_channel(MixerTrackSelector::Stereo(1, 0)), Ok(MixerTrack::Stereo(1, 0)));
}

#[test]
fn stereo_on_one_channel_keeps_order() {
    let mut mixer = custom_mixer(1, 8, 44100);
    write_to_mixer_sync(&mut mixer, &[1, 2, 3, 4], MixerTrackSelector::Stereo(0, 0));
    let mut out = vec![0u32; 4];
    read_from_mixer_async(&mut mixer, &mut out, MixerTrackSelector::Stereo(0, 0));
    assert_eq!(out, vec![1, 2, 3, 4]);
}

#[test]
fn empty_mixer_reads_silence() {
    let mut mixer = custom_mixer(3, 2, 44100);
    let mut out = vec![5u32; 7];
    assert_eq!(read_from_mixer_sync(&mut mixer, &mut out).unwrap(), (0, 7));
    assert_eq!(out, vec![0; 7]);
    let mut none = custom_mixer(0, 0, 44100);
    let mut out2 = vec![3u32; 2];
    assert_eq!(mixdown(&mut none, &mut out2), 0);
    assert_eq!(out2, vec![3, 3]);
}

#[test]
fn packet_samples_spread_round_robin() {
    let mut mixer = custom_mixer(2, 4, 44100);
    process_udp_server_output(&mut mixer, &[10, 20, 11, 21, 12], 2);
    let mut out = vec![0u32; 3];
    read_from_mixer_async(&mut mixer, &mut out, MixerTrackSelector::Mono(0));
    assert_eq!(out, vec![10, 11, 12]);
    let mut out = vec![0u32; 3];
    read_from_mixer_async(&mut mixer, &mut out, MixerTrackSelector::Mono(1));
    assert_eq!(out, vec![20, 21, 0]);
}

#[test]
fn selector_counts_and_membership() {
    assert_eq!(MixerTrackSelector::Mono(3).channel_count(), 1);
    assert_eq!(MixerTrackSelector::Stereo(0, 1).channel_count(), 2);
    assert!(MixerTrackSelector::Stereo(0, 4).contains(4));
    assert!(!MixerTrackSelector::Stereo(0, 4).contains(2));
    assert!(MixerTrackSelector::Mono(2).contains(2));
}

#[test]
fn selector_from_text() {
    assert_eq!(MixerTrackSelector::from_string("3".to_string()), MixerTrackSelector::Mono(3));
    assert_eq!(MixerTrackSelector::from_string("0,1".to_string()), MixerTrackSelector::Stereo(0, 1));
    assert_eq!(MixerTrackSelector::from_string("+4,7".to_string()), MixerTrackSelector::Stereo(4, 7));
    assert_eq!(MixerTrackSelector::from_string("1,2,3".to_string()), MixerTrackSelector::Stereo(0, 1));
    assert!(MixerTrackSelector::is_selector_text("1,2,3"));
    assert!(MixerTrackSelector::is_selector_text("0,1"));
    assert!(!MixerTrackSelector::is_selector_text("x"));
    assert!(!MixerTrackSelector::is_selector_text(""));
    assert!(!MixerTrackSelector::is_selector_text("1,"));
    assert!(!MixerTrackSelector::is_selector_text("-1"));
    assert!(!MixerTrackSelector::is_selector_text("99999999999999999999999"));
}

#[test]
fn stereo_round_trip_takes_every_sample() {
    let k = 8;
    let mut mixer = custom_mixer(2, k, 44100);
    let input: Vec<u32> = (1..=(2 * k as u32)).collect();
    assert_eq!(write_to_mixer_sync(&mut mixer, &input, MixerTrackSelector::Stereo(0, 1)), (2 * k, 0));
    let mut out = vec![0u32; 2 * k];
    assert_eq!(read_from_mixer_sync(&mut mixer, &mut out), Ok((2 * k, 0)));
    assert_eq!(out, input);
}

// The input holds both channels of `bufsize * chcount` frames, thirty-two
// samples, while the read buffer holds sixteen, so the two can never be equal
// as a whole. A synchronous read walks all sixteen channels in turn: it takes
// the first sample of channels 0 and 1 and silence from the fourteen others.
#[test]
fn test_eight_channel_mixer_sync() {
    let bufsize = 4;
    let chcount = 4;
    let mut mixer = custom_mixer(16, bufsize, 44100);
    let input_data = bits(&stereo_test_data(bufsize * chcount));
    write_to_mixer_sync(&mut mixer, input_data.as_slice(), MixerTrackSelector::Stereo(0, 1));
    let mut output_buffer = vec![0u32; bufsize * chcount];
    read_from_mixer_sync(&mut mixer, &mut output_buffer).unwrap();
    assert_eq!(input_data.len(), 2 * output_buffer.len());
    let mut expected = vec![0u32; bufsize * chcount];
    expected[0] = input_data[0];
    expected[1] = input_data[1];
    assert_eq!(output_buffer, expected);
}
