use audiopipe::flow::{self, UdpAudioPacket};
use audiopipe::mixer::{custom_mixer, read_from_mixer_async, write_to_mixer_async, MixerError, MixerTrackSelector};
use audiopipe::receiver;
use audiopipe::ring::SampleRing;
use audiopipe::sender;
use audiopipe::stream::{build_audio_packet, receive_audio_packet, stamp_audio_packet, AudioPacket, AudioPacketHeader, UdpClientError};
use audiopipe::streamer::{
    from_sample_format, is_supported_format, process_input, process_output, push_each, udp_receiver_round,
    udp_sender_round, CpalStats, SampleFormat, StreamSampleType, UdpStats,
};

fn to_bytes(samples: &[u32]) -> Vec<u8> {
    samples.iter().flat_map(|s| s.to_ne_bytes()).collect()
}

fn from_bytes(bytes: &[u8]) -> Vec<u32> {
    bytes.chunks(4).map(|c| u32::from_ne_bytes([c[0], c[1], c[2], c[3]])).collect()
}

fn drain(ring: &mut SampleRing, n: usize) -> Vec<u32> {
    let mut out = vec![0u32; n];
    process_output(&mut out, ring);
    out
}

#[test]
fn packet_round_trip_through_mixers() {
    let mut client = custom_mixer(2, 8, 44100);
    let stream: Vec<u32> = vec![1, 2, 3, 4, 5, 6];
    assert_eq!(write_to_mixer_async(&mut client, &stream, MixerTrackSelector::Stereo(0, 1)), (6, 0));
    let packet = build_audio_packet(&mut client, 3, 44100, 77, MixerTrackSelector::Stereo(0, 1)).unwrap();
    assert_eq!(packet.header.connection_id, 77);
    assert_eq!(packet.header.channels, 2);
    assert_eq!(packet.header.sample_rate, 44100);
    assert!(packet.header.timestamp_nanos < 1_000_000_000);
    assert_eq!(from_bytes(&packet.payload), stream);

    let mut server = custom_mixer(4, 8, 44100);
    assert_eq!(receive_audio_packet(&mut server, &packet, MixerTrackSelector::Stereo(2, 3)).unwrap(), (6, 0));
    let mut out = vec![0u32; 6];
    read_from_mixer_async(&mut server, &mut out, MixerTrackSelector::Stereo(2, 3));
    assert_eq!(out, stream);
}

#[test]
fn packet_for_missing_channel_is_refused() {
    let mut client = custom_mixer(1, 8, 44100);
    let r = build_audio_packet(&mut client, 4, 44100, 1, MixerTrackSelector::Stereo(0, 1));
    assert!(matches!(r, Err(UdpClientError::MixerError(MixerError::InputChannelNotFound))));
}

#[test]
fn odd_payload_is_not_samples() {
    let mut server = custom_mixer(1, 8, 44100);
    let packet = AudioPacket {
        header: AudioPacketHeader { connection_id: 1, timestamp_secs: 0, timestamp_nanos: 0, sample_rate: 44100, channels: 1 },
        payload: vec![1, 2, 3],
    };
    assert!(receive_audio_packet(&mut server, &packet, MixerTrackSelector::Mono(0)).is_err());
    let mut out = vec![9u32; 2];
    read_from_mixer_async(&mut server, &mut out, MixerTrackSelector::Mono(0));
    assert_eq!(out, vec![0, 0]);
}

#[test]
fn streamer_sender_ships_full_buffer() {
    let mut ring = SampleRing::new(4);
    let (n, stats) = process_input(&[1, 2, 3], &mut ring);
    assert_eq!(n, 3);
    assert_eq!(stats, CpalStats { consumed: None, requested: Some(3) });
    assert!(udp_sender_round(&mut ring).is_none());
    let (n, _) = process_input(&[4, 5, 6], &mut ring);
    assert_eq!(n, 1);
    let (bytes, stats) = udp_sender_round(&mut ring).unwrap();
    assert_eq!(from_bytes(&bytes), vec![1, 2, 3, 4]);
    assert_eq!(stats, UdpStats { sent: Some(16), received: None, occupied_buffer: 4 });
    assert_eq!(ring.occupied_len(), 0);
}

#[test]
fn streamer_receiver_plays_with_silence() {
    let mut ring = SampleRing::new(3);
    let buf = to_bytes(&[10, 20, 30, 40]);
    let stats = udp_receiver_round(&mut ring, &buf, 16).unwrap();
    assert_eq!(stats, UdpStats { sent: None, received: Some(16), occupied_buffer: 0 });
    let mut out = vec![7u32; 5];
    let (n, cstats) = process_output(&mut out, &mut ring);
    assert_eq!(out, vec![10, 20, 30, 0, 0]);
    assert_eq!(n, 5);
    assert_eq!(cstats, CpalStats { consumed: Some(5), requested: None });
    assert!(udp_receiver_round(&mut ring, &[1, 2, 3, 4, 5], 5).is_none());
}

#[test]
fn push_each_keeps_first() {
    let mut ring = SampleRing::new(2);
    push_each(&mut ring, &[5, 6, 7]);
    assert_eq!(drain(&mut ring, 3), vec![5, 6, 0]);
}

#[test]
fn sample_formats() {
    assert!(is_supported_format(SampleFormat::F32));
    assert!(is_supported_format(SampleFormat::I16));
    assert!(!is_supported_format(SampleFormat::F64));
    assert!(!is_supported_format(SampleFormat::U8));
    assert_eq!(from_sample_format(SampleFormat::F32), StreamSampleType::F32);
    assert_eq!(from_sample_format(SampleFormat::I8), StreamSampleType::I8);
    assert_eq!(from_sample_format(SampleFormat::I16), StreamSampleType::I16);
    assert_eq!(from_sample_format(SampleFormat::I32), StreamSampleType::I32);
}

#[test]
fn plain_sender_and_receiver() {
    let mut ring = SampleRing::new(2);
    let c = sender::capture(&mut ring, &[1, 2, 3]);
    assert_eq!(c.requested_sample_length, 3);
    let (bytes, stats) = sender::send_round(&mut ring).unwrap();
    assert_eq!(from_bytes(&bytes), vec![1, 2]);
    assert_eq!(stats, sender::UdpStats { sent: 8, occupied_buffer: 2 });
    assert!(sender::send_round(&mut ring).is_none());

    let mut rring = SampleRing::new(4);
    let s = receiver::receive(&mut rring, &to_bytes(&[8, 9]), 8).unwrap();
    assert_eq!(s, receiver::UdpStats { received: 8, occupied_buffer: 2 });
    assert!(receiver::receive(&mut rring, &[0u8; 6], 6).is_none());
    let mut out = vec![5u32; 3];
    let (n, cs) = receiver::playback(&mut rring, &mut out);
    assert_eq!(n, 2);
    assert_eq!(out, vec![8, 9, 5]);
    assert_eq!(cs.requested_sample_length, 3);
}

#[test]
fn capture_keeps_selected_channels() {
    let mut ring = SampleRing::new(8);
    let data: Vec<u32> = vec![1, 2, 3, 4, 5, 6, 7, 8];
    let (walked, dropped) = flow::process_input(&data, &mut ring, vec![1, 1], 2);
    assert_eq!((walked, dropped), (8, 0));
    assert_eq!(drain(&mut ring, 5), vec![2, 4, 6, 8, 0]);
    let mut small = SampleRing::new(1);
    assert_eq!(flow::process_input(&data, &mut small, vec![0], 4), (8, 1));
    assert_eq!(drain(&mut small, 1), vec![1]);
}

#[test]
fn flow_round_trip() {
    let mut ring = SampleRing::new(4);
    push_each(&mut ring, &[1, 2, 3]);
    let (none, seq) = flow::udp_sender_round(&mut ring, false, 5).unwrap();
    assert!(none.is_empty());
    assert_eq!(seq, 5);
    let (packets, seq) = flow::udp_sender_round(&mut ring, true, 5).unwrap();
    assert_eq!(seq, 6);
    assert_eq!(packets.len(), 1);
    assert_eq!(packets[0].sequence, 5);
    assert_eq!(from_bytes(&packets[0].data), vec![1, 2, 3]);

    let mut rring = SampleRing::new(2);
    assert!(flow::udp_receiver_round(&mut rring, &packets[0]).is_ok());
    assert_eq!(drain(&mut rring, 3), vec![1, 2, 0]);
    let bad = UdpAudioPacket { sequence: 0, timestamp_secs: 0, timestamp_nanos: 0, data: vec![0; 3] };
    assert!(flow::udp_receiver_round(&mut rring, &bad).is_err());
}

const TEST_DATA: &[u8] = "hxte-thx-wxrld".as_bytes();

fn test_samples() -> Vec<u32> {
    TEST_DATA.iter().map(|b| *b as u32).collect()
}

#[test]
fn flow_sends_when_buffer_is_full() {
    let mut input = SampleRing::new(TEST_DATA.len());
    let mut output = SampleRing::new(TEST_DATA.len());
    push_each(&mut input, &test_samples());
    let (packets, _) = flow::udp_sender_round(&mut input, false, 0).unwrap();
    for p in &packets {
        flow::udp_receiver_round(&mut output, p).unwrap();
    }
    // Input Producer must be empty, because its contents were sent
    assert_eq!(input.occupied_len(), 0);
    assert_eq!(output.occupied_len(), TEST_DATA.len());
    assert_eq!(drain(&mut output, TEST_DATA.len()), test_samples());
}

#[test]
fn flow_wont_send_when_buffer_is_not_full() {
    let mut input = SampleRing::new(1024);
    let mut output = SampleRing::new(1024);
    push_each(&mut input, &test_samples());
    let (packets, _) = flow::udp_sender_round(&mut input, false, 0).unwrap();
    for p in &packets {
        flow::udp_receiver_round(&mut output, p).unwrap();
    }
    assert_eq!(input.occupied_len(), TEST_DATA.len());
    assert_eq!(output.occupied_len(), 0);
}

#[test]
fn payload_is_the_samples_in_one_byte_order() {
    let samples: Vec<u32> = vec![0x0102_0304, 0xA0B0_C0D0];
    let mut ring = SampleRing::new(2);
    push_each(&mut ring, &samples);
    let (bytes, _) = udp_sender_round(&mut ring).unwrap();
    let le: Vec<u8> = samples.iter().flat_map(|s| s.to_le_bytes()).collect();
    let be: Vec<u8> = samples.iter().flat_map(|s| s.to_be_bytes()).collect();
    assert!(bytes == le || bytes == be);
    let mut back = SampleRing::new(2);
    udp_receiver_round(&mut back, &bytes, bytes.len()).unwrap();
    assert_eq!(drain(&mut back, 2), samples);
}

#[test]
fn stamped_packet_carries_the_given_time() {
    let mut client = custom_mixer(3, 8, 48000);
    assert_eq!(write_to_mixer_async(&mut client, &[9, 8, 7, 6], MixerTrackSelector::Stereo(2, 0)), (4, 0));
    let packet = stamp_audio_packet(&mut client, 3, 48000, 5, MixerTrackSelector::Stereo(2, 0), 1_700_000_000, 250);
    assert_eq!(
        packet.header,
        AudioPacketHeader { connection_id: 5, timestamp_secs: 1_700_000_000, timestamp_nanos: 250, sample_rate: 48000, channels: 2 }
    );
    assert_eq!(from_bytes(&packet.payload), vec![9, 8, 7, 6, 0, 0]);
}

#[test]
fn flow_round_at_stamps_every_packet() {
    let mut ring = SampleRing::new(4);
    push_each(&mut ring, &[4, 5, 6, 7]);
    let (packets, seq) = flow::udp_sender_round_at(&mut ring, false, 9, 42, 7);
    assert_eq!(seq, 10);
    assert_eq!(packets.len(), 1);
    assert_eq!((packets[0].sequence, packets[0].timestamp_secs, packets[0].timestamp_nanos), (9, 42, 7));
    assert_eq!(from_bytes(&packets[0].data), vec![4, 5, 6, 7]);
    assert_eq!(ring.occupied_len(), 0);

    push_each(&mut ring, &[1]);
    let (none, seq) = flow::udp_sender_round_at(&mut ring, false, 3, 42, 7);
    assert!(none.is_empty());
    assert_eq!(seq, 3);
    assert_eq!(ring.occupied_len(), 1);
}
