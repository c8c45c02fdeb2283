use audiopipe::cli::{
    plain_stream_config, stream_settings, BufferSize, ChannelMapping, ChannelMappingError, GlobalOptions, StreamConfig,
    StreamerConfig, DEFAULT_PORT,
};
use audiopipe::device::Direction;
use audiopipe::flow::{CpalStats, NetworkUDPStats};
use audiopipe::mixer::MixerTrackSelector;
use audiopipe::text::{parse_usize, split_bytes};
use audiopipe::tui::{tui_figures, KeyPress, TuiApp, TuiFigures};

fn options(buffer_size: Option<u32>, samplerate: Option<u32>) -> GlobalOptions {
    GlobalOptions {
        audio_host: None,
        device: None,
        buffer_size,
        samplerate,
        track_selector: MixerTrackSelector::Stereo(0, 1),
    }
}

#[test]
fn settings_default_to_1024_at_44100() {
    assert_eq!(stream_settings(&options(None, None)), (1024, 44100));
    assert_eq!(stream_settings(&options(Some(256), Some(48000))), (256, 48000));
}

#[test]
fn channel_mapping_reads_first_number() {
    assert!(ChannelMapping::from_str("3=5").is_ok());
    assert_eq!(ChannelMapping::from_str("x=5"), Err(ChannelMappingError::InvalidStr));
    assert_eq!(ChannelMapping::from_str(""), Err(ChannelMappingError::InvalidStr));
    let m = ChannelMapping::from_str("4").unwrap();
    assert_eq!(m, ChannelMapping::from_str("4=9").unwrap());
}

#[test]
fn streamer_config_from_args() {
    let default_config = StreamConfig { channels: 8, sample_rate: 48000, buffer_size: BufferSize::Default };
    let c = StreamerConfig::from_cli_args(Direction::Receiver, None, None, true, default_config);
    assert_eq!(c.cpal_config, default_config);
    assert_eq!(c.buffer_size, 1024);
    assert_eq!(c.channel_count, 8);
    assert_eq!(c.port, DEFAULT_PORT);
    assert_eq!(c.port, 42069);
    assert!(c.send_network_stats && c.send_cpal_stats);
    assert_eq!(c.selected_channels, vec![0, 1]);

    let c = StreamerConfig::from_cli_args(Direction::Sender, Some(256), Some(5000), false, default_config);
    assert_eq!(
        c.cpal_config,
        StreamConfig { channels: 8, sample_rate: 44100, buffer_size: BufferSize::Fixed(256) }
    );
    assert_eq!(c.buffer_size, 256);
    assert_eq!(c.port, 5000);
    assert_eq!(c.direction, Direction::Sender);
    assert!(!c.send_network_stats);
}

#[test]
fn text_parsing() {
    assert_eq!(parse_usize(b"42"), Some(42));
    assert_eq!(parse_usize(b"+7"), Some(7));
    assert_eq!(parse_usize(b"007"), Some(7));
    assert_eq!(parse_usize(b"-1"), None);
    assert_eq!(parse_usize(b"+"), None);
    assert_eq!(parse_usize(b""), None);
    assert_eq!(parse_usize(b"1a"), None);
    assert_eq!(parse_usize(b"18446744073709551616"), None);
    assert_eq!(parse_usize(b"18446744073709551615"), Some(usize::MAX));
    assert_eq!(split_bytes(b"a,,b", b','), vec![b"a".to_vec(), vec![], b"b".to_vec()]);
    assert_eq!(split_bytes(b"", b','), vec![Vec::<u8>::new()]);
}

#[test]
fn tui_window_state() {
    let mut app = TuiApp::new(Direction::Sender, "Mic".to_string());
    assert!(!app.should_exit());
    assert_eq!(app.title(), " Audio Sender ");
    assert_eq!(app.device_name(), "Mic");
    assert_eq!(app.device_label(), "Input Device Name");
    assert_eq!(app.samples_label(), "Sent Samples");
    app.handle_key_event(KeyPress::Char('x'));
    app.handle_key_event(KeyPress::Other);
    assert!(!app.should_exit());
    app.handle_key_event(KeyPress::Char('q'));
    assert!(app.should_exit());
    let mut r = TuiApp::new(Direction::Receiver, String::new());
    assert_eq!(r.title(), " Audio Receiver ");
    assert_eq!(r.device_label(), "Output Device Name");
    assert_eq!(r.samples_label(), "Received Samples");
    r.exit();
    assert!(r.should_exit());
}

#[test]
fn tui_figures_default_to_zero() {
    let net = NetworkUDPStats { sent: Some(3), received: None, pre_occupied_buffer: 12, post_occupied_buffer: 0 };
    let cpal = CpalStats { consumed: None, requested: Some(256) };
    assert_eq!(tui_figures(net, cpal), TuiFigures { occupied: 12, samples: 0, requested: 256 });
    let net = NetworkUDPStats { received: Some(9), ..Default::default() };
    assert_eq!(tui_figures(net, CpalStats::default()), TuiFigures { occupied: 0, samples: 9, requested: 0 });
}

#[test]
fn plain_config_needs_channel_and_buffer() {
    let default_config = StreamConfig { channels: 2, sample_rate: 48000, buffer_size: BufferSize::Default };
    assert_eq!(
        plain_stream_config(Some(1), Some(512), default_config),
        (StreamConfig { channels: 1, sample_rate: 44100, buffer_size: BufferSize::Fixed(512) }, 512)
    );
    assert_eq!(plain_stream_config(Some(1), None, default_config), (default_config, 1024));
    assert_eq!(plain_stream_config(None, Some(512), default_config), (default_config, 1024));
}
