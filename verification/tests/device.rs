use audiopipe::device::{
    find_device, get_cpal_config, max_buffer_size, search_device, search_for_host,
    select_input_device_config, select_output_device_config, DeviceChoice, Direction,
    SelectedConfig, SupportedBufferSize, SupportedConfigRange,
};

fn range(channels: u16, min: u32, max: u32) -> SupportedConfigRange {
    SupportedConfigRange {
        channels,
        min_sample_rate: min,
        max_sample_rate: max,
        buffer_size: SupportedBufferSize::Range { min: 64, max: 4096 },
    }
}

#[test]
fn first_matching_config_is_chosen() {
    let configs = vec![range(1, 8000, 48000), range(2, 96000, 192000), range(2, 8000, 48000), range(8, 8000, 48000)];
    assert_eq!(
        select_output_device_config(&configs, 1024, 44100, 2),
        Some(SelectedConfig { index: 2, sample_rate: 44100 })
    );
    assert_eq!(
        select_input_device_config(&configs, 1024, 96000, 2),
        Some(SelectedConfig { index: 1, sample_rate: 96000 })
    );
    assert_eq!(select_input_device_config(&configs, 1024, 44100, 9), None);
    assert_eq!(select_output_device_config(&Vec::new(), 1024, 44100, 2), None);
}

#[test]
fn buffer_size_bounds() {
    assert_eq!(max_buffer_size(SupportedBufferSize::Range { min: 16, max: 8192 }), 8192);
}

#[test]
fn hosts_and_devices_by_name() {
    let hosts = vec!["Alsa".to_string(), "Jack".to_string(), "Jack".to_string()];
    assert_eq!(search_for_host(&hosts, "Jack"), 1);
    assert_eq!(search_for_host(&hosts, "Alsa"), 0);
    assert!(search_device(&Some("USB Audio".to_string()), "USB Audio"));
    assert!(!search_device(&Some("USB Audio".to_string()), "USB"));
    assert!(!search_device(&None, "USB Audio"));
    let devices = vec![None, Some("Speakers".to_string()), Some("USB Audio".to_string())];
    assert_eq!(find_device(&devices, "USB Audio"), Some(2));
    assert_eq!(find_device(&devices, "Mic"), None);
}

#[test]
fn device_choice_follows_direction() {
    let inputs = vec![Some("Mic".to_string())];
    let outputs = vec![Some("Speakers".to_string()), Some("Mic".to_string())];
    assert_eq!(get_cpal_config(Direction::Sender, &None, &inputs, &outputs), DeviceChoice::SystemDefault);
    assert_eq!(
        get_cpal_config(Direction::Sender, &Some("Mic".to_string()), &inputs, &outputs),
        DeviceChoice::Listed(0)
    );
    assert_eq!(
        get_cpal_config(Direction::Receiver, &Some("Mic".to_string()), &inputs, &outputs),
        DeviceChoice::Listed(1)
    );
    // a name no device of the direction carries is found nowhere
    assert_eq!(find_device(&inputs, "Speakers"), None);
}

#[test]
fn buffer_size_that_fits_is_preferred() {
    let small = SupportedConfigRange {
        channels: 2,
        min_sample_rate: 8000,
        max_sample_rate: 48000,
        buffer_size: SupportedBufferSize::Range { min: 64, max: 128 },
    };
    let large = SupportedConfigRange { buffer_size: SupportedBufferSize::Range { min: 1000, max: 2000 }, ..small };
    let unknown = SupportedConfigRange { buffer_size: SupportedBufferSize::Unknown, ..small };
    let configs = vec![small, large];
    assert_eq!(
        select_input_device_config(&configs, 1024, 44100, 2),
        Some(SelectedConfig { index: 1, sample_rate: 44100 })
    );
    // no range holds the buffer size: the first that serves rate and channels
    assert_eq!(
        select_output_device_config(&vec![unknown, small], 4096, 44100, 2),
        Some(SelectedConfig { index: 0, sample_rate: 44100 })
    );
}
