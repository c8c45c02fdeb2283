use audiopipe::mixer::MixerTrackSelector;
use audiopipe::ring::SampleRing;
use audiopipe::splitter::{dedup_channels, ChannelMerger, ChannelSplitter, SplitChannelSample, SplitterMergerError};
use audiopipe::streamer::process_input;

#[test]
fn splitter_test_splitter() {
    let test_data: Vec<i32> = vec![1, 2, 3, 4, 5, 6];
    let selected_channels = vec![1];

    let mut splitter = ChannelSplitter::new(test_data.as_slice(), selected_channels, 2).unwrap();

    let mut output: Vec<SplitChannelSample<'_, i32>> = Vec::new();
    while let Some(item) = splitter.next() {
        output.push(item);
    }

    assert_eq!(
        output.iter().map(|e| e.on_selected_channel).collect::<Vec<bool>>(),
        vec![false, true, false, true, false, true]
    );

    assert_eq!(
        output.iter().filter(|e| e.on_selected_channel).map(|e| *e.sample).collect::<Vec<i32>>(),
        vec![2, 4, 6]
    );
}

#[test]
fn test_merger() {
    let test_data: Vec<u32> = vec![1, 2, 1, 2, 1, 2];
    let output_data: Vec<u32> = vec![0, 1, 0, 2, 0, 1, 0, 2, 0, 1, 0, 2];

    let mut cons = SampleRing::new(test_data.len());
    process_input(&test_data, &mut cons);

    let mut merger = ChannelMerger::new(&mut cons, MixerTrackSelector::Stereo(1, 3), 4, output_data.len()).unwrap();

    let mut v: Vec<u32> = Vec::new();
    while let Some(e) = merger.next() {
        v.push(e);
    }
    println!("{:?}", v);

    assert_eq!(v, output_data);
}

#[test]
fn test_invalid_input() {
    let test_data: Vec<i32> = vec![1, 2, 3, 4, 5, 6];
    let selected_channels = vec![1, 2, 3];

    _ = ChannelSplitter::new(test_data.as_slice(), selected_channels, 2);
}

#[test]
fn too_many_channels_is_an_error() {
    let test_data: Vec<i32> = vec![1, 2, 3, 4, 5, 6];
    let r = ChannelSplitter::new(test_data.as_slice(), vec![1, 2, 3], 2);
    assert!(matches!(r, Err(SplitterMergerError::SelectedChannelsOverChannelCount)));
    // repeated neighbours count once
    let ok = ChannelSplitter::new(test_data.as_slice(), vec![1, 1, 0, 0], 2);
    assert!(ok.is_ok());
    let mut ring = SampleRing::new(2);
    let m = ChannelMerger::new(&mut ring, MixerTrackSelector::Stereo(0, 1), 1, 4);
    assert!(m.is_err());
}

#[test]
fn error_text() {
    assert_eq!(
        SplitterMergerError::SelectedChannelsOverChannelCount.to_string(),
        "more channels selected than there are available on the device"
    );
}

#[test]
fn dedup_removes_neighbours_only() {
    assert_eq!(dedup_channels(&vec![1, 1, 2, 1, 1, 3, 3]), vec![1, 2, 1, 3]);
    assert_eq!(dedup_channels(&vec![]), Vec::<usize>::new());
}

#[test]
fn merger_runs_dry() {
    let mut ring = SampleRing::new(4);
    process_input(&[7], &mut ring);
    let mut merger = ChannelMerger::new(&mut ring, MixerTrackSelector::Mono(0), 2, 4).unwrap();
    assert_eq!(merger.next(), Some(7));
    assert_eq!(merger.next(), Some(0));
    assert_eq!(merger.next(), None);
}

#[test]
fn merging_what_the_splitter_kept_restores_the_stream() {
    let data: Vec<u32> = vec![1, 2, 3, 4, 5, 6, 7, 8];
    let mut ring = SampleRing::new(8);
    audiopipe::flow::process_input(&data, &mut ring, vec![1, 3], 4);
    assert_eq!(ring.occupied_len(), 4);
    let mut merger = ChannelMerger::new(&mut ring, MixerTrackSelector::Stereo(1, 3), 4, data.len()).unwrap();
    let mut out = Vec::new();
    while let Some(s) = merger.next() {
        out.push(s);
    }
    assert_eq!(out, vec![0, 2, 0, 4, 0, 6, 0, 8]);
    assert_eq!(ring.occupied_len(), 0);
}

#[test]
fn collecting_the_merger_restores_the_stream() {
    let data: Vec<u32> = vec![1, 2, 3, 4, 5, 6, 7, 8, 9, 10, 11, 12];
    let mut ring = SampleRing::new(12);
    audiopipe::flow::process_input(&data, &mut ring, vec![0, 2], 3);
    assert_eq!(ring.occupied_len(), 8);
    let mut merger = ChannelMerger::new(&mut ring, MixerTrackSelector::Stereo(0, 2), 3, data.len()).unwrap();
    assert_eq!(merger.collect(), vec![1, 0, 3, 4, 0, 6, 7, 0, 9, 10, 0, 12]);
    assert_eq!(merger.collect(), Vec::<u32>::new());
    assert_eq!(ring.occupied_len(), 0);
}

#[test]
fn collecting_stops_when_the_source_runs_dry() {
    let mut ring = SampleRing::new(4);
    audiopipe::flow::process_input(&[5, 6], &mut ring, vec![0], 1);
    let mut merger = ChannelMerger::new(&mut ring, MixerTrackSelector::Mono(0), 2, 8).unwrap();
    assert_eq!(merger.collect(), vec![5, 0, 6, 0]);
}
