# audiopipe

Streams audio from a capture device on one machine to a playback device on
another: the sender captures into a channel mixer and ships UDP packets of
samples; the receiver writes arriving packets into its mixer, which the
playback device drains. A small JSON protocol over TCP opens and closes
streams.

## Layout

- `src/` — the library, verified with Verus:
  - `ring.rs`: bounded sample FIFOs over `ringbuf`, specified by the items
    they hold and their capacity;
  - `mixer.rs`, `mixer_laws.rs`: the channel mixer, its exact write/read
    semantics (`written`, `drained`) and the round-trip and overflow laws;
  - `splitter.rs`: walking and producing interleaved device buffers;
  - `stream.rs`, `flow.rs`, `streamer.rs`, `sender.rs`, `receiver.rs`: the
    network rounds of the senders and receivers, packet building and
    fragmentation;
  - `control.rs`, `handshake.rs`: the control protocols as state machines,
    with the open/close laws of the stream registry;
  - `device.rs`: choosing hosts, devices and stream configurations;
  - `cli.rs`, `text.rs`, `tui.rs`: settings, number parsing, window state;
  - `cast.rs`: the byte views of sample buffers through `bytemuck`.
- `app/` — the program: command line, audio devices (cpal), sockets and
  tasks (tokio), wire formats (serde_json, bincode2). The name it is started
  under picks the streamer: `sender`/`receiver` (one FIFO, no control
  connection), `sender_pooled`/`receiver_pooled` (a control connection, then
  a device thread and a UDP thread around one FIFO), `uastreamer` (the
  task-based streamer) or, under any other name, the mixer-based program.
- `tests/` — tests of the library.

## Notes

- A channel mapping is written `from=to`; both ends are read from the text
  before the first `=` (`ChannelMapping::from_str`).
- The mixer's device read is round-robin over all channels: a stereo stream
  comes back unchanged from a mixer of exactly two channels, while a mixer of
  more channels interleaves the others (silent when empty) between them.
