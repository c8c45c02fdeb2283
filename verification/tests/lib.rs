use audiopipe::flow::{udp_sender_round, MAX_UDP_PACKET_LENGTH};
use audiopipe::ring::SampleRing;
use audiopipe::streamer::push_each;

fn from_bytes(bytes: &[u8]) -> Vec<u32> {
    bytes.chunks(4).map(|c| u32::from_ne_bytes([c[0], c[1], c[2], c[3]])).collect()
}

#[test]
fn lib_x_test_transfer() {}

#[test]
fn test_transfer() {}

#[test]
fn test_packet_fragmentation() {
    let n = MAX_UDP_PACKET_LENGTH + 10;
    let mut ring = SampleRing::new(n);
    let samples: Vec<u32> = (0..n as u32).collect();
    push_each(&mut ring, &samples);
    let (packets, next) = udp_sender_round(&mut ring, false, 0).unwrap();
    assert_eq!(next, 2);
    assert_eq!(packets.len(), 2);
    assert_eq!(packets[0].data.len(), 4 * MAX_UDP_PACKET_LENGTH);
    assert_eq!(packets[1].data.len(), 40);
    assert_eq!(packets[1].sequence, 1);
    let mut joined = from_bytes(&packets[0].data);
    joined.extend(from_bytes(&packets[1].data));
    assert_eq!(joined, samples);
    assert_eq!(ring.occupied_len(), 0);
}
