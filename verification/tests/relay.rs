//! The stream through a relay, from connection to end.
use zfs_evacuation_controller::transfer::relay::{peer_allowed, IpAddr, IpNet};
use zfs_evacuation_controller::transfer::splice::{Splice, BUFFER_CHUNKS, CHUNK_BYTES};

/// Lets the target take at most `step` bytes at a time until nothing waits.
fn drain(splice: &mut Splice, step: usize, now: u64) -> Vec<u8> {
    let mut got = Vec::new();
    while splice.wants().write {
        let taken = match splice.next() {
            Some(bytes) => {
                let n = bytes.len().min(step);
                got.extend_from_slice(&bytes[..n]);
                n
            }
            None => unreachable!(),
        };
        splice.delivered(taken, now);
    }
    got
}

/// The relay takes the source's bytes before the target exists and hands them
/// over intact once it does.
#[test]
fn relay_buffers_source_until_target_connects() {
    let lo = IpAddr::V4(0x7f00_0001);
    let peers = vec![IpNet::host(lo)];
    let mut relay = Splice::new(100);
    assert!(relay.wants().accept_source);

    let payload: Vec<u8> = (0..3_000_000u32).map(|i| (i % 251) as u8).collect();
    assert!(peer_allowed(&peers, lo));
    relay.source_accepted(101);
    for chunk in payload.chunks(CHUNK_BYTES) {
        assert!(relay.wants().read);
        relay.received(chunk.to_vec(), 102);
    }
    relay.source_ended();
    // Everything was accepted with no target in sight: the source is done.
    assert!(!relay.wants().accept_source);
    assert_eq!(relay.total(), 0, "nothing delivered yet");
    assert!(!relay.wants().finished);

    assert!(relay.wants().accept_target);
    relay.target_accepted(103);
    let got = drain(&mut relay, usize::MAX, 104);
    assert_eq!(got, payload);
    assert!(relay.wants().finished);
    assert_eq!(relay.outcome(), Ok(payload.len() as u64));
}

#[test]
fn only_whole_chunks_count_as_progress() {
    let mut relay = Splice::new(1);
    assert_eq!(relay.last_activity(), 1);
    relay.source_accepted(2);
    relay.received(vec![1, 2, 3, 4, 5], 3);
    relay.received(vec![6], 4);
    relay.target_accepted(5);
    assert_eq!(relay.next(), Some(&[1u8, 2, 3, 4, 5][..]));
    relay.delivered(2, 6);
    assert_eq!((relay.total(), relay.last_activity()), (0, 5));
    assert_eq!(relay.next(), Some(&[3u8, 4, 5][..]));
    relay.delivered(3, 7);
    assert_eq!((relay.total(), relay.last_activity()), (5, 7));
    assert_eq!(relay.next(), Some(&[6u8][..]));
    relay.delivered(1, 8);
    assert_eq!((relay.total(), relay.last_activity()), (6, 8));
    assert_eq!(relay.next(), None);
    // The source may have more to say.
    assert!(relay.wants().read);
    assert!(!relay.wants().finished);
    relay.source_ended();
    assert!(relay.wants().finished);
}

#[test]
fn a_full_buffer_stops_reading_until_the_target_takes_a_chunk() {
    let mut relay = Splice::new(0);
    relay.source_accepted(0);
    let mut count = 0;
    while relay.wants().read {
        relay.received(vec![7; 3], 0);
        count += 1;
    }
    assert_eq!(count, BUFFER_CHUNKS);
    assert!(relay.wants().accept_target);
    relay.target_accepted(0);
    relay.delivered(1, 0);
    assert!(!relay.wants().read);
    relay.delivered(2, 0);
    assert!(relay.wants().read);
}

#[test]
fn a_broken_source_is_still_drained() {
    let mut relay = Splice::new(0);
    relay.source_accepted(0);
    relay.received(vec![1, 2, 3], 0);
    relay.source_failed();
    assert!(!relay.wants().read);
    assert!(relay.wants().accept_target);
    relay.target_accepted(0);
    assert!(!relay.wants().finished);
    assert_eq!(drain(&mut relay, 2, 0), vec![1, 2, 3]);
    assert!(relay.wants().finished);
    assert_eq!(relay.total(), 3);
    assert_eq!(relay.outcome(), Err("relay read"));
}

#[test]
fn an_empty_stream_is_no_stream() {
    let mut relay = Splice::new(0);
    relay.source_accepted(0);
    relay.source_ended();
    relay.target_accepted(0);
    assert!(relay.wants().finished);
    assert_eq!(
        relay.outcome(),
        Err("relay stream closed with zero bytes transferred")
    );
}
