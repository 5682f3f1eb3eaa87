//! Tests for the stream map: allocation, lookup, and the two-phase close
//! handshake.

use futures::channel::mpsc;
use streammap::sendme::{StreamRecvWindow, StreamSendWindow};
use streammap::{Error, ShouldSendEnd, StreamEnt, StreamMap};

/// Open a fresh pair of channel endpoints and add an entry with
/// 500-cell windows, returning the allocated identifier.
fn add_stream(map: &mut StreamMap) -> Result<u16, Error> {
    let (sink, _) = mpsc::unbounded();
    let (_, rx) = mpsc::channel(2);
    map.add_ent(
        sink,
        rx,
        StreamSendWindow::new(500),
        StreamRecvWindow::new(500),
    )
}

#[test]
fn streammap_basics() -> Result<(), Error> {
    let mut map = StreamMap::new();
    let mut next_id: u16 = map.next_stream_id();
    let mut ids = Vec::new();

    // Try add_ent
    for _ in 0..128 {
        let (sink, _) = mpsc::unbounded();
        let (_, rx) = mpsc::channel(2);
        let id = map.add_ent(
            sink,
            rx,
            StreamSendWindow::new(500),
            StreamRecvWindow::new(500),
        )?;
        let expect_id: u16 = next_id;
        assert_eq!(expect_id, id);
        next_id = next_id.wrapping_add(1);
        if next_id == 0 {
            next_id = 1;
        }
        ids.push(id);
    }

    // Test get_mut.
    let nonesuch_id = next_id;
    assert!(matches!(map.get_mut(ids[0]), Some(StreamEnt::Open { .. })));
    assert!(map.get_mut(nonesuch_id).is_none());

    // Test end_received
    assert!(map.end_received(nonesuch_id).is_err());
    assert!(map.end_received(ids[1]).is_ok());
    assert!(matches!(map.get_mut(ids[1]), Some(StreamEnt::EndReceived)));
    assert!(map.end_received(ids[1]).is_err());

    // Test terminate
    assert!(map.terminate(nonesuch_id).is_err());
    assert_eq!(map.terminate(ids[2]).unwrap(), ShouldSendEnd::Send);
    assert!(matches!(map.get_mut(ids[2]), Some(StreamEnt::EndSent(_))));
    assert_eq!(map.terminate(ids[1]).unwrap(), ShouldSendEnd::DontSend);
    assert!(matches!(map.get_mut(ids[1]), None));

    // Try receiving an end after a terminate.
    assert!(map.end_received(ids[2]).is_ok());
    assert!(matches!(map.get_mut(ids[2]), None));

    Ok(())
}

#[test]
fn counter_starts_nonzero() {
    // The initial counter is random, but never the reserved value 0.
    for _ in 0..64 {
        assert_ne!(StreamMap::new().next_stream_id(), 0);
    }
}

#[test]
fn allocation_fills_space_and_reports_exhaustion() {
    let mut map = StreamMap::new();
    let mut expected: u16 = map.next_stream_id();
    let mut seen = vec![false; 65536];

    // The full space: 65535 allocations succeed, following the wrapping
    // sequence from the initial counter with 0 skipped, and no
    // identifier repeats.
    for _ in 0..65535u32 {
        let id = add_stream(&mut map).unwrap();
        assert_eq!(id, expected);
        assert_ne!(id, 0);
        assert!(!seen[id as usize]);
        seen[id as usize] = true;
        expected = expected.wrapping_add(1);
        if expected == 0 {
            expected = 1;
        }
    }

    // Every identifier is now taken: the next allocation fails and the
    // map is unchanged by the failure.
    assert_eq!(add_stream(&mut map), Err(Error::IdRangeFull));
    assert!(matches!(map.get_mut(1), Some(StreamEnt::Open { .. })));
}

#[test]
fn duplicate_end_is_rejected_exactly() {
    let mut map = StreamMap::new();
    let id = add_stream(&mut map).unwrap();
    assert_eq!(map.end_received(id), Ok(()));
    assert_eq!(map.end_received(id), Err(Error::CircProto));
    // The failed call left the entry in place.
    assert!(matches!(map.get_mut(id), Some(StreamEnt::EndReceived)));
}

#[test]
fn unknown_identifier_errors_differ_by_caller() {
    let mut map = StreamMap::new();
    let id = add_stream(&mut map).unwrap();
    let nonesuch = id.wrapping_add(5000);
    // A peer END for an untracked stream is a protocol violation; a
    // local terminate of one is an internal bug.
    assert_eq!(map.end_received(nonesuch), Err(Error::CircProto));
    assert_eq!(map.terminate(nonesuch), Err(Error::InternalError));
    assert!(matches!(map.get_mut(id), Some(StreamEnt::Open { .. })));
}

#[test]
fn terminate_folds_dropped_cells_into_recv_window() {
    let mut map = StreamMap::new();
    let id = add_stream(&mut map).unwrap();
    match map.get_mut(id) {
        Some(StreamEnt::Open { dropped, .. }) => {
            *dropped = 7;
        }
        _ => panic!("expected an open entry"),
    }
    assert_eq!(map.terminate(id), Ok(ShouldSendEnd::Send));
    match map.get_mut(id) {
        Some(StreamEnt::EndSent(half)) => {
            assert_eq!(half.send_window.window, 500);
            assert_eq!(half.recv_window.window, 493);
            assert!(half.connected_ok);
        }
        _ => panic!("expected a half-closed entry"),
    }
}

#[test]
fn terminate_underflow_reports_accounting_failure() {
    let mut map = StreamMap::new();
    let id = add_stream(&mut map).unwrap();
    match map.get_mut(id) {
        Some(StreamEnt::Open {
            dropped,
            recv_window,
            ..
        }) => {
            *dropped = 4;
            recv_window.window = 3;
        }
        _ => panic!("expected an open entry"),
    }
    // More cells were dropped than the receive window can account for:
    // the close fails, and the entry is gone either way.
    assert_eq!(map.terminate(id), Err(Error::WindowUnderflow));
    assert!(map.get_mut(id).is_none());
}

#[test]
fn windows_decrement_and_increment() {
    let mut w = StreamSendWindow::new(10);
    assert_eq!(w.decrement_n(4), Ok(()));
    assert_eq!(w.window, 6);
    assert_eq!(w.decrement_n(7), Err(Error::WindowUnderflow));
    assert_eq!(w.window, 6);
    w.increment_n(50);
    assert_eq!(w.window, 56);

    let mut r = StreamRecvWindow::new(2);
    assert_eq!(r.decrement_n(2), Ok(()));
    assert_eq!(r.window, 0);
    assert_eq!(r.decrement_n(1), Err(Error::WindowUnderflow));
    r.increment_n(500);
    assert_eq!(r.window, 500);
}
