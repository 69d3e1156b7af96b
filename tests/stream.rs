use gann_peer::error::PeerError;
use gann_peer::stream::{read_limit, ReadOutcome, ReadResult, StreamPhase, StreamState};

#[test]
fn fresh_stream_is_open_both_ways() {
    let s = StreamState::new();
    assert_eq!(s.phase(), StreamPhase::BothOpen);
    assert_eq!(s.check_write(), Ok(()));
    assert!(s.needs_read());
}

#[test]
fn write_after_finish_is_rejected() {
    let mut s = StreamState::new();
    assert!(s.finish());
    assert_eq!(s.check_write(), Err(PeerError::StreamClosed));
    assert_eq!(s.phase(), StreamPhase::SendFinished);
    assert!(!s.finish());
    assert_eq!(s.check_write(), Err(PeerError::StreamClosed));
    assert!(s.needs_read());
}

#[test]
fn failed_write_closes_send_half() {
    let mut s = StreamState::new();
    s.write_failed();
    assert_eq!(s.check_write(), Err(PeerError::StreamClosed));
}

#[test]
fn reads_after_end_stay_closed() {
    let mut s = StreamState::new();
    match s.complete_read(ReadOutcome::Data(b"ping".to_vec())) {
        Ok(ReadResult::Chunk(v)) => assert_eq!(v, b"ping".to_vec()),
        other => panic!("unexpected {:?}", other),
    }
    assert!(matches!(s.complete_read(ReadOutcome::End), Ok(ReadResult::Closed)));
    assert_eq!(s.phase(), StreamPhase::RecvFinished);
    assert!(!s.needs_read());
    for _ in 0..3 {
        assert!(matches!(s.complete_read(ReadOutcome::Failed), Ok(ReadResult::Closed)));
        assert!(matches!(s.complete_read(ReadOutcome::Data(vec![1])), Ok(ReadResult::Closed)));
    }
    assert_eq!(s.check_write(), Ok(()));
}

#[test]
fn transport_read_failure_is_stream_error() {
    let mut s = StreamState::new();
    assert!(matches!(s.complete_read(ReadOutcome::Failed), Err(PeerError::StreamError)));
    assert!(s.needs_read());
}

#[test]
fn both_halves_finished() {
    let mut s = StreamState::new();
    s.finish();
    let _ = s.complete_read(ReadOutcome::End);
    assert_eq!(s.phase(), StreamPhase::BothFinished);
}

#[test]
fn read_limit_defaults_to_64_kib() {
    assert_eq!(read_limit(None), 65536);
    assert_eq!(read_limit(Some(10)), 10);
}
