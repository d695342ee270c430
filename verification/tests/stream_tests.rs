use std::collections::VecDeque;

use iradio_bridge::stream::{
    backoff_ms, parse_metaint, take_front, FetchAction, FetchOutcome, FetchSession,
    ReconnectPolicy, EFFECTIVE_URL_TRUST_BYTES, RING_BUFFER_CAPACITY,
};

#[test]
fn backoff_doubles_and_caps() {
    assert_eq!(backoff_ms(0), 500);
    assert_eq!(backoff_ms(1), 1000);
    assert_eq!(backoff_ms(2), 2000);
    assert_eq!(backoff_ms(3), 4000);
    assert_eq!(backoff_ms(4), 8000);
    assert_eq!(backoff_ms(5), 10000);
    assert_eq!(backoff_ms(6), 10000);
    assert_eq!(backoff_ms(u32::MAX), 10000);
}

#[test]
fn metaint_header_parsing() {
    assert_eq!(parse_metaint("16000"), Some(16000));
    assert_eq!(parse_metaint("+8192"), Some(8192));
    assert_eq!(parse_metaint("0"), None);
    assert_eq!(parse_metaint(""), None);
    assert_eq!(parse_metaint("+"), None);
    assert_eq!(parse_metaint(" 5"), None);
    assert_eq!(parse_metaint("12a"), None);
    assert_eq!(parse_metaint("-3"), None);
    assert_eq!(parse_metaint("99999999999999999999999"), None);
}

#[test]
fn ingest_without_icy_appends_chunk() {
    let mut session = FetchSession::new(None);
    let mut buf: VecDeque<u8> = VecDeque::new();
    let t = session.ingest(&mut buf, &[1, 2, 3]);
    assert_eq!(t, None);
    assert_eq!(buf.iter().copied().collect::<Vec<u8>>(), vec![1, 2, 3]);
    assert_eq!(session.bytes_received(), 3);
}

#[test]
fn ingest_drops_oldest_bytes_when_full() {
    let mut session = FetchSession::new(None);
    let mut buf: VecDeque<u8> = (0..RING_BUFFER_CAPACITY).map(|i| (i % 251) as u8).collect();
    session.ingest(&mut buf, &[7, 7, 7]);
    assert_eq!(buf.len(), RING_BUFFER_CAPACITY);
    assert_eq!(buf[0], 3);
    assert_eq!(buf[RING_BUFFER_CAPACITY - 1], 7);
}

#[test]
fn ingest_with_icy_strips_and_reports_title() {
    let mut session = FetchSession::new(Some(2));
    let mut buf: VecDeque<u8> = VecDeque::new();
    let mut chunk = vec![10u8, 11, 2];
    let mut meta = b"StreamTitle='News';".to_vec();
    meta.resize(32, 0);
    chunk.extend_from_slice(&meta);
    chunk.extend_from_slice(&[12]);
    let t = session.ingest(&mut buf, &chunk);
    assert_eq!(t, Some("News".to_string()));
    assert_eq!(buf.iter().copied().collect::<Vec<u8>>(), vec![10, 11, 12]);
    assert_eq!(session.bytes_received(), chunk.len());
}

#[test]
fn take_front_moves_bytes() {
    let mut buf: VecDeque<u8> = vec![1, 2, 3, 4, 5].into();
    assert_eq!(take_front(&mut buf, 3), vec![1, 2, 3]);
    assert_eq!(take_front(&mut buf, 10), vec![4, 5]);
    assert_eq!(take_front(&mut buf, 10), Vec::<u8>::new());
}

#[test]
fn redirect_trusted_only_after_enough_bytes() {
    let mut p = ReconnectPolicy::new("http://orig".to_string());
    let a = p.on_outcome(FetchOutcome::Finished {
        final_url: Some("http://ad".to_string()),
        bytes_received: 100,
    });
    assert_eq!(a, FetchAction::Reconnect);
    assert_eq!(p.effective_url(), "http://orig");
    p.on_outcome(FetchOutcome::Finished {
        final_url: Some("http://real".to_string()),
        bytes_received: EFFECTIVE_URL_TRUST_BYTES,
    });
    assert_eq!(p.effective_url(), "http://real");
    assert_eq!(p.attempt(), 0);
}

#[test]
fn early_error_returns_to_original_url_with_backoff() {
    let mut p = ReconnectPolicy::new("http://orig".to_string());
    p.on_outcome(FetchOutcome::Finished {
        final_url: Some("http://real".to_string()),
        bytes_received: 1_000_000,
    });
    let a = p.on_outcome(FetchOutcome::Failed { final_url: None, bytes_received: 10 });
    assert_eq!(a, FetchAction::RetryAfter { delay_ms: 500 });
    assert_eq!(p.effective_url(), "http://orig");
    assert_eq!(p.attempt(), 1);
    let a = p.on_outcome(FetchOutcome::Failed {
        final_url: Some("http://other".to_string()),
        bytes_received: 70_000,
    });
    assert_eq!(a, FetchAction::RetryAfter { delay_ms: 1000 });
    assert_eq!(p.effective_url(), "http://other");
    assert_eq!(p.attempt(), 2);
    let a = p.on_outcome(FetchOutcome::Finished { final_url: None, bytes_received: 5 });
    assert_eq!(a, FetchAction::Reconnect);
    assert_eq!(p.attempt(), 0);
    assert_eq!(p.effective_url(), "http://other");
}
