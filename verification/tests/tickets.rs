use madari::server::ErrorCode;
use madari::tickets::{transcode_path, TicketStore};

#[test]
fn issued_tickets_resolve_until_expiry_and_revocation() {
    let mut store = TicketStore::new();
    let ticket = store
        .issue(&"torrent".to_string(), 2, true, 65_007, "tok".to_string(), 1_000)
        .unwrap();
    assert_eq!(ticket.token, "tok");
    assert_eq!(ticket.direct_path, "/media/tok/original");
    assert_eq!(ticket.transcode_path, "/media/tok/transcode?start=65.007");
    assert_eq!(ticket.expires_in_seconds, 21_600);
    assert_eq!(ticket.transcode_start_ms, 65_007);
    assert_eq!(store.lookup(&"tok".to_string(), 2_000).unwrap(), ("torrent".to_string(), 2));
    assert_eq!(store.lookup(&"tok".to_string(), 21_600_999).unwrap().1, 2);
    let expired = store.lookup(&"tok".to_string(), 21_601_000).unwrap_err();
    assert_eq!(expired.code, ErrorCode::Forbidden);
    assert_eq!(expired.message, "media ticket expired or invalid");
    assert_eq!(store.len(), 0);

    store.issue(&"t".to_string(), 0, true, 0, "a".to_string(), 0).unwrap();
    store.revoke(&"a".to_string());
    assert!(store.lookup(&"a".to_string(), 1).is_err());
}

#[test]
fn tickets_check_files_resume_and_capacity() {
    let mut store = TicketStore::new();
    let missing = store.issue(&"t".to_string(), 9, false, 0, "x".to_string(), 0).unwrap_err();
    assert_eq!(missing.code, ErrorCode::NotFound);
    assert_eq!(missing.message, "torrent file not found");
    let late = store
        .issue(&"t".to_string(), 0, true, 604_800_001, "x".to_string(), 0)
        .unwrap_err();
    assert_eq!(late.code, ErrorCode::InvalidInput);
    assert!(store.issue(&"t".to_string(), 0, true, 604_800_000, "x".to_string(), 0).is_ok());
    for i in 1..256 {
        store.issue(&"t".to_string(), 0, true, 0, format!("k{i}"), 0).unwrap();
    }
    assert_eq!(store.len(), 256);
    let busy = store.issue(&"t".to_string(), 0, true, 0, "y".to_string(), 0).unwrap_err();
    assert_eq!(busy.code, ErrorCode::Busy);
    assert_eq!(busy.message, "media ticket limit reached");
    assert!(store.issue(&"t".to_string(), 0, true, 0, "y".to_string(), 21_600_000).is_ok());
    assert_eq!(store.len(), 1);
}

#[test]
fn forgetting_a_torrent_drops_its_tickets_only() {
    let mut store = TicketStore::new();
    store.issue(&"a".to_string(), 0, true, 0, "1".to_string(), 0).unwrap();
    store.issue(&"b".to_string(), 1, true, 0, "2".to_string(), 0).unwrap();
    store.forget_torrent(&"a".to_string());
    assert!(store.lookup(&"1".to_string(), 0).is_err());
    assert_eq!(store.lookup(&"2".to_string(), 0).unwrap(), ("b".to_string(), 1));
}

#[test]
fn reissuing_a_token_replaces_it() {
    let mut store = TicketStore::new();
    store.issue(&"a".to_string(), 0, true, 0, "same".to_string(), 0).unwrap();
    store.issue(&"b".to_string(), 3, true, 0, "same".to_string(), 0).unwrap();
    assert_eq!(store.len(), 1);
    assert_eq!(store.lookup(&"same".to_string(), 0).unwrap(), ("b".to_string(), 3));
}

#[test]
fn transcode_paths_pad_milliseconds() {
    assert_eq!(transcode_path("t", 0), "/media/t/transcode");
    assert_eq!(transcode_path("t", 5), "/media/t/transcode?start=0.005");
    assert_eq!(transcode_path("t", 1_050), "/media/t/transcode?start=1.050");
    assert_eq!(transcode_path("t", 123_456), "/media/t/transcode?start=123.456");
}
