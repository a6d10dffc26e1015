use home_router_exporter::daemon::{
    kea_request, kea_stats_from, parse_kea_response, parse_unbound_response, unbound_request,
    FetchError, KeaStats, Severity, SnapshotCell,
};

fn stats(n: u64) -> KeaStats {
    KeaStats { timestamp_ms: 1000 + n, pkt4_received: n, pkt4_sent: 2 * n, v4_allocation_fail: 0 }
}

#[test]
fn snapshot_survives_failed_fetches() {
    let mut cell: SnapshotCell<KeaStats> = SnapshotCell::new();
    assert!(cell.get().is_none());
    assert_eq!(cell.record(Err(FetchError::SocketMissing)), Some(Severity::Low));
    assert!(cell.get().is_none());
    assert_eq!(cell.record(Ok(stats(5))), None);
    for e in [FetchError::Io, FetchError::Parse, FetchError::BadResult(Some(1)), FetchError::SocketMissing] {
        cell.record(Err(e));
        assert_eq!(cell.get(), Some(&stats(5)));
    }
    cell.record(Ok(stats(6)));
    assert_eq!(cell.get(), Some(&stats(6)));
}

#[test]
fn failure_severity() {
    assert_eq!(FetchError::SocketMissing.severity(), Severity::Low);
    assert_eq!(FetchError::Io.severity(), Severity::Error);
    assert_eq!(FetchError::Parse.severity(), Severity::Error);
    assert_eq!(FetchError::BadResult(None).severity(), Severity::Error);
}

#[test]
fn kea_fields() {
    assert_eq!(kea_stats_from(Some(0), Some(1), None, Some(3), 9), Ok(KeaStats { timestamp_ms: 9, pkt4_received: 1, pkt4_sent: 0, v4_allocation_fail: 3 }));
    assert_eq!(kea_stats_from(Some(1), Some(1), Some(2), Some(3), 9), Err(FetchError::BadResult(Some(1))));
    assert_eq!(kea_stats_from(None, Some(1), Some(2), Some(3), 9), Err(FetchError::BadResult(None)));
    assert_eq!(kea_request(), "{\"command\":\"statistic-get-all\"}");
}

#[test]
fn kea_response() {
    let ok = br#"{"result":0,"arguments":{"pkt4-received":[[10,"2024-01-01"]],"pkt4-sent":[[20,"x"]],"other":[[5,"y"]]}}"#;
    let s = parse_kea_response(ok, 77).unwrap();
    assert_eq!((s.timestamp_ms, s.pkt4_received, s.pkt4_sent, s.v4_allocation_fail), (77, 10, 20, 0));
    let bad = br#"{"result":1,"text":"no"}"#;
    assert_eq!(parse_kea_response(bad, 1), Err(FetchError::BadResult(Some(1))));
    assert_eq!(parse_kea_response(br#"{"arguments":{}}"#, 1), Err(FetchError::BadResult(None)));
    assert_eq!(parse_kea_response(b"not json", 1), Err(FetchError::Parse));
}

#[test]
fn unbound_response() {
    let text = "thread0.num.queries=5\ntotal.num.queries=1234\ntotal.num.queries_timed_out=7\ntotal.num.cachehits=9\n";
    let s = parse_unbound_response(text, 3).unwrap();
    assert_eq!((s.timestamp_ms, s.total_num_queries, s.total_num_queries_timed_out), (3, 1234, 7));
    assert_eq!(parse_unbound_response("total.num.queries=x\n", 3), Err(FetchError::Parse));
    let empty = parse_unbound_response("", 3).unwrap();
    assert_eq!((empty.total_num_queries, empty.total_num_queries_timed_out), (0, 0));
    assert_eq!(unbound_request(), "UBCT1 stats_noreset\n");
}
