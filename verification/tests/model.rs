use vici_exporter::errors::{SubQuery, TransportError};
use vici_exporter::vici::{
    collected_stream, Statistics, StatisticsIKESecurityAssociations, StatisticsJobPriorities,
    StatisticsUptime, StatisticsWorkers, VICIState, Version,
};

fn priorities() -> StatisticsJobPriorities {
    StatisticsJobPriorities {
        critical: "0".to_string(),
        high: "1".to_string(),
        medium: "2".to_string(),
        low: "3".to_string(),
    }
}

fn statistics() -> Statistics {
    Statistics {
        uptime: StatisticsUptime { running: "10".to_string(), since: "boot".to_string() },
        workers: StatisticsWorkers {
            total: "16".to_string(),
            idle: "12".to_string(),
            active: priorities(),
        },
        queues: priorities(),
        scheduled: "4".to_string(),
        ikesas: StatisticsIKESecurityAssociations {
            total: "2".to_string(),
            half_open: Some("0".to_string()),
        },
        plugins: vec!["vici".to_string()],
        mem: None,
        mallinfo: None,
    }
}

fn version() -> Version {
    Version {
        daemon: "charon".to_string(),
        version: "5.9.6".to_string(),
        sysname: "Linux".to_string(),
        release: "6.1".to_string(),
        machine: "x86_64".to_string(),
    }
}

fn transport(msg: &str) -> TransportError {
    TransportError { message: msg.to_string() }
}

#[test]
fn assemble_all_ok_builds_snapshot() {
    let r = VICIState::assemble(
        Ok(version()),
        Ok(statistics()),
        Ok(vec![]),
        Ok(vec![]),
        Ok(vec![]),
        Ok(vec![]),
        Ok(vec![]),
        Ok(vec![]),
    );
    let s = r.expect("all sub-queries succeeded");
    assert_eq!(s.version.daemon, "charon");
    assert_eq!(s.statistics.scheduled, "4");
    assert!(s.security_associations.is_empty());
}

#[test]
fn assemble_fails_on_first_failed_subquery() {
    let r = VICIState::assemble(
        Err(transport("socket closed")),
        Ok(statistics()),
        Ok(vec![]),
        Ok(vec![]),
        Ok(vec![]),
        Ok(vec![]),
        Ok(vec![]),
        Ok(vec![]),
    );
    let e = r.err().expect("fetch must fail");
    assert_eq!(e.subquery, SubQuery::Version);
    assert_eq!(e.cause.message, "socket closed");
}

#[test]
fn assemble_reports_failed_collection_with_cause() {
    let r = VICIState::assemble(
        Ok(version()),
        Ok(statistics()),
        Ok(vec![]),
        Ok(vec![]),
        Err(transport("stream reset")),
        Ok(vec![]),
        Ok(vec![]),
        Err(transport("late failure")),
    );
    // All-or-nothing, and the error names the first failure in issue order.
    let e = r.err().expect("fetch must fail");
    assert_eq!(e.subquery, SubQuery::SecurityAssociations);
    assert_eq!(e.cause.message, "stream reset");
}

#[test]
fn assemble_reports_last_subquery_failure() {
    let r = VICIState::assemble(
        Ok(version()),
        Ok(statistics()),
        Ok(vec![]),
        Ok(vec![]),
        Ok(vec![]),
        Ok(vec![]),
        Ok(vec![]),
        Err(transport("pools gone")),
    );
    let e = r.err().expect("fetch must fail");
    assert_eq!(e.subquery, SubQuery::Pools);
    assert_eq!(e.cause.message, "pools gone");
}

#[test]
fn collected_stream_drops_malformed_records() {
    let events: Vec<Option<u32>> = vec![Some(1), None, Some(2), None, None, Some(3)];
    assert_eq!(collected_stream(events), vec![1, 2, 3]);
}

#[test]
fn collected_stream_keeps_order_and_duplicates() {
    let events: Vec<Option<(String, u64)>> = vec![
        Some(("a".to_string(), 1)),
        Some(("a".to_string(), 1)),
        None,
        Some(("b".to_string(), 2)),
    ];
    let kept = collected_stream(events);
    assert_eq!(
        kept,
        vec![("a".to_string(), 1), ("a".to_string(), 1), ("b".to_string(), 2)]
    );
}

#[test]
fn collected_stream_of_empty_input_is_empty() {
    let events: Vec<Option<u8>> = vec![];
    assert!(collected_stream(events).is_empty());
}

#[test]
fn collected_stream_of_all_malformed_is_empty() {
    let events: Vec<Option<u8>> = vec![None, None];
    assert!(collected_stream(events).is_empty());
}
