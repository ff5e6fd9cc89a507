use vici_exporter::metrics::{counter_next, Metrics, SeriesFamily};
use vici_exporter::metrics::labels::{SecurityAssociationChildLabels, SecurityAssociationLabels};
use vici_exporter::vici::{
    ChildSecurityAssociationMode, ChildSecurityAssociationProtocol, SecurityAssociation,
    SecurityAssociationChild, Statistics, StatisticsIKESecurityAssociations,
    StatisticsJobPriorities, StatisticsUptime, StatisticsWorkers, VICIState, Version,
};

fn priorities() -> StatisticsJobPriorities {
    StatisticsJobPriorities {
        critical: "0".to_string(),
        high: "0".to_string(),
        medium: "0".to_string(),
        low: "0".to_string(),
    }
}

fn statistics() -> Statistics {
    Statistics {
        uptime: StatisticsUptime { running: "77".to_string(), since: "boot".to_string() },
        workers: StatisticsWorkers {
            total: "16".to_string(),
            idle: "15".to_string(),
            active: priorities(),
        },
        queues: priorities(),
        scheduled: "0".to_string(),
        ikesas: StatisticsIKESecurityAssociations {
            total: "1".to_string(),
            half_open: None,
        },
        plugins: vec![],
        mem: None,
        mallinfo: None,
    }
}

fn version() -> Version {
    Version {
        daemon: "charon".to_string(),
        version: "5.9.6".to_string(),
        sysname: "Linux".to_string(),
        release: "6.1".to_string(),
        machine: "x86_64".to_string(),
    }
}

fn child(uniqueid: &str, reqid: &str, bytes_in: u64, bytes_out: u64) -> SecurityAssociationChild {
    SecurityAssociationChild {
        name: "net".to_string(),
        uniqueid: uniqueid.to_string(),
        reqid: reqid.to_string(),
        state: "INSTALLED".to_string(),
        mode: ChildSecurityAssociationMode::Tunnel,
        protocol: ChildSecurityAssociationProtocol::ESP,
        bytes_in,
        packets_in: bytes_in / 10,
        bytes_out,
        packets_out: bytes_out / 10,
        rekey_time: 3000,
        life_time: 3600,
        install_time: 5,
        local_ts: vec!["10.0.0.0/24".to_string()],
        remote_ts: vec!["10.0.1.0/24".to_string()],
    }
}

fn sa(
    uniqueid: &str,
    local_id: Option<&str>,
    remote_id: Option<&str>,
    established: u64,
    children: Vec<(String, SecurityAssociationChild)>,
) -> SecurityAssociation {
    SecurityAssociation {
        uniqueid: uniqueid.to_string(),
        version: 2,
        state: "ESTABLISHED".to_string(),
        local_host: Some("192.0.2.1".to_string()),
        local_port: Some(4500),
        local_id: local_id.map(|s| s.to_string()),
        remote_host: Some("192.0.2.2".to_string()),
        remote_port: Some(4500),
        remote_id: remote_id.map(|s| s.to_string()),
        established,
        rekey_time: 1200,
        child_security_associations: children,
    }
}

fn snapshot(sas: Vec<(String, SecurityAssociation)>) -> VICIState {
    VICIState {
        version: version(),
        statistics: statistics(),
        policies: vec![],
        connections: vec![],
        security_associations: sas,
        certificates: vec![],
        authorities: vec![],
        pools: vec![],
    }
}

fn gauge_of(fam: &SeriesFamily<SecurityAssociationLabels>, uniqueid: &str) -> Option<u64> {
    let mut found = None;
    let mut i: usize = 0;
    while i < fam.len() {
        let entry = fam.nth(i);
        if entry.0.uniqueid == uniqueid {
            found = Some(entry.1);
        }
        i += 1;
    }
    found
}

fn counter_of(fam: &SeriesFamily<SecurityAssociationChildLabels>, uniqueid: &str) -> Option<u64> {
    let mut found = None;
    let mut i: usize = 0;
    while i < fam.len() {
        let entry = fam.nth(i);
        if entry.0.child_uniqueid == uniqueid {
            found = Some(entry.1);
        }
        i += 1;
    }
    found
}

#[test]
fn new_manager_is_empty() {
    let m = Metrics::new();
    assert_eq!(m.sa_uptime.len(), 0);
    assert_eq!(m.sa_rekey_time.len(), 0);
    assert_eq!(m.sa_child_bytes_in.len(), 0);
    assert_eq!(m.sa_child_bytes_out.len(), 0);
    assert_eq!(m.sa_child_packets_in.len(), 0);
    assert_eq!(m.sa_child_packets_out.len(), 0);
    assert_eq!(m.skipped_entities, 0);
}

#[test]
fn cardinality_never_exceeds_live_entities() {
    let mut m = Metrics::new();
    // Three polls, each with at most two SAs (one child each): the exported
    // series count stays bounded by the live-entity count of the latest poll.
    for round in 0..3u64 {
        let uid_a = format!("a{}", round);
        let uid_b = format!("b{}", round);
        let s = snapshot(vec![
            (
                "tun0".to_string(),
                sa(&uid_a, Some("l"), Some("r"), 10, vec![("net".to_string(), child("ca", "1", 1, 2))]),
            ),
            (
                "tun1".to_string(),
                sa(&uid_b, Some("l"), Some("r"), 20, vec![("net".to_string(), child("cb", "2", 3, 4))]),
            ),
        ]);
        m.apply(&s);
        assert!(m.sa_uptime.len() <= 2);
        assert!(m.sa_rekey_time.len() <= 2);
        assert!(m.sa_child_bytes_in.len() <= 2);
    }
    // Shrink to one SA without children: old series are gone.
    let s = snapshot(vec![(
        "tun0".to_string(),
        sa("a9", Some("l"), Some("r"), 30, vec![]),
    )]);
    m.apply(&s);
    assert_eq!(m.sa_uptime.len(), 1);
    assert_eq!(m.sa_rekey_time.len(), 1);
    assert_eq!(m.sa_child_bytes_in.len(), 0);
    assert_eq!(m.sa_child_bytes_out.len(), 0);
}

#[test]
fn eviction_removes_disappeared_uniqueid() {
    let mut m = Metrics::new();
    let s1 = snapshot(vec![
        (
            "tun0".to_string(),
            sa("A", Some("l"), Some("r"), 10, vec![("net".to_string(), child("cA", "1", 5, 6))]),
        ),
        (
            "tun1".to_string(),
            sa("B", Some("l"), Some("r"), 20, vec![]),
        ),
    ]);
    m.apply(&s1);
    assert!(gauge_of(&m.sa_uptime, "A").is_some());
    let s2 = snapshot(vec![(
        "tun1".to_string(),
        sa("B", Some("l"), Some("r"), 21, vec![]),
    )]);
    m.apply(&s2);
    // No series in any family carries uniqueid=A any more.
    assert!(gauge_of(&m.sa_uptime, "A").is_none());
    assert!(gauge_of(&m.sa_rekey_time, "A").is_none());
    assert!(counter_of(&m.sa_child_bytes_in, "cA").is_none());
    assert_eq!(gauge_of(&m.sa_uptime, "B"), Some(21));
}

#[test]
fn counter_monotonic_sequence_is_set_not_added() {
    let mut m = Metrics::new();
    for (expected, abs) in [(100u64, 100u64), (250, 250), (250, 250)] {
        let s = snapshot(vec![(
            "tun0".to_string(),
            sa("A", Some("l"), Some("r"), 10, vec![("net".to_string(), child("c1", "1", abs, 0))]),
        )]);
        m.apply(&s);
        assert_eq!(counter_of(&m.sa_child_bytes_in, "c1"), Some(expected));
    }
}

#[test]
fn counter_reset_restarts_at_new_value() {
    let mut m = Metrics::new();
    for (expected, abs) in [(500u64, 500u64), (500, 500), (50, 50)] {
        let s = snapshot(vec![(
            "tun0".to_string(),
            sa("A", Some("l"), Some("r"), 10, vec![("net".to_string(), child("c1", "1", abs, 0))]),
        )]);
        m.apply(&s);
        assert_eq!(counter_of(&m.sa_child_bytes_in, "c1"), Some(expected));
    }
}

#[test]
fn counter_next_cases() {
    assert_eq!(counter_next(None, 100), 100);
    assert_eq!(counter_next(Some(100), 250), 250);
    assert_eq!(counter_next(Some(250), 250), 250);
    assert_eq!(counter_next(Some(500), 50), 50);
    assert_eq!(counter_next(Some(0), u64::MAX), u64::MAX);
}

#[test]
fn projection_failure_isolated_to_entity() {
    let mut m = Metrics::new();
    // tun0's SA misses local_id: its gauges are skipped, but its child and
    // every other entity of the same poll are exported correctly.
    let s = snapshot(vec![
        (
            "tun0".to_string(),
            sa("A", None, Some("r"), 10, vec![("net".to_string(), child("cA", "1", 7, 8))]),
        ),
        (
            "tun1".to_string(),
            sa("B", Some("l"), Some("r"), 20, vec![("net".to_string(), child("cB", "2", 9, 10))]),
        ),
    ]);
    m.apply(&s);
    assert_eq!(m.skipped_entities, 1);
    assert!(gauge_of(&m.sa_uptime, "A").is_none());
    assert_eq!(gauge_of(&m.sa_uptime, "B"), Some(20));
    assert_eq!(gauge_of(&m.sa_rekey_time, "B"), Some(1200));
    assert_eq!(counter_of(&m.sa_child_bytes_in, "cA"), Some(7));
    assert_eq!(counter_of(&m.sa_child_bytes_in, "cB"), Some(9));
    assert_eq!(counter_of(&m.sa_child_bytes_out, "cB"), Some(10));
}

#[test]
fn reapply_same_snapshot_is_idempotent() {
    let mut m = Metrics::new();
    let build = || {
        snapshot(vec![(
            "tun0".to_string(),
            sa("A", Some("l"), Some("r"), 10, vec![("net".to_string(), child("c1", "1", 42, 43))]),
        )])
    };
    m.apply(&build());
    let len_up = m.sa_uptime.len();
    let len_bi = m.sa_child_bytes_in.len();
    let up_a = gauge_of(&m.sa_uptime, "A");
    let bi_c1 = counter_of(&m.sa_child_bytes_in, "c1");
    m.apply(&build());
    assert_eq!(m.sa_uptime.len(), len_up);
    assert_eq!(m.sa_child_bytes_in.len(), len_bi);
    assert_eq!(gauge_of(&m.sa_uptime, "A"), up_a);
    assert_eq!(counter_of(&m.sa_child_bytes_in, "c1"), bi_c1);
}

#[test]
fn duplicate_label_sets_collapse_to_one_series() {
    let mut fam: SeriesFamily<SecurityAssociationLabels> = SeriesFamily::new();
    let key = || SecurityAssociationLabels {
        name: "tun0".to_string(),
        uniqueid: "A".to_string(),
        ike_version: 2,
        local_id: "l".to_string(),
        remote_id: "r".to_string(),
    };
    fam.set(key(), 1);
    fam.set(key(), 2);
    assert_eq!(fam.len(), 1);
    assert_eq!(fam.get(&key()), Some(2));
    assert_eq!(fam.nth(0).1, 2);
}

#[test]
fn packets_families_track_their_own_values() {
    let mut m = Metrics::new();
    let s = snapshot(vec![(
        "tun0".to_string(),
        sa("A", Some("l"), Some("r"), 10, vec![("net".to_string(), child("c1", "1", 100, 200))]),
    )]);
    m.apply(&s);
    assert_eq!(counter_of(&m.sa_child_packets_in, "c1"), Some(10));
    assert_eq!(counter_of(&m.sa_child_packets_out, "c1"), Some(20));
}
