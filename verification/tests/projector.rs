use vici_exporter::errors::{IdentityField, ProjectionError};
use vici_exporter::metrics::labels::{
    decimal_of_u8, SecurityAssociationChildLabels, SecurityAssociationLabels,
};
use vici_exporter::vici::{
    ChildSecurityAssociationMode, ChildSecurityAssociationProtocol, SecurityAssociation,
    SecurityAssociationChild,
};

fn sa(local_id: Option<&str>, remote_id: Option<&str>) -> SecurityAssociation {
    SecurityAssociation {
        uniqueid: "17".to_string(),
        version: 2,
        state: "ESTABLISHED".to_string(),
        local_host: Some("192.0.2.1".to_string()),
        local_port: Some(500),
        local_id: local_id.map(|s| s.to_string()),
        remote_host: Some("192.0.2.2".to_string()),
        remote_port: Some(500),
        remote_id: remote_id.map(|s| s.to_string()),
        established: 60,
        rekey_time: 1200,
        child_security_associations: vec![],
    }
}

fn child() -> SecurityAssociationChild {
    SecurityAssociationChild {
        name: "net".to_string(),
        uniqueid: "33".to_string(),
        reqid: "5".to_string(),
        state: "INSTALLED".to_string(),
        mode: ChildSecurityAssociationMode::Tunnel,
        protocol: ChildSecurityAssociationProtocol::ESP,
        bytes_in: 1,
        packets_in: 2,
        bytes_out: 3,
        packets_out: 4,
        rekey_time: 300,
        life_time: 3600,
        install_time: 9,
        local_ts: vec![],
        remote_ts: vec![],
    }
}

#[test]
fn set_from_sa_uses_identity_stable_fields_only() {
    let name = "tun0".to_string();
    let labels =
        SecurityAssociationLabels::set_from_sa(&name, &sa(Some("moon"), Some("sun"))).unwrap();
    assert_eq!(labels.name, "tun0");
    assert_eq!(labels.uniqueid, "17");
    assert_eq!(labels.ike_version, 2);
    assert_eq!(labels.local_id, "moon");
    assert_eq!(labels.remote_id, "sun");
}

#[test]
fn set_from_sa_fails_closed_on_missing_local_id() {
    let name = "tun0".to_string();
    let r = SecurityAssociationLabels::set_from_sa(&name, &sa(None, Some("sun")));
    assert_eq!(
        r.err(),
        Some(ProjectionError::MissingIdentityField(IdentityField::LocalId))
    );
}

#[test]
fn set_from_sa_fails_closed_on_missing_remote_id() {
    let name = "tun0".to_string();
    let r = SecurityAssociationLabels::set_from_sa(&name, &sa(Some("moon"), None));
    assert_eq!(
        r.err(),
        Some(ProjectionError::MissingIdentityField(IdentityField::RemoteId))
    );
}

#[test]
fn set_from_sa_reports_local_id_first_when_both_missing() {
    let name = "tun0".to_string();
    let r = SecurityAssociationLabels::set_from_sa(&name, &sa(None, None));
    assert_eq!(
        r.err(),
        Some(ProjectionError::MissingIdentityField(IdentityField::LocalId))
    );
}

#[test]
fn sa_labels_pairs_are_ordered_and_deduplicated() {
    let name = "tun0".to_string();
    let labels =
        SecurityAssociationLabels::set_from_sa(&name, &sa(Some("moon"), Some("sun"))).unwrap();
    let pairs = labels.into_labels();
    assert_eq!(
        pairs,
        vec![
            ("name".to_string(), "tun0".to_string()),
            ("uniqueid".to_string(), "17".to_string()),
            ("ike_version".to_string(), "2".to_string()),
            ("local_id".to_string(), "moon".to_string()),
            ("remote_id".to_string(), "sun".to_string()),
        ]
    );
    for (i, (k, _)) in pairs.iter().enumerate() {
        for (j, (k2, _)) in pairs.iter().enumerate() {
            if i != j {
                assert_ne!(k, k2);
            }
        }
    }
}

#[test]
fn child_labels_come_from_both_names_and_child_identity() {
    let sa_name = "tun0".to_string();
    let child_name = "net".to_string();
    let labels = SecurityAssociationChildLabels::set_from_child(&sa_name, &child_name, &child());
    assert_eq!(labels.sa_name, "tun0");
    assert_eq!(labels.sa_child_name, "net");
    assert_eq!(labels.child_uniqueid, "33");
    assert_eq!(labels.child_reqid, "5");
    let pairs = labels.into_labels();
    assert_eq!(
        pairs,
        vec![
            ("sa_name".to_string(), "tun0".to_string()),
            ("sa_child_name".to_string(), "net".to_string()),
            ("child_uniqueid".to_string(), "33".to_string()),
            ("child_reqid".to_string(), "5".to_string()),
        ]
    );
}

#[test]
fn decimal_of_u8_renders_without_leading_zeros() {
    assert_eq!(decimal_of_u8(0), "0");
    assert_eq!(decimal_of_u8(7), "7");
    assert_eq!(decimal_of_u8(10), "10");
    assert_eq!(decimal_of_u8(42), "42");
    assert_eq!(decimal_of_u8(100), "100");
    assert_eq!(decimal_of_u8(255), "255");
}
