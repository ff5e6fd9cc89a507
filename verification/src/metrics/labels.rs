//! Label projector: derives a stable, minimal identity label set from each
//! entity in a snapshot. Pure functions, no I/O. Only identity-stable fields
//! appear in a label; volatile fields (established time, counters) never do,
//! since that would itself create unbounded cardinality.
//!
//! Projection fails closed: when a required identity field is absent (the
//! control interface marks some identity fields optional pre-negotiation)
//! the entity is excluded from this poll's metric update rather than
//! exported with a partial label set.

use vstd::prelude::*;
use vstd::string::StringExecFns;

use crate::errors::{IdentityField, ProjectionError};
use crate::vici::{SecurityAssociation, SecurityAssociationChild};

verus! {

/// Identity label set of an IKE security association: connection name,
/// daemon-assigned `uniqueid`, IKE version, and the two negotiated identities.
#[derive(Debug)]
pub struct SecurityAssociationLabels {
    pub name: String,
    pub uniqueid: String,
    pub ike_version: u8,
    pub local_id: String,
    pub remote_id: String,
}

/// Mathematical value of a [`SecurityAssociationLabels`].
pub ghost struct SecurityAssociationLabelsV {
    pub name: Seq<char>,
    pub uniqueid: Seq<char>,
    pub ike_version: int,
    pub local_id: Seq<char>,
    pub remote_id: Seq<char>,
}

impl View for SecurityAssociationLabels {
    type V = SecurityAssociationLabelsV;

    open spec fn view(&self) -> SecurityAssociationLabelsV {
        SecurityAssociationLabelsV {
            name: self.name@,
            uniqueid: self.uniqueid@,
            ike_version: self.ike_version as int,
            local_id: self.local_id@,
            remote_id: self.remote_id@,
        }
    }
}

/// Identity label set of a child association: owning SA name, child name,
/// and the child's own daemon-assigned `uniqueid` and `reqid`.
#[derive(Debug)]
pub struct SecurityAssociationChildLabels {
    pub sa_name: String,
    pub sa_child_name: String,
    pub child_uniqueid: String,
    pub child_reqid: String,
}

/// Mathematical value of a [`SecurityAssociationChildLabels`].
pub ghost struct SecurityAssociationChildLabelsV {
    pub sa_name: Seq<char>,
    pub sa_child_name: Seq<char>,
    pub child_uniqueid: Seq<char>,
    pub child_reqid: Seq<char>,
}

impl View for SecurityAssociationChildLabels {
    type V = SecurityAssociationChildLabelsV;

    open spec fn view(&self) -> SecurityAssociationChildLabelsV {
        SecurityAssociationChildLabelsV {
            sa_name: self.sa_name@,
            sa_child_name: self.sa_child_name@,
            child_uniqueid: self.child_uniqueid@,
            child_reqid: self.child_reqid@,
        }
    }
}

/// Identity-stable descriptive fields of an SA, for an info-style metric.
/// Everything here is fixed for the lifetime of one `uniqueid`.
#[derive(Debug)]
pub struct SecurityAssociationInfo {
    pub uniqueid: String,
    pub version: u8,
    pub local_host: Option<String>,
    pub local_port: Option<u16>,
    pub local_id: Option<String>,
    pub remote_host: Option<String>,
    pub remote_port: Option<u16>,
    pub remote_id: Option<String>,
}

/// Identity-stable descriptive fields of a child association, for an
/// info-style metric.
#[derive(Debug)]
pub struct SecurityAssociationChildInfo {
    pub name: String,
    pub uniqueid: String,
    pub reqid: String,
    pub mode: crate::vici::ChildSecurityAssociationMode,
    pub protocol: crate::vici::ChildSecurityAssociationProtocol,
}

/// What a series family needs of a label-set key: executable equality and
/// duplication, each specified against the key's mathematical view.
pub trait LabelKey: View + Sized {
    /// Whether two keys denote the same label set.
    fn key_eq(&self, other: &Self) -> (r: bool)
        ensures
            r == (self@ == other@),
    ;

    /// A copy denoting the same label set.
    fn dup(&self) -> (r: Self)
        ensures
            r@ == self@,
    ;
}

impl LabelKey for SecurityAssociationLabels {
    fn key_eq(&self, other: &Self) -> (r: bool) {
        self.name == other.name && self.uniqueid == other.uniqueid && self.ike_version
            == other.ike_version && self.local_id == other.local_id && self.remote_id
            == other.remote_id
    }

    fn dup(&self) -> (r: Self) {
        SecurityAssociationLabels {
            name: self.name.clone(),
            uniqueid: self.uniqueid.clone(),
            ike_version: self.ike_version,
            local_id: self.local_id.clone(),
            remote_id: self.remote_id.clone(),
        }
    }
}

impl LabelKey for SecurityAssociationChildLabels {
    fn key_eq(&self, other: &Self) -> (r: bool) {
        self.sa_name == other.sa_name && self.sa_child_name == other.sa_child_name
            && self.child_uniqueid == other.child_uniqueid && self.child_reqid
            == other.child_reqid
    }

    fn dup(&self) -> (r: Self) {
        SecurityAssociationChildLabels {
            sa_name: self.sa_name.clone(),
            sa_child_name: self.sa_child_name.clone(),
            child_uniqueid: self.child_uniqueid.clone(),
            child_reqid: self.child_reqid.clone(),
        }
    }
}

/// Whether an SA carries every identity field its label set requires.
pub open spec fn sa_projectable(sa: SecurityAssociation) -> bool {
    sa.local_id is Some && sa.remote_id is Some
}

/// The label set an SA projects to, when it is projectable.
pub open spec fn sa_label_of(name: Seq<char>, sa: SecurityAssociation) -> SecurityAssociationLabelsV {
    SecurityAssociationLabelsV {
        name: name,
        uniqueid: sa.uniqueid@,
        ike_version: sa.version as int,
        local_id: sa.local_id->0@,
        remote_id: sa.remote_id->0@,
    }
}

/// The label set a child association projects to. Every identity field of a
/// child is daemon-assigned and always present, so child projection is total.
pub open spec fn child_label_of(
    sa_name: Seq<char>,
    sa_child_name: Seq<char>,
    child: SecurityAssociationChild,
) -> SecurityAssociationChildLabelsV {
    SecurityAssociationChildLabelsV {
        sa_name: sa_name,
        sa_child_name: sa_child_name,
        child_uniqueid: child.uniqueid@,
        child_reqid: child.reqid@,
    }
}

impl SecurityAssociationLabels {
    /// Projects an SA to its identity label set. Fails closed with the first
    /// missing identity field (checked in `local_id`, `remote_id` order);
    /// succeeds exactly when both negotiated identities are present.
    pub fn set_from_sa(sa_name: &String, sa: &SecurityAssociation) -> (r: Result<
        SecurityAssociationLabels,
        ProjectionError,
    >)
        ensures
            r is Ok <==> sa_projectable(*sa),
            r is Ok ==> r->Ok_0@ == sa_label_of(sa_name@, *sa),
            sa.local_id is None ==> r == Result::<SecurityAssociationLabels, ProjectionError>::Err(
                ProjectionError::MissingIdentityField(IdentityField::LocalId),
            ),
            sa.local_id is Some && sa.remote_id is None ==> r == Result::<
                SecurityAssociationLabels,
                ProjectionError,
            >::Err(ProjectionError::MissingIdentityField(IdentityField::RemoteId)),
    {
        let local_id = match &sa.local_id {
            Some(id) => id.clone(),
            None => {
                return Err(ProjectionError::MissingIdentityField(IdentityField::LocalId));
            },
        };
        let remote_id = match &sa.remote_id {
            Some(id) => id.clone(),
            None => {
                return Err(ProjectionError::MissingIdentityField(IdentityField::RemoteId));
            },
        };
        Ok(
            SecurityAssociationLabels {
                name: sa_name.clone(),
                uniqueid: sa.uniqueid.clone(),
                ike_version: sa.version,
                local_id,
                remote_id,
            },
        )
    }

    /// The label set as its ordered (key, value) pairs.
    pub fn into_labels(&self) -> (r: Vec<(String, String)>)
        ensures
            r@.len() == 5,
            r@[0].0@ == "name"@ && r@[0].1@ == self.name@,
            r@[1].0@ == "uniqueid"@ && r@[1].1@ == self.uniqueid@,
            r@[2].0@ == "ike_version"@ && r@[2].1@ == u8_decimal(self.ike_version),
            r@[3].0@ == "local_id"@ && r@[3].1@ == self.local_id@,
            r@[4].0@ == "remote_id"@ && r@[4].1@ == self.remote_id@,
    {
        let mut r: Vec<(String, String)> = Vec::new();
        r.push((String::from_str("name"), self.name.clone()));
        r.push((String::from_str("uniqueid"), self.uniqueid.clone()));
        r.push((String::from_str("ike_version"), decimal_of_u8(self.ike_version)));
        r.push((String::from_str("local_id"), self.local_id.clone()));
        r.push((String::from_str("remote_id"), self.remote_id.clone()));
        r
    }
}

impl SecurityAssociationChildLabels {
    /// Projects a child association to its identity label set; total, since
    /// every field it reads is daemon-assigned and always present.
    pub fn set_from_child(
        sa_name: &String,
        sa_child_name: &String,
        child: &SecurityAssociationChild,
    ) -> (r: SecurityAssociationChildLabels)
        ensures
            r@ == child_label_of(sa_name@, sa_child_name@, *child),
    {
        SecurityAssociationChildLabels {
            sa_name: sa_name.clone(),
            sa_child_name: sa_child_name.clone(),
            child_uniqueid: child.uniqueid.clone(),
            child_reqid: child.reqid.clone(),
        }
    }

    /// The label set as its ordered (key, value) pairs.
    pub fn into_labels(&self) -> (r: Vec<(String, String)>)
        ensures
            r@.len() == 4,
            r@[0].0@ == "sa_name"@ && r@[0].1@ == self.sa_name@,
            r@[1].0@ == "sa_child_name"@ && r@[1].1@ == self.sa_child_name@,
            r@[2].0@ == "child_uniqueid"@ && r@[2].1@ == self.child_uniqueid@,
            r@[3].0@ == "child_reqid"@ && r@[3].1@ == self.child_reqid@,
    {
        let mut r: Vec<(String, String)> = Vec::new();
        r.push((String::from_str("sa_name"), self.sa_name.clone()));
        r.push((String::from_str("sa_child_name"), self.sa_child_name.clone()));
        r.push((String::from_str("child_uniqueid"), self.child_uniqueid.clone()));
        r.push((String::from_str("child_reqid"), self.child_reqid.clone()));
        r
    }
}

/// The keys of an SA label set are pairwise distinct: the pair list of
/// [`SecurityAssociationLabels::into_labels`] is deduplicated by key.
pub proof fn lemma_sa_label_keys_distinct()
    ensures
        "name"@ != "uniqueid"@,
        "name"@ != "ike_version"@,
        "name"@ != "local_id"@,
        "name"@ != "remote_id"@,
        "uniqueid"@ != "ike_version"@,
        "uniqueid"@ != "local_id"@,
        "uniqueid"@ != "remote_id"@,
        "ike_version"@ != "local_id"@,
        "ike_version"@ != "remote_id"@,
        "local_id"@ != "remote_id"@,
{
    reveal_strlit("name");
    reveal_strlit("uniqueid");
    reveal_strlit("ike_version");
    reveal_strlit("local_id");
    reveal_strlit("remote_id");
    assert("name"@.len() == 4);
    assert("uniqueid"@.len() == 8);
    assert("ike_version"@.len() == 11);
    assert("local_id"@.len() == 8);
    assert("remote_id"@.len() == 9);
    assert("uniqueid"@[0] != "local_id"@[0]);
}

/// The keys of a child label set are pairwise distinct: the pair list of
/// [`SecurityAssociationChildLabels::into_labels`] is deduplicated by key.
pub proof fn lemma_child_label_keys_distinct()
    ensures
        "sa_name"@ != "sa_child_name"@,
        "sa_name"@ != "child_uniqueid"@,
        "sa_name"@ != "child_reqid"@,
        "sa_child_name"@ != "child_uniqueid"@,
        "sa_child_name"@ != "child_reqid"@,
        "child_uniqueid"@ != "child_reqid"@,
{
    reveal_strlit("sa_name");
    reveal_strlit("sa_child_name");
    reveal_strlit("child_uniqueid");
    reveal_strlit("child_reqid");
    assert("sa_name"@.len() == 7);
    assert("sa_child_name"@.len() == 13);
    assert("child_uniqueid"@.len() == 14);
    assert("child_reqid"@.len() == 11);
}

/// The decimal digit character for one digit value.
pub open spec fn decimal_digit(d: int) -> char {
    if d == 0 {
        '0'
    } else if d == 1 {
        '1'
    } else if d == 2 {
        '2'
    } else if d == 3 {
        '3'
    } else if d == 4 {
        '4'
    } else if d == 5 {
        '5'
    } else if d == 6 {
        '6'
    } else if d == 7 {
        '7'
    } else if d == 8 {
        '8'
    } else {
        '9'
    }
}

/// The decimal rendering of a byte, without leading zeros.
pub open spec fn u8_decimal(n: u8) -> Seq<char> {
    if n < 10 {
        seq![decimal_digit(n as int)]
    } else if n < 100 {
        seq![decimal_digit(n as int / 10), decimal_digit(n as int % 10)]
    } else {
        seq![
            decimal_digit(n as int / 100),
            decimal_digit((n as int / 10) % 10),
            decimal_digit(n as int % 10),
        ]
    }
}

fn digit_str(d: u8) -> (r: &'static str)
    requires
        d < 10,
    ensures
        r@ =~= seq![decimal_digit(d as int)],
{
    proof {
        reveal_strlit("0");
        reveal_strlit("1");
        reveal_strlit("2");
        reveal_strlit("3");
        reveal_strlit("4");
        reveal_strlit("5");
        reveal_strlit("6");
        reveal_strlit("7");
        reveal_strlit("8");
        reveal_strlit("9");
    }
    if d == 0 {
        "0"
    } else if d == 1 {
        "1"
    } else if d == 2 {
        "2"
    } else if d == 3 {
        "3"
    } else if d == 4 {
        "4"
    } else if d == 5 {
        "5"
    } else if d == 6 {
        "6"
    } else if d == 7 {
        "7"
    } else if d == 8 {
        "8"
    } else {
        "9"
    }
}

/// Renders a byte in decimal, for the one numeric label value
/// (`ike_version`).
pub fn decimal_of_u8(n: u8) -> (r: String)
    ensures
        r@ =~= u8_decimal(n),
{
    let mut s = String::new();
    if n < 10 {
        s.append(digit_str(n));
    } else if n < 100 {
        s.append(digit_str(n / 10));
        s.append(digit_str(n % 10));
    } else {
        s.append(digit_str(n / 100));
        s.append(digit_str((n / 10) % 10));
        s.append(digit_str(n % 10));
    }
    s
}

} // verus!
