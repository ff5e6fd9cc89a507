//! Snapshot model: the typed representation of one poll's worth of daemon
//! state, and the all-or-nothing assembly of a snapshot from the independent
//! sub-query results.
//!
//! A snapshot is constructed once per poll, consumed once by the metric
//! lifecycle manager, then discarded: it is a total replacement of the
//! previous one, so entities absent from the new snapshot no longer exist.
//! Collections are kept as name-keyed entry lists; within one snapshot the
//! daemon assigns a `uniqueid` that is unique among security associations
//! and, independently, among child associations ([`VICIState::wf`]).

use vstd::prelude::*;

use crate::errors::{FetchError, SubQuery, TransportError};

verus! {

/// Daemon identity; rarely changes between polls.
#[derive(Debug)]
pub struct Version {
    pub daemon: String,
    pub version: String,
    pub sysname: String,
    pub release: String,
    pub machine: String,
}

/// Scalar daemon health counters, reported as decimal strings.
#[derive(Debug)]
pub struct Statistics {
    pub uptime: StatisticsUptime,
    pub workers: StatisticsWorkers,
    pub queues: StatisticsJobPriorities,
    pub scheduled: String,
    pub ikesas: StatisticsIKESecurityAssociations,
    pub plugins: Vec<String>,
    pub mem: Option<StatisticsMem>,
    pub mallinfo: Option<StatisticsMallinfo>,
}

#[derive(Debug)]
pub struct StatisticsUptime {
    pub running: String,
    pub since: String,
}

#[derive(Debug)]
pub struct StatisticsWorkers {
    pub total: String,
    pub idle: String,
    pub active: StatisticsJobPriorities,
}

#[derive(Debug)]
pub struct StatisticsJobPriorities {
    pub critical: String,
    pub high: String,
    pub medium: String,
    pub low: String,
}

#[derive(Debug)]
pub struct StatisticsIKESecurityAssociations {
    pub total: String,
    pub half_open: Option<String>,
}

#[derive(Debug)]
pub struct StatisticsMem {
    pub total: String,
    pub allocs: String,
}

#[derive(Debug)]
pub struct StatisticsMallinfo {
    pub sbrk: String,
    pub mmap: String,
    pub used: String,
    pub free: String,
}

/// An installed kernel policy.
#[derive(Debug)]
pub struct Policy {
    pub child: String,
    pub ike: Option<String>,
    pub mode: PolicyMode,
    pub local_ts: Option<Vec<String>>,
    pub remote_ts: Option<Vec<String>>,
}

#[derive(Debug, Clone, Copy, PartialEq, Eq, Structural)]
pub enum PolicyMode {
    Tunnel,
    Transport,
    Pass,
    Drop,
}

/// A loaded connection definition, including nested child-SA templates.
#[derive(Debug)]
pub struct Conn {
    pub local_addrs: Vec<String>,
    pub remote_addrs: Vec<String>,
    pub version: String,
    pub reauth_time: u32,
    pub rekey_time: u32,
    pub children: Vec<(String, ConnChildSection)>,
}

/// An authentication round of a connection definition.
#[derive(Debug)]
pub struct ConnAuthSection {
    pub class: String,
    pub eap_type: Option<String>,
    pub eap_vendor: Option<String>,
    pub xauth: Option<String>,
    pub revocation: Option<String>,
    pub id: String,
    pub aaa_id: Option<String>,
    pub eap_id: Option<String>,
    pub xauth_id: Option<String>,
    pub groups: Option<Vec<String>>,
    pub certificates: Option<Vec<String>>,
    pub cacerts: Option<Vec<String>>,
}

/// A child-SA template nested in a connection definition.
#[derive(Debug)]
pub struct ConnChildSection {
    pub mode: ChildSecurityAssociationMode,
    pub rekey_time: u32,
    pub rekey_bytes: u64,
    pub rekey_packets: u64,
    pub local_ts: Option<Vec<String>>,
    pub remote_ts: Option<Vec<String>>,
}

#[derive(Debug, Clone, Copy, Hash, PartialEq, Eq, Structural)]
pub enum ChildSecurityAssociationMode {
    Tunnel,
    Transport,
    Beet,
}

#[derive(Debug, Clone, Copy, Hash, PartialEq, Eq, Structural)]
pub enum ChildSecurityAssociationProtocol {
    AH,
    ESP,
}

/// An established IKE security association. The daemon assigns `uniqueid`
/// anew every time the SA is re-established, so a changed `uniqueid` under
/// the same connection name is a different logical entity, not a mutation.
/// The identity fields `local_id` and `remote_id` may be absent before
/// negotiation completes.
#[derive(Debug)]
pub struct SecurityAssociation {
    pub uniqueid: String,
    pub version: u8,
    pub state: String,
    pub local_host: Option<String>,
    pub local_port: Option<u16>,
    pub local_id: Option<String>,
    pub remote_host: Option<String>,
    pub remote_port: Option<u16>,
    pub remote_id: Option<String>,
    pub established: u64,
    pub rekey_time: u32,
    pub child_security_associations: Vec<(String, SecurityAssociationChild)>,
}

/// A data-plane tunnel instance nested under an IKE SA, with its own
/// daemon-assigned identity and monotonically increasing absolute byte and
/// packet counters (totals, not per-interval deltas).
#[derive(Debug)]
pub struct SecurityAssociationChild {
    pub name: String,
    pub uniqueid: String,
    pub reqid: String,
    pub state: String,
    pub mode: ChildSecurityAssociationMode,
    pub protocol: ChildSecurityAssociationProtocol,
    pub bytes_in: u64,
    pub packets_in: u64,
    pub bytes_out: u64,
    pub packets_out: u64,
    pub rekey_time: u32,
    pub life_time: u32,
    pub install_time: u64,
    pub local_ts: Vec<String>,
    pub remote_ts: Vec<String>,
}

/// An entry of the certificate inventory; low churn.
#[derive(Debug)]
pub struct Cert {
    pub cert_type: CertType,
    pub flag: X509CertFlag,
    pub has_privkey: Option<String>,
    pub data: String,
    pub subject: Option<String>,
    pub not_before: Option<String>,
    pub not_after: Option<String>,
}

#[derive(Debug, Clone, Copy, PartialEq, Eq, Structural)]
pub enum CertType {
    X509,
    X509AC,
    X509CRL,
    OSCPResponse,
    PubKey,
}

#[derive(Debug, Clone, Copy, PartialEq, Eq, Structural)]
pub enum X509CertFlag {
    NONE,
    CA,
    AA,
    OCSP,
}

/// A certification authority known to the daemon.
#[derive(Debug)]
pub struct Authority {
    pub cacert: String,
    pub crl_uris: Vec<String>,
    pub ocsp_uris: Vec<String>,
    pub cert_uri_base: String,
}

/// A virtual-IP address pool.
#[derive(Debug)]
pub struct Pool {
    pub name: String,
    pub base: String,
    pub size: u128,
    pub online: u128,
    pub offline: u128,
    pub leases: Vec<(u16, PoolLease)>,
}

#[derive(Debug)]
pub struct PoolLease {
    pub address: String,
    pub identity: String,
    pub status: PoolLeaseStatus,
}

#[derive(Debug, Clone, Copy, PartialEq, Eq, Structural)]
pub enum PoolLeaseStatus {
    Online,
    Offline,
}

/// One poll's worth of daemon state, assembled all-or-nothing by
/// [`VICIState::assemble`] and consumed once by the metric lifecycle
/// manager.
#[derive(Debug)]
pub struct VICIState {
    pub version: Version,
    pub statistics: Statistics,
    pub policies: Vec<(String, Policy)>,
    pub connections: Vec<(String, Conn)>,
    pub security_associations: Vec<(String, SecurityAssociation)>,
    pub certificates: Vec<(String, Cert)>,
    pub authorities: Vec<(String, Authority)>,
    pub pools: Vec<(String, Pool)>,
}

/// The daemon assigns each SA a `uniqueid` that is unique within one
/// snapshot.
pub open spec fn sa_uniqueids_distinct(entries: Seq<(String, SecurityAssociation)>) -> bool {
    forall|i: int, j: int|
        0 <= i < j < entries.len() ==> entries[i].1.uniqueid@ != entries[j].1.uniqueid@
}

/// All child associations of a snapshot, flattened to
/// (SA name, child name, child) rows in snapshot order.
pub open spec fn sa_children_rows(
    sa_name: Seq<char>,
    children: Seq<(String, SecurityAssociationChild)>,
) -> Seq<(Seq<char>, Seq<char>, SecurityAssociationChild)>
    decreases children.len(),
{
    if children.len() == 0 {
        Seq::empty()
    } else {
        sa_children_rows(sa_name, children.drop_last()).push(
            (sa_name, children.last().0@, children.last().1),
        )
    }
}

/// See [`sa_children_rows`]: flattens every SA's children in snapshot order.
pub open spec fn flat_children(
    entries: Seq<(String, SecurityAssociation)>,
) -> Seq<(Seq<char>, Seq<char>, SecurityAssociationChild)>
    decreases entries.len(),
{
    if entries.len() == 0 {
        Seq::empty()
    } else {
        flat_children(entries.drop_last()) + sa_children_rows(
            entries.last().0@,
            entries.last().1.child_security_associations@,
        )
    }
}

/// Flattening one SA's children yields one row per child.
pub proof fn lemma_sa_children_rows_len(
    sa_name: Seq<char>,
    children: Seq<(String, SecurityAssociationChild)>,
)
    ensures
        sa_children_rows(sa_name, children).len() == children.len(),
    decreases children.len(),
{
    if children.len() == 0 {
    } else {
        lemma_sa_children_rows_len(sa_name, children.drop_last());
    }
}

/// Flattening one SA's children keeps them in order.
pub proof fn lemma_sa_children_rows_index(
    sa_name: Seq<char>,
    children: Seq<(String, SecurityAssociationChild)>,
    j: int,
)
    requires
        0 <= j < children.len(),
    ensures
        sa_children_rows(sa_name, children).len() == children.len(),
        sa_children_rows(sa_name, children)[j] == (sa_name, children[j].0@, children[j].1),
    decreases children.len(),
{
    lemma_sa_children_rows_len(sa_name, children);
    if j == children.len() - 1 {
    } else {
        lemma_sa_children_rows_index(sa_name, children.drop_last(), j);
        assert(children.drop_last()[j] == children[j]);
    }
}

/// Every child of the snapshot appears among the flattened child rows.
pub proof fn lemma_flat_children_contains(
    entries: Seq<(String, SecurityAssociation)>,
    i: int,
    j: int,
)
    requires
        0 <= i < entries.len(),
        0 <= j < entries[i].1.child_security_associations@.len(),
    ensures
        exists|p: int|
            0 <= p < flat_children(entries).len() && #[trigger] flat_children(entries)[p] == (
                entries[i].0@,
                entries[i].1.child_security_associations@[j].0@,
                entries[i].1.child_security_associations@[j].1,
            ),
    decreases entries.len(),
{
    let children = entries[i].1.child_security_associations@;
    if i == entries.len() - 1 {
        lemma_sa_children_rows_index(entries[i].0@, children, j);
        let pa = flat_children(entries.drop_last()).len();
        assert(flat_children(entries)[pa + j] == sa_children_rows(entries[i].0@, children)[j]);
    } else {
        assert(entries.drop_last()[i] == entries[i]);
        lemma_flat_children_contains(entries.drop_last(), i, j);
        let p = choose|p: int|
            0 <= p < flat_children(entries.drop_last()).len() && #[trigger] flat_children(
                entries.drop_last(),
            )[p] == (entries[i].0@, children[j].0@, children[j].1);
        assert(flat_children(entries)[p] == flat_children(entries.drop_last())[p]);
    }
}

/// Every flattened child row comes from some SA of the snapshot and one of
/// its children.
pub proof fn lemma_flat_children_sources(entries: Seq<(String, SecurityAssociation)>)
    ensures
        forall|p: int|
            0 <= p < flat_children(entries).len() ==> exists|i: int, j: int|
                0 <= i < entries.len() && 0 <= j
                    < entries[i].1.child_security_associations@.len()
                    && #[trigger] flat_children(entries)[p] == (
                    entries[i].0@,
                    entries[i].1.child_security_associations@[j].0@,
                    entries[i].1.child_security_associations@[j].1,
                ),
    decreases entries.len(),
{
    if entries.len() == 0 {
    } else {
        lemma_flat_children_sources(entries.drop_last());
        let pa = flat_children(entries.drop_last()).len();
        let last_children = entries.last().1.child_security_associations@;
        lemma_sa_children_rows_len(entries.last().0@, last_children);
        assert forall|p: int| 0 <= p < flat_children(entries).len() implies exists|i: int, j: int|
            0 <= i < entries.len() && 0 <= j < entries[i].1.child_security_associations@.len()
                && #[trigger] flat_children(entries)[p] == (
                entries[i].0@,
                entries[i].1.child_security_associations@[j].0@,
                entries[i].1.child_security_associations@[j].1,
            ) by {
            if p < pa {
                assert(flat_children(entries)[p] == flat_children(entries.drop_last())[p]);
                let (i0, j0) = choose|i: int, j: int|
                    0 <= i < entries.drop_last().len() && 0 <= j < entries.drop_last()[
                        i
                    ].1.child_security_associations@.len() && #[trigger] flat_children(
                        entries.drop_last(),
                    )[p] == (
                        entries.drop_last()[i].0@,
                        entries.drop_last()[i].1.child_security_associations@[j].0@,
                        entries.drop_last()[i].1.child_security_associations@[j].1,
                    );
                assert(entries.drop_last()[i0] == entries[i0]);
                assert(flat_children(entries)[p] == (
                    entries[i0].0@,
                    entries[i0].1.child_security_associations@[j0].0@,
                    entries[i0].1.child_security_associations@[j0].1,
                ));
            } else {
                let i0 = entries.len() - 1;
                let j0 = p - pa;
                lemma_sa_children_rows_index(entries.last().0@, last_children, j0);
                assert(flat_children(entries)[p] == sa_children_rows(
                    entries.last().0@,
                    last_children,
                )[j0]);
                assert(flat_children(entries)[p] == (
                    entries[i0].0@,
                    entries[i0].1.child_security_associations@[j0].0@,
                    entries[i0].1.child_security_associations@[j0].1,
                ));
            }
        }
    }
}

/// Child `uniqueid`s are unique among all child associations of a snapshot,
/// independently of the SA-level `uniqueid`s.
pub open spec fn child_uniqueids_distinct(entries: Seq<(String, SecurityAssociation)>) -> bool {
    forall|i: int, j: int|
        0 <= i < j < flat_children(entries).len()
            ==> #[trigger] flat_children(entries)[i].2.uniqueid@
                != #[trigger] flat_children(entries)[j].2.uniqueid@
}

impl VICIState {
    /// Snapshot invariant: `uniqueid` is unique among security associations
    /// and, independently, among child associations.
    pub open spec fn wf(self) -> bool {
        &&& sa_uniqueids_distinct(self.security_associations@)
        &&& child_uniqueids_distinct(self.security_associations@)
    }

    /// All-or-nothing snapshot assembly. Any single failed sub-query is fatal
    /// to the whole fetch — a half-populated snapshot (say, SAs present but
    /// child counters missing) would corrupt the eviction diff — and the
    /// error names the first failed sub-query, in issue order, with its
    /// transport cause. No partial snapshot is ever produced.
    pub fn assemble(
        version: Result<Version, TransportError>,
        statistics: Result<Statistics, TransportError>,
        policies: Result<Vec<(String, Policy)>, TransportError>,
        connections: Result<Vec<(String, Conn)>, TransportError>,
        security_associations: Result<Vec<(String, SecurityAssociation)>, TransportError>,
        certificates: Result<Vec<(String, Cert)>, TransportError>,
        authorities: Result<Vec<(String, Authority)>, TransportError>,
        pools: Result<Vec<(String, Pool)>, TransportError>,
    ) -> (r: Result<VICIState, FetchError>)
        ensures
            r is Ok <==> (version is Ok && statistics is Ok && policies is Ok
                && connections is Ok && security_associations is Ok && certificates is Ok
                && authorities is Ok && pools is Ok),
            r is Ok ==> r->Ok_0.version == version->Ok_0
                && r->Ok_0.statistics == statistics->Ok_0
                && r->Ok_0.policies == policies->Ok_0
                && r->Ok_0.connections == connections->Ok_0
                && r->Ok_0.security_associations == security_associations->Ok_0
                && r->Ok_0.certificates == certificates->Ok_0
                && r->Ok_0.authorities == authorities->Ok_0
                && r->Ok_0.pools == pools->Ok_0,
            version is Err ==> r->Err_0.subquery == SubQuery::Version
                && r->Err_0.cause == version->Err_0,
            version is Ok && statistics is Err ==> r->Err_0.subquery == SubQuery::Statistics
                && r->Err_0.cause == statistics->Err_0,
            version is Ok && statistics is Ok && policies is Err
                ==> r->Err_0.subquery == SubQuery::Policies && r->Err_0.cause == policies->Err_0,
            version is Ok && statistics is Ok && policies is Ok && connections is Err
                ==> r->Err_0.subquery == SubQuery::Connections
                    && r->Err_0.cause == connections->Err_0,
            version is Ok && statistics is Ok && policies is Ok && connections is Ok
                && security_associations is Err
                ==> r->Err_0.subquery == SubQuery::SecurityAssociations
                    && r->Err_0.cause == security_associations->Err_0,
            version is Ok && statistics is Ok && policies is Ok && connections is Ok
                && security_associations is Ok && certificates is Err
                ==> r->Err_0.subquery == SubQuery::Certificates
                    && r->Err_0.cause == certificates->Err_0,
            version is Ok && statistics is Ok && policies is Ok && connections is Ok
                && security_associations is Ok && certificates is Ok && authorities is Err
                ==> r->Err_0.subquery == SubQuery::Authorities
                    && r->Err_0.cause == authorities->Err_0,
            version is Ok && statistics is Ok && policies is Ok && connections is Ok
                && security_associations is Ok && certificates is Ok && authorities is Ok
                && pools is Err
                ==> r->Err_0.subquery == SubQuery::Pools && r->Err_0.cause == pools->Err_0,
    {
        let version = match version {
            Ok(v) => v,
            Err(e) => {
                return Err(FetchError { subquery: SubQuery::Version, cause: e });
            },
        };
        let statistics = match statistics {
            Ok(v) => v,
            Err(e) => {
                return Err(FetchError { subquery: SubQuery::Statistics, cause: e });
            },
        };
        let policies = match policies {
            Ok(v) => v,
            Err(e) => {
                return Err(FetchError { subquery: SubQuery::Policies, cause: e });
            },
        };
        let connections = match connections {
            Ok(v) => v,
            Err(e) => {
                return Err(FetchError { subquery: SubQuery::Connections, cause: e });
            },
        };
        let security_associations = match security_associations {
            Ok(v) => v,
            Err(e) => {
                return Err(FetchError { subquery: SubQuery::SecurityAssociations, cause: e });
            },
        };
        let certificates = match certificates {
            Ok(v) => v,
            Err(e) => {
                return Err(FetchError { subquery: SubQuery::Certificates, cause: e });
            },
        };
        let authorities = match authorities {
            Ok(v) => v,
            Err(e) => {
                return Err(FetchError { subquery: SubQuery::Authorities, cause: e });
            },
        };
        let pools = match pools {
            Ok(v) => v,
            Err(e) => {
                return Err(FetchError { subquery: SubQuery::Pools, cause: e });
            },
        };
        Ok(
            VICIState {
                version,
                statistics,
                policies,
                connections,
                security_associations,
                certificates,
                authorities,
                pools,
            },
        )
    }
}

/// The records of one drained stream that decoded, in stream order.
pub open spec fn ok_items<N>(s: Seq<Option<N>>) -> Seq<N>
    decreases s.len(),
{
    if s.len() == 0 {
        Seq::empty()
    } else if s[0] is Some {
        seq![s[0]->0] + ok_items(s.drop_first())
    } else {
        ok_items(s.drop_first())
    }
}

/// Keeps the well-formed records of one drained event stream. The transport
/// drains the stream to completion and hands over one entry per event,
/// `None` where the event failed to decode: a malformed record is dropped
/// and the collection proceeds with the remaining well-formed ones, in
/// order.
pub fn collected_stream<N>(events: Vec<Option<N>>) -> (kept: Vec<N>)
    ensures
        kept@ == ok_items(events@),
{
    let ghost all = events@;
    let mut rest = events;
    let mut kept: Vec<N> = Vec::new();
    while rest.len() > 0
        invariant
            ok_items(all) =~= kept@ + ok_items(rest@),
        decreases rest.len(),
    {
        let ghost prev = rest@;
        let ev = rest.remove(0);
        proof {
            assert(prev.drop_first() =~= rest@);
        }
        match ev {
            Some(record) => {
                kept.push(record);
            },
            None => {},
        }
    }
    assert(ok_items(rest@) =~= Seq::<N>::empty());
    kept
}

} // verus!
