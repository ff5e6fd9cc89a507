//! Metric lifecycle manager: owns, per metric family, the mapping from
//! identity label set to exported series, and applies each new snapshot by
//! updating existing series, creating new ones, and evicting series whose
//! entity disappeared.

pub mod labels;

use vstd::prelude::*;

use crate::metrics::labels::{
    child_label_of, sa_label_of, sa_projectable, LabelKey, SecurityAssociationChildLabels,
    SecurityAssociationChildLabelsV, SecurityAssociationLabels, SecurityAssociationLabelsV,
};
use crate::vici::{
    child_uniqueids_distinct, flat_children, lemma_flat_children_contains,
    lemma_flat_children_sources, lemma_sa_children_rows_index, lemma_sa_children_rows_len,
    sa_children_rows, sa_uniqueids_distinct, SecurityAssociation, SecurityAssociationChild,
    VICIState,
};

verus! {

/// The series of one family, as a map from label-set value to sample value.
/// Folded over the entry list; a later entry for the same label set wins.
pub open spec fn series_map<K: View>(s: Seq<(K, u64)>) -> Map<<K as View>::V, u64>
    decreases s.len(),
{
    if s.len() == 0 {
        Map::empty()
    } else {
        series_map(s.drop_last()).insert(s.last().0@, s.last().1)
    }
}

/// Pairwise-distinct label sets: one series per label set.
pub open spec fn series_keys_distinct<K: View>(s: Seq<(K, u64)>) -> bool {
    forall|i: int, j: int|
        0 <= i < j < s.len() ==> #[trigger] s[i].0@ != #[trigger] s[j].0@
}

/// A label set is in the series map exactly when some entry carries it.
pub proof fn lemma_series_map_domain<K: View>(s: Seq<(K, u64)>, x: <K as View>::V)
    ensures
        series_map(s).contains_key(x) <==> exists|i: int|
            0 <= i < s.len() && #[trigger] s[i].0@ == x,
    decreases s.len(),
{
    if s.len() == 0 {
    } else {
        lemma_series_map_domain(s.drop_last(), x);
        if s.last().0@ == x {
            assert(s[s.len() - 1].0@ == x);
        } else {
            if exists|i: int| 0 <= i < s.len() && #[trigger] s[i].0@ == x {
                let i = choose|i: int| 0 <= i < s.len() && #[trigger] s[i].0@ == x;
                assert(i < s.len() - 1);
                assert(s.drop_last()[i] == s[i]);
            }
            if series_map(s.drop_last()).contains_key(x) {
                let i = choose|i: int|
                    0 <= i < s.drop_last().len() && #[trigger] s.drop_last()[i].0@ == x;
                assert(s[i].0@ == x);
            }
        }
    }
}

/// With distinct label sets, each entry's value is the one the series map
/// carries for its label set.
pub proof fn lemma_series_map_index<K: View>(s: Seq<(K, u64)>, i: int)
    requires
        0 <= i < s.len(),
        series_keys_distinct(s),
    ensures
        series_map(s).contains_key(s[i].0@),
        series_map(s)[s[i].0@] == s[i].1,
    decreases s.len(),
{
    if i == s.len() - 1 {
    } else {
        assert(series_keys_distinct(s.drop_last())) by {
            assert(forall|a: int, b: int|
                0 <= a < b < s.drop_last().len() ==> s.drop_last()[a] == s[a]
                    && s.drop_last()[b] == s[b]);
        }
        lemma_series_map_index(s.drop_last(), i);
        assert(s.drop_last()[i] == s[i]);
        assert(s.last().0@ != s[i].0@);
    }
}

/// Updating the entry that carries a label set updates the series map at
/// that label set alone.
proof fn lemma_series_map_update<K: View>(s: Seq<(K, u64)>, i: int, p: (K, u64))
    requires
        0 <= i < s.len(),
        p.0@ == s[i].0@,
        series_keys_distinct(s),
    ensures
        series_map(s.update(i, p)) == series_map(s).insert(p.0@, p.1),
    decreases s.len(),
{
    let t = s.update(i, p);
    if i == s.len() - 1 {
        assert(t.drop_last() =~= s.drop_last());
        assert(t.last() == p);
        assert(series_map(s.drop_last()).insert(p.0@, p.1) =~= series_map(s.drop_last()).insert(
            s.last().0@,
            s.last().1,
        ).insert(p.0@, p.1));
    } else {
        assert(series_keys_distinct(s.drop_last())) by {
            assert(forall|a: int, b: int|
                0 <= a < b < s.drop_last().len() ==> s.drop_last()[a] == s[a]
                    && s.drop_last()[b] == s[b]);
        }
        assert(t.last() == s.last());
        assert(t.drop_last() =~= s.drop_last().update(i, p));
        lemma_series_map_update(s.drop_last(), i, p);
        assert(s.last().0@ != s[i].0@);
        assert(series_map(s.drop_last()).insert(p.0@, p.1).insert(s.last().0@, s.last().1)
            =~= series_map(s.drop_last()).insert(s.last().0@, s.last().1).insert(p.0@, p.1));
    }
}

/// One metric family: the mapping from identity label set to its exported
/// series. The entry list is the family's own label-set index; its map view
/// ([`SeriesFamily::contents`]) is what the family exports.
pub struct SeriesFamily<K> {
    series: Vec<(K, u64)>,
}

impl<K: LabelKey> SeriesFamily<K> {
    /// The exported entries, in series-creation order.
    pub closed spec fn entries(&self) -> Seq<(K, u64)> {
        self.series@
    }

    /// The exported series: label-set value to sample value.
    pub open spec fn contents(&self) -> Map<<K as View>::V, u64> {
        series_map(self.entries())
    }

    /// One series per label set.
    pub open spec fn wf(&self) -> bool {
        series_keys_distinct(self.entries())
    }

    /// An empty family, as registered at startup.
    pub fn new() -> (r: Self)
        ensures
            r.wf(),
            r.entries().len() == 0,
            r.contents() =~= Map::<<K as View>::V, u64>::empty(),
    {
        SeriesFamily { series: Vec::new() }
    }

    /// The entry that carries this label set, if any.
    fn find(&self, k: &K) -> (r: Option<usize>)
        ensures
            match r {
                Some(i) => i < self.entries().len() && self.entries()[i as int].0@ == k@,
                None => forall|i: int|
                    0 <= i < self.entries().len() ==> #[trigger] self.entries()[i].0@ != k@,
            },
    {
        let mut i: usize = 0;
        while i < self.series.len()
            invariant
                i <= self.series.len(),
                forall|j: int| 0 <= j < i ==> #[trigger] self.series@[j].0@ != k@,
            decreases self.series.len() - i,
        {
            if self.series[i].0.key_eq(k) {
                return Some(i);
            }
            i += 1;
        }
        None
    }

    /// Number of exported series.
    pub fn len(&self) -> (r: usize)
        ensures
            r == self.entries().len(),
    {
        self.series.len()
    }

    /// The entry at one index, for rendering the family.
    pub fn nth(&self, i: usize) -> (r: &(K, u64))
        requires
            i < self.entries().len(),
        ensures
            *r == self.entries()[i as int],
    {
        &self.series[i]
    }

    /// Sets the series for a label set to a sample value, creating the
    /// series if the label set is new: get-or-create followed by a write.
    pub fn set(&mut self, k: K, v: u64)
        requires
            old(self).wf(),
        ensures
            final(self).wf(),
            final(self).contents() == old(self).contents().insert(k@, v),
            final(self).entries().len() <= old(self).entries().len() + 1,
    {
        let found = self.find(&k);
        let ghost s0 = self.series@;
        let ghost kv = k@;
        match found {
            Some(i) => {
                self.series.set(i, (k, v));
                proof {
                    let p = self.series@[i as int];
                    assert(self.series@ == s0.update(i as int, p));
                    assert(p.0@ == s0[i as int].0@ && p.0@ == kv && p.1 == v);
                    lemma_series_map_update(s0, i as int, p);
                    assert(forall|a: int, b: int|
                        0 <= a < b < self.series@.len() ==> #[trigger] self.series@[a].0@
                            != #[trigger] self.series@[b].0@) by {
                        assert(forall|a: int|
                            0 <= a < s0.len() && a != i ==> #[trigger] self.series@[a]
                                == s0[a]);
                    }
                }
            },
            None => {
                self.series.push((k, v));
                proof {
                    assert(self.series@.drop_last() =~= s0);
                    assert(self.series@.last().0@ == kv);
                }
            },
        }
    }

    /// The sample the family currently exports for a label set.
    pub fn get(&self, k: &K) -> (r: Option<u64>)
        requires
            self.wf(),
        ensures
            r is Some <==> self.contents().contains_key(k@),
            r is Some ==> r->0 == self.contents()[k@],
    {
        let found = self.find(k);
        proof {
            lemma_series_map_domain(self.entries(), k@);
        }
        match found {
            Some(i) => {
                proof {
                    lemma_series_map_index(self.entries(), i as int);
                }
                Some(self.series[i].1)
            },
            None => None,
        }
    }

}

/// The two SA-level gauge families. Gauges are overwritten with the
/// snapshot's absolute value every poll.
pub enum GaugeKind {
    Uptime,
    RekeyTime,
}

/// The four child-level counter families. The daemon reports absolute
/// cumulative totals, so the exported counter is set to that total.
pub enum CounterKind {
    BytesIn,
    BytesOut,
    PacketsIn,
    PacketsOut,
}

/// The sample an SA contributes to one gauge family.
pub open spec fn gauge_value(kind: GaugeKind, sa: SecurityAssociation) -> u64 {
    match kind {
        GaugeKind::Uptime => sa.established,
        GaugeKind::RekeyTime => sa.rekey_time as u64,
    }
}

/// The absolute total a child association contributes to one counter family.
pub open spec fn counter_value(kind: CounterKind, child: SecurityAssociationChild) -> u64 {
    match kind {
        CounterKind::BytesIn => child.bytes_in,
        CounterKind::BytesOut => child.bytes_out,
        CounterKind::PacketsIn => child.packets_in,
        CounterKind::PacketsOut => child.packets_out,
    }
}

/// The (label set, sample) rows one snapshot contributes to an SA gauge
/// family: one row per projectable SA, in snapshot order. Entities whose
/// identity projection fails contribute nothing.
pub open spec fn sa_gauge_rows(
    entries: Seq<(String, SecurityAssociation)>,
    kind: GaugeKind,
) -> Seq<(SecurityAssociationLabelsV, u64)>
    decreases entries.len(),
{
    if entries.len() == 0 {
        Seq::empty()
    } else {
        let prefix = sa_gauge_rows(entries.drop_last(), kind);
        if sa_projectable(entries.last().1) {
            prefix.push(
                (
                    sa_label_of(entries.last().0@, entries.last().1),
                    gauge_value(kind, entries.last().1),
                ),
            )
        } else {
            prefix
        }
    }
}

/// The rows one SA's children contribute to a counter family, in order.
pub open spec fn sa_child_counter_rows(
    sa_name: Seq<char>,
    children: Seq<(String, SecurityAssociationChild)>,
    kind: CounterKind,
) -> Seq<(SecurityAssociationChildLabelsV, u64)>
    decreases children.len(),
{
    if children.len() == 0 {
        Seq::empty()
    } else {
        sa_child_counter_rows(sa_name, children.drop_last(), kind).push(
            (
                child_label_of(sa_name, children.last().0@, children.last().1),
                counter_value(kind, children.last().1),
            ),
        )
    }
}

/// The rows one snapshot contributes to a counter family: every SA's
/// children, flattened in snapshot order.
pub open spec fn child_counter_rows(
    entries: Seq<(String, SecurityAssociation)>,
    kind: CounterKind,
) -> Seq<(SecurityAssociationChildLabelsV, u64)>
    decreases entries.len(),
{
    if entries.len() == 0 {
        Seq::empty()
    } else {
        child_counter_rows(entries.drop_last(), kind) + sa_child_counter_rows(
            entries.last().0@,
            entries.last().1.child_security_associations@,
            kind,
        )
    }
}

/// How many SAs of a snapshot fail identity projection and are skipped.
pub open spec fn skipped_count(entries: Seq<(String, SecurityAssociation)>) -> int
    decreases entries.len(),
{
    if entries.len() == 0 {
        0
    } else {
        skipped_count(entries.drop_last()) + if sa_projectable(entries.last().1) {
            0int
        } else {
            1int
        }
    }
}

/// The map a row list folds to, later rows winning.
pub open spec fn map_of_rows<KV>(rows: Seq<(KV, u64)>) -> Map<KV, u64>
    decreases rows.len(),
{
    if rows.len() == 0 {
        Map::empty()
    } else {
        map_of_rows(rows.drop_last()).insert(rows.last().0, rows.last().1)
    }
}

proof fn lemma_map_of_rows_push<KV>(rows: Seq<(KV, u64)>, r: (KV, u64))
    ensures
        map_of_rows(rows.push(r)) == map_of_rows(rows).insert(r.0, r.1),
{
    assert(rows.push(r).drop_last() =~= rows);
    assert(rows.push(r).last() == r);
}

/// Pairwise-distinct row keys.
pub open spec fn rows_keys_distinct<KV>(rows: Seq<(KV, u64)>) -> bool {
    forall|r: int, t: int| 0 <= r < t < rows.len() ==> #[trigger] rows[r].0 != #[trigger] rows[t].0
}

/// A key is in the folded map exactly when some row carries it.
pub proof fn lemma_map_of_rows_domain<KV>(rows: Seq<(KV, u64)>, x: KV)
    ensures
        map_of_rows(rows).contains_key(x) <==> exists|r: int|
            0 <= r < rows.len() && #[trigger] rows[r].0 == x,
    decreases rows.len(),
{
    if rows.len() == 0 {
    } else {
        lemma_map_of_rows_domain(rows.drop_last(), x);
        if rows.last().0 == x {
            assert(rows[rows.len() - 1].0 == x);
        } else {
            if exists|r: int| 0 <= r < rows.len() && #[trigger] rows[r].0 == x {
                let r = choose|r: int| 0 <= r < rows.len() && #[trigger] rows[r].0 == x;
                assert(r < rows.len() - 1);
                assert(rows.drop_last()[r] == rows[r]);
            }
            if map_of_rows(rows.drop_last()).contains_key(x) {
                let r = choose|r: int|
                    0 <= r < rows.drop_last().len() && #[trigger] rows.drop_last()[r].0 == x;
                assert(rows[r].0 == x);
            }
        }
    }
}

/// With distinct keys, each row's value is the folded map's value at its key.
pub proof fn lemma_map_of_rows_index<KV>(rows: Seq<(KV, u64)>, r: int)
    requires
        0 <= r < rows.len(),
        rows_keys_distinct(rows),
    ensures
        map_of_rows(rows).contains_key(rows[r].0),
        map_of_rows(rows)[rows[r].0] == rows[r].1,
    decreases rows.len(),
{
    if r == rows.len() - 1 {
    } else {
        assert(rows_keys_distinct(rows.drop_last())) by {
            assert(forall|a: int, b: int|
                0 <= a < b < rows.drop_last().len() ==> rows.drop_last()[a] == rows[a]
                    && rows.drop_last()[b] == rows[b]);
        }
        lemma_map_of_rows_index(rows.drop_last(), r);
        assert(rows.drop_last()[r] == rows[r]);
        assert(rows.last().0 != rows[r].0);
    }
}

/// The folded map has at most one series per row.
pub proof fn lemma_map_of_rows_card<KV>(rows: Seq<(KV, u64)>)
    ensures
        map_of_rows(rows).dom().finite(),
        map_of_rows(rows).dom().len() <= rows.len(),
    decreases rows.len(),
{
    if rows.len() == 0 {
        assert(map_of_rows(rows).dom() =~= Set::<KV>::empty());
    } else {
        lemma_map_of_rows_card(rows.drop_last());
    }
}

proof fn lemma_sa_gauge_rows_step(
    entries: Seq<(String, SecurityAssociation)>,
    i: int,
    kind: GaugeKind,
)
    requires
        0 <= i < entries.len(),
    ensures
        sa_gauge_rows(entries.take(i + 1), kind) == if sa_projectable(entries[i].1) {
            sa_gauge_rows(entries.take(i), kind).push(
                (sa_label_of(entries[i].0@, entries[i].1), gauge_value(kind, entries[i].1)),
            )
        } else {
            sa_gauge_rows(entries.take(i), kind)
        },
{
    assert(entries.take(i + 1).drop_last() =~= entries.take(i));
    assert(entries.take(i + 1).last() == entries[i]);
}

proof fn lemma_child_counter_rows_step(
    entries: Seq<(String, SecurityAssociation)>,
    i: int,
    kind: CounterKind,
)
    requires
        0 <= i < entries.len(),
    ensures
        child_counter_rows(entries.take(i + 1), kind) == child_counter_rows(entries.take(i), kind)
            + sa_child_counter_rows(
            entries[i].0@,
            entries[i].1.child_security_associations@,
            kind,
        ),
{
    assert(entries.take(i + 1).drop_last() =~= entries.take(i));
    assert(entries.take(i + 1).last() == entries[i]);
}

proof fn lemma_sa_child_counter_rows_step(
    sa_name: Seq<char>,
    children: Seq<(String, SecurityAssociationChild)>,
    j: int,
    kind: CounterKind,
)
    requires
        0 <= j < children.len(),
    ensures
        sa_child_counter_rows(sa_name, children.take(j + 1), kind) == sa_child_counter_rows(
            sa_name,
            children.take(j),
            kind,
        ).push(
            (child_label_of(sa_name, children[j].0@, children[j].1), counter_value(
                kind,
                children[j].1,
            )),
        ),
{
    assert(children.take(j + 1).drop_last() =~= children.take(j));
    assert(children.take(j + 1).last() == children[j]);
}

proof fn lemma_skipped_count_step(entries: Seq<(String, SecurityAssociation)>, i: int)
    requires
        0 <= i < entries.len(),
    ensures
        skipped_count(entries.take(i + 1)) == skipped_count(entries.take(i)) + if sa_projectable(
            entries[i].1,
        ) {
            0int
        } else {
            1int
        },
{
    assert(entries.take(i + 1).drop_last() =~= entries.take(i));
    assert(entries.take(i + 1).last() == entries[i]);
}

/// A snapshot contributes at most one gauge row per SA.
pub proof fn lemma_sa_gauge_rows_len(entries: Seq<(String, SecurityAssociation)>, kind: GaugeKind)
    ensures
        sa_gauge_rows(entries, kind).len() <= entries.len(),
    decreases entries.len(),
{
    if entries.len() == 0 {
    } else {
        lemma_sa_gauge_rows_len(entries.drop_last(), kind);
    }
}

/// A `uniqueid` no SA of the snapshot carries appears in no gauge row's
/// label set.
pub proof fn lemma_sa_gauge_rows_uid(
    entries: Seq<(String, SecurityAssociation)>,
    kind: GaugeKind,
    uid: Seq<char>,
)
    requires
        forall|i: int|
            0 <= i < entries.len() ==> #[trigger] entries[i].1.uniqueid@ != uid,
    ensures
        forall|r: int|
            0 <= r < sa_gauge_rows(entries, kind).len() ==> #[trigger] sa_gauge_rows(
                entries,
                kind,
            )[r].0.uniqueid != uid,
    decreases entries.len(),
{
    if entries.len() == 0 {
    } else {
        assert(forall|i: int|
            0 <= i < entries.drop_last().len() ==> #[trigger] entries.drop_last()[i].1.uniqueid@
                != uid);
        lemma_sa_gauge_rows_uid(entries.drop_last(), kind, uid);
        let prefix = sa_gauge_rows(entries.drop_last(), kind);
        assert forall|r: int| 0 <= r < sa_gauge_rows(entries, kind).len() implies
            #[trigger] sa_gauge_rows(entries, kind)[r].0.uniqueid != uid by {
            if r < prefix.len() {
                assert(sa_gauge_rows(entries, kind)[r] == prefix[r]);
            } else {
                assert(entries[entries.len() - 1].1.uniqueid@ != uid);
            }
        }
    }
}

/// In a snapshot with distinct SA `uniqueid`s, the gauge map carries exactly
/// the snapshot's value for every projectable SA.
proof fn lemma_sa_gauge_map_value(
    entries: Seq<(String, SecurityAssociation)>,
    kind: GaugeKind,
    i: int,
)
    requires
        0 <= i < entries.len(),
        sa_projectable(entries[i].1),
        sa_uniqueids_distinct(entries),
    ensures
        map_of_rows(sa_gauge_rows(entries, kind)).contains_key(
            sa_label_of(entries[i].0@, entries[i].1),
        ),
        map_of_rows(sa_gauge_rows(entries, kind))[sa_label_of(entries[i].0@, entries[i].1)]
            == gauge_value(kind, entries[i].1),
    decreases entries.len(),
{
    let k = sa_label_of(entries[i].0@, entries[i].1);
    let prefix = sa_gauge_rows(entries.drop_last(), kind);
    if i == entries.len() - 1 {
        lemma_map_of_rows_push(prefix, (k, gauge_value(kind, entries[i].1)));
    } else {
        assert(sa_uniqueids_distinct(entries.drop_last())) by {
            assert(forall|a: int, b: int|
                0 <= a < b < entries.drop_last().len() ==> entries.drop_last()[a] == entries[a]
                    && entries.drop_last()[b] == entries[b]);
        }
        assert(entries.drop_last()[i] == entries[i]);
        lemma_sa_gauge_map_value(entries.drop_last(), kind, i);
        if sa_projectable(entries.last().1) {
            let row = (
                sa_label_of(entries.last().0@, entries.last().1),
                gauge_value(kind, entries.last().1),
            );
            lemma_map_of_rows_push(prefix, row);
            assert(entries.last().1.uniqueid@ != entries[i].1.uniqueid@);
            assert(row.0 != k) by {
                if row.0 == k {
                    assert(row.0.uniqueid == k.uniqueid);
                }
            }
        }
    }
}

/// A snapshot contributes one counter row per child of one SA, in order.
proof fn lemma_sa_child_counter_rows_len(
    sa_name: Seq<char>,
    children: Seq<(String, SecurityAssociationChild)>,
    kind: CounterKind,
)
    ensures
        sa_child_counter_rows(sa_name, children, kind).len() == children.len(),
    decreases children.len(),
{
    if children.len() == 0 {
    } else {
        lemma_sa_child_counter_rows_len(sa_name, children.drop_last(), kind);
    }
}

proof fn lemma_sa_child_counter_rows_index(
    sa_name: Seq<char>,
    children: Seq<(String, SecurityAssociationChild)>,
    kind: CounterKind,
    j: int,
)
    requires
        0 <= j < children.len(),
    ensures
        sa_child_counter_rows(sa_name, children, kind).len() == children.len(),
        sa_child_counter_rows(sa_name, children, kind)[j] == (
            child_label_of(sa_name, children[j].0@, children[j].1),
            counter_value(kind, children[j].1),
        ),
    decreases children.len(),
{
    lemma_sa_child_counter_rows_len(sa_name, children, kind);
    if j == children.len() - 1 {
    } else {
        lemma_sa_child_counter_rows_index(sa_name, children.drop_last(), kind, j);
        assert(children.drop_last()[j] == children[j]);
    }
}

/// The counter rows align with the flattened children, row for row.
proof fn lemma_child_rows_align(entries: Seq<(String, SecurityAssociation)>, kind: CounterKind)
    ensures
        child_counter_rows(entries, kind).len() == flat_children(entries).len(),
        forall|p: int|
            0 <= p < flat_children(entries).len() ==> #[trigger] child_counter_rows(
                entries,
                kind,
            )[p] == (
                child_label_of(
                    flat_children(entries)[p].0,
                    flat_children(entries)[p].1,
                    flat_children(entries)[p].2,
                ),
                counter_value(kind, flat_children(entries)[p].2),
            ),
    decreases entries.len(),
{
    if entries.len() == 0 {
    } else {
        lemma_child_rows_align(entries.drop_last(), kind);
        let pa = flat_children(entries.drop_last()).len();
        let last_name = entries.last().0@;
        let last_children = entries.last().1.child_security_associations@;
        lemma_sa_children_rows_len(last_name, last_children);
        lemma_sa_child_counter_rows_len(last_name, last_children, kind);
        assert forall|p: int| 0 <= p < flat_children(entries).len() implies
            #[trigger] child_counter_rows(entries, kind)[p] == (
                child_label_of(
                    flat_children(entries)[p].0,
                    flat_children(entries)[p].1,
                    flat_children(entries)[p].2,
                ),
                counter_value(kind, flat_children(entries)[p].2),
            ) by {
            if p < pa {
                assert(flat_children(entries)[p] == flat_children(entries.drop_last())[p]);
                assert(child_counter_rows(entries, kind)[p] == child_counter_rows(
                    entries.drop_last(),
                    kind,
                )[p]);
            } else {
                let j = p - pa;
                lemma_sa_children_rows_index(last_name, last_children, j);
                lemma_sa_child_counter_rows_index(last_name, last_children, kind, j);
                assert(flat_children(entries)[p] == sa_children_rows(last_name, last_children)[j]);
                assert(child_counter_rows(entries, kind)[p] == sa_child_counter_rows(
                    last_name,
                    last_children,
                    kind,
                )[j]);
            }
        }
    }
}

/// In a snapshot with distinct child `uniqueid`s, the counter map carries
/// exactly the daemon's absolute total for every child association.
proof fn lemma_child_map_value(
    entries: Seq<(String, SecurityAssociation)>,
    kind: CounterKind,
    i: int,
    j: int,
)
    requires
        0 <= i < entries.len(),
        0 <= j < entries[i].1.child_security_associations@.len(),
        child_uniqueids_distinct(entries),
    ensures
        map_of_rows(child_counter_rows(entries, kind)).contains_key(
            child_label_of(
                entries[i].0@,
                entries[i].1.child_security_associations@[j].0@,
                entries[i].1.child_security_associations@[j].1,
            ),
        ),
        map_of_rows(child_counter_rows(entries, kind))[child_label_of(
            entries[i].0@,
            entries[i].1.child_security_associations@[j].0@,
            entries[i].1.child_security_associations@[j].1,
        )] == counter_value(kind, entries[i].1.child_security_associations@[j].1),
{
    let rows = child_counter_rows(entries, kind);
    let flat = flat_children(entries);
    lemma_child_rows_align(entries, kind);
    assert(rows_keys_distinct(rows)) by {
        assert forall|r: int, t: int| 0 <= r < t < rows.len() implies rows[r].0 != rows[t].0 by {
            assert(rows[r].0.child_uniqueid == flat[r].2.uniqueid@);
            assert(rows[t].0.child_uniqueid == flat[t].2.uniqueid@);
            assert(flat[r].2.uniqueid@ != flat[t].2.uniqueid@);
        }
    }
    lemma_flat_children_contains(entries, i, j);
    let p = choose|p: int|
        0 <= p < flat_children(entries).len() && #[trigger] flat_children(entries)[p] == (
            entries[i].0@,
            entries[i].1.child_security_associations@[j].0@,
            entries[i].1.child_security_associations@[j].1,
        );
    assert(rows[p] == (
        child_label_of(
            entries[i].0@,
            entries[i].1.child_security_associations@[j].0@,
            entries[i].1.child_security_associations@[j].1,
        ),
        counter_value(kind, entries[i].1.child_security_associations@[j].1),
    ));
    lemma_map_of_rows_index(rows, p);
}

/// Next exported value of a counter series, given the daemon's absolute
/// cumulative total and the value the series exported last poll. A sink
/// that only supports monotonic increments adds the non-negative difference
/// from the last-seen absolute value; when the new total is less than the
/// last-seen one (the daemon restarted or the counter wrapped) the series
/// restarts at the new value instead of computing a negative delta. Either
/// path lands exactly on the daemon's absolute total: the exported counter
/// has set-semantics, never additive ones.
pub fn counter_next(prev: Option<u64>, absolute: u64) -> (r: u64)
    ensures
        r == absolute,
{
    match prev {
        Some(last_seen) => {
            if absolute >= last_seen {
                last_seen + (absolute - last_seen)
            } else {
                absolute
            }
        },
        None => absolute,
    }
}

/// The metric lifecycle manager: one series family per exported metric, plus
/// the count of entities skipped by identity projection in the last poll.
/// Initialized empty at startup; [`Metrics::apply`] is the single mutation
/// entry point.
pub struct Metrics {
    pub sa_uptime: SeriesFamily<SecurityAssociationLabels>,
    pub sa_rekey_time: SeriesFamily<SecurityAssociationLabels>,
    pub sa_child_bytes_in: SeriesFamily<SecurityAssociationChildLabels>,
    pub sa_child_bytes_out: SeriesFamily<SecurityAssociationChildLabels>,
    pub sa_child_packets_in: SeriesFamily<SecurityAssociationChildLabels>,
    pub sa_child_packets_out: SeriesFamily<SecurityAssociationChildLabels>,
    pub skipped_entities: usize,
}

/// What one completed [`Metrics::apply`] leaves behind. Every family equals
/// the map its snapshot's rows fold to, and the skipped count is the
/// snapshot's: the post-state depends on the applied snapshot alone, not on
/// any previously exported series.
pub open spec fn apply_post(m: Metrics, s: VICIState) -> bool {
    &&& m.sa_uptime.contents() == map_of_rows(
        sa_gauge_rows(s.security_associations@, GaugeKind::Uptime),
    )
    &&& m.sa_rekey_time.contents() == map_of_rows(
        sa_gauge_rows(s.security_associations@, GaugeKind::RekeyTime),
    )
    &&& m.sa_child_bytes_in.contents() == map_of_rows(
        child_counter_rows(s.security_associations@, CounterKind::BytesIn),
    )
    &&& m.sa_child_bytes_out.contents() == map_of_rows(
        child_counter_rows(s.security_associations@, CounterKind::BytesOut),
    )
    &&& m.sa_child_packets_in.contents() == map_of_rows(
        child_counter_rows(s.security_associations@, CounterKind::PacketsIn),
    )
    &&& m.sa_child_packets_out.contents() == map_of_rows(
        child_counter_rows(s.security_associations@, CounterKind::PacketsOut),
    )
    &&& m.skipped_entities == skipped_count(s.security_associations@)
}

impl Metrics {
    /// One series per label set, in every family.
    pub open spec fn wf(&self) -> bool {
        &&& self.sa_uptime.wf()
        &&& self.sa_rekey_time.wf()
        &&& self.sa_child_bytes_in.wf()
        &&& self.sa_child_bytes_out.wf()
        &&& self.sa_child_packets_in.wf()
        &&& self.sa_child_packets_out.wf()
    }

    /// Empty families, as registered at startup.
    pub fn new() -> (r: Metrics)
        ensures
            r.wf(),
            r.sa_uptime.contents() =~= Map::<SecurityAssociationLabelsV, u64>::empty(),
            r.sa_rekey_time.contents() =~= Map::<SecurityAssociationLabelsV, u64>::empty(),
            r.sa_child_bytes_in.contents() =~= Map::<SecurityAssociationChildLabelsV, u64>::empty(),
            r.sa_child_bytes_out.contents() =~= Map::<
                SecurityAssociationChildLabelsV,
                u64,
            >::empty(),
            r.sa_child_packets_in.contents() =~= Map::<
                SecurityAssociationChildLabelsV,
                u64,
            >::empty(),
            r.sa_child_packets_out.contents() =~= Map::<
                SecurityAssociationChildLabelsV,
                u64,
            >::empty(),
            r.skipped_entities == 0,
    {
        Metrics {
            sa_uptime: SeriesFamily::new(),
            sa_rekey_time: SeriesFamily::new(),
            sa_child_bytes_in: SeriesFamily::new(),
            sa_child_bytes_out: SeriesFamily::new(),
            sa_child_packets_in: SeriesFamily::new(),
            sa_child_packets_out: SeriesFamily::new(),
            skipped_entities: 0,
        }
    }

    /// Applies one snapshot. Every SA and child in the snapshot is projected
    /// to its identity label set and its series written with the snapshot's
    /// absolute value; entities whose identity projection fails are counted
    /// and skipped without aborting the poll, and a skipped SA's children
    /// are still exported, since a child's identity is its own. Each family
    /// is rebuilt from this snapshot alone and swapped in at the end, after
    /// all per-entity work: series whose entity disappeared are thereby
    /// evicted, and a concurrent reader holding the manager sees either the
    /// fully-old or the fully-new families.
    pub fn apply(&mut self, snapshot: &VICIState)
        requires
            old(self).wf(),
        ensures
            final(self).wf(),
            apply_post(*final(self), *snapshot),
    {
        let ghost entries = snapshot.security_associations@;
        let mut up: SeriesFamily<SecurityAssociationLabels> = SeriesFamily::new();
        let mut rk: SeriesFamily<SecurityAssociationLabels> = SeriesFamily::new();
        let mut cbi: SeriesFamily<SecurityAssociationChildLabels> = SeriesFamily::new();
        let mut cbo: SeriesFamily<SecurityAssociationChildLabels> = SeriesFamily::new();
        let mut cpi: SeriesFamily<SecurityAssociationChildLabels> = SeriesFamily::new();
        let mut cpo: SeriesFamily<SecurityAssociationChildLabels> = SeriesFamily::new();
        let mut skipped: usize = 0;
        proof {
            assert(entries.take(0) =~= Seq::<(String, SecurityAssociation)>::empty());
        }
        let mut i: usize = 0;
        while i < snapshot.security_associations.len()
            invariant
                old(self).wf(),
                *self == *old(self),
                entries == snapshot.security_associations@,
                i <= entries.len(),
                up.wf(),
                rk.wf(),
                cbi.wf(),
                cbo.wf(),
                cpi.wf(),
                cpo.wf(),
                up.contents() == map_of_rows(
                    sa_gauge_rows(entries.take(i as int), GaugeKind::Uptime),
                ),
                rk.contents() == map_of_rows(
                    sa_gauge_rows(entries.take(i as int), GaugeKind::RekeyTime),
                ),
                cbi.contents() == map_of_rows(
                    child_counter_rows(entries.take(i as int), CounterKind::BytesIn),
                ),
                cbo.contents() == map_of_rows(
                    child_counter_rows(entries.take(i as int), CounterKind::BytesOut),
                ),
                cpi.contents() == map_of_rows(
                    child_counter_rows(entries.take(i as int), CounterKind::PacketsIn),
                ),
                cpo.contents() == map_of_rows(
                    child_counter_rows(entries.take(i as int), CounterKind::PacketsOut),
                ),
                skipped <= i,
                skipped == skipped_count(entries.take(i as int)),
            decreases entries.len() - i,
        {
            let ghost pre = entries.take(i as int);
            let entry = &snapshot.security_associations[i];
            let sa_name = &entry.0;
            let sa = &entry.1;
            let ghost name_v = sa_name@;
            proof {
                assert(*entry == entries[i as int]);
            }
            match SecurityAssociationLabels::set_from_sa(sa_name, sa) {
                Ok(lbl) => {
                    proof {
                        lemma_sa_gauge_rows_step(entries, i as int, GaugeKind::Uptime);
                        lemma_sa_gauge_rows_step(entries, i as int, GaugeKind::RekeyTime);
                        lemma_skipped_count_step(entries, i as int);
                        assert(lbl@ == sa_label_of(entries[i as int].0@, entries[i as int].1));
                        lemma_map_of_rows_push(
                            sa_gauge_rows(pre, GaugeKind::Uptime),
                            (lbl@, sa.established),
                        );
                        lemma_map_of_rows_push(
                            sa_gauge_rows(pre, GaugeKind::RekeyTime),
                            (lbl@, sa.rekey_time as u64),
                        );
                    }
                    let lbl2 = lbl.dup();
                    let established = sa.established;
                    let rekey = sa.rekey_time as u64;
                    up.set(lbl, established);
                    rk.set(lbl2, rekey);
                },
                Err(_) => {
                    proof {
                        lemma_sa_gauge_rows_step(entries, i as int, GaugeKind::Uptime);
                        lemma_sa_gauge_rows_step(entries, i as int, GaugeKind::RekeyTime);
                        lemma_skipped_count_step(entries, i as int);
                    }
                    skipped = skipped + 1;
                },
            }
            let children = &entry.1.child_security_associations;
            let ghost cseq = children@;
            proof {
                assert(cseq.take(0) =~= Seq::<(String, SecurityAssociationChild)>::empty());
                assert(child_counter_rows(pre, CounterKind::BytesIn) + sa_child_counter_rows(
                    name_v,
                    cseq.take(0),
                    CounterKind::BytesIn,
                ) =~= child_counter_rows(pre, CounterKind::BytesIn));
                assert(child_counter_rows(pre, CounterKind::BytesOut) + sa_child_counter_rows(
                    name_v,
                    cseq.take(0),
                    CounterKind::BytesOut,
                ) =~= child_counter_rows(pre, CounterKind::BytesOut));
                assert(child_counter_rows(pre, CounterKind::PacketsIn) + sa_child_counter_rows(
                    name_v,
                    cseq.take(0),
                    CounterKind::PacketsIn,
                ) =~= child_counter_rows(pre, CounterKind::PacketsIn));
                assert(child_counter_rows(pre, CounterKind::PacketsOut) + sa_child_counter_rows(
                    name_v,
                    cseq.take(0),
                    CounterKind::PacketsOut,
                ) =~= child_counter_rows(pre, CounterKind::PacketsOut));
            }
            let mut j: usize = 0;
            while j < children.len()
                invariant
                    old(self).wf(),
                    *self == *old(self),
                    cseq == children@,
                    name_v == sa_name@,
                    j <= cseq.len(),
                    cbi.wf(),
                    cbo.wf(),
                    cpi.wf(),
                    cpo.wf(),
                    cbi.contents() == map_of_rows(
                        child_counter_rows(pre, CounterKind::BytesIn) + sa_child_counter_rows(
                            name_v,
                            cseq.take(j as int),
                            CounterKind::BytesIn,
                        ),
                    ),
                    cbo.contents() == map_of_rows(
                        child_counter_rows(pre, CounterKind::BytesOut) + sa_child_counter_rows(
                            name_v,
                            cseq.take(j as int),
                            CounterKind::BytesOut,
                        ),
                    ),
                    cpi.contents() == map_of_rows(
                        child_counter_rows(pre, CounterKind::PacketsIn) + sa_child_counter_rows(
                            name_v,
                            cseq.take(j as int),
                            CounterKind::PacketsIn,
                        ),
                    ),
                    cpo.contents() == map_of_rows(
                        child_counter_rows(pre, CounterKind::PacketsOut) + sa_child_counter_rows(
                            name_v,
                            cseq.take(j as int),
                            CounterKind::PacketsOut,
                        ),
                    ),
                decreases cseq.len() - j,
            {
                let centry = &children[j];
                let clbl = SecurityAssociationChildLabels::set_from_child(
                    sa_name,
                    &centry.0,
                    &centry.1,
                );
                proof {
                    assert(*centry == cseq[j as int]);
                    assert(clbl@ == child_label_of(name_v, cseq[j as int].0@, cseq[j as int].1));
                    lemma_sa_child_counter_rows_step(name_v, cseq, j as int, CounterKind::BytesIn);
                    lemma_sa_child_counter_rows_step(name_v, cseq, j as int, CounterKind::BytesOut);
                    lemma_sa_child_counter_rows_step(
                        name_v,
                        cseq,
                        j as int,
                        CounterKind::PacketsIn,
                    );
                    lemma_sa_child_counter_rows_step(
                        name_v,
                        cseq,
                        j as int,
                        CounterKind::PacketsOut,
                    );
                    assert(child_counter_rows(pre, CounterKind::BytesIn) + sa_child_counter_rows(
                        name_v,
                        cseq.take(j as int + 1),
                        CounterKind::BytesIn,
                    ) =~= (child_counter_rows(pre, CounterKind::BytesIn) + sa_child_counter_rows(
                        name_v,
                        cseq.take(j as int),
                        CounterKind::BytesIn,
                    )).push((clbl@, counter_value(CounterKind::BytesIn, cseq[j as int].1))));
                    assert(child_counter_rows(pre, CounterKind::BytesOut) + sa_child_counter_rows(
                        name_v,
                        cseq.take(j as int + 1),
                        CounterKind::BytesOut,
                    ) =~= (child_counter_rows(pre, CounterKind::BytesOut) + sa_child_counter_rows(
                        name_v,
                        cseq.take(j as int),
                        CounterKind::BytesOut,
                    )).push((clbl@, counter_value(CounterKind::BytesOut, cseq[j as int].1))));
                    assert(child_counter_rows(pre, CounterKind::PacketsIn) + sa_child_counter_rows(
                        name_v,
                        cseq.take(j as int + 1),
                        CounterKind::PacketsIn,
                    ) =~= (child_counter_rows(pre, CounterKind::PacketsIn) + sa_child_counter_rows(
                        name_v,
                        cseq.take(j as int),
                        CounterKind::PacketsIn,
                    )).push((clbl@, counter_value(CounterKind::PacketsIn, cseq[j as int].1))));
                    assert(child_counter_rows(pre, CounterKind::PacketsOut) + sa_child_counter_rows(
                        name_v,
                        cseq.take(j as int + 1),
                        CounterKind::PacketsOut,
                    ) =~= (child_counter_rows(pre, CounterKind::PacketsOut)
                        + sa_child_counter_rows(
                        name_v,
                        cseq.take(j as int),
                        CounterKind::PacketsOut,
                    )).push((clbl@, counter_value(CounterKind::PacketsOut, cseq[j as int].1))));
                    lemma_map_of_rows_push(
                        child_counter_rows(pre, CounterKind::BytesIn) + sa_child_counter_rows(
                            name_v,
                            cseq.take(j as int),
                            CounterKind::BytesIn,
                        ),
                        (clbl@, counter_value(CounterKind::BytesIn, cseq[j as int].1)),
                    );
                    lemma_map_of_rows_push(
                        child_counter_rows(pre, CounterKind::BytesOut) + sa_child_counter_rows(
                            name_v,
                            cseq.take(j as int),
                            CounterKind::BytesOut,
                        ),
                        (clbl@, counter_value(CounterKind::BytesOut, cseq[j as int].1)),
                    );
                    lemma_map_of_rows_push(
                        child_counter_rows(pre, CounterKind::PacketsIn) + sa_child_counter_rows(
                            name_v,
                            cseq.take(j as int),
                            CounterKind::PacketsIn,
                        ),
                        (clbl@, counter_value(CounterKind::PacketsIn, cseq[j as int].1)),
                    );
                    lemma_map_of_rows_push(
                        child_counter_rows(pre, CounterKind::PacketsOut) + sa_child_counter_rows(
                            name_v,
                            cseq.take(j as int),
                            CounterKind::PacketsOut,
                        ),
                        (clbl@, counter_value(CounterKind::PacketsOut, cseq[j as int].1)),
                    );
                }
                let prev_bi = self.sa_child_bytes_in.get(&clbl);
                let v_bi = counter_next(prev_bi, centry.1.bytes_in);
                let prev_bo = self.sa_child_bytes_out.get(&clbl);
                let v_bo = counter_next(prev_bo, centry.1.bytes_out);
                let prev_pi = self.sa_child_packets_in.get(&clbl);
                let v_pi = counter_next(prev_pi, centry.1.packets_in);
                let prev_po = self.sa_child_packets_out.get(&clbl);
                let v_po = counter_next(prev_po, centry.1.packets_out);
                let clbl2 = clbl.dup();
                let clbl3 = clbl.dup();
                let clbl4 = clbl.dup();
                cbi.set(clbl, v_bi);
                cbo.set(clbl2, v_bo);
                cpi.set(clbl3, v_pi);
                cpo.set(clbl4, v_po);
                j += 1;
            }
            proof {
                assert(cseq.take(cseq.len() as int) =~= cseq);
                lemma_child_counter_rows_step(entries, i as int, CounterKind::BytesIn);
                lemma_child_counter_rows_step(entries, i as int, CounterKind::BytesOut);
                lemma_child_counter_rows_step(entries, i as int, CounterKind::PacketsIn);
                lemma_child_counter_rows_step(entries, i as int, CounterKind::PacketsOut);
            }
            i += 1;
        }
        proof {
            assert(entries.take(entries.len() as int) =~= entries);
        }
        self.sa_uptime = up;
        self.sa_rekey_time = rk;
        self.sa_child_bytes_in = cbi;
        self.sa_child_bytes_out = cbo;
        self.sa_child_packets_in = cpi;
        self.sa_child_packets_out = cpo;
        self.skipped_entities = skipped;
    }
}

/// Cardinality bound: after one apply, each SA family exports at most one
/// series per SA of the applied snapshot, and each child family at most one
/// series per child association. The bound does not depend on what was
/// exported before, so over any sequence of snapshots whose live-entity
/// count never exceeds N, the exported series count never exceeds N once an
/// apply completes: no series leaks from prior polls.
pub proof fn lemma_cardinality_bound(m: Metrics, s: VICIState)
    requires
        apply_post(m, s),
    ensures
        m.sa_uptime.contents().dom().finite(),
        m.sa_uptime.contents().dom().len() <= s.security_associations@.len(),
        m.sa_rekey_time.contents().dom().finite(),
        m.sa_rekey_time.contents().dom().len() <= s.security_associations@.len(),
        m.sa_child_bytes_in.contents().dom().finite(),
        m.sa_child_bytes_in.contents().dom().len() <= flat_children(s.security_associations@).len(),
        m.sa_child_bytes_out.contents().dom().finite(),
        m.sa_child_bytes_out.contents().dom().len() <= flat_children(
            s.security_associations@,
        ).len(),
        m.sa_child_packets_in.contents().dom().finite(),
        m.sa_child_packets_in.contents().dom().len() <= flat_children(
            s.security_associations@,
        ).len(),
        m.sa_child_packets_out.contents().dom().finite(),
        m.sa_child_packets_out.contents().dom().len() <= flat_children(
            s.security_associations@,
        ).len(),
{
    let e = s.security_associations@;
    lemma_sa_gauge_rows_len(e, GaugeKind::Uptime);
    lemma_map_of_rows_card(sa_gauge_rows(e, GaugeKind::Uptime));
    lemma_sa_gauge_rows_len(e, GaugeKind::RekeyTime);
    lemma_map_of_rows_card(sa_gauge_rows(e, GaugeKind::RekeyTime));
    lemma_child_rows_align(e, CounterKind::BytesIn);
    lemma_map_of_rows_card(child_counter_rows(e, CounterKind::BytesIn));
    lemma_child_rows_align(e, CounterKind::BytesOut);
    lemma_map_of_rows_card(child_counter_rows(e, CounterKind::BytesOut));
    lemma_child_rows_align(e, CounterKind::PacketsIn);
    lemma_map_of_rows_card(child_counter_rows(e, CounterKind::PacketsIn));
    lemma_child_rows_align(e, CounterKind::PacketsOut);
    lemma_map_of_rows_card(child_counter_rows(e, CounterKind::PacketsOut));
}

/// Eviction correctness, SA families: after applying a snapshot in which no
/// SA carries `uid`, no exported SA series carries a label set with
/// `uniqueid == uid`. An SA present in the previous snapshot and absent
/// from this one leaves no series behind.
pub proof fn lemma_eviction(m: Metrics, s: VICIState, uid: Seq<char>)
    requires
        apply_post(m, s),
        forall|i: int|
            0 <= i < s.security_associations@.len()
                ==> #[trigger] s.security_associations@[i].1.uniqueid@ != uid,
    ensures
        forall|k: SecurityAssociationLabelsV|
            #[trigger] m.sa_uptime.contents().contains_key(k) ==> k.uniqueid != uid,
        forall|k: SecurityAssociationLabelsV|
            #[trigger] m.sa_rekey_time.contents().contains_key(k) ==> k.uniqueid != uid,
{
    let e = s.security_associations@;
    lemma_sa_gauge_rows_uid(e, GaugeKind::Uptime, uid);
    lemma_sa_gauge_rows_uid(e, GaugeKind::RekeyTime, uid);
    assert forall|k: SecurityAssociationLabelsV|
        #[trigger] m.sa_uptime.contents().contains_key(k) implies k.uniqueid != uid by {
        lemma_map_of_rows_domain(sa_gauge_rows(e, GaugeKind::Uptime), k);
        let r = choose|r: int|
            0 <= r < sa_gauge_rows(e, GaugeKind::Uptime).len() && #[trigger] sa_gauge_rows(
                e,
                GaugeKind::Uptime,
            )[r].0 == k;
    }
    assert forall|k: SecurityAssociationLabelsV|
        #[trigger] m.sa_rekey_time.contents().contains_key(k) implies k.uniqueid != uid by {
        lemma_map_of_rows_domain(sa_gauge_rows(e, GaugeKind::RekeyTime), k);
        let r = choose|r: int|
            0 <= r < sa_gauge_rows(e, GaugeKind::RekeyTime).len() && #[trigger] sa_gauge_rows(
                e,
                GaugeKind::RekeyTime,
            )[r].0 == k;
    }
}

/// A child `uniqueid` no child of the snapshot carries appears in no
/// counter row's label set.
proof fn lemma_child_rows_uid(
    entries: Seq<(String, SecurityAssociation)>,
    kind: CounterKind,
    uid: Seq<char>,
)
    requires
        forall|i: int, j: int|
            0 <= i < entries.len() && 0 <= j < entries[i].1.child_security_associations@.len()
                ==> #[trigger] entries[i].1.child_security_associations@[j].1.uniqueid@ != uid,
    ensures
        forall|p: int|
            0 <= p < child_counter_rows(entries, kind).len() ==> #[trigger] child_counter_rows(
                entries,
                kind,
            )[p].0.child_uniqueid != uid,
{
    lemma_child_rows_align(entries, kind);
    lemma_flat_children_sources(entries);
    assert forall|p: int| 0 <= p < child_counter_rows(entries, kind).len() implies
        #[trigger] child_counter_rows(entries, kind)[p].0.child_uniqueid != uid by {
        let (i0, j0) = choose|i: int, j: int|
            0 <= i < entries.len() && 0 <= j < entries[i].1.child_security_associations@.len()
                && #[trigger] flat_children(entries)[p] == (
                entries[i].0@,
                entries[i].1.child_security_associations@[j].0@,
                entries[i].1.child_security_associations@[j].1,
            );
        assert(entries[i0].1.child_security_associations@[j0].1.uniqueid@ != uid);
    }
}

/// Eviction correctness, child families: after applying a snapshot in which
/// no child association carries `uid`, no exported child series carries a
/// label set with `child_uniqueid == uid`.
pub proof fn lemma_child_eviction(m: Metrics, s: VICIState, uid: Seq<char>)
    requires
        apply_post(m, s),
        forall|i: int, j: int|
            0 <= i < s.security_associations@.len() && 0 <= j < s.security_associations@[
                i
            ].1.child_security_associations@.len()
                ==> #[trigger] s.security_associations@[i].1.child_security_associations@[
                j
            ].1.uniqueid@ != uid,
    ensures
        forall|k: SecurityAssociationChildLabelsV|
            #[trigger] m.sa_child_bytes_in.contents().contains_key(k) ==> k.child_uniqueid != uid,
        forall|k: SecurityAssociationChildLabelsV|
            #[trigger] m.sa_child_bytes_out.contents().contains_key(k) ==> k.child_uniqueid != uid,
        forall|k: SecurityAssociationChildLabelsV|
            #[trigger] m.sa_child_packets_in.contents().contains_key(k) ==> k.child_uniqueid
                != uid,
        forall|k: SecurityAssociationChildLabelsV|
            #[trigger] m.sa_child_packets_out.contents().contains_key(k) ==> k.child_uniqueid
                != uid,
{
    let e = s.security_associations@;
    lemma_child_rows_uid(e, CounterKind::BytesIn, uid);
    lemma_child_rows_uid(e, CounterKind::BytesOut, uid);
    lemma_child_rows_uid(e, CounterKind::PacketsIn, uid);
    lemma_child_rows_uid(e, CounterKind::PacketsOut, uid);
    assert forall|k: SecurityAssociationChildLabelsV|
        #[trigger] m.sa_child_bytes_in.contents().contains_key(k) implies k.child_uniqueid
        != uid by {
        lemma_map_of_rows_domain(child_counter_rows(e, CounterKind::BytesIn), k);
        let r = choose|r: int|
            0 <= r < child_counter_rows(e, CounterKind::BytesIn).len()
                && #[trigger] child_counter_rows(e, CounterKind::BytesIn)[r].0 == k;
    }
    assert forall|k: SecurityAssociationChildLabelsV|
        #[trigger] m.sa_child_bytes_out.contents().contains_key(k) implies k.child_uniqueid
        != uid by {
        lemma_map_of_rows_domain(child_counter_rows(e, CounterKind::BytesOut), k);
        let r = choose|r: int|
            0 <= r < child_counter_rows(e, CounterKind::BytesOut).len()
                && #[trigger] child_counter_rows(e, CounterKind::BytesOut)[r].0 == k;
    }
    assert forall|k: SecurityAssociationChildLabelsV|
        #[trigger] m.sa_child_packets_in.contents().contains_key(k) implies k.child_uniqueid
        != uid by {
        lemma_map_of_rows_domain(child_counter_rows(e, CounterKind::PacketsIn), k);
        let r = choose|r: int|
            0 <= r < child_counter_rows(e, CounterKind::PacketsIn).len()
                && #[trigger] child_counter_rows(e, CounterKind::PacketsIn)[r].0 == k;
    }
    assert forall|k: SecurityAssociationChildLabelsV|
        #[trigger] m.sa_child_packets_out.contents().contains_key(k) implies k.child_uniqueid
        != uid by {
        lemma_map_of_rows_domain(child_counter_rows(e, CounterKind::PacketsOut), k);
        let r = choose|r: int|
            0 <= r < child_counter_rows(e, CounterKind::PacketsOut).len()
                && #[trigger] child_counter_rows(e, CounterKind::PacketsOut)[r].0 == k;
    }
}

/// Partial-failure isolation, SA families: in a well-formed snapshot, every
/// projectable SA is exported with exactly its snapshot values after apply,
/// whether or not other entities of the same poll failed identity
/// projection.
pub proof fn lemma_isolation(m: Metrics, s: VICIState, i: int)
    requires
        apply_post(m, s),
        s.wf(),
        0 <= i < s.security_associations@.len(),
        sa_projectable(s.security_associations@[i].1),
    ensures
        m.sa_uptime.contents().contains_key(
            sa_label_of(s.security_associations@[i].0@, s.security_associations@[i].1),
        ),
        m.sa_uptime.contents()[sa_label_of(
            s.security_associations@[i].0@,
            s.security_associations@[i].1,
        )] == s.security_associations@[i].1.established,
        m.sa_rekey_time.contents().contains_key(
            sa_label_of(s.security_associations@[i].0@, s.security_associations@[i].1),
        ),
        m.sa_rekey_time.contents()[sa_label_of(
            s.security_associations@[i].0@,
            s.security_associations@[i].1,
        )] == s.security_associations@[i].1.rekey_time as u64,
{
    let e = s.security_associations@;
    lemma_sa_gauge_map_value(e, GaugeKind::Uptime, i);
    lemma_sa_gauge_map_value(e, GaugeKind::RekeyTime, i);
}

/// Partial-failure isolation, child families: in a well-formed snapshot,
/// every child association is exported with exactly the daemon's absolute
/// totals after apply, whether or not other entities of the same poll
/// failed identity projection.
pub proof fn lemma_child_isolation(m: Metrics, s: VICIState, i: int, j: int)
    requires
        apply_post(m, s),
        s.wf(),
        0 <= i < s.security_associations@.len(),
        0 <= j < s.security_associations@[i].1.child_security_associations@.len(),
    ensures
        m.sa_child_bytes_in.contents().contains_key(
            child_label_of(
                s.security_associations@[i].0@,
                s.security_associations@[i].1.child_security_associations@[j].0@,
                s.security_associations@[i].1.child_security_associations@[j].1,
            ),
        ),
        m.sa_child_bytes_in.contents()[child_label_of(
            s.security_associations@[i].0@,
            s.security_associations@[i].1.child_security_associations@[j].0@,
            s.security_associations@[i].1.child_security_associations@[j].1,
        )] == s.security_associations@[i].1.child_security_associations@[j].1.bytes_in,
        m.sa_child_bytes_out.contents()[child_label_of(
            s.security_associations@[i].0@,
            s.security_associations@[i].1.child_security_associations@[j].0@,
            s.security_associations@[i].1.child_security_associations@[j].1,
        )] == s.security_associations@[i].1.child_security_associations@[j].1.bytes_out,
        m.sa_child_packets_in.contents()[child_label_of(
            s.security_associations@[i].0@,
            s.security_associations@[i].1.child_security_associations@[j].0@,
            s.security_associations@[i].1.child_security_associations@[j].1,
        )] == s.security_associations@[i].1.child_security_associations@[j].1.packets_in,
        m.sa_child_packets_out.contents()[child_label_of(
            s.security_associations@[i].0@,
            s.security_associations@[i].1.child_security_associations@[j].0@,
            s.security_associations@[i].1.child_security_associations@[j].1,
        )] == s.security_associations@[i].1.child_security_associations@[j].1.packets_out,
{
    let e = s.security_associations@;
    lemma_child_map_value(e, CounterKind::BytesIn, i, j);
    lemma_child_map_value(e, CounterKind::BytesOut, i, j);
    lemma_child_map_value(e, CounterKind::PacketsIn, i, j);
    lemma_child_map_value(e, CounterKind::PacketsOut, i, j);
}

/// Idempotent re-apply: the families an apply leaves behind depend on the
/// applied snapshot alone, so applying the same snapshot twice in a row
/// yields the same set of series with the same values as applying it once.
pub proof fn lemma_reapply_idempotent(m1: Metrics, m2: Metrics, s: VICIState)
    requires
        apply_post(m1, s),
        apply_post(m2, s),
    ensures
        m1.sa_uptime.contents() == m2.sa_uptime.contents(),
        m1.sa_rekey_time.contents() == m2.sa_rekey_time.contents(),
        m1.sa_child_bytes_in.contents() == m2.sa_child_bytes_in.contents(),
        m1.sa_child_bytes_out.contents() == m2.sa_child_bytes_out.contents(),
        m1.sa_child_packets_in.contents() == m2.sa_child_packets_in.contents(),
        m1.sa_child_packets_out.contents() == m2.sa_child_packets_out.contents(),
        m1.skipped_entities == m2.skipped_entities,
{
}

} // verus!
