use vstd::prelude::*;
use std::collections::BTreeMap;
use vstd::multiset::Multiset;
use vstd::std_specs::btree::spec_btree_map_iter;
use vstd::std_specs::iter::IteratorSpec;
use crate::kinds::{kind_count, sum_kind_counts, TransportCounts};
use crate::replay::{
    code_count, kind_total, lemma_replay_concat, lemma_replay_push, lemma_successes_bound,
    CounterOp,
};
use crate::histogram::{
    histogram_add, histogram_auto, histogram_new_with_bounds, histogram_record,
    histogram_samples, histogram_settings, LatencyHistogram,
};

verus! {

broadcast use {vstd::std_specs::btree::group_btree_axioms, vstd::laws_cmp::group_laws_cmp};

/// Latencies are recorded in microseconds, capped at 10 s.
pub const LATENCY_CAP_US: u64 = 10_000_000;

/// The keys of the first `n` entries of a table's entry sequence.
pub open spec fn done_keys(entries: Seq<(&u16, &u64)>, n: int) -> Set<u16> {
    Set::new(|k: u16| exists|j: int| 0 <= j < n && *entries[j].0 == k)
}

/// The count kept for `k`, 0 when `k` is absent.
pub open spec fn count_of(m: Map<u16, u64>, k: u16) -> int {
    if m.contains_key(k) {
        m[k] as int
    } else {
        0
    }
}

/// Sum of the counts kept for the keys below `n`.
pub open spec fn total_below(m: Map<u16, u64>, n: int) -> int
    decreases n,
{
    if n <= 0 {
        0
    } else {
        total_below(m, n - 1) + count_of(m, (n - 1) as u16)
    }
}

/// Sum of all counts of a status-code table.
pub open spec fn total(m: Map<u16, u64>) -> int {
    total_below(m, 0x10000)
}

/// Status-code tables added key by key: a key present in either is present in the sum.
pub open spec fn sum_counts(a: Map<u16, u64>, b: Map<u16, u64>) -> Map<u16, u64> {
    Map::new(
        |k: u16| a.contains_key(k) || b.contains_key(k),
        |k: u16| (count_of(a, k) + count_of(b, k)) as u64,
    )
}

/// The status-code key of a request outcome: the HTTP status, or 0 for a transport error.
pub open spec fn code_key(code: Option<u16>) -> u16 {
    match code {
        Some(c) => c,
        None => 0,
    }
}

/// Counters of one load-test run.
#[derive(Clone)]
pub struct Metrics {
    pub sent: u64,
    pub ok: u64,
    pub err: u64,
    pub dropped: u64,
    /// Request latencies, in microseconds.
    pub hist: LatencyHistogram,
    /// Count per HTTP status; 0 stands for transport errors.
    pub codes: BTreeMap<u16, u64>,
    /// Count per kind of transport error.
    pub transport: TransportCounts,
}

impl Metrics {
    /// The counters agree with each other: every sent request was either ok or not, left
    /// one latency sample and one status count; the histogram is the one `new` makes; a
    /// status or a transport error kind is kept only once it has been counted.
    pub open spec fn wf(&self) -> bool {
        &&& self.ok + self.err == self.sent
        &&& total(self.codes@) == self.sent
        &&& histogram_samples(self.hist).len() == self.sent
        &&& histogram_settings(self.hist) == (1u64, 3u8, true)
        &&& forall|k: u16| #[trigger] self.codes@.contains_key(k) ==> self.codes@[k] >= 1
        &&& forall|k: Seq<char>| #[trigger] self.transport@.contains_key(k) ==> self.transport@[k] >= 1
    }

    /// Empty counters and a histogram from 1 µs to 10 s with three significant figures
    /// that grows when needed.
    pub fn new() -> (m: Self)
        ensures
            m.sent == 0 && m.ok == 0 && m.err == 0 && m.dropped == 0,
            m.codes@ == Map::<u16, u64>::empty(),
            m.transport@ == Map::<Seq<char>, u64>::empty(),
            histogram_samples(m.hist) =~= Multiset::<u64>::empty(),
            histogram_settings(m.hist) == (1u64, 3u8, true),
            m.wf(),
            m.holds(Seq::empty()),
    {
        let mut h = histogram_new_with_bounds(1, LATENCY_CAP_US, 3).unwrap();
        histogram_auto(&mut h, true);
        let m = Metrics {
            sent: 0,
            ok: 0,
            err: 0,
            dropped: 0,
            hist: h,
            codes: BTreeMap::new(),
            transport: TransportCounts::new(),
        };
        proof {
            lemma_total_empty(m.codes@, 0x10000);
            assert(histogram_samples(m.hist) =~= crate::replay::recorded_latencies(Seq::empty()));
        }
        m
    }

    /// Whether `record(ok, _, code)` fits in the counters.
    pub open spec fn can_record_spec(&self, ok: bool, code: Option<u16>) -> bool {
        &&& self.sent < u64::MAX
        &&& ok ==> self.ok < u64::MAX
        &&& !ok ==> self.err < u64::MAX
        &&& count_of(self.codes@, code_key(code)) < u64::MAX
    }

    /// Whether `record(ok, _, code)` fits in the counters.
    pub fn can_record(&self, ok: bool, code: Option<u16>) -> (r: bool)
        ensures
            r == self.can_record_spec(ok, code),
    {
        let key = match code {
            Some(c) => c,
            None => 0,
        };
        let c = match self.codes.get(&key) {
            Some(v) => *v,
            None => 0,
        };
        self.sent < u64::MAX && (if ok {
            self.ok < u64::MAX
        } else {
            self.err < u64::MAX
        }) && c < u64::MAX
    }

    /// Records one request: whether it succeeded, its latency in microseconds and its HTTP
    /// status (`None` for a transport error, counted under 0).
    pub fn record(&mut self, ok: bool, lat_us: u64, code: Option<u16>)
        requires
            old(self).can_record_spec(ok, code),
        ensures
            final(self).sent == old(self).sent + 1,
            final(self).ok == old(self).ok + if ok { 1int } else { 0 },
            final(self).err == old(self).err + if ok { 0int } else { 1 },
            final(self).dropped == old(self).dropped,
            final(self).codes@ == old(self).codes@.insert(
                code_key(code),
                (count_of(old(self).codes@, code_key(code)) + 1) as u64,
            ),
            final(self).transport@ == old(self).transport@,
            histogram_settings(final(self).hist) == histogram_settings(old(self).hist),
            histogram_settings(old(self).hist).2 ==> histogram_samples(final(self).hist)
                == histogram_samples(old(self).hist).insert(
                if lat_us < LATENCY_CAP_US { lat_us } else { LATENCY_CAP_US },
            ),
            !histogram_settings(old(self).hist).2 ==> histogram_samples(final(self).hist)
                == histogram_samples(old(self).hist) || histogram_samples(final(self).hist)
                == histogram_samples(old(self).hist).insert(
                if lat_us < LATENCY_CAP_US { lat_us } else { LATENCY_CAP_US },
            ),
            old(self).wf() ==> final(self).wf(),
            forall|ops: Seq<CounterOp>| #[trigger]
                old(self).holds(ops) ==> final(self).holds(
                    ops.push(CounterOp::Record { ok, lat_us, code }),
                ),
    {
        self.sent = self.sent + 1;
        if ok {
            self.ok = self.ok + 1;
        } else {
            self.err = self.err + 1;
        }
        let capped = if lat_us < LATENCY_CAP_US { lat_us } else { LATENCY_CAP_US };
        let _ = histogram_record(&mut self.hist, capped);
        let key = match code {
            Some(c) => c,
            None => 0,
        };
        let c = match self.codes.get(&key) {
            Some(v) => *v,
            None => 0,
        };
        self.codes.insert(key, c + 1);
        proof {
            lemma_total_insert(old(self).codes@, key, (c + 1) as u64, 0x10000);
            assert forall|ops: Seq<CounterOp>| #[trigger]
                old(self).holds(ops) implies self.holds(
                    ops.push(CounterOp::Record { ok, lat_us, code }),
                ) by {
                let op = CounterOp::Record { ok, lat_us, code };
                lemma_replay_push(ops, op);
                lemma_successes_bound(ops);
                assert forall|k: u16| #[trigger]
                    count_of(self.codes@, k) == code_count(ops.push(op), k) by {
                    assert(count_of(old(self).codes@, k) == code_count(ops, k));
                }
                assert forall|k: u16| #[trigger]
                    self.codes@.contains_key(k) == (code_count(ops.push(op), k) > 0) by {
                    assert(old(self).codes@.contains_key(k) == (code_count(ops, k) > 0));
                }
                assert forall|k: Seq<char>| #[trigger]
                    kind_count(self.transport@, k) == kind_total(ops.push(op), k) by {
                    assert(kind_count(old(self).transport@, k) == kind_total(ops, k));
                }
                assert forall|k: Seq<char>| #[trigger]
                    self.transport@.contains_key(k) == (kind_total(ops.push(op), k) > 0) by {
                    assert(old(self).transport@.contains_key(k) == (kind_total(ops, k) > 0));
                }
            }
        }
    }

    /// Whether `merge(other)` fits in the counters.
    pub open spec fn can_merge_spec(&self, other: &Metrics) -> bool {
        &&& self.sent + other.sent <= u64::MAX
        &&& self.ok + other.ok <= u64::MAX
        &&& self.err + other.err <= u64::MAX
        &&& self.dropped + other.dropped <= u64::MAX
        &&& forall|k: u16| count_of(self.codes@, k) + count_of(other.codes@, k) <= u64::MAX
        &&& forall|k: Seq<char>|
            kind_count(self.transport@, k) + kind_count(other.transport@, k) <= u64::MAX
    }

    /// Adds the counters, status counts and latency samples of `other` to these.
    pub fn merge(&mut self, other: &Metrics)
        requires
            old(self).can_merge_spec(other),
        ensures
            final(self).sent == old(self).sent + other.sent,
            final(self).ok == old(self).ok + other.ok,
            final(self).err == old(self).err + other.err,
            final(self).dropped == old(self).dropped + other.dropped,
            final(self).codes@ == sum_counts(old(self).codes@, other.codes@),
            final(self).transport@ == sum_kind_counts(old(self).transport@, other.transport@),
            histogram_settings(final(self).hist) == histogram_settings(old(self).hist),
            histogram_settings(old(self).hist).2 && histogram_settings(old(self).hist).0
                == histogram_settings(other.hist).0 && histogram_settings(old(self).hist).1
                == histogram_settings(other.hist).1 ==> histogram_samples(final(self).hist)
                == histogram_samples(old(self).hist).add(histogram_samples(other.hist)),
            histogram_samples(old(self).hist).len() + histogram_samples(other.hist).len()
                <= u64::MAX ==> histogram_samples(final(self).hist) == histogram_samples(
                old(self).hist,
            ) || histogram_samples(final(self).hist).len() == histogram_samples(
                old(self).hist,
            ).len() + histogram_samples(other.hist).len(),
            histogram_settings(old(self).hist).2 && histogram_samples(old(self).hist).len()
                + histogram_samples(other.hist).len() <= u64::MAX ==> histogram_samples(
                final(self).hist,
            ).len() == histogram_samples(old(self).hist).len() + histogram_samples(
                other.hist,
            ).len(),
            old(self).wf() && other.wf() ==> final(self).wf(),
            forall|o1: Seq<CounterOp>, o2: Seq<CounterOp>|
                #![trigger old(self).holds(o1), other.holds(o2)]
                old(self).holds(o1) && other.holds(o2) ==> final(self).holds(o1 + o2),
    {
        let ghost c0 = self.codes@;
        let ghost b = other.codes@;
        let ghost entries = spec_btree_map_iter(&other.codes).remaining();
        for kv in it: other.codes.iter()
            invariant
                c0 == old(self).codes@,
                b == other.codes@,
                self.sent == old(self).sent,
                self.ok == old(self).ok,
                self.err == old(self).err,
                self.dropped == old(self).dropped,
                self.hist == old(self).hist,
                self.transport == old(self).transport,
                it.seq() == entries,
                entries == spec_btree_map_iter(&other.codes).remaining(),
                entries.no_duplicates(),
                forall|k: u16| count_of(c0, k) + count_of(b, k) <= u64::MAX,
                self.codes@ == sum_counts(c0, b.restrict(done_keys(entries, it.index()))),
        {
            let k = *kv.0;
            let v = *kv.1;
            proof {
                let i = it.index();
                assert(b.contains_key(k) && b[k] == v);
                assert(!done_keys(entries, i).contains(k)) by {
                    if done_keys(entries, i).contains(k) {
                        let j = choose|j: int| 0 <= j < i && *entries[j].0 == k;
                        assert(b[*entries[j].0] == *entries[j].1);
                        assert(entries[j] == entries[i]);
                    }
                }
            }
            let c = match self.codes.get(&k) {
                Some(x) => *x,
                None => 0,
            };
            self.codes.insert(k, c + v);
            proof {
                let i = it.index();
                assert(done_keys(entries, i + 1) =~= done_keys(entries, i).insert(k));
                assert(self.codes@ =~= sum_counts(c0, b.restrict(done_keys(entries, i + 1))));
            }
        }
        self.sent = self.sent + other.sent;
        self.ok = self.ok + other.ok;
        self.err = self.err + other.err;
        self.dropped = self.dropped + other.dropped;
        let _ = histogram_add(&mut self.hist, &other.hist);
        self.transport.add_all(&other.transport);
        proof {
            assert(b.restrict(done_keys(entries, entries.len() as int)) =~= b) by {
                assert forall|k: u16| b.contains_key(k) implies done_keys(
                    entries,
                    entries.len() as int,
                ).contains(k) by {
                    assert(entries.contains((&k, &b[k])));
                    let j = choose|j: int| 0 <= j < entries.len() && entries[j] == (&k, &b[k]);
                    assert(*entries[j].0 == k);
                }
            }
            if old(self).wf() && other.wf() {
                lemma_total_sum(c0, b, 0x10000);
            }
            assert forall|o1: Seq<CounterOp>, o2: Seq<CounterOp>|
                #![trigger old(self).holds(o1), other.holds(o2)]
                old(self).holds(o1) && other.holds(o2) implies self.holds(o1 + o2) by {
                lemma_replay_concat(o1, o2);
                lemma_successes_bound(o1);
                lemma_successes_bound(o2);
                assert forall|k: u16| #[trigger]
                    count_of(self.codes@, k) == code_count(o1 + o2, k) by {
                    assert(count_of(old(self).codes@, k) == code_count(o1, k));
                    assert(count_of(other.codes@, k) == code_count(o2, k));
                }
                assert forall|k: u16| #[trigger]
                    self.codes@.contains_key(k) == (code_count(o1 + o2, k) > 0) by {
                    assert(old(self).codes@.contains_key(k) == (code_count(o1, k) > 0));
                    assert(other.codes@.contains_key(k) == (code_count(o2, k) > 0));
                }
                assert forall|k: Seq<char>| #[trigger]
                    kind_count(self.transport@, k) == kind_total(o1 + o2, k) by {
                    assert(kind_count(old(self).transport@, k) == kind_total(o1, k));
                    assert(kind_count(other.transport@, k) == kind_total(o2, k));
                }
                assert forall|k: Seq<char>| #[trigger]
                    self.transport@.contains_key(k) == (kind_total(o1 + o2, k) > 0) by {
                    assert(old(self).transport@.contains_key(k) == (kind_total(o1, k) > 0));
                    assert(other.transport@.contains_key(k) == (kind_total(o2, k) > 0));
                }
            }
        }
    }

    /// Adds `dropped` requests that were never sent for lack of resources.
    pub fn record_dropped(&mut self, dropped: u64)
        requires
            old(self).dropped + dropped <= u64::MAX,
        ensures
            final(self).dropped == old(self).dropped + dropped,
            final(self).sent == old(self).sent,
            final(self).ok == old(self).ok,
            final(self).err == old(self).err,
            final(self).codes@ == old(self).codes@,
            final(self).transport@ == old(self).transport@,
            final(self).hist == old(self).hist,
            old(self).wf() ==> final(self).wf(),
            forall|ops: Seq<CounterOp>| #[trigger]
                old(self).holds(ops) ==> final(self).holds(
                    ops.push(CounterOp::Dropped { n: dropped }),
                ),
    {
        self.dropped = self.dropped + dropped;
        proof {
            assert forall|ops: Seq<CounterOp>| #[trigger]
                old(self).holds(ops) implies self.holds(
                    ops.push(CounterOp::Dropped { n: dropped }),
                ) by {
                let op = CounterOp::Dropped { n: dropped };
                lemma_replay_push(ops, op);
                assert forall|k: u16| #[trigger]
                    count_of(self.codes@, k) == code_count(ops.push(op), k) by {
                    assert(count_of(old(self).codes@, k) == code_count(ops, k));
                }
                assert forall|k: u16| #[trigger]
                    self.codes@.contains_key(k) == (code_count(ops.push(op), k) > 0) by {
                    assert(old(self).codes@.contains_key(k) == (code_count(ops, k) > 0));
                }
                assert forall|k: Seq<char>| #[trigger]
                    kind_count(self.transport@, k) == kind_total(ops.push(op), k) by {
                    assert(kind_count(old(self).transport@, k) == kind_total(ops, k));
                }
                assert forall|k: Seq<char>| #[trigger]
                    self.transport@.contains_key(k) == (kind_total(ops.push(op), k) > 0) by {
                    assert(old(self).transport@.contains_key(k) == (kind_total(ops, k) > 0));
                }
            }
        }
    }

    /// Counts one transport error of the given kind.
    pub fn record_transport_kind(&mut self, kind: &'static str)
        requires
            kind_count(old(self).transport@, kind@) < u64::MAX,
        ensures
            final(self).transport@ == old(self).transport@.insert(
                kind@,
                (kind_count(old(self).transport@, kind@) + 1) as u64,
            ),
            final(self).sent == old(self).sent,
            final(self).ok == old(self).ok,
            final(self).err == old(self).err,
            final(self).dropped == old(self).dropped,
            final(self).codes@ == old(self).codes@,
            final(self).hist == old(self).hist,
            old(self).wf() ==> final(self).wf(),
            forall|ops: Seq<CounterOp>| #[trigger]
                old(self).holds(ops) ==> final(self).holds(
                    ops.push(CounterOp::TransportKind { kind: kind@ }),
                ),
    {
        self.transport.add_count(kind, 1);
        proof {
            assert forall|ops: Seq<CounterOp>| #[trigger]
                old(self).holds(ops) implies self.holds(
                    ops.push(CounterOp::TransportKind { kind: kind@ }),
                ) by {
                let op = CounterOp::TransportKind { kind: kind@ };
                lemma_replay_push(ops, op);
                assert forall|k: u16| #[trigger]
                    count_of(self.codes@, k) == code_count(ops.push(op), k) by {
                    assert(count_of(old(self).codes@, k) == code_count(ops, k));
                }
                assert forall|k: u16| #[trigger]
                    self.codes@.contains_key(k) == (code_count(ops.push(op), k) > 0) by {
                    assert(old(self).codes@.contains_key(k) == (code_count(ops, k) > 0));
                }
                assert forall|k: Seq<char>| #[trigger]
                    kind_count(self.transport@, k) == kind_total(ops.push(op), k) by {
                    assert(kind_count(old(self).transport@, k) == kind_total(ops, k));
                }
                assert forall|k: Seq<char>| #[trigger]
                    self.transport@.contains_key(k) == (kind_total(ops.push(op), k) > 0) by {
                    assert(old(self).transport@.contains_key(k) == (kind_total(ops, k) > 0));
                }
            }
        }
    }
}

/// The total after setting the count of `k` to `v`.
pub(crate) proof fn lemma_total_insert(m: Map<u16, u64>, k: u16, v: u64, n: int)
    requires
        0 <= n <= 0x10000,
    ensures
        total_below(m.insert(k, v), n) == total_below(m, n) + if k < n {
            v - count_of(m, k)
        } else {
            0
        },
    decreases n,
{
    if n > 0 {
        lemma_total_insert(m, k, v, n - 1);
    }
}

/// No single count exceeds the total.
proof fn lemma_count_le_total(m: Map<u16, u64>, k: u16, n: int)
    requires
        0 <= n <= 0x10000,
    ensures
        0 <= total_below(m, n),
        k < n ==> count_of(m, k) <= total_below(m, n),
    decreases n,
{
    if n > 0 {
        lemma_count_le_total(m, k, n - 1);
    }
}

/// The total of a key-by-key sum is the sum of the totals.
proof fn lemma_total_sum(a: Map<u16, u64>, b: Map<u16, u64>, n: int)
    requires
        0 <= n <= 0x10000,
        forall|k: u16| count_of(a, k) + count_of(b, k) <= u64::MAX,
    ensures
        total_below(sum_counts(a, b), n) == total_below(a, n) + total_below(b, n),
    decreases n,
{
    if n > 0 {
        lemma_total_sum(a, b, n - 1);
        let k = (n - 1) as u16;
        assert(count_of(sum_counts(a, b), k) == count_of(a, k) + count_of(b, k));
    }
}

proof fn lemma_total_empty(m: Map<u16, u64>, n: int)
    requires
        m == Map::<u16, u64>::empty(),
    ensures
        total_below(m, n) == 0,
    decreases n,
{
    if n > 0 {
        lemma_total_empty(m, n - 1);
    }
}

} // verus!

verus! {

impl Default for Metrics {
    fn default() -> (m: Self)
        ensures
            m.sent == 0 && m.ok == 0 && m.err == 0 && m.dropped == 0,
            m.codes@ == Map::<u16, u64>::empty(),
            m.transport@ == Map::<Seq<char>, u64>::empty(),
            histogram_samples(m.hist) =~= Multiset::<u64>::empty(),
            histogram_settings(m.hist) == (1u64, 3u8, true),
            m.wf(),
    {
        Self::new()
    }
}

/// Law: merging status counts does not depend on the order of the two tables.
pub proof fn law_sum_counts_commutative(a: Map<u16, u64>, b: Map<u16, u64>)
    ensures
        sum_counts(a, b) == sum_counts(b, a),
{
    assert(sum_counts(a, b) =~= sum_counts(b, a));
}

/// Law: merging status counts three ways does not depend on the grouping, as long as the
/// sums fit.
pub proof fn law_sum_counts_associative(a: Map<u16, u64>, b: Map<u16, u64>, c: Map<u16, u64>)
    requires
        forall|k: u16| count_of(a, k) + count_of(b, k) + count_of(c, k) <= u64::MAX,
    ensures
        sum_counts(sum_counts(a, b), c) == sum_counts(a, sum_counts(b, c)),
{
    assert(sum_counts(sum_counts(a, b), c) =~= sum_counts(a, sum_counts(b, c)));
}

/// Law: merging an empty table (that of fresh `Metrics`) changes nothing.
pub proof fn law_sum_counts_empty(a: Map<u16, u64>)
    ensures
        sum_counts(a, Map::empty()) == a,
        sum_counts(Map::empty(), a) == a,
{
    assert(sum_counts(a, Map::empty()) =~= a);
    assert(sum_counts(Map::empty(), a) =~= a);
}

/// Law: counting one more request before or after merging gives the same status table,
/// as long as the counts fit.
pub proof fn law_record_then_merge(a: Map<u16, u64>, b: Map<u16, u64>, k: u16)
    requires
        forall|j: u16| count_of(a, j) + count_of(b, j) + 1 <= u64::MAX,
    ensures
        sum_counts(a.insert(k, (count_of(a, k) + 1) as u64), b) == sum_counts(a, b).insert(
            k,
            (count_of(sum_counts(a, b), k) + 1) as u64,
        ),
{
    assert(sum_counts(a.insert(k, (count_of(a, k) + 1) as u64), b) =~= sum_counts(a, b).insert(
        k,
        (count_of(sum_counts(a, b), k) + 1) as u64,
    ));
}

/// Law: well-formed counters can record one more request as long as fewer than
/// `u64::MAX` were sent.
pub proof fn law_wf_can_record(m: Metrics, ok: bool, code: Option<u16>)
    requires
        m.wf(),
        m.sent < u64::MAX,
    ensures
        m.can_record_spec(ok, code),
{
    lemma_count_le_total(m.codes@, code_key(code), 0x10000);
}

/// Law: two well-formed sets of counters can be merged when their request totals, their
/// dropped totals and their transport counts add up within `u64::MAX`.
pub proof fn law_wf_can_merge(a: Metrics, b: Metrics)
    requires
        a.wf(),
        b.wf(),
        a.sent + b.sent <= u64::MAX,
        a.dropped + b.dropped <= u64::MAX,
        forall|k: Seq<char>| kind_count(a.transport@, k) + kind_count(b.transport@, k) <= u64::MAX,
    ensures
        a.can_merge_spec(&b),
{
    assert forall|k: u16| count_of(a.codes@, k) + count_of(b.codes@, k) <= u64::MAX by {
        lemma_count_le_total(a.codes@, k, 0x10000);
        lemma_count_le_total(b.codes@, k, 0x10000);
    }
}

} // verus!
