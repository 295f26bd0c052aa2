use vstd::prelude::*;
use vstd::multiset::Multiset;
use crate::histogram::{histogram_samples, histogram_settings};
use crate::kinds::kind_count;
use crate::metrics::{code_key, count_of, Metrics, LATENCY_CAP_US};

verus! {

/// One call that changes a set of counters: `Metrics::record`, `Metrics::record_dropped`
/// or `Metrics::record_transport_kind`, with its arguments.
pub enum CounterOp {
    Record { ok: bool, lat_us: u64, code: Option<u16> },
    Dropped { n: u64 },
    TransportKind { kind: Seq<char> },
}

/// The number of requests recorded by the calls.
pub open spec fn records(ops: Seq<CounterOp>) -> nat
    decreases ops.len(),
{
    if ops.len() == 0 {
        0
    } else {
        records(ops.drop_last()) + if ops.last() is Record {
            1nat
        } else {
            0
        }
    }
}

/// The number of successful requests recorded by the calls.
pub open spec fn successes(ops: Seq<CounterOp>) -> nat
    decreases ops.len(),
{
    if ops.len() == 0 {
        0
    } else {
        successes(ops.drop_last()) + if ops.last() matches CounterOp::Record { ok, .. } && ok {
            1nat
        } else {
            0
        }
    }
}

/// The number of dropped requests added by the calls.
pub open spec fn drops(ops: Seq<CounterOp>) -> nat
    decreases ops.len(),
{
    if ops.len() == 0 {
        0
    } else {
        drops(ops.drop_last()) + match ops.last() {
            CounterOp::Dropped { n } => n as nat,
            _ => 0nat,
        }
    }
}

/// The number of requests recorded under status key `k` (0 for transport errors).
pub open spec fn code_count(ops: Seq<CounterOp>, k: u16) -> nat
    decreases ops.len(),
{
    if ops.len() == 0 {
        0
    } else {
        code_count(ops.drop_last(), k) + if ops.last() matches CounterOp::Record { code, .. }
            && code_key(code) == k {
            1nat
        } else {
            0
        }
    }
}

/// The number of transport errors counted under kind `k`.
pub open spec fn kind_total(ops: Seq<CounterOp>, k: Seq<char>) -> nat
    decreases ops.len(),
{
    if ops.len() == 0 {
        0
    } else {
        kind_total(ops.drop_last(), k) + if ops.last() matches CounterOp::TransportKind { kind }
            && kind == k {
            1nat
        } else {
            0
        }
    }
}

/// The latencies recorded by the calls, each capped at `LATENCY_CAP_US`.
pub open spec fn recorded_latencies(ops: Seq<CounterOp>) -> Multiset<u64>
    decreases ops.len(),
{
    if ops.len() == 0 {
        Multiset::empty()
    } else {
        let rest = recorded_latencies(ops.drop_last());
        match ops.last() {
            CounterOp::Record { lat_us, .. } => rest.insert(
                if lat_us < LATENCY_CAP_US {
                    lat_us
                } else {
                    LATENCY_CAP_US
                },
            ),
            _ => rest,
        }
    }
}

impl Metrics {
    /// These counters are those that fresh counters reach through the calls `ops`.
    pub open spec fn holds(&self, ops: Seq<CounterOp>) -> bool {
        &&& self.sent == records(ops)
        &&& self.ok == successes(ops)
        &&& self.err == records(ops) - successes(ops)
        &&& self.dropped == drops(ops)
        &&& forall|k: u16| #[trigger] count_of(self.codes@, k) == code_count(ops, k)
        &&& forall|k: u16| #[trigger] self.codes@.contains_key(k) == (code_count(ops, k) > 0)
        &&& forall|k: Seq<char>| #[trigger] kind_count(self.transport@, k) == kind_total(ops, k)
        &&& forall|k: Seq<char>| #[trigger] self.transport@.contains_key(k) == (kind_total(ops, k)
            > 0)
        &&& histogram_samples(self.hist) == recorded_latencies(ops)
        &&& histogram_settings(self.hist) == (1u64, 3u8, true)
    }
}

/// One more call, unfolded.
pub proof fn lemma_replay_push(ops: Seq<CounterOp>, op: CounterOp)
    ensures
        ops.push(op).drop_last() == ops,
        ops.push(op).last() == op,
{
    assert(ops.push(op).drop_last() =~= ops);
}

/// No more successes than records.
pub proof fn lemma_successes_bound(ops: Seq<CounterOp>)
    ensures
        successes(ops) <= records(ops),
    decreases ops.len(),
{
    if ops.len() > 0 {
        lemma_successes_bound(ops.drop_last());
    }
}

/// The counts of two runs of calls, one after the other, add up.
pub proof fn lemma_replay_concat(o1: Seq<CounterOp>, o2: Seq<CounterOp>)
    ensures
        records(o1 + o2) == records(o1) + records(o2),
        successes(o1 + o2) == successes(o1) + successes(o2),
        drops(o1 + o2) == drops(o1) + drops(o2),
        forall|k: u16| #[trigger] code_count(o1 + o2, k) == code_count(o1, k) + code_count(o2, k),
        forall|k: Seq<char>| #[trigger] kind_total(o1 + o2, k) == kind_total(o1, k) + kind_total(
            o2,
            k,
        ),
        recorded_latencies(o1 + o2) == recorded_latencies(o1).add(recorded_latencies(o2)),
    decreases o2.len(),
{
    if o2.len() == 0 {
        assert(o1 + o2 =~= o1);
        assert(recorded_latencies(o1).add(Multiset::empty()) =~= recorded_latencies(o1));
    } else {
        let t2 = o2.drop_last();
        lemma_replay_concat(o1, t2);
        assert((o1 + o2).drop_last() =~= o1 + t2);
        assert((o1 + o2).last() == o2.last());
        match o2.last() {
            CounterOp::Record { lat_us, .. } => {
                let x = if lat_us < LATENCY_CAP_US {
                    lat_us
                } else {
                    LATENCY_CAP_US
                };
                assert(recorded_latencies(o1).add(recorded_latencies(t2)).insert(x)
                    =~= recorded_latencies(o1).add(recorded_latencies(t2).insert(x)));
            },
            _ => {},
        }
        assert forall|k: u16| #[trigger] code_count(o1 + o2, k) == code_count(o1, k) + code_count(
            o2,
            k,
        ) by {
            assert(code_count(o1 + t2, k) == code_count(o1, k) + code_count(t2, k));
        }
        assert forall|k: Seq<char>| #[trigger] kind_total(o1 + o2, k) == kind_total(o1, k)
            + kind_total(o2, k) by {
            assert(kind_total(o1 + t2, k) == kind_total(o1, k) + kind_total(t2, k));
        }
    }
}

/// Law: what a run of calls counts does not depend on the order of two parts of it, so
/// merging `b` into `a` or `a` into `b` gives the same counts; and a run with no calls
/// (fresh counters) adds nothing.
pub proof fn law_replay_order_free(o1: Seq<CounterOp>, o2: Seq<CounterOp>)
    ensures
        records(o1 + o2) == records(o2 + o1),
        successes(o1 + o2) == successes(o2 + o1),
        drops(o1 + o2) == drops(o2 + o1),
        forall|k: u16| #[trigger] code_count(o1 + o2, k) == code_count(o2 + o1, k),
        forall|k: Seq<char>| #[trigger] kind_total(o1 + o2, k) == kind_total(o2 + o1, k),
        recorded_latencies(o1 + o2) == recorded_latencies(o2 + o1),
        o1 + Seq::<CounterOp>::empty() == o1,
{
    lemma_replay_concat(o1, o2);
    lemma_replay_concat(o2, o1);
    assert(recorded_latencies(o1).add(recorded_latencies(o2)) =~= recorded_latencies(o2).add(
        recorded_latencies(o1),
    ));
    assert(o1 + Seq::<CounterOp>::empty() =~= o1);
}

} // verus!
