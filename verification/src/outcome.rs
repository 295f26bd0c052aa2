use vstd::prelude::*;
use vstd::multiset::Multiset;
use crate::histogram::{histogram_samples, histogram_settings};
use crate::kinds::{kind_count, sum_kind_counts};
use crate::metrics::{
    code_key, count_of, lemma_total_insert, law_wf_can_record, sum_counts, total_below,
    Metrics, LATENCY_CAP_US,
};
use crate::schedule::request_outcome;
use crate::status::spec_is_ok_status;

verus! {

/// What came of one request a worker sent.
#[derive(Debug, Clone, Copy, PartialEq, Eq)]
pub struct Outcome {
    /// The HTTP status of the response; `None` when no response came (a transport error).
    pub status: Option<u16>,
    /// For a transport error: whether the request ran out of time.
    pub timed_out: bool,
    /// How long the request took, in microseconds.
    pub latency_us: u64,
}

/// The name under which timed-out requests are counted among the transport errors.
pub open spec fn timeout_kind() -> Seq<char> {
    seq!['t', 'i', 'm', 'e', 'o', 'u', 't']
}

/// Whether an outcome is a success: a 2xx status.
pub open spec fn outcome_ok(o: Outcome) -> bool {
    o.status matches Some(s) && spec_is_ok_status(s)
}

/// Whether an outcome is a transport error that ran out of time.
pub open spec fn outcome_timed_out(o: Outcome) -> bool {
    o.status is None && o.timed_out
}

/// A latency as it is recorded: capped at `LATENCY_CAP_US`.
pub open spec fn capped_latency(lat_us: u64) -> u64 {
    if lat_us < LATENCY_CAP_US {
        lat_us
    } else {
        LATENCY_CAP_US
    }
}

/// Law: a latency is recorded as it is up to ten seconds and as ten seconds beyond;
/// timeouts are counted under the name `timeout`; a request with no response is counted
/// under status key 0, any other under its status.
pub proof fn law_recording_conventions(lat_us: u64, status: Option<u16>)
    ensures
        lat_us <= 10_000_000 ==> capped_latency(lat_us) == lat_us,
        lat_us > 10_000_000 ==> capped_latency(lat_us) == 10_000_000,
        timeout_kind() == "timeout"@,
        status is None ==> code_key(status) == 0,
        status matches Some(s) ==> code_key(status) == s,
{
    reveal_strlit("timeout");
    assert(timeout_kind() =~= "timeout"@);
}

/// The number of successes among the outcomes.
pub open spec fn count_ok(s: Seq<Outcome>) -> nat
    decreases s.len(),
{
    if s.len() == 0 {
        0
    } else {
        count_ok(s.drop_last()) + if outcome_ok(s.last()) {
            1nat
        } else {
            0
        }
    }
}

/// The number of outcomes counted under status key `k` (0 for transport errors).
pub open spec fn count_key(s: Seq<Outcome>, k: u16) -> nat
    decreases s.len(),
{
    if s.len() == 0 {
        0
    } else {
        count_key(s.drop_last(), k) + if code_key(s.last().status) == k {
            1nat
        } else {
            0
        }
    }
}

/// The number of outcomes whose status key lies below `n`.
pub open spec fn count_keys_below(s: Seq<Outcome>, n: int) -> nat
    decreases s.len(),
{
    if s.len() == 0 {
        0
    } else {
        count_keys_below(s.drop_last(), n) + if code_key(s.last().status) < n {
            1nat
        } else {
            0
        }
    }
}

/// The number of transport errors that ran out of time.
pub open spec fn count_timeouts(s: Seq<Outcome>) -> nat
    decreases s.len(),
{
    if s.len() == 0 {
        0
    } else {
        count_timeouts(s.drop_last()) + if outcome_timed_out(s.last()) {
            1nat
        } else {
            0
        }
    }
}

/// The recorded latencies of the outcomes.
pub open spec fn latency_samples(s: Seq<Outcome>) -> Multiset<u64>
    decreases s.len(),
{
    if s.len() == 0 {
        Multiset::empty()
    } else {
        latency_samples(s.drop_last()).insert(capped_latency(s.last().latency_us))
    }
}

/// The status table of the outcomes: each status key that occurs, with its count.
pub open spec fn code_table(s: Seq<Outcome>) -> Map<u16, u64> {
    Map::new(|k: u16| count_key(s, k) > 0, |k: u16| count_key(s, k) as u64)
}

/// The transport-error table of the outcomes: the timeouts under `timeout_kind()`, when
/// there are any.
pub open spec fn timeout_table(s: Seq<Outcome>) -> Map<Seq<char>, u64> {
    if count_timeouts(s) > 0 {
        map![timeout_kind() => count_timeouts(s) as u64]
    } else {
        Map::empty()
    }
}

/// The transport-error kind of a request that got no response: `"timeout"` when it ran out
/// of time, no kind otherwise.
pub fn transport_kind(timed_out: bool) -> (r: Option<&'static str>)
    ensures
        timed_out ==> (r matches Some(k) && k@ == timeout_kind()),
        !timed_out ==> r is None,
{
    if timed_out {
        let k = "timeout";
        proof {
            reveal_strlit("timeout");
        }
        assert(k@ =~= timeout_kind());
        Some(k)
    } else {
        None
    }
}

impl Metrics {
    /// These counters are exactly those of the outcomes `s`, counted one by one from fresh
    /// counters.
    pub open spec fn counts_outcomes(&self, s: Seq<Outcome>) -> bool {
        &&& self.sent == s.len()
        &&& self.ok == count_ok(s)
        &&& self.err == s.len() - count_ok(s)
        &&& self.dropped == 0
        &&& self.codes@ == code_table(s)
        &&& self.transport@ == timeout_table(s)
        &&& histogram_samples(self.hist) == latency_samples(s)
        &&& histogram_settings(self.hist) == (1u64, 3u8, true)
    }

    /// Whether `record_outcome(o)` fits in the counters.
    pub open spec fn can_record_outcome_spec(&self, o: Outcome) -> bool {
        &&& self.sent < u64::MAX
        &&& outcome_timed_out(o) ==> kind_count(self.transport@, timeout_kind()) < u64::MAX
    }

    /// Whether `record_outcome(o)` fits in the counters.
    pub fn can_record_outcome(&self, o: &Outcome) -> (r: bool)
        ensures
            r == self.can_record_outcome_spec(*o),
    {
        if self.sent == u64::MAX {
            return false;
        }
        if o.status.is_none() {
            if let Some(kind) = transport_kind(o.timed_out) {
                return match self.transport.get(kind) {
                    Some(c) => c < u64::MAX,
                    None => true,
                };
            }
        }
        true
    }

    /// Records what came of one request: its success, its capped latency and its status key
    /// (0 for a transport error); a timed-out transport error is also counted under
    /// `"timeout"`.
    pub fn record_outcome(&mut self, o: Outcome)
        requires
            old(self).wf(),
            old(self).can_record_outcome_spec(o),
        ensures
            final(self).wf(),
            final(self).sent == old(self).sent + 1,
            final(self).ok == old(self).ok + if outcome_ok(o) { 1int } else { 0 },
            final(self).err == old(self).err + if outcome_ok(o) { 0int } else { 1 },
            final(self).dropped == old(self).dropped,
            final(self).codes@ == old(self).codes@.insert(
                code_key(o.status),
                (count_of(old(self).codes@, code_key(o.status)) + 1) as u64,
            ),
            final(self).transport@ == (if outcome_timed_out(o) {
                old(self).transport@.insert(
                    timeout_kind(),
                    (kind_count(old(self).transport@, timeout_kind()) + 1) as u64,
                )
            } else {
                old(self).transport@
            }),
            histogram_samples(final(self).hist) == histogram_samples(old(self).hist).insert(
                capped_latency(o.latency_us),
            ),
            histogram_settings(final(self).hist) == histogram_settings(old(self).hist),
            forall|s: Seq<Outcome>| #[trigger]
                old(self).counts_outcomes(s) ==> final(self).counts_outcomes(s.push(o)),
    {
        proof {
            law_wf_can_record(*self, outcome_ok(o), o.status);
        }
        let (ok, code) = request_outcome(o.status);
        self.record(ok, o.latency_us, code);
        if o.status.is_none() {
            if let Some(kind) = transport_kind(o.timed_out) {
                self.record_transport_kind(kind);
            }
        }
        proof {
            assert forall|s: Seq<Outcome>| #[trigger]
                old(self).counts_outcomes(s) implies self.counts_outcomes(s.push(o)) by {
                let t1 = s.push(o);
                assert(t1.drop_last() =~= s);
                assert(t1.last() == o);
                lemma_timeouts_bound(s);
                assert forall|k: u16| #[trigger] count_key(t1, k) <= t1.len() by {
                    lemma_count_key_bound(t1, k);
                }
                assert(self.codes@ =~= code_table(t1));
                assert(self.transport@ =~= timeout_table(t1));
            }
        }
    }

    /// The counters of a worker's requests, each outcome recorded in turn from fresh
    /// counters by `record_outcome`.
    pub fn from_outcomes(outcomes: &Vec<Outcome>) -> (m: Metrics)
        ensures
            m.counts_outcomes(outcomes@),
            m.wf(),
    {
        let mut m = Metrics::new();
        let ghost s = outcomes@;
        proof {
            assert(s.take(0) =~= Seq::<Outcome>::empty());
            assert(code_table(s.take(0)) =~= m.codes@);
            assert(latency_samples(s.take(0)) =~= histogram_samples(m.hist));
        }
        for i in 0..outcomes.len()
            invariant
                s == outcomes@,
                m.wf(),
                m.counts_outcomes(s.take(i as int)),
        {
            let o = outcomes[i];
            proof {
                lemma_timeouts_bound(s.take(i as int));
                assert(s.take(i + 1) =~= s.take(i as int).push(o));
            }
            m.record_outcome(o);
        }
        proof {
            assert(s.take(outcomes.len() as int) =~= s);
        }
        m
    }
}

/// No key counts more outcomes than there are.
proof fn lemma_count_key_bound(s: Seq<Outcome>, k: u16)
    ensures
        count_key(s, k) <= s.len(),
    decreases s.len(),
{
    if s.len() > 0 {
        lemma_count_key_bound(s.drop_last(), k);
    }
}

/// The status-table total below `n` counts the outcomes whose key lies below `n`.
proof fn lemma_table_total(s: Seq<Outcome>, n: int)
    requires
        0 <= n <= 0x10000,
        s.len() <= u64::MAX,
    ensures
        total_below(code_table(s), n) == count_keys_below(s, n),
    decreases s.len(),
{
    if s.len() > 0 {
        let t = s.drop_last();
        let k = code_key(s.last().status);
        lemma_table_total(t, n);
        lemma_count_key_bound(s, k);
        assert(code_table(s) =~= code_table(t).insert(k, (count_of(code_table(t), k) + 1) as u64));
        lemma_total_insert(code_table(t), k, (count_of(code_table(t), k) + 1) as u64, n);
    } else {
        assert(code_table(s) =~= Map::<u16, u64>::empty());
        lemma_total_below_empty(n);
    }
}

proof fn lemma_total_below_empty(n: int)
    ensures
        total_below(Map::<u16, u64>::empty(), n) == 0,
    decreases n,
{
    if n > 0 {
        lemma_total_below_empty(n - 1);
    }
}

/// The successes are the outcomes whose key lies in `200..300`.
proof fn lemma_ok_keys(s: Seq<Outcome>)
    ensures
        count_ok(s) == count_keys_below(s, 300) - count_keys_below(s, 200),
        count_keys_below(s, 200) <= count_keys_below(s, 300),
    decreases s.len(),
{
    if s.len() > 0 {
        lemma_ok_keys(s.drop_last());
    }
}

/// Law: the successes of a worker are exactly the requests counted under a 2xx status.
pub proof fn law_ok_is_2xx(s: Seq<Outcome>)
    requires
        s.len() <= u64::MAX,
    ensures
        count_ok(s) == total_below(code_table(s), 300) - total_below(code_table(s), 200),
{
    lemma_table_total(s, 300);
    lemma_table_total(s, 200);
    lemma_ok_keys(s);
}

/// The counts of two runs of outcomes, one after the other, add up.
proof fn lemma_counts_concat(s1: Seq<Outcome>, s2: Seq<Outcome>)
    ensures
        count_ok(s1 + s2) == count_ok(s1) + count_ok(s2),
        count_timeouts(s1 + s2) == count_timeouts(s1) + count_timeouts(s2),
        latency_samples(s1 + s2) == latency_samples(s1).add(latency_samples(s2)),
        forall|k: u16| #[trigger] count_key(s1 + s2, k) == count_key(s1, k) + count_key(s2, k),
    decreases s2.len(),
{
    if s2.len() == 0 {
        assert(s1 + s2 =~= s1);
        assert(latency_samples(s1).add(Multiset::empty()) =~= latency_samples(s1));
    } else {
        let t2 = s2.drop_last();
        lemma_counts_concat(s1, t2);
        assert((s1 + s2).drop_last() =~= s1 + t2);
        assert((s1 + s2).last() == s2.last());
        let x = capped_latency(s2.last().latency_us);
        assert(latency_samples(s1).add(latency_samples(t2)).insert(x) =~= latency_samples(
            s1,
        ).add(latency_samples(t2).insert(x)));
        assert forall|k: u16| #[trigger] count_key(s1 + s2, k) == count_key(s1, k) + count_key(
            s2,
            k,
        ) by {
            assert(count_key(s1 + t2, k) == count_key(s1, k) + count_key(t2, k));
        }
    }
}

proof fn lemma_timeouts_bound(s: Seq<Outcome>)
    ensures
        count_timeouts(s) <= s.len(),
    decreases s.len(),
{
    if s.len() > 0 {
        lemma_timeouts_bound(s.drop_last());
    }
}

/// Law: counting two runs of outcomes one after the other gives the counts of the two runs
/// added: the successes and timeouts add up, the status tables and transport tables add
/// key by key, and the latency samples are pooled.
pub proof fn law_outcomes_concat(s1: Seq<Outcome>, s2: Seq<Outcome>)
    requires
        s1.len() + s2.len() <= u64::MAX,
    ensures
        count_ok(s1 + s2) == count_ok(s1) + count_ok(s2),
        code_table(s1 + s2) == sum_counts(code_table(s1), code_table(s2)),
        timeout_table(s1 + s2) == sum_kind_counts(timeout_table(s1), timeout_table(s2)),
        latency_samples(s1 + s2) == latency_samples(s1).add(latency_samples(s2)),
{
    lemma_counts_concat(s1, s2);
    assert forall|k: u16| #[trigger] count_key(s1 + s2, k) <= s1.len() + s2.len() by {
        lemma_count_key_bound(s1 + s2, k);
        lemma_count_key_bound(s1, k);
        lemma_count_key_bound(s2, k);
    }
    assert forall|k: u16| count_key(s1, k) <= s1.len() && count_key(s2, k) <= s2.len() by {
        lemma_count_key_bound(s1, k);
        lemma_count_key_bound(s2, k);
    }
    assert(code_table(s1 + s2) =~= sum_counts(code_table(s1), code_table(s2)));
    lemma_timeouts_bound(s1);
    lemma_timeouts_bound(s2);
    assert(timeout_table(s1 + s2) =~= sum_kind_counts(timeout_table(s1), timeout_table(s2)));
}

/// Law: merging the counters of two runs of outcomes, as `Metrics::merge` does, gives the
/// counters of the two runs counted one after the other from fresh counters.
pub proof fn law_merge_replays(a: Metrics, b: Metrics, c: Metrics, s1: Seq<Outcome>, s2: Seq<Outcome>)
    requires
        a.counts_outcomes(s1),
        b.counts_outcomes(s2),
        s1.len() + s2.len() <= u64::MAX,
        c.sent == a.sent + b.sent,
        c.ok == a.ok + b.ok,
        c.err == a.err + b.err,
        c.dropped == a.dropped + b.dropped,
        c.codes@ == sum_counts(a.codes@, b.codes@),
        c.transport@ == sum_kind_counts(a.transport@, b.transport@),
        histogram_settings(c.hist) == histogram_settings(a.hist),
        histogram_samples(c.hist) == histogram_samples(a.hist).add(histogram_samples(b.hist)),
    ensures
        c.counts_outcomes(s1 + s2),
{
    law_outcomes_concat(s1, s2);
    lemma_ok_bound(s1);
    lemma_ok_bound(s2);
}

proof fn lemma_ok_bound(s: Seq<Outcome>)
    ensures
        count_ok(s) <= s.len(),
    decreases s.len(),
{
    if s.len() > 0 {
        lemma_ok_bound(s.drop_last());
    }
}

} // verus!
