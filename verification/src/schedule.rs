use vstd::prelude::*;
use humantime::DurationError;

verus! {

#[verifier::external_type_specification]
#[verifier::external_body]
pub struct ExDurationError(DurationError);

/// What `humantime::parse_duration` makes of a text: whole seconds and the nanoseconds
/// beyond them, or nothing when the text is not a duration.
pub uninterp spec fn humantime_duration(text: Seq<char>) -> Option<(u64, u32)>;

/// Whether a character is an ASCII decimal digit.
pub open spec fn is_digit_char(c: char) -> bool {
    '0' <= c && c <= '9'
}

/// Whether a character can be part of a humantime unit name: an ASCII letter or `µ`.
pub open spec fn is_unit_char(c: char) -> bool {
    ('a' <= c && c <= 'z') || ('A' <= c && c <= 'Z') || c == 'µ'
}

/// An upper bound, in seconds, of the unit whose name starts with `c`: humantime's units
/// starting with `n`, `u`, `µ` or `s` last at most a second, those with `m` at most a month
/// (`m`, `min`, `ms`, `millis`, `months`), `M` a month, `h` an hour, `d` a day, `w` a week;
/// anything else is bounded by a year, the longest unit.
pub open spec fn unit_bound(c: char) -> nat {
    if c == 'n' || c == 'u' || c == 'µ' || c == 's' {
        1
    } else if c == 'm' || c == 'M' {
        2_630_016
    } else if c == 'h' {
        3600
    } else if c == 'd' {
        86400
    } else if c == 'w' {
        604800
    } else {
        31_557_600
    }
}

/// Law: the bound of a unit is never below the length of any humantime unit whose name
/// starts with that character (a year is 31557600 s, a month 2630016 s, a week 604800 s,
/// a day 86400 s, an hour 3600 s, a minute 60 s, the rest at most a second), and a
/// character that starts no such name is bounded by a year.
pub proof fn law_unit_bounds(c: char)
    ensures
        unit_bound(c) >= 1,
        unit_bound('y') >= 31_557_600,
        unit_bound('M') >= 2_630_016,
        unit_bound('m') >= 2_630_016,
        unit_bound('w') >= 604_800,
        unit_bound('d') >= 86_400,
        unit_bound('h') >= 3600,
        unit_bound('s') >= 1,
        c != 'n' && c != 'u' && c != 'µ' && c != 's' && c != 'm' && c != 'M' && c != 'h' && c
            != 'd' && c != 'w' ==> unit_bound(c) >= 31_557_600,
{
}

/// The weight of `s` from position `i` on. A span is what lies between two groups of unit
/// characters; `cur` is the number spelled by the digits of the current span so far (all
/// its digits read as one number, whatever stands between them), `in_unit` says whether
/// the scan is inside a group of unit characters, and `acc` is the weight of the spans
/// already closed. A span closed by a unit name starting with `c` weighs
/// `(cur + 1) * unit_bound(c)`; a span left open at the end weighs `(cur + 1)` years.
pub open spec fn weigh_from(s: Seq<char>, i: int, cur: nat, in_unit: bool, acc: nat) -> nat
    decreases s.len() - i,
{
    if i < 0 || i >= s.len() {
        if in_unit {
            acc
        } else {
            acc + (cur + 1) * 31_557_600
        }
    } else if is_digit_char(s[i]) {
        let d = (s[i] as int - '0' as int) as nat;
        weigh_from(s, i + 1, cur * 10 + d, false, acc)
    } else if is_unit_char(s[i]) {
        if in_unit {
            weigh_from(s, i + 1, cur, true, acc)
        } else {
            weigh_from(s, i + 1, 0, true, acc + (cur + 1) * unit_bound(s[i]))
        }
    } else {
        weigh_from(s, i + 1, cur, in_unit, acc)
    }
}

/// The weight of a duration text: an upper bound, in seconds, of the duration humantime
/// reads from it.
pub open spec fn duration_weight(text: Seq<char>) -> nat {
    weigh_from(text, 0, 0, false, 0)
}

/// A duration text that `humantime::parse_duration` can take without overflow.
///
/// humantime reads a span as a number (its digits, with blanks between them skipped, an
/// optional `.` and fraction) followed by a unit name of ASCII letters or `µ`; any other
/// character makes it fail before the span is added. The digits of such a span are the
/// digits of one span of `weigh_from`, so its number `n` is at most `cur`, and the span
/// lasts less than `n + 1` of its unit, which is at most `unit_bound` of the unit's first
/// character. So every running total humantime adds up stays below the weight, and a
/// text of weight at most `u64::MAX` never brings it to `u64::MAX` seconds plus a carried
/// second.
pub open spec fn duration_text_in_range(text: Seq<char>) -> bool {
    duration_weight(text) <= u64::MAX
}

proof fn lemma_weigh_at_least(s: Seq<char>, i: int, cur: nat, in_unit: bool, acc: nat)
    ensures
        weigh_from(s, i, cur, in_unit, acc) >= acc + if in_unit {
            0
        } else {
            cur + 1
        },
    decreases s.len() - i,
{
    if 0 <= i < s.len() {
        if is_digit_char(s[i]) {
            let d = (s[i] as int - '0' as int) as nat;
            lemma_weigh_at_least(s, i + 1, cur * 10 + d, false, acc);
        } else if is_unit_char(s[i]) {
            if in_unit {
                lemma_weigh_at_least(s, i + 1, cur, true, acc);
            } else {
                let b = unit_bound(s[i]);
                assert((cur + 1) * b >= cur + 1) by (nonlinear_arith)
                    requires
                        b >= 1,
                ;
                lemma_weigh_at_least(s, i + 1, 0, true, acc + (cur + 1) * b);
            }
        } else {
            lemma_weigh_at_least(s, i + 1, cur, in_unit, acc);
        }
    } else if !in_unit {
        assert((cur + 1) * 31_557_600 >= cur + 1) by (nonlinear_arith);
    }
}

/// `unit_bound` of a character.
fn unit_bound_of(c: char) -> (r: u128)
    ensures
        r == unit_bound(c),
{
    if c == 'n' || c == 'u' || c == 'µ' || c == 's' {
        1
    } else if c == 'm' || c == 'M' {
        2_630_016
    } else if c == 'h' {
        3600
    } else if c == 'd' {
        86400
    } else if c == 'w' {
        604800
    } else {
        31_557_600
    }
}

/// Whether a duration text weighs at most `u64::MAX`, so that humantime can read it
/// without overflow.
pub fn duration_text_fits(text: &str) -> (r: bool)
    ensures
        r == duration_text_in_range(text@),
{
    let cs = crate::text::chars_of(text);
    let max: u128 = 0xffff_ffff_ffff_ffff;
    let mut cur: u128 = 0;
    let mut acc: u128 = 0;
    let mut in_unit = false;
    let mut i: usize = 0;
    while i < cs.len()
        invariant
            cs@ == text@,
            i <= cs.len(),
            max == u64::MAX,
            acc <= max,
            cur <= max,
            duration_weight(text@) == weigh_from(text@, i as int, cur as nat, in_unit, acc as nat),
        decreases cs.len() - i,
    {
        let c = cs[i];
        if '0' <= c && c <= '9' {
            let d: u128 = (c as u32 - '0' as u32) as u128;
            let next_cur: u128 = cur * 10 + d;
            if acc + next_cur + 1 > max {
                proof {
                    lemma_weigh_at_least(text@, i + 1, next_cur as nat, false, acc as nat);
                }
                return false;
            }
            cur = next_cur;
            in_unit = false;
        } else if ('a' <= c && c <= 'z') || ('A' <= c && c <= 'Z') || c == 'µ' {
            if !in_unit {
                let b = unit_bound_of(c);
                assert((cur + 1) * b <= (max + 1) * 31_557_600) by (nonlinear_arith)
                    requires
                        cur <= max,
                        b <= 31_557_600,
                ;
                let next_acc: u128 = acc + (cur + 1) * b;
                if next_acc > max {
                    proof {
                        lemma_weigh_at_least(text@, i + 1, 0, true, next_acc as nat);
                    }
                    return false;
                }
                acc = next_acc;
                cur = 0;
                in_unit = true;
            }
        }
        i += 1;
    }
    if in_unit {
        true
    } else {
        assert((cur + 1) * 31_557_600 <= (max + 1) * 31_557_600) by (nonlinear_arith)
            requires
                cur <= max,
        ;
        acc + (cur + 1) * 31_557_600 <= max
    }
}

/// `humantime::parse_duration`, with the `Duration` it returns split into whole seconds and
/// the nanoseconds beyond them (which `Duration::subsec_nanos` documents to be below one
/// billion). Its source panics (in `Duration::new`) when a running total reaches `u64::MAX`
/// seconds with a carry of exactly one second in nanoseconds; texts that weigh at most
/// `u64::MAX` (see `duration_text_in_range`) never get there.
#[verifier::external_body]
pub(crate) fn parse_duration(text: &str) -> (r: Result<(u64, u32), DurationError>)
    requires
        duration_text_in_range(text@),
    ensures
        r matches Ok(d) ==> humantime_duration(text@) == Some(d) && d.1 < 1_000_000_000,
        r is Err ==> humantime_duration(text@) is None,
{
    match humantime::parse_duration(text) {
        Ok(d) => Ok((d.as_secs(), d.subsec_nanos())),
        Err(e) => Err(e),
    }
}

/// The share of the total rate that worker `worker_id` sends: the rate divided evenly over
/// the processes, the first `rate % processes` workers sending one request more.
pub open spec fn spec_worker_rate(rate_per_sec: u32, processes: u32, worker_id: int) -> int {
    rate_per_sec / processes + if worker_id < rate_per_sec % processes {
        1int
    } else {
        0
    }
}

/// The request rate of one worker when `rate_per_sec` requests per second are split over
/// `processes` processes (the count taken as a `u32`, as the split computes it).
pub fn worker_rate(rate_per_sec: u32, processes: usize, worker_id: usize) -> (r: u32)
    requires
        processes as u32 != 0,
    ensures
        r == spec_worker_rate(rate_per_sec, processes as u32, worker_id as int),
{
    let p = processes as u32;
    let base = rate_per_sec / p;
    let rem = rate_per_sec % p;
    proof {
        assert(base * p + rem == rate_per_sec) by (nonlinear_arith)
            requires
                p > 0,
                base == rate_per_sec / p,
                rem == rate_per_sec % p,
        ;
        assert(rem > 0 ==> base < u32::MAX) by (nonlinear_arith)
            requires
                p > 0,
                base * p + rem == rate_per_sec,
                rate_per_sec <= u32::MAX,
                rem < p,
        ;
    }
    base + if worker_id < rem as usize {
        1
    } else {
        0
    }
}

/// Sum of the rates of workers `0..n`.
pub open spec fn rates_below(rate_per_sec: u32, processes: u32, n: int) -> int
    decreases n,
{
    if n <= 0 {
        0
    } else {
        rates_below(rate_per_sec, processes, n - 1) + spec_worker_rate(
            rate_per_sec,
            processes,
            n - 1,
        )
    }
}

proof fn lemma_rates_below(rate_per_sec: u32, processes: u32, n: int)
    requires
        processes > 0,
        0 <= n,
    ensures
        rates_below(rate_per_sec, processes, n) == n * (rate_per_sec / processes) + (if n
            < rate_per_sec % processes {
            n
        } else {
            (rate_per_sec % processes) as int
        }),
    decreases n,
{
    if n > 0 {
        lemma_rates_below(rate_per_sec, processes, n - 1);
        let b = (rate_per_sec / processes) as int;
        let r = (rate_per_sec % processes) as int;
        assert(spec_worker_rate(rate_per_sec, processes, n - 1) == b + if n - 1 < r {
            1int
        } else {
            0
        });
        assert(n * b == (n - 1) * b + b) by (nonlinear_arith);
        assert(rates_below(rate_per_sec, processes, n - 1) == (n - 1) * b + (if n - 1 < r {
            n - 1
        } else {
            r
        }));
        assert(rates_below(rate_per_sec, processes, n) == rates_below(
            rate_per_sec,
            processes,
            n - 1,
        ) + spec_worker_rate(rate_per_sec, processes, n - 1));
    } else {
        assert(n * (rate_per_sec / processes) == 0) by (nonlinear_arith)
            requires
                n == 0,
        ;
    }
}

/// Law: the workers `0..processes` together send exactly the configured total rate, and
/// any two workers' rates differ by at most one. (This needs the process count to be a
/// `u32`: with `2^32 + 1` processes the split runs over one process and every worker sends
/// the whole rate.)
pub proof fn law_rates_add_up(rate_per_sec: u32, processes: usize)
    requires
        1 <= processes <= u32::MAX,
    ensures
        rates_below(rate_per_sec, processes as u32, processes as int) == rate_per_sec,
        forall|i: int, j: int|
            0 <= i < processes && 0 <= j < processes ==> #[trigger] spec_worker_rate(
                rate_per_sec,
                processes as u32,
                i,
            ) - #[trigger] spec_worker_rate(rate_per_sec, processes as u32, j) <= 1,
{
    let p = processes as u32;
    lemma_rates_below(rate_per_sec, p, processes as int);
    assert(p == processes);
    assert(p * (rate_per_sec / p) + rate_per_sec % p == rate_per_sec) by (nonlinear_arith)
        requires
            p > 0,
    ;
}

/// Why a run refuses to start.
#[derive(Debug, Clone, Copy, PartialEq, Eq)]
pub enum RunError {
    /// The configuration asks for no process at all.
    NoProcesses,
    /// More processes than half the cores (or one, on a single core).
    TooManyProcesses { processes: usize, max_cores: usize, recommended: usize },
}

/// The most processes a run may use on a machine with `max_cores` cores.
pub open spec fn process_limit(max_cores: usize) -> int {
    if max_cores / 2 >= 1 {
        (max_cores / 2) as int
    } else {
        1
    }
}

/// Checks the process count against the cores of the machine: at least one process, and
/// no more than half the cores (at least one).
pub fn check_process_count(processes: usize, max_cores: usize) -> (r: Result<(), RunError>)
    ensures
        processes == 0 ==> r == Err::<(), RunError>(RunError::NoProcesses),
        processes > 0 && processes > process_limit(max_cores) ==> r == Err::<(), RunError>(
            RunError::TooManyProcesses { processes, max_cores, recommended: max_cores / 2 },
        ),
        processes > 0 && processes <= process_limit(max_cores) ==> r is Ok,
        r is Ok <==> (processes == 1 || (processes > 0 && processes <= max_cores / 2)),
{
    if processes == 0 {
        return Err(RunError::NoProcesses);
    }
    let recommended_max = max_cores / 2;
    let limit = if recommended_max >= 1 {
        recommended_max
    } else {
        1
    };
    if processes > limit {
        return Err(
            RunError::TooManyProcesses {
                processes,
                max_cores,
                recommended: recommended_max,
            },
        );
    }
    Ok(())
}

/// Law: a run may use a process count exactly when it is one, or at most half the cores;
/// a larger count is refused, and the refusal recommends half the cores.
pub proof fn law_process_limit(processes: usize, max_cores: usize)
    requires
        processes > 0,
    ensures
        processes <= process_limit(max_cores) <==> (processes == 1 || processes <= max_cores / 2),
        process_limit(max_cores) >= 1,
        process_limit(max_cores) <= max_cores / 2 || process_limit(max_cores) == 1,
{
}

/// What this process does in a run: which worker it is, and which workers it starts.
pub struct RunPlan {
    pub worker_id: usize,
    pub spawn_ids: Vec<usize>,
}

/// Plans a run: the first process is worker 0 and starts workers `1..processes`; a process
/// started with a worker id is that worker and starts none.
pub fn plan_run(worker: Option<usize>, processes: usize) -> (r: RunPlan)
    ensures
        worker is None ==> r.worker_id == 0,
        worker is None ==> r.spawn_ids@.len() == (if processes > 1 {
            processes - 1
        } else {
            0
        }),
        worker is None ==> forall|i: int| 0 <= i < r.spawn_ids@.len() ==> r.spawn_ids@[i] == i + 1,
        worker matches Some(id) ==> r.worker_id == id && r.spawn_ids@.len() == 0,
{
    match worker {
        Some(id) => RunPlan { worker_id: id, spawn_ids: Vec::new() },
        None => {
            let mut ids: Vec<usize> = Vec::new();
            let mut id: usize = 1;
            while id < processes
                invariant
                    1 <= id,
                    id <= processes || processes <= 1,
                    processes <= 1 ==> id == 1,
                    ids@.len() == id - 1,
                    forall|i: int| 0 <= i < ids@.len() ==> ids@[i] == i + 1,
                decreases processes - id,
            {
                ids.push(id);
                id += 1;
            }
            RunPlan { worker_id: 0, spawn_ids: ids }
        },
    }
}

/// The moment a worker stops sending: its test duration after it started.
pub struct Deadline {
    pub secs: u64,
    pub nanos: u32,
}

/// Why a test duration is refused.
#[derive(Debug)]
pub enum DeadlineError {
    /// The text is not a duration; the parser's error.
    InvalidDuration(DurationError),
}

/// The deadline of a worker whose test lasts `duration` (in humantime notation).
pub fn worker_deadline(duration: &str) -> (r: Result<Deadline, DeadlineError>)
    requires
        duration_text_in_range(duration@),
    ensures
        humantime_duration(duration@) is None ==> r is Err,
        humantime_duration(duration@) matches Some(d) ==> (r matches Ok(dl) && dl.secs == d.0
            && dl.nanos == d.1),
{
    match parse_duration(duration) {
        Ok(d) => Ok(Deadline { secs: d.0, nanos: d.1 }),
        Err(e) => Err(DeadlineError::InvalidDuration(e)),
    }
}

/// Whether a worker that has run for `secs` seconds and `nanos` nanoseconds is still
/// before its deadline, and so sends on.
pub fn before_deadline(deadline: &Deadline, secs: u64, nanos: u32) -> (r: bool)
    ensures
        r == (secs < deadline.secs || (secs == deadline.secs && nanos < deadline.nanos)),
{
    secs < deadline.secs || (secs == deadline.secs && nanos < deadline.nanos)
}

/// What a finished request counts as: an HTTP status is a success when it is 2xx and is
/// kept; a transport error (no status) is a failure without status.
pub fn request_outcome(status: Option<u16>) -> (r: (bool, Option<u16>))
    ensures
        status matches Some(s) ==> r == (crate::status::spec_is_ok_status(s), Some(s)),
        status is None ==> r == (false, None::<u16>),
{
    match status {
        Some(s) => (crate::status::is_ok_status(s), Some(s)),
        None => (false, None),
    }
}

} // verus!
