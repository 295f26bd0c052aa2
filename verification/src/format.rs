use vstd::prelude::*;
use std::collections::BTreeMap;
use crate::config::Config;
use crate::kinds::entries_view;
use crate::metrics::Metrics;
use crate::text::push_char;

verus! {

broadcast use {vstd::std_specs::btree::group_btree_axioms, vstd::laws_cmp::group_laws_cmp};

/// The decimal digit character for `d` (taken modulo 10).
pub open spec fn digit_char(d: int) -> char {
    if d == 0 {
        '0'
    } else if d == 1 {
        '1'
    } else if d == 2 {
        '2'
    } else if d == 3 {
        '3'
    } else if d == 4 {
        '4'
    } else if d == 5 {
        '5'
    } else if d == 6 {
        '6'
    } else if d == 7 {
        '7'
    } else if d == 8 {
        '8'
    } else {
        '9'
    }
}

/// The decimal notation of `n`, without leading zeros.
pub open spec fn decimal(n: nat) -> Seq<char>
    decreases n,
{
    if n < 10 {
        seq![digit_char(n as int)]
    } else {
        decimal(n / 10).push(digit_char((n % 10) as int))
    }
}

fn digit(d: u64) -> (c: char)
    requires
        d < 10,
    ensures
        c == digit_char(d as int),
{
    if d == 0 {
        '0'
    } else if d == 1 {
        '1'
    } else if d == 2 {
        '2'
    } else if d == 3 {
        '3'
    } else if d == 4 {
        '4'
    } else if d == 5 {
        '5'
    } else if d == 6 {
        '6'
    } else if d == 7 {
        '7'
    } else if d == 8 {
        '8'
    } else {
        '9'
    }
}

/// Appends the decimal notation of `n` to `out`.
pub fn push_decimal(out: &mut String, n: u64)
    ensures
        final(out)@ == old(out)@ + decimal(n as nat),
    decreases n,
{
    if n >= 10 {
        push_decimal(out, n / 10);
    }
    push_char(out, digit(n % 10));
    proof {
        if n >= 10 {
            assert(decimal(n as nat) == decimal((n / 10) as nat).push(digit_char((n % 10) as int)));
        }
    }
}

/// The name of the JSON report of a worker: `<timestamp>-worker-<id>.json`.
pub fn report_file_name(timestamp: &str, worker_id: usize) -> (r: String)
    ensures
        r@ == timestamp@ + "-worker-"@ + decimal(worker_id as nat) + ".json"@,
{
    let mut r = String::from_str(timestamp);
    r.append("-worker-");
    push_decimal(&mut r, worker_id as u64);
    r.append(".json");
    r
}

/// `"true"` or `"false"`.
pub open spec fn bool_text(b: bool) -> Seq<char> {
    if b {
        "true"@
    } else {
        "false"@
    }
}

/// The lines that present a configuration on the console; a missing payload file shows
/// as `None`.
pub open spec fn config_lines(cfg: Config) -> Seq<Seq<char>> {
    seq![
        "Configuration:"@,
        "  Target URL: "@ + cfg.target_url@,
        "  Method: "@ + cfg.method@,
        "  Payload File: "@ + match cfg.payload_file {
            Some(p) => p@,
            None => "None"@,
        },
        "  Duration: "@ + cfg.duration@,
        "  Rate per Second: "@ + decimal(cfg.rate_per_sec as nat),
        "  Concurrency per Process: "@ + decimal(cfg.concurrency_per_process as nat),
        "  Processes: "@ + decimal(cfg.processes as nat),
        "  Timeout client: "@ + cfg.timeout_c@,
        "  Timeout request: "@ + decimal(cfg.timeout_r as nat),
        "  Verify TLS: "@ + bool_text(cfg.verify_tls),
        "  Pool Max Idle/Host: "@ + decimal(cfg.pool_max_idle as nat),
        "  Pool Idle Timeout: "@ + decimal(cfg.pool_idle_timeout as nat) + "s"@,
    ]
}

/// The value of the decimal digits of `s`, read from left to right.
pub open spec fn digits_value(s: Seq<char>) -> int
    decreases s.len(),
{
    if s.len() == 0 {
        0
    } else {
        digits_value(s.drop_last()) * 10 + (s.last() as int - '0' as int)
    }
}

/// Every character of `s` is a decimal digit.
pub open spec fn all_digits(s: Seq<char>) -> bool {
    forall|i: int| 0 <= i < s.len() ==> '0' <= #[trigger] s[i] && s[i] <= '9'
}

/// Law: the decimal notation of `n` is a nonempty run of digits that reads back as `n`,
/// and starts with `0` only for zero.
pub proof fn law_decimal_reads_back(n: nat)
    ensures
        decimal(n).len() >= 1,
        all_digits(decimal(n)),
        digits_value(decimal(n)) == n,
        (decimal(n)[0] == '0') == (n == 0),
    decreases n,
{
    if n >= 10 {
        law_decimal_reads_back(n / 10);
        let d = decimal(n / 10);
        let r = decimal(n);
        assert(r == d.push(digit_char((n % 10) as int)));
        assert(r.drop_last() =~= d);
        assert(r[0] == d[0]);
        assert(digit_char((n % 10) as int) as int - '0' as int == n % 10);
        assert(r.last() == digit_char((n % 10) as int));
        assert(n == (n / 10) * 10 + n % 10);
        assert(digits_value(r) == digits_value(d) * 10 + (r.last() as int - '0' as int));
        assert forall|i: int| 0 <= i < r.len() implies '0' <= #[trigger] r[i] && r[i] <= '9' by {
            if i < d.len() {
                assert(r[i] == d[i]);
            }
        }
    } else {
        assert(digit_char(n as int) as int - '0' as int == n);
        assert(decimal(n).drop_last() =~= Seq::<char>::empty());
        assert(digits_value(decimal(n)) == digits_value(decimal(n).drop_last()) * 10 + (
        decimal(n).last() as int - '0' as int));
    }
}

/// Law: every line of a configuration's presentation shows the configuration's own value
/// after its label: texts as they are, numbers in decimal (which reads back as the number,
/// see `law_decimal_reads_back`), and TLS verification as `true` exactly when it is on.
pub proof fn law_config_lines_show_values(cfg: Config)
    ensures
        config_lines(cfg).len() == 13,
        config_lines(cfg)[0] == "Configuration:"@,
        config_lines(cfg)[1] == "  Target URL: "@ + cfg.target_url@,
        config_lines(cfg)[2] == "  Method: "@ + cfg.method@,
        cfg.payload_file matches Some(p) ==> config_lines(cfg)[3] == "  Payload File: "@ + p@,
        cfg.payload_file is None ==> config_lines(cfg)[3] == "  Payload File: None"@,
        config_lines(cfg)[4] == "  Duration: "@ + cfg.duration@,
        config_lines(cfg)[5] == "  Rate per Second: "@ + decimal(cfg.rate_per_sec as nat),
        config_lines(cfg)[6] == "  Concurrency per Process: "@ + decimal(
            cfg.concurrency_per_process as nat,
        ),
        config_lines(cfg)[7] == "  Processes: "@ + decimal(cfg.processes as nat),
        config_lines(cfg)[8] == "  Timeout client: "@ + cfg.timeout_c@,
        config_lines(cfg)[9] == "  Timeout request: "@ + decimal(cfg.timeout_r as nat),
        cfg.verify_tls ==> config_lines(cfg)[10] == "  Verify TLS: true"@,
        !cfg.verify_tls ==> config_lines(cfg)[10] == "  Verify TLS: false"@,
        config_lines(cfg)[11] == "  Pool Max Idle/Host: "@ + decimal(cfg.pool_max_idle as nat),
        config_lines(cfg)[12] == "  Pool Idle Timeout: "@ + decimal(cfg.pool_idle_timeout as nat)
            + "s"@,
{
    reveal_strlit("  Payload File: ");
    reveal_strlit("  Payload File: None");
    reveal_strlit("None");
    reveal_strlit("  Verify TLS: ");
    reveal_strlit("  Verify TLS: true");
    reveal_strlit("  Verify TLS: false");
    reveal_strlit("true");
    reveal_strlit("false");
    assert("  Payload File: "@ + "None"@ =~= "  Payload File: None"@);
    assert("  Verify TLS: "@ + "true"@ =~= "  Verify TLS: true"@);
    assert("  Verify TLS: "@ + "false"@ =~= "  Verify TLS: false"@);
}

fn line_with(prefix: &str, value: &str) -> (r: String)
    ensures
        r@ == prefix@ + value@,
{
    let mut r = String::from_str(prefix);
    r.append(value);
    r
}

fn line_with_number(prefix: &str, n: u64) -> (r: String)
    ensures
        r@ == prefix@ + decimal(n as nat),
{
    let mut r = String::from_str(prefix);
    push_decimal(&mut r, n);
    r
}

/// The console presentation of a configuration, one line per entry.
pub fn config_summary_lines(cfg: &Config) -> (r: Vec<String>)
    ensures
        r@.map_values(|s: String| s@) == config_lines(*cfg),
{
    let mut r: Vec<String> = Vec::new();
    r.push(String::from_str("Configuration:"));
    r.push(line_with("  Target URL: ", cfg.target_url.as_str()));
    r.push(line_with("  Method: ", cfg.method.as_str()));
    let payload = match &cfg.payload_file {
        Some(p) => line_with("  Payload File: ", p.as_str()),
        None => line_with("  Payload File: ", "None"),
    };
    r.push(payload);
    r.push(line_with("  Duration: ", cfg.duration.as_str()));
    r.push(line_with_number("  Rate per Second: ", cfg.rate_per_sec as u64));
    r.push(line_with_number("  Concurrency per Process: ", cfg.concurrency_per_process as u64));
    r.push(line_with_number("  Processes: ", cfg.processes as u64));
    r.push(line_with("  Timeout client: ", cfg.timeout_c.as_str()));
    r.push(line_with_number("  Timeout request: ", cfg.timeout_r));
    let tls = if cfg.verify_tls {
        line_with("  Verify TLS: ", "true")
    } else {
        line_with("  Verify TLS: ", "false")
    };
    r.push(tls);
    r.push(line_with_number("  Pool Max Idle/Host: ", cfg.pool_max_idle as u64));
    let mut idle = line_with_number("  Pool Idle Timeout: ", cfg.pool_idle_timeout);
    idle.append("s");
    r.push(idle);
    assert(r@.map_values(|s: String| s@) =~= config_lines(*cfg));
    r
}

/// The line that presents the count of one status code; 0 stands for transport errors.
pub open spec fn code_line(code: u16, count: u64) -> Seq<char> {
    if code == 0 {
        "  0 (Transport Errors): "@ + decimal(count as nat)
    } else {
        "  "@ + decimal(code as nat) + ": "@ + decimal(count as nat)
    }
}

/// One line per status code below `n` that has a count, in increasing code order.
pub open spec fn code_lines_below(m: Map<u16, u64>, n: int) -> Seq<Seq<char>>
    decreases n,
{
    if n <= 0 {
        Seq::empty()
    } else if m.contains_key((n - 1) as u16) {
        code_lines_below(m, n - 1).push(code_line((n - 1) as u16, m[(n - 1) as u16]))
    } else {
        code_lines_below(m, n - 1)
    }
}

/// Law: a status line shows its code and its count, the code 0 under the label of
/// transport errors; a transport-error line shows its kind and its count.
pub proof fn law_code_line(code: u16, count: u64, kind: Seq<char>)
    ensures
        kind_line(kind, count) == "  "@ + kind + ": "@ + decimal(count as nat),
        code == 0 ==> code_line(code, count) == "  0 (Transport Errors): "@ + decimal(count as nat),
        code != 0 ==> code_line(code, count) == "  "@ + decimal(code as nat) + ": "@ + decimal(
            count as nat,
        ),
{
}

/// `line` is the status line of some code below `n` that has a count in `m`.
pub open spec fn shows_some_code(m: Map<u16, u64>, n: int, line: Seq<char>) -> bool {
    exists|k: u16| k < n && m.contains_key(k) && line == #[trigger] code_line(k, m[k])
}

/// Law: the status lines hold one line for each code that has a count, showing that code
/// and its count, and no other line.
pub proof fn law_code_lines(m: Map<u16, u64>, n: int)
    requires
        0 <= n <= 0x10000,
    ensures
        forall|k: u16|
            k < n && #[trigger] m.contains_key(k) ==> code_lines_below(m, n).contains(
                code_line(k, m[k]),
            ),
        forall|i: int|
            0 <= i < code_lines_below(m, n).len() ==> shows_some_code(
                m,
                n,
                #[trigger] code_lines_below(m, n)[i],
            ),
        code_lines_below(m, n).len() <= n,
    decreases n,
{
    if n > 0 {
        law_code_lines(m, n - 1);
        let prev = code_lines_below(m, n - 1);
        let kk = (n - 1) as u16;
        let cur = code_lines_below(m, n);
        assert forall|i: int| 0 <= i < prev.len() implies shows_some_code(m, n, prev[i]) by {
            assert(shows_some_code(m, n - 1, prev[i]));
            let k = choose|k: u16|
                k < n - 1 && m.contains_key(k) && prev[i] == #[trigger] code_line(k, m[k]);
            assert(k < n && m.contains_key(k) && prev[i] == code_line(k, m[k]));
        }
        if m.contains_key(kk) {
            assert(cur == prev.push(code_line(kk, m[kk])));
            assert forall|k: u16| k < n && #[trigger] m.contains_key(k) implies cur.contains(
                code_line(k, m[k]),
            ) by {
                if k == kk {
                    assert(cur[prev.len() as int] == code_line(k, m[k]));
                } else {
                    let j = choose|j: int| 0 <= j < prev.len() && prev[j] == code_line(k, m[k]);
                    assert(cur[j] == code_line(k, m[k]));
                }
            }
            assert forall|i: int| 0 <= i < cur.len() implies shows_some_code(m, n, cur[i]) by {
                if i < prev.len() {
                    assert(cur[i] == prev[i]);
                } else {
                    assert(cur[i] == code_line(kk, m[kk]));
                }
            }
        } else {
            assert(cur == prev);
            assert forall|k: u16| k < n && #[trigger] m.contains_key(k) implies prev.contains(
                code_line(k, m[k]),
            ) by {
                assert(k != kk);
            }
        }
    }
}

/// The line that presents the count of one transport-error kind.
pub open spec fn kind_line(kind: Seq<char>, count: u64) -> Seq<char> {
    "  "@ + kind + ": "@ + decimal(count as nat)
}

/// One line per transport-error kind, in the order of the kind names.
pub open spec fn transport_lines(m: &Metrics) -> Seq<Seq<char>> {
    m.transport.ordered().map_values(|e: (Seq<char>, u64)| kind_line(e.0, e.1))
}

/// The console lines that follow the headline of a worker's summary.
pub struct SummaryText {
    /// `status codes:` and one line per status code, when any was counted; then
    /// `Transport error.` and one line per kind, when any was counted.
    pub lines: Vec<String>,
    /// The note on dropped requests, printed without a line end, when there were any.
    pub dropped_note: Option<String>,
}

fn push_code_lines(lines: &mut Vec<String>, codes: &BTreeMap<u16, u64>)
    ensures
        final(lines)@.map_values(|s: String| s@) == old(lines)@.map_values(|s: String| s@)
            + code_lines_below(codes@, 0x10000),
{
    let ghost start = old(lines)@.map_values(|s: String| s@);
    let mut k: u32 = 0;
    while k < 0x10000
        invariant
            k <= 0x10000,
            lines@.map_values(|s: String| s@) == start + code_lines_below(codes@, k as int),
        decreases 0x10000 - k,
    {
        let code = k as u16;
        match codes.get(&code) {
            Some(count) => {
                let line = if code == 0 {
                    line_with_number("  0 (Transport Errors): ", *count)
                } else {
                    let mut l = line_with_number("  ", code as u64);
                    l.append(": ");
                    push_decimal(&mut l, *count);
                    l
                };
                let ghost before = lines@;
                lines.push(line);
                assert(lines@.map_values(|s: String| s@) =~= before.map_values(|s: String| s@).push(
                    line@,
                ));
            },
            None => {},
        }
        k += 1;
    }
}

/// The status-code and transport-error lines of a worker's summary, and its note on
/// dropped requests.
pub fn summary_text(m: &Metrics) -> (r: SummaryText)
    ensures
        r.lines@.map_values(|s: String| s@) == (if m.codes@.len() > 0 {
            seq!["status codes:"@] + code_lines_below(m.codes@, 0x10000)
        } else {
            Seq::empty()
        }) + (if m.transport@.len() > 0 {
            seq!["Transport error."@] + transport_lines(m)
        } else {
            Seq::empty()
        }),
        m.dropped > 0 ==> (r.dropped_note matches Some(n) && n@ == "Dropped due to low resource: "@
            + decimal(m.dropped as nat)),
        m.dropped == 0 ==> r.dropped_note is None,
{
    let mut lines: Vec<String> = Vec::new();
    if m.codes.len() > 0 {
        lines.push(String::from_str("status codes:"));
        assert(lines@.map_values(|s: String| s@) =~= seq!["status codes:"@]);
        push_code_lines(&mut lines, &m.codes);
    } else {
        assert(lines@.map_values(|s: String| s@) =~= Seq::<Seq<char>>::empty());
    }
    let ghost mid = lines@.map_values(|s: String| s@);
    assert(mid == (if m.codes@.len() > 0 {
        seq!["status codes:"@] + code_lines_below(m.codes@, 0x10000)
    } else {
        Seq::empty()
    }));
    if m.transport.len() > 0 {
        lines.push(String::from_str("Transport error."));
        let entries = m.transport.entries();
        let ghost start = lines@.map_values(|s: String| s@);
        assert(start =~= mid + seq!["Transport error."@]);
        assert(entries_view(entries@).take(0).map_values(
            |e: (Seq<char>, u64)| kind_line(e.0, e.1),
        ) =~= Seq::<Seq<char>>::empty());
        assert(start =~= start + Seq::<Seq<char>>::empty());
        for i in 0..entries.len()
            invariant
                lines@.map_values(|s: String| s@) == start + entries_view(entries@).take(
                    i as int,
                ).map_values(|e: (Seq<char>, u64)| kind_line(e.0, e.1)),
        {
            let mut l = line_with("  ", entries[i].0.as_str());
            l.append(": ");
            push_decimal(&mut l, entries[i].1);
            let ghost before = lines@;
            let ghost ev = entries_view(entries@);
            assert(ev[i as int] == (entries@[i as int].0@, entries@[i as int].1));
            assert(l@ == kind_line(ev[i as int].0, ev[i as int].1));
            lines.push(l);
            assert(lines@.map_values(|s: String| s@) =~= before.map_values(|s: String| s@).push(
                l@,
            ));
            assert(ev.take(i + 1).map_values(|e: (Seq<char>, u64)| kind_line(e.0, e.1))
                =~= ev.take(i as int).map_values(|e: (Seq<char>, u64)| kind_line(e.0, e.1)).push(
                kind_line(ev[i as int].0, ev[i as int].1),
            ));
            assert(lines@.map_values(|s: String| s@) =~= start + ev.take(i + 1).map_values(
                |e: (Seq<char>, u64)| kind_line(e.0, e.1),
            ));
        }
        proof {
            assert(entries_view(entries@).take(entries@.len() as int) =~= entries_view(entries@));
            assert(lines@.map_values(|s: String| s@) =~= mid + (seq!["Transport error."@]
                + transport_lines(m)));
        }
    } else {
        assert(mid =~= mid + Seq::<Seq<char>>::empty());
    }
    let dropped_note = if m.dropped > 0 {
        Some(line_with_number("Dropped due to low resource: ", m.dropped))
    } else {
        None
    };
    SummaryText { lines, dropped_note }
}

} // verus!
