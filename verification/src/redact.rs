use vstd::prelude::*;
use crate::text::{
    ascii_lower, chars_of, lacks, first_index_of, lemma_first_index_of, lemma_first_index_of_at,
    lemma_lower_is_name, push_char, same_name_any_case, to_ascii_lowercase,
};

verus! {

/// The text that stands in place of a secret.
pub open spec fn redacted_marker() -> Seq<char> {
    "***redacted***"@
}

/// The name of a query parameter: what precedes its first `=` (all of it when there is none).
pub open spec fn param_key(p: Seq<char>) -> Seq<char> {
    p.take(first_index_of(p, '='))
}

/// The value of a query parameter: what follows its first `=` (empty when there is none).
pub open spec fn param_value(p: Seq<char>) -> Seq<char> {
    let e = first_index_of(p, '=');
    if e < p.len() {
        p.skip(e + 1)
    } else {
        Seq::empty()
    }
}

/// Query parameter names whose values are credentials, compared without ASCII case.
pub open spec fn is_secret_param_name(k: Seq<char>) -> bool {
    let l = ascii_lower(k);
    ||| l == "token"@
    ||| l == "access_token"@
    ||| l == "api_key"@
    ||| l == "apikey"@
    ||| l == "key"@
    ||| l == "signature"@
    ||| l == "sig"@
    ||| l == "auth"@
    ||| l == "auth_token"@
}

/// One query parameter as it appears in a report: a secret value is replaced by the marker,
/// an empty value loses its `=`, anything else is kept.
pub open spec fn redact_param(p: Seq<char>) -> Seq<char> {
    let k = param_key(p);
    let v = param_value(p);
    if is_secret_param_name(k) {
        k + seq!['='] + redacted_marker()
    } else if v.len() == 0 {
        k
    } else {
        k + seq!['='] + v
    }
}

/// A query string with each `&`-separated parameter redacted; the separators stay.
pub open spec fn redact_query(q: Seq<char>) -> Seq<char>
    decreases q.len(),
{
    let i = first_index_of(q, '&');
    if i < q.len() {
        proof {
            lemma_first_index_of(q, '&');
        }
        redact_param(q.take(i)) + seq!['&'] + redact_query(q.skip(i + 1))
    } else {
        redact_param(q)
    }
}

/// A URL as it appears in a report: everything up to and including the first `?` is kept,
/// the query after it is redacted; a URL without `?` is kept whole.
pub open spec fn redact_url(u: Seq<char>) -> Seq<char> {
    let q = first_index_of(u, '?');
    if q < u.len() {
        u.take(q + 1) + redact_query(u.skip(q + 1))
    } else {
        u
    }
}

/// Whether a query parameter name is one whose value is a credential.
pub fn is_secret_param_name_exec(k: &str) -> (r: bool)
    ensures
        r == is_secret_param_name(k@),
{
    let l = to_ascii_lowercase(k);
    if l == String::from_str("token") || l == String::from_str("access_token") {
        true
    } else if l == String::from_str("api_key") || l == String::from_str("apikey") {
        true
    } else if l == String::from_str("key") || l == String::from_str("signature") {
        true
    } else if l == String::from_str("sig") || l == String::from_str("auth") {
        true
    } else {
        l == String::from_str("auth_token")
    }
}

/// Appends the redacted form of the parameter `u[start..end]` (in characters) to `out`.
fn push_redacted_param(out: &mut String, u: &str, cs: &Vec<char>, start: usize, end: usize)
    requires
        cs@ == u@,
        start <= end <= cs.len(),
    ensures
        final(out)@ == old(out)@ + redact_param(u@.subrange(start as int, end as int)),
{
    let ghost p = u@.subrange(start as int, end as int);
    let mut e = start;
    while e < end && cs[e] != '='
        invariant
            cs@ == u@,
            start <= e <= end <= cs.len(),
            forall|k: int| start <= k < e ==> cs@[k] != '=',
        decreases end - e,
    {
        e += 1;
    }
    proof {
        lemma_first_index_of_at(p, '=', e - start);
        assert(param_key(p) =~= u@.subrange(start as int, e as int));
        if e < end {
            assert(param_value(p) =~= u@.subrange(e + 1, end as int));
        }
    }
    let key = u.substring_char(start, e);
    if is_secret_param_name_exec(key) {
        out.append(key);
        push_char(out, '=');
        out.append("***redacted***");
    } else if e >= end || e + 1 == end {
        out.append(key);
    } else {
        out.append(key);
        push_char(out, '=');
        out.append(u.substring_char(e + 1, end));
    }
}

/// Masks credential-like query parameters of a URL for reports, keeping its shape.
pub fn redact_tokens_in_url(u: &str) -> (r: String)
    ensures
        r@ == redact_url(u@),
{
    let cs = chars_of(u);
    let n = cs.len();
    let mut q: usize = 0;
    while q < n && cs[q] != '?'
        invariant
            cs@ == u@,
            n == cs.len(),
            q <= n,
            forall|k: int| 0 <= k < q ==> cs@[k] != '?',
        decreases n - q,
    {
        q += 1;
    }
    proof {
        lemma_first_index_of_at(u@, '?', q as int);
    }
    if q == n {
        return String::from_str(u);
    }
    let mut out = String::from_str(u.substring_char(0, q + 1));
    let ghost head = u@.take(q + 1);
    let mut start: usize = q + 1;
    let mut j: usize = q + 1;
    assert(u@.skip(q + 1) =~= u@.subrange(start as int, n as int));
    while j < n
        invariant
            cs@ == u@,
            n == cs.len(),
            q < n,
            head == u@.take(q + 1),
            q + 1 <= start <= j <= n,
            forall|k: int| start <= k < j ==> cs@[k] != '&',
            head + redact_query(u@.skip(q + 1)) == out@ + redact_query(
                u@.subrange(start as int, n as int),
            ),
        decreases n - j,
    {
        if cs[j] == '&' {
            let ghost rest = u@.subrange(start as int, n as int);
            proof {
                lemma_first_index_of_at(rest, '&', j - start);
                assert(rest.take(j - start) =~= u@.subrange(start as int, j as int));
                assert(rest.skip(j - start + 1) =~= u@.subrange(j + 1, n as int));
            }
            let ghost before = out@;
            push_redacted_param(&mut out, u, &cs, start, j);
            push_char(&mut out, '&');
            assert(before + redact_query(rest) =~= out@ + redact_query(
                u@.subrange(j + 1, n as int),
            ));
            start = j + 1;
        }
        j += 1;
    }
    let ghost rest = u@.subrange(start as int, n as int);
    proof {
        lemma_first_index_of_at(rest, '&', rest.len() as int);
    }
    push_redacted_param(&mut out, u, &cs, start, n);
    out
}

} // verus!

verus! {

/// The `&`-separated parameters of a query string, in order.
pub open spec fn query_params(q: Seq<char>) -> Seq<Seq<char>>
    decreases q.len(),
{
    let i = first_index_of(q, '&');
    if i < q.len() {
        proof {
            lemma_first_index_of(q, '&');
        }
        seq![q.take(i)] + query_params(q.skip(i + 1))
    } else {
        seq![q]
    }
}

proof fn lemma_marker_plain()
    ensures
        forall|k: int| 0 <= k < redacted_marker().len() ==> redacted_marker()[k] != '&',
        forall|k: int| 0 <= k < redacted_marker().len() ==> redacted_marker()[k] != '=',
        redacted_marker().len() > 0,
{
    reveal_strlit("***redacted***");
}

proof fn lemma_no_char_in_key(p: Seq<char>)
    ensures
        forall|k: int| 0 <= k < param_key(p).len() ==> param_key(p)[k] != '=',
        param_key(p).len() <= p.len(),
        forall|k: int| 0 <= k < param_key(p).len() ==> param_key(p)[k] == p[k],
{
    lemma_first_index_of(p, '=');
}

/// Facts on one redacted parameter: its name is kept, it holds no `&` when the
/// parameter held none, and redacting it again changes nothing.
proof fn lemma_redact_param(p: Seq<char>)
    requires
        forall|k: int| 0 <= k < p.len() ==> p[k] != '&',
    ensures
        forall|k: int| 0 <= k < redact_param(p).len() ==> redact_param(p)[k] != '&',
        param_key(redact_param(p)) == param_key(p),
        redact_param(redact_param(p)) == redact_param(p),
        is_secret_param_name(param_key(p)) ==> param_value(redact_param(p)) == redacted_marker(),
{
    let k = param_key(p);
    let v = param_value(p);
    let r = redact_param(p);
    lemma_first_index_of(p, '=');
    lemma_no_char_in_key(p);
    lemma_marker_plain();
    let e = first_index_of(p, '=');
    if e < p.len() {
        assert forall|j: int| 0 <= j < v.len() implies v[j] != '&' by {
            assert(v[j] == p[e + 1 + j]);
        }
    }
    if is_secret_param_name(k) {
        let m = redacted_marker();
        lemma_first_index_of_at(r, '=', k.len() as int);
        assert(r.take(k.len() as int) =~= k);
        assert(r.skip(k.len() as int + 1) =~= m);
        assert forall|j: int| 0 <= j < r.len() implies r[j] != '&' by {
            if j < k.len() {
                assert(r[j] == k[j]);
            } else if j > k.len() {
                assert(r[j] == m[j - k.len() - 1]);
            }
        }
    } else if v.len() == 0 {
        lemma_first_index_of_at(r, '=', k.len() as int);
        assert(r.take(k.len() as int) =~= k);
    } else {
        lemma_first_index_of_at(r, '=', k.len() as int);
        assert(r.take(k.len() as int) =~= k);
        assert(r.skip(k.len() as int + 1) =~= v);
        assert forall|j: int| 0 <= j < r.len() implies r[j] != '&' by {
            if j < k.len() {
                assert(r[j] == k[j]);
            } else if j > k.len() {
                assert(r[j] == v[j - k.len() - 1]);
            }
        }
    }
}

/// Unfolds one step of a query made of a parameter with no `&`, a `&`, and the rest.
proof fn lemma_query_step(a: Seq<char>, rest: Seq<char>)
    requires
        forall|k: int| 0 <= k < a.len() ==> a[k] != '&',
    ensures
        ({
            let q = a + seq!['&'] + rest;
            &&& first_index_of(q, '&') == a.len()
            &&& q.take(a.len() as int) == a
            &&& q.skip(a.len() as int + 1) == rest
        }),
{
    let q = a + seq!['&'] + rest;
    lemma_first_index_of_at(q, '&', a.len() as int);
    assert(q.take(a.len() as int) =~= a);
    assert(q.skip(a.len() as int + 1) =~= rest);
}

proof fn lemma_redact_query(q: Seq<char>)
    ensures
        redact_query(redact_query(q)) == redact_query(q),
        query_params(redact_query(q)) == query_params(q).map_values(|p: Seq<char>| redact_param(p)),
        forall|i: int| 0 <= i < query_params(q).len() ==> lacks(#[trigger] query_params(q)[i], '&'),
    decreases q.len(),
{
    let i = first_index_of(q, '&');
    lemma_first_index_of(q, '&');
    if i < q.len() {
        let a = q.take(i);
        let rest = q.skip(i + 1);
        lemma_redact_param(a);
        lemma_redact_query(rest);
        let ra = redact_param(a);
        lemma_query_step(ra, redact_query(rest));
        assert(query_params(redact_query(q)) =~= seq![ra] + query_params(redact_query(rest)));
        assert(query_params(q).map_values(|p: Seq<char>| redact_param(p)) =~= seq![ra]
            + query_params(rest).map_values(|p: Seq<char>| redact_param(p)));
        assert forall|j: int| 0 <= j < query_params(q).len() implies lacks(
            #[trigger] query_params(q)[j],
            '&',
        ) by {
            if j > 0 {
                assert(query_params(q)[j] == query_params(rest)[j - 1]);
            }
        }
    } else {
        lemma_redact_param(q);
        let r = redact_param(q);
        lemma_first_index_of_at(r, '&', r.len() as int);
    }
}

/// Law: redacting a URL twice gives what redacting it once gives.
pub proof fn law_redact_url_idempotent(u: Seq<char>)
    ensures
        redact_url(redact_url(u)) == redact_url(u),
{
    let q = first_index_of(u, '?');
    lemma_first_index_of(u, '?');
    if q < u.len() {
        let r = redact_url(u);
        let rq = redact_query(u.skip(q + 1));
        lemma_redact_query(u.skip(q + 1));
        lemma_first_index_of_at(r, '?', q);
        assert(r.take(q + 1) =~= u.take(q + 1));
        assert(r.skip(q + 1) =~= rq);
    }
}

/// Law: the redacted query has one parameter for each parameter of the original query,
/// in order, each of them redacted on its own.
pub proof fn law_redact_query_params(q: Seq<char>)
    ensures
        query_params(redact_query(q)) == query_params(q).map_values(|p: Seq<char>| redact_param(p)),
{
    lemma_redact_query(q);
}

/// Law: in a redacted query, every parameter whose name is a credential name has the
/// marker as its value.
pub proof fn law_no_secret_survives(q: Seq<char>)
    ensures
        forall|i: int|
            0 <= i < query_params(redact_query(q)).len() && is_secret_param_name(
                param_key(#[trigger] query_params(redact_query(q))[i]),
            ) ==> param_value(query_params(redact_query(q))[i]) == redacted_marker(),
{
    lemma_redact_query(q);
    assert forall|i: int|
        0 <= i < query_params(redact_query(q)).len() && is_secret_param_name(
            param_key(#[trigger] query_params(redact_query(q))[i]),
        ) implies param_value(query_params(redact_query(q))[i]) == redacted_marker() by {
        let p = query_params(q)[i];
        lemma_redact_param(p);
    }
}

/// Two query parameters that differ at most in a credential value: they are equal, or they
/// have the same name and it is a credential name.
pub open spec fn params_differ_in_secret_only(p1: Seq<char>, p2: Seq<char>) -> bool {
    p1 == p2 || (param_key(p1) == param_key(p2) && is_secret_param_name(param_key(p1)))
}

/// Two query strings with parameters in the same places that differ at most in credential
/// values.
pub open spec fn queries_differ_in_secrets_only(q1: Seq<char>, q2: Seq<char>) -> bool {
    let a = query_params(q1);
    let b = query_params(q2);
    &&& a.len() == b.len()
    &&& forall|i: int| 0 <= i < a.len() ==> params_differ_in_secret_only(#[trigger] a[i], b[i])
}

/// Two URLs that agree up to and including their first `?` and whose queries differ at most
/// in credential values; two URLs without `?` that are equal.
pub open spec fn urls_differ_in_secrets_only(u1: Seq<char>, u2: Seq<char>) -> bool {
    let i1 = first_index_of(u1, '?');
    let i2 = first_index_of(u2, '?');
    if i1 < u1.len() {
        &&& i2 < u2.len()
        &&& u1.take(i1 + 1) == u2.take(i2 + 1)
        &&& queries_differ_in_secrets_only(u1.skip(i1 + 1), u2.skip(i2 + 1))
    } else {
        u1 == u2
    }
}

proof fn lemma_query_params_len(q: Seq<char>)
    ensures
        query_params(q).len() >= 1,
        first_index_of(q, '&') < q.len() ==> query_params(q).len() >= 2,
        first_index_of(q, '&') >= q.len() ==> query_params(q) == seq![q],
    decreases q.len(),
{
    lemma_first_index_of(q, '&');
    let i = first_index_of(q, '&');
    if i < q.len() {
        lemma_query_params_len(q.skip(i + 1));
    }
}

/// Law: a redacted query does not depend on credential values: two queries that differ
/// only there redact to the same text.
pub proof fn law_query_secrets_do_not_flow(q1: Seq<char>, q2: Seq<char>)
    requires
        queries_differ_in_secrets_only(q1, q2),
    ensures
        redact_query(q1) == redact_query(q2),
    decreases q1.len(),
{
    let i1 = first_index_of(q1, '&');
    let i2 = first_index_of(q2, '&');
    lemma_first_index_of(q1, '&');
    lemma_first_index_of(q2, '&');
    lemma_query_params_len(q1);
    lemma_query_params_len(q2);
    let a = query_params(q1);
    let b = query_params(q2);
    assert(params_differ_in_secret_only(a[0], b[0]));
    if i1 < q1.len() {
        let r1 = q1.skip(i1 + 1);
        let r2 = q2.skip(i2 + 1);
        lemma_query_params_len(r1);
        assert(a == seq![q1.take(i1)] + query_params(r1));
        assert(b == seq![q2.take(i2)] + query_params(r2));
        assert forall|j: int| 0 <= j < query_params(r1).len() implies params_differ_in_secret_only(
            #[trigger] query_params(r1)[j],
            query_params(r2)[j],
        ) by {
            assert(a[j + 1] == query_params(r1)[j]);
            assert(b[j + 1] == query_params(r2)[j]);
        }
        law_query_secrets_do_not_flow(r1, r2);
    }
}

/// Law: a redacted URL does not depend on credential values: two URLs that differ only in
/// the values of credential query parameters redact to the same text.
pub proof fn law_url_secrets_do_not_flow(u1: Seq<char>, u2: Seq<char>)
    requires
        urls_differ_in_secrets_only(u1, u2),
    ensures
        redact_url(u1) == redact_url(u2),
{
    let i1 = first_index_of(u1, '?');
    if i1 < u1.len() {
        let i2 = first_index_of(u2, '?');
        law_query_secrets_do_not_flow(u1.skip(i1 + 1), u2.skip(i2 + 1));
    }
}

/// The query parameter names whose values a report masks: `token`, `access_token`,
/// `api_key`, `apikey`, `key`, `signature`, `sig`, `auth` and `auth_token`, each in any mix
/// of ASCII cases.
pub open spec fn is_listed_credential_param(k: Seq<char>) -> bool {
    ||| same_name_any_case(k, seq!['t', 'o', 'k', 'e', 'n'])
    ||| same_name_any_case(
        k,
        seq!['a', 'c', 'c', 'e', 's', 's', '_', 't', 'o', 'k', 'e', 'n'],
    )
    ||| same_name_any_case(k, seq!['a', 'p', 'i', '_', 'k', 'e', 'y'])
    ||| same_name_any_case(k, seq!['a', 'p', 'i', 'k', 'e', 'y'])
    ||| same_name_any_case(k, seq!['k', 'e', 'y'])
    ||| same_name_any_case(k, seq!['s', 'i', 'g', 'n', 'a', 't', 'u', 'r', 'e'])
    ||| same_name_any_case(k, seq!['s', 'i', 'g'])
    ||| same_name_any_case(k, seq!['a', 'u', 't', 'h'])
    ||| same_name_any_case(k, seq!['a', 'u', 't', 'h', '_', 't', 'o', 'k', 'e', 'n'])
}

proof fn lemma_listed_param_is_secret(k: Seq<char>)
    ensures
        is_listed_credential_param(k) == is_secret_param_name(k),
        is_secret_param_name(k) ==> lacks(k, '&') && lacks(k, '='),
{
    reveal_strlit("token");
    reveal_strlit("access_token");
    reveal_strlit("api_key");
    reveal_strlit("apikey");
    reveal_strlit("key");
    reveal_strlit("signature");
    reveal_strlit("sig");
    reveal_strlit("auth");
    reveal_strlit("auth_token");
    assert("token"@ =~= seq!['t', 'o', 'k', 'e', 'n']);
    assert("access_token"@ =~= seq!['a', 'c', 'c', 'e', 's', 's', '_', 't', 'o', 'k', 'e', 'n']);
    assert("api_key"@ =~= seq!['a', 'p', 'i', '_', 'k', 'e', 'y']);
    assert("apikey"@ =~= seq!['a', 'p', 'i', 'k', 'e', 'y']);
    assert("key"@ =~= seq!['k', 'e', 'y']);
    assert("signature"@ =~= seq!['s', 'i', 'g', 'n', 'a', 't', 'u', 'r', 'e']);
    assert("sig"@ =~= seq!['s', 'i', 'g']);
    assert("auth"@ =~= seq!['a', 'u', 't', 'h']);
    assert("auth_token"@ =~= seq!['a', 'u', 't', 'h', '_', 't', 'o', 'k', 'e', 'n']);
    lemma_lower_is_name(k, "token"@);
    lemma_lower_is_name(k, "access_token"@);
    lemma_lower_is_name(k, "api_key"@);
    lemma_lower_is_name(k, "apikey"@);
    lemma_lower_is_name(k, "key"@);
    lemma_lower_is_name(k, "signature"@);
    lemma_lower_is_name(k, "sig"@);
    lemma_lower_is_name(k, "auth"@);
    lemma_lower_is_name(k, "auth_token"@);
    if is_secret_param_name(k) {
        let l = ascii_lower(k);
        assert forall|i: int| 0 <= i < k.len() implies k[i] != '&' && k[i] != '=' by {
            assert(l[i] == crate::text::ascii_lower_char(k[i]));
        }
    }
}

/// A URL with no `?` before its query, holding one parameter `k=v` whose value has no `&`.
pub open spec fn url_with_param(u: Seq<char>, k: Seq<char>, v: Seq<char>) -> Seq<char> {
    u + seq!['?'] + k + seq!['='] + v
}

proof fn lemma_url_with_param(u: Seq<char>, k: Seq<char>, v: Seq<char>)
    requires
        lacks(u, '?'),
        lacks(k, '&'),
        lacks(k, '='),
        lacks(v, '&'),
    ensures
        redact_url(url_with_param(u, k, v)) == u + seq!['?'] + redact_param(k + seq!['='] + v),
        param_key(k + seq!['='] + v) == k,
        param_value(k + seq!['='] + v) == v,
{
    let url = url_with_param(u, k, v);
    let p = k + seq!['='] + v;
    lemma_first_index_of_at(url, '?', u.len() as int);
    assert(url.take(u.len() as int + 1) =~= u + seq!['?']);
    assert(url.skip(u.len() as int + 1) =~= p);
    lemma_first_index_of_at(p, '&', p.len() as int);
    lemma_first_index_of_at(p, '=', k.len() as int);
    assert(p.take(k.len() as int) =~= k);
    assert(p.skip(k.len() as int + 1) =~= v);
}

/// Law: every listed credential parameter is masked: its value in the redacted URL is
/// `***redacted***`, whatever it was.
pub proof fn law_credential_params_masked(u: Seq<char>, k: Seq<char>, v: Seq<char>)
    requires
        lacks(u, '?'),
        lacks(v, '&'),
        is_listed_credential_param(k),
    ensures
        redact_url(url_with_param(u, k, v)) == u + seq!['?'] + k + "=***redacted***"@,
{
    lemma_listed_param_is_secret(k);
    lemma_url_with_param(u, k, v);
    reveal_strlit("***redacted***");
    reveal_strlit("=***redacted***");
    assert(k + seq!['='] + redacted_marker() =~= k + "=***redacted***"@);
    assert(u + seq!['?'] + (k + "=***redacted***"@) =~= u + seq!['?'] + k + "=***redacted***"@);
}

/// Law: a parameter whose name is not listed, and whose value is not empty, is kept as it
/// is.
pub proof fn law_other_params_kept(u: Seq<char>, k: Seq<char>, v: Seq<char>)
    requires
        lacks(u, '?'),
        lacks(k, '&'),
        lacks(k, '='),
        lacks(v, '&'),
        v.len() > 0,
        !is_listed_credential_param(k),
    ensures
        redact_url(url_with_param(u, k, v)) == url_with_param(u, k, v),
{
    lemma_listed_param_is_secret(k);
    lemma_url_with_param(u, k, v);
    assert(u + seq!['?'] + (k + seq!['='] + v) =~= url_with_param(u, k, v));
}

/// Law: a URL with no `?` has no query and is kept as it is.
pub proof fn law_url_without_query_kept(u: Seq<char>)
    requires
        lacks(u, '?'),
    ensures
        redact_url(u) == u,
{
    lemma_first_index_of_at(u, '?', u.len() as int);
}

/// Law: a parameter whose name is not listed and whose value is empty is reported as its
/// bare name, with or without the `=` it had.
pub proof fn law_empty_value_shows_name(u: Seq<char>, k: Seq<char>)
    requires
        lacks(u, '?'),
        lacks(k, '&'),
        lacks(k, '='),
        !is_listed_credential_param(k),
    ensures
        redact_url(url_with_param(u, k, Seq::empty())) == u + seq!['?'] + k,
        redact_url(u + seq!['?'] + k) == u + seq!['?'] + k,
{
    lemma_listed_param_is_secret(k);
    lemma_url_with_param(u, k, Seq::empty());
    let url = u + seq!['?'] + k;
    lemma_first_index_of_at(url, '?', u.len() as int);
    assert(url.take(u.len() as int + 1) =~= u + seq!['?']);
    assert(url.skip(u.len() as int + 1) =~= k);
    lemma_first_index_of_at(k, '&', k.len() as int);
    lemma_first_index_of_at(k, '=', k.len() as int);
    assert(k.take(k.len() as int) =~= k);
}

/// Law: the parameters of a query are redacted one by one: the redacted URL with a first
/// parameter `p` and a rest `q` is the redacted URL with `p` alone, a `&`, and the redacted
/// query of the URL with `q` alone.
pub proof fn law_params_redacted_one_by_one(u: Seq<char>, p: Seq<char>, q: Seq<char>)
    requires
        lacks(u, '?'),
        lacks(p, '&'),
    ensures
        redact_url(u + seq!['?'] + p + seq!['&'] + q) == redact_url(u + seq!['?'] + p)
            + seq!['&'] + redact_url(u + seq!['?'] + q).skip(u.len() as int + 1),
{
    let a = u + seq!['?'] + p + seq!['&'] + q;
    let b = u + seq!['?'] + p;
    let c = u + seq!['?'] + q;
    let n = u.len() as int;
    lemma_first_index_of_at(a, '?', n);
    lemma_first_index_of_at(b, '?', n);
    lemma_first_index_of_at(c, '?', n);
    assert(a.take(n + 1) =~= u + seq!['?']);
    assert(b.take(n + 1) =~= u + seq!['?']);
    assert(c.take(n + 1) =~= u + seq!['?']);
    assert(a.skip(n + 1) =~= p + seq!['&'] + q);
    assert(b.skip(n + 1) =~= p);
    assert(c.skip(n + 1) =~= q);
    lemma_query_step(p, q);
    lemma_first_index_of_at(p, '&', p.len() as int);
    assert(redact_url(c).skip(n + 1) =~= redact_query(q));
    assert(redact_url(a) =~= redact_url(b) + seq!['&'] + redact_query(q));
}

} // verus!
