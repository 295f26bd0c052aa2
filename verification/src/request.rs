use vstd::prelude::*;
use crate::config::Config;

verus! {

/// What `str::to_uppercase` returns: the Unicode upper-case mapping of every character
/// (which may change the length, as `'ß'` becomes `"SS"`).
pub uninterp spec fn unicode_uppercase(s: Seq<char>) -> Seq<char>;

/// ASCII upper-casing of one character: `'a'..='z'` map to `'A'..='Z'`, every other
/// character is kept.
pub open spec fn ascii_upper_char(c: char) -> char {
    if 'a' <= c && c <= 'z' {
        ((c as u32) - 32) as char
    } else {
        c
    }
}

/// Whether every character of a text is ASCII.
pub open spec fn is_ascii_text(s: Seq<char>) -> bool {
    forall|i: int| 0 <= i < s.len() ==> (s[i] as u32) < 128
}

/// `str::to_uppercase`. Its documentation sends those who want ASCII characters
/// uppercased along with the others to it (see `str::to_ascii_uppercase`), and Unicode maps
/// `'a'..='z'` to `'A'..='Z'` and keeps every other ASCII character; so an ASCII text is
/// upper-cased character by character. Beyond ASCII the result is only named.
#[verifier::external_body]
pub(crate) fn to_uppercase(s: &str) -> (r: String)
    ensures
        r@ == unicode_uppercase(s@),
        is_ascii_text(s@) ==> r@ == s@.map_values(|c: char| ascii_upper_char(c)),
{
    s.to_uppercase()
}

/// The characters that `HeaderName::from_bytes` accepts in a header name: the token
/// characters of HTTP, letters of either case included.
pub open spec fn is_token_char(c: char) -> bool {
    ||| ('0' <= c && c <= '9')
    ||| ('a' <= c && c <= 'z')
    ||| ('A' <= c && c <= 'Z')
    ||| c == '!' || c == '#' || c == '$' || c == '%' || c == '&' || c == '\''
    ||| c == '*' || c == '+' || c == '-' || c == '.' || c == '^' || c == '_'
    ||| c == '`' || c == '|' || c == '~'
}

/// Law: the token characters are the ASCII letters and digits and the fifteen marks that
/// HTTP allows in a token (! # $ % & ' * + - . ^ _ ` | ~), and nothing else.
pub proof fn law_token_chars(c: char)
    ensures
        is_token_char(c) <==> (('0' <= c && c <= '9') || ('a' <= c && c <= 'z') || ('A' <= c
            && c <= 'Z') || "!#$%&'*+-.^_`|~"@.contains(c)),
{
    reveal_strlit("!#$%&'*+-.^_`|~");
    let marks = "!#$%&'*+-.^_`|~"@;
    assert(marks.len() == 15);
    if marks.contains(c) {
        let i = choose|i: int| 0 <= i < marks.len() && marks[i] == c;
        assert(0 <= i < 15);
    }
    if c == '!' { assert(marks[0] == c); }
    if c == '#' { assert(marks[1] == c); }
    if c == '$' { assert(marks[2] == c); }
    if c == '%' { assert(marks[3] == c); }
    if c == '&' { assert(marks[4] == c); }
    if c == '\'' { assert(marks[5] == c); }
    if c == '*' { assert(marks[6] == c); }
    if c == '+' { assert(marks[7] == c); }
    if c == '-' { assert(marks[8] == c); }
    if c == '.' { assert(marks[9] == c); }
    if c == '^' { assert(marks[10] == c); }
    if c == '_' { assert(marks[11] == c); }
    if c == '`' { assert(marks[12] == c); }
    if c == '|' { assert(marks[13] == c); }
    if c == '~' { assert(marks[14] == c); }
}

/// A text that is a valid HTTP header name: 1 to 65535 token characters.
pub open spec fn is_header_name(name: Seq<char>) -> bool {
    &&& 0 < name.len() <= 65535
    &&& forall|i: int| 0 <= i < name.len() ==> is_token_char(#[trigger] name[i])
}

/// `HeaderName::from_bytes` (of the `http` crate, re-exported by `reqwest`) on the UTF-8
/// bytes of `name`: its source accepts 1 to 65535 bytes that its table maps to a token
/// character, and every byte of a non-ASCII character maps to none.
#[verifier::external_body]
pub(crate) fn header_name_is_valid(name: &str) -> (r: bool)
    ensures
        r == is_header_name(name@),
{
    reqwest::header::HeaderName::from_bytes(name.as_bytes()).is_ok()
}

/// The HTTP methods a load test can send.
#[derive(Debug, Clone, Copy, PartialEq, Eq)]
pub enum HttpMethod {
    Get,
    Post,
}

/// Why a request cannot be built from a configuration.
#[derive(Debug, Clone, PartialEq, Eq)]
pub enum RequestError {
    /// The method, upper-cased, is neither `GET` nor `POST`.
    UnsupportedMethod(String),
}

/// The method named by an upper-cased method text.
pub fn method_from_upper(up: &str) -> (r: Result<HttpMethod, RequestError>)
    ensures
        up@ == "GET"@ ==> r == Ok::<HttpMethod, RequestError>(HttpMethod::Get),
        up@ == "POST"@ ==> r == Ok::<HttpMethod, RequestError>(HttpMethod::Post),
        up@ != "GET"@ && up@ != "POST"@ ==> (r matches Err(RequestError::UnsupportedMethod(s))
            && s@ == up@),
{
    proof {
        reveal_strlit("GET");
        reveal_strlit("POST");
        assert("GET"@.len() == 3);
        assert("POST"@.len() == 4);
        assert("GET"@ != "POST"@);
    }
    let s = String::from_str(up);
    if s == String::from_str("GET") {
        Ok(HttpMethod::Get)
    } else if s == String::from_str("POST") {
        Ok(HttpMethod::Post)
    } else {
        Err(RequestError::UnsupportedMethod(s))
    }
}

/// The method named by a method text in any case: `GET` or `POST` once upper-cased.
pub fn parse_method(method: &str) -> (r: Result<HttpMethod, RequestError>)
    ensures
        is_ascii_text(method@) ==> unicode_uppercase(method@) == method@.map_values(
            |c: char| ascii_upper_char(c),
        ),
        unicode_uppercase(method@) == "GET"@ ==> r == Ok::<HttpMethod, RequestError>(
            HttpMethod::Get,
        ),
        unicode_uppercase(method@) == "POST"@ ==> r == Ok::<HttpMethod, RequestError>(
            HttpMethod::Post,
        ),
        unicode_uppercase(method@) != "GET"@ && unicode_uppercase(method@) != "POST"@ ==> (
        r matches Err(RequestError::UnsupportedMethod(s)) && s@ == unicode_uppercase(method@)),
{
    let up = to_uppercase(method);
    method_from_upper(up.as_str())
}

/// The headers whose names are valid HTTP header names, in order.
pub open spec fn valid_headers(h: Seq<(Seq<char>, Seq<char>)>) -> Seq<(Seq<char>, Seq<char>)>
    decreases h.len(),
{
    if h.len() == 0 {
        Seq::empty()
    } else if is_header_name(h.last().0) {
        valid_headers(h.drop_last()).push(h.last())
    } else {
        valid_headers(h.drop_last())
    }
}

/// Law: the headers kept are exactly the configured headers whose names are valid header
/// names, in the configured order; so every such header is kept, and no other.
pub proof fn law_valid_headers_filter(h: Seq<(Seq<char>, Seq<char>)>)
    ensures
        valid_headers(h) == h.filter(|p: (Seq<char>, Seq<char>)| is_header_name(p.0)),
        forall|i: int|
            0 <= i < h.len() && is_header_name(h[i].0) ==> valid_headers(h).contains(#[trigger] h[i]),
        forall|i: int|
            0 <= i < valid_headers(h).len() ==> is_header_name(#[trigger] valid_headers(h)[i].0)
                && h.contains(valid_headers(h)[i]),
    decreases h.len(),
{
    let pred = |p: (Seq<char>, Seq<char>)| is_header_name(p.0);
    if h.len() > 0 {
        law_valid_headers_filter(h.drop_last());
        reveal_with_fuel(Seq::filter, 1);
        assert(h.filter(pred) == (if pred(h.last()) {
            h.drop_last().filter(pred).push(h.last())
        } else {
            h.drop_last().filter(pred)
        }));
    } else {
        assert(h.filter(pred) =~= Seq::<(Seq<char>, Seq<char>)>::empty());
    }
    assert(valid_headers(h) =~= h.filter(pred));
    assert forall|i: int| 0 <= i < h.len() && is_header_name(h[i].0) implies valid_headers(
        h,
    ).contains(#[trigger] h[i]) by {
        h.lemma_filter_contains(pred, i);
    }
    assert forall|i: int| 0 <= i < valid_headers(h).len() implies is_header_name(
        #[trigger] valid_headers(h)[i].0,
    ) && h.contains(valid_headers(h)[i]) by {
        h.lemma_filter_pred(pred, i);
        h.lemma_filter_contains_rev(pred, valid_headers(h)[i]);
    }
}

/// Everything a worker needs to send its requests.
#[derive(Clone)]
pub struct RequestSpec {
    pub url: String,
    pub method: HttpMethod,
    pub headers: Vec<(String, String)>,
    pub payload: Option<Vec<u8>>,
}

/// Builds the request of a load test from its configuration and the content of its payload
/// file (read by the caller): the method must be `GET` or `POST` in any case, headers whose
/// names are not valid header names are left out.
pub fn build_request_spec(cfg: &Config, payload: Option<Vec<u8>>) -> (r: Result<
    RequestSpec,
    RequestError,
>)
    ensures
        unicode_uppercase(cfg.method@) != "GET"@ && unicode_uppercase(cfg.method@) != "POST"@
            ==> (r matches Err(RequestError::UnsupportedMethod(s)) && s@ == unicode_uppercase(
            cfg.method@,
        )),
        unicode_uppercase(cfg.method@) == "GET"@ || unicode_uppercase(cfg.method@) == "POST"@
            ==> r is Ok,
        r matches Ok(spec) ==> {
            &&& spec.url@ == cfg.target_url@
            &&& (unicode_uppercase(cfg.method@) == "GET"@ ==> spec.method == HttpMethod::Get)
            &&& (unicode_uppercase(cfg.method@) == "POST"@ ==> spec.method == HttpMethod::Post)
            &&& crate::config::headers_view(spec.headers@) == valid_headers(
                crate::config::headers_view(cfg.headers@),
            )
            &&& spec.payload == payload
        },
{
    let method = match parse_method(cfg.method.as_str()) {
        Ok(m) => m,
        Err(e) => return Err(e),
    };
    let mut headers: Vec<(String, String)> = Vec::new();
    let ghost hv = crate::config::headers_view(cfg.headers@);
    for i in 0..cfg.headers.len()
        invariant
            hv == crate::config::headers_view(cfg.headers@),
            crate::config::headers_view(headers@) == valid_headers(hv.take(i as int)),
    {
        proof {
            assert(hv.take(i + 1).drop_last() =~= hv.take(i as int));
            assert(hv.take(i + 1).last() == hv[i as int]);
        }
        if header_name_is_valid(cfg.headers[i].0.as_str()) {
            let ghost before = headers@;
            headers.push((cfg.headers[i].0.clone(), cfg.headers[i].1.clone()));
            assert(crate::config::headers_view(headers@) =~= crate::config::headers_view(
                before,
            ).push(hv[i as int]));
        }
    }
    assert(hv.take(cfg.headers.len() as int) =~= hv);
    Ok(RequestSpec { url: cfg.target_url.clone(), method, headers, payload })
}

} // verus!
