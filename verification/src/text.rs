use vstd::prelude::*;

verus! {

broadcast use vstd::std_specs::iter::group_iter_axioms;

/// ASCII lower-casing of one character: `'A'..='Z'` map to `'a'..='z'`, every
/// other character is kept.
pub open spec fn ascii_lower_char(c: char) -> char {
    if 'A' <= c && c <= 'Z' {
        ((c as u32) + 32) as char
    } else {
        c
    }
}

/// ASCII lower-casing of a whole text, character by character.
pub open spec fn ascii_lower(s: Seq<char>) -> Seq<char> {
    s.map_values(|c: char| ascii_lower_char(c))
}

/// ASCII lower-casing of one character.
fn lower_char(c: char) -> (r: char)
    ensures
        r == ascii_lower_char(c),
{
    if 'A' <= c && c <= 'Z' {
        let b: u8 = (c as u8) + 32;
        b as char
    } else {
        c
    }
}

/// The ASCII lower case of a text: `'A'` to `'Z'` become `'a'` to `'z'`, every other
/// character stays as it is.
pub(crate) fn to_ascii_lowercase(s: &str) -> (r: String)
    ensures
        r@ == ascii_lower(s@),
{
    let cs = chars_of(s);
    let mut r = String::new();
    for i in 0..cs.len()
        invariant
            cs@ == s@,
            r@ == ascii_lower(s@.take(i as int)),
    {
        let l = lower_char(cs[i]);
        push_char(&mut r, l);
        assert(ascii_lower(s@.take(i + 1)) =~= ascii_lower(s@.take(i as int)).push(l));
    }
    assert(s@.take(cs.len() as int) =~= s@);
    r
}

/// `String::push`: appends one character at the end of the string.
#[verifier::external_body]
pub(crate) fn push_char(s: &mut String, c: char)
    ensures
        final(s)@ == old(s)@.push(c),
{
    s.push(c)
}

/// The characters of `s`, in order.
pub fn chars_of(s: &str) -> (v: Vec<char>)
    ensures
        v@ == s@,
{
    let mut v: Vec<char> = Vec::new();
    assert(s@.take(s@.len() as int) =~= s@);
    for c in it: s.chars()
        invariant
            it.seq() == s@,
            v@ == s@.take(it.index()),
    {
        v.push(c);
        assert(s@.take(it.index() + 1) =~= s@.take(it.index()).push(c));
    }
    v
}

} // verus!

verus! {

/// `c` does not occur in `s`.
pub open spec fn lacks(s: Seq<char>, c: char) -> bool {
    forall|k: int| 0 <= k < s.len() ==> s[k] != c
}

/// Position of the first `c` in `s`, or `s.len()` when `c` does not occur in `s`.
pub open spec fn first_index_of(s: Seq<char>, c: char) -> int
    decreases s.len(),
{
    if s.len() == 0 {
        0
    } else if s[0] == c {
        0
    } else {
        1 + first_index_of(s.drop_first(), c)
    }
}

/// What `first_index_of` is: no `c` before it, and `c` at it unless it is the end.
pub proof fn lemma_first_index_of(s: Seq<char>, c: char)
    ensures
        0 <= first_index_of(s, c) <= s.len(),
        forall|k: int| 0 <= k < first_index_of(s, c) ==> s[k] != c,
        first_index_of(s, c) < s.len() ==> s[first_index_of(s, c) as int] == c,
    decreases s.len(),
{
    if s.len() > 0 && s[0] != c {
        lemma_first_index_of(s.drop_first(), c);
        assert forall|k: int| 0 <= k < first_index_of(s, c) implies s[k] != c by {
            if k > 0 {
                assert(s[k] == s.drop_first()[k - 1]);
            }
        }
    }
}

/// A position with no `c` before it that holds `c` (or is the end) is the first one.
pub proof fn lemma_first_index_of_at(s: Seq<char>, c: char, j: int)
    requires
        0 <= j <= s.len(),
        j < s.len() ==> s[j] == c,
        forall|k: int| 0 <= k < j ==> s[k] != c,
    ensures
        first_index_of(s, c) == j,
{
    lemma_first_index_of(s, c);
}

/// `k` spells `name` with any of its lower-case ASCII letters written in upper case.
pub open spec fn same_name_any_case(k: Seq<char>, name: Seq<char>) -> bool {
    &&& k.len() == name.len()
    &&& forall|i: int|
        0 <= i < k.len() ==> (#[trigger] k[i] == name[i] || ('a' <= name[i] && name[i] <= 'z'
            && (k[i] as u32) + 32 == name[i] as u32))
}

proof fn lemma_char_between(c: char, lo: char, hi: char)
    requires
        (lo as u32) <= (c as u32) <= (hi as u32),
    ensures
        lo <= c && c <= hi,
{
}

/// For a name with no upper-case ASCII letter, ASCII lower-casing a text gives that name
/// exactly when the text spells it in some mix of cases.
pub proof fn lemma_lower_is_name(k: Seq<char>, name: Seq<char>)
    requires
        forall|i: int| 0 <= i < name.len() ==> !('A' <= #[trigger] name[i] && name[i] <= 'Z'),
    ensures
        (ascii_lower(k) == name) == same_name_any_case(k, name),
{
    if ascii_lower(k) == name {
        assert forall|i: int| 0 <= i < k.len() implies (#[trigger] k[i] == name[i] || ('a'
            <= name[i] && name[i] <= 'z' && (k[i] as u32) + 32 == name[i] as u32)) by {
            assert(ascii_lower(k)[i] == ascii_lower_char(k[i]));
        }
    }
    if same_name_any_case(k, name) {
        assert forall|i: int| 0 <= i < k.len() implies ascii_lower(k)[i] == name[i] by {
            let c = k[i];
            if c != name[i] {
                let n = name[i];
                assert((c as u32) + 32 == n as u32);
                assert('a' <= n && n <= 'z');
                assert(('a' as u32) <= (n as u32) && (n as u32) <= ('z' as u32));
                assert(('a' as u32) == 97 && ('z' as u32) == 122);
                lemma_char_between(c, 'A', 'Z');
                assert(((c as u32) + 32) as char == name[i]);
            } else {
                assert(!('A' <= c && c <= 'Z'));
            }
        }
        assert(ascii_lower(k) =~= name);
    }
}

} // verus!
