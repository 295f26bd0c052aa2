use vstd::prelude::*;
use crate::text::chars_of;

verus! {

/// `a` comes strictly before `b` in the order of `str`: lexicographic by code point, a
/// proper prefix first.
pub open spec fn text_lt(a: Seq<char>, b: Seq<char>) -> bool {
    exists|i: int| #[trigger] text_lt_at(a, b, i)
}

/// `a` and `b` agree before position `i`, and at `i` either `a` ends while `b` goes on or
/// `a` holds the smaller character.
pub open spec fn text_lt_at(a: Seq<char>, b: Seq<char>, i: int) -> bool {
    &&& 0 <= i <= a.len()
    &&& i <= b.len()
    &&& a.take(i) == b.take(i)
    &&& ((i == a.len() && i < b.len()) || (i < a.len() && i < b.len() && (a[i] as int) < (
        b[i] as int)))
}

proof fn lemma_text_lt_irreflexive(a: Seq<char>)
    ensures
        !text_lt(a, a),
{
}

proof fn lemma_text_lt_transitive(a: Seq<char>, b: Seq<char>, c: Seq<char>)
    requires
        text_lt(a, b),
        text_lt(b, c),
    ensures
        text_lt(a, c),
{
    let i = choose|i: int| text_lt_at(a, b, i);
    let j = choose|j: int| text_lt_at(b, c, j);
    if i < j {
        assert(a.take(i) =~= c.take(i)) by {
            assert forall|k: int| 0 <= k < i implies a.take(i)[k] == c.take(i)[k] by {
                assert(a.take(i)[k] == b.take(i)[k]);
                assert(b.take(j)[k] == c.take(j)[k]);
            }
        }
        if i < a.len() {
            assert(b.take(j)[i] == c.take(j)[i]);
        }
        assert(text_lt_at(a, c, i));
    } else if j < i {
        assert(a.take(j) =~= c.take(j)) by {
            assert forall|k: int| 0 <= k < j implies a.take(j)[k] == c.take(j)[k] by {
                assert(a.take(i)[k] == b.take(i)[k]);
                assert(b.take(j)[k] == c.take(j)[k]);
            }
        }
        assert(a.take(i)[j] == b.take(i)[j]);
        assert(text_lt_at(a, c, j));
    } else {
        assert(a.take(i) =~= c.take(i)) by {
            assert forall|k: int| 0 <= k < i implies a.take(i)[k] == c.take(i)[k] by {
                assert(a.take(i)[k] == b.take(i)[k]);
                assert(b.take(j)[k] == c.take(j)[k]);
            }
        }
        assert(text_lt_at(a, c, i));
    }
}

/// Law: the order of texts is the order of `str`: a text comes before every longer text
/// that starts with it, two texts that first differ at some character come in the order of
/// those characters (by code point), and no text comes before itself or before a text that
/// comes before it.
pub proof fn law_text_order(a: Seq<char>, x: Seq<char>, y: Seq<char>, c: char, d: char)
    ensures
        x.len() > 0 ==> text_lt(a, a + x),
        (c as int) < (d as int) ==> text_lt(a.push(c) + x, a.push(d) + y),
        !text_lt(a, a),
        text_lt(a, x) ==> !text_lt(x, a),
{
    let n = a.len() as int;
    if x.len() > 0 {
        assert((a + x).take(n) =~= a.take(n));
        assert(text_lt_at(a, a + x, n));
    }
    if (c as int) < (d as int) {
        let l = a.push(c) + x;
        let r = a.push(d) + y;
        assert(l.take(n) =~= r.take(n));
        assert(l[n] == c && r[n] == d);
        assert(text_lt_at(l, r, n));
    }
    lemma_text_lt_irreflexive(a);
    if text_lt(a, x) && text_lt(x, a) {
        lemma_text_lt_transitive(a, x, a);
    }
}

/// Compares two texts in the order of `str`: negative, zero or positive as `a` comes
/// before, equals or comes after `b`.
pub fn order_texts(a: &str, b: &str) -> (r: i8)
    ensures
        r < 0 <==> text_lt(a@, b@),
        r > 0 <==> text_lt(b@, a@),
        r == 0 <==> a@ == b@,
{
    let x = chars_of(a);
    let y = chars_of(b);
    let mut i: usize = 0;
    while i < x.len() && i < y.len() && x[i] == y[i]
        invariant
            x@ == a@,
            y@ == b@,
            i <= x.len(),
            i <= y.len(),
            a@.take(i as int) == b@.take(i as int),
        decreases x.len() - i,
    {
        assert(a@.take(i + 1) =~= a@.take(i as int).push(a@[i as int]));
        assert(b@.take(i + 1) =~= b@.take(i as int).push(b@[i as int]));
        i += 1;
    }
    proof {
        lemma_text_lt_irreflexive(a@);
        lemma_text_lt_irreflexive(b@);
        if text_lt(a@, b@) && text_lt(b@, a@) {
            lemma_text_lt_transitive(a@, b@, a@);
        }
    }
    if i == x.len() && i == y.len() {
        assert(a@ =~= a@.take(i as int));
        assert(b@ =~= b@.take(i as int));
        0
    } else if i == x.len() {
        assert(text_lt_at(a@, b@, i as int));
        -1
    } else if i == y.len() {
        assert(text_lt_at(b@, a@, i as int));
        1
    } else if x[i] < y[i] {
        assert(text_lt_at(a@, b@, i as int));
        -1
    } else {
        assert(text_lt_at(b@, a@, i as int));
        1
    }
}

/// Counts per transport-error kind, kept in the order of the kind names.
pub struct TransportCounts {
    entries: Vec<(String, u64)>,
}

/// The entries as name/count pairs.
pub open spec fn entries_view(e: Seq<(String, u64)>) -> Seq<(Seq<char>, u64)> {
    e.map_values(|p: (String, u64)| (p.0@, p.1))
}

/// The entries are in strictly increasing order of their names (so no name occurs twice).
pub open spec fn sorted_entries(e: Seq<(Seq<char>, u64)>) -> bool {
    forall|i: int, j: int| 0 <= i < j < e.len() ==> text_lt(e[i].0, e[j].0)
}

/// The counts as a map from kind name to count.
pub open spec fn entries_map(e: Seq<(Seq<char>, u64)>) -> Map<Seq<char>, u64> {
    Map::new(
        |k: Seq<char>| exists|i: int| 0 <= i < e.len() && e[i].0 == k,
        |k: Seq<char>| e[entry_index(e, k)].1,
    )
}

/// A position of the entry named `k`.
pub open spec fn entry_index(e: Seq<(Seq<char>, u64)>, k: Seq<char>) -> int {
    choose|i: int| 0 <= i < e.len() && e[i].0 == k
}

/// The count kept for `k` in a name-to-count map, 0 when `k` is absent.
pub open spec fn kind_count(m: Map<Seq<char>, u64>, k: Seq<char>) -> int {
    if m.contains_key(k) {
        m[k] as int
    } else {
        0
    }
}

/// Two name-to-count maps added name by name.
pub open spec fn sum_kind_counts(a: Map<Seq<char>, u64>, b: Map<Seq<char>, u64>) -> Map<
    Seq<char>,
    u64,
> {
    Map::new(
        |k: Seq<char>| a.contains_key(k) || b.contains_key(k),
        |k: Seq<char>| (kind_count(a, k) + kind_count(b, k)) as u64,
    )
}

proof fn lemma_sorted_unique(e: Seq<(Seq<char>, u64)>, i: int, j: int)
    requires
        sorted_entries(e),
        0 <= i < e.len(),
        0 <= j < e.len(),
        e[i].0 == e[j].0,
    ensures
        i == j,
{
    if i < j {
        assert(text_lt(e[i].0, e[j].0));
        lemma_text_lt_irreflexive(e[i].0);
    } else if j < i {
        assert(text_lt(e[j].0, e[i].0));
        lemma_text_lt_irreflexive(e[i].0);
    }
}

proof fn lemma_entry_lookup(e: Seq<(Seq<char>, u64)>, i: int)
    requires
        sorted_entries(e),
        0 <= i < e.len(),
    ensures
        entries_map(e).contains_key(e[i].0),
        entries_map(e)[e[i].0] == e[i].1,
{
    let k = e[i].0;
    assert(0 <= i < e.len() && e[i].0 == k);
    let j = entry_index(e, k);
    if j != i {
        if j < i {
            assert(text_lt(e[j].0, e[i].0));
        } else {
            assert(text_lt(e[i].0, e[j].0));
        }
        lemma_text_lt_irreflexive(k);
    }
}

impl View for TransportCounts {
    type V = Map<Seq<char>, u64>;

    open spec fn view(&self) -> Map<Seq<char>, u64> {
        self.counts()
    }
}

impl TransportCounts {
    /// The count of every kind, as a map from kind name to count.
    pub closed spec fn counts(&self) -> Map<Seq<char>, u64> {
        entries_map(self.ordered())
    }

    /// The kinds and their counts in the order of the kind names.
    pub closed spec fn ordered(&self) -> Seq<(Seq<char>, u64)> {
        entries_view(self.entries@)
    }

    #[verifier::type_invariant]
    spec fn well_ordered(self) -> bool {
        sorted_entries(entries_view(self.entries@))
    }

    /// No counts at all.
    pub fn new() -> (r: Self)
        ensures
            r@ == Map::<Seq<char>, u64>::empty(),
    {
        let r = TransportCounts { entries: Vec::new() };
        assert(r@ =~= Map::<Seq<char>, u64>::empty());
        r
    }

    /// The number of kinds counted.
    pub fn len(&self) -> (r: usize)
        ensures
            r == self@.len(),
    {
        proof {
            use_type_invariant(self);
            lemma_len_of_sorted(entries_view(self.entries@));
        }
        self.entries.len()
    }

    /// The count of `kind`, if it was ever counted.
    pub fn get(&self, kind: &str) -> (r: Option<u64>)
        ensures
            r == if self@.contains_key(kind@) {
                Some(self@[kind@])
            } else {
                None
            },
    {
        proof {
            use_type_invariant(self);
        }
        let ghost e = entries_view(self.entries@);
        for i in 0..self.entries.len()
            invariant
                e == entries_view(self.entries@),
                sorted_entries(e),
                forall|j: int| 0 <= j < i ==> e[j].0 != kind@,
        {
            if order_texts(self.entries[i].0.as_str(), kind) == 0 {
                proof {
                    lemma_entry_lookup(e, i as int);
                }
                return Some(self.entries[i].1);
            }
        }
        None
    }

    /// The kinds and their counts, in the order of the kind names.
    pub fn entries(&self) -> (r: Vec<(String, u64)>)
        ensures
            entries_view(r@) == self.ordered(),
            sorted_entries(entries_view(r@)),
            entries_map(entries_view(r@)) == self@,
            r@.len() == self@.len(),
    {
        proof {
            use_type_invariant(self);
        }
        let mut r: Vec<(String, u64)> = Vec::new();
        for i in 0..self.entries.len()
            invariant
                entries_view(r@) == entries_view(self.entries@).take(i as int),
        {
            let name = self.entries[i].0.clone();
            let ghost before = r@;
            r.push((name, self.entries[i].1));
            assert(r@ == before.push((name, self.entries@[i as int].1)));
            assert(entries_view(r@) =~= entries_view(before).push(
                (self.entries@[i as int].0@, self.entries@[i as int].1),
            ));
            assert(entries_view(r@) =~= entries_view(self.entries@).take(i + 1));
        }
        assert(entries_view(r@) =~= entries_view(self.entries@));
        proof {
            lemma_len_of_sorted(entries_view(r@));
        }
        r
    }

    /// Adds every count of `other` to the count of the same kind here.
    pub fn add_all(&mut self, other: &TransportCounts)
        requires
            forall|k: Seq<char>| kind_count(old(self)@, k) + kind_count(other@, k) <= u64::MAX,
        ensures
            final(self)@ == sum_kind_counts(old(self)@, other@),
    {
        let list = other.entries();
        let ghost s0 = self@;
        let ghost l = entries_view(list@);
        proof {
            assert(entries_map(l.take(0)) =~= Map::<Seq<char>, u64>::empty());
            assert(s0 =~= sum_kind_counts(s0, Map::<Seq<char>, u64>::empty()));
        }
        for i in 0..list.len()
            invariant
                l == entries_view(list@),
                sorted_entries(l),
                entries_map(l) == other@,
                forall|k: Seq<char>| kind_count(s0, k) + kind_count(other@, k) <= u64::MAX,
                self@ == sum_kind_counts(s0, entries_map(l.take(i as int))),
        {
            let ghost k = l[i as int].0;
            let ghost before = self@;
            let ghost done = entries_map(l.take(i as int));
            proof {
                assert(sorted_entries(l.take(i as int)));
                assert(sorted_entries(l.take(i + 1)));
                assert(l.take(i + 1) =~= l.take(i as int).insert(i as int, l[i as int]));
                lemma_map_insert(l.take(i as int), i as int, k, l[i as int].1);
                assert(!done.contains_key(k)) by {
                    if done.contains_key(k) {
                        let j = choose|j: int| 0 <= j < i && l.take(i as int)[j].0 == k;
                        assert(text_lt(l[j].0, l[i as int].0));
                        lemma_text_lt_irreflexive(k);
                    }
                }
                lemma_entry_lookup(l, i as int);
                assert(kind_count(before, k) == kind_count(s0, k));
            }
            self.add_count(list[i].0.as_str(), list[i].1);
            proof {
                assert(self@ =~= sum_kind_counts(s0, entries_map(l.take(i + 1))));
            }
        }
        proof {
            assert(l.take(l.len() as int) =~= l);
        }
    }

    /// Adds `by` to the count of `kind`, which starts at 0 when the kind is new.
    pub fn add_count(&mut self, kind: &str, by: u64)
        requires
            kind_count(old(self)@, kind@) + by <= u64::MAX,
        ensures
            final(self)@ == old(self)@.insert(kind@, (kind_count(old(self)@, kind@) + by) as u64),
    {
        proof {
            use_type_invariant(&*self);
        }
        let mut entries: Vec<(String, u64)> = Vec::new();
        std::mem::swap(&mut entries, &mut self.entries);
        let ghost e = entries_view(entries@);
        let ghost m = entries_map(e);
        assert(m == old(self)@);
        let n = entries.len();
        let mut p: usize = 0;
        let mut found = false;
        let mut stop = false;
        while p < n && !stop
            invariant
                n == entries.len(),
                e == entries_view(entries@),
                sorted_entries(e),
                p <= n,
                forall|j: int| 0 <= j < p ==> text_lt(e[j].0, kind@),
                stop ==> p < n,
                stop && found ==> e[p as int].0 == kind@,
                stop && !found ==> text_lt(kind@, e[p as int].0),
                !stop ==> !found,
            decreases n - p + if stop { 0int } else { 1 },
        {
            let o = order_texts(entries[p].0.as_str(), kind);
            if o < 0 {
                p += 1;
            } else {
                found = o == 0;
                stop = true;
            }
        }
        if found {
            let key = entries[p].0.clone();
            let v = entries[p].1;
            proof {
                lemma_entry_lookup(e, p as int);
                assert(kind_count(m, kind@) == v);
            }
            entries.set(p, (key, v + by));
            proof {
                let e2 = entries_view(entries@);
                assert(e2 =~= e.update(p as int, (kind@, (v + by) as u64)));
                assert(sorted_entries(e2)) by {
                    assert forall|i: int, j: int| 0 <= i < j < e2.len() implies text_lt(
                        e2[i].0,
                        e2[j].0,
                    ) by {
                        assert(e2[i].0 == e[i].0 && e2[j].0 == e[j].0);
                    }
                }
                lemma_map_update(e, p as int, (v + by) as u64);
            }
        } else {
            let ghost new_key = kind@;
            proof {
                assert forall|j: int| 0 <= j < n implies e[j].0 != kind@ by {
                    if j >= p {
                        assert(stop);
                        if j > p {
                            lemma_text_lt_transitive(kind@, e[p as int].0, e[j].0);
                        }
                        lemma_text_lt_irreflexive(kind@);
                    } else {
                        lemma_text_lt_irreflexive(kind@);
                    }
                }
            }
            entries.insert(p, (String::from_str(kind), by));
            proof {
                let e2 = entries_view(entries@);
                assert(e2 =~= e.insert(p as int, (kind@, by)));
                assert(sorted_entries(e2)) by {
                    assert forall|i: int, j: int| 0 <= i < j < e2.len() implies text_lt(
                        e2[i].0,
                        e2[j].0,
                    ) by {
                        if j < p {
                        } else if j == p {
                            assert(e2[i].0 == e[i].0);
                        } else if i < p {
                            assert(e2[j].0 == e[j - 1].0);
                            assert(e2[i].0 == e[i].0);
                            if j - 1 > p {
                                lemma_text_lt_transitive(kind@, e[p as int].0, e[j - 1].0);
                            }
                            lemma_text_lt_transitive(e[i].0, kind@, e[j - 1].0);
                        } else if i == p {
                            assert(e2[j].0 == e[j - 1].0);
                            if j - 1 > p {
                                lemma_text_lt_transitive(kind@, e[p as int].0, e[j - 1].0);
                            }
                        } else {
                            assert(e2[j].0 == e[j - 1].0);
                            assert(e2[i].0 == e[i - 1].0);
                        }
                    }
                }
                lemma_map_insert(e, p as int, kind@, by);
            }
        }
        self.entries = entries;
    }
}

impl Clone for TransportCounts {
    fn clone(&self) -> (r: Self)
        ensures
            r@ == self@,
    {
        TransportCounts { entries: self.entries() }
    }
}

proof fn lemma_len_of_sorted(e: Seq<(Seq<char>, u64)>)
    requires
        sorted_entries(e),
    ensures
        entries_map(e).len() == e.len(),
    decreases e.len(),
{
    if e.len() == 0 {
        assert(entries_map(e).dom() =~= Set::<Seq<char>>::empty());
    }
    if e.len() > 0 {
        let f = e.drop_last();
        let k = e.last().0;
        assert(sorted_entries(f));
        lemma_len_of_sorted(f);
        assert forall|j: int| 0 <= j < f.len() implies f[j].0 != k by {
            assert(text_lt(e[j].0, e[e.len() - 1].0));
            lemma_text_lt_irreflexive(k);
        }
        lemma_finite_entries(f);
        assert(!entries_map(f).dom().contains(k)) by {
            if entries_map(f).dom().contains(k) {
                let j = choose|j: int| 0 <= j < f.len() && f[j].0 == k;
                assert(f[j].0 != k);
            }
        }
        assert(entries_map(e).dom() =~= entries_map(f).dom().insert(k)) by {
            assert forall|x: Seq<char>| entries_map(e).dom().contains(x) implies entries_map(
                f,
            ).dom().insert(k).contains(x) by {
                let j = choose|j: int| 0 <= j < e.len() && e[j].0 == x;
                if j < f.len() {
                    assert(f[j].0 == x);
                }
            }
            assert forall|x: Seq<char>| entries_map(f).dom().insert(k).contains(x) implies entries_map(
                e,
            ).dom().contains(x) by {
                if x != k {
                    let j = choose|j: int| 0 <= j < f.len() && f[j].0 == x;
                    assert(e[j].0 == x);
                } else {
                    assert(e[e.len() - 1].0 == x);
                }
            }
        }
        assert(entries_map(f).dom().insert(k).len() == entries_map(f).dom().len() + 1);
    }
}

proof fn lemma_finite_entries(e: Seq<(Seq<char>, u64)>)
    ensures
        entries_map(e).dom().finite(),
    decreases e.len(),
{
    if e.len() == 0 {
        assert(entries_map(e).dom() =~= Set::empty());
    } else {
        let f = e.drop_last();
        lemma_finite_entries(f);
        assert(entries_map(e).dom() =~= entries_map(f).dom().insert(e.last().0)) by {
            assert forall|x: Seq<char>| entries_map(e).dom().contains(x) implies entries_map(
                f,
            ).dom().insert(e.last().0).contains(x) by {
                let j = choose|j: int| 0 <= j < e.len() && e[j].0 == x;
                if j < f.len() {
                    assert(f[j].0 == x);
                }
            }
            assert forall|x: Seq<char>| entries_map(f).dom().insert(e.last().0).contains(
                x,
            ) implies entries_map(e).dom().contains(x) by {
                if x != e.last().0 {
                    let j = choose|j: int| 0 <= j < f.len() && f[j].0 == x;
                    assert(e[j].0 == x);
                } else {
                    assert(e[e.len() - 1].0 == x);
                }
            }
        }
    }
}

proof fn lemma_map_update(e: Seq<(Seq<char>, u64)>, p: int, v: u64)
    requires
        sorted_entries(e),
        0 <= p < e.len(),
    ensures
        entries_map(e.update(p, (e[p].0, v))) == entries_map(e).insert(e[p].0, v),
{
    let e2 = e.update(p, (e[p].0, v));
    assert(sorted_entries(e2)) by {
        assert forall|i: int, j: int| 0 <= i < j < e2.len() implies text_lt(e2[i].0, e2[j].0) by {
            assert(e2[i].0 == e[i].0 && e2[j].0 == e[j].0);
        }
    }
    let m2 = entries_map(e2);
    let m = entries_map(e).insert(e[p].0, v);
    assert forall|k: Seq<char>| m2.contains_key(k) <==> m.contains_key(k) by {
        if m2.contains_key(k) {
            let j = choose|j: int| 0 <= j < e2.len() && e2[j].0 == k;
            assert(e[j].0 == k);
        }
        if m.contains_key(k) && k != e[p].0 {
            let j = choose|j: int| 0 <= j < e.len() && e[j].0 == k;
            assert(e2[j].0 == k);
        }
        if k == e[p].0 {
            assert(e2[p].0 == k);
        }
    }
    assert forall|k: Seq<char>| m2.contains_key(k) implies m2[k] == m[k] by {
        let j = choose|j: int| 0 <= j < e2.len() && e2[j].0 == k;
        lemma_entry_lookup(e2, j);
        if j != p {
            lemma_entry_lookup(e, j);
            assert(e[j].0 != e[p].0) by {
                if e[j].0 == e[p].0 {
                    lemma_sorted_unique(e, j, p);
                }
            }
        }
    }
    assert(m2 =~= m);
}

proof fn lemma_map_insert(e: Seq<(Seq<char>, u64)>, p: int, k0: Seq<char>, v: u64)
    requires
        sorted_entries(e),
        sorted_entries(e.insert(p, (k0, v))),
        0 <= p <= e.len(),
    ensures
        entries_map(e.insert(p, (k0, v))) == entries_map(e).insert(k0, v),
{
    let e2 = e.insert(p, (k0, v));
    let m2 = entries_map(e2);
    let m = entries_map(e).insert(k0, v);
    assert forall|k: Seq<char>| m2.contains_key(k) <==> m.contains_key(k) by {
        if m2.contains_key(k) && k != k0 {
            let j = choose|j: int| 0 <= j < e2.len() && e2[j].0 == k;
            if j < p {
                assert(e[j].0 == k);
            } else if j > p {
                assert(e[j - 1].0 == k);
            }
        }
        if m.contains_key(k) && k != k0 {
            let j = choose|j: int| 0 <= j < e.len() && e[j].0 == k;
            if j < p {
                assert(e2[j].0 == k);
            } else {
                assert(e2[j + 1].0 == k);
            }
        }
        if k == k0 {
            assert(e2[p].0 == k);
        }
    }
    assert forall|k: Seq<char>| m2.contains_key(k) implies m2[k] == m[k] by {
        let j = choose|j: int| 0 <= j < e2.len() && e2[j].0 == k;
        lemma_entry_lookup(e2, j);
        if j != p {
            assert(e2[j].0 != e2[p].0) by {
                if e2[j].0 == e2[p].0 {
                    lemma_sorted_unique(e2, j, p);
                }
            }
            if j < p {
                assert(e2[j] == e[j]);
                lemma_entry_lookup(e, j);
            } else {
                assert(e2[j] == e[j - 1]);
                lemma_entry_lookup(e, j - 1);
            }
        }
    }
    assert(m2 =~= m);
}

} // verus!

verus! {

/// Law: adding transport counts does not depend on the order of the two maps.
pub proof fn law_sum_kind_counts_commutative(a: Map<Seq<char>, u64>, b: Map<Seq<char>, u64>)
    ensures
        sum_kind_counts(a, b) == sum_kind_counts(b, a),
{
    assert(sum_kind_counts(a, b) =~= sum_kind_counts(b, a));
}

/// Law: adding an empty map of transport counts changes nothing.
pub proof fn law_sum_kind_counts_empty(a: Map<Seq<char>, u64>)
    ensures
        sum_kind_counts(a, Map::empty()) == a,
{
    assert(sum_kind_counts(a, Map::empty()) =~= a);
}

} // verus!
