//! Ordered attribute maps keyed by text.

use crate::ir::Value;
use vstd::prelude::*;

verus! {

/// Lexicographic order of texts, character by character (the order of `String`).
pub open spec fn text_less(a: Seq<char>, b: Seq<char>) -> bool
    decreases a.len(),
{
    if a.len() == 0 {
        b.len() > 0
    } else if b.len() == 0 {
        false
    } else if a[0] != b[0] {
        a[0] < b[0]
    } else {
        text_less(a.drop_first(), b.drop_first())
    }
}

pub proof fn lemma_text_less_irreflexive(a: Seq<char>)
    ensures
        !text_less(a, a),
    decreases a.len(),
{
    if a.len() > 0 {
        lemma_text_less_irreflexive(a.drop_first());
    }
}

pub proof fn lemma_text_less_total(a: Seq<char>, b: Seq<char>)
    ensures
        a == b || text_less(a, b) || text_less(b, a),
        !(text_less(a, b) && text_less(b, a)),
    decreases a.len(),
{
    if a.len() > 0 && b.len() > 0 && a[0] == b[0] {
        lemma_text_less_total(a.drop_first(), b.drop_first());
        if a.drop_first() == b.drop_first() {
            assert(a =~= seq![a[0]] + a.drop_first());
            assert(b =~= seq![b[0]] + b.drop_first());
        }
    } else if a.len() == 0 && b.len() == 0 {
        assert(a =~= b);
    }
}

pub proof fn lemma_text_less_transitive(a: Seq<char>, b: Seq<char>, c: Seq<char>)
    requires
        text_less(a, b),
        text_less(b, c),
    ensures
        text_less(a, c),
    decreases a.len(),
{
    if a.len() > 0 && b.len() > 0 && c.len() > 0 && a[0] == b[0] && b[0] == c[0] {
        lemma_text_less_transitive(a.drop_first(), b.drop_first(), c.drop_first());
    }
}

/// Texts in strictly increasing order.
pub open spec fn strictly_sorted_texts(q: Seq<Seq<char>>) -> bool {
    forall|i: int, j: int| 0 <= i < j < q.len() ==> text_less(#[trigger] q[i], #[trigger] q[j])
}

/// The texts of a finite set, listed in increasing order.
pub open spec fn text_listing(s: Set<Seq<char>>) -> Seq<Seq<char>> {
    choose|q: Seq<Seq<char>>| strictly_sorted_texts(q) && q.to_set() == s
}

/// Two increasing listings of the same texts are the same listing.
pub proof fn lemma_sorted_listing_unique(a: Seq<Seq<char>>, b: Seq<Seq<char>>)
    requires
        strictly_sorted_texts(a),
        strictly_sorted_texts(b),
        a.to_set() == b.to_set(),
    ensures
        a == b,
    decreases a.len(),
{
    if a.len() == 0 {
        if b.len() > 0 {
            assert(b.to_set().contains(b[0]));
            assert(!a.to_set().contains(b[0]));
        }
        assert(a =~= b);
    } else {
        let x = a[0];
        assert(a.to_set().contains(x));
        assert(b.to_set().contains(x));
        let j = choose|j: int| 0 <= j < b.len() && b[j] == x;
        if j > 0 {
            assert(b.to_set().contains(b[0]));
            assert(a.to_set().contains(b[0]));
            let k = choose|k: int| 0 <= k < a.len() && a[k] == b[0];
            assert(text_less(b[0], b[j]));
            lemma_text_less_irreflexive(x);
            if k > 0 {
                assert(text_less(a[0], a[k]));
                lemma_text_less_transitive(x, b[0], x);
            }
        }
        assert(b[0] == x);
        let ta = a.drop_first();
        let tb = b.drop_first();
        assert(strictly_sorted_texts(ta)) by {
            assert forall|i: int, m: int| 0 <= i < m < ta.len() implies text_less(#[trigger] ta[i], #[trigger] ta[m]) by {
                assert(ta[i] == a[i + 1] && ta[m] == a[m + 1]);
            }
        }
        assert(strictly_sorted_texts(tb)) by {
            assert forall|i: int, m: int| 0 <= i < m < tb.len() implies text_less(#[trigger] tb[i], #[trigger] tb[m]) by {
                assert(tb[i] == b[i + 1] && tb[m] == b[m + 1]);
            }
        }
        assert(ta.to_set() =~= tb.to_set()) by {
            assert forall|y: Seq<char>| ta.to_set().contains(y) implies tb.to_set().contains(y) by {
                let i = choose|i: int| 0 <= i < ta.len() && ta[i] == y;
                assert(a[i + 1] == y);
                assert(text_less(a[0], a[i + 1]));
                lemma_text_less_irreflexive(x);
                assert(y != x);
                assert(b.to_set().contains(y));
                let m = choose|m: int| 0 <= m < b.len() && b[m] == y;
                assert(m != 0);
                assert(tb[m - 1] == y);
            }
            assert forall|y: Seq<char>| tb.to_set().contains(y) implies ta.to_set().contains(y) by {
                let i = choose|i: int| 0 <= i < tb.len() && tb[i] == y;
                assert(b[i + 1] == y);
                assert(text_less(b[0], b[i + 1]));
                lemma_text_less_irreflexive(x);
                assert(y != x);
                assert(a.to_set().contains(y));
                let m = choose|m: int| 0 <= m < a.len() && a[m] == y;
                assert(m != 0);
                assert(ta[m - 1] == y);
            }
        }
        lemma_sorted_listing_unique(ta, tb);
        assert(a =~= seq![x] + ta);
        assert(b =~= seq![x] + tb);
    }
}

/// The increasing listing of a set is that set's `text_listing`.
pub proof fn lemma_text_listing(q: Seq<Seq<char>>)
    requires
        strictly_sorted_texts(q),
    ensures
        text_listing(q.to_set()) == q,
{
    let s = q.to_set();
    assert(strictly_sorted_texts(q) && q.to_set() == s);
    let c = text_listing(s);
    lemma_sorted_listing_unique(c, q);
}

/// Result of comparing two texts.
pub enum TextOrder {
    Less,
    Equal,
    Greater,
}

/// Compares two texts in lexicographic order.
pub fn text_order(a: &str, b: &str) -> (r: TextOrder)
    ensures
        r is Less <==> text_less(a@, b@),
        r is Equal <==> a@ == b@,
        r is Greater <==> text_less(b@, a@),
{
    proof {
        lemma_text_less_total(a@, b@);
        lemma_text_less_irreflexive(a@);
    }
    let na = a.unicode_len();
    let nb = b.unicode_len();
    let mut i: usize = 0;
    assert(a@.skip(0) == a@);
    assert(b@.skip(0) == b@);
    while i < na && i < nb
        invariant
            na == a@.len(),
            nb == b@.len(),
            i <= na,
            i <= nb,
            a@.take(i as int) == b@.take(i as int),
            text_less(a@, b@) == text_less(a@.skip(i as int), b@.skip(i as int)),
            text_less(b@, a@) == text_less(b@.skip(i as int), a@.skip(i as int)),
        decreases na - i,
    {
        let ca = a.get_char(i);
        let cb = b.get_char(i);
        if ca < cb {
            return TextOrder::Less;
        }
        if cb < ca {
            return TextOrder::Greater;
        }
        assert(a@.skip(i as int).drop_first() == a@.skip(i + 1));
        assert(b@.skip(i as int).drop_first() == b@.skip(i + 1));
        assert(a@.take(i + 1) == a@.take(i as int).push(ca));
        assert(b@.take(i + 1) == b@.take(i as int).push(cb));
        i = i + 1;
    }
    if na == nb {
        assert(a@ == a@.take(i as int));
        assert(b@ == b@.take(i as int));
        TextOrder::Equal
    } else if i == na {
        TextOrder::Less
    } else {
        TextOrder::Greater
    }
}

/// Entries whose keys are in strictly increasing order.
pub open spec fn sorted_entries(s: Seq<(String, Value)>) -> bool {
    forall|i: int, j: int| 0 <= i < j < s.len() ==> text_less(#[trigger] s[i].0@, #[trigger] s[j].0@)
}

/// The map that a sequence of entries with distinct keys denotes.
pub open spec fn entries_map(s: Seq<(String, Value)>) -> Map<Seq<char>, Value> {
    Map::new(|k: Seq<char>| has_key(s, k), |k: Seq<char>| s[key_position(s, k)].1)
}

/// Some entry has key `k`.
pub open spec fn has_key(s: Seq<(String, Value)>, k: Seq<char>) -> bool {
    exists|i: int| 0 <= i < s.len() && #[trigger] s[i].0@ == k
}

/// A position whose entry has key `k`, when there is one.
pub open spec fn key_position(s: Seq<(String, Value)>, k: Seq<char>) -> int {
    choose|i: int| 0 <= i < s.len() && #[trigger] s[i].0@ == k
}

pub proof fn lemma_entries_lookup(s: Seq<(String, Value)>, i: int)
    requires
        sorted_entries(s),
        0 <= i < s.len(),
    ensures
        entries_map(s).contains_key(s[i].0@),
        entries_map(s)[s[i].0@] == s[i].1,
{
    let k = s[i].0@;
    assert(entries_map(s).contains_key(k));
    let j = key_position(s, k);
    assert(entries_map(s)[k] == s[j].1);
    if j != i {
        lemma_text_less_irreflexive(k);
        if j < i {
            assert(text_less(s[j].0@, s[i].0@));
        } else {
            assert(text_less(s[i].0@, s[j].0@));
        }
    }
}

pub proof fn lemma_entries_len(s: Seq<(String, Value)>)
    requires
        sorted_entries(s),
    ensures
        entries_map(s).dom().finite(),
        entries_map(s).len() == s.len(),
{
    let ks = s.map_values(|e: (String, Value)| e.0@);
    assert forall|k: Seq<char>| entries_map(s).contains_key(k) <==> ks.contains(k) by {
        if entries_map(s).contains_key(k) {
            let i = choose|i: int| 0 <= i < s.len() && #[trigger] s[i].0@ == k;
            assert(ks[i] == k);
        }
        if ks.contains(k) {
            let i = choose|i: int| 0 <= i < ks.len() && ks[i] == k;
            assert(s[i].0@ == k);
        }
    }
    assert(entries_map(s).dom() =~= ks.to_set());
    assert(ks.no_duplicates()) by {
        assert forall|i: int, j: int| 0 <= i < ks.len() && 0 <= j < ks.len() && i != j implies ks[i]
            != ks[j] by {
            if i < j {
                assert(text_less(s[i].0@, s[j].0@));
                lemma_text_less_irreflexive(ks[i]);
            } else {
                assert(text_less(s[j].0@, s[i].0@));
                lemma_text_less_irreflexive(ks[j]);
            }
        }
    }
    ks.unique_seq_to_set();
}

/// Overwriting the value of an existing key updates the denoted map at that key.
pub proof fn lemma_entries_replace(s: Seq<(String, Value)>, i: int, t: Seq<(String, Value)>, v: Value)
    requires
        sorted_entries(s),
        0 <= i < s.len(),
        t == s.update(i, (s[i].0, v)),
    ensures
        sorted_entries(t),
        entries_map(t) == entries_map(s).insert(s[i].0@, v),
{
    assert forall|a: int, b: int| 0 <= a < b < t.len() implies text_less(#[trigger] t[a].0@, #[trigger] t[b].0@) by {
        assert(s[a].0@ == t[a].0@);
        assert(s[b].0@ == t[b].0@);
    }
    let m = entries_map(s).insert(s[i].0@, v);
    assert forall|k: Seq<char>| entries_map(t).contains_key(k) <==> m.contains_key(k) by {
        if entries_map(t).contains_key(k) {
            let j = choose|j: int| 0 <= j < t.len() && #[trigger] t[j].0@ == k;
            assert(s[j].0@ == k);
        }
        if m.contains_key(k) && k != s[i].0@ {
            let j = choose|j: int| 0 <= j < s.len() && #[trigger] s[j].0@ == k;
            assert(t[j].0@ == k);
        }
        if k == s[i].0@ {
            assert(t[i].0@ == k);
        }
    }
    assert forall|k: Seq<char>| #[trigger] entries_map(t).contains_key(k) implies entries_map(t)[k] == m[k] by {
        let j = choose|j: int| 0 <= j < t.len() && #[trigger] t[j].0@ == k;
        lemma_entries_lookup(t, j);
        if j != i {
            assert(s[j] == t[j]);
            lemma_entries_lookup(s, j);
            lemma_text_less_irreflexive(k);
            if j < i {
                assert(text_less(s[j].0@, s[i].0@));
            } else {
                assert(text_less(s[i].0@, s[j].0@));
            }
            assert(k != s[i].0@);
        }
    }
    assert(entries_map(t) =~= m);
}

/// Inserting an entry at its place in the order adds the key to the denoted map.
pub proof fn lemma_entries_insert(s: Seq<(String, Value)>, i: int, t: Seq<(String, Value)>, key: String, v: Value)
    requires
        sorted_entries(s),
        0 <= i <= s.len(),
        forall|j: int| 0 <= j < i ==> text_less(#[trigger] s[j].0@, key@),
        i < s.len() ==> text_less(key@, s[i].0@),
        t == s.insert(i, (key, v)),
    ensures
        sorted_entries(t),
        entries_map(t) == entries_map(s).insert(key@, v),
{
    assert forall|a: int, b: int| 0 <= a < b < t.len() implies text_less(#[trigger] t[a].0@, #[trigger] t[b].0@) by {
        if b < i {
            assert(t[a] == s[a] && t[b] == s[b]);
        } else if b == i {
            assert(t[a] == s[a]);
        } else if a < i {
            assert(t[a] == s[a] && t[b] == s[b - 1]);
            if b - 1 == i {
                lemma_text_less_transitive(s[a].0@, key@, s[b - 1].0@);
            } else {
                lemma_text_less_transitive(s[a].0@, key@, s[i].0@);
                lemma_text_less_transitive(s[a].0@, s[i].0@, s[b - 1].0@);
            }
        } else if a == i {
            assert(t[b] == s[b - 1]);
            if b - 1 > i {
                lemma_text_less_transitive(key@, s[i].0@, s[b - 1].0@);
            }
        } else {
            assert(t[a] == s[a - 1] && t[b] == s[b - 1]);
        }
    }
    let m = entries_map(s).insert(key@, v);
    assert forall|k: Seq<char>| entries_map(t).contains_key(k) <==> m.contains_key(k) by {
        if entries_map(t).contains_key(k) {
            let j = choose|j: int| 0 <= j < t.len() && #[trigger] t[j].0@ == k;
            if j < i {
                assert(s[j].0@ == k);
            } else if j > i {
                assert(s[j - 1].0@ == k);
            }
        }
        if m.contains_key(k) && k != key@ {
            let j = choose|j: int| 0 <= j < s.len() && #[trigger] s[j].0@ == k;
            if j < i {
                assert(t[j].0@ == k);
            } else {
                assert(t[j + 1].0@ == k);
            }
        }
        if k == key@ {
            assert(t[i].0@ == k);
        }
    }
    assert forall|k: Seq<char>| #[trigger] entries_map(t).contains_key(k) implies entries_map(t)[k] == m[k] by {
        let j = choose|j: int| 0 <= j < t.len() && #[trigger] t[j].0@ == k;
        lemma_entries_lookup(t, j);
        if j < i {
            assert(s[j] == t[j]);
            lemma_entries_lookup(s, j);
            lemma_text_less_irreflexive(k);
        } else if j > i {
            assert(s[j - 1] == t[j]);
            lemma_entries_lookup(s, j - 1);
            lemma_text_less_irreflexive(k);
            if j - 1 > i {
                lemma_text_less_transitive(key@, s[i].0@, s[j - 1].0@);
            }
            assert(k != key@);
        }
    }
    assert(entries_map(t) =~= m);
}

/// A map from text keys to values, kept in key order.
#[derive(Debug, PartialEq)]
pub struct AttrMap {
    entries: Vec<(String, Value)>,
}

impl View for AttrMap {
    type V = Map<Seq<char>, Value>;

    closed spec fn view(&self) -> Map<Seq<char>, Value> {
        entries_map(self.entries@)
    }
}

impl Clone for AttrMap {
    /// Clones the entries; the keys are kept exactly.
    fn clone(&self) -> (r: AttrMap)
        ensures
            r@ == self@,
    {
        proof {
            use_type_invariant(self);
        }
        let mut entries: Vec<(String, Value)> = Vec::new();
        let n = self.entries.len();
        let mut i: usize = 0;
        while i < n
            invariant
                n == self.entries@.len(),
                i <= n,
                entries@.len() == i,
                sorted_entries(self.entries@),
                forall|j: int| 0 <= j < i ==> (#[trigger] entries@[j]) == self.entries@[j],
            decreases n - i,
        {
            let key = self.entries[i].0.clone();
            let value = self.entries[i].1.clone();
            entries.push((key, value));
            i = i + 1;
        }
        assert(entries@ =~= self.entries@);
        AttrMap { entries }
    }
}

impl AttrMap {
    #[verifier::type_invariant]
    closed spec fn sorted(self) -> bool {
        sorted_entries(self.entries@)
    }

    pub fn new() -> (r: AttrMap)
        ensures
            r@ == Map::<Seq<char>, Value>::empty(),
    {
        let r = AttrMap { entries: Vec::new() };
        assert(r@ =~= Map::<Seq<char>, Value>::empty());
        r
    }

    pub fn len(&self) -> (r: usize)
        ensures
            r == self@.len(),
            self@.dom().finite(),
    {
        proof {
            use_type_invariant(self);
            lemma_entries_len(self.entries@);
        }
        self.entries.len()
    }

    pub fn is_empty(&self) -> (r: bool)
        ensures
            r == (self@.len() == 0),
    {
        self.len() == 0
    }

    /// The entries in key order.
    pub fn entries(&self) -> (r: &Vec<(String, Value)>)
        ensures
            sorted_entries(r@),
            entries_map(r@) == self@,
    {
        proof {
            use_type_invariant(self);
        }
        &self.entries
    }

    /// The value stored under `key`.
    pub fn get(&self, key: &str) -> (r: Option<&Value>)
        ensures
            self@.contains_key(key@) ==> r == Some(&self@[key@]),
            !self@.contains_key(key@) ==> r is None,
    {
        proof {
            use_type_invariant(self);
        }
        let n = self.entries.len();
        let mut i: usize = 0;
        while i < n
            invariant
                sorted_entries(self.entries@),
                n == self.entries@.len(),
                i <= n,
                forall|j: int| 0 <= j < i ==> #[trigger] self.entries@[j].0@ != key@,
            decreases n - i,
        {
            if let TextOrder::Equal = text_order(self.entries[i].0.as_str(), key) {
                proof {
                    lemma_entries_lookup(self.entries@, i as int);
                }
                return Some(&self.entries[i].1);
            }
            i = i + 1;
        }
        None
    }

    /// Whether `key` has a value.
    pub fn contains_key(&self, key: &str) -> (r: bool)
        ensures
            r == self@.contains_key(key@),
    {
        self.get(key).is_some()
    }

    /// Finds where `key` stands: its index if present, else the index it would be inserted at.
    fn find_slot(&self, key: &str) -> (r: (usize, bool))
        ensures
            r.0 <= self.entries@.len(),
            forall|j: int| 0 <= j < r.0 ==> text_less(#[trigger] self.entries@[j].0@, key@),
            r.1 ==> r.0 < self.entries@.len() && self.entries@[r.0 as int].0@ == key@,
            !r.1 && r.0 < self.entries@.len() ==> text_less(key@, self.entries@[r.0 as int].0@),
    {
        let n = self.entries.len();
        let mut i: usize = 0;
        while i < n
            invariant
                n == self.entries@.len(),
                i <= n,
                forall|j: int| 0 <= j < i ==> text_less(#[trigger] self.entries@[j].0@, key@),
            decreases n - i,
        {
            match text_order(self.entries[i].0.as_str(), key) {
                TextOrder::Less => {},
                TextOrder::Equal => {
                    return (i, true);
                },
                TextOrder::Greater => {
                    return (i, false);
                },
            }
            i = i + 1;
        }
        (i, false)
    }

    /// Stores `value` under `key`, replacing any earlier value.
    pub fn insert(&mut self, key: &str, value: Value)
        ensures
            final(self)@ == old(self)@.insert(key@, value),
    {
        proof {
            use_type_invariant(&*self);
        }
        let (i, present) = self.find_slot(key);
        let ghost before = self.entries@;
        let mut entries: Vec<(String, Value)> = Vec::new();
        std::mem::swap(&mut entries, &mut self.entries);
        if present {
            let k = entries[i].0.clone();
            proof {
                lemma_entries_replace(before, i as int, before.update(i as int, (k, value)), value);
            }
            entries.set(i, (k, value));
        } else {
            let owned = key.to_owned();
            proof {
                lemma_entries_insert(before, i as int, before.insert(i as int, (owned, value)), owned, value);
            }
            entries.insert(i, (owned, value));
        }
        self.entries = entries;
    }
}


/// Reading a key after storing it gives the stored value, and every other key keeps its
/// presence and its value.
pub proof fn law_insert_then_get(before: Map<Seq<char>, Value>, key: Seq<char>, value: Value)
    ensures
        before.insert(key, value).contains_key(key),
        before.insert(key, value)[key] == value,
        forall|k: Seq<char>|
            k != key ==> (#[trigger] before.insert(key, value).contains_key(k) == before.contains_key(
                k,
            )),
        forall|k: Seq<char>|
            k != key && before.contains_key(k) ==> #[trigger] before.insert(key, value)[k] == before[k],
{
}

} // verus!
