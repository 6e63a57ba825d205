//! The three collection resources a cache can hold: ordered entries
//! (key to value), ordered key sets, and value lists.

use vstd::prelude::*;

use crate::lex::{compare_bytes, lemma_lex_total, lemma_lex_trans, lex_lt, Order};

verus! {

/// A value's content and its entry version.
pub type ValueView = (Seq<u8>, u64);

/// A key with its value.
pub type EntryView = (Seq<u8>, ValueView);

/// The keys are strictly ascending, hence pairwise distinct.
pub open spec fn sorted_keys(ks: Seq<Seq<u8>>) -> bool {
    forall|i: int, j: int| 0 <= i < j < ks.len() ==> lex_lt(ks[i], ks[j])
}

/// The keys of a sequence of entries, in order.
pub open spec fn keys_of(s: Seq<EntryView>) -> Seq<Seq<u8>> {
    s.map_values(|e: EntryView| e.0)
}

/// Some entry of `s` has key `k`.
pub open spec fn has_key(s: Seq<EntryView>, k: Seq<u8>) -> bool {
    exists|i: int| 0 <= i < s.len() && s[i].0 == k
}

/// A position of `s` that holds key `k`, where there is one.
pub open spec fn key_index(s: Seq<EntryView>, k: Seq<u8>) -> int {
    choose|i: int| 0 <= i < s.len() && s[i].0 == k
}

/// The mapping that a sequence of entries stands for.
pub open spec fn entries_map(s: Seq<EntryView>) -> Map<Seq<u8>, ValueView> {
    Map::new(|k: Seq<u8>| has_key(s, k), |k: Seq<u8>| s[key_index(s, k)].1)
}

/// In sorted entries the entry at `i` is the one the mapping gives for its key.
pub proof fn lemma_sorted_lookup(s: Seq<EntryView>, i: int)
    requires
        sorted_keys(keys_of(s)),
        0 <= i < s.len(),
    ensures
        entries_map(s).contains_key(s[i].0),
        entries_map(s)[s[i].0] == s[i].1,
{
    let k = s[i].0;
    assert(has_key(s, k));
    let j = key_index(s, k);
    if j != i {
        lemma_lex_total(k, k);
        if j < i {
            assert(lex_lt(keys_of(s)[j], keys_of(s)[i]));
        } else {
            assert(lex_lt(keys_of(s)[i], keys_of(s)[j]));
        }
    }
}

/// Putting `k` at a position between the keys below it and those above it
/// keeps the keys sorted and adds `k` to their set.
pub proof fn lemma_sorted_insert(s0: Seq<Seq<u8>>, p: int, k: Seq<u8>)
    requires
        sorted_keys(s0),
        0 <= p <= s0.len(),
        forall|i: int| 0 <= i < p ==> lex_lt(#[trigger] s0[i], k),
        forall|j: int| p <= j < s0.len() ==> lex_lt(k, #[trigger] s0[j]),
    ensures
        sorted_keys(s0.insert(p, k)),
        s0.insert(p, k).to_set() == s0.to_set().insert(k),
{
    let s1 = s0.insert(p, k);
    assert forall|i: int, j: int| 0 <= i < j < s1.len() implies lex_lt(
        #[trigger] s1[i],
        #[trigger] s1[j],
    ) by {
        if j < p {
            assert(lex_lt(s0[i], s0[j]));
        } else if j == p {
        } else if i < p {
            lemma_lex_trans(s0[i], k, s0[j - 1]);
        } else if i == p {
        } else {
            assert(lex_lt(s0[i - 1], s0[j - 1]));
        }
    }
    assert forall|x: Seq<u8>| s1.to_set().contains(x) <==> s0.to_set().insert(k).contains(x) by {
        if s0.contains(x) {
            let i = choose|i: int| 0 <= i < s0.len() && s0[i] == x;
            if i < p {
                assert(s1[i] == x);
            } else {
                assert(s1[i + 1] == x);
            }
        }
        if x == k {
            assert(s1[p] == x);
        }
        if s1.contains(x) {
            let i = choose|i: int| 0 <= i < s1.len() && s1[i] == x;
            if i < p {
                assert(s0[i] == x);
            } else if i > p {
                assert(s0[i - 1] == x);
            }
        }
    }
    assert(s1.to_set() =~= s0.to_set().insert(k));
}

/// A stored value: content bytes and the version of its entry.
#[derive(Clone, Debug, PartialEq, Eq)]
pub struct Value {
    pub content: Vec<u8>,
    pub entry_version: u64,
}

impl View for Value {
    type V = ValueView;

    open spec fn view(&self) -> ValueView {
        (self.content@, self.entry_version)
    }
}

impl Value {
    /// A value with the given content and version.
    pub fn new(content: Vec<u8>, entry_version: u64) -> (r: Value)
        ensures
            r@ == (content@, entry_version),
    {
        Value { content, entry_version }
    }

    /// An equal copy of this value.
    pub fn duplicate(&self) -> (r: Value)
        ensures
            r@ == self@,
    {
        let content = self.content.clone();
        proof {
            assert(content@ =~= self.content@);
        }
        Value { content, entry_version: self.entry_version }
    }
}

/// What a vector of entries holds.
pub open spec fn view_entries(v: Seq<(Vec<u8>, Value)>) -> Seq<EntryView> {
    v.map_values(|e: (Vec<u8>, Value)| (e.0@, e.1@))
}

/// What a vector of keys holds.
pub open spec fn view_keys(v: Seq<Vec<u8>>) -> Seq<Seq<u8>> {
    v.map_values(|k: Vec<u8>| k@)
}

/// What a vector of values holds.
pub open spec fn view_values(v: Seq<Value>) -> Seq<ValueView> {
    v.map_values(|x: Value| x@)
}

/// Copies a byte string.
pub fn copy_bytes(b: &Vec<u8>) -> (r: Vec<u8>)
    ensures
        r@ == b@,
{
    let r = b.clone();
    proof {
        assert(r@ =~= b@);
    }
    r
}

/// An ordered mapping from byte keys to values. Entries are held in
/// ascending key order, so walking them visits keys in that order.
pub struct MDataEntries {
    entries: Vec<(Vec<u8>, Value)>,
}

impl View for MDataEntries {
    type V = Seq<EntryView>;

    closed spec fn view(&self) -> Seq<EntryView> {
        view_entries(self.entries@)
    }
}

impl MDataEntries {
    /// Keys strictly ascending.
    pub open spec fn wf(&self) -> bool {
        sorted_keys(keys_of(self@))
    }

    /// The mapping from keys to values.
    pub open spec fn map(&self) -> Map<Seq<u8>, ValueView> {
        entries_map(self@)
    }

    /// No entries.
    pub fn new() -> (r: MDataEntries)
        ensures
            r.wf(),
            r@ == Seq::<EntryView>::empty(),
    {
        let r = MDataEntries { entries: Vec::new() };
        proof {
            assert(r@ =~= Seq::<EntryView>::empty());
        }
        r
    }

    /// Number of entries.
    pub fn len(&self) -> (r: usize)
        ensures
            r == self@.len(),
    {
        self.entries.len()
    }

    /// Where `key` is, or where it would go to keep the order.
    fn position(&self, key: &[u8]) -> (r: (usize, bool))
        requires
            self.wf(),
        ensures
            r.0 <= self@.len(),
            forall|i: int| 0 <= i < r.0 ==> lex_lt(#[trigger] self@[i].0, key@),
            r.1 ==> r.0 < self@.len() && self@[r.0 as int].0 == key@,
            !r.1 ==> forall|j: int| r.0 <= j < self@.len() ==> lex_lt(key@, #[trigger] self@[j].0),
            !r.1 ==> !has_key(self@, key@),
    {
        let n = self.entries.len();
        let mut p: usize = 0;
        while p < n
            invariant
                n == self@.len(),
                p <= n,
                self.wf(),
                forall|i: int| 0 <= i < p ==> lex_lt(#[trigger] self@[i].0, key@),
            decreases n - p,
        {
            match compare_bytes(self.entries[p].0.as_slice(), key) {
                Order::Less => {
                    p = p + 1;
                },
                Order::Equal => {
                    return (p, true);
                },
                Order::Greater => {
                    proof {
                        assert forall|j: int| p <= j < self@.len() implies lex_lt(
                            key@,
                            #[trigger] self@[j].0,
                        ) by {
                            if j > p {
                                assert(lex_lt(keys_of(self@)[p as int], keys_of(self@)[j]));
                                lemma_lex_trans(key@, self@[p as int].0, self@[j].0);
                            }
                        }
                        assert forall|j: int| 0 <= j < self@.len() implies self@[j].0 != key@ by {
                            lemma_lex_total(key@, key@);
                        }
                    }
                    return (p, false);
                },
            }
        }
        proof {
            assert forall|j: int| 0 <= j < self@.len() implies self@[j].0 != key@ by {
                lemma_lex_total(key@, key@);
            }
        }
        (p, false)
    }

    /// The value at `key`, if there is one.
    pub fn get(&self, key: &[u8]) -> (r: Option<&Value>)
        requires
            self.wf(),
        ensures
            r is Some <==> self.map().contains_key(key@),
            r is Some ==> r->Some_0@ == self.map()[key@],
    {
        let (p, found) = self.position(key);
        if found {
            proof {
                lemma_sorted_lookup(self@, p as int);
            }
            Some(&self.entries[p].1)
        } else {
            None
        }
    }

    /// Sets the value at `key`, adding the key where it is new.
    pub fn insert(&mut self, key: Vec<u8>, value: Value)
        requires
            old(self).wf(),
        ensures
            final(self).wf(),
            final(self).map() == old(self).map().insert(key@, value@),
    {
        let ghost s0 = self@;
        let ghost k = key@;
        let ghost v = value@;
        let (p, found) = self.position(key.as_slice());
        if found {
            self.entries.set(p, (key, value));
            proof {
                let s1 = self@;
                assert(s1 =~= s0.update(p as int, (k, v)));
                assert(keys_of(s1) =~= keys_of(s0));
                assert forall|k2: Seq<u8>| has_key(s1, k2) <==> (k2 == k || has_key(s0, k2)) by {
                    if has_key(s0, k2) {
                        let i = key_index(s0, k2);
                        assert(s1[i].0 == k2);
                    }
                    if has_key(s1, k2) {
                        let i = key_index(s1, k2);
                        assert(s0[i].0 == k2);
                    }
                }
                assert forall|k2: Seq<u8>| #[trigger]
                    entries_map(s1).contains_key(k2) implies entries_map(s1)[k2] == entries_map(
                    s0,
                ).insert(k, v)[k2] by {
                    let i = key_index(s1, k2);
                    lemma_sorted_lookup(s1, i);
                    lemma_sorted_lookup(s1, p as int);
                    if i != p {
                        assert(s1[i] == s0[i]);
                        lemma_sorted_lookup(s0, i);
                    }
                }
                assert(entries_map(s1) =~= entries_map(s0).insert(k, v));
            }
        } else {
            self.entries.insert(p, (key, value));
            proof {
                let s1 = self@;
                let pi = p as int;
                assert(s1 =~= s0.insert(pi, (k, v)));
                assert forall|i: int, j: int| 0 <= i < j < s1.len() implies lex_lt(
                    #[trigger] keys_of(s1)[i],
                    #[trigger] keys_of(s1)[j],
                ) by {
                    if j < pi {
                        assert(lex_lt(keys_of(s0)[i], keys_of(s0)[j]));
                    } else if j == pi {
                        assert(lex_lt(s0[i].0, k));
                    } else if i < pi {
                        lemma_lex_trans(s0[i].0, k, s0[j - 1].0);
                    } else if i == pi {
                        assert(lex_lt(k, s0[j - 1].0));
                    } else {
                        assert(lex_lt(keys_of(s0)[i - 1], keys_of(s0)[j - 1]));
                    }
                }
                assert forall|k2: Seq<u8>| has_key(s1, k2) <==> (k2 == k || has_key(s0, k2)) by {
                    if has_key(s0, k2) {
                        let i = key_index(s0, k2);
                        if i < pi {
                            assert(s1[i].0 == k2);
                        } else {
                            assert(s1[i + 1].0 == k2);
                        }
                    }
                    if k2 == k {
                        assert(s1[pi].0 == k2);
                    }
                    if has_key(s1, k2) {
                        let i = key_index(s1, k2);
                        if i < pi {
                            assert(s0[i].0 == k2);
                        } else if i > pi {
                            assert(s0[i - 1].0 == k2);
                        }
                    }
                }
                assert forall|k2: Seq<u8>| #[trigger]
                    entries_map(s1).contains_key(k2) implies entries_map(s1)[k2] == entries_map(
                    s0,
                ).insert(k, v)[k2] by {
                    let i = key_index(s1, k2);
                    lemma_sorted_lookup(s1, i);
                    if i < pi {
                        lemma_sorted_lookup(s0, i);
                    } else if i > pi {
                        lemma_sorted_lookup(s0, i - 1);
                    }
                }
                assert(entries_map(s1) =~= entries_map(s0).insert(k, v));
            }
        }
    }

    /// A copy of every entry, in ascending key order.
    pub fn to_vec(&self) -> (r: Vec<(Vec<u8>, Value)>)
        ensures
            view_entries(r@) == self@,
    {
        let mut r: Vec<(Vec<u8>, Value)> = Vec::new();
        let n = self.entries.len();
        let mut i: usize = 0;
        while i < n
            invariant
                n == self@.len(),
                i <= n,
                r@.len() == i,
                forall|j: int| 0 <= j < i ==> (#[trigger] r@[j]).0@ == self@[j].0 && r@[j].1@ == self@[j].1,
            decreases n - i,
        {
            let k = copy_bytes(&self.entries[i].0);
            let v = self.entries[i].1.duplicate();
            r.push((k, v));
            i = i + 1;
        }
        proof {
            assert(view_entries(r@) =~= self@);
        }
        r
    }
}

/// A set of byte keys, held in ascending order.
pub struct MDataKeys {
    keys: Vec<Vec<u8>>,
}

impl View for MDataKeys {
    type V = Seq<Seq<u8>>;

    closed spec fn view(&self) -> Seq<Seq<u8>> {
        view_keys(self.keys@)
    }
}

impl MDataKeys {
    /// Keys strictly ascending.
    pub open spec fn wf(&self) -> bool {
        sorted_keys(self@)
    }

    /// No keys.
    pub fn new() -> (r: MDataKeys)
        ensures
            r.wf(),
            r@ == Seq::<Seq<u8>>::empty(),
    {
        let r = MDataKeys { keys: Vec::new() };
        proof {
            assert(r@ =~= Seq::<Seq<u8>>::empty());
        }
        r
    }

    /// Number of keys.
    pub fn len(&self) -> (r: usize)
        ensures
            r == self@.len(),
    {
        self.keys.len()
    }

    /// Adds `key` to the set; a key already there is left as it is.
    pub fn insert(&mut self, key: Vec<u8>)
        requires
            old(self).wf(),
        ensures
            final(self).wf(),
            final(self)@.to_set() == old(self)@.to_set().insert(key@),
    {
        let ghost s0 = self@;
        let ghost k = key@;
        let n = self.keys.len();
        let mut p: usize = 0;
        while p < n
            invariant
                n == self@.len(),
                self@ == s0,
                s0 == old(self)@,
                k == key@,
                p <= n,
                self.wf(),
                forall|i: int| 0 <= i < p ==> lex_lt(#[trigger] s0[i], k),
            decreases n - p,
        {
            assert(s0[p as int] == self.keys@[p as int]@);
            match compare_bytes(self.keys[p].as_slice(), key.as_slice()) {
                Order::Less => {
                    p = p + 1;
                },
                Order::Equal => {
                    proof {
                        assert(s0[p as int] == k);
                        assert(s0.to_set().contains(k));
                        assert(s0.to_set().insert(k) =~= s0.to_set());
                    }
                    return;
                },
                Order::Greater => {
                    proof {
                        assert forall|j: int| p <= j < s0.len() implies lex_lt(
                            k,
                            #[trigger] s0[j],
                        ) by {
                            if j > p {
                                lemma_lex_trans(k, s0[p as int], s0[j]);
                            }
                        }
                        lemma_sorted_insert(s0, p as int, k);
                    }
                    self.keys.insert(p, key);
                    proof {
                        assert(self@ =~= s0.insert(p as int, k));
                    }
                    return;
                },
            }
        }
        proof {
            lemma_sorted_insert(s0, p as int, k);
        }
        self.keys.insert(p, key);
        proof {
            assert(self@ =~= s0.insert(p as int, k));
        }
    }

    /// A copy of every key, in ascending order.
    pub fn to_vec(&self) -> (r: Vec<Vec<u8>>)
        ensures
            view_keys(r@) == self@,
    {
        let mut r: Vec<Vec<u8>> = Vec::new();
        let n = self.keys.len();
        let mut i: usize = 0;
        while i < n
            invariant
                n == self@.len(),
                i <= n,
                r@.len() == i,
                forall|j: int| 0 <= j < i ==> (#[trigger] r@[j])@ == self@[j],
            decreases n - i,
        {
            r.push(copy_bytes(&self.keys[i]));
            i = i + 1;
        }
        proof {
            assert(view_keys(r@) =~= self@);
        }
        r
    }
}

/// A list of values, in the order they were added.
pub struct MDataValues {
    values: Vec<Value>,
}

impl View for MDataValues {
    type V = Seq<ValueView>;

    closed spec fn view(&self) -> Seq<ValueView> {
        view_values(self.values@)
    }
}

impl MDataValues {
    /// No values.
    pub fn new() -> (r: MDataValues)
        ensures
            r@ == Seq::<ValueView>::empty(),
    {
        let r = MDataValues { values: Vec::new() };
        proof {
            assert(r@ =~= Seq::<ValueView>::empty());
        }
        r
    }

    /// Number of values.
    pub fn len(&self) -> (r: usize)
        ensures
            r == self@.len(),
    {
        self.values.len()
    }

    /// Appends a value.
    pub fn push(&mut self, value: Value)
        ensures
            final(self)@ == old(self)@.push(value@),
    {
        self.values.push(value);
        proof {
            assert(self@ =~= old(self)@.push(value@));
        }
    }

    /// A copy of every value, in order.
    pub fn to_vec(&self) -> (r: Vec<Value>)
        ensures
            view_values(r@) == self@,
    {
        let mut r: Vec<Value> = Vec::new();
        let n = self.values.len();
        let mut i: usize = 0;
        while i < n
            invariant
                n == self@.len(),
                i <= n,
                r@.len() == i,
                forall|j: int| 0 <= j < i ==> (#[trigger] r@[j])@ == self@[j],
            decreases n - i,
        {
            r.push(self.values[i].duplicate());
            i = i + 1;
        }
        proof {
            assert(view_values(r@) =~= self@);
        }
        r
    }
}

} // verus!
