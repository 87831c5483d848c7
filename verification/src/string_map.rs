//! A map from strings to strings, kept in the order of its keys.

use vstd::prelude::*;

use crate::order;
use crate::text::same;

verus! {

/// One key with its value.
#[derive(Debug, PartialEq, Eq)]
pub struct Entry {
    /// The key.
    pub key: String,
    /// The value.
    pub value: String,
}

/// What an [`Entry`] holds.
pub struct EntryView {
    pub key: Seq<char>,
    pub value: Seq<char>,
}

impl DeepView for Entry {
    type V = EntryView;

    open spec fn deep_view(&self) -> EntryView {
        EntryView { key: self.key@, value: self.value@ }
    }
}

impl Clone for Entry {
    fn clone(&self) -> (r: Entry)
        ensures
            r.deep_view() == self.deep_view(),
    {
        Entry { key: self.key.clone(), value: self.value.clone() }
    }
}

/// A map from strings to strings: labels, selectors and resource quantities.
#[derive(Debug, Default, PartialEq, Eq)]
pub struct StringMap {
    entries: Vec<Entry>,
}

/// The keys of a list of entries.
pub open spec fn keys_of(s: Seq<EntryView>) -> Seq<Seq<char>> {
    Seq::new(s.len(), |i: int| s[i].key)
}

/// The map that a list of entries stands for.
pub open spec fn map_of(s: Seq<EntryView>) -> Map<Seq<char>, Seq<char>> {
    Map::new(|k: Seq<char>| keys_of(s).contains(k), |k: Seq<char>| s[keys_of(s).index_of(k)].value)
}

impl DeepView for StringMap {
    type V = Map<Seq<char>, Seq<char>>;

    closed spec fn deep_view(&self) -> Map<Seq<char>, Seq<char>> {
        map_of(self.entries.deep_view())
    }
}

impl StringMap {
    #[verifier::type_invariant]
    spec fn well_formed(self) -> bool {
        order::ascending(keys_of(self.entries.deep_view()))
    }

    /// The empty map.
    pub fn new() -> (r: StringMap)
        ensures
            r.deep_view() == Map::<Seq<char>, Seq<char>>::empty(),
    {
        let entries: Vec<Entry> = Vec::new();
        let r = StringMap { entries };
        assert(r.deep_view() =~= Map::empty());
        r
    }

    /// How many keys come before `key`.
    fn place(&self, key: &str) -> (at: usize)
        ensures
            order::is_place(keys_of(self.entries.deep_view()), key@, at as int),
    {
        proof {
            use_type_invariant(self);
        }
        let ghost ks = keys_of(self.entries.deep_view());
        let mut at: usize = 0;
        while at < self.entries.len() && order::comes_before(self.entries[at].key.as_str(), key)
            invariant
                at <= self.entries.len(),
                ks == keys_of(self.entries.deep_view()),
                ks.len() == self.entries.len(),
                forall|i: int| 0 <= i < at ==> order::precedes(#[trigger] ks[i], key@),
            decreases self.entries.len() - at,
        {
            assert(ks[at as int] == self.entries@[at as int].key@);
            at = at + 1;
        }
        assert forall|i: int| at <= i < ks.len() implies !order::precedes(#[trigger] ks[i], key@) by {
            assert(ks[at as int] == self.entries@[at as int].key@);
            if i > at && order::precedes(ks[i], key@) {
                order::lemma_transitive(ks[at as int], ks[i], key@);
            }
        }
        at
    }

    /// Sets `key` to `value`, whatever it was before.
    pub fn insert(&mut self, key: String, value: String)
        ensures
            final(self).deep_view() == old(self).deep_view().insert(key@, value@),
    {
        proof {
            use_type_invariant(&*self);
        }
        let at = self.place(key.as_str());
        let present = at < self.entries.len() && same(self.entries[at].key.as_str(), key.as_str());
        let mut entries: Vec<Entry> = Vec::new();
        let mut i: usize = 0;
        let ghost s = self.entries.deep_view();
        let ghost k = key@;
        let ghost v = value@;
        let ghost t = if present {
            s.update(at as int, EntryView { key: k, value: v })
        } else {
            s.insert(at as int, EntryView { key: k, value: v })
        };
        while i < at
            invariant
                i <= at <= self.entries.len(),
                s == self.entries.deep_view(),
                entries.deep_view() == s.take(i as int),
            decreases at - i,
        {
            let ghost before = entries.deep_view();
            entries.push(self.entries[i].clone());
            assert(entries.deep_view() =~= before.push(s[i as int]));
            i = i + 1;
            assert(entries.deep_view() =~= s.take(i as int));
        }
        let ghost before = entries.deep_view();
        entries.push(Entry { key, value });
        assert(entries.deep_view() =~= before.push(EntryView { key: k, value: v }));
        if present {
            i = i + 1;
        }
        let ghost from = i;
        assert(entries.deep_view() =~= t.take(at + 1));
        while i < self.entries.len()
            invariant
                from <= i <= self.entries.len(),
                from == (if present {
                    at + 1
                } else {
                    at as int
                }),
                s == self.entries.deep_view(),
                t == (if present {
                    s.update(at as int, EntryView { key: k, value: v })
                } else {
                    s.insert(at as int, EntryView { key: k, value: v })
                }),
                at <= s.len(),
                present ==> at < s.len(),
                entries.deep_view() == t.take(at + 1 + i - from),
            decreases self.entries.len() - i,
        {
            let ghost before = entries.deep_view();
            entries.push(self.entries[i].clone());
            assert(entries.deep_view() =~= before.push(s[i as int]));
            i = i + 1;
            assert(entries.deep_view() =~= t.take(at + 1 + i - from));
        }
        assert(entries.deep_view() =~= t);
        proof {
            lemma_map_insert(s, at as int, k, v, present);
        }
        self.entries = entries;
    }

    /// The value of `key`, if it has one.
    pub fn get(&self, key: &str) -> (r: Option<&String>)
        ensures
            match r {
                Some(v) => self.deep_view().contains_key(key@) && self.deep_view()[key@] == v@,
                None => !self.deep_view().contains_key(key@),
            },
    {
        proof {
            use_type_invariant(self);
        }
        let at = self.place(key);
        let ghost s = self.entries.deep_view();
        let ghost ks = keys_of(s);
        proof {
            if at < ks.len() {
                assert(ks[at as int] == self.entries@[at as int].key@);
            }
        }
        if at < self.entries.len() && same(self.entries[at].key.as_str(), key) {
            assert(ks.contains(key@));
            proof {
                lemma_index_of(s, at as int);
            }
            Some(&self.entries[at].value)
        } else {
            proof {
                if ks.contains(key@) {
                    let j = choose|j: int| 0 <= j < ks.len() && ks[j] == key@;
                    order::lemma_irreflexive(key@);
                    assert(j >= at);
                    if j > at {
                        assert(order::precedes(ks[at as int], ks[j]));
                    }
                }
            }
            None
        }
    }

    /// Whether `key` has a value.
    pub fn contains_key(&self, key: &str) -> (r: bool)
        ensures
            r == self.deep_view().contains_key(key@),
    {
        self.get(key).is_some()
    }

    /// Whether no key has a value.
    pub fn is_empty(&self) -> (r: bool)
        ensures
            r == (self.deep_view() == Map::<Seq<char>, Seq<char>>::empty()),
    {
        let ghost s = self.entries.deep_view();
        proof {
            if s.len() > 0 {
                assert(keys_of(s)[0] == s[0].key);
                assert(self.deep_view().contains_key(s[0].key));
            } else {
                assert(self.deep_view() =~= Map::empty());
            }
        }
        self.entries.len() == 0
    }

    /// The entries, in the order of their keys.
    pub fn entries(&self) -> (r: &Vec<Entry>)
        ensures
            map_of(r.deep_view()) == self.deep_view(),
            order::ascending(keys_of(r.deep_view())),
    {
        proof {
            use_type_invariant(self);
        }
        &self.entries
    }
}

impl Clone for StringMap {
    fn clone(&self) -> (r: StringMap)
        ensures
            r.deep_view() == self.deep_view(),
    {
        proof {
            use_type_invariant(self);
        }
        let entries = self.entries.clone();
        assert(entries.deep_view() =~= self.entries.deep_view());
        StringMap { entries }
    }
}

/// In an ascending list of entries, a key is found at its one place.
proof fn lemma_index_of(s: Seq<EntryView>, i: int)
    requires
        order::ascending(keys_of(s)),
        0 <= i < s.len(),
    ensures
        keys_of(s).contains(s[i].key),
        keys_of(s).index_of(s[i].key) == i,
{
    let ks = keys_of(s);
    assert(ks[i] == s[i].key);
    let j = ks.index_of(s[i].key);
    order::lemma_irreflexive(s[i].key);
    if j < i {
        assert(order::precedes(ks[j], ks[i]));
    } else if i < j {
        assert(order::precedes(ks[i], ks[j]));
    }
}

/// Setting one entry in its place sets that key of the map, and keeps the keys ascending.
proof fn lemma_map_insert(
    s: Seq<EntryView>,
    at: int,
    k: Seq<char>,
    v: Seq<char>,
    present: bool,
)
    requires
        order::ascending(keys_of(s)),
        order::is_place(keys_of(s), k, at),
        present == (at < s.len() && s[at].key == k),
    ensures
        ({
            let t = if present {
                s.update(at, EntryView { key: k, value: v })
            } else {
                s.insert(at, EntryView { key: k, value: v })
            };
            order::ascending(keys_of(t)) && map_of(t) == map_of(s).insert(k, v)
        }),
{
    let t = if present {
        s.update(at, EntryView { key: k, value: v })
    } else {
        s.insert(at, EntryView { key: k, value: v })
    };
    if present {
        assert(keys_of(t) =~= keys_of(s));
    } else {
        order::lemma_insert_ascending(keys_of(s), k, at);
        assert(keys_of(t) =~= keys_of(s).insert(at, k));
    }
    assert(keys_of(t)[at] == k);
    assert(t[at] == (EntryView { key: k, value: v }));
    lemma_index_of(t, at);
    assert forall|x: Seq<char>| x != k implies #[trigger] map_of(t).contains_key(x) == map_of(
        s,
    ).contains_key(x) && (map_of(s).contains_key(x) ==> map_of(t)[x] == map_of(s)[x]) by {
        if keys_of(s).contains(x) {
            let i = keys_of(s).index_of(x);
            assert(s[i].key == x);
            let j = if present || i < at {
                i
            } else {
                i + 1
            };
            assert(t[j] == s[i]);
            lemma_index_of(t, j);
        }
        if keys_of(t).contains(x) {
            let j = keys_of(t).index_of(x);
            assert(t[j].key == x);
            let i = if present || j < at {
                j
            } else {
                j - 1
            };
            assert(s[i] == t[j]);
            assert(keys_of(s)[i] == x);
        }
    }
    assert(map_of(t) =~= map_of(s).insert(k, v));
}

/// A map holds the entries that it is listed by: a key has a value exactly if an entry gives it
/// one, and then that one.
pub proof fn law_entries(s: Seq<EntryView>, key: Seq<char>)
    requires
        order::ascending(keys_of(s)),
    ensures
        map_of(s).contains_key(key) <==> exists|i: int|
            0 <= i < s.len() && (#[trigger] s[i]).key == key,
        forall|i: int|
            0 <= i < s.len() && (#[trigger] s[i]).key == key ==> map_of(s)[key] == s[i].value,
        keys_of(s).len() == s.len(),
        forall|i: int| 0 <= i < s.len() ==> #[trigger] keys_of(s)[i] == s[i].key,
{
    if map_of(s).contains_key(key) {
        let i = keys_of(s).index_of(key);
        assert(s[i].key == key);
    }
    assert forall|i: int| 0 <= i < s.len() && (#[trigger] s[i]).key == key implies map_of(
        s,
    ).contains_key(key) && map_of(s)[key] == s[i].value by {
        assert(keys_of(s)[i] == key);
        lemma_index_of(s, i);
    }
}

} // verus!
