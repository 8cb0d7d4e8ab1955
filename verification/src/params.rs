//! A map from parameter names to values, as plans and requests carry them.

use vstd::prelude::*;
use crate::text::{compare_text, lemma_text_lt_transitive, lemma_text_lt_trichotomy, str_eq, text_lt, TextOrder};

verus! {

/// The map that a list of entries denotes, a later entry overriding an earlier
/// one with the same key.
pub open spec fn entries_map(s: Seq<(String, String)>) -> Map<Seq<char>, Seq<char>>
    decreases s.len(),
{
    if s.len() == 0 {
        Map::empty()
    } else {
        entries_map(s.drop_last()).insert(s.last().0@, s.last().1@)
    }
}

/// No key occurs twice among the entries.
pub open spec fn distinct_keys(s: Seq<(String, String)>) -> bool {
    forall|i: int, j: int|
        0 <= i < s.len() && 0 <= j < s.len() && i != j ==> #[trigger] s[i].0@ != #[trigger] s[j].0@
}

/// A key is in the denoted map exactly when some entry carries it.
pub proof fn lemma_entries_map_contains(s: Seq<(String, String)>, k: Seq<char>)
    ensures
        entries_map(s).contains_key(k) <==> exists|i: int| 0 <= i < s.len() && #[trigger] s[i].0@ == k,
    decreases s.len(),
{
    if s.len() > 0 {
        let p = s.drop_last();
        lemma_entries_map_contains(p, k);
        if entries_map(s).contains_key(k) {
            if k == s.last().0@ {
                assert(s[s.len() - 1].0@ == k);
            } else {
                let i = choose|i: int| 0 <= i < p.len() && #[trigger] p[i].0@ == k;
                assert(s[i].0@ == k);
            }
        }
        if exists|i: int| 0 <= i < s.len() && #[trigger] s[i].0@ == k {
            let i = choose|i: int| 0 <= i < s.len() && #[trigger] s[i].0@ == k;
            if i < s.len() - 1 {
                assert(p[i].0@ == k);
            }
        }
    }
}

/// With distinct keys, every entry's value is what the map holds for its key.
pub proof fn lemma_entries_map_value(s: Seq<(String, String)>, i: int)
    requires
        distinct_keys(s),
        0 <= i < s.len(),
    ensures
        entries_map(s).contains_key(s[i].0@),
        entries_map(s)[s[i].0@] == s[i].1@,
    decreases s.len(),
{
    if i < s.len() - 1 {
        let p = s.drop_last();
        assert(p[i] == s[i]);
        assert(distinct_keys(p)) by {
            assert forall|a: int, b: int|
                0 <= a < p.len() && 0 <= b < p.len() && a != b implies #[trigger] p[a].0@
                != #[trigger] p[b].0@ by {
                assert(p[a] == s[a] && p[b] == s[b]);
            }
        }
        lemma_entries_map_value(p, i);
        assert(s[i].0@ != s[s.len() - 1].0@);
    }
}

/// Replacing the value of an entry updates the map at that entry's key.
pub proof fn lemma_entries_map_update(s: Seq<(String, String)>, i: int, e: (String, String))
    requires
        distinct_keys(s),
        0 <= i < s.len(),
        e.0@ == s[i].0@,
    ensures
        entries_map(s.update(i, e)) == entries_map(s).insert(e.0@, e.1@),
    decreases s.len(),
{
    let t = s.update(i, e);
    let p = s.drop_last();
    if i == s.len() - 1 {
        assert(t.drop_last() =~= p);
        assert(entries_map(t) =~= entries_map(s).insert(e.0@, e.1@));
    } else {
        assert(t.drop_last() =~= p.update(i, e));
        assert(distinct_keys(p)) by {
            assert forall|a: int, b: int|
                0 <= a < p.len() && 0 <= b < p.len() && a != b implies #[trigger] p[a].0@
                != #[trigger] p[b].0@ by {
                assert(p[a] == s[a] && p[b] == s[b]);
            }
        }
        lemma_entries_map_update(p, i, e);
        assert(s[i].0@ != s[s.len() - 1].0@);
        assert(t.last() == s.last());
        assert(entries_map(t) =~= entries_map(s).insert(e.0@, e.1@));
    }
}

/// The keys increase strictly, in the order of [`text_lt`].
pub open spec fn keys_sorted(s: Seq<(String, String)>) -> bool {
    forall|i: int, j: int|
        #![trigger s[i], s[j]]
        0 <= i < j < s.len() ==> text_lt(s[i].0@, s[j].0@)
}

/// Sorted keys are distinct.
pub proof fn lemma_sorted_keys_distinct(s: Seq<(String, String)>)
    requires
        keys_sorted(s),
    ensures
        distinct_keys(s),
{
    assert forall|i: int, j: int|
        0 <= i < s.len() && 0 <= j < s.len() && i != j implies #[trigger] s[i].0@ != #[trigger] s[j].0@ by {
        if i < j {
            lemma_text_lt_trichotomy(s[i].0@, s[j].0@);
        } else {
            lemma_text_lt_trichotomy(s[j].0@, s[i].0@);
        }
    }
}

/// Inserting an entry with a new key anywhere in the list inserts it into the map.
pub proof fn lemma_entries_map_insert_at(s: Seq<(String, String)>, pos: int, e: (String, String))
    requires
        distinct_keys(s),
        0 <= pos <= s.len(),
        forall|i: int| 0 <= i < s.len() ==> #[trigger] s[i].0@ != e.0@,
    ensures
        distinct_keys(s.insert(pos, e)),
        entries_map(s.insert(pos, e)) == entries_map(s).insert(e.0@, e.1@),
{
    let t = s.insert(pos, e);
    assert forall|a: int, b: int|
        0 <= a < t.len() && 0 <= b < t.len() && a != b implies #[trigger] t[a].0@ != #[trigger] t[b].0@ by {
        let ia = if a < pos { a } else { a - 1 };
        let ib = if b < pos { b } else { b - 1 };
        if a != pos && b != pos {
            assert(t[a] == s[ia] && t[b] == s[ib]);
        } else if a == pos {
            assert(t[b] == s[ib]);
        } else {
            assert(t[a] == s[ia]);
        }
    }
    let m = entries_map(s).insert(e.0@, e.1@);
    assert forall|k: Seq<char>| #[trigger] entries_map(t).contains_key(k) <==> m.contains_key(k) by {
        lemma_entries_map_contains(t, k);
        lemma_entries_map_contains(s, k);
        if entries_map(t).contains_key(k) {
            let i = choose|i: int| 0 <= i < t.len() && #[trigger] t[i].0@ == k;
            if i < pos {
                assert(s[i] == t[i]);
            } else if i > pos {
                assert(s[i - 1] == t[i]);
            }
        }
        if entries_map(s).contains_key(k) {
            let i = choose|i: int| 0 <= i < s.len() && #[trigger] s[i].0@ == k;
            if i < pos {
                assert(t[i] == s[i]);
            } else {
                assert(t[i + 1] == s[i]);
            }
        }
        if k == e.0@ {
            assert(t[pos] == e);
        }
    }
    assert forall|k: Seq<char>| #[trigger] entries_map(t).contains_key(k) implies entries_map(t)[k] == m[k] by {
        lemma_entries_map_contains(t, k);
        let i = choose|i: int| 0 <= i < t.len() && #[trigger] t[i].0@ == k;
        lemma_entries_map_value(t, i);
        if i < pos {
            assert(s[i] == t[i]);
            lemma_entries_map_value(s, i);
        } else if i > pos {
            assert(s[i - 1] == t[i]);
            lemma_entries_map_value(s, i - 1);
        }
    }
    assert(entries_map(t) =~= m);
}

/// A map from parameter names to values. Each name occurs once, and the entries
/// are kept in increasing order of their names.
#[derive(Debug)]
pub struct Params {
    entries: Vec<(String, String)>,
}

impl View for Params {
    type V = Map<Seq<char>, Seq<char>>;

    closed spec fn view(&self) -> Map<Seq<char>, Seq<char>> {
        entries_map(self.entries@)
    }
}

impl Params {
    #[verifier::type_invariant]
    closed spec fn keys_are_sorted(self) -> bool {
        keys_sorted(self.entries@)
    }

    /// An empty map.
    pub fn new() -> (r: Params)
        ensures
            r@ == Map::<Seq<char>, Seq<char>>::empty(),
    {
        Params { entries: Vec::new() }
    }

    /// Position of the entry whose key is `key`, if any.
    fn position(&self, key: &str) -> (r: Option<usize>)
        ensures
            match r {
                Some(i) => i < self.entries@.len() && self.entries@[i as int].0@ == key@,
                None => !self@.contains_key(key@),
            },
    {
        let n = self.entries.len();
        let mut i: usize = 0;
        while i < n
            invariant
                n == self.entries@.len(),
                i <= n,
                forall|j: int| 0 <= j < i ==> #[trigger] self.entries@[j].0@ != key@,
            decreases n - i,
        {
            if str_eq(self.entries[i].0.as_str(), key) {
                return Some(i);
            }
            i = i + 1;
        }
        proof {
            lemma_entries_map_contains(self.entries@, key@);
        }
        None
    }

    /// The value stored under `key`, if any.
    pub fn get(&self, key: &str) -> (r: Option<&String>)
        ensures
            r is Some <==> self@.contains_key(key@),
            r matches Some(v) ==> v@ == self@[key@],
    {
        proof {
            use_type_invariant(self);
            lemma_sorted_keys_distinct(self.entries@);
        }
        match self.position(key) {
            Some(i) => {
                proof {
                    lemma_entries_map_value(self.entries@, i as int);
                }
                Some(&self.entries[i].1)
            },
            None => None,
        }
    }

    /// Stores `value` under `key`, and hands back the value that was there before.
    pub fn insert(&mut self, key: String, value: String) -> (r: Option<String>)
        ensures
            final(self)@ == old(self)@.insert(key@, value@),
            r is Some <==> old(self)@.contains_key(key@),
            r matches Some(v) ==> v@ == old(self)@[key@],
    {
        proof {
            use_type_invariant(&*self);
            lemma_sorted_keys_distinct(self.entries@);
        }
        let ghost s = self.entries@;
        let n = self.entries.len();
        let mut i: usize = 0;
        while i < n && key_before(self.entries[i].0.as_str(), key.as_str())
            invariant
                n == self.entries@.len(),
                s == self.entries@,
                i <= n,
                forall|j: int| 0 <= j < i ==> text_lt(#[trigger] s[j].0@, key@),
            decreases n - i,
        {
            i = i + 1;
        }
        if i < n && str_eq(self.entries[i].0.as_str(), key.as_str()) {
            let previous = self.entries[i].1.clone();
            proof {
                lemma_entries_map_value(s, i as int);
                lemma_entries_map_update(s, i as int, (key, value));
            }
            let mut entries: Vec<(String, String)> = Vec::new();
            std::mem::swap(&mut entries, &mut self.entries);
            entries.set(i, (key, value));
            proof {
                assert forall|a: int, b: int|
                    #![trigger entries@[a], entries@[b]]
                    0 <= a < b < entries@.len() implies text_lt(entries@[a].0@, entries@[b].0@) by {
                    assert(text_lt(s[a].0@, s[b].0@));
                }
            }
            self.entries = entries;
            Some(previous)
        } else {
            proof {
                assert forall|j: int| 0 <= j < s.len() implies #[trigger] s[j].0@ != key@ && (i <= j
                    ==> text_lt(key@, s[j].0@)) by {
                    if j < i {
                        lemma_text_lt_trichotomy(s[j].0@, key@);
                    } else {
                        lemma_text_lt_trichotomy(s[i as int].0@, key@);
                        if j > i {
                            lemma_text_lt_transitive(key@, s[i as int].0@, s[j].0@);
                        }
                        lemma_text_lt_trichotomy(key@, s[j].0@);
                    }
                }
                lemma_entries_map_insert_at(s, i as int, (key, value));
                lemma_entries_map_contains(s, key@);
            }
            let mut entries: Vec<(String, String)> = Vec::new();
            std::mem::swap(&mut entries, &mut self.entries);
            entries.insert(i, (key, value));
            proof {
                assert forall|a: int, b: int|
                    #![trigger entries@[a], entries@[b]]
                    0 <= a < b < entries@.len() implies text_lt(entries@[a].0@, entries@[b].0@) by {
                    if b < i {
                        assert(text_lt(s[a].0@, s[b].0@));
                    } else if a < i && b == i {
                    } else if a < i {
                        assert(entries@[b] == s[b - 1]);
                        assert(text_lt(s[a].0@, s[b - 1].0@));
                    } else if a == i {
                        assert(entries@[b] == s[b - 1]);
                    } else {
                        assert(text_lt(s[a - 1].0@, s[b - 1].0@));
                    }
                }
            }
            self.entries = entries;
            None
        }
    }

    /// The entries, each key once, in increasing order of the keys.
    pub fn entries(&self) -> (r: &[(String, String)])
        ensures
            keys_sorted(r@),
            distinct_keys(r@),
            entries_map(r@) == self@,
    {
        proof {
            use_type_invariant(self);
            lemma_sorted_keys_distinct(self.entries@);
        }
        self.entries.as_slice()
    }
}

/// Whether `a` comes before `b` in the order of [`text_lt`].
fn key_before(a: &str, b: &str) -> (r: bool)
    ensures
        r == text_lt(a@, b@),
{
    match compare_text(a, b) {
        TextOrder::Less => true,
        _ => false,
    }
}

impl Clone for Params {
    fn clone(&self) -> (r: Params)
        ensures
            r@ == self@,
    {
        proof {
            use_type_invariant(self);
        }
        let n = self.entries.len();
        let mut entries: Vec<(String, String)> = Vec::new();
        let mut i: usize = 0;
        while i < n
            invariant
                n == self.entries@.len(),
                i <= n,
                entries@ == self.entries@.subrange(0, i as int),
            decreases n - i,
        {
            let k = self.entries[i].0.clone();
            let v = self.entries[i].1.clone();
            entries.push((k, v));
            assert(entries@ =~= self.entries@.subrange(0, i + 1));
            i = i + 1;
        }
        assert(entries@ =~= self.entries@);
        Params { entries }
    }
}

} // verus!
