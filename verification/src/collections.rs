//! Small ordered maps and sets keyed by strings.
//!
//! Routing configuration is keyed by path, method and handler names. These
//! containers keep their entries in insertion order with no key occurring
//! twice, so every walk over a configuration is deterministic.
use vstd::prelude::*;

verus! {

/// Whether no two entries of `s` share a key.
pub open spec fn keys_distinct<V>(s: Seq<(Seq<char>, V)>) -> bool {
    forall|i: int, j: int| 0 <= i < s.len() && 0 <= j < s.len() && i != j ==> s[i].0 != s[j].0
}

/// The position of key `k` in `s`, or `-1` when `k` is absent.
pub open spec fn key_index<V>(s: Seq<(Seq<char>, V)>, k: Seq<char>) -> int {
    if exists|i: int| 0 <= i < s.len() && s[i].0 == k {
        choose|i: int| 0 <= i < s.len() && s[i].0 == k
    } else {
        -1
    }
}

/// Whether some entry of `s` has key `k`.
pub open spec fn has_key<V>(s: Seq<(Seq<char>, V)>, k: Seq<char>) -> bool {
    exists|i: int| 0 <= i < s.len() && s[i].0 == k
}

/// The entry sequence after setting key `k` to `v`: an existing entry keeps
/// its place, a new one goes to the end.
pub open spec fn entries_insert<V>(s: Seq<(Seq<char>, V)>, k: Seq<char>, v: V) -> Seq<(Seq<char>, V)> {
    if has_key(s, k) {
        s.update(key_index(s, k), (k, v))
    } else {
        s.push((k, v))
    }
}

/// The value stored under `k`, if any.
pub open spec fn entries_get<V>(s: Seq<(Seq<char>, V)>, k: Seq<char>) -> Option<V> {
    if has_key(s, k) {
        Some(s[key_index(s, k)].1)
    } else {
        None
    }
}

pub proof fn lemma_key_index<V>(s: Seq<(Seq<char>, V)>, k: Seq<char>, i: int)
    requires
        keys_distinct(s),
        0 <= i < s.len(),
        s[i].0 == k,
    ensures
        has_key(s, k),
        key_index(s, k) == i,
{
}

pub proof fn lemma_insert_distinct<V>(s: Seq<(Seq<char>, V)>, k: Seq<char>, v: V)
    requires
        keys_distinct(s),
    ensures
        keys_distinct(entries_insert(s, k, v)),
        has_key(entries_insert(s, k, v), k),
        entries_get(entries_insert(s, k, v), k) == Some(v),
        forall|k2: Seq<char>| k2 != k ==> entries_get(entries_insert(s, k, v), k2) == entries_get(s, k2),
        forall|k2: Seq<char>| #[trigger] has_key(entries_insert(s, k, v), k2) <==> (has_key(s, k2) || k2 == k),
{
    let t = entries_insert(s, k, v);
    if has_key(s, k) {
        let i = key_index(s, k);
        assert(t[i].0 == k);
        lemma_key_index(t, k, i);
        assert forall|k2: Seq<char>| k2 != k implies entries_get(t, k2) == entries_get(s, k2) by {
            if has_key(s, k2) {
                let j = key_index(s, k2);
                assert(t[j].0 == k2);
                lemma_key_index(t, k2, j);
            }
            if has_key(t, k2) {
                let j = key_index(t, k2);
                assert(s[j].0 == k2);
            }
        }
        assert forall|k2: Seq<char>| #[trigger] has_key(t, k2) <==> (has_key(s, k2) || k2 == k) by {
            if has_key(s, k2) {
                let j = key_index(s, k2);
                if j == i {
                    assert(t[j].0 == k2);
                } else {
                    assert(t[j].0 == k2);
                }
            }
            if has_key(t, k2) {
                let j = key_index(t, k2);
                if j != i {
                    assert(s[j].0 == k2);
                }
            }
        }
    } else {
        let n = s.len() as int;
        assert(t[n].0 == k);
        lemma_key_index(t, k, n);
        assert forall|k2: Seq<char>| k2 != k implies entries_get(t, k2) == entries_get(s, k2) by {
            if has_key(s, k2) {
                let j = key_index(s, k2);
                assert(t[j].0 == k2);
                lemma_key_index(t, k2, j);
            }
            if has_key(t, k2) {
                let j = key_index(t, k2);
                assert(j != n);
                assert(s[j].0 == k2);
            }
        }
        assert forall|k2: Seq<char>| #[trigger] has_key(t, k2) <==> (has_key(s, k2) || k2 == k) by {
            if has_key(s, k2) {
                let j = key_index(s, k2);
                assert(t[j].0 == k2);
            }
            if has_key(t, k2) {
                let j = key_index(t, k2);
                if j != n {
                    assert(s[j].0 == k2);
                }
            }
        }
    }
}

/// Every entry after an insertion is either the inserted one or an entry
/// that was there before, at the same place.
pub proof fn lemma_insert_elements<V>(s: Seq<(Seq<char>, V)>, k: Seq<char>, v: V)
    ensures
        entries_insert(s, k, v).len() >= s.len(),
        forall|j: int| 0 <= j < entries_insert(s, k, v).len() ==>
            #[trigger] entries_insert(s, k, v)[j] == (k, v) || (j < s.len() && entries_insert(s, k, v)[j] == s[j]),
{
}

/// An insertion-ordered map from strings to values.
pub struct StrMap<V> {
    entries: Vec<(String, V)>,
}

impl<V> StrMap<V> {
    /// The entries, by key view and value, in insertion order.
    pub closed spec fn entries(&self) -> Seq<(Seq<char>, V)> {
        self.entries@.map_values(|e: (String, V)| (e.0@, e.1))
    }

    /// Keys are never repeated.
    pub open spec fn wf(&self) -> bool {
        keys_distinct(self.entries())
    }

    pub open spec fn contains_spec(&self, k: Seq<char>) -> bool {
        has_key(self.entries(), k)
    }

    pub open spec fn get_spec(&self, k: Seq<char>) -> Option<V> {
        entries_get(self.entries(), k)
    }

    /// Creates an empty map.
    pub fn new() -> (m: Self)
        ensures
            m.entries() == Seq::<(Seq<char>, V)>::empty(),
            m.wf(),
    {
        let m = StrMap { entries: Vec::new() };
        assert(m.entries() =~= Seq::<(Seq<char>, V)>::empty());
        m
    }

    /// Number of keys.
    pub fn len(&self) -> (n: usize)
        ensures
            n == self.entries().len(),
    {
        self.entries.len()
    }

    /// Position of `key` among the entries.
    pub fn find(&self, key: &str) -> (r: Option<usize>)
        requires
            self.wf(),
        ensures
            match r {
                Some(i) => i < self.entries().len() && self.entries()[i as int].0 == key@
                    && key_index(self.entries(), key@) == i && has_key(self.entries(), key@),
                None => !has_key(self.entries(), key@),
            },
    {
        let k = key.to_owned();
        let mut i: usize = 0;
        while i < self.entries.len()
            invariant
                self.wf(),
                k@ == key@,
                i <= self.entries@.len(),
                forall|j: int| 0 <= j < i ==> self.entries()[j].0 != key@,
            decreases self.entries@.len() - i,
        {
            if self.entries[i].0 == k {
                proof {
                    assert(self.entries()[i as int].0 == key@);
                    lemma_key_index(self.entries(), key@, i as int);
                }
                return Some(i);
            }
            proof {
                assert(self.entries()[i as int].0 == self.entries@[i as int].0@);
            }
            i = i + 1;
        }
        proof {
            assert(self.entries().len() == self.entries@.len());
        }
        None
    }

    /// Whether `key` is present.
    pub fn contains_key(&self, key: &str) -> (b: bool)
        requires
            self.wf(),
        ensures
            b == self.contains_spec(key@),
    {
        self.find(key).is_some()
    }

    /// The value under `key`.
    pub fn get(&self, key: &str) -> (r: Option<&V>)
        requires
            self.wf(),
        ensures
            r.is_some() == self.contains_spec(key@),
            r matches Some(v) ==> self.get_spec(key@) == Some(*v),
    {
        match self.find(key) {
            Some(i) => {
                proof {
                    assert(self.entries()[i as int].1 == self.entries@[i as int].1);
                }
                Some(&self.entries[i].1)
            },
            None => None,
        }
    }

    /// The key and value at position `i`.
    pub fn entry_at(&self, i: usize) -> (r: (&String, &V))
        requires
            i < self.entries().len(),
        ensures
            r.0@ == self.entries()[i as int].0,
            *r.1 == self.entries()[i as int].1,
    {
        let e = &self.entries[i];
        (&e.0, &e.1)
    }

    /// Sets `key` to `value`, returning the value it replaced.
    pub fn insert(&mut self, key: String, value: V) -> (old_value: Option<V>)
        requires
            old(self).wf(),
        ensures
            final(self).wf(),
            final(self).entries() == entries_insert(old(self).entries(), key@, value),
            old_value == entries_get(old(self).entries(), key@),
    {
        proof {
            lemma_insert_distinct(self.entries(), key@, value);
        }
        match self.find(key.as_str()) {
            Some(i) => {
                let (k, old_v) = self.entries.remove(i);
                self.entries.insert(i, (key, value));
                proof {
                    assert(self.entries() =~= entries_insert(old(self).entries(), key@, value));
                }
                Some(old_v)
            },
            None => {
                self.entries.push((key, value));
                proof {
                    assert(self.entries() =~= entries_insert(old(self).entries(), key@, value));
                }
                None
            },
        }
    }

    /// Mutable access to the value under `key`, inserting `init` first when
    /// the key is absent.
    pub fn value_mut(&mut self, key: &str, init: V) -> (r: &mut V)
        requires
            old(self).wf(),
        ensures
            *r == (match entries_get(old(self).entries(), key@) {
                Some(v) => v,
                None => init,
            }),
            final(self).entries() == entries_insert(old(self).entries(), key@, *final(r)),
    {
        let i = match self.find(key) {
            Some(i) => i,
            None => {
                let k = key.to_owned();
                proof {
                    lemma_insert_distinct(self.entries(), key@, init);
                }
                self.entries.push((k, init));
                proof {
                    assert(self.entries() =~= entries_insert(old(self).entries(), key@, init));
                    lemma_key_index(self.entries(), key@, (self.entries().len() - 1) as int);
                }
                (self.entries.len() - 1) as usize
            },
        };
        let r = &mut self.entries[i].1;
        r
    }
}

/// An insertion-ordered set of strings.
pub struct StrSet {
    items: Vec<String>,
}

impl StrSet {
    /// The members, in insertion order.
    pub closed spec fn items(&self) -> Seq<Seq<char>> {
        self.items@.map_values(|s: String| s@)
    }

    /// Members are never repeated.
    pub open spec fn wf(&self) -> bool {
        self.items().no_duplicates()
    }

    /// Creates an empty set.
    pub fn new() -> (s: Self)
        ensures
            s.items() == Seq::<Seq<char>>::empty(),
            s.wf(),
    {
        let s = StrSet { items: Vec::new() };
        assert(s.items() =~= Seq::<Seq<char>>::empty());
        s
    }

    /// Number of members.
    pub fn len(&self) -> (n: usize)
        ensures
            n == self.items().len(),
    {
        self.items.len()
    }

    /// Whether `name` is a member.
    pub fn contains(&self, name: &str) -> (b: bool)
        ensures
            b == self.items().contains(name@),
    {
        let k = name.to_owned();
        let mut i: usize = 0;
        while i < self.items.len()
            invariant
                k@ == name@,
                i <= self.items@.len(),
                forall|j: int| 0 <= j < i ==> self.items()[j] != name@,
            decreases self.items@.len() - i,
        {
            if self.items[i] == k {
                proof {
                    assert(self.items()[i as int] == name@);
                }
                return true;
            }
            i = i + 1;
        }
        false
    }

    /// The member at position `i`.
    pub fn item_at(&self, i: usize) -> (r: &String)
        requires
            i < self.items().len(),
        ensures
            r@ == self.items()[i as int],
    {
        &self.items[i]
    }

    /// Adds `name`; returns whether it was new.
    pub fn insert(&mut self, name: String) -> (added: bool)
        requires
            old(self).wf(),
        ensures
            final(self).wf(),
            added == !old(self).items().contains(name@),
            final(self).items() == (if added { old(self).items().push(name@) } else { old(self).items() }),
    {
        if self.contains(name.as_str()) {
            false
        } else {
            self.items.push(name);
            proof {
                assert(self.items() =~= old(self).items().push(name@));
            }
            true
        }
    }
}

} // verus!
