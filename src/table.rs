//! A table of values keyed by strings, in order of first insertion.
use vstd::prelude::*;

use crate::chars::str_eq;

verus! {

/// The value of the first entry keyed `key`.
pub open spec fn lookup<V>(e: Seq<(String, V)>, key: Seq<char>) -> Option<V>
    decreases e.len(),
{
    if e.len() == 0 {
        None
    } else if e[0].0@ == key {
        Some(e[0].1)
    } else {
        lookup(e.drop_first(), key)
    }
}

pub proof fn lemma_lookup_skip<V>(e: Seq<(String, V)>, key: Seq<char>, i: int)
    requires
        0 <= i <= e.len(),
        forall|j: int| 0 <= j < i ==> (#[trigger] e[j]).0@ != key,
    ensures
        lookup(e, key) == lookup(e.skip(i), key),
    decreases i,
{
    if i > 0 {
        let t = e.drop_first();
        assert(e[0].0@ != key);
        assert forall|j: int| 0 <= j < i - 1 implies (#[trigger] t[j]).0@ != key by {
            assert(t[j] == e[j + 1]);
        }
        lemma_lookup_skip(t, key, i - 1);
        assert(t.skip(i - 1) =~= e.skip(i));
    } else {
        assert(e.skip(0) =~= e);
    }
}

pub proof fn lemma_lookup_push<V>(e: Seq<(String, V)>, k: String, v: V, key: Seq<char>)
    requires
        lookup(e, k@) is None,
    ensures
        lookup(e.push((k, v)), key) == if key == k@ {
            Some(v)
        } else {
            lookup(e, key)
        },
    decreases e.len(),
{
    if e.len() == 0 {
        assert(e.push((k, v))[0] == (k, v));
    } else {
        assert(e.push((k, v)).drop_first() =~= e.drop_first().push((k, v)));
        if e[0].0@ != key && e[0].0@ != k@ {
            lemma_lookup_push(e.drop_first(), k, v, key);
        } else if e[0].0@ != k@ {
        } else {
            lemma_lookup_push(e.drop_first(), k, v, key);
        }
    }
}

/// Values keyed by strings; a key's value is that of its first entry.
pub struct Table<V> {
    pub entries: Vec<(String, V)>,
}

impl<V> Table<V> {
    /// The value kept under `key`.
    pub open spec fn value_of(&self, key: Seq<char>) -> Option<V> {
        lookup(self.entries@, key)
    }

    pub fn new() -> (r: Table<V>)
        ensures
            r.entries@.len() == 0,
            forall|k: Seq<char>| r.value_of(k) is None,
    {
        Table { entries: Vec::new() }
    }

    pub fn len(&self) -> (r: usize)
        ensures
            r == self.entries@.len(),
    {
        self.entries.len()
    }

    pub fn is_empty(&self) -> (r: bool)
        ensures
            r == (self.entries@.len() == 0),
    {
        self.entries.len() == 0
    }

    fn position(&self, key: &str) -> (r: Option<usize>)
        ensures
            match r {
                Some(i) => i < self.entries@.len() && self.entries@[i as int].0@ == key@ && forall|
                    j: int,
                | 0 <= j < i ==> (#[trigger] self.entries@[j]).0@ != key@,
                None => self.value_of(key@) is None,
            },
    {
        let mut i: usize = 0;
        while i < self.entries.len()
            invariant
                0 <= i <= self.entries@.len(),
                forall|j: int| 0 <= j < i ==> (#[trigger] self.entries@[j]).0@ != key@,
            decreases self.entries@.len() - i,
        {
            if str_eq(self.entries[i].0.as_str(), key) {
                return Some(i);
            }
            i = i + 1;
        }
        proof {
            lemma_lookup_skip(self.entries@, key@, i as int);
        }
        None
    }

    /// The value kept under `key`.
    pub fn get(&self, key: &str) -> (r: Option<&V>)
        ensures
            match r {
                Some(v) => self.value_of(key@) == Some(*v),
                None => self.value_of(key@) is None,
            },
    {
        match self.position(key) {
            Some(i) => {
                proof {
                    lemma_lookup_skip(self.entries@, key@, i as int);
                    assert(self.entries@.skip(i as int)[0] == self.entries@[i as int]);
                }
                Some(&self.entries[i].1)
            },
            None => None,
        }
    }

    /// Keeps `value` under `key`, replacing a value kept before.
    pub fn insert(&mut self, key: String, value: V)
        ensures
            final(self).value_of(key@) == Some(value),
            forall|k: Seq<char>| k != key@ ==> final(self).value_of(k) == old(self).value_of(k),
    {
        match self.position(key.as_str()) {
            Some(i) => {
                let ghost e = self.entries@;
                let k = key;
                self.entries.set(i, (k, value));
                proof {
                    assert forall|kk: Seq<char>| #[trigger] lookup(self.entries@, kk) == if kk
                        == key@ {
                        Some(value)
                    } else {
                        lookup(e, kk)
                    } by {
                        lemma_lookup_update_key(e, i as int, k, value, kk);
                    }
                }
            },
            None => {
                let ghost e = self.entries@;
                proof {
                    assert forall|kk: Seq<char>| #[trigger] lookup(e.push((key, value)), kk) == if kk
                        == key@ {
                        Some(value)
                    } else {
                        lookup(e, kk)
                    } by {
                        lemma_lookup_push(e, key, value, kk);
                    }
                }
                self.entries.push((key, value));
            },
        }
    }

    /// Keeps `value` under `key` unless a value is kept there already.
    pub fn insert_if_absent(&mut self, key: String, value: V)
        ensures
            old(self).value_of(key@) is Some ==> *final(self) == *old(self),
            old(self).value_of(key@) is None ==> final(self).value_of(key@) == Some(value),
            forall|k: Seq<char>| k != key@ ==> final(self).value_of(k) == old(self).value_of(k),
    {
        match self.position(key.as_str()) {
            Some(i) => {
                proof {
                    lemma_lookup_skip(self.entries@, key@, i as int);
                }
            },
            None => {
                self.insert(key, value);
            },
        }
    }
}

pub proof fn lemma_lookup_update_key<V>(e: Seq<(String, V)>, i: int, k: String, v: V, key: Seq<char>)
    requires
        0 <= i < e.len(),
        e[i].0@ == k@,
        forall|j: int| 0 <= j < i ==> (#[trigger] e[j]).0@ != e[i].0@,
    ensures
        lookup(e.update(i, (k, v)), key) == if key == k@ {
            Some(v)
        } else {
            lookup(e, key)
        },
    decreases i,
{
    if i == 0 {
        assert(e.update(0, (k, v)).drop_first() =~= e.drop_first());
    } else {
        let t = e.drop_first();
        assert(e.update(i, (k, v)).drop_first() =~= t.update(i - 1, (k, v)));
        assert forall|j: int| 0 <= j < i - 1 implies (#[trigger] t[j]).0@ != t[i - 1].0@ by {
            assert(t[j] == e[j + 1]);
        }
        lemma_lookup_update_key(t, i - 1, k, v, key);
    }
}

impl<V> Table<V> {
    /// Takes every entry of `other` in, its values replacing those kept under the same keys.
    pub fn absorb(&mut self, other: Table<V>)
        ensures
            forall|k: Seq<char>|
                #[trigger] final(self).value_of(k) == match other.value_of(k) {
                    Some(v) => Some(v),
                    None => old(self).value_of(k),
                },
    {
        let ghost e = other.entries@;
        let mut rest = other.entries;
        while rest.len() > 0
            invariant
                rest@ == e.take(rest@.len() as int),
                rest@.len() <= e.len(),
                forall|k: Seq<char>|
                    #[trigger] self.value_of(k) == match lookup(e.skip(rest@.len() as int), k) {
                        Some(v) => Some(v),
                        None => old(self).value_of(k),
                    },
            decreases rest@.len(),
        {
            let ghost j = rest@.len() as int;
            let ghost before = rest@;
            let (k, v) = match rest.pop() {
                Some(x) => x,
                None => {
                    return;
                },
            };
            assert(before.last() == e[j - 1]);
            assert(rest@ =~= e.take(j - 1));
            assert(e.skip(j - 1).drop_first() =~= e.skip(j));
            assert(e.skip(j - 1)[0] == e[j - 1]);
            self.insert(k, v);
        }
        assert(e.skip(0) =~= e);
    }
}

} // verus!
