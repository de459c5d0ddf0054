//! String-keyed tables with unique keys and stable insertion order.
//!
//! The resolution pipeline works on plain name-to-value mappings. This
//! module provides the one table type they all share: a vector of
//! `(name, value)` entries whose keys are unique, viewed abstractly as a
//! sequence of `(Seq<char>, value)` pairs. Keeping the entry order in the
//! view makes every pipeline stage a deterministic function of its input.

use vstd::prelude::*;
use vstd::string::StrSliceExecFns;

verus! {

/// Character-for-character string equality.
pub fn str_eq(a: &str, b: &str) -> (r: bool)
    ensures
        r == (a@ == b@),
{
    let n = a.unicode_len();
    let m = b.unicode_len();
    if n != m {
        return false;
    }
    let mut i: usize = 0;
    while i < n
        invariant
            i <= n,
            n == a@.len(),
            n == b@.len(),
            forall|j: int| 0 <= j < i ==> a@[j] == b@[j],
        decreases n - i,
    {
        if a.get_char(i) != b.get_char(i) {
            return false;
        }
        i += 1;
    }
    proof {
        assert(a@ =~= b@);
    }
    true
}

/// The key sequence of a table view.
pub open spec fn table_keys<T>(s: Seq<(Seq<char>, T)>) -> Seq<Seq<char>> {
    s.map_values(|p: (Seq<char>, T)| p.0)
}

/// Whether a table view holds an entry under the given key.
pub open spec fn table_has<T>(s: Seq<(Seq<char>, T)>, k: Seq<char>) -> bool {
    exists|i: int| 0 <= i < s.len() && s[i].0 == k
}

/// The position of the first entry under the given key.
pub open spec fn table_index<T>(s: Seq<(Seq<char>, T)>, k: Seq<char>) -> int
    decreases s.len(),
{
    if s.len() == 0 {
        0
    } else if s[0].0 == k {
        0
    } else {
        1 + table_index(s.drop_first(), k)
    }
}

/// The value stored under the given key.
pub open spec fn table_get<T>(s: Seq<(Seq<char>, T)>, k: Seq<char>) -> T
    recommends
        table_has(s, k),
{
    s[table_index(s, k)].1
}

/// Whether all keys of a table view are distinct.
pub open spec fn table_keys_unique<T>(s: Seq<(Seq<char>, T)>) -> bool {
    forall|i: int, j: int| 0 <= i < j < s.len() ==> s[i].0 != s[j].0
}

/// A key that is present selects a well-formed first position.
pub proof fn lemma_table_index_valid<T>(s: Seq<(Seq<char>, T)>, k: Seq<char>)
    requires
        table_has(s, k),
    ensures
        0 <= table_index(s, k) < s.len(),
        s[table_index(s, k)].0 == k,
        forall|j: int| 0 <= j < table_index(s, k) ==> s[j].0 != k,
    decreases s.len(),
{
    if s.len() > 0 && s[0].0 != k {
        let i = choose|i: int| 0 <= i < s.len() && s[i].0 == k;
        assert(s.drop_first()[i - 1].0 == k);
        lemma_table_index_valid(s.drop_first(), k);
        assert forall|j: int| 0 <= j < table_index(s, k) implies s[j].0 != k by {
            if j > 0 {
                assert(s.drop_first()[j - 1] == s[j]);
            }
        }
    }
}

/// The first position whose key matches, with no match before it, is the
/// position that `table_index` selects.
pub proof fn lemma_table_index_of_first<T>(s: Seq<(Seq<char>, T)>, k: Seq<char>, i: int)
    requires
        0 <= i < s.len(),
        s[i].0 == k,
        forall|j: int| 0 <= j < i ==> s[j].0 != k,
    ensures
        table_index(s, k) == i,
    decreases i,
{
    if i > 0 {
        assert(s.drop_first()[i - 1].0 == k);
        assert(forall|j: int| 0 <= j < i - 1 ==> s.drop_first()[j].0 == s[j + 1].0);
        lemma_table_index_of_first(s.drop_first(), k, i - 1);
    }
}

/// Appending an entry leaves every present key's lookup unchanged.
pub proof fn lemma_push_preserves_get<T>(s: Seq<(Seq<char>, T)>, name: Seq<char>, v: T)
    ensures
        forall|k: Seq<char>|
            table_has(s, k) ==> table_has(s.push((name, v)), k) && table_get(s.push((name, v)), k)
                == #[trigger] table_get(s, k),
{
    let s2 = s.push((name, v));
    assert forall|k: Seq<char>| table_has(s, k) implies table_has(s2, k) && table_get(s2, k)
        == table_get(s, k) by {
        lemma_table_index_valid(s, k);
        let i = table_index(s, k);
        assert(s2[i] == s[i]);
        assert(forall|j: int| 0 <= j < i ==> s2[j] == s[j]);
        lemma_table_index_of_first(s2, k, i);
    }
}

/// A string-keyed table with unique keys, in insertion order.
#[derive(Debug, Clone)]
pub struct Table<V> {
    entries: Vec<(String, V)>,
}

impl<V: View> View for Table<V> {
    type V = Seq<(Seq<char>, V::V)>;

    closed spec fn view(&self) -> Seq<(Seq<char>, V::V)> {
        self.entries@.map_values(|p: (String, V)| (p.0@, p.1@))
    }
}

impl<V: View> Table<V> {
    /// Well-formedness: all keys distinct.
    pub open spec fn wf(&self) -> bool {
        table_keys_unique(self@)
    }

    /// Create an empty table.
    pub fn new() -> (t: Self)
        ensures
            t@ == Seq::<(Seq<char>, V::V)>::empty(),
            t.wf(),
    {
        let t = Table { entries: Vec::new() };
        proof {
            assert(t@ =~= Seq::<(Seq<char>, V::V)>::empty());
        }
        t
    }

    /// Number of entries.
    pub fn len(&self) -> (n: usize)
        ensures
            n == self@.len(),
    {
        self.entries.len()
    }

    /// Whether the table holds no entry.
    pub fn is_empty(&self) -> (r: bool)
        ensures
            r == (self@.len() == 0),
    {
        self.entries.len() == 0
    }

    /// The position of the entry under `name`, if present.
    fn find(&self, name: &str) -> (r: Option<usize>)
        ensures
            match r {
                Some(i) => i < self@.len() && self@[i as int].0 == name@ && table_index(
                    self@,
                    name@,
                ) == i && table_has(self@, name@),
                None => !table_has(self@, name@),
            },
    {
        let mut i: usize = 0;
        let n = self.entries.len();
        while i < n
            invariant
                i <= n,
                n == self@.len(),
                forall|j: int| 0 <= j < i ==> self@[j].0 != name@,
            decreases n - i,
        {
            if str_eq(self.entries[i].0.as_str(), name) {
                proof {
                    lemma_table_index_of_first(self@, name@, i as int);
                }
                return Some(i);
            }
            i += 1;
        }
        None
    }

    /// Whether an entry exists under `name`.
    pub fn contains_key(&self, name: &str) -> (r: bool)
        ensures
            r == table_has(self@, name@),
    {
        self.find(name).is_some()
    }

    /// Borrow the value stored under `name`.
    pub fn get(&self, name: &str) -> (r: Option<&V>)
        ensures
            match r {
                Some(v) => table_has(self@, name@) && v@ == table_get(self@, name@),
                None => !table_has(self@, name@),
            },
    {
        match self.find(name) {
            Some(i) => Some(&self.entries[i].1),
            None => None,
        }
    }

    /// Insert a value under `name`, replacing an existing entry in place
    /// and appending a new entry otherwise.
    pub fn insert(&mut self, name: &str, v: V)
        requires
            old(self).wf(),
        ensures
            final(self).wf(),
            table_has(old(self)@, name@) ==> final(self)@ == old(self)@.update(
                table_index(old(self)@, name@),
                (name@, v@),
            ),
            !table_has(old(self)@, name@) ==> final(self)@ == old(self)@.push((name@, v@)),
    {
        match self.find(name) {
            Some(i) => {
                self.entries[i] = (name.to_owned(), v);
                proof {
                    assert(final(self)@ =~= old(self)@.update(
                        table_index(old(self)@, name@),
                        (name@, v@),
                    ));
                }
            },
            None => {
                self.entries.push((name.to_owned(), v));
                proof {
                    assert(final(self)@ =~= old(self)@.push((name@, v@)));
                }
            },
        }
    }

    /// Insert a value under `name` only when no entry exists there yet.
    pub fn insert_if_absent(&mut self, name: &str, v: V)
        requires
            old(self).wf(),
        ensures
            final(self).wf(),
            table_has(old(self)@, name@) ==> final(self)@ == old(self)@,
            !table_has(old(self)@, name@) ==> final(self)@ == old(self)@.push((name@, v@)),
    {
        if !self.contains_key(name) {
            self.insert(name, v);
        }
    }

    /// Borrow the key of the entry at position `i`.
    pub fn key_at(&self, i: usize) -> (k: &String)
        requires
            i < self@.len(),
        ensures
            k@ == self@[i as int].0,
    {
        &self.entries[i].0
    }

    /// Borrow the value of the entry at position `i`.
    pub fn val_at(&self, i: usize) -> (v: &V)
        requires
            i < self@.len(),
        ensures
            v@ == self@[i as int].1,
    {
        &self.entries[i].1
    }

    /// All keys, as borrowed strings, in entry order.
    pub fn keys(&self) -> (r: Vec<&str>)
        ensures
            r@.len() == self@.len(),
            forall|i: int| 0 <= i < r@.len() ==> r@[i]@ == self@[i].0,
    {
        let mut out: Vec<&str> = Vec::new();
        let n = self.entries.len();
        let mut i: usize = 0;
        while i < n
            invariant
                i <= n,
                n == self@.len(),
                out@.len() == i,
                forall|j: int| 0 <= j < i ==> out@[j]@ == self@[j].0,
            decreases n - i,
        {
            out.push(self.entries[i].0.as_str());
            i += 1;
        }
        out
    }
}

} // verus!
