use vstd::prelude::*;

verus! {

/// Position of the first element of `keys` that equals `key`, or `keys.len()`
/// when none does.
pub open spec fn first_index<K>(keys: Seq<K>, key: K) -> int
    decreases keys.len(),
{
    if keys.len() == 0 {
        0
    } else if keys[0] == key {
        0
    } else {
        1 + first_index(keys.drop_first(), key)
    }
}

/// `first_index` lies within the sequence or just behind it, points at `key`
/// when it lies within, and nothing before it equals `key`.
pub proof fn lemma_first_index<K>(keys: Seq<K>, key: K)
    ensures
        0 <= first_index(keys, key) <= keys.len(),
        first_index(keys, key) < keys.len() ==> keys[first_index(keys, key)] == key,
        forall|j: int| 0 <= j < first_index(keys, key) ==> keys[j] != key,
        first_index(keys, key) == keys.len() <==> !keys.contains(key),
    decreases keys.len(),
{
    if keys.len() > 0 && keys[0] != key {
        let rest = keys.drop_first();
        lemma_first_index(rest, key);
        assert forall|j: int| 0 <= j < first_index(keys, key) implies keys[j] != key by {
            if j > 0 {
                assert(rest[j - 1] == keys[j]);
            }
        }
        if first_index(keys, key) < keys.len() {
            assert(rest[first_index(rest, key)] == keys[first_index(keys, key)]);
        }
        if keys.contains(key) {
            let i = choose|i: int| 0 <= i < keys.len() && keys[i] == key;
            assert(rest[i - 1] == key);
        }
    } else if keys.len() > 0 {
        assert(keys[0] == key);
    }
}

/// A position that holds `key`, with no `key` before it, is the first index;
/// so is the length when no position holds `key`.
pub proof fn lemma_first_index_is<K>(keys: Seq<K>, key: K, i: int)
    requires
        0 <= i <= keys.len(),
        forall|j: int| 0 <= j < i ==> keys[j] != key,
        i < keys.len() ==> keys[i] == key,
    ensures
        first_index(keys, key) == i,
{
    lemma_first_index(keys, key);
    let k = first_index(keys, key);
    if k < i {
        assert(keys[k] == key);
    } else if k > i {
        assert(keys[i] == key);
    }
}

/// A key of a `KeyedList`: two keys are the same key when their views are
/// equal.
pub trait Key: View + Sized {
    fn same(&self, other: &Self) -> (r: bool)
        ensures
            r == (self@ == other@),
    ;
}

impl Key for String {
    fn same(&self, other: &Self) -> (r: bool) {
        *self == *other
    }
}

impl Key for Vec<u8> {
    fn same(&self, other: &Self) -> (r: bool) {
        bytes_equal(self, other)
    }
}

/// Whether two byte strings hold the same bytes.
pub fn bytes_equal(a: &Vec<u8>, b: &Vec<u8>) -> (r: bool)
    ensures
        r == (a@ == b@),
{
    if a.len() != b.len() {
        return false;
    }
    let mut i: usize = 0;
    while i < a.len()
        invariant
            i <= a.len(),
            a.len() == b.len(),
            forall|j: int| 0 <= j < i ==> a@[j] == b@[j],
        decreases a.len() - i,
    {
        if a[i] != b[i] {
            return false;
        }
        i = i + 1;
    }
    assert(a@ =~= b@);
    true
}

/// A copy of a byte string.
pub fn copy_bytes(a: &Vec<u8>) -> (r: Vec<u8>)
    ensures
        r@ == a@,
{
    let mut result: Vec<u8> = Vec::new();
    let mut i: usize = 0;
    while i < a.len()
        invariant
            i <= a.len(),
            result@ == a@.take(i as int),
        decreases a.len() - i,
    {
        result.push(a[i]);
        assert(a@.take(i as int + 1) =~= a@.take(i as int).push(a@[i as int]));
        i = i + 1;
    }
    assert(a@.take(i as int) =~= a@);
    result
}

/// A map kept as a list: the entries in the order in which their keys came
/// in, no key twice as long as entries are only added through `insert`.
#[derive(Debug)]
pub struct KeyedList<K: Key, V: View> {
    pub entries: Vec<(K, V)>,
}

pub open spec fn entry_keys<A, B>(entries: Seq<(A, B)>) -> Seq<A> {
    entries.map_values(|e: (A, B)| e.0)
}

/// The value under `key`: that of the first entry with this key.
pub open spec fn value_of<A, B>(entries: Seq<(A, B)>, key: A) -> Option<B> {
    let i = first_index(entry_keys(entries), key);
    if i < entries.len() {
        Some(entries[i].1)
    } else {
        None
    }
}

/// The entries with `value` under `key`: in the place of the first entry with
/// this key, or at the end.
pub open spec fn with_entry<A, B>(entries: Seq<(A, B)>, key: A, value: B) -> Seq<(A, B)> {
    let i = first_index(entry_keys(entries), key);
    if i < entries.len() {
        entries.update(i, (key, value))
    } else {
        entries.push((key, value))
    }
}

/// The entries without the first entry under `key`; the last entry takes its
/// place.
pub open spec fn without_entry<A, B>(entries: Seq<(A, B)>, key: A) -> Seq<(A, B)> {
    let i = first_index(entry_keys(entries), key);
    if i < entries.len() {
        entries.update(i, entries.last()).drop_last()
    } else {
        entries
    }
}

impl<K: Key, V: View> View for KeyedList<K, V> {
    type V = Seq<(K::V, V::V)>;

    open spec fn view(&self) -> Seq<(K::V, V::V)> {
        self.entries@.map_values(|e: (K, V)| (e.0@, e.1@))
    }
}

impl<K: Key, V: View> KeyedList<K, V> {
    pub fn new() -> (r: Self)
        ensures
            r@ == Seq::<(K::V, V::V)>::empty(),
    {
        let r = KeyedList { entries: Vec::new() };
        assert(r@ =~= Seq::empty());
        r
    }

    pub fn len(&self) -> (r: usize)
        ensures
            r == self@.len(),
    {
        self.entries.len()
    }

    /// Position of the first entry under `key`, or the number of entries.
    pub fn find(&self, key: &K) -> (r: usize)
        ensures
            r == first_index(entry_keys(self@), key@),
            r <= self@.len(),
    {
        let mut i: usize = 0;
        while i < self.entries.len()
            invariant
                i <= self.entries.len(),
                forall|j: int| 0 <= j < i ==> entry_keys(self@)[j] != key@,
            decreases self.entries.len() - i,
        {
            if self.entries[i].0.same(key) {
                proof {
                    lemma_first_index_is(entry_keys(self@), key@, i as int);
                }
                return i;
            }
            i = i + 1;
        }
        proof {
            lemma_first_index_is(entry_keys(self@), key@, i as int);
        }
        i
    }

    pub fn contains_key(&self, key: &K) -> (r: bool)
        ensures
            r == value_of(self@, key@) is Some,
    {
        self.find(key) < self.entries.len()
    }

    pub fn get(&self, key: &K) -> (r: Option<&V>)
        ensures
            match r {
                Some(value) => value_of(self@, key@) == Some(value@),
                None => value_of(self@, key@) is None,
            },
    {
        let i = self.find(key);
        if i < self.entries.len() {
            Some(&self.entries[i].1)
        } else {
            None
        }
    }

    /// The entry at a position.
    pub fn entry(&self, i: usize) -> (r: &(K, V))
        requires
            i < self@.len(),
        ensures
            (r.0@, r.1@) == self@[i as int],
    {
        &self.entries[i]
    }

    pub fn insert(&mut self, key: K, value: V)
        ensures
            final(self)@ == with_entry(old(self)@, key@, value@),
    {
        let i = self.find(&key);
        if i < self.entries.len() {
            self.entries.set(i, (key, value));
            assert(self@ =~= old(self)@.update(i as int, (key@, value@)));
        } else {
            self.entries.push((key, value));
            assert(self@ =~= old(self)@.push((key@, value@)));
        }
    }

    pub fn remove(&mut self, key: &K)
        ensures
            final(self)@ == without_entry(old(self)@, key@),
    {
        let i = self.find(key);
        if i < self.entries.len() {
            self.entries.swap_remove(i);
            assert(self@ =~= old(self)@.update(i as int, old(self)@.last()).drop_last());
        }
    }
}

} // verus!
