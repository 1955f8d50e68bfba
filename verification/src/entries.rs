//! An insertion-ordered map with unique string keys: the registry shape used
//! for paths, responses, content maps and named components. Inserting under
//! an existing key replaces the value in place (last write wins) and keeps
//! the key's original position; a new key is appended at the end.
use vstd::prelude::*;

verus! {

/// An insertion-ordered map from strings to values, keys unique.
#[derive(Debug, PartialEq)]
pub struct Entries<V> {
    /// The backing entries; read through [`Entries::pairs`], written only
    /// through [`Entries::insert`] so the keys stay unique.
    pub pairs: Vec<(String, V)>,
}

/// The first index holding the key, or -1.
pub open spec fn index_of_key<T>(m: Seq<(Seq<char>, T)>, key: Seq<char>) -> int
    decreases m.len(),
{
    if m.len() == 0 {
        -1
    } else if m[0].0 == key {
        0
    } else if index_of_key(m.drop_first(), key) == -1 {
        -1
    } else {
        1 + index_of_key(m.drop_first(), key)
    }
}

/// Whether some entry holds the key.
pub open spec fn has_key<T>(m: Seq<(Seq<char>, T)>, key: Seq<char>) -> bool {
    index_of_key(m, key) >= 0
}

/// The value stored under the key, if any.
pub open spec fn get_v<T>(m: Seq<(Seq<char>, T)>, key: Seq<char>) -> Option<T> {
    if has_key(m, key) {
        Some(m[index_of_key(m, key)].1)
    } else {
        None
    }
}

/// The map after an insertion: replacement in place under an existing key,
/// an appended entry under a new one.
pub open spec fn insert_v<T>(m: Seq<(Seq<char>, T)>, key: Seq<char>, value: T) -> Seq<
    (Seq<char>, T),
> {
    if has_key(m, key) {
        m.update(index_of_key(m, key), (key, value))
    } else {
        m.push((key, value))
    }
}

/// No two entries share a key.
pub open spec fn unique_keys<T>(m: Seq<(Seq<char>, T)>) -> bool {
    forall|i: int, j: int| 0 <= i < j < m.len() ==> m[i].0 != m[j].0
}

/// What `index_of_key` finds: a valid index holding the key and preceded by
/// no other occurrence of it, or -1 and the key is nowhere.
pub proof fn lemma_index_of_key<T>(m: Seq<(Seq<char>, T)>, key: Seq<char>)
    ensures
        index_of_key(m, key) >= 0 ==> index_of_key(m, key) < m.len() && m[index_of_key(m, key)].0
            == key,
        index_of_key(m, key) == -1 ==> forall|i: int| 0 <= i < m.len() ==> m[i].0 != key,
        index_of_key(m, key) >= -1,
        forall|i: int| 0 <= i < index_of_key(m, key) ==> m[i].0 != key,
    decreases m.len(),
{
    if m.len() > 0 {
        lemma_index_of_key(m.drop_first(), key);
        if m[0].0 != key {
            if index_of_key(m, key) == -1 {
                assert forall|i: int| 0 <= i < m.len() implies m[i].0 != key by {
                    if i > 0 {
                        assert(m.drop_first()[i - 1] == m[i]);
                    }
                }
            } else {
                assert forall|i: int| 0 <= i < index_of_key(m, key) implies m[i].0 != key by {
                    if i > 0 {
                        assert(m.drop_first()[i - 1] == m[i]);
                    }
                }
            }
        }
    }
}

impl<V: DeepView> View for Entries<V> {
    type V = Seq<(Seq<char>, V::V)>;

    open spec fn view(&self) -> Seq<(Seq<char>, V::V)> {
        self.pairs.deep_view()
    }
}

impl<V: DeepView> DeepView for Entries<V> {
    type V = Seq<(Seq<char>, V::V)>;

    open spec fn deep_view(&self) -> Seq<(Seq<char>, V::V)> {
        self.view()
    }
}

impl<V: DeepView> Entries<V> {
    /// Whether the keys are unique, as every operation here keeps them.
    pub open spec fn wf(&self) -> bool {
        unique_keys(self@)
    }

    /// An empty map.
    pub fn new() -> (r: Entries<V>)
        ensures
            r@ == Seq::<(Seq<char>, V::V)>::empty(),
            r.wf(),
    {
        let r = Entries { pairs: Vec::new() };
        proof {
            assert(r@ =~= Seq::<(Seq<char>, V::V)>::empty());
        }
        r
    }

    /// The number of entries.
    pub fn len(&self) -> (r: usize)
        ensures
            r == self@.len(),
    {
        self.pairs.len()
    }

    /// The entries in order, for read-only walks.
    pub fn pairs(&self) -> (r: &Vec<(String, V)>)
        ensures
            r.deep_view() == self@,
    {
        &self.pairs
    }

    /// The first index holding the key, if any.
    fn find_index(&self, key: &str) -> (r: Option<usize>)
        ensures
            match r {
                Some(i) => index_of_key(self@, key@) == i && i < self@.len(),
                None => index_of_key(self@, key@) == -1,
            },
    {
        let mut i: usize = 0;
        proof {
            lemma_index_of_key(self@, key@);
        }
        while i < self.pairs.len()
            invariant
                i <= self@.len(),
                self@.len() == self.pairs@.len(),
                index_of_key(self@, key@) >= 0 ==> index_of_key(self@, key@) >= i,
                index_of_key(self@, key@) >= 0 ==> index_of_key(self@, key@) < self@.len()
                    && self@[index_of_key(self@, key@)].0 == key@,
                index_of_key(self@, key@) == -1 ==> forall|k: int|
                    0 <= k < self@.len() ==> self@[k].0 != key@,
                index_of_key(self@, key@) >= -1,
                forall|k: int| 0 <= k < index_of_key(self@, key@) ==> self@[k].0 != key@,
            decreases self@.len() - i,
        {
            if crate::strings::str_eq(self.pairs[i].0.as_str(), key) {
                proof {
                    assert(self@[i as int].0 == key@);
                }
                return Some(i);
            }
            proof {
                assert(self@[i as int].0 != key@);
            }
            i = i + 1;
        }
        None
    }

    /// Whether the key is present.
    pub fn contains_key(&self, key: &str) -> (r: bool)
        ensures
            r == has_key(self@, key@),
    {
        self.find_index(key).is_some()
    }

    /// The value under the key, if any.
    pub fn get(&self, key: &str) -> (r: Option<&V>)
        ensures
            match r {
                Some(v) => get_v(self@, key@) == Some(v.deep_view()),
                None => get_v(self@, key@) is None,
            },
    {
        match self.find_index(key) {
            Some(i) => Some(&self.pairs[i].1),
            None => None,
        }
    }

    /// Inserts the value under the key: replaces in place when the key is
    /// present, appends otherwise. Keys stay unique and in first-insertion
    /// order.
    pub fn insert(&mut self, key: String, value: V)
        requires
            old(self).wf(),
        ensures
            final(self)@ == insert_v(old(self)@, key@, value.deep_view()),
            final(self).wf(),
    {
        let ghost old_view = self@;
        match self.find_index(key.as_str()) {
            Some(i) => {
                self.pairs.remove(i);
                self.pairs.insert(i, (key, value));
                proof {
                    assert(self@ =~~= old_view.update(
                        index_of_key(old_view, key@),
                        (key@, value.deep_view()),
                    ));
                    lemma_index_of_key(old_view, key@);
                    assert(unique_keys(self@));
                }
            },
            None => {
                self.pairs.push((key, value));
                proof {
                    lemma_index_of_key(old_view, key@);
                    assert(self@ =~~= old_view.push((key@, value.deep_view())));
                    assert(unique_keys(self@));
                }
            },
        }
    }

    /// The first index holding the key, if any, for callers that then modify
    /// the value in place.
    pub fn index_of(&self, key: &str) -> (r: Option<usize>)
        ensures
            match r {
                Some(i) => index_of_key(self@, key@) == i && i < self@.len() && self@[i as int].0
                    == key@,
                None => index_of_key(self@, key@) == -1 && !has_key(self@, key@),
            },
    {
        proof {
            lemma_index_of_key(self@, key@);
        }
        self.find_index(key)
    }

    /// Swaps the value at an index for a placeholder and hands the old value
    /// out, keeping the entry's key and position.
    pub fn take_at(&mut self, i: usize, placeholder: V) -> (r: V)
        requires
            i < old(self)@.len(),
            old(self).wf(),
        ensures
            r.deep_view() == old(self)@[i as int].1,
            final(self)@ == old(self)@.update(
                i as int,
                (old(self)@[i as int].0, placeholder.deep_view()),
            ),
            final(self).wf(),
    {
        let ghost old_view = self@;
        let pair = self.pairs.remove(i);
        let (k, v) = pair;
        self.pairs.insert(i, (k, placeholder));
        proof {
            assert(self@ =~~= old_view.update(
                i as int,
                (old_view[i as int].0, placeholder.deep_view()),
            ));
            assert(unique_keys(self@));
        }
        v
    }
}

/// Insertion keeps keys unique.
pub proof fn lemma_insert_v_unique<T>(m: Seq<(Seq<char>, T)>, key: Seq<char>, value: T)
    requires
        unique_keys(m),
    ensures
        unique_keys(insert_v(m, key, value)),
{
    lemma_index_of_key(m, key);
    if has_key(m, key) {
        let idx = index_of_key(m, key);
        assert forall|i: int, j: int|
            0 <= i < j < insert_v(m, key, value).len() implies insert_v(m, key, value)[i].0
            != insert_v(m, key, value)[j].0 by {
            if i != idx && j != idx {
                assert(m[i].0 != m[j].0);
            }
        }
    } else {
        assert forall|i: int, j: int|
            0 <= i < j < insert_v(m, key, value).len() implies insert_v(m, key, value)[i].0
            != insert_v(m, key, value)[j].0 by {
            if j == m.len() as int {
                assert(m[i].0 != key);
            } else {
                assert(m[i].0 != m[j].0);
            }
        }
    }
}

/// The index found for a key depends only on the keys, not the values.
pub proof fn lemma_index_of_key_same_keys<T>(
    m1: Seq<(Seq<char>, T)>,
    m2: Seq<(Seq<char>, T)>,
    key: Seq<char>,
)
    requires
        m1.len() == m2.len(),
        forall|i: int| 0 <= i < m1.len() ==> m1[i].0 == #[trigger] m2[i].0,
    ensures
        index_of_key(m1, key) == index_of_key(m2, key),
    decreases m1.len(),
{
    if m1.len() > 0 {
        assert(m1[0].0 == m2[0].0);
        assert forall|i: int| 0 <= i < m1.drop_first().len() implies m1.drop_first()[i].0
            == #[trigger] m2.drop_first()[i].0 by {
            assert(m1.drop_first()[i] == m1[i + 1]);
            assert(m2.drop_first()[i] == m2[i + 1]);
        }
        lemma_index_of_key_same_keys(m1.drop_first(), m2.drop_first(), key);
    }
}

} // verus!
