//! A map from texts to values.
use crate::text::same_text;
use vstd::prelude::*;
use vstd::string::*;

verus! {

/// Whether no two entries have one key.
pub open spec fn distinct_keys<T>(entries: Seq<(String, T)>) -> bool {
    forall|i: int, j: int|
        0 <= i < j < entries.len() ==> (#[trigger] entries[i]).0@ != (#[trigger] entries[j]).0@
}

/// Whether there is an entry of this key.
pub open spec fn has_key<T>(entries: Seq<(String, T)>, key: Seq<char>) -> bool {
    exists|i: int| 0 <= i < entries.len() && (#[trigger] entries[i]).0@ == key
}

/// The value of the entry of this key.
pub open spec fn value_of<T>(entries: Seq<(String, T)>, key: Seq<char>) -> T {
    entries[choose|i: int| 0 <= i < entries.len() && (#[trigger] entries[i]).0@ == key].1
}

/// A map from texts to values, with one value for each key.
#[derive(Debug)]
pub struct TextMap<T> {
    entries: Vec<(String, T)>,
}

impl<T> View for TextMap<T> {
    type V = Map<Seq<char>, T>;

    closed spec fn view(&self) -> Map<Seq<char>, T> {
        Map::new(
            |key: Seq<char>| has_key(self.entries@, key),
            |key: Seq<char>| value_of(self.entries@, key),
        )
    }
}

impl<T> TextMap<T> {
    #[verifier::type_invariant]
    spec fn well_formed(self) -> bool {
        distinct_keys(self.entries@)
    }

    /// The empty map.
    pub fn new() -> (res: TextMap<T>)
        ensures
            res@ == Map::<Seq<char>, T>::empty(),
    {
        let res = TextMap { entries: Vec::new() };
        assert(res@ =~= Map::<Seq<char>, T>::empty());
        res
    }

    /// Gives `key` the value `value`, in place of one that it had.
    pub fn insert(&mut self, key: String, value: T)
        ensures
            final(self)@ == old(self)@.insert(key@, value),
    {
        proof {
            use_type_invariant(&*self);
        }
        let ghost before = self.entries@;
        let mut entries: Vec<(String, T)> = Vec::new();
        std::mem::swap(&mut entries, &mut self.entries);
        let mut i: usize = 0;
        while i < entries.len() && !same_text(entries[i].0.as_str(), key.as_str())
            invariant
                i <= entries@.len(),
                entries@ == before,
                forall|j: int| 0 <= j < i ==> (#[trigger] before[j]).0@ != key@,
            decreases entries@.len() - i,
        {
            i = i + 1;
        }
        let ghost at = i as int;
        let ghost word = key@;
        if i < entries.len() {
            entries.set(i, (key, value));
        } else {
            entries.push((key, value));
        }
        proof {
            let after = entries@;
            assert(after[at].0@ == word && after[at].1 == value);
            assert forall|k: Seq<char>| has_key(after, k) == (k == word || has_key(before, k)) by {
                if has_key(after, k) {
                    let j = choose|j: int| 0 <= j < after.len() && (#[trigger] after[j]).0@ == k;
                    if j != at {
                        assert(before[j].0@ == k);
                    }
                }
                if has_key(before, k) && k != word {
                    let j = choose|j: int| 0 <= j < before.len() && (#[trigger] before[j]).0@ == k;
                    assert(after[j] == before[j]);
                }
                if k == word {
                    assert(after[at].0@ == k);
                }
            }
            assert forall|k: Seq<char>| k != word && has_key(before, k) implies value_of(after, k)
                == value_of(before, k) by {
                let j = choose|j: int| 0 <= j < before.len() && (#[trigger] before[j]).0@ == k;
                assert(after[j] == before[j]);
                lemma_value_at(after, j);
            }
            lemma_value_at(after, at);
        }
        self.entries = entries;
        assert(self@ =~= old(self)@.insert(word, value));
    }

    /// The value of `key`.
    pub fn get(&self, key: &str) -> (res: Option<&T>)
        ensures
            res is Some <==> self@.dom().contains(key@),
            res matches Some(value) ==> *value == self@[key@],
    {
        proof {
            use_type_invariant(self);
        }
        let mut i: usize = 0;
        while i < self.entries.len()
            invariant
                i <= self.entries@.len(),
                distinct_keys(self.entries@),
                forall|j: int| 0 <= j < i ==> (#[trigger] self.entries@[j]).0@ != key@,
            decreases self.entries@.len() - i,
        {
            if same_text(self.entries[i].0.as_str(), key) {
                proof {
                    lemma_value_at(self.entries@, i as int);
                }
                return Some(&self.entries[i].1);
            }
            i = i + 1;
        }
        assert(!has_key(self.entries@, key@));
        None
    }

    /// Whether there is no key.
    pub fn is_empty(&self) -> (res: bool)
        ensures
            res == (self@.dom() =~= Set::<Seq<char>>::empty()),
    {
        if self.entries.len() > 0 {
            assert(has_key(self.entries@, self.entries@[0].0@));
            assert(self@.dom().contains(self.entries@[0].0@));
            false
        } else {
            true
        }
    }
}

/// The entry of a key is the only one that counts.
proof fn lemma_value_at<T>(entries: Seq<(String, T)>, at: int)
    requires
        distinct_keys(entries),
        0 <= at < entries.len(),
    ensures
        has_key(entries, entries[at].0@),
        value_of(entries, entries[at].0@) == entries[at].1,
{
    let key = entries[at].0@;
    let i = choose|i: int| 0 <= i < entries.len() && (#[trigger] entries[i]).0@ == key;
    assert(i == at);
}

} // verus!
