//! A small map from texts to texts.

use vstd::prelude::*;

use crate::text::same;

verus! {

/// A map from texts to texts that holds a few entries, at most one for a key.
#[derive(Debug)]
pub struct TextMap {
    entries: Vec<(String, String)>,
}

/// Whether no key occurs twice.
spec fn keys_differ(entries: Seq<(String, String)>) -> bool {
    forall|i: int, j: int|
        0 <= i < j < entries.len() ==> (#[trigger] entries[i]).0@ != (#[trigger] entries[j]).0@
}

/// Whether `key` belongs to an entry.
spec fn has_key(entries: Seq<(String, String)>, key: Seq<char>) -> bool {
    exists|i: int| 0 <= i < entries.len() && (#[trigger] entries[i]).0@ == key
}

/// The value of the entry with the given key.
spec fn value_of(entries: Seq<(String, String)>, key: Seq<char>) -> Seq<char> {
    let i = choose|i: int| 0 <= i < entries.len() && (#[trigger] entries[i]).0@ == key;
    entries[i].1@
}

impl View for TextMap {
    type V = Map<Seq<char>, Seq<char>>;

    closed spec fn view(&self) -> Map<Seq<char>, Seq<char>> {
        Map::new(
            |key: Seq<char>| has_key(self.entries@, key),
            |key: Seq<char>| value_of(self.entries@, key),
        )
    }
}

impl TextMap {
    #[verifier::type_invariant]
    spec fn well_formed(self) -> bool {
        keys_differ(self.entries@)
    }

    /// The empty map.
    pub fn new() -> (r: Self)
        ensures
            r@ == Map::<Seq<char>, Seq<char>>::empty(),
    {
        let r = TextMap { entries: Vec::new() };
        assert(r@ =~= Map::<Seq<char>, Seq<char>>::empty());
        r
    }

    /// The value for `key`.
    pub fn get(&self, key: &str) -> (r: Option<&String>)
        ensures
            (match r {
                Some(value) => Some(value@),
                None => None,
            }) == (if self@.contains_key(key@) {
                Some(self@[key@])
            } else {
                None
            }),
    {
        proof {
            use_type_invariant(self);
        }
        let mut i: usize = 0;
        while i < self.entries.len()
            invariant
                i <= self.entries@.len(),
                keys_differ(self.entries@),
                forall|j: int| 0 <= j < i ==> (#[trigger] self.entries@[j]).0@ != key@,
            decreases self.entries@.len() - i,
        {
            if same(self.entries[i].0.as_str(), key) {
                assert(self.entries@[i as int].0@ == key@);
                return Some(&self.entries[i].1);
            }
            i = i + 1;
        }
        None
    }

    /// Sets the value for `key`, in place of the one it had.
    pub fn insert(&mut self, key: String, value: String)
        ensures
            final(self)@ == old(self)@.insert(key@, value@),
    {
        proof {
            use_type_invariant(&*self);
        }
        let mut entries: Vec<(String, String)> = Vec::new();
        std::mem::swap(&mut entries, &mut self.entries);
        let ghost before = entries@;
        let mut i: usize = 0;
        let mut found = false;
        while i < entries.len()
            invariant_except_break
                !found,
                entries@ == before,
            invariant
                i <= entries@.len(),
                keys_differ(before),
                forall|j: int| 0 <= j < i ==> (#[trigger] before[j]).0@ != key@,
            ensures
                found ==> i < before.len() && before[i as int].0@ == key@,
                !found ==> entries@ == before && i == before.len(),
                found ==> entries@ == before,
            decreases entries@.len() - i,
        {
            if same(entries[i].0.as_str(), key.as_str()) {
                found = true;
                break;
            }
            i = i + 1;
        }
        if found {
            let dropped = entries.remove(i);
        }
        let ghost rest = entries@;
        let ghost key_text = key@;
        let ghost value_text = value@;
        proof {
            assert(found ==> rest =~= before.remove(i as int));
            assert forall|j: int| 0 <= j < rest.len() implies (#[trigger] rest[j]).0@ != key_text by {
                if found {
                    if j < i {
                        assert(rest[j] == before[j]);
                    } else {
                        assert(rest[j] == before[j + 1]);
                        assert(before[i as int].0@ != before[j + 1].0@);
                    }
                }
            }
        }
        entries.push((key, value));
        proof {
            let after = entries@;
            assert(after =~= rest.push((key, value)));
            assert forall|a: int, b: int| 0 <= a < b < after.len() implies (#[trigger] after[a]).0@
                != (#[trigger] after[b]).0@ by {
                if b < rest.len() {
                    if found {
                        let oa = if a < i { a } else { a + 1 };
                        let ob = if b < i { b } else { b + 1 };
                        assert(rest[a] == before[oa]);
                        assert(rest[b] == before[ob]);
                        assert(before[oa].0@ != before[ob].0@);
                    }
                } else {
                    assert(rest[a].0@ != key_text);
                }
            }
            assert forall|k: Seq<char>| #[trigger] has_key(after, k) == (has_key(before, k) || k
                == key_text) by {
                if k == key_text {
                    assert(after[after.len() - 1].0@ == k);
                }
                if has_key(before, k) && k != key_text {
                    let j = choose|j: int| 0 <= j < before.len() && (#[trigger] before[j]).0@ == k;
                    let n = if found && j > i { j - 1 } else { j };
                    assert(after[n] == before[j]);
                }
                if has_key(after, k) && k != key_text {
                    let j = choose|j: int| 0 <= j < after.len() && (#[trigger] after[j]).0@ == k;
                    let o = if found && j >= i { j + 1 } else { j };
                    assert(after[j] == before[o]);
                }
            }
            assert forall|k: Seq<char>| has_key(after, k) implies #[trigger] value_of(after, k)
                == (if k == key_text { value_text } else { value_of(before, k) }) by {
                let j = choose|j: int| 0 <= j < after.len() && (#[trigger] after[j]).0@ == k;
                if k == key_text {
                    if j < rest.len() {
                        assert(rest[j].0@ != key_text);
                    }
                } else {
                    let o = if found && j >= i { j + 1 } else { j };
                    assert(after[j] == before[o]);
                    let p = choose|p: int| 0 <= p < before.len() && (#[trigger] before[p]).0@ == k;
                    if p != o {
                        assert(before[p].0@ != before[o].0@);
                    }
                }
            }
        }
        self.entries = entries;
        proof {
            assert(self@ =~= old(self)@.insert(key_text, value_text)) by {
                assert forall|k: Seq<char>| self@.contains_key(k) implies #[trigger] self@[k]
                    == old(self)@.insert(key_text, value_text)[k] by {
                    assert(has_key(self.entries@, k));
                    assert(value_of(self.entries@, k) == (if k == key_text { value_text } else {
                        value_of(before, k)
                    }));
                }
                assert forall|k: Seq<char>| #[trigger] self@.contains_key(k) == old(self)@.insert(
                    key_text,
                    value_text,
                ).contains_key(k) by {
                    assert(has_key(self.entries@, k) == (has_key(before, k) || k == key_text));
                }
            }
        }
    }
}

} // verus!
