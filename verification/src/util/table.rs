use crate::util::convert::{blob, AsFrame, Frame, FrameView};
use crate::util::text::str_eq;
use vstd::prelude::*;
use vstd::string::*;
use vstd::utf8::*;

verus! {

/// A mapping from string keys to values that keeps its keys in the order in
/// which they were first stored. No key occurs twice.
#[derive(Debug)]
pub struct Table<V> {
    entries: Vec<(String, V)>,
}

impl<V> View for Table<V> {
    type V = Map<Seq<char>, V>;

    /// The mapping that the table holds.
    open spec fn view(&self) -> Map<Seq<char>, V> {
        Map::new(|key: Seq<char>| self.keys().contains(key), |key: Seq<char>| self.value_of(key))
    }
}

/// Puts an item in the place of another and hands back the one that was
/// there.
fn replace<T>(items: &mut Vec<T>, i: usize, item: T) -> (previous: T)
    requires
        i < old(items).len(),
    ensures
        previous == old(items)[i as int],
        final(items)@ == old(items)@.update(i as int, item),
{
    items.push(item);
    let previous = items.swap_remove(i);
    previous
}

spec fn entry_keys<V>(entries: Seq<(String, V)>) -> Seq<Seq<char>> {
    Seq::new(entries.len(), |i: int| entries[i].0@)
}

spec fn entry_values<V>(entries: Seq<(String, V)>) -> Seq<V> {
    Seq::new(entries.len(), |i: int| entries[i].1)
}

impl<V> Table<V> {
    /// The keys, in the order in which they were first stored.
    pub closed spec fn keys(&self) -> Seq<Seq<char>> {
        entry_keys(self.entries@)
    }

    /// The values, each at the place of its key.
    pub closed spec fn values(&self) -> Seq<V> {
        entry_values(self.entries@)
    }

    /// Every key has one value and no key occurs twice.
    #[verifier::type_invariant]
    pub open spec fn wf(&self) -> bool {
        &&& self.keys().len() == self.values().len()
        &&& self.keys().no_duplicates()
    }

    /// The value stored under a key that the table holds.
    pub open spec fn value_of(&self, key: Seq<char>) -> V {
        self.values()[self.keys().index_of(key)]
    }

    /// An empty table.
    pub fn new() -> (table: Table<V>)
        ensures
            table.keys() == Seq::<Seq<char>>::empty(),
            table.values() == Seq::<V>::empty(),
            table@ == Map::<Seq<char>, V>::empty(),
    {
        let table = Table { entries: Vec::new() };
        table
    }

    /// The number of keys.
    pub fn len(&self) -> (len: usize)
        ensures
            self.wf(),
            len == self.keys().len(),
            len == self@.len(),
    {
        proof {
            use_type_invariant(self);
            self.keys().unique_seq_to_set();
        }
        self.entries.len()
    }

    /// The key at a place, counted in the order of first storing.
    pub fn key(&self, i: usize) -> (key: &String)
        requires
            i < self.keys().len(),
        ensures
            key@ == self.keys()[i as int],
    {
        &self.entries[i].0
    }

    /// The value at a place, counted in the order of first storing.
    pub fn value(&self, i: usize) -> (value: &V)
        requires
            i < self.keys().len(),
        ensures
            self.wf(),
            *value == self.values()[i as int],
            *value == self@[self.keys()[i as int]],
    {
        proof {
            use_type_invariant(self);
        }
        &self.entries[i].1
    }

    /// The place of a key, if the table holds it.
    fn position(&self, key: &str) -> (place: Option<usize>)
        ensures
            match place {
                Some(i) => i < self.keys().len() && self.keys()[i as int] == key@
                    && self.keys().index_of(key@) == i,
                None => !self.keys().contains(key@),
            },
    {
        proof {
            use_type_invariant(self);
        }
        let mut i: usize = 0;
        while i < self.entries.len()
            invariant
                i <= self.entries.len(),
                self.wf(),
                forall|j: int| 0 <= j < i ==> self.keys()[j] != key@,
            decreases self.entries.len() - i,
        {
            if str_eq(self.entries[i].0.as_str(), key) {
                assert(self.keys()[i as int] == key@);
                return Some(i);
            }
            i += 1;
        }
        None
    }

    /// Whether the table holds a key.
    pub fn contains_key(&self, key: &str) -> (held: bool)
        ensures
            held == self@.contains_key(key@),
    {
        self.position(key).is_some()
    }

    /// The value stored under a key, if the table holds the key.
    pub fn get(&self, key: &str) -> (value: Option<&V>)
        ensures
            match value {
                Some(value) => self@.contains_key(key@) && *value == self@[key@],
                None => !self@.contains_key(key@),
            },
    {
        match self.position(key) {
            Some(i) => Some(&self.entries[i].1),
            None => None,
        }
    }

    /// Stores a value under a key and hands back the value that the key had
    /// before, if it had one. A key that is new comes after all others; a key
    /// that the table holds keeps its place.
    pub fn insert(&mut self, key: String, value: V) -> (previous: Option<V>)
        ensures
            final(self)@ == old(self)@.insert(key@, value),
            previous == (if old(self)@.contains_key(key@) {
                Some(old(self)@[key@])
            } else {
                None
            }),
            old(self)@.contains_key(key@) ==> final(self).keys() == old(self).keys()
                && final(self).values() == old(self).values().update(
                old(self).keys().index_of(key@),
                value,
            ),
            !old(self)@.contains_key(key@) ==> final(self).keys() == old(self).keys().push(key@)
                && final(self).values() == old(self).values().push(value),
    {
        proof {
            use_type_invariant(&*self);
        }
        let ghost text = key@;
        let place = self.position(key.as_str());
        let mut entries: Vec<(String, V)> = Vec::new();
        core::mem::swap(&mut self.entries, &mut entries);
        match place {
            Some(i) => {
                let (_, previous) = replace(&mut entries, i, (key, value));
                proof {
                    assert(entry_keys(entries@) =~= old(self).keys());
                }
                core::mem::swap(&mut self.entries, &mut entries);
                proof {
                    assert forall|k: Seq<char>| self.keys().contains(k) implies #[trigger] self@[k]
                        == old(self)@.insert(text, value)[k] by {
                        let j = self.keys().index_of(k);
                        if k != text {
                            assert(j != i);
                        }
                    }
                }
                Some(previous)
            },
            None => {
                entries.push((key, value));
                proof {
                    assert(entry_keys(entries@) =~= old(self).keys().push(text));
                }
                core::mem::swap(&mut self.entries, &mut entries);
                proof {
                    assert forall|k: Seq<char>| self.keys().contains(k) implies #[trigger] self@[k]
                        == old(self)@.insert(text, value)[k] by {
                        let j = self.keys().index_of(k);
                        if k != text {
                            assert(old(self).keys().index_of(k) == j);
                        } else {
                            assert(self.keys()[old(self).keys().len() as int] == text);
                        }
                    }
                    assert forall|k: Seq<char>|
                        old(self).keys().contains(k) implies self.keys().contains(k) by {
                        let j = old(self).keys().index_of(k);
                        assert(self.keys()[j] == k);
                    }
                    assert(self.keys()[old(self).keys().len() as int] == text);
                }
                None
            },
        }
    }
}

/// The entries of a table as reply trees: each key as a byte-string leaf,
/// beside the reply tree of its value, in the order of the keys.
pub open spec fn entry_frames<V: AsFrame>(table: Table<V>) -> Seq<(FrameView, FrameView)> {
    Seq::new(
        table.keys().len(),
        |i: int| (blob(table.keys()[i]), table.values()[i].frame_view()),
    )
}

/// The mapping that a table is turned into has no key twice: two entries of
/// it with the same key leaf are one entry.
pub proof fn lemma_mapping_keys_distinct<V: AsFrame>(table: Table<V>, i: int, j: int)
    requires
        table.wf(),
        0 <= i < table.keys().len(),
        0 <= j < table.keys().len(),
        entry_frames(table)[i].0 == entry_frames(table)[j].0,
    ensures
        i == j,
{
    encode_utf8_decode_utf8(table.keys()[i]);
    encode_utf8_decode_utf8(table.keys()[j]);
}

impl<V: AsFrame> AsFrame for Table<V> {
    /// A table is a mapping of its entries, in the order of its keys.
    open spec fn frame_view(&self) -> FrameView {
        FrameView::Mapping(entry_frames(*self))
    }

    fn as_frame(&self) -> (frame: Frame)
        ensures
            forall|i: int, j: int|
                0 <= i < j < frame@->Mapping_0.len() ==> frame@->Mapping_0[i].0
                    != frame@->Mapping_0[j].0,
    {
        proof {
            use_type_invariant(self);
        }
        let mut frames: Vec<(Frame, Frame)> = Vec::new();
        let mut i: usize = 0;
        while i < self.entries.len()
            invariant
                i <= self.entries.len(),
                frames.len() == i,
                forall|j: int|
                    0 <= j < i ==> frames[j].0@ == blob(self.keys()[j]) && frames[j].1@
                        == self.values()[j].frame_view(),
            decreases self.entries.len() - i,
        {
            let key = Frame::text(self.entries[i].0.as_str());
            let value = self.entries[i].1.as_frame();
            frames.push((key, value));
            i += 1;
        }
        let frame = Frame::Mapping(frames);
        assert(frame@->Mapping_0 =~= entry_frames(*self));
        assert forall|i: int, j: int|
            0 <= i < j < frame@->Mapping_0.len() implies frame@->Mapping_0[i].0
                != frame@->Mapping_0[j].0 by {
            if entry_frames(*self)[i].0 == entry_frames(*self)[j].0 {
                lemma_mapping_keys_distinct(*self, i, j);
            }
        }
        frame
    }
}

/// The texts that a table of strings holds, key by key.
pub open spec fn stored(values: Table<String>) -> Map<Seq<char>, Seq<char>> {
    values@.map_values(|value: String| value@)
}

} // verus!
