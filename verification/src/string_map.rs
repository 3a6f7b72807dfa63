//! A map from texts to values that keeps the order in which the keys came.
use vstd::prelude::*;
use vstd::string::*;

use crate::text::same_text;

verus! {

/// The map of a list of entries; where a key occurs again, the later entry counts.
pub open spec fn entries_map<V>(entries: Seq<(Seq<char>, V)>) -> Map<Seq<char>, V>
    decreases entries.len(),
{
    if entries.len() == 0 {
        Map::empty()
    } else {
        entries_map(entries.drop_last()).insert(entries.last().0, entries.last().1)
    }
}

/// The entries, each by its views.
pub open spec fn entry_views<V: View>(entries: Seq<(String, V)>) -> Seq<(Seq<char>, V::V)> {
    Seq::new(entries.len(), |i: int| (entries[i].0@, entries[i].1@))
}

/// Whether no key occurs twice.
pub open spec fn distinct_keys<V>(entries: Seq<(Seq<char>, V)>) -> bool {
    forall|i: int, j: int|
        0 <= i < j < entries.len() ==> (#[trigger] entries[i]).0 != (#[trigger] entries[j]).0
}

/// A map from texts to values. No key occurs twice.
#[derive(Debug)]
pub struct StringMap<V> {
    entries: Vec<(String, V)>,
}

impl<V: View> View for StringMap<V> {
    type V = Map<Seq<char>, V::V>;

    closed spec fn view(&self) -> Map<Seq<char>, V::V> {
        entries_map(entry_views(self.entries@))
    }
}

/// What the map of a list of entries holds.
proof fn entries_map_holds<V>(entries: Seq<(Seq<char>, V)>, key: Seq<char>)
    requires
        distinct_keys(entries),
    ensures
        entries_map(entries).dom().contains(key) <==> exists|i: int|
            0 <= i < entries.len() && (#[trigger] entries[i]).0 == key,
        forall|i: int|
            0 <= i < entries.len() && (#[trigger] entries[i]).0 == key ==> entries_map(
                entries,
            )[key] == entries[i].1,
    decreases entries.len(),
{
    if entries.len() > 0 {
        let front = entries.drop_last();
        assert forall|i: int, j: int| 0 <= i < j < front.len() implies (#[trigger] front[i]).0 != (
        #[trigger] front[j]).0 by {
            assert(front[i] == entries[i] && front[j] == entries[j]);
        }
        entries_map_holds(front, key);
        let last = entries.len() - 1;
        if entries[last].0 != key {
            assert forall|i: int|
                0 <= i < entries.len() && (#[trigger] entries[i]).0 == key implies entries_map(
                entries,
            )[key] == entries[i].1 by {
                assert(front[i] == entries[i]);
            }
            if entries_map(front).dom().contains(key) {
                let i = choose|i: int| 0 <= i < front.len() && (#[trigger] front[i]).0 == key;
                assert(entries[i].0 == key);
            }
            if exists|i: int| 0 <= i < entries.len() && (#[trigger] entries[i]).0 == key {
                let i = choose|i: int| 0 <= i < entries.len() && (#[trigger] entries[i]).0 == key;
                assert(front[i].0 == key);
            }
        }
    }
}

/// Replacing the value of a key that a list of entries has.
proof fn entries_map_replaced<V>(entries: Seq<(Seq<char>, V)>, at: int, value: V)
    requires
        distinct_keys(entries),
        0 <= at < entries.len(),
    ensures
        distinct_keys(entries.update(at, (entries[at].0, value))),
        entries_map(entries.update(at, (entries[at].0, value))) == entries_map(entries).insert(
            entries[at].0,
            value,
        ),
{
    let key = entries[at].0;
    let after = entries.update(at, (key, value));
    assert forall|i: int, j: int| 0 <= i < j < after.len() implies (#[trigger] after[i]).0 != (
    #[trigger] after[j]).0 by {
        assert(entries[i].0 == after[i].0 && entries[j].0 == after[j].0);
    }
    assert forall|k: Seq<char>|
        entries_map(after).dom().contains(k) == entries_map(entries).insert(
            key,
            value,
        ).dom().contains(k) by {
        entries_map_holds(entries, k);
        entries_map_holds(after, k);
        if entries_map(after).dom().contains(k) {
            let i = choose|i: int| 0 <= i < after.len() && (#[trigger] after[i]).0 == k;
            assert(entries[i].0 == k);
        }
        if entries_map(entries).dom().contains(k) {
            let i = choose|i: int| 0 <= i < entries.len() && (#[trigger] entries[i]).0 == k;
            assert(after[i].0 == k);
        }
        assert(after[at].0 == key);
    }
    assert forall|k: Seq<char>| entries_map(after).dom().contains(k) implies #[trigger] entries_map(
        after,
    )[k] == entries_map(entries).insert(key, value)[k] by {
        entries_map_holds(entries, k);
        entries_map_holds(after, k);
        let i = choose|i: int| 0 <= i < after.len() && (#[trigger] after[i]).0 == k;
        assert(entries[i].0 == k);
        if k == key {
            assert(i == at);
        }
    }
    assert(entries_map(after) =~= entries_map(entries).insert(key, value));
}

impl<V> StringMap<V> {
    #[verifier::type_invariant]
    spec fn inv(self) -> bool {
        forall|i: int, j: int|
            0 <= i < j < self.entries@.len() ==> (#[trigger] self.entries@[i]).0@ != (
            #[trigger] self.entries@[j]).0@
    }
}

impl<V: View> StringMap<V> {
    /// The invariant, of the entries by their views.
    proof fn inv_of_views(entries: Seq<(String, V)>)
        requires
            forall|i: int, j: int|
                0 <= i < j < entries.len() ==> (#[trigger] entries[i]).0@ != (
                #[trigger] entries[j]).0@,
        ensures
            distinct_keys(entry_views(entries)),
    {
        let views = entry_views(entries);
        assert forall|i: int, j: int| 0 <= i < j < views.len() implies (#[trigger] views[i]).0 != (
        #[trigger] views[j]).0 by {
            assert(entries[i].0@ != entries[j].0@);
        }
    }

    /// A map with no entries.
    pub fn new() -> (r: StringMap<V>)
        ensures
            r@ == Map::<Seq<char>, V::V>::empty(),
    {
        StringMap { entries: Vec::new() }
    }

    /// Where the key stands.
    fn position(entries: &Vec<(String, V)>, key: &str) -> (r: Option<usize>)
        ensures
            match r {
                Some(i) => i < entries@.len() && entries@[i as int].0@ == key@,
                None => forall|i: int| 0 <= i < entries@.len() ==> entries@[i].0@ != key@,
            },
    {
        let mut i: usize = 0;
        while i < entries.len()
            invariant
                i <= entries@.len(),
                forall|j: int| 0 <= j < i ==> entries@[j].0@ != key@,
            decreases entries.len() - i,
        {
            if same_text(entries[i].0.as_str(), key) {
                return Some(i);
            }
            i = i + 1;
        }
        None
    }

    /// Gives the key this value, in place of any that it had.
    pub fn insert(&mut self, key: String, value: V)
        ensures
            final(self)@ == old(self)@.insert(key@, value@),
    {
        proof {
            use_type_invariant(&*self);
            Self::inv_of_views(self.entries@);
        }
        let mut entries: Vec<(String, V)> = Vec::new();
        std::mem::swap(&mut entries, &mut self.entries);
        let ghost before = entry_views(entries@);
        match Self::position(&entries, key.as_str()) {
            Some(i) => {
                proof {
                    entries_map_replaced(before, i as int, value@);
                }
                entries.set(i, (key, value));
                assert(entry_views(entries@) == before.update(i as int, (key@, value@)));
            },
            None => {
                entries.push((key, value));
                assert(entry_views(entries@) == before.push((key@, value@)));
                assert(entry_views(entries@).drop_last() == before);
                assert(distinct_keys(entry_views(entries@)));
            },
        }
        self.entries = entries;
    }

    /// The value of a key.
    pub fn get(&self, key: &str) -> (r: Option<&V>)
        ensures
            match r {
                Some(value) => self@.dom().contains(key@) && value@ == self@[key@],
                None => !self@.dom().contains(key@),
            },
    {
        proof {
            use_type_invariant(self);
            Self::inv_of_views(self.entries@);
            entries_map_holds(entry_views(self.entries@), key@);
        }
        match Self::position(&self.entries, key) {
            Some(i) => {
                assert(entry_views(self.entries@)[i as int].0 == key@);
                Some(&self.entries[i].1)
            },
            None => None,
        }
    }

    /// The entries, in the order in which the keys came.
    pub fn entries(&self) -> (r: &Vec<(String, V)>)
        ensures
            distinct_keys(entry_views(r@)),
            entries_map(entry_views(r@)) == self@,
    {
        proof {
            use_type_invariant(self);
            Self::inv_of_views(self.entries@);
        }
        &self.entries
    }
}

} // verus!
