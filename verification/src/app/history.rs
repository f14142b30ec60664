//! The last highlight in each directory that was visited.

use compact_str::CompactString;
use vstd::prelude::*;

use crate::compact::compact_chars;
use crate::path::{is_rooted, parts, FilePath};
use crate::text::same_text;

verus! {

/// What a path is looked up by: two paths to the same place share it.
pub open spec fn place_key(path: Seq<u8>) -> (bool, Seq<Seq<u8>>) {
    (is_rooted(path), parts(path))
}

/// Names by directory.
#[derive(Debug)]
pub struct History {
    slots: Vec<(FilePath, CompactString)>,
}

/// The map that a list of slots stands for. Of two slots for one place the first counts.
pub closed spec fn slot_map(slots: Seq<(FilePath, CompactString)>) -> Map<
    (bool, Seq<Seq<u8>>),
    Seq<char>,
>
    decreases slots.len(),
{
    if slots.len() == 0 {
        Map::empty()
    } else {
        slot_map(slots.skip(1)).insert(place_key(slots[0].0@), compact_chars(slots[0].1))
    }
}

impl View for History {
    type V = Map<(bool, Seq<Seq<u8>>), Seq<char>>;

    closed spec fn view(&self) -> Map<(bool, Seq<Seq<u8>>), Seq<char>> {
        slot_map(self.slots@)
    }
}

/// Whether no slot is for the place.
spec fn absent(slots: Seq<(FilePath, CompactString)>, key: (bool, Seq<Seq<u8>>)) -> bool {
    forall|i: int| 0 <= i < slots.len() ==> place_key((#[trigger] slots[i]).0@) != key
}

proof fn lemma_absent_slot(slots: Seq<(FilePath, CompactString)>, key: (bool, Seq<Seq<u8>>))
    requires
        absent(slots, key),
    ensures
        !slot_map(slots).dom().contains(key),
    decreases slots.len(),
{
    if slots.len() > 0 {
        assert forall|i: int| 0 <= i < slots.skip(1).len() implies place_key(
            (#[trigger] slots.skip(1)[i]).0@,
        ) != key by {
            assert(slots.skip(1)[i] == slots[i + 1]);
        }
        lemma_absent_slot(slots.skip(1), key);
    }
}

proof fn lemma_first_slot(slots: Seq<(FilePath, CompactString)>, at: int)
    requires
        0 <= at < slots.len(),
        absent(slots.take(at), place_key(slots[at].0@)),
    ensures
        slot_map(slots).dom().contains(place_key(slots[at].0@)),
        slot_map(slots)[place_key(slots[at].0@)] == compact_chars(slots[at].1),
    decreases at,
{
    if at > 0 {
        let rest = slots.skip(1);
        assert(rest[at - 1] == slots[at]);
        assert(slots.take(at)[0] == slots[0]);
        assert forall|i: int| 0 <= i < rest.take(at - 1).len() implies place_key(
            (#[trigger] rest.take(at - 1)[i]).0@,
        ) != place_key(slots[at].0@) by {
            assert(rest.take(at - 1)[i] == slots.take(at)[i + 1]);
        }
        lemma_first_slot(rest, at - 1);
    }
}

proof fn lemma_replaced_slot(
    slots: Seq<(FilePath, CompactString)>,
    at: int,
    slot: (FilePath, CompactString),
)
    requires
        0 <= at < slots.len(),
        place_key(slot.0@) == place_key(slots[at].0@),
        absent(slots.take(at), place_key(slots[at].0@)),
    ensures
        slot_map(slots.update(at, slot)) == slot_map(slots).insert(
            place_key(slot.0@),
            compact_chars(slot.1),
        ),
    decreases at,
{
    let rest = slots.skip(1);
    let now = slots.update(at, slot);
    if at == 0 {
        assert(now.skip(1) == rest);
        assert(slot_map(now) == slot_map(slots).insert(
            place_key(slot.0@),
            compact_chars(slot.1),
        ));
    } else {
        assert(now.skip(1) == rest.update(at - 1, slot));
        assert(slots.take(at)[0] == slots[0]);
        assert forall|i: int| 0 <= i < rest.take(at - 1).len() implies place_key(
            (#[trigger] rest.take(at - 1)[i]).0@,
        ) != place_key(slots[at].0@) by {
            assert(rest.take(at - 1)[i] == slots.take(at)[i + 1]);
        }
        lemma_replaced_slot(rest, at - 1, slot);
        assert(slot_map(now) == slot_map(slots).insert(
            place_key(slot.0@),
            compact_chars(slot.1),
        ));
    }
}

proof fn lemma_pushed_slot(
    slots: Seq<(FilePath, CompactString)>,
    slot: (FilePath, CompactString),
)
    requires
        absent(slots, place_key(slot.0@)),
    ensures
        slot_map(slots.push(slot)) == slot_map(slots).insert(
            place_key(slot.0@),
            compact_chars(slot.1),
        ),
    decreases slots.len(),
{
    if slots.len() == 0 {
        assert(slots.push(slot).skip(1) == slots);
    } else {
        let rest = slots.skip(1);
        assert(slots.push(slot).skip(1) == rest.push(slot));
        assert forall|i: int| 0 <= i < rest.len() implies place_key((#[trigger] rest[i]).0@)
            != place_key(slot.0@) by {
            assert(rest[i] == slots[i + 1]);
        }
        lemma_pushed_slot(rest, slot);
        assert(place_key(slots[0].0@) != place_key(slot.0@));
        assert(slot_map(slots.push(slot)) == slot_map(slots).insert(
            place_key(slot.0@),
            compact_chars(slot.1),
        ));
    }
}

impl History {
    pub fn new() -> (r: History)
        ensures
            r@ == Map::<(bool, Seq<Seq<u8>>), Seq<char>>::empty(),
    {
        History { slots: Vec::new() }
    }

    /// The slot for a place.
    fn find(&self, path: &FilePath) -> (r: Option<usize>)
        ensures
            match r {
                Some(i) => i < self.slots.len() && place_key(self.slots@[i as int].0@)
                    == place_key(path@) && absent(
                    self.slots@.take(i as int),
                    place_key(path@),
                ),
                None => absent(self.slots@, place_key(path@)),
            },
    {
        let mut i: usize = 0;
        while i < self.slots.len()
            invariant
                i <= self.slots.len(),
                absent(self.slots@.take(i as int), place_key(path@)),
            decreases self.slots.len() - i,
        {
            if self.slots[i].0.same_place(path) {
                return Some(i);
            }
            assert(self.slots@.take(i + 1) == self.slots@.take(i as int).push(
                self.slots@[i as int],
            ));
            i += 1;
        }
        assert(self.slots@.take(i as int) == self.slots@);
        None
    }

    /// The name saved for a directory.
    pub fn get(&self, path: &FilePath) -> (r: Option<&CompactString>)
        ensures
            r is Some == self@.dom().contains(place_key(path@)),
            r matches Some(name) ==> compact_chars(*name) == self@[place_key(path@)],
    {
        match self.find(path) {
            Some(i) => {
                proof {
                    lemma_first_slot(self.slots@, i as int);
                }
                Some(&self.slots[i].1)
            },
            None => {
                proof {
                    lemma_absent_slot(self.slots@, place_key(path@));
                }
                None
            },
        }
    }

    /// Saves a name for a directory, in place of an earlier one.
    pub fn insert(&mut self, path: FilePath, name: CompactString)
        ensures
            final(self)@ == old(self)@.insert(place_key(path@), compact_chars(name)),
    {
        let slot = (path, name);
        match self.find(&slot.0) {
            Some(i) => {
                proof {
                    lemma_replaced_slot(self.slots@, i as int, slot);
                }
                self.slots.set(i, slot);
            },
            None => {
                proof {
                    lemma_pushed_slot(self.slots@, slot);
                }
                self.slots.push(slot);
            },
        }
    }
}

proof fn lemma_slots_alike(a: Seq<(FilePath, CompactString)>, b: Seq<(FilePath, CompactString)>)
    requires
        a.len() == b.len(),
        forall|i: int|
            #![trigger a[i]]
            #![trigger b[i]]
            0 <= i < a.len() ==> a[i].0@ == b[i].0@ && compact_chars(a[i].1) == compact_chars(
                b[i].1,
            ),
    ensures
        slot_map(a) == slot_map(b),
    decreases a.len(),
{
    if a.len() > 0 {
        assert forall|i: int|
            #![trigger a.skip(1)[i]]
            #![trigger b.skip(1)[i]]
            0 <= i < a.skip(1).len() implies a.skip(1)[i].0@ == b.skip(1)[i].0@ && compact_chars(
            a.skip(1)[i].1,
        ) == compact_chars(b.skip(1)[i].1) by {
            assert(a.skip(1)[i] == a[i + 1] && b.skip(1)[i] == b[i + 1]);
        }
        lemma_slots_alike(a.skip(1), b.skip(1));
        assert(a[0].0@ == b[0].0@);
    }
}

proof fn lemma_slot_of_key(slots: Seq<(FilePath, CompactString)>, key: (bool, Seq<Seq<u8>>))
    requires
        slot_map(slots).dom().contains(key),
    ensures
        exists|i: int| 0 <= i < slots.len() && place_key((#[trigger] slots[i]).0@) == key,
{
    if absent(slots, key) {
        lemma_absent_slot(slots, key);
    }
}

proof fn lemma_slot_counts(slots: Seq<(FilePath, CompactString)>, at: int)
    requires
        0 <= at < slots.len(),
    ensures
        slot_map(slots).dom().contains(place_key(slots[at].0@)),
    decreases at,
{
    if at > 0 {
        assert(slots.skip(1)[at - 1] == slots[at]);
        lemma_slot_counts(slots.skip(1), at - 1);
    }
}

impl Clone for History {
    fn clone(&self) -> (r: History)
        ensures
            r@ == self@,
    {
        let mut slots: Vec<(FilePath, CompactString)> = Vec::new();
        let mut i: usize = 0;
        while i < self.slots.len()
            invariant
                i <= self.slots.len(),
                slots.len() == i,
                forall|j: int|
                    #![trigger slots@[j]]
                    #![trigger self.slots@[j]]
                    0 <= j < i ==> slots@[j].0@ == self.slots@[j].0@ && compact_chars(slots@[j].1)
                        == compact_chars(self.slots@[j].1),
            decreases self.slots.len() - i,
        {
            let slot = (self.slots[i].0.clone(), self.slots[i].1.clone());
            slots.push(slot);
            i += 1;
        }
        proof {
            lemma_slots_alike(slots@, self.slots@);
        }
        History { slots }
    }
}

impl History {
    /// Whether the other history holds every name of this one.
    fn within(&self, other: &History) -> (r: bool)
        ensures
            r == self@.submap_of(other@),
    {
        let mut i: usize = 0;
        while i < self.slots.len()
            invariant
                i <= self.slots.len(),
                forall|j: int|
                    0 <= j < i ==> {
                        let key = place_key((#[trigger] self.slots@[j]).0@);
                        &&& other@.dom().contains(key)
                        &&& self@.dom().contains(key)
                        &&& other@[key] == self@[key]
                    },
            decreases self.slots.len() - i,
        {
            let path = &self.slots[i].0;
            let mine = self.get(path);
            let theirs = other.get(path);
            let alike: bool = match (mine, theirs) {
                (Some(a), Some(b)) => same_text(a.as_str(), b.as_str()),
                (None, _) => true,
                (Some(_), None) => false,
            };
            if !alike {
                assert(!self@.submap_of(other@)) by {
                    assert(self@.dom().contains(place_key(path@)));
                }
                return false;
            }
            proof {
                lemma_slot_counts(self.slots@, i as int);
            }
            i += 1;
        }
        assert(self@.submap_of(other@)) by {
            assert forall|key: (bool, Seq<Seq<u8>>)| #[trigger]
                self@.dom().contains(key) implies other@.dom().contains(key) && self@[key]
                == other@[key] by {
                lemma_slot_of_key(self.slots@, key);
            }
        }
        true
    }
}

/// Two histories are equal when they hold the same names for the same places.
impl PartialEq for History {
    fn eq(&self, other: &History) -> (r: bool) {
        let r: bool = self.within(other) && other.within(self);
        assert(r == (self@ == other@)) by {
            if r {
                assert(self@ =~= other@);
            }
        }
        r
    }
}

impl vstd::std_specs::cmp::PartialEqSpecImpl for History {
    open spec fn obeys_eq_spec() -> bool {
        true
    }

    open spec fn eq_spec(&self, other: &History) -> bool {
        self@ == other@
    }
}

impl Eq for History {

}

} // verus!
