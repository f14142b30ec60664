//! Which of the files in the directories of the search path the picker offers.

use compact_str::CompactString;
use vstd::prelude::*;

use super::open_with::{listed, CANDIDATE_LIMIT};
use crate::compact::{compact, names_of};
use crate::fs::entry::{dotted, is_dotted};

verus! {

/// The distinct program names found so far, in the order in which they were found.
#[derive(Debug)]
pub struct PathListing {
    names: Vec<CompactString>,
}

/// One step of the walk over the search path.
#[derive(Debug, PartialEq, Eq)]
pub enum ListingEvent {
    /// The next directory is due.
    Directory { cancelled: bool },
    /// An entry of the open directory was read: its name, or nothing where it could not be read.
    Entry { read: Option<String>, cancelled: bool },
    /// The entry asked about was examined.
    Examined { name: String, runnable: bool },
}

/// What to do next.
#[derive(Debug, Clone, Copy, PartialEq, Eq, Structural)]
pub enum ListingAction {
    /// Open the directory, or go on with it.
    Continue,
    /// Find out whether the entry is an executable file.
    Examine,
    /// Read no further in this directory.
    LeaveDirectory,
    /// The listing is complete.
    Stop,
}

/// Whether a name can be offered: it is neither empty nor hidden, and not offered yet.
pub open spec fn is_new_name(names: Seq<Seq<char>>, name: Seq<char>) -> bool {
    name.len() > 0 && !is_dotted(name) && !names.contains(name)
}

/// The names after an event, and what to do next.
pub open spec fn listing_step(names: Seq<Seq<char>>, event: ListingEvent) -> (
    Seq<Seq<char>>,
    ListingAction,
) {
    let full = names.len() >= CANDIDATE_LIMIT;
    match event {
        ListingEvent::Directory { cancelled } => (
            names,
            if cancelled || full {
                ListingAction::Stop
            } else {
                ListingAction::Continue
            },
        ),
        ListingEvent::Entry { read, cancelled } => (
            names,
            if cancelled || full {
                ListingAction::LeaveDirectory
            } else if read is Some && is_new_name(names, read->0@) {
                ListingAction::Examine
            } else {
                ListingAction::Continue
            },
        ),
        ListingEvent::Examined { name, runnable } => (
            if runnable && !full && is_new_name(names, name@) {
                names.push(name@)
            } else {
                names
            },
            ListingAction::Continue,
        ),
    }
}

impl View for PathListing {
    type V = Seq<Seq<char>>;

    closed spec fn view(&self) -> Seq<Seq<char>> {
        names_of(self.names@)
    }
}

impl PathListing {
    pub fn new() -> (r: PathListing)
        ensures
            r@ == Seq::<Seq<char>>::empty(),
    {
        let r = PathListing { names: Vec::new() };
        assert(r@ == Seq::<Seq<char>>::empty());
        r
    }

    fn is_new(&self, name: &str) -> (r: bool)
        ensures
            r == is_new_name(self@, name@),
    {
        !name.is_empty() && !dotted(name) && !listed(&self.names, name)
    }

    /// Takes one step of the walk.
    pub fn step(&mut self, event: ListingEvent) -> (r: ListingAction)
        ensures
            final(self)@ == listing_step(old(self)@, event).0,
            r == listing_step(old(self)@, event).1,
    {
        let full: bool = self.names.len() >= CANDIDATE_LIMIT;
        assert(self@.len() == self.names.len());
        match event {
            ListingEvent::Directory { cancelled } => {
                if cancelled || full {
                    ListingAction::Stop
                } else {
                    ListingAction::Continue
                }
            },
            ListingEvent::Entry { read, cancelled } => {
                if cancelled || full {
                    return ListingAction::LeaveDirectory;
                }
                match read {
                    Some(name) => {
                        if self.is_new(name.as_str()) {
                            ListingAction::Examine
                        } else {
                            ListingAction::Continue
                        }
                    },
                    None => ListingAction::Continue,
                }
            },
            ListingEvent::Examined { name, runnable } => {
                if runnable && !full && self.is_new(name.as_str()) {
                    let kept = compact(name.as_str());
                    assert(names_of(self.names@.push(kept)) == names_of(self.names@).push(name@));
                    self.names.push(kept);
                }
                ListingAction::Continue
            },
        }
    }

    /// The names, once the walk is over.
    pub fn into_names(self) -> (r: Vec<CompactString>)
        ensures
            names_of(r@) == self@,
    {
        self.names
    }
}

/// The names after a whole walk.
pub open spec fn listing_run(events: Seq<ListingEvent>) -> Seq<Seq<char>>
    decreases events.len(),
{
    if events.len() == 0 {
        Seq::empty()
    } else {
        listing_step(listing_run(events.drop_last()), events.last()).0
    }
}

/// However the walk goes, no name is listed twice, none is empty or hidden, and there are at most
/// [`CANDIDATE_LIMIT`] of them.
pub proof fn listing_is_distinct_and_bounded(events: Seq<ListingEvent>)
    ensures
        listing_run(events).no_duplicates(),
        listing_run(events).len() <= CANDIDATE_LIMIT,
        forall|i: int|
            0 <= i < listing_run(events).len() ==> (#[trigger] listing_run(events)[i]).len() > 0
                && !is_dotted(listing_run(events)[i]),
    decreases events.len(),
{
    if events.len() > 0 {
        listing_is_distinct_and_bounded(events.drop_last());
        let before = listing_run(events.drop_last());
        let now = listing_run(events);
        if now != before {
            let name = now.last();
            assert(now == before.push(name));
            assert(!before.contains(name));
            assert forall|i: int, j: int|
                0 <= i < now.len() && 0 <= j < now.len() && i != j implies now[i] != now[j] by {
                if i == before.len() {
                    assert(before.contains(before[j]));
                } else if j == before.len() {
                    assert(before.contains(before[i]));
                }
            }
        }
    }
}

/// A cancelled walk reads no further entry and opens no further directory; what was found until
/// then stands.
pub proof fn cancelled_listing_stops(names: Seq<Seq<char>>, read: Option<String>)
    ensures
        listing_step(names, ListingEvent::Entry { read, cancelled: true }) == (
            names,
            ListingAction::LeaveDirectory,
        ),
        listing_step(names, ListingEvent::Directory { cancelled: true }) == (
            names,
            ListingAction::Stop,
        ),
{
}

} // verus!
