//! Counting the regular files of a tree.

use vstd::prelude::*;

verus! {

/// What a walk of a directory tree came upon.
#[derive(Debug, Clone, Copy, PartialEq, Eq, Structural)]
pub enum WalkEntry {
    File,
    /// A directory, a link or another special file.
    Other,
    /// An entry that could not be read, for want of permission or because it went away.
    Unreadable,
}

/// One step of a walk: what came next, and whether the count was cancelled by then.
#[derive(Debug, Clone, Copy, PartialEq, Eq, Structural)]
pub struct WalkStep {
    pub entry: WalkEntry,
    pub cancelled: bool,
}

/// The count after one more step, or nothing where the walk ends: a cancelled count stops at
/// what it has, only regular files are counted, and an unreadable entry is passed over.
pub open spec fn next_count(count: int, step: WalkStep) -> Option<int> {
    if step.cancelled {
        None
    } else if step.entry is File {
        Some(count + 1)
    } else {
        Some(count)
    }
}

/// Takes one step of a walk.
pub fn walk_step(count: u64, step: WalkStep) -> (r: Option<u64>)
    requires
        step.entry is File ==> count < u64::MAX,
    ensures
        r is Some == next_count(count as int, step) is Some,
        r matches Some(after) ==> after == next_count(count as int, step)->0,
{
    if step.cancelled {
        return None;
    }
    match step.entry {
        WalkEntry::File => Some(count + 1),
        _ => Some(count),
    }
}

/// The steps before the first that was cancelled.
pub open spec fn heeded(walk: Seq<WalkStep>) -> Seq<WalkStep>
    decreases walk.len(),
{
    if walk.len() == 0 || walk[0].cancelled {
        Seq::empty()
    } else {
        seq![walk[0]] + heeded(walk.skip(1))
    }
}

/// The steps that came upon a regular file.
pub open spec fn onto_file() -> spec_fn(WalkStep) -> bool {
    |step: WalkStep| step.entry is File
}

/// The number of regular files in a walk.
pub open spec fn files_in(walk: Seq<WalkStep>) -> nat {
    walk.filter(onto_file()).len()
}

/// The count that a walk ends with, if it goes on from `count`.
pub open spec fn walked(count: int, walk: Seq<WalkStep>) -> int
    decreases walk.len(),
{
    if walk.len() == 0 {
        count
    } else {
        match next_count(count, walk[0]) {
            Some(after) => walked(after, walk.skip(1)),
            None => count,
        }
    }
}

/// Counts the regular files of a walk, up to where it was cancelled.
pub fn walk_and_count(walk: &Vec<WalkStep>) -> (r: u64)
    ensures
        r == files_in(heeded(walk@)),
{
    let mut count: u64 = 0;
    let mut i: usize = 0;
    proof {
        walk_counts_the_files(0, walk@);
        assert(walk@.skip(0) == walk@);
    }
    while i < walk.len()
        invariant
            i <= walk.len(),
            count <= i,
            walked(count as int, walk@.skip(i as int)) == files_in(heeded(walk@)),
        decreases walk.len() - i,
    {
        assert(walk@.skip(i as int)[0] == walk@[i as int]);
        assert(walk@.skip(i as int).skip(1) == walk@.skip(i + 1));
        match walk_step(count, walk[i]) {
            Some(after) => {
                count = after;
            },
            None => {
                return count;
            },
        }
        i += 1;
    }
    count
}

/// A walk ends with the number of regular files that it came upon before it was cancelled.
pub proof fn walk_counts_the_files(count: int, walk: Seq<WalkStep>)
    ensures
        walked(count, walk) == count + files_in(heeded(walk)),
    decreases walk.len(),
{
    reveal(Seq::filter);
    if walk.len() > 0 && !walk[0].cancelled {
        let first = seq![walk[0]];
        let rest = heeded(walk.skip(1));
        walk_counts_the_files(next_count(count, walk[0])->0, walk.skip(1));
        Seq::filter_distributes_over_add(first, rest, onto_file());
        assert(first.drop_last() == Seq::<WalkStep>::empty());
        assert(Seq::<WalkStep>::empty().filter(onto_file()).len() == 0);
    }
}

} // verus!
