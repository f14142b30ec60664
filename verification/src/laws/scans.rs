//! Laws of scans, counts and the jobs that do them.

use vstd::prelude::*;

use crate::app::control::CtlView;
use crate::app::jobs::{Job, JobActionView, Report};
use crate::app::message::Message;
use crate::app::navigation::PlanView;
use crate::app::state::StateView;
use crate::app::LoopView;
use crate::fs::count::{next_count, walked, WalkEntry, WalkStep};
use crate::fs::entry::entry_views;
use crate::fs::scanner::{entries_seen, scan_keeps_every_entry, scan_run, scan_step, ScanEvent};
use crate::fs::FileEntry;

verus! {

/// The state after the batches of a scan, one after the other.
pub open spec fn after_batches(
    state: StateView,
    batches: Seq<Vec<FileEntry>>,
    of_parent: bool,
) -> StateView
    decreases batches.len(),
{
    if batches.len() == 0 {
        state
    } else {
        let before = after_batches(state, batches.drop_last(), of_parent);
        before.updated(
            if of_parent {
                Message::ParentScanBatch(batches.last())
            } else {
                Message::ScanBatch(batches.last())
            },
        )
    }
}

/// What the batches hold, one after the other.
pub open spec fn joined_batches(batches: Seq<Vec<FileEntry>>) -> Seq<FileEntry>
    decreases batches.len(),
{
    if batches.len() == 0 {
        Seq::empty()
    } else {
        joined_batches(batches.drop_last()) + batches.last()@
    }
}

/// A batch of a scan is appended to its listing: the entries that were there stay where they are
/// and the batch follows them. Nothing else changes.
pub proof fn batches_are_appended(state: StateView, batch: Vec<FileEntry>)
    ensures
        ({
            let after = state.updated(Message::ScanBatch(batch));
            &&& after.entries.len() == state.entries.len() + batch@.len()
            &&& state.entries.is_prefix_of(after.entries)
            &&& forall|i: int|
                0 <= i < batch@.len() ==> after.entries[state.entries.len() + i] == (
                #[trigger] batch@[i])@
            &&& after == (StateView { entries: after.entries, ..state })
        }),
        ({
            let after = state.updated(Message::ParentScanBatch(batch));
            &&& after.parent_entries.len() == state.parent_entries.len() + batch@.len()
            &&& state.parent_entries.is_prefix_of(after.parent_entries)
            &&& forall|i: int|
                0 <= i < batch@.len() ==> after.parent_entries[state.parent_entries.len() + i] == (
                #[trigger] batch@[i])@
            &&& after == (StateView { parent_entries: after.parent_entries, ..state })
        }),
{
}

/// After a whole scan the listing holds what it held before and then every entry of every batch,
/// in the order in which they came.
pub proof fn whole_scans_are_listed(
    state: StateView,
    batches: Seq<Vec<FileEntry>>,
    of_parent: bool,
)
    ensures
        !of_parent ==> after_batches(state, batches, of_parent) == (StateView {
            entries: state.entries + entry_views(joined_batches(batches)),
            ..state
        }),
        of_parent ==> after_batches(state, batches, of_parent) == (StateView {
            parent_entries: state.parent_entries + entry_views(joined_batches(batches)),
            ..state
        }),
    decreases batches.len(),
{
    if batches.len() == 0 {
        assert(entry_views(joined_batches(batches)).len() == 0);
        assert(state.entries + entry_views(joined_batches(batches)) == state.entries);
        assert(state.parent_entries + entry_views(joined_batches(batches))
            == state.parent_entries);
    } else {
        whole_scans_are_listed(state, batches.drop_last(), of_parent);
        let front = joined_batches(batches.drop_last());
        let last = batches.last()@;
        batches_are_appended(
            after_batches(state, batches.drop_last(), of_parent),
            batches.last(),
        );
        let after = after_batches(state, batches, of_parent);
        assert(entry_views(front + last) == entry_views(front) + entry_views(last));
        if of_parent {
            assert(after.parent_entries =~= state.parent_entries + entry_views(front + last));
        } else {
            assert(after.entries =~= state.entries + entry_views(front + last));
        }
    }
}

/// A live batch of either scan reaches its listing through the loop, entry by entry.
pub proof fn live_batches_are_appended(before: LoopView, batch: Vec<FileEntry>)
    ensures
        before.applied(Report::ScanBatch(before.state.scan_generation, batch)).state.entries
            == before.state.entries + batch@.map_values(|e: FileEntry| e@),
        before.applied(
            Report::ParentScanBatch(before.state.scan_generation, batch),
        ).state.parent_entries == before.state.parent_entries + batch@.map_values(
            |e: FileEntry| e@,
        ),
{
    batches_are_appended(before.state, batch);
    let e1 = before.applied(Report::ScanBatch(before.state.scan_generation, batch)).state.entries;
    assert(e1 =~= before.state.entries + batch@.map_values(|e: FileEntry| e@));
}

/// The end of a scan marks its listing as complete and does nothing else.
pub proof fn finished_scans_complete_their_listing(state: StateView)
    ensures
        state.updated(Message::ScanFinished) == (StateView {
            current_listing_complete: true,
            ..state
        }),
        state.updated(Message::ParentScanFinished) == (StateView {
            parent_listing_complete: true,
            ..state
        }),
{
}

/// A finished count ends the counting. Its number is taken down, and where there is none the
/// number before is kept.
pub proof fn finished_counts_are_taken_down(state: StateView, number: u64)
    ensures
        state.updated(Message::RecursiveCountFinished(Some(number))) == (StateView {
            is_counting_recursively: false,
            recursive_file_count: Some(number),
            ..state
        }),
        state.updated(Message::RecursiveCountFinished(None)) == (StateView {
            is_counting_recursively: false,
            ..state
        }),
{
}

/// How often an action stands among others.
pub open spec fn times(actions: Seq<JobActionView>, action: JobActionView) -> nat {
    actions.to_multiset().count(action)
}

/// Whether an action starts a scan.
pub open spec fn starts_a_scan(action: JobActionView) -> bool {
    action is ScanCurrent || action is ScanParent
}

/// Every scan that a plan names is asked for, once, behind the cancellation of the live scans,
/// with the path of the plan and the generation of the state; and no other scan is. A live count
/// and a live preview are cancelled, and what is not live is not.
pub proof fn plans_are_carried_out(ctl: CtlView, plan: PlanView, generation: u64)
    ensures
        ({
            let after = ctl.with_plan(plan, generation);
            let n = ctl.actions.len() as int;
            let new = after.actions.skip(n);
            &&& ctl.actions.is_prefix_of(after.actions)
            &&& new.len() > 0 && new[0] == JobActionView::Cancel(Job::Scan)
            &&& plan.current matches Some(path) ==> times(
                new,
                JobActionView::ScanCurrent { path, generation },
            ) == 1
            &&& plan.parent matches Some(path) ==> times(
                new,
                JobActionView::ScanParent { path, generation },
            ) == 1
            &&& forall|i: int|
                0 <= i < new.len() && #[trigger] starts_a_scan(new[i]) ==> {
                    ||| plan.current matches Some(path) && new[i] == JobActionView::ScanCurrent {
                        path,
                        generation,
                    }
                    ||| plan.parent matches Some(path) && new[i] == JobActionView::ScanParent {
                        path,
                        generation,
                    }
                }
            &&& times(new, JobActionView::Cancel(Job::Scan)) == 1
            &&& times(new, JobActionView::Cancel(Job::Count)) == (if ctl.active_job {
                1nat
            } else {
                0
            })
            &&& times(new, JobActionView::Cancel(Job::Preview)) == (if ctl.preview_job {
                1nat
            } else {
                0
            })
            &&& new.len() == 1 + (if ctl.active_job {
                1int
            } else {
                0
            }) + (if ctl.preview_job {
                1int
            } else {
                0
            }) + (if plan.current is Some {
                1int
            } else {
                0
            }) + (if plan.parent is Some {
                1int
            } else {
                0
            })
            &&& !after.active_job
            &&& !after.preview_job
            &&& after.open_with_job == ctl.open_with_job
        }),
{
    broadcast use vstd::seq_lib::group_to_multiset_ensures;

    let after = ctl.with_plan(plan, generation);
    let n = ctl.actions.len() as int;
    let new = after.actions.skip(n);
    let empty = Seq::<JobActionView>::empty();
    let a = empty.push(JobActionView::Cancel(Job::Scan));
    let b = if ctl.active_job {
        a.push(JobActionView::Cancel(Job::Count))
    } else {
        a
    };
    let c = if ctl.preview_job {
        b.push(JobActionView::Cancel(Job::Preview))
    } else {
        b
    };
    let d = match plan.current {
        Some(path) => c.push(JobActionView::ScanCurrent { path, generation }),
        None => c,
    };
    let e = match plan.parent {
        Some(path) => d.push(JobActionView::ScanParent { path, generation }),
        None => d,
    };
    assert(empty.to_multiset() =~= vstd::multiset::Multiset::empty());
    assert(after.actions =~= ctl.actions + e);
    assert(new =~= e);
}

/// What a plan has scanned again is dropped from the state, with its error and its completeness,
/// and nothing else is.
pub proof fn scanned_listings_start_empty(state: StateView, plan: PlanView)
    ensures
        ({
            let after = state.with_plan(plan);
            &&& plan.current is Some ==> after.entries.len() == 0
                && !after.current_listing_complete && after.current_scan_error is None
            &&& plan.current is None ==> after.entries == state.entries
                && after.current_listing_complete == state.current_listing_complete
                && after.current_scan_error == state.current_scan_error
            &&& plan.parent is Some ==> after.parent_entries.len() == 0
                && !after.parent_listing_complete && after.parent_scan_error is None
            &&& plan.parent is None ==> after.parent_entries == state.parent_entries
                && after.parent_listing_complete == state.parent_listing_complete
                && after.parent_scan_error == state.parent_scan_error
            &&& after == (StateView {
                entries: after.entries,
                current_listing_complete: after.current_listing_complete,
                current_scan_error: after.current_scan_error,
                parent_entries: after.parent_entries,
                parent_listing_complete: after.parent_listing_complete,
                parent_scan_error: after.parent_scan_error,
                ..state
            })
        }),
{
}

/// A job that is live is cancelled once, and one that is not is left alone. A new job of a kind
/// follows the cancellation of the live one, and a count is simply added.
pub proof fn live_jobs_are_cancelled_once(ctl: CtlView, path: Seq<u8>, generation: u64)
    ensures
        ctl.without_preview().actions == (if ctl.preview_job {
            ctl.actions.push(JobActionView::Cancel(Job::Preview))
        } else {
            ctl.actions
        }),
        ctl.without_listing().actions == (if ctl.open_with_job {
            ctl.actions.push(JobActionView::Cancel(Job::Listing))
        } else {
            ctl.actions
        }),
        ctl.without_count().actions == (if ctl.active_job {
            ctl.actions.push(JobActionView::Cancel(Job::Count))
        } else {
            ctl.actions
        }),
        ctl.with_preview(path).actions == (if ctl.preview_job {
            ctl.actions.push(JobActionView::Cancel(Job::Preview))
        } else {
            ctl.actions
        }).push(JobActionView::LoadPreview { path }),
        ctl.with_listing(generation).actions == (if ctl.open_with_job {
            ctl.actions.push(JobActionView::Cancel(Job::Listing))
        } else {
            ctl.actions
        }).push(JobActionView::ListPrograms { generation }),
        ctl.with_count(path, generation).actions == ctl.actions.push(
            JobActionView::Count { path, generation },
        ),
        ctl.without_preview() == (CtlView {
            preview_job: false,
            actions: ctl.without_preview().actions,
            ..ctl
        }),
        ctl.without_listing() == (CtlView {
            open_with_job: false,
            actions: ctl.without_listing().actions,
            ..ctl
        }),
        ctl.without_count() == (CtlView {
            active_job: false,
            actions: ctl.without_count().actions,
            ..ctl
        }),
        ctl.with_preview(path) == (CtlView {
            preview_job: true,
            actions: ctl.with_preview(path).actions,
            ..ctl
        }),
        ctl.with_listing(generation) == (CtlView {
            open_with_job: true,
            actions: ctl.with_listing(generation).actions,
            ..ctl
        }),
        ctl.with_count(path, generation) == (CtlView {
            active_job: true,
            actions: ctl.with_count(path, generation).actions,
            ..ctl
        }),
{
}

/// Once a directory is exhausted, every entry that was read has been handed on, in order, and
/// none waits.
pub proof fn exhausted_scans_hand_on_everything(events: Seq<ScanEvent>, size: nat)
    ensures
        ({
            let all = events.push(ScanEvent::Exhausted);
            &&& scan_run(all, size).1.len() == 0
            &&& scan_run(all, size).0.flatten() == entries_seen(events)
        }),
{
    let all = events.push(ScanEvent::Exhausted);
    scan_keeps_every_entry(all, size);
    assert(all.drop_last() == events);
    let (sent, waiting) = scan_run(all, size);
    assert(sent.flatten() + waiting == sent.flatten());
}

/// The entries that a scan has seen are those that it was told of, one by one.
pub proof fn entries_are_seen_one_by_one(events: Seq<ScanEvent>, entry: FileEntry)
    ensures
        entries_seen(Seq::<ScanEvent>::empty()).len() == 0,
        entries_seen(events.push(ScanEvent::Entry(entry))) == entries_seen(events).push(entry),
        entries_seen(events.push(ScanEvent::Skipped)) == entries_seen(events),
        entries_seen(events.push(ScanEvent::Failed)) == entries_seen(events),
        entries_seen(events.push(ScanEvent::Cancelled)) == entries_seen(events),
{
    assert(events.push(ScanEvent::Entry(entry)).drop_last() == events);
    assert(events.push(ScanEvent::Skipped).drop_last() == events);
    assert(events.push(ScanEvent::Failed).drop_last() == events);
    assert(events.push(ScanEvent::Cancelled).drop_last() == events);
}

/// A scan ends when its directory is exhausted or when it is cancelled, and never because an
/// entry could not be read. A cancelled scan hands nothing on.
pub proof fn scans_end_only_at_their_end(pending: Seq<FileEntry>, size: nat, event: ScanEvent)
    ensures
        scan_step(pending, size, event).ended == (event is Exhausted || event is Cancelled),
        event is Cancelled ==> scan_step(pending, size, event).sent is None,
        event is Failed ==> scan_step(pending, size, event).sent is None
            && scan_step(pending, size, event).pending == pending,
{
}

/// Only regular files are counted, each once; the count goes on over anything else, and stops for
/// good where it is cancelled.
pub proof fn counts_go_on_until_cancelled(
    count: int,
    first: WalkStep,
    rest: Seq<WalkStep>,
)
    ensures
        walked(count, Seq::<WalkStep>::empty()) == count,
        first.cancelled ==> walked(count, seq![first] + rest) == count,
        !first.cancelled && first.entry == WalkEntry::File ==> walked(count, seq![first] + rest)
            == walked(count + 1, rest),
        !first.cancelled && first.entry != WalkEntry::File ==> walked(count, seq![first] + rest)
            == walked(count, rest),
        next_count(count, first) is None == first.cancelled,
{
    assert((seq![first] + rest).skip(1) == rest);
    assert((seq![first] + rest)[0] == first);
}

} // verus!
