//! Reading a directory in batches.

use vstd::prelude::*;

use crate::fs::entry::FileEntry;

verus! {

/// Entries are handed on in batches this large, so that a huge directory is shown before the
/// whole of it has been read.
pub const BATCH_SIZE: usize = 100;

/// How many batches may wait for the consumer.
pub const CHANNEL_CAPACITY: usize = 8;

/// What happened while a directory was read.
#[derive(Debug)]
pub enum ScanEvent {
    /// The next entry of the directory.
    Entry(FileEntry),
    /// An entry whose metadata could not be read.
    Skipped,
    /// The directory gave an error in place of an entry.
    Failed,
    /// The directory has no more entries.
    Exhausted,
    /// The scan is no longer wanted.
    Cancelled,
}

/// What the scan does next.
#[derive(Debug)]
pub enum ScanAction {
    /// Read on.
    Continue,
    /// Hand on this batch, then read on.
    Send(Vec<FileEntry>),
    /// Hand on this last batch and end.
    SendLast(Vec<FileEntry>),
    /// End.
    Stop,
}

/// The entries that wait to be handed on.
#[derive(Debug)]
pub struct Batcher {
    pub batch: Vec<FileEntry>,
    pub batch_size: usize,
}

/// A step of a scan: what still waits, what was handed on, and whether the scan has ended.
pub struct ScanStep {
    pub pending: Seq<FileEntry>,
    pub sent: Option<Seq<FileEntry>>,
    pub ended: bool,
}

/// The step that follows from `pending` entries and an event.
pub open spec fn scan_step(pending: Seq<FileEntry>, size: nat, event: ScanEvent) -> ScanStep {
    match event {
        ScanEvent::Entry(_) | ScanEvent::Skipped => {
            let grown = match event {
                ScanEvent::Entry(e) => pending.push(e),
                _ => pending,
            };
            if grown.len() >= size {
                ScanStep { pending: Seq::empty(), sent: Some(grown), ended: false }
            } else {
                ScanStep { pending: grown, sent: None, ended: false }
            }
        },
        ScanEvent::Failed => ScanStep { pending, sent: None, ended: false },
        ScanEvent::Exhausted => ScanStep {
            pending: Seq::empty(),
            sent: if pending.len() > 0 {
                Some(pending)
            } else {
                None
            },
            ended: true,
        },
        ScanEvent::Cancelled => ScanStep { pending, sent: None, ended: true },
    }
}

impl ScanAction {
    /// The batch that the action hands on.
    pub open spec fn sent(self) -> Option<Seq<FileEntry>> {
        match self {
            ScanAction::Send(batch) | ScanAction::SendLast(batch) => Some(batch@),
            _ => None,
        }
    }

    /// Whether the scan ends with the action.
    pub open spec fn ended(self) -> bool {
        self is SendLast || self is Stop
    }
}

impl Batcher {
    pub fn new(batch_size: usize) -> (r: Batcher)
        ensures
            r.batch@ == Seq::<FileEntry>::empty(),
            r.batch_size == batch_size,
    {
        Batcher { batch: Vec::new(), batch_size }
    }

    /// Takes in one event and says what to do.
    pub fn step(&mut self, event: ScanEvent) -> (r: ScanAction)
        ensures
            final(self).batch_size == old(self).batch_size,
            ({
                let step = scan_step(old(self).batch@, old(self).batch_size as nat, event);
                &&& final(self).batch@ == step.pending
                &&& r.sent() == step.sent
                &&& r.ended() == step.ended
            }),
    {
        match event {
            ScanEvent::Entry(entry) => {
                self.batch.push(entry);
                self.flush_if_full()
            },
            ScanEvent::Skipped => self.flush_if_full(),
            ScanEvent::Failed => ScanAction::Continue,
            ScanEvent::Exhausted => {
                if self.batch.len() > 0 {
                    ScanAction::SendLast(self.take())
                } else {
                    assert(self.batch@ == Seq::<FileEntry>::empty());
                    ScanAction::Stop
                }
            },
            ScanEvent::Cancelled => ScanAction::Stop,
        }
    }

    fn take(&mut self) -> (r: Vec<FileEntry>)
        ensures
            r@ == old(self).batch@,
            final(self).batch@ == Seq::<FileEntry>::empty(),
            final(self).batch_size == old(self).batch_size,
    {
        let mut taken: Vec<FileEntry> = Vec::new();
        std::mem::swap(&mut taken, &mut self.batch);
        taken
    }

    fn flush_if_full(&mut self) -> (r: ScanAction)
        ensures
            final(self).batch_size == old(self).batch_size,
            old(self).batch.len() >= old(self).batch_size ==> r is Send && r.sent() == Some(
                old(self).batch@,
            ) && final(self).batch@ == Seq::<FileEntry>::empty(),
            old(self).batch.len() < old(self).batch_size ==> r is Continue && final(self).batch@
                == old(self).batch@,
    {
        if self.batch.len() >= self.batch_size {
            ScanAction::Send(self.take())
        } else {
            ScanAction::Continue
        }
    }
}

/// The entries that occur among the events.
pub open spec fn entries_seen(events: Seq<ScanEvent>) -> Seq<FileEntry>
    decreases events.len(),
{
    if events.len() == 0 {
        Seq::empty()
    } else {
        match events.last() {
            ScanEvent::Entry(e) => entries_seen(events.drop_last()).push(e),
            _ => entries_seen(events.drop_last()),
        }
    }
}

/// The batches handed on while a scan goes through events, and the entries that wait at the end.
pub open spec fn scan_run(events: Seq<ScanEvent>, size: nat) -> (Seq<Seq<FileEntry>>, Seq<FileEntry>)
    decreases events.len(),
{
    if events.len() == 0 {
        (Seq::empty(), Seq::empty())
    } else {
        let (sent, pending) = scan_run(events.drop_last(), size);
        let step = scan_step(pending, size, events.last());
        (
            match step.sent {
                Some(batch) => sent.push(batch),
                None => sent,
            },
            step.pending,
        )
    }
}

/// A scan loses no entry, repeats none and keeps their order: the batches handed on, followed by
/// what still waits, are the entries that were read.
pub proof fn scan_keeps_every_entry(events: Seq<ScanEvent>, size: nat)
    ensures
        scan_run(events, size).0.flatten() + scan_run(events, size).1 == entries_seen(events),
    decreases events.len(),
{
    if events.len() == 0 {
        assert(Seq::<Seq<FileEntry>>::empty().flatten() == Seq::<FileEntry>::empty());
    } else {
        scan_keeps_every_entry(events.drop_last(), size);
        let (sent, pending) = scan_run(events.drop_last(), size);
        let step = scan_step(pending, size, events.last());
        if let Some(batch) = step.sent {
            lemma_flatten_push_one(sent, batch);
        }
        assert(scan_run(events, size).0.flatten() + scan_run(events, size).1 =~= entries_seen(
            events,
        ));
    }
}

proof fn lemma_flatten_push_one(list: Seq<Seq<FileEntry>>, last: Seq<FileEntry>)
    ensures
        list.push(last).flatten() == list.flatten() + last,
    decreases list.len(),
{
    if list.len() == 0 {
        assert(list.push(last).first() == last);
        assert(list.push(last).drop_first() == list);
        assert(list.flatten() == Seq::<FileEntry>::empty());
        assert(list.push(last).flatten() == last + list.flatten());
    } else {
        lemma_flatten_push_one(list.drop_first(), last);
        assert(list.push(last).drop_first() == list.drop_first().push(last));
        assert(list.push(last).first() == list.first());
        assert(list.push(last).flatten() == list.first() + (list.drop_first().flatten() + last));
        assert(list.push(last).flatten() =~= list.flatten() + last);
    }
}

/// No batch is larger than the configured size, none is empty, and fewer entries than a full
/// batch wait.
pub proof fn scan_batches_are_capped(events: Seq<ScanEvent>, size: nat)
    requires
        size > 0,
    ensures
        forall|i: int|
            0 <= i < scan_run(events, size).0.len() ==> 0 < (
            #[trigger] scan_run(events, size).0[i]).len() <= size,
        scan_run(events, size).1.len() < size,
    decreases events.len(),
{
    if events.len() > 0 {
        scan_batches_are_capped(events.drop_last(), size);
    }
}

proof fn lemma_batches_are_full(events: Seq<ScanEvent>, size: nat)
    requires
        size > 0,
        forall|k: int| 0 <= k < events.len() ==> !((#[trigger] events[k]) is Exhausted),
    ensures
        forall|i: int|
            0 <= i < scan_run(events, size).0.len() ==> (
            #[trigger] scan_run(events, size).0[i]).len() == size,
    decreases events.len(),
{
    if events.len() > 0 {
        let before = events.drop_last();
        assert forall|k: int| 0 <= k < before.len() implies !(
        (#[trigger] before[k]) is Exhausted) by {
            assert(before[k] == events[k]);
        }
        lemma_batches_are_full(before, size);
        scan_batches_are_capped(before, size);
        assert(events.last() == events[events.len() - 1]);
    }
}

/// Every batch of a scan but its last is full. A scan is over once its directory is exhausted.
pub proof fn only_the_last_batch_is_short(events: Seq<ScanEvent>, size: nat)
    requires
        size > 0,
        forall|k: int| 0 <= k < events.len() - 1 ==> !((#[trigger] events[k]) is Exhausted),
    ensures
        forall|i: int|
            0 <= i < scan_run(events, size).0.len() - 1 ==> (
            #[trigger] scan_run(events, size).0[i]).len() == size,
{
    if events.len() > 0 {
        let before = events.drop_last();
        assert forall|k: int| 0 <= k < before.len() implies !(
        (#[trigger] before[k]) is Exhausted) by {
            assert(before[k] == events[k]);
        }
        lemma_batches_are_full(before, size);
        let sent = scan_run(before, size).0;
        assert forall|i: int| 0 <= i < scan_run(events, size).0.len() - 1 implies (
        #[trigger] scan_run(events, size).0[i]).len() == size by {
            assert(scan_run(events, size).0[i] == sent[i]);
        }
    }
}

} // verus!
