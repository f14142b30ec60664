//! The background jobs: what they are asked to do and what they report back.

use compact_str::CompactString;
use vstd::prelude::*;

use crate::fs::FileEntry;
use crate::path::FilePath;
use crate::preview::PreviewPayload;

verus! {

/// The kinds of background job. Of each kind at most one is live; both scans count as one.
#[derive(Debug, Clone, Copy, PartialEq, Eq, Structural)]
pub enum Job {
    Scan,
    Count,
    Preview,
    Listing,
}

/// What the program is to do about its background jobs. Everything is done in the order in which
/// it is asked for.
#[derive(Debug, PartialEq, Eq)]
pub enum JobAction {
    /// Cancel the live job of a kind.
    Cancel(Job),
    /// Cancel every job; the program ends.
    CancelAll,
    /// Scan the current directory.
    ScanCurrent { path: FilePath, generation: u64 },
    /// Scan the parent directory.
    ScanParent { path: FilePath, generation: u64 },
    /// Count the files below a directory.
    Count { path: FilePath, generation: u64 },
    /// Read the start of a file.
    LoadPreview { path: FilePath },
    /// List the programs on the search path.
    ListPrograms { generation: u64 },
}

/// What a [`JobAction`] asks for.
#[verifier::ext_equal]
pub enum JobActionView {
    Cancel(Job),
    CancelAll,
    ScanCurrent { path: Seq<u8>, generation: u64 },
    ScanParent { path: Seq<u8>, generation: u64 },
    Count { path: Seq<u8>, generation: u64 },
    LoadPreview { path: Seq<u8> },
    ListPrograms { generation: u64 },
}

impl View for JobAction {
    type V = JobActionView;

    open spec fn view(&self) -> JobActionView {
        match *self {
            JobAction::Cancel(job) => JobActionView::Cancel(job),
            JobAction::CancelAll => JobActionView::CancelAll,
            JobAction::ScanCurrent { path, generation } => JobActionView::ScanCurrent {
                path: path@,
                generation,
            },
            JobAction::ScanParent { path, generation } => JobActionView::ScanParent {
                path: path@,
                generation,
            },
            JobAction::Count { path, generation } => JobActionView::Count {
                path: path@,
                generation,
            },
            JobAction::LoadPreview { path } => JobActionView::LoadPreview { path: path@ },
            JobAction::ListPrograms { generation } => JobActionView::ListPrograms { generation },
        }
    }
}

/// What each action asks for.
pub open spec fn action_views(actions: Seq<JobAction>) -> Seq<JobActionView> {
    actions.map_values(|action: JobAction| action@)
}

/// What a background job reports, with what tells a late report from a live one: the generation
/// in which the job was started, or the file that it read.
#[derive(Debug)]
pub enum Report {
    ScanBatch(u64, Vec<FileEntry>),
    ScanFinished(u64),
    ParentScanBatch(u64, Vec<FileEntry>),
    ParentScanFinished(u64),
    RecursiveCountFinished(u64, Option<u64>),
    PreviewReady(FilePath, PreviewPayload),
    ProgramsListed(u64, Vec<CompactString>),
}

} // verus!
