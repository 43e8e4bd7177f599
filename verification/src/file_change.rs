//! How restores of files are told to clients.

use crate::checkpoint::model::{FileRestoreChangeKind, FileRestoreDisposition};
use crate::checkpoint::restore::FileRestorePreviewEntry;
use crate::text::concat2;
use vstd::prelude::*;

verus! {

/// How a restore changes a file.
#[derive(Clone, Copy, Debug, PartialEq, Eq, Structural)]
pub enum ThreadFileChangeKind {
    Create,
    Update,
    Delete,
}

/// Whether a file can be restored.
#[derive(Clone, Copy, Debug, PartialEq, Eq, Structural)]
pub enum ThreadFileChangeDisposition {
    Restorable,
    Conflict,
    Unavailable,
}

/// What a restore does to a file, as clients see it.
#[derive(Debug)]
pub struct ThreadFileChange {
    pub environment_id: String,
    pub path: String,
    pub change_kind: ThreadFileChangeKind,
    pub disposition: ThreadFileChangeDisposition,
    pub detail: Option<String>,
}

/// How clients see the kind of a change.
pub open spec fn shown_kind(kind: FileRestoreChangeKind) -> ThreadFileChangeKind {
    match kind {
        FileRestoreChangeKind::Create => ThreadFileChangeKind::Create,
        FileRestoreChangeKind::Update => ThreadFileChangeKind::Update,
        FileRestoreChangeKind::Delete => ThreadFileChangeKind::Delete,
    }
}

/// How clients see whether a file can be restored.
pub open spec fn shown_disposition(disposition: FileRestoreDisposition) ->
    ThreadFileChangeDisposition {
    match disposition {
        FileRestoreDisposition::Restorable => ThreadFileChangeDisposition::Restorable,
        FileRestoreDisposition::Conflict => ThreadFileChangeDisposition::Conflict,
        FileRestoreDisposition::Unavailable => ThreadFileChangeDisposition::Unavailable,
    }
}

/// How clients see what a restore does to a file.
pub open spec fn shown_change(entry: FileRestorePreviewEntry) -> ThreadFileChange {
    ThreadFileChange {
        environment_id: entry.environment_id,
        path: entry.path,
        change_kind: shown_kind(entry.change_kind),
        disposition: shown_disposition(entry.disposition),
        detail: entry.detail,
    }
}

/// How clients see what a restore does to a file.
pub fn file_change_from_core(entry: FileRestorePreviewEntry) -> (r: ThreadFileChange)
    ensures
        r == shown_change(entry),
{
    ThreadFileChange {
        change_kind: match entry.change_kind {
            FileRestoreChangeKind::Create => ThreadFileChangeKind::Create,
            FileRestoreChangeKind::Update => ThreadFileChangeKind::Update,
            FileRestoreChangeKind::Delete => ThreadFileChangeKind::Delete,
        },
        disposition: match entry.disposition {
            FileRestoreDisposition::Restorable => ThreadFileChangeDisposition::Restorable,
            FileRestoreDisposition::Conflict => ThreadFileChangeDisposition::Conflict,
            FileRestoreDisposition::Unavailable => ThreadFileChangeDisposition::Unavailable,
        },
        environment_id: entry.environment_id,
        path: entry.path,
        detail: entry.detail,
    }
}

/// How clients see what a restore does to files.
pub fn file_changes_from_core(entries: Vec<FileRestorePreviewEntry>) -> (r: Vec<ThreadFileChange>)
    ensures
        r@ == entries@.map_values(|entry: FileRestorePreviewEntry| shown_change(entry)),
{
    let mut r: Vec<ThreadFileChange> = Vec::new();
    let ghost all = entries@;
    for entry in it: entries
        invariant
            it.seq() == all,
            r@.len() == it.index(),
            forall|k: int| 0 <= k < r@.len() ==> (#[trigger] r@[k]) == shown_change(all[k]),
    {
        r.push(file_change_from_core(entry));
    }
    assert(r@ =~= entries@.map_values(|entry: FileRestorePreviewEntry| shown_change(entry)));
    r
}

/// A request about the files of a thread.
#[derive(Clone, Copy, Debug, PartialEq, Eq, Structural)]
pub enum FileChangeRequest {
    Read,
    Restore,
    Discard,
}

/// The message of a request that failed with what `error` says.
pub fn file_change_error(request: FileChangeRequest, error: &str) -> (r: String)
    ensures
        r@ == (match request {
            FileChangeRequest::Read => "failed to preview file restore: "@,
            FileChangeRequest::Restore => "failed to restore files: "@,
            FileChangeRequest::Discard => "failed to discard file checkpoints: "@,
        }) + error@,
{
    match request {
        FileChangeRequest::Read => concat2("failed to preview file restore: ", error),
        FileChangeRequest::Restore => concat2("failed to restore files: ", error),
        FileChangeRequest::Discard => concat2("failed to discard file checkpoints: ", error),
    }
}

/// Clients see the file of a change, its kind, whether it can be restored, and why not.
pub proof fn clients_see_the_change_as_it_is(a: FileRestorePreviewEntry, b: FileRestorePreviewEntry)
    ensures
        shown_change(a).path == a.path,
        shown_change(a).environment_id == a.environment_id,
        shown_change(a).detail == a.detail,
        shown_change(a) == shown_change(b) ==> a == b,
        a.change_kind == FileRestoreChangeKind::Create ==> shown_change(a).change_kind
            == ThreadFileChangeKind::Create,
        a.change_kind == FileRestoreChangeKind::Delete ==> shown_change(a).change_kind
            == ThreadFileChangeKind::Delete,
        a.disposition == FileRestoreDisposition::Restorable ==> shown_change(a).disposition
            == ThreadFileChangeDisposition::Restorable,
        a.disposition == FileRestoreDisposition::Conflict ==> shown_change(a).disposition
            == ThreadFileChangeDisposition::Conflict,
{
}

} // verus!
