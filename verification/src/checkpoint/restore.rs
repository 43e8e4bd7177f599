//! Looking at the files of a restore plan, and bringing them back.

use crate::checkpoint::model::{self, Identity};
use crate::checkpoint::model::{change_kind, BeforeImage, FileRestoreChangeKind};
use crate::checkpoint::model::{FileRestoreDisposition, ImageIdentity, JournalEntry, RestoredIdentity};
use crate::checkpoint::plan::PlannedRestore;
use crate::data::Data;
use vstd::prelude::*;

verus! {

/// What a restore would do to a file.
#[derive(Debug)]
pub struct FileRestorePreviewEntry {
    pub environment_id: String,
    pub path: String,
    pub change_kind: FileRestoreChangeKind,
    pub disposition: FileRestoreDisposition,
    pub detail: Option<String>,
}

/// The model of what a restore would do to a file.
pub ghost struct PreviewModel {
    pub environment_id: Seq<char>,
    pub path: Seq<char>,
    pub change_kind: FileRestoreChangeKind,
    pub disposition: FileRestoreDisposition,
    pub detail: Option<Seq<char>>,
}

impl DeepView for FileRestorePreviewEntry {
    type V = PreviewModel;

    open spec fn deep_view(&self) -> Self::V {
        PreviewModel {
            environment_id: self.environment_id@,
            path: self.path@,
            change_kind: self.change_kind,
            disposition: self.disposition,
            detail: self.detail.deep_view(),
        }
    }
}

impl Data for FileRestorePreviewEntry {
    fn same(&self, other: &Self) -> (r: bool) {
        self.environment_id == other.environment_id && self.path == other.path
            && self.change_kind == other.change_kind && self.disposition == other.disposition
            && self.detail.same(&other.detail)
    }

    fn duplicate(&self) -> (r: Self) {
        FileRestorePreviewEntry {
            environment_id: self.environment_id.clone(),
            path: self.path.clone(),
            change_kind: self.change_kind,
            disposition: self.disposition,
            detail: self.detail.duplicate(),
        }
    }
}

/// What a restore would do.
#[derive(Debug)]
pub struct FileRestorePreview {
    pub files: Vec<FileRestorePreviewEntry>,
}

/// How many files can be restored.
pub open spec fn restorable_count(files: Seq<FileRestorePreviewEntry>) -> nat
    decreases files.len(),
{
    if files.len() == 0 {
        0
    } else {
        restorable_count(files.drop_last()) + if files.last().disposition
            == FileRestoreDisposition::Restorable {
            1nat
        } else {
            0
        }
    }
}

impl FileRestorePreview {
    /// How many files can be restored.
    pub fn restorable_file_count(&self) -> (r: usize)
        ensures
            r == restorable_count(self.files@),
    {
        let mut count: usize = 0;
        let mut i: usize = 0;
        assert(self.files@.take(0) =~= Seq::empty());
        while i < self.files.len()
            invariant
                i <= self.files@.len(),
                count <= i,
                count == restorable_count(self.files@.take(i as int)),
            decreases self.files@.len() - i,
        {
            assert(self.files@.take(i + 1).drop_last() =~= self.files@.take(i as int));
            if self.files[i].disposition == FileRestoreDisposition::Restorable {
                count += 1;
            }
            i += 1;
        }
        assert(self.files@.take(i as int) =~= self.files@);
        count
    }
}

/// What a restore did.
#[derive(Debug)]
pub struct FileRestoreOutcome {
    pub restored: Vec<FileRestorePreviewEntry>,
    pub skipped: Vec<FileRestorePreviewEntry>,
    pub failed: Vec<FileRestorePreviewEntry>,
}

/// What was found when a file was looked at.
pub enum FileProbe {
    /// The environment of the file cannot be reached.
    EnvironmentUnavailable,
    /// The stored path does not lead to a file of the environment.
    PathUnresolved,
    /// What the file holds.
    Current(ImageIdentity),
    /// Looking failed; holds what the error said.
    Failed(String),
}

/// A file of a restore plan after it was looked at.
pub struct InspectedRestore {
    pub plan: PlannedRestore,
    pub preview: FileRestorePreviewEntry,
}

/// The model of a file of a restore plan after it was looked at.
pub ghost struct InspectedModel {
    pub file: (Seq<char>, Seq<char>),
    pub target: Identity,
    pub expected: Option<Identity>,
    pub preview: PreviewModel,
}

impl DeepView for InspectedRestore {
    type V = InspectedModel;

    open spec fn deep_view(&self) -> Self::V {
        InspectedModel {
            file: self.plan.file.deep_view(),
            target: self.plan.target.deep_view(),
            expected: self.plan.expected_current.deep_view(),
            preview: self.preview.deep_view(),
        }
    }
}

/// A preview of a file with a disposition.
pub open spec fn preview_of(
    file: (Seq<char>, Seq<char>),
    change_kind: FileRestoreChangeKind,
    disposition: FileRestoreDisposition,
    detail: Option<Seq<char>>,
) -> PreviewModel {
    PreviewModel { environment_id: file.0, path: file.1, change_kind, disposition, detail }
}

/// Whether a file may be brought back although it holds `current`: it was not there before, or
/// it holds what managed tools left in it.
pub open spec fn may_replace(
    target: Identity,
    expected: Option<Identity>,
    current: Identity,
) -> bool {
    target is Absent || expected == Some(current)
}

/// What becomes of a planned file that was looked at. It drops out of the restore where it holds
/// what it should hold again, and where managed tools left it as it was.
pub open spec fn inspected(plan: PlannedRestore, probe: FileProbe) -> Option<InspectedModel> {
    let file = plan.file.deep_view();
    let target = plan.target.deep_view();
    let expected = plan.expected_current.deep_view();
    let unavailable = |detail: Seq<char>|
        Some(
            InspectedModel {
                file,
                target,
                expected,
                preview: preview_of(
                    file,
                    FileRestoreChangeKind::Update,
                    FileRestoreDisposition::Unavailable,
                    Some(detail),
                ),
            },
        );
    match probe {
        FileProbe::EnvironmentUnavailable => unavailable("environment is unavailable"@),
        FileProbe::PathUnresolved => unavailable("stored path could not be resolved"@),
        FileProbe::Failed(error) => unavailable(error@),
        FileProbe::Current(current) => if current.deep_view() == target || expected == Some(target)
        {
            None
        } else {
            Some(
                InspectedModel {
                    file,
                    target,
                    expected: Some(current.deep_view()),
                    preview: preview_of(
                        file,
                        model::kind_of_change(current.deep_view(), target),
                        if may_replace(target, expected, current.deep_view()) {
                            FileRestoreDisposition::Restorable
                        } else {
                            FileRestoreDisposition::Conflict
                        },
                        None,
                    ),
                },
            )
        },
    }
}

/// What the first `n` files of a plan come to.
pub open spec fn all_inspected(
    plan: Seq<PlannedRestore>,
    probes: Seq<FileProbe>,
    n: int,
) -> Seq<InspectedModel>
    decreases n,
{
    if n <= 0 {
        Seq::empty()
    } else {
        match inspected(plan[n - 1], probes[n - 1]) {
            Some(file) => all_inspected(plan, probes, n - 1).push(file),
            None => all_inspected(plan, probes, n - 1),
        }
    }
}

/// What becomes of a planned file that was looked at.
pub fn inspect_file(plan: PlannedRestore, probe: &FileProbe) -> (r: Option<InspectedRestore>)
    ensures
        r.deep_view() == inspected(plan, *probe),
{
    let environment_id = plan.file.environment_id.clone();
    let path = plan.file.path.clone();
    let detail = match probe {
        FileProbe::EnvironmentUnavailable => "environment is unavailable".to_owned(),
        FileProbe::PathUnresolved => "stored path could not be resolved".to_owned(),
        FileProbe::Failed(error) => error.clone(),
        FileProbe::Current(current) => {
            let target = plan.target.identity();
            let left_alone = match &plan.expected_current {
                Some(expected) => expected.same(&target),
                None => false,
            };
            if current.same(&target) || left_alone {
                return None;
            }
            let was_absent = match plan.target {
                BeforeImage::Absent => true,
                BeforeImage::Blob { .. } => false,
            };
            let as_expected = match &plan.expected_current {
                Some(expected) => expected.same(current),
                None => false,
            };
            let preview = FileRestorePreviewEntry {
                environment_id,
                path,
                change_kind: change_kind(current, &plan.target),
                disposition: if was_absent || as_expected {
                    FileRestoreDisposition::Restorable
                } else {
                    FileRestoreDisposition::Conflict
                },
                detail: None,
            };
            let found = current.duplicate();
            return Some(
                InspectedRestore {
                    plan: PlannedRestore {
                        file: plan.file,
                        target: plan.target,
                        expected_current: Some(found),
                    },
                    preview,
                },
            );
        },
    };
    let preview = FileRestorePreviewEntry {
        environment_id,
        path,
        change_kind: FileRestoreChangeKind::Update,
        disposition: FileRestoreDisposition::Unavailable,
        detail: Some(detail),
    };
    Some(InspectedRestore { plan, preview })
}

/// What the files of a plan come to. `probes` holds what was found for each of them.
pub fn inspect_plan(plan: Vec<PlannedRestore>, probes: &Vec<FileProbe>) -> (r: Vec<
    InspectedRestore,
>)
    requires
        plan@.len() == probes@.len(),
    ensures
        r.deep_view() == all_inspected(plan@, probes@, plan@.len() as int),
{
    let mut r: Vec<InspectedRestore> = Vec::new();
    let count: usize = probes.len();
    let mut i: usize = 0;
    let ghost all = plan@;
    assert(r.deep_view() =~= Seq::empty());
    for planned in it: plan
        invariant
            it.seq() == all,
            all.len() == probes@.len() == count,
            i == it.index(),
            r.deep_view() == all_inspected(all, probes@, i as int),
    {
        let ghost before = r.deep_view();
        assert(planned == all[i as int]);
        if let Some(file) = inspect_file(planned, &probes[i]) {
            r.push(file);
            assert(r.deep_view() =~= before.push(file.deep_view()));
        }
        i += 1;
    }
    r
}

/// The previews of inspected files.
pub open spec fn previews(files: Seq<InspectedModel>) -> Seq<PreviewModel> {
    files.map_values(|file: InspectedModel| file.preview)
}

/// The preview of a restore of inspected files.
pub fn preview_of_inspected(inspected: Vec<InspectedRestore>) -> (r: FileRestorePreview)
    ensures
        r.files.deep_view() == previews(inspected.deep_view()),
{
    let mut files: Vec<FileRestorePreviewEntry> = Vec::new();
    let ghost all = inspected@;
    for file in it: inspected
        invariant
            it.seq() == all,
            files@.len() == it.index(),
            forall|k: int|
                0 <= k < files@.len() ==> (#[trigger] files@[k]).deep_view()
                    == all[k].preview.deep_view(),
    {
        files.push(file.preview);
    }
    assert(files.deep_view() =~= previews(inspected.deep_view()));
    FileRestorePreview { files }
}

/// An attempt to bring back a file: what it was found to hold right before, and what the error
/// said where writing it failed.
pub struct RestoreAttempt {
    pub probe: FileProbe,
    pub write_error: Option<String>,
}

/// Where a file of a restore ends up.
pub ghost enum RestoreResult {
    Restored(PreviewModel),
    Skipped(PreviewModel),
    Failed(PreviewModel),
}

/// A preview that a failure or a conflict changes.
pub open spec fn revised(
    preview: PreviewModel,
    disposition: FileRestoreDisposition,
    detail: Seq<char>,
) -> PreviewModel {
    PreviewModel { disposition, detail: Some(detail), ..preview }
}

/// Whether a file may be written: it can be restored, and holds what it held when it was looked
/// at.
pub open spec fn writable(file: InspectedModel, probe: FileProbe) -> bool {
    &&& file.preview.disposition == FileRestoreDisposition::Restorable
    &&& probe matches FileProbe::Current(current) && file.expected == Some(current.deep_view())
}

/// Where a file ends up after an attempt to bring it back.
pub open spec fn result_of(file: InspectedModel, attempt: RestoreAttempt) -> RestoreResult {
    if file.preview.disposition != FileRestoreDisposition::Restorable {
        RestoreResult::Skipped(file.preview)
    } else {
        match attempt.probe {
            FileProbe::EnvironmentUnavailable => RestoreResult::Skipped(file.preview),
            FileProbe::PathUnresolved => RestoreResult::Failed(
                revised(
                    file.preview,
                    FileRestoreDisposition::Unavailable,
                    "stored path could not be resolved"@,
                ),
            ),
            FileProbe::Failed(error) => RestoreResult::Failed(
                revised(file.preview, FileRestoreDisposition::Unavailable, error@),
            ),
            FileProbe::Current(current) => if file.expected != Some(current.deep_view()) {
                RestoreResult::Skipped(
                    revised(
                        file.preview,
                        FileRestoreDisposition::Conflict,
                        "file changed after the restore preview was prepared"@,
                    ),
                )
            } else {
                match attempt.write_error {
                    Some(error) => RestoreResult::Failed(
                        revised(file.preview, FileRestoreDisposition::Unavailable, error@),
                    ),
                    None => RestoreResult::Restored(file.preview),
                }
            },
        }
    }
}

/// The files of the first `n` that were restored.
pub open spec fn restored_of(
    files: Seq<InspectedModel>,
    attempts: Seq<RestoreAttempt>,
    n: int,
) -> Seq<PreviewModel>
    decreases n,
{
    if n <= 0 {
        Seq::empty()
    } else {
        match result_of(files[n - 1], attempts[n - 1]) {
            RestoreResult::Restored(preview) => restored_of(files, attempts, n - 1).push(preview),
            _ => restored_of(files, attempts, n - 1),
        }
    }
}

/// The files of the first `n` that were skipped.
pub open spec fn skipped_of(
    files: Seq<InspectedModel>,
    attempts: Seq<RestoreAttempt>,
    n: int,
) -> Seq<PreviewModel>
    decreases n,
{
    if n <= 0 {
        Seq::empty()
    } else {
        match result_of(files[n - 1], attempts[n - 1]) {
            RestoreResult::Skipped(preview) => skipped_of(files, attempts, n - 1).push(preview),
            _ => skipped_of(files, attempts, n - 1),
        }
    }
}

/// The files of the first `n` whose restore failed.
pub open spec fn failed_of(
    files: Seq<InspectedModel>,
    attempts: Seq<RestoreAttempt>,
    n: int,
) -> Seq<PreviewModel>
    decreases n,
{
    if n <= 0 {
        Seq::empty()
    } else {
        match result_of(files[n - 1], attempts[n - 1]) {
            RestoreResult::Failed(preview) => failed_of(files, attempts, n - 1).push(preview),
            _ => failed_of(files, attempts, n - 1),
        }
    }
}

/// The files of the first `n` that were restored, and what they hold since.
pub open spec fn identities_of(
    files: Seq<InspectedModel>,
    attempts: Seq<RestoreAttempt>,
    n: int,
) -> Seq<((Seq<char>, Seq<char>), Identity)>
    decreases n,
{
    if n <= 0 {
        Seq::empty()
    } else {
        match result_of(files[n - 1], attempts[n - 1]) {
            RestoreResult::Restored(_) => identities_of(files, attempts, n - 1).push(
                (files[n - 1].file, files[n - 1].target),
            ),
            _ => identities_of(files, attempts, n - 1),
        }
    }
}

impl DeepView for RestoredIdentity {
    type V = ((Seq<char>, Seq<char>), Identity);

    open spec fn deep_view(&self) -> Self::V {
        (self.file.deep_view(), self.image.deep_view())
    }
}

/// Whether a file may be written, after it was looked at once more.
pub fn may_write(file: &InspectedRestore, probe: &FileProbe) -> (r: bool)
    ensures
        r == writable(file.deep_view(), *probe),
{
    file.preview.disposition == FileRestoreDisposition::Restorable && match probe {
        FileProbe::Current(current) => match &file.plan.expected_current {
            Some(expected) => expected.same(current),
            None => false,
        },
        _ => false,
    }
}

/// Where each file of a restore ends up, and the step to record where some were restored.
/// `attempts` holds the attempt for each file; a file that may not be written was not.
pub fn finish_restore(inspected: Vec<InspectedRestore>, attempts: &Vec<RestoreAttempt>) -> (r: (
    FileRestoreOutcome,
    Option<JournalEntry>,
))
    requires
        inspected@.len() == attempts@.len(),
    ensures
        r.0.restored.deep_view() == restored_of(
            inspected.deep_view(),
            attempts@,
            inspected@.len() as int,
        ),
        r.0.skipped.deep_view() == skipped_of(
            inspected.deep_view(),
            attempts@,
            inspected@.len() as int,
        ),
        r.0.failed.deep_view() == failed_of(
            inspected.deep_view(),
            attempts@,
            inspected@.len() as int,
        ),
        match r.1 {
            Some(entry) => (entry matches JournalEntry::Restore { restored }
                && restored.deep_view() == identities_of(
                inspected.deep_view(),
                attempts@,
                inspected@.len() as int,
            ) && restored@.len() > 0),
            None => identities_of(
                inspected.deep_view(),
                attempts@,
                inspected@.len() as int,
            ).len() == 0,
        },
{
    let mut restored: Vec<FileRestorePreviewEntry> = Vec::new();
    let mut skipped: Vec<FileRestorePreviewEntry> = Vec::new();
    let mut failed: Vec<FileRestorePreviewEntry> = Vec::new();
    let mut identities: Vec<RestoredIdentity> = Vec::new();
    let count: usize = attempts.len();
    let mut i: usize = 0;
    let ghost all = inspected@;
    let ghost models = inspected.deep_view();
    assert(restored.deep_view() =~= Seq::empty());
    assert(identities.deep_view() =~= Seq::empty());
    for file in it: inspected
        invariant
            it.seq() == all,
            all.len() == attempts@.len() == count,
            models.len() == all.len(),
            forall|k: int| 0 <= k < all.len() ==> (#[trigger] models[k]) == all[k].deep_view(),
            i == it.index(),
            restored.deep_view() == restored_of(models, attempts@, i as int),
            skipped.deep_view() == skipped_of(models, attempts@, i as int),
            failed.deep_view() == failed_of(models, attempts@, i as int),
            identities.deep_view() == identities_of(models, attempts@, i as int),
    {
        let ghost restored_before = restored.deep_view();
        let ghost skipped_before = skipped.deep_view();
        let ghost failed_before = failed.deep_view();
        let ghost identities_before = identities.deep_view();
        let attempt = &attempts[i];
        assert(file == all[i as int]);
        assert(models[i as int] == file.deep_view());
        let writable = may_write(&file, &attempt.probe);
        let mut preview = file.preview;
        if preview.disposition != FileRestoreDisposition::Restorable {
            skipped.push(preview);
        } else {
            match &attempt.probe {
                FileProbe::EnvironmentUnavailable => {
                    skipped.push(preview);
                },
                FileProbe::PathUnresolved => {
                    preview.disposition = FileRestoreDisposition::Unavailable;
                    preview.detail = Some("stored path could not be resolved".to_owned());
                    failed.push(preview);
                },
                FileProbe::Failed(error) => {
                    preview.disposition = FileRestoreDisposition::Unavailable;
                    preview.detail = Some(error.clone());
                    failed.push(preview);
                },
                FileProbe::Current(_) => {
                    if !writable {
                        preview.disposition = FileRestoreDisposition::Conflict;
                        preview.detail =
                        Some("file changed after the restore preview was prepared".to_owned());
                        skipped.push(preview);
                    } else {
                        match &attempt.write_error {
                            Some(error) => {
                                preview.disposition = FileRestoreDisposition::Unavailable;
                                preview.detail = Some(error.clone());
                                failed.push(preview);
                            },
                            None => {
                                let identity = RestoredIdentity {
                                    image: file.plan.target.identity(),
                                    file: file.plan.file,
                                };
                                identities.push(identity);
                                assert(identities.deep_view() =~= identities_before.push(
                                    identity.deep_view(),
                                ));
                                restored.push(preview);
                            },
                        }
                    }
                },
            }
        }
        proof {
            assert(restored.deep_view() =~= restored_of(models, attempts@, i + 1));
            assert(skipped.deep_view() =~= skipped_of(models, attempts@, i + 1));
            assert(failed.deep_view() =~= failed_of(models, attempts@, i + 1));
        }
        i += 1;
    }
    let entry = if identities.len() > 0 {
        Some(JournalEntry::Restore { restored: identities })
    } else {
        None
    };
    (FileRestoreOutcome { restored, skipped, failed }, entry)
}

/// A restore puts every file in exactly one of its three lists.
pub proof fn restore_accounts_for_every_file(
    files: Seq<InspectedModel>,
    attempts: Seq<RestoreAttempt>,
    n: int,
)
    requires
        0 <= n <= files.len(),
    ensures
        restored_of(files, attempts, n).len() + skipped_of(files, attempts, n).len() + failed_of(
            files,
            attempts,
            n,
        ).len() == n,
        identities_of(files, attempts, n).len() == restored_of(files, attempts, n).len(),
    decreases n,
{
    if n > 0 {
        restore_accounts_for_every_file(files, attempts, n - 1);
    }
}

/// A file is restored only where it held, right before it was written, what it held when it was
/// looked at; and then it either was absent before the turns or held what managed tools left in
/// it.
pub proof fn restore_overwrites_only_managed_contents(
    plan: PlannedRestore,
    probe: FileProbe,
    attempt: RestoreAttempt,
)
    requires
        inspected(plan, probe) is Some,
        result_of(inspected(plan, probe)->0, attempt) is Restored,
    ensures
        probe is Current,
        attempt.probe is Current,
        attempt.probe->Current_0.deep_view() == probe->Current_0.deep_view(),
        may_replace(
            plan.target.deep_view(),
            plan.expected_current.deep_view(),
            attempt.probe->Current_0.deep_view(),
        ),
        attempt.probe->Current_0.deep_view() != plan.target.deep_view(),
{
}

/// A file that managed tools left as it was is not part of a restore, whatever it holds by now.
pub proof fn untouched_files_are_left_alone(plan: PlannedRestore, current: ImageIdentity)
    requires
        plan.expected_current.deep_view() == Some(plan.target.deep_view()),
    ensures
        inspected(plan, FileProbe::Current(current)) is None,
{
}

/// A file that was absent before the turns and that a restore removes is no part of the next
/// restore, nor is any other file that holds its earlier contents again.
pub proof fn restored_files_drop_out(plan: PlannedRestore, current: ImageIdentity)
    requires
        current.deep_view() == plan.target.deep_view(),
    ensures
        inspected(plan, FileProbe::Current(current)) is None,
{
}

/// The preview tells what a restore would do to a file: it creates, deletes or updates it as what
/// it holds and what it held before the turns differ. It is restorable where it was not there
/// before, or holds what managed tools left in it, and else in conflict. A file that cannot be
/// looked at is unavailable, and the preview says why.
pub proof fn previews_tell_what_a_restore_does(plan: PlannedRestore, probe: FileProbe)
    ensures
        match inspected(plan, probe) {
            None => {
                &&& probe is Current
                &&& probe->Current_0.deep_view() == plan.target.deep_view()
                    || plan.expected_current.deep_view() == Some(plan.target.deep_view())
            },
            Some(file) => {
                let current = probe->Current_0.deep_view();
                let target = plan.target.deep_view();
                &&& file.file == plan.file.deep_view()
                &&& file.target == target
                &&& file.preview.environment_id == plan.file.environment_id@
                &&& file.preview.path == plan.file.path@
                &&& probe is Current ==> {
                    &&& current != target
                    &&& file.expected == Some(current)
                    &&& file.preview.change_kind == FileRestoreChangeKind::Create <==> current
                        is Absent
                    &&& file.preview.change_kind == FileRestoreChangeKind::Delete <==> target
                        is Absent
                    &&& file.preview.disposition == (if target is Absent
                        || plan.expected_current.deep_view() == Some(current) {
                        FileRestoreDisposition::Restorable
                    } else {
                        FileRestoreDisposition::Conflict
                    })
                    &&& file.preview.detail is None
                }
                &&& !(probe is Current) ==> file.preview.disposition
                    == FileRestoreDisposition::Unavailable && file.preview.detail is Some
                &&& probe matches FileProbe::Failed(error) ==> file.preview.detail == Some(error@)
            },
        },
{
}

/// A file is restored just where it can be, still holds what it was found to hold, and writing it
/// did not fail. Otherwise its entry says what was in the way. The file and the kind of the change
/// stay those of the preview.
pub proof fn restores_end_as_they_went(file: InspectedModel, attempt: RestoreAttempt)
    ensures
        ({
            let preview = match result_of(file, attempt) {
                RestoreResult::Restored(preview) => preview,
                RestoreResult::Skipped(preview) => preview,
                RestoreResult::Failed(preview) => preview,
            };
            let restorable = file.preview.disposition == FileRestoreDisposition::Restorable;
            let same = attempt.probe is Current && file.expected == Some(
                attempt.probe->Current_0.deep_view(),
            );
            &&& preview.path == file.preview.path
            &&& preview.environment_id == file.preview.environment_id
            &&& preview.change_kind == file.preview.change_kind
            &&& result_of(file, attempt) is Restored <==> restorable && same
                && attempt.write_error is None
            &&& result_of(file, attempt) is Restored ==> preview == file.preview
            &&& !restorable ==> result_of(file, attempt) == RestoreResult::Skipped(file.preview)
            &&& restorable && attempt.probe is Current && !same ==> result_of(file, attempt)
                is Skipped && preview.disposition == FileRestoreDisposition::Conflict
            &&& restorable && same && attempt.write_error is Some ==> result_of(file, attempt)
                is Failed && preview.detail == Some(attempt.write_error->0@)
            &&& restorable && attempt.probe is Failed ==> result_of(file, attempt) is Failed
                && preview.detail == Some(attempt.probe->Failed_0@)
            &&& restorable && attempt.probe is EnvironmentUnavailable ==> result_of(file, attempt)
                is Skipped
            &&& writable(file, attempt.probe) <==> restorable && same
        }),
{
}

/// The record of a restore holds the files that were restored, each with what it was restored to,
/// and no others.
pub proof fn records_hold_the_restored_files(
    files: Seq<InspectedModel>,
    attempts: Seq<RestoreAttempt>,
    n: int,
    entry: ((Seq<char>, Seq<char>), Identity),
)
    requires
        0 <= n <= files.len(),
    ensures
        identities_of(files, attempts, n).contains(entry) <==> exists|i: int|
            0 <= i < n && result_of(#[trigger] files[i], attempts[i]) is Restored && entry == (
                files[i].file,
                files[i].target,
            ),
    decreases n,
{
    if n > 0 {
        records_hold_the_restored_files(files, attempts, n - 1, entry);
        let some = identities_of(files, attempts, n - 1);
        let all = identities_of(files, attempts, n);
        if some.contains(entry) {
            let k = choose|k: int| 0 <= k < some.len() && some[k] == entry;
            assert(all[k] == entry);
        }
        if all.contains(entry) {
            let k = choose|k: int| 0 <= k < all.len() && all[k] == entry;
            if k < some.len() {
                assert(some[k] == entry);
            } else {
                assert(result_of(files[n - 1], attempts[n - 1]) is Restored);
            }
        }
        if result_of(files[n - 1], attempts[n - 1]) is Restored {
            assert(all[some.len() as int] == (files[n - 1].file, files[n - 1].target));
        }
    }
}

/// The number of restorable files counts each of them once.
pub proof fn restorable_files_are_counted_once(
    files: Seq<FileRestorePreviewEntry>,
    file: FileRestorePreviewEntry,
)
    ensures
        restorable_count(Seq::empty()) == 0,
        restorable_count(files.push(file)) == restorable_count(files) + (if file.disposition
            == FileRestoreDisposition::Restorable {
            1nat
        } else {
            0nat
        }),
        restorable_count(files) <= files.len(),
    decreases files.len(),
{
    assert(files.push(file).drop_last() =~= files);
    if files.len() > 0 {
        restorable_files_are_counted_once(files.drop_last(), file);
    }
}

} // verus!
