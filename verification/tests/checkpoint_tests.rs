use codex_session::checkpoint::digest::{validate_sha256, verify_blob};
use codex_session::checkpoint::error::FileCheckpointError;
use codex_session::checkpoint::file_map::FileKey;
use codex_session::checkpoint::model::{
    BeforeImage, CheckpointState, FileAfterImage, FileImage, FileRestoreChangeKind,
    FileRestoreDisposition, ImageIdentity, JournalEntry, RestoredIdentity,
};
use codex_session::checkpoint::restore::{
    inspect_plan, may_write, FileProbe, FileRestoreOutcome, FileRestorePreview, RestoreAttempt,
};
use codex_session::checkpoint::store::{
    capture_error, current_identity, load_state, read_before_image, FileCheckpointStore, FileRead,
    JournalLine, MAX_RETAINED_TURNS,
};
use std::collections::HashMap;

const ENVIRONMENT_ID: &str = "local";
const ABC_SHA256: &str = "ba7816bf8f01cfea414140de5dae2223b00361a396177a9cb410ff61f20015ad";

/// A store over files in memory.
struct Workspace {
    store: FileCheckpointStore,
    journal: Vec<JournalEntry>,
    files: HashMap<String, Vec<u8>>,
    blobs: HashMap<String, Vec<u8>>,
}

fn copy_key(file: &FileKey) -> FileKey {
    FileKey {
        environment_id: file.environment_id.clone(),
        path: file.path.clone(),
    }
}

fn copy_identity(identity: &ImageIdentity) -> ImageIdentity {
    match identity {
        ImageIdentity::Absent => ImageIdentity::Absent,
        ImageIdentity::Present { sha256, size } => ImageIdentity::Present {
            sha256: sha256.clone(),
            size: *size,
        },
    }
}

fn copy_entry(entry: &JournalEntry) -> JournalEntry {
    match entry {
        JournalEntry::BeginTurn { turn_id } => JournalEntry::BeginTurn {
            turn_id: turn_id.clone(),
        },
        JournalEntry::BeforeImage {
            turn_id,
            file,
            before,
        } => JournalEntry::BeforeImage {
            turn_id: turn_id.clone(),
            file: copy_key(file),
            before: match before {
                BeforeImage::Absent => BeforeImage::Absent,
                BeforeImage::Blob { sha256, size } => BeforeImage::Blob {
                    sha256: sha256.clone(),
                    size: *size,
                },
            },
        },
        JournalEntry::AfterImage { file, after } => JournalEntry::AfterImage {
            file: copy_key(file),
            after: copy_identity(after),
        },
        JournalEntry::Restore { restored } => JournalEntry::Restore {
            restored: restored
                .iter()
                .map(|restored| RestoredIdentity {
                    file: copy_key(&restored.file),
                    image: copy_identity(&restored.image),
                })
                .collect(),
        },
        JournalEntry::DiscardFromTurn { turn_id } => JournalEntry::DiscardFromTurn {
            turn_id: turn_id.clone(),
        },
        JournalEntry::PruneTurn { turn_id } => JournalEntry::PruneTurn {
            turn_id: turn_id.clone(),
        },
    }
}

impl Workspace {
    fn new() -> Self {
        Workspace {
            store: FileCheckpointStore::open(CheckpointState::new()),
            journal: Vec::new(),
            files: HashMap::new(),
            blobs: HashMap::new(),
        }
    }

    fn apply(&mut self, entry: JournalEntry) {
        self.journal.push(copy_entry(&entry));
        self.store.apply(entry);
    }

    fn write(&mut self, path: &str, contents: &str) {
        self.files
            .insert(path.to_string(), contents.as_bytes().to_vec());
    }

    fn text(&self, path: &str) -> Option<String> {
        self.files
            .get(path)
            .map(|contents| String::from_utf8(contents.clone()).expect("text"))
    }

    fn read(&self, path: &str) -> FileRead {
        match self.files.get(path) {
            Some(contents) => FileRead::Contents(contents.clone()),
            None => FileRead::Missing,
        }
    }

    fn begin_turn(&mut self, turn_id: &str) {
        for step in self.store.begin_turn(turn_id) {
            self.apply(step);
        }
    }

    fn capture(&mut self, turn_id: &str, paths: &[&str]) {
        if let Some(step) = self.store.capture_turn(turn_id) {
            self.apply(step);
        }
        for path in paths {
            let read = self.read(path);
            let step = self
                .store
                .capture_before_write(turn_id, ENVIRONMENT_ID, path, &read)
                .expect("capture file");
            if let Some(step) = step {
                if let JournalEntry::BeforeImage {
                    before: BeforeImage::Blob { sha256, .. },
                    ..
                } = &step
                {
                    self.blobs
                        .insert(sha256.clone(), self.files[*path].clone());
                }
                self.apply(step);
            }
        }
    }

    fn record(&mut self, path: &str, contents: &str) {
        self.write(path, contents);
        let images = vec![FileAfterImage {
            path: path.to_string(),
            image: FileImage::Contents(contents.as_bytes().to_vec()),
        }];
        for step in self.store.record_after_images(ENVIRONMENT_ID, &images) {
            self.apply(step);
        }
    }

    fn probe(&self, file: &FileKey) -> FileProbe {
        if file.environment_id != ENVIRONMENT_ID {
            return FileProbe::EnvironmentUnavailable;
        }
        match current_identity(&self.read(&file.path), &file.path) {
            Ok(identity) => FileProbe::Current(identity),
            Err(error) => FileProbe::Failed(error.message()),
        }
    }

    fn preview(&self, turn_id: &str) -> FileRestorePreview {
        let plan = self.store.restore_plan(turn_id);
        let probes = plan.iter().map(|planned| self.probe(&planned.file)).collect();
        self.store.preview(plan, &probes)
    }

    fn restore(&mut self, turn_id: &str) -> FileRestoreOutcome {
        let plan = self.store.restore_plan(turn_id);
        let probes = plan.iter().map(|planned| self.probe(&planned.file)).collect();
        let inspected = inspect_plan(plan, &probes);
        let mut attempts = Vec::new();
        for file in &inspected {
            let probe = self.probe(&file.plan.file);
            if may_write(file, &probe) {
                match &file.plan.target {
                    BeforeImage::Absent => {
                        self.files.remove(&file.plan.file.path);
                    }
                    BeforeImage::Blob { sha256, size } => {
                        let contents = self.blobs[sha256].clone();
                        verify_blob(sha256, *size, &contents).expect("sound blob");
                        self.files.insert(file.plan.file.path.clone(), contents);
                    }
                }
            }
            attempts.push(RestoreAttempt {
                probe,
                write_error: None,
            });
        }
        let (outcome, step) = self.store.restore(inspected, &attempts);
        if let Some(step) = step {
            self.apply(step);
        }
        outcome
    }

    fn reload(&mut self) {
        let contents = "entry\n".repeat(self.journal.len());
        let decoded = self
            .journal
            .iter()
            .map(|entry| JournalLine::Entry(copy_entry(entry)))
            .collect();
        self.store = FileCheckpointStore::open(load_state(&contents, decoded).expect("journal"));
    }
}

#[test]
fn restores_file_to_state_before_selected_turn() {
    let mut workspace = Workspace::new();
    workspace.write("sample.txt", "original\n");
    workspace.begin_turn("turn-1");
    workspace.capture("turn-1", &["sample.txt"]);
    workspace.record("sample.txt", "one\n");
    workspace.begin_turn("turn-2");
    workspace.capture("turn-2", &["sample.txt"]);
    workspace.record("sample.txt", "two\n");

    let preview = workspace.preview("turn-1");
    assert_eq!(preview.files.len(), 1);
    assert_eq!(preview.restorable_file_count(), 1);
    assert_eq!(preview.files[0].change_kind, FileRestoreChangeKind::Update);
    assert_eq!(
        preview.files[0].disposition,
        FileRestoreDisposition::Restorable
    );

    let outcome = workspace.restore("turn-1");
    assert_eq!(outcome.restored.len(), 1);
    assert_eq!(outcome.restored[0].path, preview.files[0].path);
    assert_eq!(
        outcome.restored[0].change_kind,
        preview.files[0].change_kind
    );
    assert_eq!(workspace.text("sample.txt").as_deref(), Some("original\n"));
    assert_eq!(workspace.preview("turn-1").files.len(), 0);
}

#[test]
fn restores_created_file_by_deleting_it() {
    let mut workspace = Workspace::new();
    workspace.begin_turn("turn-1");
    workspace.capture("turn-1", &["created.txt"]);
    workspace.record("created.txt", "created\n");

    let outcome = workspace.restore("turn-1");
    assert_eq!(outcome.restored.len(), 1);
    assert_eq!(
        outcome.restored[0].change_kind,
        FileRestoreChangeKind::Delete
    );
    assert_eq!(workspace.text("created.txt"), None);
}

#[test]
fn skips_file_changed_outside_managed_tools() {
    let mut workspace = Workspace::new();
    workspace.write("sample.txt", "original\n");
    workspace.begin_turn("turn-1");
    workspace.capture("turn-1", &["sample.txt"]);
    workspace.record("sample.txt", "managed\n");
    workspace.write("sample.txt", "manual\n");

    let outcome = workspace.restore("turn-1");
    assert_eq!(outcome.restored.len(), 0);
    assert_eq!(outcome.skipped.len(), 1);
    assert_eq!(
        outcome.skipped[0].disposition,
        FileRestoreDisposition::Conflict
    );
    assert_eq!(workspace.text("sample.txt").as_deref(), Some("manual\n"));
}

#[test]
fn ignores_captured_file_that_managed_tools_did_not_change() {
    let mut workspace = Workspace::new();
    workspace.write("changed.txt", "original changed\n");
    workspace.write("unchanged.txt", "original unchanged\n");
    workspace.begin_turn("turn-1");
    workspace.capture("turn-1", &["changed.txt", "unchanged.txt"]);
    workspace.record("changed.txt", "managed\n");
    workspace.write("unchanged.txt", "manual\n");

    let preview = workspace.preview("turn-1");
    assert_eq!(preview.files.len(), 1);
    let entry = &preview.files[0];
    assert_eq!(entry.environment_id, ENVIRONMENT_ID);
    assert_eq!(entry.path, "changed.txt");
    assert_eq!(entry.change_kind, FileRestoreChangeKind::Update);
    assert_eq!(entry.disposition, FileRestoreDisposition::Restorable);
    assert_eq!(entry.detail, None);
}

#[test]
fn reloads_journal_and_discards_rewound_turns() {
    let mut workspace = Workspace::new();
    workspace.write("sample.txt", "original\n");
    workspace.begin_turn("turn-1");
    workspace.capture("turn-1", &["sample.txt"]);
    workspace.record("sample.txt", "managed\n");

    workspace.reload();
    assert_eq!(workspace.preview("turn-1").files.len(), 1);
    let step = workspace
        .store
        .discard_from_turn("turn-1")
        .expect("known turn");
    workspace.apply(step);
    assert_eq!(workspace.preview("turn-1").files.len(), 0);
    assert!(workspace.store.discard_from_turn("turn-1").is_none());
}

#[test]
fn deleted_files_come_back() {
    let mut workspace = Workspace::new();
    workspace.write("gone.txt", "abc");
    workspace.begin_turn("turn-1");
    workspace.capture("turn-1", &["gone.txt"]);
    workspace.files.remove("gone.txt");
    let images = vec![FileAfterImage {
        path: "gone.txt".to_string(),
        image: FileImage::Absent,
    }];
    for step in workspace.store.record_after_images(ENVIRONMENT_ID, &images) {
        workspace.apply(step);
    }
    assert_eq!(
        workspace.preview("turn-1").files[0].change_kind,
        FileRestoreChangeKind::Create
    );
    workspace.restore("turn-1");
    assert_eq!(workspace.text("gone.txt").as_deref(), Some("abc"));
}

#[test]
fn the_first_image_of_a_turn_counts() {
    let mut workspace = Workspace::new();
    workspace.write("a.txt", "first\n");
    workspace.begin_turn("turn-1");
    workspace.capture("turn-1", &["a.txt"]);
    workspace.record("a.txt", "second\n");
    let file = FileKey {
        environment_id: ENVIRONMENT_ID.to_string(),
        path: "a.txt".to_string(),
    };
    assert!(!workspace.store.needs_capture("turn-1", &file));
    workspace.capture("turn-1", &["a.txt"]);
    workspace.record("a.txt", "third\n");
    workspace.restore("turn-1");
    assert_eq!(workspace.text("a.txt").as_deref(), Some("first\n"));
}

#[test]
fn unreachable_environments_are_reported() {
    let mut workspace = Workspace::new();
    workspace.apply(JournalEntry::BeginTurn {
        turn_id: "selected".to_string(),
    });
    let file = || FileKey {
        environment_id: "offline".to_string(),
        path: "tracked.txt".to_string(),
    };
    workspace.apply(JournalEntry::BeforeImage {
        turn_id: "selected".to_string(),
        file: file(),
        before: BeforeImage::Absent,
    });
    workspace.apply(JournalEntry::AfterImage {
        file: file(),
        after: ImageIdentity::Present {
            sha256: "0".repeat(64),
            size: 1,
        },
    });
    let before = workspace.journal.len();
    let outcome = workspace.restore("selected");
    assert_eq!(
        (
            outcome.restored.len(),
            outcome.skipped.len(),
            outcome.failed.len()
        ),
        (0, 1, 0)
    );
    assert_eq!(
        outcome.skipped[0].disposition,
        FileRestoreDisposition::Unavailable
    );
    assert_eq!(
        outcome.skipped[0].detail.as_deref(),
        Some("environment is unavailable")
    );
    assert_eq!(workspace.journal.len(), before);
}

#[test]
fn failed_writes_are_reported() {
    let mut workspace = Workspace::new();
    workspace.begin_turn("turn-1");
    workspace.capture("turn-1", &["new.txt"]);
    workspace.record("new.txt", "text");
    let plan = workspace.store.restore_plan("turn-1");
    let probes = vec![workspace.probe(&plan[0].file)];
    let inspected = inspect_plan(plan, &probes);
    let attempts = vec![RestoreAttempt {
        probe: workspace.probe(&inspected[0].plan.file),
        write_error: Some("disk full".to_string()),
    }];
    let (outcome, step) = workspace.store.restore(inspected, &attempts);
    assert!(step.is_none());
    assert_eq!(outcome.failed.len(), 1);
    assert_eq!(outcome.failed[0].detail.as_deref(), Some("disk full"));
}

#[test]
fn files_that_change_during_a_restore_are_skipped() {
    let mut workspace = Workspace::new();
    workspace.write("a.txt", "old");
    workspace.begin_turn("turn-1");
    workspace.capture("turn-1", &["a.txt"]);
    workspace.record("a.txt", "managed");
    let plan = workspace.store.restore_plan("turn-1");
    let probes = vec![workspace.probe(&plan[0].file)];
    let inspected = inspect_plan(plan, &probes);
    workspace.write("a.txt", "late edit");
    let probe = workspace.probe(&inspected[0].plan.file);
    assert!(!may_write(&inspected[0], &probe));
    let attempts = vec![RestoreAttempt {
        probe,
        write_error: None,
    }];
    let (outcome, step) = workspace.store.restore(inspected, &attempts);
    assert!(step.is_none());
    assert_eq!(outcome.skipped.len(), 1);
    assert_eq!(
        outcome.skipped[0].detail.as_deref(),
        Some("file changed after the restore preview was prepared")
    );
}

#[test]
fn old_turns_are_pruned() {
    let mut workspace = Workspace::new();
    for turn in 0..MAX_RETAINED_TURNS + 3 {
        workspace.begin_turn(&format!("turn-{turn}"));
    }
    assert_eq!(workspace.store.state.turns.len(), MAX_RETAINED_TURNS);
    assert_eq!(workspace.store.state.turn_index("turn-2"), None);
    assert_eq!(workspace.store.state.turn_index("turn-3"), Some(0));
    assert!(workspace.store.begin_turn("turn-3").is_empty());
}

#[test]
fn unneeded_blobs_are_found() {
    let mut workspace = Workspace::new();
    workspace.write("a.txt", "abc");
    workspace.begin_turn("turn-1");
    workspace.capture("turn-1", &["a.txt"]);
    let other = "0".repeat(64);
    assert_eq!(
        workspace
            .store
            .unreferenced_blobs(&vec![other.clone(), ABC_SHA256.to_string()]),
        vec![other]
    );
}

#[test]
fn images_are_identified_by_their_digest() {
    let image = read_before_image(&FileRead::Contents(b"abc".to_vec()), "a.txt").expect("image");
    assert!(matches!(
        image.identity(),
        ImageIdentity::Present { sha256, size: 3 } if sha256 == ABC_SHA256
    ));
    assert!(verify_blob(ABC_SHA256, 3, &b"abc".to_vec()).is_ok());
    for (size, contents) in [(3, "abd"), (4, "abc")] {
        let error = verify_blob(ABC_SHA256, size, &contents.as_bytes().to_vec())
            .expect_err("another blob");
        assert_eq!(
            error.message(),
            format!(
                "file checkpoint data is invalid: checkpoint blob {ABC_SHA256} failed integrity validation"
            )
        );
    }
    assert!(validate_sha256(ABC_SHA256).is_ok());
    for name in ["", "abc", &"g".repeat(64), &"../".repeat(22)[..64]] {
        assert_eq!(
            validate_sha256(name).expect_err("no digest").message(),
            "file checkpoint data is invalid: checkpoint blob name is not a SHA-256 digest"
        );
    }
}

#[test]
fn refused_reads_say_why() {
    for (read, action, message) in [
        (
            FileRead::SymbolicLink,
            "checkpoint",
            "file checkpoint data is invalid: refusing to checkpoint symbolic link a",
        ),
        (
            FileRead::NonFile,
            "restore",
            "file checkpoint data is invalid: refusing to restore non-file path a",
        ),
        (
            FileRead::Failed("denied".to_string()),
            "restore",
            "file checkpoint I/O failed: denied",
        ),
    ] {
        let error = if action == "checkpoint" {
            read_before_image(&read, "a").expect_err("refused")
        } else {
            current_identity(&read, "a").expect_err("refused")
        };
        assert_eq!(error.message(), message);
    }
    assert!(matches!(
        capture_error("a", &FileCheckpointError::Io("denied".to_string())),
        FileCheckpointError::InvalidData(message)
            if message == "a: file checkpoint I/O failed: denied"
    ));
    assert_eq!(
        FileCheckpointError::LockPoisoned.message(),
        "file checkpoint state lock was poisoned"
    );
    assert_eq!(
        FileCheckpointError::OperationLockClosed.message(),
        "file checkpoint operation lock was closed"
    );
}

#[test]
fn journals_may_end_in_half_a_line() {
    let begin = |turn: &str| {
        JournalLine::Entry(JournalEntry::BeginTurn {
            turn_id: turn.to_string(),
        })
    };
    let state = load_state(
        "{}\n\u{3000}\n{\"ty",
        vec![
            begin("turn-1"),
            JournalLine::Malformed("blank".to_string()),
            JournalLine::Malformed("half".to_string()),
        ],
    )
    .expect("a torn last line is left out");
    assert_eq!(state.turns.len(), 1);

    let error = load_state(
        "{}\nnonsense\n",
        vec![begin("turn-1"), JournalLine::Malformed("bad".to_string())],
    )
    .err()
    .expect("a whole line has to be sound");
    assert_eq!(
        error.message(),
        "file checkpoint data is invalid: journal line 2: bad"
    );
}

#[test]
fn a_second_restore_changes_nothing() {
    let mut workspace = Workspace::new();
    workspace.write("/work/kept.txt", "same");
    workspace.write("/work/changed.txt", "before");
    workspace.begin_turn("turn");
    workspace.capture(
        "turn",
        &["/work/kept.txt", "/work/changed.txt", "/work/created.txt"],
    );
    workspace.record("/work/changed.txt", "after");
    workspace.record("/work/created.txt", "new");

    let first = workspace.restore("turn");
    assert_eq!((first.restored.len(), first.skipped.len(), first.failed.len()), (2, 0, 0));
    let journal = workspace.journal.len();
    let files = workspace.files.clone();

    let second = workspace.restore("turn");
    assert_eq!((second.restored.len(), second.skipped.len(), second.failed.len()), (0, 0, 0));
    assert_eq!(workspace.journal.len(), journal);
    assert_eq!(workspace.files, files);
    assert_eq!(workspace.text("/work/changed.txt").as_deref(), Some("before"));
    assert_eq!(workspace.text("/work/created.txt"), None);
}
