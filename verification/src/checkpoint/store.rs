//! The checkpoints of one thread: which steps each operation records.

use crate::checkpoint::digest::{self, validate_sha256};
use crate::checkpoint::error::FileCheckpointError;
use crate::checkpoint::file_map::FileKey;
use crate::checkpoint::model::{self, Identity, StateModel, TurnModel};
use crate::checkpoint::model::{identity_from_image, BeforeImage, CheckpointState, FileAfterImage};
use crate::checkpoint::model::{ImageIdentity, JournalEntry};
use crate::checkpoint::plan::{self, PlannedRestore};
use crate::checkpoint::restore::{finish_restore, inspect_plan, preview_of_inspected};
use crate::checkpoint::restore::{self, FileProbe, FileRestoreOutcome, FileRestorePreview};
use crate::checkpoint::restore::{InspectedRestore, RestoreAttempt};
use crate::text::{concat3, decimal_string, ends_with, is_blank, lines_of};
use vstd::prelude::*;

verus! {

/// How many turns a thread keeps checkpoints of.
pub const MAX_RETAINED_TURNS: usize = 100;

/// What was found when a file was read.
pub enum FileRead {
    Missing,
    SymbolicLink,
    /// Something else than a file, such as a directory.
    NonFile,
    Contents(Vec<u8>),
    /// Reading failed; holds what the error said.
    Failed(String),
}

/// What stands for the contents of a file that was read; a link or another non-file has none.
pub open spec fn read_identity(read: FileRead) -> Option<Identity> {
    match read {
        FileRead::Missing => Some(Identity::Absent),
        FileRead::Contents(contents) => Some(
            Identity::Present {
                sha256: digest::sha256_hex(contents@),
                size: contents@.len() as u64,
            },
        ),
        _ => None,
    }
}

/// Why a file that was read cannot be used for what `action` says.
pub open spec fn refusal(
    read: FileRead,
    action: Seq<char>,
    path: Seq<char>,
    error: FileCheckpointError,
) -> bool {
    match read {
        FileRead::SymbolicLink => error matches FileCheckpointError::InvalidData(message)
            && message@ == "refusing to "@ + action + " symbolic link "@ + path,
        FileRead::NonFile => error matches FileCheckpointError::InvalidData(message) && message@
            == "refusing to "@ + action + " non-file path "@ + path,
        FileRead::Failed(text) => error matches FileCheckpointError::Io(message) && message@
            == text@,
        _ => false,
    }
}

fn refuse(read: &FileRead, action: &str, path: &str) -> (r: Option<FileCheckpointError>)
    ensures
        match r {
            Some(error) => read_identity(*read) is None && refusal(*read, action@, path@, error),
            None => read_identity(*read) is Some,
        },
{
    match read {
        FileRead::SymbolicLink => {
            let mut message = concat3("refusing to ", action, " symbolic link ");
            message.append(path);
            Some(FileCheckpointError::InvalidData(message))
        },
        FileRead::NonFile => {
            let mut message = concat3("refusing to ", action, " non-file path ");
            message.append(path);
            Some(FileCheckpointError::InvalidData(message))
        },
        FileRead::Failed(text) => Some(FileCheckpointError::Io(text.clone())),
        _ => None,
    }
}

/// The image of a file before a turn writes it. Contents are to be stored under their digest.
pub fn read_before_image(read: &FileRead, path: &str) -> (r: Result<
    BeforeImage,
    FileCheckpointError,
>)
    ensures
        match r {
            Ok(image) => read_identity(*read) == Some(image.deep_view()) && model::valid_identity(
                image.deep_view(),
            ),
            Err(error) => read_identity(*read) is None && refusal(
                *read,
                "checkpoint"@,
                path@,
                error,
            ),
        },
{
    match refuse(read, "checkpoint", path) {
        Some(error) => Err(error),
        None => match read {
            FileRead::Contents(contents) => Ok(
                BeforeImage::Blob {
                    sha256: digest::sha256(contents.as_slice()),
                    size: contents.len() as u64,
                },
            ),
            _ => Ok(BeforeImage::Absent),
        },
    }
}

/// What a file holds.
pub fn current_identity(read: &FileRead, path: &str) -> (r: Result<
    ImageIdentity,
    FileCheckpointError,
>)
    ensures
        match r {
            Ok(identity) => read_identity(*read) == Some(identity.deep_view()),
            Err(error) => read_identity(*read) is None && refusal(
                *read,
                "restore"@,
                path@,
                error,
            ),
        },
{
    match refuse(read, "restore", path) {
        Some(error) => Err(error),
        None => match read {
            FileRead::Contents(contents) => Ok(
                ImageIdentity::Present {
                    sha256: digest::sha256(contents.as_slice()),
                    size: contents.len() as u64,
                },
            ),
            _ => Ok(ImageIdentity::Absent),
        },
    }
}

/// The error of a capture, with the path that it is about.
pub fn capture_error(path: &str, error: &FileCheckpointError) -> (r: FileCheckpointError)
    ensures
        r matches FileCheckpointError::InvalidData(message) && message@ == path@ + ": "@
            + error.text(),
{
    let text = error.message();
    FileCheckpointError::InvalidData(concat3(path, ": ", text.as_str()))
}

/// A line of the journal after it was decoded.
pub enum JournalLine {
    Entry(JournalEntry),
    /// Not a step; holds what the decoder said.
    Malformed(String),
}

/// What the first lines of a journal come to.
pub ghost enum JournalResult {
    /// The state that they lead to.
    State(StateModel),
    /// The text of the error.
    Invalid(Seq<char>),
}

/// What the lines of a journal from line `i` on come to. Blank lines count for nothing. A
/// malformed last line that no line feed ends was not written to its end, and is ignored.
pub open spec fn loaded(
    state: StateModel,
    lines: Seq<Seq<char>>,
    decoded: Seq<JournalLine>,
    ended: bool,
    i: int,
) -> JournalResult
    decreases lines.len() - i,
{
    if i < 0 || i >= lines.len() {
        JournalResult::State(state)
    } else if crate::text::blank(lines[i]) {
        loaded(state, lines, decoded, ended, i + 1)
    } else {
        match decoded[i] {
            JournalLine::Entry(entry) => loaded(
                model::applied(state, entry),
                lines,
                decoded,
                ended,
                i + 1,
            ),
            JournalLine::Malformed(error) => if i + 1 == lines.len() && !ended {
                JournalResult::State(state)
            } else {
                JournalResult::Invalid(
                    "journal line "@ + crate::text::decimal((i + 1) as nat) + ": "@ + error@,
                )
            },
        }
    }
}

/// The state that a journal describes. `decoded` holds each of its lines after decoding.
pub fn load_state(contents: &str, decoded: Vec<JournalLine>) -> (r: Result<
    CheckpointState,
    FileCheckpointError,
>)
    requires
        decoded@.len() == crate::text::text_lines(contents@).len(),
    ensures
        match loaded(
            model::initial_state(),
            crate::text::text_lines(contents@),
            decoded@,
            crate::text::has_suffix(contents@, "\n"@),
            0,
        ) {
            JournalResult::State(state) => r matches Ok(loaded) && loaded@ == state,
            JournalResult::Invalid(error) => r matches Err(
                FileCheckpointError::InvalidData(message),
            ) && message@ == error,
        },
{
    let lines = lines_of(contents);
    let ended = ends_with(contents, "\n");
    let count: usize = lines.len();
    let mut state = CheckpointState::new();
    let mut i: usize = 0;
    let ghost all = decoded@;
    let ghost texts = crate::text::text_lines(contents@);
    let ghost result = loaded(model::initial_state(), texts, all, ended, 0);
    assert(lines@.len() == lines.deep_view().len());
    for line in it: decoded
        invariant
            it.seq() == all,
            texts == lines.deep_view(),
            texts == crate::text::text_lines(contents@),
            ended == crate::text::has_suffix(contents@, "\n"@),
            result == loaded(model::initial_state(), texts, all, ended, 0),
            all.len() == count == lines@.len(),
            i == it.index(),
            result == loaded(state@, texts, all, ended, i as int),
    {
        assert(line == all[i as int]);
        assert(texts[i as int] == lines@[i as int]@);
        if !is_blank(lines[i].as_str()) {
            match line {
                JournalLine::Entry(entry) => {
                    state.apply(entry);
                },
                JournalLine::Malformed(error) => {
                    if i + 1 == count && !ended {
                        return Ok(state);
                    }
                    let number = decimal_string((i + 1) as u64);
                    let mut message = concat3("journal line ", number.as_str(), ": ");
                    message.append(error.as_str());
                    return Err(FileCheckpointError::InvalidData(message));
                },
            }
        }
        i += 1;
    }
    Ok(state)
}

/// The checkpoints of one thread.
pub struct FileCheckpointStore {
    pub state: CheckpointState,
}

impl View for FileCheckpointStore {
    type V = StateModel;

    open spec fn view(&self) -> StateModel {
        self.state@
    }
}

/// Whether some turn keeps an image under a blob name.
pub open spec fn referenced(turns: Seq<TurnModel>, name: Seq<char>) -> bool {
    exists|t: int, file: (Seq<char>, Seq<char>)|
        0 <= t < turns.len() && #[trigger] turns[t].before.contains_key(file)
            && turns[t].before[file] is Present && turns[t].before[file]->sha256 == name
}

/// The names among those in the blob directory whose blobs no turn needs.
pub open spec fn unneeded(turns: Seq<TurnModel>, names: Seq<Seq<char>>) -> Seq<Seq<char>>
    decreases names.len(),
{
    if names.len() == 0 {
        Seq::empty()
    } else if digest::digest_name(names.last()) && !referenced(turns, names.last()) {
        unneeded(turns, names.drop_last()).push(names.last())
    } else {
        unneeded(turns, names.drop_last())
    }
}

/// The steps of the beginning of a turn: none where it has begun, else its beginning, and then
/// the end of the oldest turn where there are more turns than are kept.
pub open spec fn begin_steps(state: StateModel, id: Seq<char>, steps: Seq<JournalEntry>) -> bool {
    if model::has_turn(state.turns, id) {
        steps.len() == 0
    } else {
        let many = state.turns.len() >= MAX_RETAINED_TURNS;
        &&& steps.len() == if many {
            2nat
        } else {
            1
        }
        &&& steps[0] matches JournalEntry::BeginTurn { turn_id } && turn_id@ == id
        &&& many ==> (steps[1] matches JournalEntry::PruneTurn { turn_id } && turn_id@
            == state.turns[0].id)
    }
}

impl FileCheckpointStore {
    /// The store of a thread whose journal describes a state.
    pub fn open(state: CheckpointState) -> (r: Self)
        ensures
            r@ == state@,
    {
        FileCheckpointStore { state }
    }

    /// Takes a step that was recorded.
    pub fn apply(&mut self, entry: JournalEntry)
        ensures
            final(self)@ == model::applied(old(self)@, entry),
    {
        self.state.apply(entry);
    }

    /// The steps to record, and then to take, when a turn begins. After the second one, the
    /// blobs that no turn needs any more are to be removed.
    pub fn begin_turn(&self, turn_id: &str) -> (steps: Vec<JournalEntry>)
        ensures
            begin_steps(self@, turn_id@, steps@),
    {
        let mut steps: Vec<JournalEntry> = Vec::new();
        if self.state.turn_index(turn_id).is_some() {
            return steps;
        }
        steps.push(JournalEntry::BeginTurn { turn_id: turn_id.to_owned() });
        if self.state.turns.len() >= MAX_RETAINED_TURNS {
            assert(self@.turns[0] == self.state.turns@[0]@);
            steps.push(
                JournalEntry::PruneTurn { turn_id: self.state.turns[0].turn_id.clone() },
            );
        }
        steps
    }

    /// The step to record and to take before a turn captures its first file: its beginning,
    /// unless it has begun.
    pub fn capture_turn(&self, turn_id: &str) -> (step: Option<JournalEntry>)
        ensures
            match step {
                Some(JournalEntry::BeginTurn { turn_id: id }) => !model::has_turn(
                    self@.turns,
                    turn_id@,
                ) && id@ == turn_id@,
                Some(_) => false,
                None => model::has_turn(self@.turns, turn_id@),
            },
    {
        if self.state.turn_index(turn_id).is_some() {
            None
        } else {
            Some(JournalEntry::BeginTurn { turn_id: turn_id.to_owned() })
        }
    }

    /// Whether a file is still to be read before a turn writes it: the turn has not captured it.
    pub fn needs_capture(&self, turn_id: &str, file: &FileKey) -> (r: bool)
        ensures
            r == !(model::has_turn(self@.turns, turn_id@)
                && self@.turns[model::turn_position(self@.turns, turn_id@)].before.contains_key(
                file.deep_view(),
            )),
    {
        match self.state.turn_index(turn_id) {
            Some(t) => {
                assert(self@.turns[t as int] == self.state.turns@[t as int]@);
                !self.state.turns[t].before_by_file.contains(file)
            },
            None => true,
        }
    }

    /// The step to record and to take after a file was read that a turn is about to write.
    pub fn capture_before_write(
        &self,
        turn_id: &str,
        environment_id: &str,
        path: &str,
        read: &FileRead,
    ) -> (r: Result<Option<JournalEntry>, FileCheckpointError>)
        ensures
            ({
                let t = model::turn_position(self@.turns, turn_id@);
                let captured = model::has_turn(self@.turns, turn_id@)
                    && self@.turns[t].before.contains_key((environment_id@, path@));
                match r {
                    Ok(None) => captured,
                    Ok(Some(JournalEntry::BeforeImage { turn_id: id, file, before })) => {
                        &&& !captured
                        &&& id@ == turn_id@
                        &&& file.deep_view() == (environment_id@, path@)
                        &&& read_identity(*read) == Some(before.deep_view())
                    },
                    Ok(Some(_)) => false,
                    Err(FileCheckpointError::InvalidData(message)) => {
                        &&& !captured
                        &&& read_identity(*read) is None
                        &&& exists|error: FileCheckpointError| #[trigger]
                            refusal(*read, "checkpoint"@, path@, error) && message@ == path@
                                + ": "@ + error.text()
                    },
                    Err(_) => false,
                }
            }),
    {
        let file = FileKey { environment_id: environment_id.to_owned(), path: path.to_owned() };
        if !self.needs_capture(turn_id, &file) {
            return Ok(None);
        }
        match read_before_image(read, path) {
            Ok(before) => Ok(
                Some(JournalEntry::BeforeImage { turn_id: turn_id.to_owned(), file, before }),
            ),
            Err(error) => {
                assert(refusal(*read, "checkpoint"@, path@, error));
                Err(capture_error(path, &error))
            },
        }
    }

    /// The steps to record and to take after managed tools wrote files.
    pub fn record_after_images(&self, environment_id: &str, images: &Vec<FileAfterImage>) -> (steps:
        Vec<JournalEntry>)
        ensures
            steps@.len() == images@.len(),
            forall|i: int|
                0 <= i < steps@.len() ==> ((#[trigger] steps@[i]) matches JournalEntry::AfterImage {
                    file,
                    after,
                } && file.deep_view() == (environment_id@, images@[i].path@) && after.deep_view()
                    == model::image_identity(images@[i].image)),
    {
        let mut steps: Vec<JournalEntry> = Vec::new();
        let mut i: usize = 0;
        while i < images.len()
            invariant
                i <= images@.len(),
                steps@.len() == i,
                forall|i: int|
                    0 <= i < steps@.len() ==> ((
                    #[trigger] steps@[i]) matches JournalEntry::AfterImage { file, after }
                        && file.deep_view() == (environment_id@, images@[i].path@)
                        && after.deep_view() == model::image_identity(images@[i].image)),
            decreases images@.len() - i,
        {
            let file = FileKey {
                environment_id: environment_id.to_owned(),
                path: images[i].path.clone(),
            };
            steps.push(
                JournalEntry::AfterImage { file, after: identity_from_image(&images[i].image) },
            );
            i += 1;
        }
        steps
    }

    /// The files that a restore to the state before a turn has to bring back.
    pub fn restore_plan(&self, before_turn_id: &str) -> (r: Vec<PlannedRestore>)
        ensures
            plan::is_restore_plan(r@, self@, before_turn_id@),
    {
        self.state.restore_plan(before_turn_id)
    }

    /// What a restore would do. `probes` holds what was found for each file of the plan.
    pub fn preview(&self, plan: Vec<PlannedRestore>, probes: &Vec<FileProbe>) -> (r:
        FileRestorePreview)
        requires
            plan@.len() == probes@.len(),
        ensures
            r.files.deep_view() == restore::previews(
                restore::all_inspected(plan@, probes@, plan@.len() as int),
            ),
    {
        preview_of_inspected(inspect_plan(plan, probes))
    }

    /// Where each file of a restore ended up, and the step to record and to take where some were
    /// restored.
    pub fn restore(&self, inspected: Vec<InspectedRestore>, attempts: &Vec<RestoreAttempt>) -> (r: (
        FileRestoreOutcome,
        Option<JournalEntry>,
    ))
        requires
            inspected@.len() == attempts@.len(),
        ensures
            r.0.restored.deep_view() == restore::restored_of(
                inspected.deep_view(),
                attempts@,
                inspected@.len() as int,
            ),
            r.0.skipped.deep_view() == restore::skipped_of(
                inspected.deep_view(),
                attempts@,
                inspected@.len() as int,
            ),
            r.0.failed.deep_view() == restore::failed_of(
                inspected.deep_view(),
                attempts@,
                inspected@.len() as int,
            ),
            match r.1 {
                Some(entry) => {
                    &&& entry matches JournalEntry::Restore { restored }
                    &&& restored.deep_view() == restore::identities_of(
                        inspected.deep_view(),
                        attempts@,
                        inspected@.len() as int,
                    )
                    &&& restored@.len() > 0
                    &&& model::applied(self@, entry) == (StateModel {
                        turns: self@.turns,
                        expected: with_identities(
                            self@.expected,
                            restore::identities_of(
                                inspected.deep_view(),
                                attempts@,
                                inspected@.len() as int,
                            ),
                        ),
                    })
                },
                None => restore::identities_of(
                    inspected.deep_view(),
                    attempts@,
                    inspected@.len() as int,
                ).len() == 0,
            },
    {
        let r = finish_restore(inspected, attempts);
        proof {
            if r.1 is Some {
                lemma_with_identities(self@.expected, r.1->0->restored);
            }
        }
        r
    }

    /// The step to record and to take when a turn and those after it are discarded; none where
    /// the turn has not begun. Afterwards the blobs that no turn needs are to be removed.
    pub fn discard_from_turn(&self, before_turn_id: &str) -> (step: Option<JournalEntry>)
        ensures
            match step {
                Some(JournalEntry::DiscardFromTurn { turn_id }) => model::has_turn(
                    self@.turns,
                    before_turn_id@,
                ) && turn_id@ == before_turn_id@,
                Some(_) => false,
                None => !model::has_turn(self@.turns, before_turn_id@),
            },
    {
        if self.state.turn_index(before_turn_id).is_some() {
            Some(JournalEntry::DiscardFromTurn { turn_id: before_turn_id.to_owned() })
        } else {
            None
        }
    }

    fn is_referenced(&self, name: &String) -> (r: bool)
        ensures
            r == referenced(self@.turns, name@),
    {
        let mut t: usize = 0;
        while t < self.state.turns.len()
            invariant
                t <= self.state.turns@.len(),
                forall|u: int, file: (Seq<char>, Seq<char>)|
                    0 <= u < t && #[trigger] self@.turns[u].before.contains_key(file) ==> !(
                    self@.turns[u].before[file] is Present && self@.turns[u].before[file]->sha256
                        == name@),
            decreases self.state.turns@.len() - t,
        {
            let images = &self.state.turns[t].before_by_file;
            assert(self@.turns[t as int] == self.state.turns@[t as int]@);
            let count: usize = images.len();
            let mut i: usize = 0;
            while i < count
                invariant
                    t < self.state.turns@.len(),
                    self@.turns[t as int].before == images@,
                    i <= count == images.size(),
                    forall|k: int|
                        0 <= k < i ==> {
                            let image = (#[trigger] images.at(k)).1.deep_view();
                            !(image is Present && image->sha256 == name@)
                        },
                decreases count - i,
            {
                let entry = images.entry_at(i);
                match &entry.1 {
                    BeforeImage::Blob { sha256, .. } => {
                        if *sha256 == *name {
                            proof {
                                let file = entry.0.deep_view();
                                assert(self@.turns[t as int].before.contains_key(file));
                            }
                            return true;
                        }
                    },
                    BeforeImage::Absent => {},
                }
                i += 1;
            }
            proof {
                assert forall|file: (Seq<char>, Seq<char>)| #[trigger]
                    self@.turns[t as int].before.contains_key(file) implies !(
                self@.turns[t as int].before[file] is Present
                    && self@.turns[t as int].before[file]->sha256 == name@) by {
                    let k = choose|k: int|
                        0 <= k < images.size() && (#[trigger] images.at(k)).0.deep_view() == file;
                    assert(images@[images.at(k).0.deep_view()] == images.at(k).1.deep_view());
                }
            }
            t += 1;
        }
        false
    }

    /// The names among those in the blob directory whose blobs are to be removed. What is not
    /// named like a blob stays.
    pub fn unreferenced_blobs(&self, names: &Vec<String>) -> (r: Vec<String>)
        ensures
            r.deep_view() == unneeded(self@.turns, names.deep_view()),
    {
        let mut r: Vec<String> = Vec::new();
        let mut i: usize = 0;
        let ghost all = names.deep_view();
        assert(all.take(0) =~= Seq::empty());
        assert(r.deep_view() =~= Seq::empty());
        while i < names.len()
            invariant
                i <= names@.len(),
                all == names.deep_view(),
                r.deep_view() == unneeded(self@.turns, all.take(i as int)),
            decreases names@.len() - i,
        {
            proof {
                assert(all.take(i + 1).drop_last() =~= all.take(i as int));
                assert(all.take(i + 1).last() == names@[i as int]@);
            }
            let ghost before = r.deep_view();
            if validate_sha256(names[i].as_str()).is_ok() && !self.is_referenced(&names[i]) {
                r.push(names[i].clone());
                assert(r.deep_view() =~= before.push(names@[i as int]@));
            }
            i += 1;
        }
        assert(all.take(i as int) =~= all);
        r
    }
}

/// The expectations after files were restored, the later entry for a file counting.
pub open spec fn with_identities(
    expected: Map<(Seq<char>, Seq<char>), Identity>,
    identities: Seq<((Seq<char>, Seq<char>), Identity)>,
) -> Map<(Seq<char>, Seq<char>), Identity>
    decreases identities.len(),
{
    if identities.len() == 0 {
        expected
    } else {
        with_identities(expected, identities.drop_last()).insert(
            identities.last().0,
            identities.last().1,
        )
    }
}

proof fn lemma_with_identities(
    expected: Map<(Seq<char>, Seq<char>), Identity>,
    restored: Vec<model::RestoredIdentity>,
)
    ensures
        model::with_restored(expected, restored@) == with_identities(
            expected,
            restored.deep_view(),
        ),
{
    lemma_with_identities_seq(expected, restored@, restored.deep_view());
}

proof fn lemma_with_identities_seq(
    expected: Map<(Seq<char>, Seq<char>), Identity>,
    restored: Seq<model::RestoredIdentity>,
    identities: Seq<((Seq<char>, Seq<char>), Identity)>,
)
    requires
        restored.len() == identities.len(),
        forall|i: int|
            0 <= i < restored.len() ==> (#[trigger] restored[i]).deep_view() == identities[i],
    ensures
        model::with_restored(expected, restored) == with_identities(expected, identities),
    decreases restored.len(),
{
    if restored.len() > 0 {
        let r = restored.drop_last();
        let s = identities.drop_last();
        assert forall|i: int| 0 <= i < r.len() implies (#[trigger] r[i]).deep_view() == s[i] by {
            assert(restored[i].deep_view() == identities[i]);
        }
        lemma_with_identities_seq(expected, r, s);
        assert(restored[restored.len() - 1].deep_view() == identities.last());
    }
}

proof fn lemma_loaded(
    state: StateModel,
    lines: Seq<Seq<char>>,
    decoded: Seq<JournalLine>,
    entries: Seq<JournalEntry>,
    ended: bool,
    i: int,
)
    requires
        0 <= i <= entries.len() <= lines.len() == decoded.len(),
        forall|k: int|
            0 <= k < entries.len() ==> !crate::text::blank(lines[k]) && (#[trigger] decoded[k])
                == JournalLine::Entry(entries[k]),
    ensures
        loaded(model::replayed(state, entries.take(i)), lines, decoded, ended, i) == loaded(
            model::replayed(state, entries),
            lines,
            decoded,
            ended,
            entries.len() as int,
        ),
    decreases entries.len() - i,
{
    if i < entries.len() {
        assert(decoded[i] == JournalLine::Entry(entries[i]));
        assert(entries.take(i + 1).drop_last() =~= entries.take(i));
        lemma_loaded(state, lines, decoded, entries, ended, i + 1);
    } else {
        assert(entries.take(i) =~= entries);
    }
}

/// Reading a journal takes every step that it holds, in order. A last line that was not written to
/// its end does not count; any other line that cannot be read makes the journal invalid.
pub proof fn journals_are_replayed(
    state: StateModel,
    lines: Seq<Seq<char>>,
    decoded: Seq<JournalLine>,
    entries: Seq<JournalEntry>,
    ended: bool,
)
    requires
        entries.len() <= lines.len() == decoded.len(),
        forall|k: int|
            0 <= k < entries.len() ==> !crate::text::blank(lines[k]) && (#[trigger] decoded[k])
                == JournalLine::Entry(entries[k]),
    ensures
        entries.len() == lines.len() ==> loaded(state, lines, decoded, ended, 0)
            == JournalResult::State(model::replayed(state, entries)),
        entries.len() < lines.len() && decoded[entries.len() as int] is Malformed
            && !crate::text::blank(lines[entries.len() as int]) ==> (if entries.len() + 1
            == lines.len() && !ended {
            loaded(state, lines, decoded, ended, 0) == JournalResult::State(
                model::replayed(state, entries),
            )
        } else {
            loaded(state, lines, decoded, ended, 0) is Invalid
        }),
{
    assert(entries.take(0) =~= Seq::empty());
    lemma_loaded(state, lines, decoded, entries, ended, 0);
}

/// What stands for a file that was read: that it is missing, or the digest and the size of all of
/// its contents. Neither a link nor anything but a file is read.
pub proof fn reads_stand_for_their_contents(read: FileRead)
    ensures
        read is Missing ==> read_identity(read) == Some(Identity::Absent),
        read matches FileRead::Contents(contents) ==> read_identity(read) == Some(
            Identity::Present {
                sha256: digest::sha256_hex(contents@),
                size: contents@.len() as u64,
            },
        ),
        read is SymbolicLink || read is NonFile || read is Failed ==> read_identity(read) is None,
{
}

/// Blank lines of a journal count for nothing, wherever they stand; and a line that cannot be read
/// is told by its number and what the decoder said.
pub proof fn blank_lines_count_for_nothing(
    state: StateModel,
    lines: Seq<Seq<char>>,
    decoded: Seq<JournalLine>,
    ended: bool,
    i: int,
)
    requires
        0 <= i < lines.len() == decoded.len(),
    ensures
        crate::text::blank(lines[i]) ==> loaded(state, lines, decoded, ended, i) == loaded(
            state,
            lines,
            decoded,
            ended,
            i + 1,
        ),
        !crate::text::blank(lines[i]) ==> (decoded[i] matches JournalLine::Malformed(error) ==> (
        ended || i + 1 < lines.len() ==> loaded(state, lines, decoded, ended, i)
            == JournalResult::Invalid(
            "journal line "@ + crate::text::decimal((i + 1) as nat) + ": "@ + error@,
        ))),
        loaded(state, lines, decoded, ended, lines.len() as int) == JournalResult::State(state),
{
}

/// A blob is needed exactly where some turn captured a file with its digest.
pub proof fn captured_digests_are_needed(
    turns: Seq<TurnModel>,
    name: Seq<char>,
    t: int,
    file: (Seq<char>, Seq<char>),
)
    requires
        0 <= t < turns.len(),
        turns[t].before.contains_key(file),
    ensures
        turns[t].before[file] matches Identity::Present { sha256, .. } ==> referenced(turns, sha256),
        (forall|u: int, f: (Seq<char>, Seq<char>)|
            0 <= u < turns.len() && #[trigger] turns[u].before.contains_key(f)
                ==> !(turns[u].before[f] is Present) || turns[u].before[f]->sha256 != name)
            ==> !referenced(turns, name),
{
}

} // verus!
