//! The state that the journal of a thread describes.

use crate::checkpoint::digest::{self, sha256};
use crate::checkpoint::file_map::{FileKey, FileMap};
use crate::data::Data;
use vstd::prelude::*;

verus! {

/// What a file held, or that it was absent.
#[derive(Debug)]
pub enum FileImage {
    Absent,
    Contents(Vec<u8>),
}

/// What a file holds after a managed tool wrote it.
#[derive(Debug)]
pub struct FileAfterImage {
    pub path: String,
    pub image: FileImage,
}

/// How a restore changes a file.
#[derive(Clone, Copy, Debug, PartialEq, Eq, Structural)]
pub enum FileRestoreChangeKind {
    Create,
    Update,
    Delete,
}

/// Whether a file can be restored.
#[derive(Clone, Copy, Debug, PartialEq, Eq, Structural)]
pub enum FileRestoreDisposition {
    Restorable,
    Conflict,
    Unavailable,
}

/// What stands for the contents of a file: that it is absent, or its digest and size.
pub ghost enum Identity {
    Absent,
    Present { sha256: Seq<char>, size: u64 },
}

/// The image of a file before a turn wrote it. The contents are stored under their digest.
#[derive(Debug)]
pub enum BeforeImage {
    Absent,
    Blob { sha256: String, size: u64 },
}

impl DeepView for BeforeImage {
    type V = Identity;

    open spec fn deep_view(&self) -> Self::V {
        match self {
            BeforeImage::Absent => Identity::Absent,
            BeforeImage::Blob { sha256, size } => Identity::Present {
                sha256: sha256@,
                size: *size,
            },
        }
    }
}

impl Data for BeforeImage {
    fn same(&self, other: &Self) -> (r: bool) {
        match (self, other) {
            (BeforeImage::Absent, BeforeImage::Absent) => true,
            (
                BeforeImage::Blob { sha256: a, size: m },
                BeforeImage::Blob { sha256: b, size: n },
            ) => *a == *b && *m == *n,
            _ => false,
        }
    }

    fn duplicate(&self) -> (r: Self) {
        match self {
            BeforeImage::Absent => BeforeImage::Absent,
            BeforeImage::Blob { sha256, size } => BeforeImage::Blob {
                sha256: sha256.clone(),
                size: *size,
            },
        }
    }
}

impl BeforeImage {
    /// What stands for the contents of the image.
    pub fn identity(&self) -> (r: ImageIdentity)
        ensures
            r.deep_view() == self.deep_view(),
    {
        match self {
            BeforeImage::Absent => ImageIdentity::Absent,
            BeforeImage::Blob { sha256, size } => ImageIdentity::Present {
                sha256: sha256.clone(),
                size: *size,
            },
        }
    }
}

/// What stands for the contents of a file.
#[derive(Debug)]
pub enum ImageIdentity {
    Absent,
    Present { sha256: String, size: u64 },
}

impl DeepView for ImageIdentity {
    type V = Identity;

    open spec fn deep_view(&self) -> Self::V {
        match self {
            ImageIdentity::Absent => Identity::Absent,
            ImageIdentity::Present { sha256, size } => Identity::Present {
                sha256: sha256@,
                size: *size,
            },
        }
    }
}

impl Data for ImageIdentity {
    fn same(&self, other: &Self) -> (r: bool) {
        match (self, other) {
            (ImageIdentity::Absent, ImageIdentity::Absent) => true,
            (
                ImageIdentity::Present { sha256: a, size: m },
                ImageIdentity::Present { sha256: b, size: n },
            ) => *a == *b && *m == *n,
            _ => false,
        }
    }

    fn duplicate(&self) -> (r: Self) {
        match self {
            ImageIdentity::Absent => ImageIdentity::Absent,
            ImageIdentity::Present { sha256, size } => ImageIdentity::Present {
                sha256: sha256.clone(),
                size: *size,
            },
        }
    }
}

/// What stands for the contents of an image.
pub open spec fn image_identity(image: FileImage) -> Identity {
    match image {
        FileImage::Absent => Identity::Absent,
        FileImage::Contents(contents) => Identity::Present {
            sha256: digest::sha256_hex(contents@),
            size: contents@.len() as u64,
        },
    }
}

/// Whether an identity that names contents does so by a valid blob name.
pub open spec fn valid_identity(identity: Identity) -> bool {
    identity matches Identity::Present { sha256, .. } ==> digest::digest_name(sha256)
}

/// What stands for the contents of an image. Its digest can be the name of a blob.
pub fn identity_from_image(image: &FileImage) -> (r: ImageIdentity)
    ensures
        r.deep_view() == image_identity(*image),
        valid_identity(r.deep_view()),
{
    match image {
        FileImage::Absent => ImageIdentity::Absent,
        FileImage::Contents(contents) => ImageIdentity::Present {
            sha256: sha256(contents.as_slice()),
            size: contents.len() as u64,
        },
    }
}

/// How restoring `target` changes a file that holds `current`.
pub open spec fn kind_of_change(current: Identity, target: Identity) -> FileRestoreChangeKind {
    match (current, target) {
        (Identity::Absent, Identity::Present { .. }) => FileRestoreChangeKind::Create,
        (Identity::Present { .. }, Identity::Absent) => FileRestoreChangeKind::Delete,
        _ => FileRestoreChangeKind::Update,
    }
}

/// How restoring `target` changes a file that holds `current`.
pub fn change_kind(current: &ImageIdentity, target: &BeforeImage) -> (r: FileRestoreChangeKind)
    ensures
        r == kind_of_change(current.deep_view(), target.deep_view()),
{
    match (current, target) {
        (
            ImageIdentity::Absent,
            BeforeImage::Blob { .. },
        ) => FileRestoreChangeKind::Create,
        (
            ImageIdentity::Present { .. },
            BeforeImage::Absent,
        ) => FileRestoreChangeKind::Delete,
        _ => FileRestoreChangeKind::Update,
    }
}

/// The before-images that a turn captured.
pub struct TurnCheckpoint {
    pub turn_id: String,
    pub before_by_file: FileMap<BeforeImage>,
}

/// The checkpoints of a thread, and what each tracked file should hold by now.
pub struct CheckpointState {
    pub turns: Vec<TurnCheckpoint>,
    pub expected_by_file: FileMap<ImageIdentity>,
}

/// The model of a turn's checkpoint.
pub ghost struct TurnModel {
    pub id: Seq<char>,
    pub before: Map<(Seq<char>, Seq<char>), Identity>,
}

/// The model of the checkpoints of a thread.
#[verifier::ext_equal]
pub ghost struct StateModel {
    pub turns: Seq<TurnModel>,
    pub expected: Map<(Seq<char>, Seq<char>), Identity>,
}

impl View for TurnCheckpoint {
    type V = TurnModel;

    open spec fn view(&self) -> TurnModel {
        TurnModel { id: self.turn_id@, before: self.before_by_file@ }
    }
}

impl View for CheckpointState {
    type V = StateModel;

    open spec fn view(&self) -> StateModel {
        StateModel {
            turns: self.turns@.map_values(|turn: TurnCheckpoint| turn@),
            expected: self.expected_by_file@,
        }
    }
}

/// A file that was restored, and what it holds since.
pub struct RestoredIdentity {
    pub file: FileKey,
    pub image: ImageIdentity,
}

/// One step in the history of the checkpoints.
pub enum JournalEntry {
    BeginTurn { turn_id: String },
    BeforeImage { turn_id: String, file: FileKey, before: BeforeImage },
    AfterImage { file: FileKey, after: ImageIdentity },
    Restore { restored: Vec<RestoredIdentity> },
    DiscardFromTurn { turn_id: String },
    PruneTurn { turn_id: String },
}

/// The position of the first turn with an id, or the number of turns where none has it.
pub open spec fn turn_position(turns: Seq<TurnModel>, id: Seq<char>) -> int
    decreases turns.len(),
{
    if turns.len() == 0 {
        0
    } else if turns[0].id == id {
        0
    } else {
        1 + turn_position(turns.subrange(1, turns.len() as int), id)
    }
}

/// Whether a turn with the id has begun.
pub open spec fn has_turn(turns: Seq<TurnModel>, id: Seq<char>) -> bool {
    exists|t: int| 0 <= t < turns.len() && (#[trigger] turns[t]).id == id
}

/// Whether some turn captured the file.
pub open spec fn captured(turns: Seq<TurnModel>, file: (Seq<char>, Seq<char>)) -> bool {
    exists|t: int| 0 <= t < turns.len() && (#[trigger] turns[t]).before.contains_key(file)
}

/// The expectations for the files that some turn captured.
pub open spec fn only_captured(
    expected: Map<(Seq<char>, Seq<char>), Identity>,
    turns: Seq<TurnModel>,
) -> Map<(Seq<char>, Seq<char>), Identity> {
    expected.restrict(Set::new(|file: (Seq<char>, Seq<char>)| captured(turns, file)))
}

/// The expectations after a restore: what the files hold since, the later entry for a file
/// counting.
pub open spec fn with_restored(
    expected: Map<(Seq<char>, Seq<char>), Identity>,
    restored: Seq<RestoredIdentity>,
) -> Map<(Seq<char>, Seq<char>), Identity>
    decreases restored.len(),
{
    if restored.len() == 0 {
        expected
    } else {
        with_restored(expected, restored.drop_last()).insert(
            restored.last().file.deep_view(),
            restored.last().image.deep_view(),
        )
    }
}

/// The turns without those that have the id.
pub open spec fn without_turn(turns: Seq<TurnModel>, id: Seq<char>) -> Seq<TurnModel>
    decreases turns.len(),
{
    if turns.len() == 0 {
        turns
    } else if turns.last().id == id {
        without_turn(turns.drop_last(), id)
    } else {
        without_turn(turns.drop_last(), id).push(turns.last())
    }
}

/// A turn that captures a file; an image that it captured before stays.
pub open spec fn with_before(
    turn: TurnModel,
    file: (Seq<char>, Seq<char>),
    before: Identity,
) -> TurnModel {
    if turn.before.contains_key(file) {
        turn
    } else {
        TurnModel { id: turn.id, before: turn.before.insert(file, before) }
    }
}

/// The state after one step.
pub open spec fn applied(state: StateModel, entry: JournalEntry) -> StateModel {
    match entry {
        JournalEntry::BeginTurn { turn_id } => if has_turn(state.turns, turn_id@) {
            state
        } else {
            StateModel {
                turns: state.turns.push(TurnModel { id: turn_id@, before: Map::empty() }),
                expected: state.expected,
            }
        },
        JournalEntry::BeforeImage { turn_id, file, before } => {
            let t = turn_position(state.turns, turn_id@);
            if t < state.turns.len() {
                StateModel {
                    turns: state.turns.update(
                        t,
                        with_before(state.turns[t], file.deep_view(), before.deep_view()),
                    ),
                    expected: state.expected.insert(file.deep_view(), before.deep_view()),
                }
            } else {
                state
            }
        },
        JournalEntry::AfterImage { file, after } => StateModel {
            turns: state.turns,
            expected: state.expected.insert(file.deep_view(), after.deep_view()),
        },
        JournalEntry::Restore { restored } => StateModel {
            turns: state.turns,
            expected: with_restored(state.expected, restored@),
        },
        JournalEntry::DiscardFromTurn { turn_id } => {
            let t = turn_position(state.turns, turn_id@);
            if t < state.turns.len() {
                StateModel {
                    turns: state.turns.take(t),
                    expected: only_captured(state.expected, state.turns.take(t)),
                }
            } else {
                state
            }
        },
        JournalEntry::PruneTurn { turn_id } => StateModel {
            turns: without_turn(state.turns, turn_id@),
            expected: only_captured(state.expected, without_turn(state.turns, turn_id@)),
        },
    }
}

/// The state before the first step.
pub open spec fn initial_state() -> StateModel {
    StateModel { turns: Seq::empty(), expected: Map::empty() }
}

/// The state that a history leads to from another state.
pub open spec fn replayed(state: StateModel, history: Seq<JournalEntry>) -> StateModel
    decreases history.len(),
{
    if history.len() == 0 {
        state
    } else {
        applied(replayed(state, history.drop_last()), history.last())
    }
}

pub proof fn lemma_turn_position(turns: Seq<TurnModel>, id: Seq<char>)
    ensures
        0 <= turn_position(turns, id) <= turns.len(),
        has_turn(turns, id) <==> turn_position(turns, id) < turns.len(),
        turn_position(turns, id) < turns.len() ==> turns[turn_position(turns, id)].id == id,
        forall|t: int|
            0 <= t < turn_position(turns, id) ==> (#[trigger] turns[t]).id != id,
    decreases turns.len(),
{
    if turns.len() > 0 && turns[0].id != id {
        let rest = turns.subrange(1, turns.len() as int);
        lemma_turn_position(rest, id);
        if has_turn(turns, id) {
            let t = choose|t: int| 0 <= t < turns.len() && (#[trigger] turns[t]).id == id;
            assert(rest[t - 1].id == id);
        }
        assert forall|t: int| 0 <= t < turn_position(turns, id) implies (
        #[trigger] turns[t]).id != id by {
            if t > 0 {
                assert(rest[t - 1] == turns[t]);
            }
        }
    }
}

/// A position at which the id stands and before which it does not is the position of the turn.
proof fn lemma_is_turn_position(turns: Seq<TurnModel>, id: Seq<char>, p: int)
    requires
        0 <= p <= turns.len(),
        p < turns.len() ==> turns[p].id == id,
        forall|t: int| 0 <= t < p ==> (#[trigger] turns[t]).id != id,
    ensures
        turn_position(turns, id) == p,
{
    lemma_turn_position(turns, id);
    let q = turn_position(turns, id);
    if q < p {
        assert(turns[q].id != id);
    } else if p < q {
        assert(turns[p].id != id);
    }
}


impl CheckpointState {
    /// A state without turns.
    pub fn new() -> (r: Self)
        ensures
            r@ == initial_state(),
    {
        let r = CheckpointState { turns: Vec::new(), expected_by_file: FileMap::new() };
        assert(r@ =~= initial_state());
        r
    }

    /// Where the turn with the id stands.
    pub fn turn_index(&self, id: &str) -> (r: Option<usize>)
        ensures
            match r {
                Some(t) => t < self.turns@.len() && t == turn_position(self@.turns, id@)
                    && has_turn(self@.turns, id@),
                None => turn_position(self@.turns, id@) == self.turns@.len() && !has_turn(
                    self@.turns,
                    id@,
                ),
            },
    {
        let mut t: usize = 0;
        while t < self.turns.len()
            invariant
                t <= self.turns@.len(),
                forall|k: int| 0 <= k < t ==> (#[trigger] self@.turns[k]).id != id@,
            decreases self.turns@.len() - t,
        {
            assert(self@.turns[t as int] == self.turns@[t as int]@);
            if crate::text::same_text(self.turns[t].turn_id.as_str(), id) {
                proof {
                    lemma_is_turn_position(self@.turns, id@, t as int);
                    lemma_turn_position(self@.turns, id@);
                }
                return Some(t);
            }
            t += 1;
        }
        proof {
            lemma_is_turn_position(self@.turns, id@, t as int);
            lemma_turn_position(self@.turns, id@);
        }
        None
    }

    /// Whether some turn captured the file.
    fn is_captured(&self, file: &FileKey) -> (r: bool)
        ensures
            r == captured(self@.turns, file.deep_view()),
    {
        let mut t: usize = 0;
        while t < self.turns.len()
            invariant
                t <= self.turns@.len(),
                forall|k: int|
                    0 <= k < t ==> !(#[trigger] self@.turns[k]).before.contains_key(
                        file.deep_view(),
                    ),
            decreases self.turns@.len() - t,
        {
            assert(self@.turns[t as int] == self.turns@[t as int]@);
            if self.turns[t].before_by_file.contains(file) {
                assert(self@.turns[t as int].before.contains_key(file.deep_view()));
                return true;
            }
            t += 1;
        }
        false
    }

    /// Forgets what is expected of files that no turn captured.
    pub fn retain_tracked_files(&mut self)
        ensures
            final(self)@.turns == old(self)@.turns,
            final(self)@.expected == only_captured(old(self)@.expected, old(self)@.turns),
    {
        let mut kept: FileMap<ImageIdentity> = FileMap::new();
        let count: usize = self.expected_by_file.len();
        let mut i: usize = 0;
        while i < count
            invariant
                i <= count == self.expected_by_file.size(),
                forall|k: int|
                    0 <= k < count ==> self.expected_by_file@.contains_key(
                        (#[trigger] self.expected_by_file.at(k)).0.deep_view(),
                    ) && self.expected_by_file@[self.expected_by_file.at(k).0.deep_view()]
                        == self.expected_by_file.at(k).1.deep_view(),
                forall|file: (Seq<char>, Seq<char>)| #[trigger]
                    kept@.contains_key(file) <==> captured(self@.turns, file) && exists|k: int|
                        0 <= k < i && (#[trigger] self.expected_by_file.at(k)).0.deep_view()
                            == file,
                forall|file: (Seq<char>, Seq<char>)| #[trigger]
                    kept@.contains_key(file) ==> self.expected_by_file@.contains_key(file)
                        && kept@[file] == self.expected_by_file@[file],
            decreases count - i,
        {
            let entry = self.expected_by_file.entry_at(i);
            let ghost before = kept@;
            if self.is_captured(&entry.0) {
                kept.insert(entry.0.duplicate(), entry.1.duplicate());
            }
            i += 1;
            proof {
                let key = self.expected_by_file.at(i - 1).0.deep_view();
                assert forall|file: (Seq<char>, Seq<char>)| #[trigger]
                    kept@.contains_key(file) <==> captured(self@.turns, file) && exists|k: int|
                        0 <= k < i && (#[trigger] self.expected_by_file.at(k)).0.deep_view()
                            == file by {
                    if before.contains_key(file) {
                        let k = choose|k: int|
                            0 <= k < i - 1 && (
                            #[trigger] self.expected_by_file.at(k)).0.deep_view() == file;
                        assert(self.expected_by_file.at(k).0.deep_view() == file);
                    }
                    if file == key {
                        assert(self.expected_by_file.at(i - 1).0.deep_view() == file);
                    }
                }
            }
        }
        proof {
            let want = only_captured(self@.expected, self@.turns);
            assert forall|file: (Seq<char>, Seq<char>)| #[trigger]
                kept@.contains_key(file) == want.contains_key(file) by {
                if want.contains_key(file) {
                    let k = choose|k: int|
                        0 <= k < self.expected_by_file.size() && (
                        #[trigger] self.expected_by_file.at(k)).0.deep_view() == file;
                    assert(self.expected_by_file.at(k).0.deep_view() == file);
                }
            }
            assert(kept@ =~= want);
        }
        self.expected_by_file = kept;
    }

    /// Takes one step.
    pub fn apply(&mut self, entry: JournalEntry)
        ensures
            final(self)@ == applied(old(self)@, entry),
    {
        let ghost before = self@;
        match entry {
            JournalEntry::BeginTurn { turn_id } => {
                if self.turn_index(turn_id.as_str()).is_none() {
                    self.turns.push(TurnCheckpoint { turn_id, before_by_file: FileMap::new() });
                }
                assert(self@ =~= applied(before, entry));
            },
            JournalEntry::BeforeImage { turn_id, file, before: image } => {
                if let Some(t) = self.turn_index(turn_id.as_str()) {
                    self.expected_by_file.insert(file.duplicate(), image.identity());
                    self.turns[t].before_by_file.insert_if_absent(file, image);
                    assert(before.turns[t as int] == old(self).turns@[t as int]@);
                }
                assert(self@ =~= applied(before, entry));
            },
            JournalEntry::AfterImage { file, after } => {
                self.expected_by_file.insert(file, after);
                assert(self@ =~= applied(before, entry));
            },
            JournalEntry::Restore { restored } => {
                let mut i: usize = 0;
                assert(restored@.take(0) =~= Seq::empty());
                while i < restored.len()
                    invariant
                        i <= restored@.len(),
                        self@.turns == before.turns,
                        self@.expected == with_restored(before.expected, restored@.take(i as int)),
                    decreases restored@.len() - i,
                {
                    self.expected_by_file.insert(
                        restored[i].file.duplicate(),
                        restored[i].image.duplicate(),
                    );
                    assert(restored@.take(i + 1).drop_last() =~= restored@.take(i as int));
                    i += 1;
                }
                assert(restored@.take(i as int) =~= restored@);
                assert(self@ =~= applied(before, entry));
            },
            JournalEntry::DiscardFromTurn { turn_id } => {
                if let Some(t) = self.turn_index(turn_id.as_str()) {
                    self.turns.truncate(t);
                    assert(self@.turns =~= before.turns.take(t as int));
                    self.retain_tracked_files();
                }
                assert(self@ =~= applied(before, entry));
            },
            JournalEntry::PruneTurn { turn_id } => {
                self.remove_turn(&turn_id);
                self.retain_tracked_files();
                assert(self@ =~= applied(before, entry));
            },
        }
    }

    /// Removes the turns with the id.
    fn remove_turn(&mut self, id: &String)
        ensures
            final(self)@.turns == without_turn(old(self)@.turns, id@),
            final(self)@.expected == old(self)@.expected,
    {
        let mut kept: Vec<TurnCheckpoint> = Vec::new();
        let mut rest: Vec<TurnCheckpoint> = Vec::new();
        std::mem::swap(&mut rest, &mut self.turns);
        let ghost all = old(self)@.turns;
        for turn in it: rest
            invariant
                it.seq().map_values(|turn: TurnCheckpoint| turn@) == all,
                kept@.map_values(|turn: TurnCheckpoint| turn@) == without_turn(
                    all.take(it.index() as int),
                    id@,
                ),
                self.expected_by_file@ == old(self)@.expected,
        {
            let ghost k = it.index() as int;
            assert(all.take(k + 1).drop_last() =~= all.take(k));
            assert(all[k] == turn@);
            if !(turn.turn_id == *id) {
                let ghost before = kept@;
                kept.push(turn);
                assert(kept@.map_values(|turn: TurnCheckpoint| turn@) =~= before.map_values(
                    |turn: TurnCheckpoint| turn@,
                ).push(turn@));
            }
        }
        assert(all.take(all.len() as int) =~= all);
        self.turns = kept;
    }
}

} // verus!
