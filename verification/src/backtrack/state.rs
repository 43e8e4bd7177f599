//! The way from the first Esc to a restored prompt.

use crate::backtrack::cells::{self, backtrack_code_summary, first_line_of, has_backtrack_target};
use crate::backtrack::cells::{nth_user_position, user_count, user_message_from_history_cell};
use crate::backtrack::cells::{user_positions_of, HistoryCell};
use crate::backtrack::rollback_target::BacktrackRollbackTarget;
use crate::backtrack::selection::{self, backtrack_restore_action, ActionModel, BacktrackRestoreMode};
use crate::backtrack::selection::{BacktrackSelection, RewindAction, SelectionModel, TargetModel};
use crate::data::Data;
use crate::rewind_view::{RewindPromptItem, RewindRestoreOption, RewindViewKind};
use crate::styled::{line1, plain, span, span_of, SpanStyle, StyledLine};
use crate::text::{concat3, decimal_string, same_opt_text};
use vstd::prelude::*;

verus! {

/// Said where there is no prompt to go back to.
pub const NO_PREVIOUS_MESSAGE_TO_EDIT: &'static str = "No previous message to edit.";

/// Said where a side conversation is active.
pub const SIDE_EDIT_PREVIOUS_UNAVAILABLE_MESSAGE: &'static str =
    "Editing previous prompts is unavailable in side conversations.";

/// How far the way back has been gone.
pub struct BacktrackState {
    /// Esc was pressed once.
    pub primed: bool,
    /// The thread that was active then.
    pub base_id: Option<String>,
    /// The number of the selected prompt; the largest number where none is selected.
    pub nth_user_message: usize,
    /// The transcript overlay previews a prompt.
    pub overlay_preview_active: bool,
    /// Older history is being loaded before the prompt picker opens.
    pub loading_older_history: bool,
    /// The prompt whose restore is being decided.
    pub pending_rollback: Option<BacktrackSelection>,
}

/// What Esc does in the main view.
#[derive(Clone, Copy, Debug, PartialEq, Eq, Structural)]
pub enum EscAction {
    Ignore,
    Prime,
    OpenPicker,
}

/// What opening the prompt picker leads to.
pub enum PickerAction {
    /// Older history is on its way.
    Wait,
    /// Older history of the thread is to be loaded first.
    RequestOlderHistory { thread_id: String },
    /// There is nothing to go back to.
    NoTarget,
    /// The prompts to choose from.
    Show { items: Vec<RewindPromptItem> },
}

/// The state before the first Esc; a restore that is being decided stays.
pub open spec fn after_reset(state: BacktrackState) -> BacktrackState {
    BacktrackState {
        primed: false,
        base_id: None,
        nth_user_message: usize::MAX,
        loading_older_history: false,
        ..state
    }
}

/// What Esc does in the main view: nothing while there is a draft, else it primes, and then opens
/// the picker where no overlay is open.
pub open spec fn esc_action(
    state: BacktrackState,
    composer_is_empty: bool,
    overlay_is_open: bool,
) -> EscAction {
    if !composer_is_empty {
        EscAction::Ignore
    } else if !state.primed {
        EscAction::Prime
    } else if overlay_is_open {
        EscAction::Ignore
    } else {
        EscAction::OpenPicker
    }
}

/// The state after the first Esc.
pub open spec fn after_prime(state: BacktrackState, thread_id: Option<String>) -> BacktrackState {
    BacktrackState {
        primed: true,
        nth_user_message: usize::MAX,
        base_id: thread_id,
        ..state
    }
}

/// The prompt with a number, where the thread is still the one of the first Esc.
pub open spec fn selection_of(
    state: BacktrackState,
    thread_id: Option<String>,
    cells: Seq<HistoryCell>,
    labels: Seq<String>,
    nth: int,
) -> Option<SelectionModel> {
    let count = cells::user_positions(cells).len();
    if state.base_id is Some && state.base_id.deep_view() == thread_id.deep_view() && 0 <= nth
        < count {
        let cell = cells[cells::user_positions(cells)[nth]]->User_0;
        Some(
            SelectionModel {
                thread_id: state.base_id->0@,
                nth_user_message: nth as usize,
                newer_user_messages: (count - nth - 1) as usize,
                prompt: cells::prompt_of(cell, labels),
            },
        )
    } else {
        None
    }
}

/// The model of a prompt in the picker: the prompt, what happened to the code, whether it is the
/// present, and the action.
pub type ItemModel = (
    Seq<char>,
    Option<Seq<(Seq<char>, SpanStyle)>>,
    bool,
    ActionModel,
);

impl DeepView for RewindPromptItem {
    type V = (Seq<char>, Option<Seq<(Seq<char>, SpanStyle)>>, bool, ActionModel);

    open spec fn deep_view(&self) -> Self::V {
        (
            self.prompt@,
            self.code_summary.deep_view(),
            self.is_current,
            self.action.deep_view(),
        )
    }
}

/// Where the cells that follow the prompt with a number end: at the next prompt, or with the
/// conversation.
pub open spec fn prompt_end(cells: Seq<HistoryCell>, nth: int) -> int {
    if nth + 1 < cells::user_positions(cells).len() {
        cells::user_positions(cells)[nth + 1]
    } else {
        cells.len() as int
    }
}

/// The prompt with a number, as the picker shows it.
pub open spec fn prompt_item(
    cells: Seq<HistoryCell>,
    selection: SelectionModel,
    nth: int,
) -> ItemModel {
    let after = cells.subrange(cells::user_positions(cells)[nth] + 1, prompt_end(cells, nth));
    (
        cells::first_line(selection.prompt.text),
        Some(seq![(cells::code_summary(cells::change_headings(after)), plain())]),
        false,
        ActionModel::RollbackSessionForPromptEdit(selection),
    )
}

/// The present, as the picker shows it.
pub open spec fn current_item() -> ItemModel {
    (Seq::empty(), None, true, ActionModel::CancelBacktrackRestore)
}

/// The first `n` prompts, as the picker shows them; none where the thread has changed since the
/// first Esc.
pub open spec fn prompt_items(
    state: BacktrackState,
    thread_id: Option<String>,
    cells: Seq<HistoryCell>,
    labels: Seq<String>,
    n: int,
) -> Seq<ItemModel>
    decreases n,
{
    if n <= 0 {
        Seq::empty()
    } else {
        let before = prompt_items(state, thread_id, cells, labels, n - 1);
        match selection_of(state, thread_id, cells, labels, n - 1) {
            Some(selection) => before.push(prompt_item(cells, selection, n - 1)),
            None => before,
        }
    }
}

/// Whether the cells from a prompt on were removed, and the way back started over: the prompt
/// whose restore was being decided counts before the one that is asked for.
pub open spec fn rolled_back(
    before: BacktrackState,
    after: BacktrackState,
    cells_before: Seq<HistoryCell>,
    cells_after: Seq<HistoryCell>,
    nth_user_message: usize,
    removed: bool,
) -> bool {
    let nth = match before.pending_rollback {
        Some(selection) => selection.nth_user_message,
        None => nth_user_message,
    };
    match cells::prompt_position(cells_before, nth as int) {
        Some(position) => {
            &&& removed
            &&& cells_after == cells_before.take(position)
            &&& after == (BacktrackState { pending_rollback: None, ..after_reset(before) })
        },
        None => {
            &&& !removed
            &&& cells_after == cells_before
            &&& after == (BacktrackState { pending_rollback: None, ..before })
        },
    }
}

impl BacktrackState {
    /// The state before the first Esc.
    pub fn new() -> (r: Self)
        ensures
            r == (BacktrackState {
                primed: false,
                base_id: None,
                nth_user_message: 0,
                overlay_preview_active: false,
                loading_older_history: false,
                pending_rollback: None,
            }),
    {
        BacktrackState {
            primed: false,
            base_id: None,
            nth_user_message: 0,
            overlay_preview_active: false,
            loading_older_history: false,
            pending_rollback: None,
        }
    }

    /// What Esc does in the main view: nothing while there is a draft, else it primes, and then
    /// opens the picker where no overlay is open.
    pub fn handle_backtrack_esc_key(&self, composer_is_empty: bool, overlay_is_open: bool) -> (r:
        EscAction)
        ensures
            r == esc_action(*self, composer_is_empty, overlay_is_open),
    {
        if !composer_is_empty {
            return EscAction::Ignore;
        }
        if !self.primed {
            EscAction::Prime
        } else if !overlay_is_open {
            EscAction::OpenPicker
        } else {
            EscAction::Ignore
        }
    }

    /// Primes the way back. Returns whether to hint at it, which is where there is a prompt to go
    /// back to.
    pub fn prime_backtrack(&mut self, thread_id: Option<String>, cells: &Vec<HistoryCell>) -> (hint:
        bool)
        ensures
            hint == (cells::user_positions(cells@).len() > 0),
            *final(self) == after_prime(*old(self), thread_id),
    {
        self.primed = true;
        self.nth_user_message = usize::MAX;
        self.base_id = thread_id;
        has_backtrack_target(cells)
    }

    /// Goes back to the state before the first Esc.
    pub fn reset_backtrack_state(&mut self)
        ensures
            *final(self) == after_reset(*old(self)),
    {
        self.primed = false;
        self.base_id = None;
        self.nth_user_message = usize::MAX;
        self.loading_older_history = false;
    }

    /// The prompt with a number, where the thread is still the one of the first Esc.
    pub fn backtrack_selection(
        &self,
        thread_id: &Option<String>,
        cells: &Vec<HistoryCell>,
        labels: &Vec<String>,
        nth_user_message: usize,
    ) -> (r: Option<BacktrackSelection>)
        requires
            cells::enough_labels(cells@, labels@),
        ensures
            r.deep_view() == selection_of(
                *self,
                *thread_id,
                cells@,
                labels@,
                nth_user_message as int,
            ),
    {
        let base_id = match &self.base_id {
            Some(base_id) => base_id,
            None => {
                return None;
            },
        };
        if !same_opt_text(&self.base_id, thread_id) {
            return None;
        }
        let position: usize = match nth_user_position(cells, nth_user_message) {
            Some(position) => position,
            None => {
                return None;
            },
        };
        let newer: usize = user_count(cells) - nth_user_message - 1;
        match &cells[position] {
            HistoryCell::User(cell) => Some(
                BacktrackSelection {
                    thread_id: base_id.clone(),
                    nth_user_message,
                    newer_user_messages: newer,
                    prompt: user_message_from_history_cell(cell, labels),
                },
            ),
            _ => None,
        }
    }

    fn list_prompts(
        &self,
        thread_id: &Option<String>,
        cells: &Vec<HistoryCell>,
        labels: &Vec<String>,
    ) -> (items: Vec<RewindPromptItem>)
        requires
            cells::enough_labels(cells@, labels@),
        ensures
            items.deep_view() == prompt_items(
                *self,
                *thread_id,
                cells@,
                labels@,
                cells::user_positions(cells@).len() as int,
            ),
    {
        let found = user_positions_of(cells);
        proof {
            cells::user_positions_are_prompts(cells@);
            assert(cells::positions(found@).len() == found@.len());
        }
        let count: usize = found.len();
        let total: usize = cells.len();
        let mut items: Vec<RewindPromptItem> = Vec::new();
        let mut nth: usize = 0;
        assert(items.deep_view() =~= Seq::empty());
        while nth < count
            invariant
                cells::enough_labels(cells@, labels@),
                nth <= count == found@.len(),
                total == cells@.len(),
                cells::positions(found@) == cells::user_positions(cells@),
                forall|i: int|
                    0 <= i < count ==> 0 <= #[trigger] cells::user_positions(cells@)[i]
                        < cells@.len(),
                forall|i: int, j: int|
                    0 <= i < j < count ==> #[trigger] cells::user_positions(cells@)[i]
                        < #[trigger] cells::user_positions(cells@)[j],
                items.deep_view() == prompt_items(*self, *thread_id, cells@, labels@, nth as int),
            decreases count - nth,
        {
            let ghost before = items.deep_view();
            assert(cells::positions(found@)[nth as int] == found@[nth as int]);
            assert(cells::user_positions(cells@)[nth as int] == found@[nth as int]);
            if nth + 1 < count {
                assert(cells::positions(found@)[nth + 1] == found@[nth + 1]);
                assert(cells::user_positions(cells@)[nth + 1] == found@[nth + 1]);
            }
            if let Some(selection) = self.backtrack_selection(thread_id, cells, labels, nth) {
                let end: usize = if nth + 1 < count {
                    found[nth + 1]
                } else {
                    total
                };
                let summary = backtrack_code_summary(cells, found[nth] + 1, end);
                let item = RewindPromptItem {
                    prompt: first_line_of(selection.prompt.text.as_str()),
                    code_summary: Some(line1(span_of(summary, plain()))),
                    is_current: false,
                    action: RewindAction::RollbackSessionForPromptEdit(selection),
                };
                items.push(item);
                assert(items.deep_view() =~= before.push(item.deep_view()));
            }
            nth += 1;
        }
        items
    }

    /// Opens the prompt picker. Older history is loaded first, where there is some.
    pub fn open_backtrack_message_picker(
        &mut self,
        has_older_history: bool,
        thread_id: &Option<String>,
        cells: &Vec<HistoryCell>,
        labels: &Vec<String>,
    ) -> (r: PickerAction)
        requires
            cells::enough_labels(cells@, labels@),
        ensures
            if has_older_history {
                if !old(self).loading_older_history && *thread_id is Some {
                    &&& r matches PickerAction::RequestOlderHistory { thread_id: id } && id@
                        == thread_id->0@
                    &&& *final(self) == (BacktrackState {
                        loading_older_history: true,
                        ..*old(self)
                    })
                } else {
                    r is Wait && *final(self) == *old(self)
                }
            } else if cells::user_positions(cells@).len() == 0 {
                r is NoTarget && *final(self) == after_reset(*old(self))
            } else {
                &&& *final(self) == *old(self)
                &&& r matches PickerAction::Show { items } && items.deep_view() == prompt_items(
                    *old(self),
                    *thread_id,
                    cells@,
                    labels@,
                    cells::user_positions(cells@).len() as int,
                ).push(current_item())
            },
    {
        if has_older_history {
            if !self.loading_older_history {
                if let Some(id) = thread_id {
                    self.loading_older_history = true;
                    return PickerAction::RequestOlderHistory { thread_id: id.clone() };
                }
            }
            return PickerAction::Wait;
        }
        if !has_backtrack_target(cells) {
            self.reset_backtrack_state();
            return PickerAction::NoTarget;
        }
        let mut items = self.list_prompts(thread_id, cells, labels);
        let ghost before = items.deep_view();
        let item = RewindPromptItem {
            prompt: String::new(),
            code_summary: None,
            is_current: true,
            action: RewindAction::CancelBacktrackRestore,
        };
        items.push(item);
        assert(items.deep_view() =~= before.push(item.deep_view()));
        PickerAction::Show { items }
    }

    /// Remembers a prompt whose restore is being decided, unless there is one. A prompt of another
    /// thread is not remembered, and the answer is then to do nothing.
    pub fn begin_rollback(&mut self, thread_id: &Option<String>, selection: &BacktrackSelection) -> (r:
        bool)
        ensures
            r == (thread_id.deep_view() == Some(selection.thread_id@)),
            final(self).pending_rollback.deep_view() == (if r && old(self).pending_rollback is None {
                Some(selection.deep_view())
            } else {
                old(self).pending_rollback.deep_view()
            }),
            *final(self) == (BacktrackState {
                pending_rollback: final(self).pending_rollback,
                ..*old(self)
            }),
    {
        let same_thread = match thread_id {
            Some(id) => *id == selection.thread_id,
            None => false,
        };
        if !same_thread {
            return false;
        }
        if self.pending_rollback.is_none() {
            self.pending_rollback = Some(selection.duplicate());
        }
        true
    }

    /// Forgets the prompt whose restore is being decided.
    pub fn handle_backtrack_rollback_failed(&mut self)
        ensures
            *final(self) == (BacktrackState { pending_rollback: None, ..*old(self) }),
    {
        self.pending_rollback = None;
    }

    /// Cuts the conversation at the restored prompt, and goes back to the state before the first
    /// Esc. The prompt whose restore was being decided counts; else the one with the number.
    /// Returns whether the conversation was cut.
    pub fn handle_backtrack_rollback_succeeded(
        &mut self,
        cells: &mut Vec<HistoryCell>,
        nth_user_message: usize,
    ) -> (r: bool)
        ensures
            rolled_back(
                *old(self),
                *final(self),
                old(cells)@,
                final(cells)@,
                nth_user_message,
                r,
            ),
    {
        let nth: usize = match &self.pending_rollback {
            Some(selection) => selection.nth_user_message,
            None => nth_user_message,
        };
        self.pending_rollback = None;
        match nth_user_position(cells, nth) {
            Some(position) => {
                cells.truncate(position);
                self.reset_backtrack_state();
                true
            },
            None => false,
        }
    }

    /// Selects a prompt for the preview in the transcript overlay, and returns the position to
    /// highlight.
    pub fn apply_backtrack_selection_internal(
        &mut self,
        cells: &Vec<HistoryCell>,
        nth_user_message: usize,
    ) -> (highlight: Option<usize>)
        ensures
            match cells::prompt_position(cells@, nth_user_message as int) {
                Some(position) => highlight == Some(position as usize) && *final(self) == (
                BacktrackState { nth_user_message, ..*old(self) }),
                None => highlight is None && *final(self) == (BacktrackState {
                    nth_user_message: usize::MAX,
                    ..*old(self)
                }),
            },
    {
        match nth_user_position(cells, nth_user_message) {
            Some(position) => {
                self.nth_user_message = nth_user_message;
                Some(position)
            },
            None => {
                self.nth_user_message = usize::MAX;
                None
            },
        }
    }

    /// Ends the preview when the transcript overlay closes.
    pub fn close_transcript_overlay(&mut self)
        ensures
            *final(self) == (if old(self).overlay_preview_active {
                BacktrackState { overlay_preview_active: false, ..after_reset(*old(self)) }
            } else {
                *old(self)
            }),
    {
        if self.overlay_preview_active {
            self.overlay_preview_active = false;
            self.reset_backtrack_state();
        }
    }

    /// Takes the selected prompt and goes back to the state before the first Esc.
    pub fn confirm_backtrack_from_main(
        &mut self,
        thread_id: &Option<String>,
        cells: &Vec<HistoryCell>,
        labels: &Vec<String>,
    ) -> (r: Option<BacktrackSelection>)
        requires
            cells::enough_labels(cells@, labels@),
        ensures
            r.deep_view() == selection_of(
                *old(self),
                *thread_id,
                cells@,
                labels@,
                old(self).nth_user_message as int,
            ),
            *final(self) == after_reset(*old(self)),
    {
        let selection = self.backtrack_selection(
            thread_id,
            cells,
            labels,
            self.nth_user_message,
        );
        self.reset_backtrack_state();
        selection
    }
}

/// How many files a restore would bring back, and how many it would leave.
#[derive(Clone, Copy, Debug, PartialEq, Eq, Structural)]
pub struct BacktrackFileRestoreSummary {
    pub restorable: usize,
    pub blocked: usize,
}

/// The model of a way to restore: its label, its details and its action.
pub type OptionModel = (Seq<char>, Seq<Seq<(Seq<char>, SpanStyle)>>, ActionModel);

impl DeepView for RewindRestoreOption {
    type V = (Seq<char>, Seq<Seq<(Seq<char>, SpanStyle)>>, ActionModel);

    open spec fn deep_view(&self) -> Self::V {
        (self.label@, self.details.deep_view(), self.action.deep_view())
    }
}

/// The word for one or more files.
pub open spec fn file_word(count: usize) -> Seq<char> {
    if count == 1 {
        "file"@
    } else {
        "files"@
    }
}

/// What the picker says where files are restored.
pub open spec fn code_restored(count: usize) -> Seq<char> {
    "The code in "@ + crate::text::decimal(count as nat) + " tracked "@ + file_word(count)
        + " will be restored."@
}

/// A line of plain text.
pub open spec fn plain_line(text: Seq<char>) -> Seq<(Seq<char>, SpanStyle)> {
    seq![(text, plain())]
}

/// The ways to restore: those that restore files only where there are files to restore.
pub open spec fn restore_options(
    selection: SelectionModel,
    target: TargetModel,
    files: usize,
) -> Seq<OptionModel> {
    let removed = plain_line("The selected message and everything after it will be removed."@);
    let restored = plain_line(code_restored(files));
    let conversation = (
        "Restore conversation"@,
        seq![removed, plain_line("The code will be unchanged."@)],
        selection::restore_action(selection, target, BacktrackRestoreMode::Conversation),
    );
    let never_mind = (
        "Never mind"@,
        seq![plain_line("The code and conversation will be unchanged."@)],
        ActionModel::CancelBacktrackRestore,
    );
    if files > 0 {
        seq![
            (
                "Restore code and conversation"@,
                seq![removed, restored],
                selection::restore_action(
                    selection,
                    target,
                    BacktrackRestoreMode::CodeAndConversation,
                ),
            ),
            conversation,
            (
                "Restore code"@,
                seq![plain_line("The conversation will be unchanged."@), restored],
                selection::restore_action(selection, target, BacktrackRestoreMode::Code),
            ),
            never_mind,
        ]
    } else {
        seq![conversation, never_mind]
    }
}

/// What the picker warns of.
pub open spec fn restore_warning(blocked: usize) -> Seq<char> {
    if blocked == 0 {
        "Only changes made through Codex apply_patch are restored; shell and manual edits are left untouched."@
    } else {
        "Only safe Codex apply_patch changes are restored; "@ + crate::text::decimal(
            blocked as nat,
        ) + " conflicting or unavailable tracked "@ + file_word(blocked)
            + " will be left untouched."@
    }
}

fn detail_line(text: &str) -> (r: StyledLine)
    ensures
        r.deep_view() == plain_line(text@),
{
    line1(span(text, plain()))
}

fn two_details(a: &str, b: &str) -> (r: Vec<StyledLine>)
    ensures
        r.deep_view() == seq![plain_line(a@), plain_line(b@)],
{
    let mut r: Vec<StyledLine> = Vec::new();
    r.push(detail_line(a));
    r.push(detail_line(b));
    assert(r.deep_view() =~= seq![plain_line(a@), plain_line(b@)]);
    r
}

fn file_label(count: usize) -> (r: String)
    ensures
        r@ == file_word(count),
{
    if count == 1 {
        "file".to_owned()
    } else {
        "files".to_owned()
    }
}

fn warning_text(blocked: usize) -> (r: String)
    ensures
        r@ == restore_warning(blocked),
{
    if blocked == 0 {
        "Only changes made through Codex apply_patch are restored; shell and manual edits are left untouched.".to_owned()
    } else {
        let number = decimal_string(blocked as u64);
        let label = file_label(blocked);
        let mut text = concat3(
            "Only safe Codex apply_patch changes are restored; ",
            number.as_str(),
            " conflicting or unavailable tracked ",
        );
        text.append(label.as_str());
        text.append(" will be left untouched.");
        text
    }
}

fn list_restore_options(
    selection: &BacktrackSelection,
    target: &BacktrackRollbackTarget,
    files: usize,
) -> (options: Vec<RewindRestoreOption>)
    ensures
        options.deep_view() == restore_options(
            selection.deep_view(),
            target.deep_view(),
            files,
        ),
{
    let removed = "The selected message and everything after it will be removed.";
    let number = decimal_string(files as u64);
    let label = file_label(files);
    let mut restored = concat3("The code in ", number.as_str(), " tracked ");
    restored.append(label.as_str());
    restored.append(" will be restored.");
    let mut options: Vec<RewindRestoreOption> = Vec::new();
    if files > 0 {
        options.push(
            RewindRestoreOption {
                label: "Restore code and conversation".to_owned(),
                details: two_details(removed, restored.as_str()),
                action: backtrack_restore_action(
                    selection,
                    target,
                    BacktrackRestoreMode::CodeAndConversation,
                ),
            },
        );
    }
    options.push(
        RewindRestoreOption {
            label: "Restore conversation".to_owned(),
            details: two_details(removed, "The code will be unchanged."),
            action: backtrack_restore_action(
                selection,
                target,
                BacktrackRestoreMode::Conversation,
            ),
        },
    );
    if files > 0 {
        options.push(
            RewindRestoreOption {
                label: "Restore code".to_owned(),
                details: two_details(
                    "The conversation will be unchanged.",
                    restored.as_str(),
                ),
                action: backtrack_restore_action(selection, target, BacktrackRestoreMode::Code),
            },
        );
    }
    let mut details: Vec<StyledLine> = Vec::new();
    details.push(detail_line("The code and conversation will be unchanged."));
    assert(details.deep_view() =~= seq![
        plain_line("The code and conversation will be unchanged."@),
    ]);
    options.push(
        RewindRestoreOption {
            label: "Never mind".to_owned(),
            details,
            action: RewindAction::CancelBacktrackRestore,
        },
    );
    assert(options.deep_view() =~= restore_options(
        selection.deep_view(),
        target.deep_view(),
        files,
    ));
    options
}

/// What the restore picker offers for a prompt. Closing it goes back to the prompt picker.
pub fn show_backtrack_restore_picker(
    selection: BacktrackSelection,
    target: &BacktrackRollbackTarget,
    file_restore: BacktrackFileRestoreSummary,
) -> (r: (RewindViewKind, RewindAction))
    ensures
        r.0 matches RewindViewKind::Restore { prompt, options, warning } && {
            &&& prompt@ == selection.prompt.text@
            &&& options.deep_view() == restore_options(
                selection.deep_view(),
                target.deep_view(),
                file_restore.restorable,
            )
            &&& warning.deep_view() == plain_line(restore_warning(file_restore.blocked))
        },
        r.1 is BacktrackRestoreBack,
{
    let options = list_restore_options(&selection, target, file_restore.restorable);
    let warning = line1(span_of(warning_text(file_restore.blocked), plain()));
    (
        RewindViewKind::Restore { prompt: selection.prompt.text, options, warning },
        RewindAction::BacktrackRestoreBack,
    )
}

/// The first Esc only primes, and the second one opens the picker. With a draft in the composer
/// neither does anything, and after a reset it takes two again.
pub proof fn two_escs_open_the_picker(state: BacktrackState, thread_id: Option<String>)
    ensures
        esc_action(after_reset(state), true, false) == EscAction::Prime,
        esc_action(after_prime(after_reset(state), thread_id), true, false)
            == EscAction::OpenPicker,
        esc_action(state, false, false) == EscAction::Ignore,
        esc_action(after_prime(state, thread_id), false, false) == EscAction::Ignore,
{
}

/// The prompt picker offers every prompt since the last start of a session, in order, while the
/// thread is the one of the first Esc.
pub proof fn picker_offers_every_prompt(
    state: BacktrackState,
    thread_id: Option<String>,
    cells: Seq<HistoryCell>,
    labels: Seq<String>,
    n: int,
)
    requires
        state.base_id is Some,
        state.base_id.deep_view() == thread_id.deep_view(),
        0 <= n <= cells::user_positions(cells).len(),
    ensures
        prompt_items(state, thread_id, cells, labels, n).len() == n,
        forall|k: int|
            0 <= k < n ==> (#[trigger] prompt_items(state, thread_id, cells, labels, n)[k])
                == prompt_item(
                cells,
                SelectionModel {
                    thread_id: thread_id->0@,
                    nth_user_message: k as usize,
                    newer_user_messages: (cells::user_positions(cells).len() - k - 1) as usize,
                    prompt: cells::prompt_of(
                        cells[cells::user_positions(cells)[k]]->User_0,
                        labels,
                    ),
                },
                k,
            ),
    decreases n,
{
    if n > 0 {
        picker_offers_every_prompt(state, thread_id, cells, labels, n - 1);
    }
}

/// The picker offers to restore code just where there are files to restore, and always to restore
/// the conversation or to leave everything. Each choice does what its label says, to the target and
/// with the prompt that were chosen.
pub proof fn restore_options_do_what_they_say(
    selection: SelectionModel,
    target: TargetModel,
    files: usize,
    i: int,
)
    requires
        0 <= i < restore_options(selection, target, files).len(),
    ensures
        restore_options(selection, target, files).len() == (if files > 0 {
            4int
        } else {
            2int
        }),
        ({
            let option = restore_options(selection, target, files)[i];
            let mode = if option.0 == "Restore code and conversation"@ {
                Some(BacktrackRestoreMode::CodeAndConversation)
            } else if option.0 == "Restore conversation"@ {
                Some(BacktrackRestoreMode::Conversation)
            } else if option.0 == "Restore code"@ {
                Some(BacktrackRestoreMode::Code)
            } else {
                None
            };
            match mode {
                Some(mode) => option.2 == (ActionModel::ApplyBacktrackRestore {
                    thread_id: selection.thread_id,
                    nth_user_message: selection.nth_user_message,
                    target,
                    prompt: selection.prompt,
                    mode,
                }) && (files == 0 ==> mode == BacktrackRestoreMode::Conversation),
                None => option.0 == "Never mind"@ && option.2
                    == ActionModel::CancelBacktrackRestore && i == restore_options(
                    selection,
                    target,
                    files,
                ).len() - 1,
            }
        }),
{
    reveal_strlit("Restore code and conversation");
    reveal_strlit("Restore conversation");
    reveal_strlit("Restore code");
    reveal_strlit("Never mind");
    assert("Restore code and conversation"@.len() == 29);
    assert("Restore conversation"@.len() == 20);
    assert("Restore code"@.len() == 12);
    assert("Never mind"@.len() == 10);
}

/// A prompt that is chosen comes with the number of prompts before it and after it, which add up
/// to all prompts, and with what its own cell holds. There is none of another thread than the one
/// of the first Esc, and none beyond the last prompt.
pub proof fn chosen_prompts_know_their_place(
    state: BacktrackState,
    thread_id: Option<String>,
    cells: Seq<HistoryCell>,
    labels: Seq<String>,
    nth: int,
)
    requires
        0 <= nth,
        cells.len() <= usize::MAX,
    ensures
        match selection_of(state, thread_id, cells, labels, nth) {
            Some(selection) => {
                &&& thread_id is Some
                &&& state.base_id is Some
                &&& selection.thread_id == thread_id->0@
                &&& selection.thread_id == state.base_id->0@
                &&& selection.nth_user_message == nth
                &&& selection.nth_user_message + 1 + selection.newer_user_messages
                    == cells::user_positions(cells).len()
                &&& cells[cells::user_positions(cells)[nth]] matches HistoryCell::User(cell)
                &&& selection.prompt.text == cell.message@
                &&& selection.prompt == cells::prompt_of(cell, labels)
            },
            None => state.base_id is None || thread_id is None || state.base_id->0@
                != thread_id->0@ || nth >= cells::user_positions(cells).len(),
        },
{
    cells::user_positions_are_prompts(cells);
}

/// Each prompt of the picker leads back to itself, and the present, last of all, to nowhere.
pub proof fn picked_prompts_lead_to_themselves(
    cells: Seq<HistoryCell>,
    selection: SelectionModel,
    nth: int,
)
    ensures
        prompt_item(cells, selection, nth).3 == ActionModel::RollbackSessionForPromptEdit(
            selection,
        ),
        !prompt_item(cells, selection, nth).2,
        current_item().2,
        current_item().3 == ActionModel::CancelBacktrackRestore,
        nth + 1 < cells::user_positions(cells).len() ==> prompt_end(cells, nth)
            == cells::user_positions(cells)[nth + 1],
        nth + 1 >= cells::user_positions(cells).len() ==> prompt_end(cells, nth) == cells.len(),
{
}

/// After a rollback the conversation ends right before the prompt that was gone back to: just the
/// prompts before it are left, and all that stood before it.
pub proof fn rollbacks_leave_the_prompts_before(
    before: BacktrackState,
    after: BacktrackState,
    cells_before: Seq<HistoryCell>,
    cells_after: Seq<HistoryCell>,
    nth_user_message: usize,
    removed: bool,
)
    requires
        rolled_back(before, after, cells_before, cells_after, nth_user_message, removed),
    ensures
        ({
            let nth = if before.pending_rollback is Some {
                before.pending_rollback->0.nth_user_message
            } else {
                nth_user_message
            };
            &&& after.pending_rollback is None
            &&& removed <==> nth < cells::user_positions(cells_before).len()
            &&& removed ==> {
                &&& cells_after.is_prefix_of(cells_before)
                &&& cells_after.len() < cells_before.len()
                &&& cells_before[cells_after.len() as int] is User
                &&& cells::user_positions(cells_after) == cells::user_positions(cells_before).take(
                    nth as int,
                )
                &&& !after.primed
                &&& after.base_id is None
            }
            &&& !removed ==> cells_after == cells_before
        }),
{
    cells::user_positions_are_prompts(cells_before);
    let nth = if before.pending_rollback is Some {
        before.pending_rollback->0.nth_user_message
    } else {
        nth_user_message
    };
    if removed {
        cells::cutting_at_a_prompt_keeps_earlier_prompts(cells_before, nth as int);
    }
}

/// Esc does nothing to a draft and nothing below an open overlay but to prime; the first Esc
/// remembers the thread, and a reset forgets it but not the restore that is being decided.
pub proof fn escs_do_nothing_to_drafts(
    state: BacktrackState,
    thread_id: Option<String>,
    overlay_is_open: bool,
)
    ensures
        esc_action(state, false, overlay_is_open) == EscAction::Ignore,
        !state.primed ==> esc_action(state, true, overlay_is_open) == EscAction::Prime,
        state.primed ==> esc_action(state, true, overlay_is_open) == (if overlay_is_open {
            EscAction::Ignore
        } else {
            EscAction::OpenPicker
        }),
        after_prime(state, thread_id).primed,
        after_prime(state, thread_id).base_id == thread_id,
        after_prime(state, thread_id).pending_rollback == state.pending_rollback,
        !after_reset(state).primed,
        after_reset(state).base_id is None,
        after_reset(state).pending_rollback == state.pending_rollback,
        !after_reset(state).loading_older_history,
{
}

/// The picker warns of what stays as it is: where files are left out it says how many, in the right
/// word, and else that only changes made through the tools are brought back.
pub proof fn warnings_count_what_is_left_out(blocked: usize, other: usize)
    requires
        blocked > 0,
        other > 1,
    ensures
        restore_warning(blocked) == "Only safe Codex apply_patch changes are restored; "@
            + crate::text::decimal(blocked as nat) + " conflicting or unavailable tracked "@ + (
        if blocked == 1 {
            "file"@
        } else {
            "files"@
        }) + " will be left untouched."@,
        restore_warning(0)
            == "Only changes made through Codex apply_patch are restored; shell and manual edits are left untouched."@,
        code_restored(1) == "The code in "@ + crate::text::decimal(1) + " tracked "@ + "file"@
            + " will be restored."@,
        code_restored(other) == "The code in "@ + crate::text::decimal(other as nat) + " tracked "@
            + "files"@ + " will be restored."@,
{
}

} // verus!
