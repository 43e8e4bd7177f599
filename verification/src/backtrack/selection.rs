//! A prompt that was chosen, and what the choice leads to.

use crate::backtrack::rollback_target::BacktrackRollbackTarget;
use crate::data::Data;
use crate::thread::{UserMessage, UserMessageModel};
use vstd::prelude::*;

verus! {

/// A prompt that was chosen to go back to.
pub struct BacktrackSelection {
    pub thread_id: String,
    /// The number of the prompt since the last start of a session.
    pub nth_user_message: usize,
    /// How many prompts are newer.
    pub newer_user_messages: usize,
    pub prompt: UserMessage,
}

/// The model of a prompt that was chosen to go back to.
pub ghost struct SelectionModel {
    pub thread_id: Seq<char>,
    pub nth_user_message: usize,
    pub newer_user_messages: usize,
    pub prompt: UserMessageModel,
}

impl DeepView for BacktrackSelection {
    type V = SelectionModel;

    open spec fn deep_view(&self) -> Self::V {
        SelectionModel {
            thread_id: self.thread_id@,
            nth_user_message: self.nth_user_message,
            newer_user_messages: self.newer_user_messages,
            prompt: self.prompt.deep_view(),
        }
    }
}

impl Data for BacktrackSelection {
    fn same(&self, other: &Self) -> (r: bool) {
        self.thread_id == other.thread_id && self.nth_user_message == other.nth_user_message
            && self.newer_user_messages == other.newer_user_messages && self.prompt.same(
            &other.prompt,
        )
    }

    fn duplicate(&self) -> (r: Self) {
        BacktrackSelection {
            thread_id: self.thread_id.clone(),
            nth_user_message: self.nth_user_message,
            newer_user_messages: self.newer_user_messages,
            prompt: self.prompt.duplicate(),
        }
    }
}

/// The model of what a rollback to a prompt removes.
pub ghost struct TargetModel {
    pub before_turn_id: Seq<char>,
    pub legacy_num_turns: u32,
    pub removed_turn_ids: Seq<Seq<char>>,
}

impl DeepView for BacktrackRollbackTarget {
    type V = TargetModel;

    open spec fn deep_view(&self) -> Self::V {
        TargetModel {
            before_turn_id: self.before_turn_id@,
            legacy_num_turns: self.legacy_num_turns,
            removed_turn_ids: self.removed_turn_ids.deep_view(),
        }
    }
}

impl Data for BacktrackRollbackTarget {
    fn same(&self, other: &Self) -> (r: bool) {
        self.before_turn_id == other.before_turn_id && self.legacy_num_turns
            == other.legacy_num_turns && self.removed_turn_ids.same(&other.removed_turn_ids)
    }

    fn duplicate(&self) -> (r: Self) {
        BacktrackRollbackTarget {
            before_turn_id: self.before_turn_id.clone(),
            legacy_num_turns: self.legacy_num_turns,
            removed_turn_ids: self.removed_turn_ids.duplicate(),
        }
    }
}

/// What going back restores.
#[derive(Clone, Copy, Debug, PartialEq, Eq, Structural)]
pub enum BacktrackRestoreMode {
    CodeAndConversation,
    Conversation,
    Code,
}

/// What a choice in the rewind pickers asks for.
pub enum RewindAction {
    /// Nothing: close the picker.
    CancelBacktrackRestore,
    /// Go back from the restore picker to the prompt picker.
    BacktrackRestoreBack,
    /// Find out what going back to a prompt restores.
    RollbackSessionForPromptEdit(BacktrackSelection),
    /// Restore.
    ApplyBacktrackRestore {
        thread_id: String,
        nth_user_message: usize,
        target: BacktrackRollbackTarget,
        prompt: UserMessage,
        mode: BacktrackRestoreMode,
    },
}

/// The model of what a choice in the rewind pickers asks for.
pub ghost enum ActionModel {
    CancelBacktrackRestore,
    BacktrackRestoreBack,
    RollbackSessionForPromptEdit(SelectionModel),
    ApplyBacktrackRestore {
        thread_id: Seq<char>,
        nth_user_message: usize,
        target: TargetModel,
        prompt: UserMessageModel,
        mode: BacktrackRestoreMode,
    },
}

impl DeepView for RewindAction {
    type V = ActionModel;

    open spec fn deep_view(&self) -> Self::V {
        match self {
            RewindAction::CancelBacktrackRestore => ActionModel::CancelBacktrackRestore,
            RewindAction::BacktrackRestoreBack => ActionModel::BacktrackRestoreBack,
            RewindAction::RollbackSessionForPromptEdit(
                selection,
            ) => ActionModel::RollbackSessionForPromptEdit(selection.deep_view()),
            RewindAction::ApplyBacktrackRestore {
                thread_id,
                nth_user_message,
                target,
                prompt,
                mode,
            } => ActionModel::ApplyBacktrackRestore {
                thread_id: thread_id@,
                nth_user_message: *nth_user_message,
                target: target.deep_view(),
                prompt: prompt.deep_view(),
                mode: *mode,
            },
        }
    }
}

impl RewindAction {
    /// The same action as a value of its own.
    pub fn duplicate(&self) -> (r: Self)
        ensures
            r.deep_view() == self.deep_view(),
    {
        match self {
            RewindAction::CancelBacktrackRestore => RewindAction::CancelBacktrackRestore,
            RewindAction::BacktrackRestoreBack => RewindAction::BacktrackRestoreBack,
            RewindAction::RollbackSessionForPromptEdit(
                selection,
            ) => RewindAction::RollbackSessionForPromptEdit(selection.duplicate()),
            RewindAction::ApplyBacktrackRestore {
                thread_id,
                nth_user_message,
                target,
                prompt,
                mode,
            } => RewindAction::ApplyBacktrackRestore {
                thread_id: thread_id.clone(),
                nth_user_message: *nth_user_message,
                target: target.duplicate(),
                prompt: prompt.duplicate(),
                mode: *mode,
            },
        }
    }
}

/// What choosing a way to restore asks for.
pub open spec fn restore_action(
    selection: SelectionModel,
    target: TargetModel,
    mode: BacktrackRestoreMode,
) -> ActionModel {
    ActionModel::ApplyBacktrackRestore {
        thread_id: selection.thread_id,
        nth_user_message: selection.nth_user_message,
        target,
        prompt: selection.prompt,
        mode,
    }
}

/// What choosing a way to restore asks for.
pub fn backtrack_restore_action(
    selection: &BacktrackSelection,
    target: &BacktrackRollbackTarget,
    mode: BacktrackRestoreMode,
) -> (r: RewindAction)
    ensures
        r.deep_view() == restore_action(selection.deep_view(), target.deep_view(), mode),
{
    RewindAction::ApplyBacktrackRestore {
        thread_id: selection.thread_id.clone(),
        nth_user_message: selection.nth_user_message,
        target: target.duplicate(),
        prompt: selection.prompt.duplicate(),
        mode,
    }
}

/// Choosing a way asks for the prompt that was picked, in the thread that it was picked in, at the
/// turn that was found for it, in the way that was chosen.
pub proof fn choosing_a_way_names_the_prompt(
    selection: SelectionModel,
    target: TargetModel,
    mode: BacktrackRestoreMode,
)
    ensures
        restore_action(selection, target, mode) matches ActionModel::ApplyBacktrackRestore {
            thread_id,
            nth_user_message,
            target: turn,
            prompt,
            mode: way,
        } && thread_id == selection.thread_id && nth_user_message == selection.nth_user_message
            && turn == target && prompt == selection.prompt && way == mode,
{
}

} // verus!
