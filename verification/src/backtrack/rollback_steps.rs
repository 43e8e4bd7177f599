//! The steps of a request to go back to a prompt: what is asked of the server, in which order, and
//! where each answer leads.

use crate::backtrack::events::{rollback_error_message, summarize_restore};
use crate::backtrack::rollback_target::{
    self, backtrack_rollback_target, BacktrackRollbackTarget, RollbackTargetError,
};
use crate::backtrack::selection::{BacktrackSelection, RewindAction};
use crate::backtrack::state::{self, show_backtrack_restore_picker, BacktrackState};
use crate::checkpoint::restore::{self, FileRestorePreviewEntry};
use crate::data::Data;
use crate::rewind_view::RewindViewKind;
use crate::thread::{Turn, UserMessage, UserMessageModel};
use vstd::prelude::*;

verus! {

/// A request whose turn was not found in the turns at hand.
pub struct RollbackRequest {
    pub selection: BacktrackSelection,
    pub transcript_prompts: Vec<UserMessage>,
    /// The prompt, with the mentions that it was found to have.
    pub prompt: UserMessage,
}

/// What is to be done next.
pub enum RollbackStep {
    /// Nothing: the request is for another thread.
    Ignored,
    /// Read the whole thread.
    ReadThread(RollbackRequest),
    /// Find out which files a restore would bring back.
    PreviewFiles { selection: BacktrackSelection, target: BacktrackRollbackTarget },
    /// Put the prompt back into the composer and show an error.
    Failed { prompt: UserMessage, message: String },
}

/// Whether the turn of a prompt was looked for in some turns, and what came of it.
pub open spec fn looked_up(
    turns: Seq<Turn>,
    prompts: Seq<UserMessage>,
    newer_user_messages: usize,
    asked: UserMessageModel,
    bound: UserMessage,
    found: Result<BacktrackRollbackTarget, RollbackTargetError>,
) -> bool {
    exists|before: UserMessage| #[trigger]
        before.deep_view() == asked && rollback_target::targeted(
            turns,
            prompts,
            newer_user_messages as int,
            before,
            bound,
            found,
        )
}

/// Whether the turns at hand decide a request: where the turn is found in them, the files are next;
/// where it is not, the whole thread is read.
pub open spec fn decided_locally(
    turns: Seq<Turn>,
    prompts: Vec<UserMessage>,
    selection: BacktrackSelection,
    found: Result<BacktrackRollbackTarget, RollbackTargetError>,
    step: RollbackStep,
) -> bool {
    match found {
        Ok(target) => {
            &&& step == (RollbackStep::PreviewFiles { selection, target })
            &&& exists|bound: UserMessage| #[trigger]
                looked_up(
                    turns,
                    prompts@,
                    selection.newer_user_messages,
                    selection.prompt.deep_view(),
                    bound,
                    found,
                )
        },
        Err(_) => step matches RollbackStep::ReadThread(request) && request.selection == selection
            && request.transcript_prompts == prompts && looked_up(
            turns,
            prompts@,
            selection.newer_user_messages,
            selection.prompt.deep_view(),
            request.prompt,
            found,
        ),
    }
}

/// Whether the turns of the whole thread decide a request.
pub open spec fn decided(
    turns: Seq<Turn>,
    request: RollbackRequest,
    found: Result<BacktrackRollbackTarget, RollbackTargetError>,
    step: RollbackStep,
) -> bool {
    match found {
        Ok(target) => {
            &&& step == (RollbackStep::PreviewFiles { selection: request.selection, target })
            &&& exists|bound: UserMessage| #[trigger]
                rollback_target::targeted(
                    turns,
                    request.transcript_prompts@,
                    request.selection.newer_user_messages as int,
                    request.prompt,
                    bound,
                    found,
                )
        },
        Err(error) => step matches RollbackStep::Failed { prompt, message } && message@
            == "Failed to roll back before the selected prompt: "@ + error.text()
            && rollback_target::targeted(
            turns,
            request.transcript_prompts@,
            request.selection.newer_user_messages as int,
            request.prompt,
            prompt,
            found,
        ),
    }
}

impl BacktrackState {
    /// Starts to look into a request. One for another thread than the current one does nothing;
    /// else its prompt is the one whose restore is being decided, unless one is. `turns` are the
    /// turns of the thread at hand.
    pub fn start_rollback(
        &mut self,
        current_thread: &Option<String>,
        selection: BacktrackSelection,
        transcript_prompts: Vec<UserMessage>,
        turns: Option<&Vec<Turn>>,
    ) -> (r: RollbackStep)
        ensures
            *final(self) == (BacktrackState {
                pending_rollback: final(self).pending_rollback,
                ..*old(self)
            }),
            final(self).pending_rollback.deep_view() == (if current_thread.deep_view() == Some(
                selection.thread_id@,
            ) && old(self).pending_rollback is None {
                Some(selection.deep_view())
            } else {
                old(self).pending_rollback.deep_view()
            }),
            if current_thread.deep_view() != Some(selection.thread_id@) {
                r is Ignored
            } else {
                match turns {
                    None => r matches RollbackStep::ReadThread(request) && request.selection
                        == selection && request.transcript_prompts == transcript_prompts
                        && request.prompt.deep_view() == selection.prompt.deep_view(),
                    Some(turns) => exists|
                        found: Result<BacktrackRollbackTarget, RollbackTargetError>,
                    | #[trigger]
                        decided_locally(turns@, transcript_prompts, selection, found, r),
                }
            },
    {
        if !self.begin_rollback(current_thread, &selection) {
            return RollbackStep::Ignored;
        }
        let mut prompt = selection.prompt.duplicate();
        let turns = match turns {
            Some(turns) => turns,
            None => {
                return RollbackStep::ReadThread(
                    RollbackRequest { selection, transcript_prompts, prompt },
                );
            },
        };
        let ghost before = prompt;
        let found = backtrack_rollback_target(
            turns,
            &transcript_prompts,
            selection.newer_user_messages,
            &mut prompt,
        );
        assert(before.deep_view() == selection.prompt.deep_view());
        assert(looked_up(
            turns@,
            transcript_prompts@,
            selection.newer_user_messages,
            selection.prompt.deep_view(),
            prompt,
            found,
        ));
        let ghost answer = found;
        match found {
            Ok(target) => {
                let step = RollbackStep::PreviewFiles { selection, target };
                assert(decided_locally(turns@, transcript_prompts, selection, answer, step));
                step
            },
            Err(_) => {
                let step = RollbackStep::ReadThread(
                    RollbackRequest { selection, transcript_prompts, prompt },
                );
                assert(decided_locally(turns@, transcript_prompts, selection, answer, step));
                step
            },
        }
    }

    /// Takes the turns of the whole thread, or what was said when it could not be read. Where the
    /// request fails, nothing is being decided any more.
    pub fn thread_read(&mut self, request: RollbackRequest, turns: Result<Vec<Turn>, String>) -> (r:
        RollbackStep)
        ensures
            *final(self) == (if r is Failed {
                BacktrackState { pending_rollback: None, ..*old(self) }
            } else {
                *old(self)
            }),
            match turns {
                Err(error) => r matches RollbackStep::Failed { prompt, message } && prompt
                    == request.prompt && message@
                    == "Failed to roll back before the selected prompt: "@ + error@,
                Ok(turns) => exists|
                    found: Result<BacktrackRollbackTarget, RollbackTargetError>,
                | #[trigger]
                    decided(turns@, request, found, r),
            },
    {
        let turns = match turns {
            Ok(turns) => turns,
            Err(error) => {
                self.handle_backtrack_rollback_failed();
                return RollbackStep::Failed {
                    prompt: request.prompt,
                    message: rollback_error_message(error.as_str()),
                };
            },
        };
        let ghost asked = request;
        let mut request = request;
        let found = backtrack_rollback_target(
            &turns,
            &request.transcript_prompts,
            request.selection.newer_user_messages,
            &mut request.prompt,
        );
        let ghost answer = found;
        match found {
            Ok(target) => {
                let step = RollbackStep::PreviewFiles { selection: request.selection, target };
                assert(decided(turns@, asked, answer, step));
                step
            },
            Err(error) => {
                self.handle_backtrack_rollback_failed();
                let step = RollbackStep::Failed {
                    prompt: request.prompt,
                    message: rollback_error_message(error.message().as_str()),
                };
                assert(decided(turns@, asked, answer, step));
                step
            },
        }
    }
}

/// The restore picker for a prompt once it is known which files a restore would bring back; none
/// where that could not be found out.
pub fn files_previewed(
    selection: BacktrackSelection,
    target: &BacktrackRollbackTarget,
    preview: Option<&Vec<FileRestorePreviewEntry>>,
) -> (r: (RewindViewKind, RewindAction))
    ensures
        ({
            let (restorable, blocked) = match preview {
                Some(files) => (
                    restore::restorable_count(files@) as int,
                    files@.len() - restore::restorable_count(files@),
                ),
                None => (0, 0),
            };
            r.0 matches RewindViewKind::Restore { prompt, options, warning } && prompt@
                == selection.prompt.text@ && options.deep_view() == state::restore_options(
                selection.deep_view(),
                target.deep_view(),
                restorable as usize,
            ) && warning.deep_view() == state::plain_line(
                state::restore_warning(blocked as usize),
            )
        }),
        r.1 is BacktrackRestoreBack,
{
    let summary = summarize_restore(preview);
    show_backtrack_restore_picker(selection, target, summary)
}

/// Looking for the turn of a prompt changes nothing of the prompt but its mentions, so a request
/// that fails gives back what was written.
pub proof fn looking_up_keeps_the_text(
    turns: Seq<Turn>,
    prompts: Seq<UserMessage>,
    newer_user_messages: int,
    before: UserMessage,
    after: UserMessage,
    found: Result<BacktrackRollbackTarget, RollbackTargetError>,
)
    requires
        rollback_target::targeted(turns, prompts, newer_user_messages, before, after, found),
    ensures
        before.deep_view() == (UserMessageModel {
            mention_bindings: before.deep_view().mention_bindings,
            ..after.deep_view()
        }),
{
}

/// A request goes on with the turn that was found, and else with the whole thread; either way it
/// stays the request for the same prompt. Only where the whole thread has no such turn does it
/// fail, and it then gives back what was written and says why.
pub proof fn requests_go_on_until_their_turn_is_found(
    turns: Seq<Turn>,
    all: Seq<Turn>,
    prompts: Vec<UserMessage>,
    selection: BacktrackSelection,
    found: Result<BacktrackRollbackTarget, RollbackTargetError>,
    step: RollbackStep,
    request: RollbackRequest,
    answer: Result<BacktrackRollbackTarget, RollbackTargetError>,
    last: RollbackStep,
)
    requires
        decided_locally(turns, prompts, selection, found, step),
        decided(all, request, answer, last),
    ensures
        found matches Ok(target) ==> {
            &&& step is PreviewFiles
            &&& step->PreviewFiles_selection == selection
            &&& step->PreviewFiles_target == target
        },
        found is Err ==> step is ReadThread,
        step matches RollbackStep::ReadThread(asked) ==> {
            &&& asked.selection == selection
            &&& asked.transcript_prompts == prompts
            &&& asked.prompt.text@ == selection.prompt.text@
            &&& asked.prompt.deep_view().local_images == selection.prompt.deep_view().local_images
        },
        answer matches Ok(target) ==> {
            &&& last is PreviewFiles
            &&& last->PreviewFiles_selection == request.selection
            &&& last->PreviewFiles_target == target
        },
        answer is Err <==> last is Failed,
        last matches RollbackStep::Failed { prompt, message } ==> {
            &&& prompt.text@ == request.prompt.text@
            &&& prompt.deep_view().local_images == request.prompt.deep_view().local_images
            &&& message@.len() > 0
        },
{
    reveal_strlit("Failed to roll back before the selected prompt: ");
    if let RollbackStep::ReadThread(asked) = step {
        let before = choose|before: UserMessage| #[trigger]
            before.deep_view() == selection.prompt.deep_view() && rollback_target::targeted(
                turns,
                prompts@,
                selection.newer_user_messages as int,
                before,
                asked.prompt,
                found,
            );
        looking_up_keeps_the_text(
            turns,
            prompts@,
            selection.newer_user_messages as int,
            before,
            asked.prompt,
            found,
        );
    }
    if let RollbackStep::Failed { prompt, message } = last {
        looking_up_keeps_the_text(
            all,
            request.transcript_prompts@,
            request.selection.newer_user_messages as int,
            request.prompt,
            prompt,
            answer,
        );
    }
}

} // verus!
