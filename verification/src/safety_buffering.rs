//! What is shown while a response is held back for a safety check.

use crate::text::same_text;
use vstd::prelude::*;

verus! {

/// The view that is closed when the check is over.
pub const SAFETY_BUFFERING_PROMPT_VIEW_ID: &'static str = "safety-buffering-prompt";

/// What the status row says during a check.
pub const SAFETY_BUFFERING_HEADER: &'static str =
    "Our systems are thinking a bit more about this request before responding.";

/// The warning at the beginning of a check.
pub const SAFETY_BUFFERING_MESSAGE_WITH_RETRY: &'static str =
    "Hang tight or retry with a faster model for a quicker response, though it may be less capable of handling complex requests.";

/// The number of rows for what the status row says during a check.
pub const SAFETY_BUFFERING_MAX_LINES: usize = 6;

/// A check that goes on.
#[derive(Debug)]
pub struct ActiveSafetyBuffering {
    pub turn_id: String,
    pub agent_message_started: bool,
}

impl DeepView for ActiveSafetyBuffering {
    type V = (Seq<char>, bool);

    open spec fn deep_view(&self) -> Self::V {
        (self.turn_id@, self.agent_message_started)
    }
}

/// Whether a check goes on.
#[derive(Debug)]
pub struct SafetyBufferingState {
    pub active: Option<ActiveSafetyBuffering>,
}

impl DeepView for SafetyBufferingState {
    type V = Option<(Seq<char>, bool)>;

    open spec fn deep_view(&self) -> Self::V {
        self.active.deep_view()
    }
}

/// What decides whether news of a check count.
#[derive(Debug)]
pub struct BufferingContext {
    /// Whether the news is replayed from the start of a resumed session.
    pub replays_initial_messages: bool,
    pub agent_turn_running: bool,
    pub last_turn_id: Option<String>,
}

/// What news of a check brings about.
#[derive(Clone, Copy, Debug, PartialEq, Eq, Structural)]
pub enum BufferingStep {
    /// Nothing.
    Ignored,
    /// The prompt is closed and the status row shows again what the agent thinks about.
    Stopped,
    /// The status row shows the check.
    Continued,
    /// The status row shows the check, the prompt is closed and the warning is shown.
    Started,
}

/// Whether news of a check count: only for the turn that runs.
pub open spec fn news_counts(context: BufferingContext, turn_id: Seq<char>) -> bool {
    &&& !context.replays_initial_messages
    &&& context.agent_turn_running
    &&& context.last_turn_id.deep_view() == Some(turn_id)
}

/// Whether a check of a turn goes on.
pub open spec fn checks(state: Option<(Seq<char>, bool)>, turn_id: Seq<char>) -> bool {
    match state {
        Some(active) => active.0 == turn_id,
        None => false,
    }
}

/// The state and the step after news of a check.
pub open spec fn after_news(
    state: Option<(Seq<char>, bool)>,
    context: BufferingContext,
    turn_id: Seq<char>,
    show: bool,
) -> (Option<(Seq<char>, bool)>, BufferingStep) {
    if !news_counts(context, turn_id) {
        (state, BufferingStep::Ignored)
    } else if show {
        if checks(state, turn_id) {
            (state, BufferingStep::Continued)
        } else {
            (Some((turn_id, false)), BufferingStep::Started)
        }
    } else if checks(state, turn_id) {
        (None, BufferingStep::Stopped)
    } else {
        (state, BufferingStep::Ignored)
    }
}

impl SafetyBufferingState {
    /// No check goes on.
    pub fn new() -> (r: Self)
        ensures
            r.deep_view() is None,
    {
        SafetyBufferingState { active: None }
    }

    /// Forgets a check; the prompt is closed.
    pub fn clear(&mut self)
        ensures
            final(self).deep_view() is None,
    {
        self.active = None;
    }

    /// Takes note that the response has started.
    pub fn mark_agent_message_started(&mut self)
        ensures
            final(self).deep_view() == match old(self).deep_view() {
                Some(active) => Some((active.0, true)),
                None => None,
            },
    {
        match self.active.take() {
            Some(active) => {
                self.active =
                Some(
                    ActiveSafetyBuffering {
                        turn_id: active.turn_id,
                        agent_message_started: true,
                    },
                );
            },
            None => {},
        }
    }

    /// Whether a check goes on and the response has not started.
    pub fn is_waiting(&self) -> (r: bool)
        ensures
            r == match self.deep_view() {
                Some(active) => !active.1,
                None => false,
            },
    {
        match &self.active {
            Some(active) => !active.agent_message_started,
            None => false,
        }
    }

    /// Takes news of a check.
    pub fn on_model_safety_buffering_updated(
        &mut self,
        context: &BufferingContext,
        turn_id: String,
        show_buffering_ui: bool,
    ) -> (r: BufferingStep)
        ensures
            (final(self).deep_view(), r) == after_news(
                old(self).deep_view(),
                *context,
                turn_id@,
                show_buffering_ui,
            ),
    {
        let of_last_turn = match &context.last_turn_id {
            Some(last) => same_text(last.as_str(), turn_id.as_str()),
            None => false,
        };
        if context.replays_initial_messages || !context.agent_turn_running || !of_last_turn {
            return BufferingStep::Ignored;
        }
        let known = match &self.active {
            Some(active) => same_text(active.turn_id.as_str(), turn_id.as_str()),
            None => false,
        };
        if !show_buffering_ui {
            if known {
                self.active = None;
                return BufferingStep::Stopped;
            }
            return BufferingStep::Ignored;
        }
        if known {
            return BufferingStep::Continued;
        }
        self.active = Some(ActiveSafetyBuffering { turn_id, agent_message_started: false });
        BufferingStep::Started
    }
}

/// The warning of a check is shown once: more news of the same turn only refreshes the status.
pub proof fn warning_is_shown_once(
    state: Option<(Seq<char>, bool)>,
    context: BufferingContext,
    turn_id: Seq<char>,
)
    requires
        news_counts(context, turn_id),
    ensures
        after_news(after_news(state, context, turn_id, true).0, context, turn_id, true).1
            == BufferingStep::Continued,
{
}

/// News of another turn than the one that runs, and replayed ones, change nothing. Other news
/// turn the check of the running turn on and off, and the check that goes on is always that of
/// the last turn for which it was turned on.
pub proof fn only_the_running_turn_is_checked(
    state: Option<(Seq<char>, bool)>,
    context: BufferingContext,
    turn_id: Seq<char>,
    show: bool,
)
    ensures
        context.replays_initial_messages || !context.agent_turn_running || context.last_turn_id
            is None || context.last_turn_id->0@ != turn_id ==> after_news(
            state,
            context,
            turn_id,
            show,
        ) == (state, BufferingStep::Ignored),
        !context.replays_initial_messages && context.agent_turn_running && context.last_turn_id
            is Some && context.last_turn_id->0@ == turn_id ==> {
            let (after, step) = after_news(state, context, turn_id, show);
            let running = state matches Some((checked, started)) && checked == turn_id;
            &&& show && running ==> after == state && step == BufferingStep::Continued
            &&& show && !running ==> after == Some((turn_id, false)) && step
                == BufferingStep::Started
            &&& !show && running ==> after is None && step == BufferingStep::Stopped
            &&& !show && !running ==> after == state && step == BufferingStep::Ignored
        },
{
}

} // verus!
