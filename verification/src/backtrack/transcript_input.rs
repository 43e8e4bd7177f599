//! Loading earlier history into the transcript view.

use vstd::prelude::*;

verus! {

/// What the transcript view says about history that is not loaded.
#[derive(Clone, Copy, Debug, PartialEq, Eq, Structural)]
pub enum TranscriptHistoryState {
    Partial,
    LoadingOlder,
    LoadingBeginning,
}

/// A key in the transcript view.
#[derive(Clone, Copy, Debug, PartialEq, Eq, Structural)]
pub struct TranscriptKey {
    /// Whether it asks for what comes before the loaded history.
    pub loads_older: bool,
    /// Whether it asks for the beginning of the history.
    pub loads_from_start: bool,
}

/// Whether earlier history is to be requested: for a key of the transcript view that asks for it,
/// where the thread is known and has some.
pub fn requests_older_history(
    key: Option<TranscriptKey>,
    thread_known: bool,
    has_older_history: bool,
) -> (r: bool)
    ensures
        r == (key is Some && key->0.loads_older && thread_known && has_older_history),
{
    match key {
        Some(key) => key.loads_older && thread_known && has_older_history,
        None => false,
    }
}

/// What the transcript view says after a request for earlier history. A request that was not
/// accepted changes nothing.
pub fn history_state_after_request(key: TranscriptKey, accepted: bool) -> (r: Option<
    TranscriptHistoryState,
>)
    ensures
        r == (if !accepted {
            None
        } else if key.loads_from_start {
            Some(TranscriptHistoryState::LoadingBeginning)
        } else {
            Some(TranscriptHistoryState::LoadingOlder)
        }),
{
    if !accepted {
        None
    } else if key.loads_from_start {
        Some(TranscriptHistoryState::LoadingBeginning)
    } else {
        Some(TranscriptHistoryState::LoadingOlder)
    }
}

/// What the transcript view says when it opens.
pub fn initial_history_state(scrollback_has_older_history: bool) -> (r: Option<
    TranscriptHistoryState,
>)
    ensures
        r == (if scrollback_has_older_history {
            Some(TranscriptHistoryState::Partial)
        } else {
            None
        }),
{
    if scrollback_has_older_history {
        Some(TranscriptHistoryState::Partial)
    } else {
        None
    }
}

/// What follows after the transcript view was drawn.
#[derive(Clone, Copy, Debug, PartialEq, Eq, Structural)]
pub enum AfterDraw {
    Nothing,
    /// The view closes.
    Close,
    /// It is drawn again after some milliseconds.
    DrawAgain { after_ms: u64 },
}

/// What follows after the transcript view was drawn: it closes when it is done, and goes on
/// moving while something moves at its end.
pub fn after_draw(is_done: bool, animated: bool, at_bottom: bool) -> (r: AfterDraw)
    ensures
        r == (if is_done {
            AfterDraw::Close
        } else if animated && at_bottom {
            AfterDraw::DrawAgain { after_ms: 50 }
        } else {
            AfterDraw::Nothing
        }),
{
    if is_done {
        AfterDraw::Close
    } else if animated && at_bottom {
        AfterDraw::DrawAgain { after_ms: 50 }
    } else {
        AfterDraw::Nothing
    }
}

} // verus!
