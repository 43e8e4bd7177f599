//! Going back to an earlier prompt of the conversation.

pub mod alignment;
pub mod cells;
pub mod events;
pub mod rollback_steps;
pub mod rollback_target;
pub mod selection;
pub mod state;
pub mod transcript_input;
