//! The panel that shows the uncommitted changes beside the conversation.

pub mod drawing;
pub mod panel;
pub mod parser;
pub mod render;
