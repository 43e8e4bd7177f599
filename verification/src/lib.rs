//! Session-side logic of a coding agent: file checkpoints, conversation rewind and the
//! terminal screen that shows both.

pub mod backtrack;
pub mod checkpoint;
pub mod compact;
pub mod config_paths;
pub mod data;
pub mod diff_panel;
pub mod environment;
pub mod exec_state;
pub mod file_change;
pub mod geometry;
pub mod layout;
pub mod model_repair;
pub mod order;
pub mod owned_screen;
pub mod paragraph;
pub mod patches;
pub mod permissions;
pub mod providers;
pub mod revert;
pub mod rewind_view;
pub mod safety_buffering;
pub mod scroll;
pub mod status_indicator;
pub mod status_state;
pub mod styled;
pub mod text;
pub mod thread;
pub mod transcript;
pub mod viewport;
pub mod width;
