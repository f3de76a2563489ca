//! A container-first terminal view of a Docker engine: the state, the rules and the text
//! processing behind the screen.

use vstd::prelude::*;

pub use config::ThemeName;
pub use model::{ContainerDetails, ContainerRecord, DetailItem, LogEntry, LogFilterMode};
pub use tab::DetailTab;

pub mod ansi;
pub mod app;
pub mod call_laws;
pub mod cli;
pub mod config;
pub mod docker;
pub mod engine_laws;
pub mod json;
pub mod key_laws;
pub mod keys;
pub mod laws;
pub mod layout;
pub mod log_laws;
pub mod logs;
pub mod model;
pub mod model_laws;
pub mod mouse_laws;
pub mod pattern;
pub mod screen_laws;
pub mod state;
pub mod stream;
pub mod tab;
pub mod text;
pub mod text_laws;
pub mod ui;

verus! {

} // verus!
