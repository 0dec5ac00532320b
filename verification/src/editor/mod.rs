//! The editor's logic: cursor, selection and commands, the text it shows, and the
//! requests it sends to the audio engine and the plugin host.
pub mod position;
pub mod ui_command;
pub mod app_state;
pub mod app_commands;
pub mod command;
pub mod select;
pub mod eval;
pub mod admissible;
pub mod cell_view;
pub mod choice;
pub mod shortcut;
