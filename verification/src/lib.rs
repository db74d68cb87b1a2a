//! The core of a leader-key launcher: while the leader key is held, the
//! press of a bound key starts the command bound to it.
//!
//! - [`keys`] is the key symbol table: keys, modifiers and their labels.
//! - [`bindings`] holds the bindings and the table that finds them by
//!   label; [`config`] the configuration they come from.
//! - [`chord`] is the state machine that turns key edges into decisions.
//! - [`registration`] serves the adapters that let the operating system
//!   match the chords: hotkey requests, and the map from the hotkeys that
//!   were accepted to their bindings.
//! - [`dispatch`] names the binding to launch and the outcome of a launch.
//!
//! Reading keys and files, asking the operating system for hotkeys and
//! starting processes are left to the program around this library.

pub mod bindings;
pub mod chord;
pub mod config;
pub mod dispatch;
pub mod keys;
pub mod registration;
pub mod text;
