//! Push-to-talk dictation: the rules, parsers and state machines behind the menu-bar app.
//!
//! Everything that touches the system (keys, microphone, network, windows, files) is told what
//! to do from here and reports back.

pub mod audio;
pub mod cli;
pub mod config;
pub mod coordinator;
pub mod dictionary;
pub mod events;
pub mod fn_monitor;
pub mod inject;
pub mod keychain;
pub mod link;
pub mod menu;
pub mod microphone;
pub mod overlay;
pub mod safety;
pub mod sys_audio;
pub mod text;
pub mod transcript;
pub mod ws;
