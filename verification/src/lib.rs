//! Verified core of the LATTICE command-line client: sessions, configuration,
//! command helpers, the coding-agent prompt and event rendering, and the
//! terminal UI's state machine and text layout.

pub mod agent;
pub mod app;
pub mod chat;
pub mod coding;
pub mod commands;
pub mod config;
pub mod events;
pub mod filediff;
pub mod listing;
pub mod layout;
pub mod markdown;
pub mod mdrender;
pub mod mdtable;
pub mod message;
pub mod pointer;
pub mod session;
pub mod text;
pub mod validation;
pub mod widgets;

use vstd::prelude::*;

verus! {

} // verus!
