//! Terminal emulation core of a tabbed terminal application: the screen
//! grid, the escape-sequence state machine, notification rules, git status
//! summaries and the session registries, each with its contract.
use vstd::prelude::*;

pub mod event;
pub mod git;
pub mod notification;
pub mod ssh;
pub mod terminal;
pub mod text;

verus! {
}
