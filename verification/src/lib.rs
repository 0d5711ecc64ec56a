//! Verified core of the f:ist file manager: queue and stash bookkeeping,
//! toast lines, execution-mode transport, shell-integration text helpers
//! and the other decision logic that the interactive front end drives.

pub mod chars;
pub mod collections;
pub mod menu;
pub mod osc52;
pub mod pager;
pub mod paths;
pub mod run;
pub mod seqs;
pub mod shell;
pub mod text;
