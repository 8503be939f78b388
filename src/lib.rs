//! Grade-change notifier for an academic portal: semester codes, transcript
//! handling, change detection, grade state and the daemon's cycle decisions.

pub mod semester;
pub mod grades;
pub mod state;
pub mod portal;
pub mod cycle;
pub mod notify;
pub mod config;
pub mod menu;
