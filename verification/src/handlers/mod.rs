//! The text-command interface: commands typed by hand, and what they are answered.

pub mod approval;
pub mod command;
pub mod messages;
pub mod requests;
