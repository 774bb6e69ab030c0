//! The panel: what it knows of clients, and how it is asked.

pub mod call;
pub mod client;
pub mod login;
pub mod models;

pub use client::{NewClient, Panel};
pub use login::normalize_login;
pub use models::{Client, Inbound, ServerStatus};
