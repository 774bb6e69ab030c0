//! The 3x-ui panel: its replies, its endpoints and the links in it.

pub mod add;
pub mod candidates;
pub mod delete;
pub mod endpoints;
pub mod find;
pub mod links;
pub mod login;
pub mod models;
pub mod subscriptions;

pub use endpoints::{XuiClient, XuiConfig};
pub use models::{CreatedClientResult, ExistingSubscription};
