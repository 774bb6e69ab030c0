//! The Mini App: who asks, and what is answered.

pub mod api;
pub mod auth;
pub mod page;
