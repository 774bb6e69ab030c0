//! The Telegram side: commands, buttons, texts and what is answered.

pub mod admin;
pub mod overview;
pub mod recipients;
pub mod routing;
pub mod ui;
pub mod user;

pub use admin::AdminCommand;
pub use routing::approval_request_message;
pub use user::UserCommand;
