//! Texts: characters, numbers, splitting and order.

pub mod chars;
pub mod chunks;
pub mod number;
pub mod order;
pub mod size;
pub mod split;
