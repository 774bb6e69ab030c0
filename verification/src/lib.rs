//! Logic of a Telegram bot that hands out VPN subscriptions from a 3X-UI panel.

pub mod access;
pub mod bot;
pub mod config;
pub mod handlers;
pub mod health;
pub mod json;
pub mod latency;
pub mod outside;
pub mod panel;
pub mod qr;
pub mod state;
pub mod storage;
pub mod text;
pub mod web;
pub mod xui;
