//! Decision logic of a small host monitor: it tails an authentication log,
//! tracks the health of storage pools, and decides which notifications to send.

pub mod config;
pub mod decimal;
pub mod detect;
pub mod health;
pub mod ipv4;
pub mod message;
pub mod notifier;
pub mod tail;
pub mod telegram;
pub mod text;
