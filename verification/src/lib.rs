//! The decisions of a bot that buys both sides of fifteen-minute up-or-down markets when their
//! asks add up to little enough.

pub mod book;
pub mod config;
pub mod decimal;
pub mod executor;
pub mod market;
pub mod order;
pub mod pairs;
pub mod resolve;
pub mod sizing;
pub mod slot;
pub mod state;
pub mod text;
pub mod ws;
