//! Chatter suppression for failing mechanical keyboard switches.
//!
//! A worn switch reports one physical key stroke as several rapid
//! release/press pairs. This library decides, event by event, which key
//! transitions of an input stream are real and which are chatter.

pub mod config;
pub mod discovery;
pub mod engine;
pub mod event;
pub mod input;
pub mod laws;
pub mod text;
