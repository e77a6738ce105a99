//! Core model of the Shinobu plugin-based chat bot framework.
use vstd::prelude::*;

pub mod bot;
pub mod build_tool;
pub mod clock;
pub mod command;
pub mod config;
pub mod error;
pub mod event;
pub mod example;
pub mod hook;
pub mod keyed;
pub mod logger;
pub mod paths;
pub mod plugin;
pub mod registry;
pub mod session;
pub mod session_store;
pub mod sql;
pub mod status;
pub mod stdin;
pub mod message_handler;
pub mod text;

verus! {
} // verus!
