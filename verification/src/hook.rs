//! Event interceptors.
use vstd::prelude::*;

use crate::event::{Event, EventType};

verus! {

/// When a hook runs.
#[derive(Debug, Clone, PartialEq, Eq)]
pub enum HookType {
    /// Run before any command.
    BeforeCommand,
    /// Run after any command.
    AfterCommand,
    /// Run before only the named command.
    BeforeNamedCommand(String),
    /// Run after only the named command.
    AfterNamedCommand(String),
    /// Run on events whose kind equals the inner value.
    Event(EventType),
    /// Run on every dispatched event, regardless of type.
    All,
}

/// An event interceptor registered by a plugin. Hooks run in ascending
/// priority order (lower runs first).
pub trait Hook: Send + Sync {
    fn name(&self) -> &str;

    fn hook_type(&self) -> HookType;

    fn priority(&self) -> (p: u32)
        default_ensures
            p == 0,
    {
        0
    }

    fn execute(&self, event: &mut Event) -> Result<(), anyhow::Error>;
}

} // verus!
