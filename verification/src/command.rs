//! Command handlers and their metadata.
use vstd::prelude::*;

use crate::event::Event;

verus! {

/// Context passed to a [`CommandHandler::execute`] call.
pub struct CommandContext<'a> {
    pub event: &'a Event,
    /// The portion of the message after the command name.
    pub args: &'a str,
}

/// How a command is exposed in clients that support a command menu, and how
/// the runtime gates its dispatch.
///
/// - `Public`: visible to everyone; dispatched to anyone.
/// - `Admin`: visible only to configured admins; invocations from
///   non-admins are silently ignored (see [`may_dispatch`]).
/// - `Hidden`: never advertised in a command menu; still dispatchable.
#[derive(Clone, Copy, Debug, PartialEq, Eq)]
pub enum CommandVisibility {
    Public,
    Admin,
    Hidden,
}

impl Default for CommandVisibility {
    fn default() -> (v: CommandVisibility)
        ensures
            v == CommandVisibility::Public,
    {
        CommandVisibility::Public
    }
}

/// Whether an invocation carried by `event` of a command with visibility `v`
/// runs: an `Admin` command runs only for a message from an administrator.
pub open spec fn invocation_allowed(v: CommandVisibility, event: Event) -> bool {
    v is Admin ==> (event.message matches Some(m) && m.is_admin)
}

/// Decides whether a command invocation is dispatched (see [`invocation_allowed`]).
pub fn may_dispatch(visibility: CommandVisibility, event: &Event) -> (r: bool)
    ensures
        r == invocation_allowed(visibility, *event),
{
    match visibility {
        CommandVisibility::Admin => match &event.message {
            Some(m) => m.is_admin,
            None => false,
        },
        _ => true,
    }
}

/// A snapshot of a registered command's metadata. Adapters use it to populate
/// a platform command menu without reaching into the live handler.
#[derive(Clone, Debug)]
pub struct CommandSpec {
    pub name: String,
    pub aliases: Vec<String>,
    pub description: String,
    pub visibility: CommandVisibility,
}

/// A handler for a command invocation, registered by a plugin. The bot
/// resolves incoming command events against the registered handlers (by
/// canonical name or alias) and dispatches each event to a single handler.
pub trait CommandHandler: Send + Sync {
    fn name(&self) -> &str;

    fn aliases(&self) -> (r: Vec<&str>)
        default_ensures
            r@.len() == 0,
    {
        Vec::new()
    }

    /// Human-readable one-line description shown in a client command menu.
    /// Defaults to empty.
    fn description(&self) -> (r: &str)
        default_ensures
            r@ == Seq::<char>::empty(),
    {
        proof {
            reveal_strlit("");
        }
        ""
    }

    /// Visibility / gating classification; defaults to `Public`.
    fn visibility(&self) -> (r: CommandVisibility)
        default_ensures
            r == CommandVisibility::Public,
    {
        CommandVisibility::Public
    }

    fn execute(&self, ctx: &CommandContext) -> Result<(), anyhow::Error>;
}

} // verus!
