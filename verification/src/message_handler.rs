//! Handlers for non-command messages.
use vstd::prelude::*;

use crate::event::Event;

verus! {

/// A handler for non-command messages. The bot dispatches message events to
/// all registered handlers in ascending priority order.
pub trait MessageHandler: Send + Sync {
    fn name(&self) -> &str;

    fn priority(&self) -> (p: u32)
        default_ensures
            p == 0,
    {
        0
    }

    fn handle(&self, event: &Event) -> Result<(), anyhow::Error>;
}

} // verus!
