//! The identity the running bot presents to plugins.
use vstd::prelude::*;

verus! {

/// Identity snapshot of the running bot: its display name.
#[derive(Debug, Clone)]
pub struct BotInfo {
    pub name: String,
}

impl BotInfo {
    /// The identity of a bot named `name`.
    pub fn new(name: &str) -> (b: BotInfo)
        ensures
            b.name@ == name@,
    {
        BotInfo { name: crate::text::owned(name) }
    }
}

} // verus!
