//! Errors of the plugin lifecycle.
use vstd::prelude::*;

verus! {

/// The error type that command, hook and message-handler bodies return.
#[verifier::external_type_specification]
#[verifier::external_body]
pub struct ExAnyhowError(anyhow::Error);

/// Errors that can occur during plugin lifecycle operations.
#[derive(Debug, Clone, Copy, PartialEq, Eq)]
pub enum PluginError {
    /// Failed to load the plugin shared library.
    LoadError,
    /// Failed to unload the plugin.
    UnloadError,
    /// The loaded library is not a valid plugin.
    InvalidPlugin,
    /// The plugin's internal ABI version does not match the exported version.
    BrokenAbi,
    /// The plugin's ABI version is incompatible with the host.
    UnsupportedAbi,
    /// A plugin with the same name is already loaded.
    DuplicatePlugin,
    /// The plugin registered a component whose name is already taken.
    ComponentConflict,
}

impl PluginError {
    /// The human-readable description of each error.
    pub open spec fn spec_message(self) -> Seq<char> {
        match self {
            PluginError::LoadError => "failed to load plugin"@,
            PluginError::UnloadError => "failed to unload plugin"@,
            PluginError::InvalidPlugin => "invalid plugin"@,
            PluginError::BrokenAbi => "broken plugin ABI"@,
            PluginError::UnsupportedAbi => "unsupported plugin ABI"@,
            PluginError::DuplicatePlugin => "a plugin with this name is already loaded"@,
            PluginError::ComponentConflict => "plugin component name conflict"@,
        }
    }

    /// The human-readable description of the error (what `Display` writes).
    pub fn message(&self) -> (s: &'static str)
        ensures
            s@ == self.spec_message(),
    {
        match self {
            PluginError::LoadError => "failed to load plugin",
            PluginError::UnloadError => "failed to unload plugin",
            PluginError::InvalidPlugin => "invalid plugin",
            PluginError::BrokenAbi => "broken plugin ABI",
            PluginError::UnsupportedAbi => "unsupported plugin ABI",
            PluginError::DuplicatePlugin => "a plugin with this name is already loaded",
            PluginError::ComponentConflict => "plugin component name conflict",
        }
    }

    /// The description as an owned string.
    pub fn to_string(&self) -> (s: String)
        ensures
            s@ == self.spec_message(),
    {
        crate::text::owned(self.message())
    }
}

} // verus!
