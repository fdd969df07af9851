//! The calling contract between the host and a plugin.
//!
//! A plugin is a shared library with one mandatory export, named
//! [`ENTRY_SYMBOL`]. The export takes no arguments and returns a handle to a
//! command handler, which the host owns from then on. The host can check the
//! export by name only: that the function behind the name has the expected
//! signature is taken on trust.

use vstd::prelude::*;

verus! {

/// The name of the export that every plugin provides.
pub const ENTRY_SYMBOL: &'static str = "get_plugin";

/// A command handler. A plugin implements it; the host calls it once for
/// every command of a session, one call at a time.
pub trait Plugin {
    /// Handles one command. What it does is the plugin's business: it returns
    /// nothing, and a failure in it is not the host's to catch.
    fn handle_command(&self, command: &str);
}

} // verus!
