//! How a session's end is reported: the exit status, and the message that
//! tells the operator what failed at startup.

use vstd::prelude::*;
use vstd::string::*;
use crate::contract::ENTRY_SYMBOL;
use crate::host::{InvocationError, LoadError};

verus! {

/// How a session ended.
#[derive(Clone, Copy, PartialEq, Eq, Debug, Structural)]
pub enum Ending {
    /// The exit keyword came, or the input ended.
    Clean,
    /// The plugin was not loaded, so no session began.
    NotLoaded(LoadError),
    /// The plugin was loaded but gave no handler, so no session began.
    NoHandler(InvocationError),
}

/// The exit status that stands for `ending`.
pub open spec fn status_of(ending: Ending) -> u8 {
    match ending {
        Ending::Clean => 0,
        Ending::NotLoaded(LoadError::NotFound) => 2,
        Ending::NotLoaded(LoadError::IncompatibleAbi) => 3,
        Ending::NotLoaded(LoadError::OsLoaderFailure) => 4,
        Ending::NoHandler(InvocationError::PluginConstructionFailed) => 5,
    }
}

/// What is wrong with the plugin, in words, for `ending`; empty for a clean
/// end.
pub open spec fn complaint_of(ending: Ending) -> Seq<char> {
    match ending {
        Ending::Clean => Seq::empty(),
        Ending::NotLoaded(LoadError::NotFound) => "no readable file at that path"@,
        Ending::NotLoaded(LoadError::IncompatibleAbi) => "the library does not export "@
            + ENTRY_SYMBOL@,
        Ending::NotLoaded(LoadError::OsLoaderFailure) => "the system loader refused the file"@,
        Ending::NoHandler(InvocationError::PluginConstructionFailed) => ENTRY_SYMBOL@
            + " returned no handler"@,
    }
}

/// The message for `ending` of a session with the plugin at `path`; empty
/// for a clean end.
pub open spec fn message_of(ending: Ending, path: Seq<char>) -> Seq<char> {
    match ending {
        Ending::Clean => Seq::empty(),
        _ => "plugin "@ + path + ": "@ + complaint_of(ending),
    }
}

/// The exit status of a process whose session ended as `ending` says: zero
/// for a clean end, and a number of its own for each failure.
pub fn exit_status(ending: Ending) -> (status: u8)
    ensures
        status == status_of(ending),
{
    match ending {
        Ending::Clean => 0,
        Ending::NotLoaded(LoadError::NotFound) => 2,
        Ending::NotLoaded(LoadError::IncompatibleAbi) => 3,
        Ending::NotLoaded(LoadError::OsLoaderFailure) => 4,
        Ending::NoHandler(InvocationError::PluginConstructionFailed) => 5,
    }
}

/// The message that tells the operator why no session began with the plugin
/// at `path`. It names the path, and the export where the export is at
/// fault.
pub fn message(ending: Ending, path: &str) -> (text: String)
    ensures
        text@ == message_of(ending, path@),
{
    match ending {
        Ending::Clean => String::new(),
        _ => {
            let mut text = String::from_str("plugin ");
            text.append(path);
            text.append(": ");
            match ending {
                Ending::Clean => {},
                Ending::NotLoaded(LoadError::NotFound) => {
                    text.append("no readable file at that path");
                },
                Ending::NotLoaded(LoadError::IncompatibleAbi) => {
                    text.append("the library does not export ");
                    text.append(ENTRY_SYMBOL);
                },
                Ending::NotLoaded(LoadError::OsLoaderFailure) => {
                    text.append("the system loader refused the file");
                },
                Ending::NoHandler(InvocationError::PluginConstructionFailed) => {
                    text.append(ENTRY_SYMBOL);
                    text.append(" returned no handler");
                },
            }
            proof {
                assert(text@ =~= message_of(ending, path@));
            }
            text
        },
    }
}

/// The exit status is zero for a clean end and for nothing else, and no two
/// endings share a status.
pub proof fn law_status_tells_endings_apart(a: Ending, b: Ending)
    ensures
        status_of(a) == 0 <==> a == Ending::Clean,
        status_of(a) == status_of(b) <==> a == b,
{
}

} // verus!
