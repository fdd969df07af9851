//! What the example plugin answers.
//!
//! The plugin knows two commands: its own name, and `echo` followed by a
//! space and any text. To everything else it says nothing.

use vstd::prelude::*;
use vstd::string::*;
use crate::text::{has_prefix, same_text, starts_with};

verus! {

/// The line that the plugin writes when it is asked for its handler.
pub const ANNOUNCEMENT: &'static str = "Running plugin1";

/// The answer to `command`, if the plugin has one.
pub open spec fn reply_of(command: Seq<char>) -> Option<Seq<char>> {
    if command == "plugin1"@ {
        Some("Hey you triggered my 'plugin1' command!"@)
    } else if has_prefix(command, "echo "@) {
        Some("Echo-ing what you said: "@ + command)
    } else {
        None
    }
}

/// The line that the plugin writes on `command`, or `None` where it writes
/// nothing.
pub fn reply(command: &str) -> (r: Option<String>)
    ensures
        (match reply_of(command@) {
            Some(text) => r matches Some(line) && line@ == text,
            None => r is None,
        }),
{
    if same_text(command, "plugin1") {
        Some(String::from_str("Hey you triggered my 'plugin1' command!"))
    } else if starts_with(command, "echo ") {
        let mut line = String::from_str("Echo-ing what you said: ");
        line.append(command);
        Some(line)
    } else {
        None
    }
}

/// The plugin answers its own name and every command that begins with
/// `echo` and a space, and nothing else.
pub proof fn law_reply_exists(command: Seq<char>)
    ensures
        reply_of(command) is Some <==> command == "plugin1"@ || has_prefix(command, "echo "@),
{
}

/// The plugin has no answer to the exit keyword.
pub proof fn law_exit_is_unanswered()
    ensures
        reply_of(crate::session::sentinel()) is None,
{
    reveal_strlit("exit");
    reveal_strlit("plugin1");
    reveal_strlit("echo ");
    assert("exit"@.len() == 4);
    assert("plugin1"@.len() == 7);
    assert("echo "@.len() == 5);
}

} // verus!
