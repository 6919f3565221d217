//! The startup file of the user's shell.

use vstd::prelude::*;
use vstd::string::StringExecFns;

use crate::text::same_text;

verus! {

/// The startup file that the shell at path `shell` reads, if the shell is one
/// of the two that are supported.
pub open spec fn profile_name(shell: Seq<char>) -> Option<Seq<char>> {
    if shell == "/bin/zsh"@ {
        Some(".zshenv"@)
    } else if shell == "/bin/bash"@ {
        Some(".bashrc"@)
    } else {
        None
    }
}

/// The name of the startup file for the shell at path `shell`.
pub fn profile_for(shell: &str) -> (file: Option<String>)
    ensures
        file is Some <==> profile_name(shell@) is Some,
        file matches Some(f) ==> Some(f@) == profile_name(shell@),
{
    if same_text(shell, "/bin/zsh") {
        Some(String::from_str(".zshenv"))
    } else if same_text(shell, "/bin/bash") {
        Some(String::from_str(".bashrc"))
    } else {
        None
    }
}

} // verus!
