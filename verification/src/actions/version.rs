//! The action that shows the version of the program.
use vstd::prelude::*;
use vstd::string::*;

verus! {

/// The version of the program.
pub const VERSION: &'static str = "0.2.0";

/// The action that shows the version of the program.
#[derive(Debug, Clone, Copy, PartialEq, Eq, Structural)]
pub struct VersionAction;

impl VersionAction {
    /// The text of the help.
    pub open spec fn help_text() -> Seq<char> {
        "Action:
    Show the current version number

Usage:
    fin version
"@
    }

    /// Returns the help.
    pub fn show_help() -> (r: String)
        ensures
            r@ == Self::help_text(),
    {
        "Action:
    Show the current version number

Usage:
    fin version
".to_owned()
    }

    /// Returns the version of the program.
    pub fn run() -> (r: &'static str)
        ensures
            r@ == VERSION@,
    {
        VERSION
    }
}

} // verus!
