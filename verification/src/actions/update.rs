//! The action that installs what has changed.
use vstd::prelude::*;
use vstd::string::*;

verus! {

/// The action that installs what has changed.
#[derive(Debug, Clone, Copy, PartialEq, Eq, Structural)]
pub struct UpdateAction;

impl UpdateAction {
    /// The text of the help.
    pub open spec fn help_text() -> Seq<char> {
        "Action:
    Check for updates and install them
    Updates all fonts when unspecified

Usage:
    fin update
    fin update [font]
"@
    }

    /// Returns the help.
    pub fn show_help() -> (r: String)
        ensures
            r@ == Self::help_text(),
    {
        "Action:
    Check for updates and install them
    Updates all fonts when unspecified

Usage:
    fin update
    fin update [font]
".to_owned()
    }
}

} // verus!
