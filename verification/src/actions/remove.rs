//! The action that removes installed fonts.
use vstd::prelude::*;
use vstd::string::*;

verus! {

/// The action that removes installed fonts.
#[derive(Debug, Clone, Copy, PartialEq, Eq, Structural)]
pub struct RemoveAction;

impl RemoveAction {
    /// The text of the help.
    pub open spec fn help_text() -> Seq<char> {
        "Action:
    Remove installed fonts

Usage:
    fin remove [font(s)]
"@
    }

    /// Returns the help.
    pub fn show_help() -> (r: String)
        ensures
            r@ == Self::help_text(),
    {
        "Action:
    Remove installed fonts

Usage:
    fin remove [font(s)]
".to_owned()
    }
}

} // verus!
