//! The action that installs fonts.
use vstd::prelude::*;
use vstd::string::*;

verus! {

/// The action that installs fonts.
#[derive(Debug, Clone, Copy, PartialEq, Eq, Structural)]
pub struct InstallAction;

impl InstallAction {
    /// The text of the help.
    pub open spec fn help_text() -> Seq<char> {
        "Action:
    Install the specified fonts

Usage:
    fin install [font]
    fin install [font]:[tag]
"@
    }

    /// Returns the help.
    pub fn show_help() -> (r: String)
        ensures
            r@ == Self::help_text(),
    {
        "Action:
    Install the specified fonts

Usage:
    fin install [font]
    fin install [font]:[tag]
".to_owned()
    }
}

} // verus!
