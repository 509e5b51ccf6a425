//! The action that installs fonts anew.
use vstd::prelude::*;
use vstd::string::*;

verus! {

/// The action that installs fonts anew.
#[derive(Debug, Clone, Copy, PartialEq, Eq, Structural)]
pub struct ReinstallAction;

impl ReinstallAction {
    /// The text of the help.
    pub open spec fn help_text() -> Seq<char> {
        "Action:
    Reinstall the specified fonts

Usage:
    fin reinstall [font]
"@
    }

    /// Returns the help.
    pub fn show_help() -> (r: String)
        ensures
            r@ == Self::help_text(),
    {
        "Action:
    Reinstall the specified fonts

Usage:
    fin reinstall [font]
".to_owned()
    }
}

} // verus!
