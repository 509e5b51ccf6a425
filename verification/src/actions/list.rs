//! The action that lists fonts.
use vstd::prelude::*;
use vstd::string::*;

verus! {

/// The action that lists fonts.
#[derive(Debug, Clone, Copy, PartialEq, Eq, Structural)]
pub struct ListAction;

impl ListAction {
    /// The text of the help.
    pub open spec fn help_text() -> Seq<char> {
        "Action:
    List installed or available fonts
    Lists all when unspecified

Usage:
    fin list
    fin list [item]

Items:
    installed             List installed fonts
    available             List available installers
    all                   List all fonts
"@
    }

    /// Returns the help.
    pub fn show_help() -> (r: String)
        ensures
            r@ == Self::help_text(),
    {
        "Action:
    List installed or available fonts
    Lists all when unspecified

Usage:
    fin list
    fin list [item]

Items:
    installed             List installed fonts
    available             List available installers
    all                   List all fonts
".to_owned()
    }
}

/// How a font is listed.
#[derive(Debug, Clone, Copy, PartialEq, Eq, Structural)]
pub enum Listed {
    /// The font is installed, and all is well.
    Installed,
    /// The font is installed, and its directory is gone.
    MissingDirectory,
    /// The font is installed, and its descriptor is gone.
    MissingInstaller,
    /// The font is not installed.
    Available,
}

/// How a font is listed, and whether its directory is shown with it. The
/// directory of an installed font is shown where the output is verbose; where
/// only lists are verbose it is shown for a font that has its descriptor.
pub open spec fn listed_as(
    installed: bool,
    has_installer: bool,
    directory_exists: bool,
    verbose: bool,
    verbose_list: bool,
) -> (Listed, bool) {
    if !installed {
        (Listed::Available, false)
    } else if !has_installer {
        (Listed::MissingInstaller, verbose)
    } else if directory_exists {
        (Listed::Installed, verbose || verbose_list)
    } else {
        (Listed::MissingDirectory, verbose || verbose_list)
    }
}

impl ListAction {
    /// Decides how a font is listed, and whether its directory is shown with
    /// it.
    pub fn run(
        installed: bool,
        has_installer: bool,
        directory_exists: bool,
        verbose: bool,
        verbose_list: bool,
    ) -> (r: (Listed, bool))
        ensures
            r == listed_as(installed, has_installer, directory_exists, verbose, verbose_list),
    {
        if !installed {
            (Listed::Available, false)
        } else if !has_installer {
            (Listed::MissingInstaller, verbose)
        } else if directory_exists {
            (Listed::Installed, verbose || verbose_list)
        } else {
            (Listed::MissingDirectory, verbose || verbose_list)
        }
    }
}

} // verus!
