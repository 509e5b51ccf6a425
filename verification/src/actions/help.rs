//! The action that shows the help.
use crate::action::{help_actions_text, Action};
use crate::actions::clean::CleanAction;
use crate::actions::config::ConfigAction;
use crate::actions::install::InstallAction;
use crate::actions::list::ListAction;
use crate::actions::reinstall::ReinstallAction;
use crate::actions::remove::RemoveAction;
use crate::actions::update::UpdateAction;
use crate::actions::version::VersionAction;
use crate::options::{help_options_text, Options};
use vstd::prelude::*;
use vstd::string::*;

verus! {

/// The action that shows the help.
#[derive(Debug, Clone, Copy, PartialEq, Eq, Structural)]
pub struct HelpAction;

/// The help of each action.
pub open spec fn help_of(action: Action) -> Seq<char> {
    match action {
        Action::Install => InstallAction::help_text(),
        Action::Reinstall => ReinstallAction::help_text(),
        Action::Update => UpdateAction::help_text(),
        Action::Remove => RemoveAction::help_text(),
        Action::List => ListAction::help_text(),
        Action::Clean => CleanAction::help_text(),
        Action::Config => ConfigAction::help_text(),
        Action::Version => VersionAction::help_text(),
        Action::Help => HelpAction::help_text(),
    }
}

impl HelpAction {
    /// The text of the help of the program: how it is called, its actions,
    /// a blank line, and its arguments.
    pub open spec fn help_text() -> Seq<char> {
        "Usage:
    fin [action] [items]

"@ + help_actions_text() + "\n"@ + help_options_text()
    }

    /// Returns the help of the program.
    pub fn show_help() -> (r: String)
        ensures
            r@ == Self::help_text(),
    {
        let mut out = "Usage:
    fin [action] [items]

".to_owned();
        out.append(Action::help_actions());
        out.append("\n");
        out.append(Options::help_options());
        out
    }

    /// Returns the help of `action`.
    pub fn run(action: &Action) -> (r: String)
        ensures
            r@ == help_of(*action),
    {
        match action {
            Action::Install => InstallAction::show_help(),
            Action::Reinstall => ReinstallAction::show_help(),
            Action::Update => UpdateAction::show_help(),
            Action::Remove => RemoveAction::show_help(),
            Action::List => ListAction::show_help(),
            Action::Clean => CleanAction::show_help(),
            Action::Config => ConfigAction::show_help(),
            Action::Version => VersionAction::show_help(),
            Action::Help => Self::show_help(),
        }
    }
}

} // verus!
