//! The action that shows, writes or deletes the configuration file.
use crate::text::{same_text, texts_of};
use vstd::prelude::*;
use vstd::string::*;

verus! {

/// The action that shows, writes or deletes the configuration file.
#[derive(Debug, Clone, Copy, PartialEq, Eq, Structural)]
pub struct ConfigAction;

impl ConfigAction {
    /// The text of the help.
    pub open spec fn help_text() -> Seq<char> {
        "Action:
    Manage the configuration file

Usage:
    fin config [item]

Items:
    show                  Show the current configuration
    default               Write the default configuration
    delete                Delete the configuration file
    help                  Show this help message
"@
    }

    /// Returns the help.
    pub fn show_help() -> (r: String)
        ensures
            r@ == Self::help_text(),
    {
        "Action:
    Manage the configuration file

Usage:
    fin config [item]

Items:
    show                  Show the current configuration
    default               Write the default configuration
    delete                Delete the configuration file
    help                  Show this help message
".to_owned()
    }
}

/// What there is to do with the configuration file.
#[derive(Debug, Clone, Copy, PartialEq, Eq, Structural)]
pub enum ConfigTask {
    /// Show the file.
    Show,
    /// Write the default configuration.
    WriteDefault,
    /// Delete the file.
    Delete,
    /// Show the help.
    Help,
    /// Show the help: what is asked for is not known.
    Unknown,
}

/// What the first item of the command line asks to do with the configuration
/// file; without items, to show the help.
pub open spec fn config_task(items: Seq<Seq<char>>) -> ConfigTask {
    if items.len() == 0 {
        ConfigTask::Help
    } else if items[0] == "show"@ {
        ConfigTask::Show
    } else if items[0] == "default"@ {
        ConfigTask::WriteDefault
    } else if items[0] == "delete"@ {
        ConfigTask::Delete
    } else if items[0] == "help"@ {
        ConfigTask::Help
    } else {
        ConfigTask::Unknown
    }
}

impl ConfigAction {
    /// Decides what to do with the configuration file.
    pub fn run(items: &[String]) -> (r: ConfigTask)
        ensures
            r == config_task(texts_of(items@)),
    {
        if items.len() == 0 {
            return ConfigTask::Help;
        }
        let item = items[0].as_str();
        assert(texts_of(items@)[0] == item@);
        if same_text(item, "show") {
            ConfigTask::Show
        } else if same_text(item, "default") {
            ConfigTask::WriteDefault
        } else if same_text(item, "delete") {
            ConfigTask::Delete
        } else if same_text(item, "help") {
            ConfigTask::Help
        } else {
            ConfigTask::Unknown
        }
    }
}

} // verus!
