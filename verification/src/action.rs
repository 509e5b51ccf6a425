//! What the program can be asked to do.
use crate::error::Error;
use crate::text::same_text;
use vstd::prelude::*;
use vstd::string::*;

verus! {

/// What the program can be asked to do.
#[derive(Debug, Clone, Copy, PartialEq, Eq, Structural)]
pub enum Action {
    Install,
    Reinstall,
    Update,
    Remove,
    List,
    Clean,
    Config,
    Version,
    Help,
}

/// The list of the actions, as the help shows it.
pub open spec fn help_actions_text() -> Seq<char> {
    "Actions:
    install               Install new fonts
    reinstall             Reinstall fonts
    update                Update installed fonts
    remove                Remove installed fonts
    list                  List installed or available fonts
    clean                 Remove temporary cache files
    config                Manage the configuration file
    version               Show the current version number
    help                  Show help for any action
"@
}

/// The action that a word of the command line names, if it names one.
pub open spec fn action_named(word: Seq<char>) -> Option<Action> {
    if word == "install"@ || word == "get"@ {
        Some(Action::Install)
    } else if word == "reinstall"@ {
        Some(Action::Reinstall)
    } else if word == "update"@ || word == "upgrade"@ || word == "up"@ {
        Some(Action::Update)
    } else if word == "remove"@ || word == "uninstall"@ || word == "rm"@ {
        Some(Action::Remove)
    } else if word == "list"@ || word == "ls"@ {
        Some(Action::List)
    } else if word == "clean"@ || word == "clear"@ {
        Some(Action::Clean)
    } else if word == "config"@ || word == "cfg"@ {
        Some(Action::Config)
    } else if word == "version"@ || word == "ver"@ || word == "v"@ {
        Some(Action::Version)
    } else if word == "help"@ || word == "h"@ {
        Some(Action::Help)
    } else {
        None
    }
}

/// The word that a run leaves in the lock while it does `action`: what it is
/// doing. An action that changes nothing that is installed leaves none.
pub open spec fn lock_word(action: Action) -> Option<Seq<char>> {
    match action {
        Action::Install => Some("installing"@),
        Action::Reinstall => Some("reinstalling"@),
        Action::Update => Some("updating"@),
        Action::Remove => Some("removing"@),
        _ => None,
    }
}

/// Whether `action` is refused while another run holds the lock: an action
/// that leaves a word in the lock always is, and cleaning is unless it is
/// done by force.
pub open spec fn refused_when_locked(action: Action, force: bool) -> bool {
    lock_word(action) is Some || (action == Action::Clean && !force)
}

/// What the program says where an action finds nothing to do.
pub open spec fn idle_message(action: Action) -> Seq<char> {
    match action {
        Action::Install => "Nothing new to install"@,
        Action::Reinstall => "Nothing to reinstall"@,
        Action::Update => "No updates found"@,
        Action::Remove => "Nothing to remove"@,
        _ => ""@,
    }
}

impl Action {
    /// Whether the action needs a valid configuration: it does if it changes
    /// what is installed.
    pub fn needs_valid_config(&self) -> (r: bool)
        ensures
            r == (lock_word(*self) is Some),
    {
        self.lock_action().is_some()
    }

    /// Returns what the program says where the action finds nothing to do.
    pub fn nothing_to_do(&self) -> (r: &'static str)
        ensures
            r@ == idle_message(*self),
    {
        match self {
            Action::Install => "Nothing new to install",
            Action::Reinstall => "Nothing to reinstall",
            Action::Update => "No updates found",
            Action::Remove => "Nothing to remove",
            _ => "",
        }
    }

    /// Returns the word that a run leaves in the lock while it does the
    /// action.
    pub fn lock_action(&self) -> (r: Option<&'static str>)
        ensures
            match r {
                Some(word) => lock_word(*self) == Some(word@),
                None => lock_word(*self) is None,
            },
    {
        match self {
            Action::Install => Some("installing"),
            Action::Reinstall => Some("reinstalling"),
            Action::Update => Some("updating"),
            Action::Remove => Some("removing"),
            _ => None,
        }
    }

    /// Decides whether the action may begin. `lock_state` is what the lock
    /// says, if another run holds it. An action that may begin gets the word
    /// to leave in the lock, if it leaves one.
    pub fn begin(&self, lock_state: Option<&str>, force: bool) -> (r: Result<
        Option<&'static str>,
        Error,
    >)
        ensures
            if lock_state is Some && refused_when_locked(*self, force) {
                r matches Err(error) && error == Error::Locked
            } else {
                r matches Ok(word) && match word {
                    Some(word) => lock_word(*self) == Some(word@),
                    None => lock_word(*self) is None,
                }
            },
    {
        let word = self.lock_action();
        let cleans = match self {
            Action::Clean => true,
            _ => false,
        };
        if lock_state.is_some() && (word.is_some() || (cleans && !force)) {
            Err(Error::Locked)
        } else {
            Ok(word)
        }
    }

    /// Returns the list of the actions, as the help shows it.
    #[must_use]
    pub fn help_actions() -> (r: &'static str)
        ensures
            r@ == help_actions_text(),
    {
        "Actions:
    install               Install new fonts
    reinstall             Reinstall fonts
    update                Update installed fonts
    remove                Remove installed fonts
    list                  List installed or available fonts
    clean                 Remove temporary cache files
    config                Manage the configuration file
    version               Show the current version number
    help                  Show help for any action
"
    }

    /// Reads the action from the first word of the command line. Without a
    /// word the action is to show the help.
    pub fn parse(action: Option<&String>) -> (r: Result<Self, Error>)
        ensures
            match action {
                Some(word) => match action_named(word@) {
                    Some(named) => r == Ok::<Action, Error>(named),
                    None => r == Err::<Action, Error>(Error::UnrecognizedAction),
                },
                None => r == Ok::<Action, Error>(Action::Help),
            },
    {
        match action {
            Some(word) => {
                let word = word.as_str();
                if same_text(word, "install") || same_text(word, "get") {
                    Ok(Action::Install)
                } else if same_text(word, "reinstall") {
                    Ok(Action::Reinstall)
                } else if same_text(word, "update") || same_text(word, "upgrade") || same_text(
                    word,
                    "up",
                ) {
                    Ok(Action::Update)
                } else if same_text(word, "remove") || same_text(word, "uninstall") || same_text(
                    word,
                    "rm",
                ) {
                    Ok(Action::Remove)
                } else if same_text(word, "list") || same_text(word, "ls") {
                    Ok(Action::List)
                } else if same_text(word, "clean") || same_text(word, "clear") {
                    Ok(Action::Clean)
                } else if same_text(word, "config") || same_text(word, "cfg") {
                    Ok(Action::Config)
                } else if same_text(word, "version") || same_text(word, "ver") || same_text(
                    word,
                    "v",
                ) {
                    Ok(Action::Version)
                } else if same_text(word, "help") || same_text(word, "h") {
                    Ok(Action::Help)
                } else {
                    Err(Error::UnrecognizedAction)
                }
            },
            None => Ok(Action::Help),
        }
    }
}

} // verus!
