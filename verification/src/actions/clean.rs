//! The action that removes what the program keeps in its cache.
use crate::error::Error;
use crate::text::{same_text, texts_of};
use vstd::prelude::*;
use vstd::string::*;

verus! {

/// The action that removes what the program keeps in its cache.
#[derive(Debug, Clone, Copy, PartialEq, Eq, Structural)]
pub struct CleanAction;

impl CleanAction {
    /// The text of the help.
    pub open spec fn help_text() -> Seq<char> {
        "Action:
    Remove temporary cache files

Usage:
    fin clean [item(s)]

Items:
    all                   Remove all cache
    pages                 Remove cached pages
    staging               Remove the staging directory
    state                 Clear the install state lock
    help                  Show this help message
"@
    }

    /// Returns the help.
    pub fn show_help() -> (r: String)
        ensures
            r@ == Self::help_text(),
    {
        "Action:
    Remove temporary cache files

Usage:
    fin clean [item(s)]

Items:
    all                   Remove all cache
    pages                 Remove cached pages
    staging               Remove the staging directory
    state                 Clear the install state lock
    help                  Show this help message
".to_owned()
    }
}

/// What there is to clean.
#[derive(Debug, Clone, Copy, PartialEq, Eq, Structural)]
pub enum CleanTarget {
    /// The whole cache.
    All,
    /// The cached webpages.
    Pages,
    /// The staging directory.
    Staging,
    /// The lock.
    State,
    /// Nothing: the help is asked for.
    Help,
    /// Nothing: what is to be cleaned is not known.
    Unknown,
}

/// What an item of the command line asks to clean.
pub open spec fn clean_target(item: Seq<char>) -> CleanTarget {
    if item == "all"@ {
        CleanTarget::All
    } else if item == "pages"@ {
        CleanTarget::Pages
    } else if item == "staging"@ {
        CleanTarget::Staging
    } else if item == "state"@ {
        CleanTarget::State
    } else if item == "help"@ {
        CleanTarget::Help
    } else {
        CleanTarget::Unknown
    }
}

/// What the items of the command line ask to clean, in order; without items,
/// the whole cache.
pub open spec fn clean_targets(items: Seq<Seq<char>>) -> Seq<CleanTarget> {
    if items.len() == 0 {
        seq![CleanTarget::All]
    } else {
        Seq::new(items.len(), |i: int| clean_target(items[i]))
    }
}

impl CleanAction {
    /// Decides what to clean. While another run holds the lock nothing is
    /// cleaned, unless it is done by force.
    pub fn run(items: &[String], locked: bool, force: bool) -> (r: Result<Vec<CleanTarget>, Error>)
        ensures
            if locked && !force {
                r matches Err(error) && error == Error::Locked
            } else {
                r matches Ok(targets) && targets@ == clean_targets(texts_of(items@))
            },
    {
        if locked && !force {
            return Err(Error::Locked);
        }
        let mut targets: Vec<CleanTarget> = Vec::new();
        if items.len() == 0 {
            targets.push(CleanTarget::All);
            assert(targets@ =~= clean_targets(texts_of(items@)));
            return Ok(targets);
        }
        let mut i: usize = 0;
        while i < items.len()
            invariant
                0 <= i <= items@.len(),
                targets@.len() == i,
                forall|j: int| 0 <= j < i ==> targets@[j] == clean_target(items@[j]@),
            decreases items@.len() - i,
        {
            let item = items[i].as_str();
            let target = if same_text(item, "all") {
                CleanTarget::All
            } else if same_text(item, "pages") {
                CleanTarget::Pages
            } else if same_text(item, "staging") {
                CleanTarget::Staging
            } else if same_text(item, "state") {
                CleanTarget::State
            } else if same_text(item, "help") {
                CleanTarget::Help
            } else {
                CleanTarget::Unknown
            };
            targets.push(target);
            i += 1;
        }
        assert(targets@ =~= clean_targets(texts_of(items@)));
        Ok(targets)
    }
}

} // verus!
