//! The command line: an action, flags and items.
use crate::action::{action_named, Action};
use crate::actions::help::HelpAction;
use crate::config::{Config, ConfigView};
use crate::error::Error;
use crate::options::{first_settings, flags_applied, Options};
use crate::text::{replace_text, replaced, texts_of};
use vstd::prelude::*;
use vstd::string::*;

verus! {

/// What the command line asks for.
#[derive(Debug)]
pub struct Args {
    pub action: Action,
    pub config: Config,
    pub options: Options,
}

/// Whether a word of the command line is a flag: it begins with `-`.
pub open spec fn is_flag(word: Seq<char>) -> bool {
    word.len() > 0 && word[0] == '-'
}

/// The flags among `words`, in order.
pub open spec fn flags_in(words: Seq<Seq<char>>) -> Seq<Seq<char>>
    decreases words.len(),
{
    if words.len() == 0 {
        Seq::empty()
    } else if is_flag(words.last()) {
        flags_in(words.drop_last()).push(words.last())
    } else {
        flags_in(words.drop_last())
    }
}

/// The items among `words`, in order: the words that are no flags.
pub open spec fn items_in(words: Seq<Seq<char>>) -> Seq<Seq<char>>
    decreases words.len(),
{
    if words.len() == 0 {
        Seq::empty()
    } else if is_flag(words.last()) {
        items_in(words.drop_last())
    } else {
        items_in(words.drop_last()).push(words.last())
    }
}

/// The words behind the first word of the command line.
pub open spec fn behind_action(words: Seq<Seq<char>>) -> Seq<Seq<char>> {
    if words.len() > 0 {
        words.skip(1)
    } else {
        Seq::empty()
    }
}

/// The action that the command line names: the one that its first word names,
/// or the help where it has no word.
pub open spec fn action_asked(words: Seq<Seq<char>>) -> Result<Action, Error> {
    if words.len() == 0 {
        Ok(Action::Help)
    } else {
        match action_named(words[0]) {
            Some(action) => Ok(action),
            None => Err(Error::UnrecognizedAction),
        }
    }
}

/// The configuration with the home directory in the place of each `~/` of
/// the directory to install to.
pub open spec fn at_home(config: ConfigView, home: Seq<char>) -> ConfigView {
    ConfigView { install_dir: replaced(config.install_dir, "~/"@, home + "/"@), ..config }
}

/// Whether a word of the command line is a flag.
pub fn word_is_flag(word: &str) -> (r: bool)
    ensures
        r == is_flag(word@),
{
    proof {
        reveal_strlit("-");
        assert("-"@ =~= seq!['-']);
    }
    let r = crate::text::starts_with_text(word, "-");
    assert(r == is_flag(word@)) by {
        if word@.len() > 0 {
            assert(word@.subrange(0, 1)[0] == word@[0]);
            if word@[0] == '-' {
                assert(word@.subrange(0, 1) =~= seq!['-']);
            }
        }
    }
    r
}

impl Args {
    /// Reads the command line `words`, without the name of the program: the
    /// action, then flags and items in any order. `config` is the
    /// configuration as it was loaded, and `home` the home directory.
    /// Returns what is asked for, and the items.
    #[verifier::loop_isolation(false)]
    pub fn build(words: &[String], config: Config, home: &str) -> (r: Result<
        (Self, Vec<String>),
        Error,
    >)
        ensures
            match action_asked(texts_of(words@)) {
                Err(error) => r matches Err(found) && found == error,
                Ok(action) => match flags_applied(
                    first_settings(config@),
                    flags_in(behind_action(texts_of(words@))),
                ) {
                    Err(error) => r matches Err(found) && found == error,
                    Ok(settings) => r matches Ok((args, items)) && args.action == action
                        && args.options == settings.options && args.config@ == at_home(
                        settings.config,
                        home@,
                    ) && texts_of(items@) == items_in(behind_action(texts_of(words@))),
                },
            },
    {
        let ghost all = texts_of(words@);
        let action = if words.len() == 0 {
            Action::Help
        } else {
            assert(all[0] == words@[0]@);
            match Action::parse(Some(&words[0])) {
                Ok(action) => action,
                Err(error) => {
                    return Err(error);
                },
            }
        };
        let ghost rest = behind_action(all);
        let mut flags: Vec<String> = Vec::new();
        let mut items: Vec<String> = Vec::new();
        let mut i: usize = 1;
        assert(rest.take(0) =~= Seq::<Seq<char>>::empty());
        while i < words.len()
            invariant
                1 <= i,
                i <= words@.len() || (words@.len() == 0 && i == 1),
                all == texts_of(words@),
                rest == behind_action(all),
                texts_of(flags@) =~= flags_in(rest.take(i - 1)),
                texts_of(items@) =~= items_in(rest.take(i - 1)),
            decreases words@.len() - i,
        {
            assert(rest.take(i as int).drop_last() =~= rest.take(i - 1));
            assert(rest.take(i as int).last() == words@[i as int]@);
            if word_is_flag(words[i].as_str()) {
                flags.push(words[i].clone());
            } else {
                items.push(words[i].clone());
            }
            i += 1;
        }
        assert(rest.take(i - 1) =~= rest);
        let mut settled = config;
        assert(texts_of(flags@) == flags_in(rest));
        let options = match Options::build(&flags, &mut settled) {
            Ok(options) => options,
            Err(error) => {
                return Err(error);
            },
        };
        let mut home_dir = home.to_owned();
        home_dir.append("/");
        settled.install_dir = replace_text(settled.install_dir.as_str(), "~/", home_dir.as_str());
        Ok((Args { action, config: settled, options }, items))
    }
}

/// Returns the help of the program.
pub fn show_help() -> (r: String)
    ensures
        r@ == HelpAction::help_text(),
{
    HelpAction::show_help()
}

} // verus!
