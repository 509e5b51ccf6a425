//! The options of the command line.
use crate::config::{Config, ConfigView};
use crate::error::Error;
use crate::numbers::{number_of, parse_number};
use crate::text::{after_first, before_first, chars_of, same_text, split_at_first};
use vstd::prelude::*;
use vstd::string::*;

verus! {

/// The options of the command line.
#[derive(Debug, Clone, Copy, PartialEq, Eq, Structural)]
pub struct Options {
    /// Versions are not compared: what is asked for is installed anew.
    pub reinstall: bool,
    /// Cached webpages are not used.
    pub refresh: bool,
    /// The output is verbose.
    pub verbose: bool,
    /// The answer to every question, if it is given beforehand.
    pub answer: Option<bool>,
    /// What is asked for is done by force.
    pub force: bool,
}

impl Default for Options {
    fn default() -> (r: Self)
        ensures
            r == (Options {
                reinstall: false,
                refresh: false,
                verbose: false,
                answer: None,
                force: false,
            }),
    {
        Options { reinstall: false, refresh: false, verbose: false, answer: None, force: false }
    }
}

/// The list of the arguments, as the help shows it.
pub open spec fn help_options_text() -> Seq<char> {
    "Arguments:
    --refresh       -r    Ignore cache and fetch new data
    --no-refresh    -c    Do not fetch new data if possible
    --reinstall     -i    Skip version checks and reinstall
    --verbose       -v    Show more detailed output
    --force         -F    Forcefully perform action (unsafe)
    --yes           -y    Automatically accept prompts
    --no            -n    Automatically reject prompts
"@
}

impl Options {
    /// Returns the list of the arguments, as the help shows it.
    #[must_use]
    pub fn help_options() -> (r: &'static str)
        ensures
            r@ == help_options_text(),
    {
        "Arguments:
    --refresh       -r    Ignore cache and fetch new data
    --no-refresh    -c    Do not fetch new data if possible
    --reinstall     -i    Skip version checks and reinstall
    --verbose       -v    Show more detailed output
    --force         -F    Forcefully perform action (unsafe)
    --yes           -y    Automatically accept prompts
    --no            -n    Automatically reject prompts
"
    }
}

/// The options and the configuration, as the flags of the command line leave
/// them.
pub struct Settings {
    pub options: Options,
    pub config: ConfigView,
}

/// The value of a flag: what stands between its first `=` and its second, if
/// it has a `=`.
pub open spec fn flag_value(flag: Seq<char>) -> Option<Seq<char>> {
    match after_first(flag, '=') {
        Some(rest) => Some(before_first(rest, '=')),
        None => None,
    }
}

/// What one letter of a flag of letters, such as `-rv`, does to the options
/// and the configuration.
pub open spec fn letter_applied(settings: Settings, letter: char) -> Result<Settings, Error> {
    let options = settings.options;
    let config = settings.config;
    if letter == 'i' {
        Ok(Settings { options: Options { reinstall: true, ..options }, config })
    } else if letter == 'r' {
        Ok(Settings { options: Options { refresh: true, ..options }, config })
    } else if letter == 'c' {
        Ok(
            Settings {
                options: Options { refresh: false, ..options },
                config: ConfigView { cache_timeout: u64::MAX, ..config },
            },
        )
    } else if letter == 'v' {
        Ok(Settings { options: Options { verbose: true, ..options }, config })
    } else if letter == 'F' {
        Ok(Settings { options: Options { force: true, ..options }, config })
    } else if letter == 'y' {
        Ok(Settings { options: Options { answer: Some(true), ..options }, config })
    } else if letter == 'n' {
        Ok(Settings { options: Options { answer: Some(false), ..options }, config })
    } else {
        Err(Error::UnknownArgument)
    }
}

/// What the letters of a flag do, one after the other.
pub open spec fn letters_applied(settings: Settings, letters: Seq<char>) -> Result<Settings, Error>
    decreases letters.len(),
{
    if letters.len() == 0 {
        Ok(settings)
    } else {
        match letters_applied(settings, letters.drop_last()) {
            Ok(before) => letter_applied(before, letters.last()),
            Err(error) => Err(error),
        }
    }
}

/// What one flag does to the options and the configuration. A flag with a
/// value is `--install-dir` or `--cache-timeout`; a flag that is no word
/// that is known is read as `-` and letters.
pub open spec fn flag_applied(settings: Settings, flag: Seq<char>) -> Result<Settings, Error> {
    let options = settings.options;
    let config = settings.config;
    let name = before_first(flag, '=');
    let value = flag_value(flag);
    if name == "--install-dir"@ {
        match value {
            Some(dir) => Ok(Settings { options, config: ConfigView { install_dir: dir, ..config } }),
            None => Err(Error::MissingValue),
        }
    } else if name == "--cache-timeout"@ {
        match value {
            Some(text) => match number_of(text) {
                Some(minutes) => Ok(
                    Settings { options, config: ConfigView { cache_timeout: minutes, ..config } },
                ),
                None => Err(Error::InvalidNumber),
            },
            None => Err(Error::MissingValue),
        }
    } else if value is Some {
        Err(Error::UnknownArgument)
    } else if name == "--reinstall"@ {
        Ok(Settings { options: Options { reinstall: true, ..options }, config })
    } else if name == "--refresh"@ {
        Ok(Settings { options: Options { refresh: true, ..options }, config })
    } else if name == "--no-refresh"@ || name == "--cache-only"@ {
        Ok(
            Settings {
                options: Options { refresh: false, ..options },
                config: ConfigView { cache_timeout: u64::MAX, ..config },
            },
        )
    } else if name == "--no-verbose"@ {
        Ok(
            Settings {
                options: Options { verbose: false, ..options },
                config: ConfigView {
                    verbose_urls: false,
                    verbose_list: false,
                    verbose_files: false,
                    ..config
                },
            },
        )
    } else if name == "--no-verbose-files"@ {
        Ok(Settings { options, config: ConfigView { verbose_files: false, ..config } })
    } else if name == "--no-verbose-list"@ {
        Ok(Settings { options, config: ConfigView { verbose_list: false, ..config } })
    } else if name == "--no-verbose-urls"@ {
        Ok(Settings { options, config: ConfigView { verbose_urls: false, ..config } })
    } else if name == "--verbose-files"@ {
        Ok(Settings { options, config: ConfigView { verbose_files: true, ..config } })
    } else if name == "--verbose-list"@ {
        Ok(Settings { options, config: ConfigView { verbose_list: true, ..config } })
    } else if name == "--verbose-urls"@ {
        Ok(Settings { options, config: ConfigView { verbose_urls: true, ..config } })
    } else if name == "--verbose"@ {
        Ok(Settings { options: Options { verbose: true, ..options }, config })
    } else if name == "--force"@ {
        Ok(Settings { options: Options { force: true, ..options }, config })
    } else if name == "--yes"@ {
        Ok(Settings { options: Options { answer: Some(true), ..options }, config })
    } else if name == "--no"@ {
        Ok(Settings { options: Options { answer: Some(false), ..options }, config })
    } else if name.len() == 0 || name[0] != '-' {
        Err(Error::UnknownArgument)
    } else {
        letters_applied(settings, name.skip(1))
    }
}

/// What the flags do, one after the other.
pub open spec fn flags_applied(settings: Settings, flags: Seq<Seq<char>>) -> Result<Settings, Error>
    decreases flags.len(),
{
    if flags.len() == 0 {
        Ok(settings)
    } else {
        match flags_applied(settings, flags.drop_last()) {
            Ok(before) => flag_applied(before, flags.last()),
            Err(error) => Err(error),
        }
    }
}

/// The options before any flag is read: the configuration says whether the
/// output is verbose.
pub open spec fn first_settings(config: ConfigView) -> Settings {
    Settings {
        options: Options {
            reinstall: false,
            refresh: false,
            verbose: config.verbose_mode,
            answer: None,
            force: false,
        },
        config,
    }
}

/// Applies one letter of a flag of letters.
fn apply_letter(options: &mut Options, config: &mut Config, letter: char) -> (r: Result<(), Error>)
    ensures
        match letter_applied(Settings { options: *old(options), config: old(config)@ }, letter) {
            Ok(settings) => r is Ok && *final(options) == settings.options && final(config)@
                == settings.config,
            Err(error) => r == Err::<(), Error>(error),
        },
{
    if letter == 'i' {
        options.reinstall = true;
    } else if letter == 'r' {
        options.refresh = true;
    } else if letter == 'c' {
        config.cache_timeout = u64::MAX;
        options.refresh = false;
    } else if letter == 'v' {
        options.verbose = true;
    } else if letter == 'F' {
        options.force = true;
    } else if letter == 'y' {
        options.answer = Some(true);
    } else if letter == 'n' {
        options.answer = Some(false);
    } else {
        return Err(Error::UnknownArgument);
    }
    Ok(())
}

/// Applies a flag of letters: a `-` and then the letters.
fn apply_letters(options: &mut Options, config: &mut Config, name: &str) -> (r: Result<(), Error>)
    ensures
        match if name@.len() == 0 || name@[0] != '-' {
            Err::<Settings, Error>(Error::UnknownArgument)
        } else {
            letters_applied(Settings { options: *old(options), config: old(config)@ }, name@.skip(1))
        } {
            Ok(settings) => r is Ok && *final(options) == settings.options && final(config)@
                == settings.config,
            Err(error) => r == Err::<(), Error>(error),
        },
{
    let letters = chars_of(name);
    if letters.len() == 0 || letters[0] != '-' {
        return Err(Error::UnknownArgument);
    }
    let ghost first = Settings { options: *options, config: config@ };
    let ghost rest = name@.skip(1);
    let mut i: usize = 1;
    assert(rest.take(0) =~= Seq::<char>::empty());
    while i < letters.len()
        invariant
            1 <= i <= letters@.len(),
            letters@ == name@,
            rest == name@.skip(1),
            first == (Settings { options: *old(options), config: old(config)@ }),
            letters_applied(first, rest.take(i - 1)) == Ok::<Settings, Error>(
                Settings { options: *options, config: config@ },
            ),
        decreases letters@.len() - i,
    {
        assert(rest.take(i as int).drop_last() =~= rest.take(i - 1));
        assert(rest.take(i as int).last() == letters@[i as int]);
        match apply_letter(options, config, letters[i]) {
            Err(error) => {
                proof {
                    lemma_letters_fail(first, rest, i as int);
                }
                return Err(error);
            },
            Ok(()) => {},
        }
        i += 1;
    }
    assert(rest.take(i - 1) =~= rest);
    Ok(())
}

/// Applies one flag.
fn apply_flag(options: &mut Options, config: &mut Config, flag: &str) -> (r: Result<(), Error>)
    ensures
        match flag_applied(Settings { options: *old(options), config: old(config)@ }, flag@) {
            Ok(settings) => r is Ok && *final(options) == settings.options && final(config)@
                == settings.config,
            Err(error) => r == Err::<(), Error>(error),
        },
{
    let (name, rest) = split_at_first(flag, '=');
    let value: Option<&str> = match rest {
        Some(rest) => Some(split_at_first(rest, '=').0),
        None => None,
    };
    if same_text(name, "--install-dir") {
        match value {
            Some(dir) => {
                config.install_dir = dir.to_owned();
            },
            None => {
                return Err(Error::MissingValue);
            },
        }
    } else if same_text(name, "--cache-timeout") {
        match value {
            Some(text) => match parse_number(text) {
                Some(minutes) => {
                    config.cache_timeout = minutes;
                },
                None => {
                    return Err(Error::InvalidNumber);
                },
            },
            None => {
                return Err(Error::MissingValue);
            },
        }
    } else if value.is_some() {
        return Err(Error::UnknownArgument);
    } else if same_text(name, "--reinstall") {
        options.reinstall = true;
    } else if same_text(name, "--refresh") {
        options.refresh = true;
    } else if same_text(name, "--no-refresh") || same_text(name, "--cache-only") {
        config.cache_timeout = u64::MAX;
        options.refresh = false;
    } else if same_text(name, "--no-verbose") {
        config.verbose_urls = false;
        config.verbose_list = false;
        config.verbose_files = false;
        options.verbose = false;
    } else if same_text(name, "--no-verbose-files") {
        config.verbose_files = false;
    } else if same_text(name, "--no-verbose-list") {
        config.verbose_list = false;
    } else if same_text(name, "--no-verbose-urls") {
        config.verbose_urls = false;
    } else if same_text(name, "--verbose-files") {
        config.verbose_files = true;
    } else if same_text(name, "--verbose-list") {
        config.verbose_list = true;
    } else if same_text(name, "--verbose-urls") {
        config.verbose_urls = true;
    } else if same_text(name, "--verbose") {
        options.verbose = true;
    } else if same_text(name, "--force") {
        options.force = true;
    } else if same_text(name, "--yes") {
        options.answer = Some(true);
    } else if same_text(name, "--no") {
        options.answer = Some(false);
    } else {
        return apply_letters(options, config, name);
    }
    Ok(())
}

/// Once the letters of a flag have failed, more letters do not help.
proof fn lemma_letters_fail(settings: Settings, letters: Seq<char>, upto: int)
    requires
        0 <= upto <= letters.len(),
        letters_applied(settings, letters.take(upto)) is Err,
    ensures
        letters_applied(settings, letters) == letters_applied(settings, letters.take(upto)),
    decreases letters.len() - upto,
{
    if upto < letters.len() {
        assert(letters.take(upto + 1).drop_last() =~= letters.take(upto));
        lemma_letters_fail(settings, letters, upto + 1);
    } else {
        assert(letters.take(upto) =~= letters);
    }
}

/// Once the flags have failed, more flags do not help.
proof fn lemma_flags_fail(settings: Settings, flags: Seq<Seq<char>>, upto: int)
    requires
        0 <= upto <= flags.len(),
        flags_applied(settings, flags.take(upto)) is Err,
    ensures
        flags_applied(settings, flags) == flags_applied(settings, flags.take(upto)),
    decreases flags.len() - upto,
{
    if upto < flags.len() {
        assert(flags.take(upto + 1).drop_last() =~= flags.take(upto));
        lemma_flags_fail(settings, flags, upto + 1);
    } else {
        assert(flags.take(upto) =~= flags);
    }
}

impl Options {
    /// Reads the options from the flags of the command line. Flags may also
    /// change the configuration. Where a flag is refused the configuration is
    /// left as it was.
    pub fn build(flags: &Vec<String>, config: &mut Config) -> (r: Result<Self, Error>)
        ensures
            match flags_applied(first_settings(old(config)@), crate::text::texts_of(flags@)) {
                Ok(settings) => r == Ok::<Options, Error>(settings.options) && final(config)@
                    == settings.config,
                Err(error) => r == Err::<Options, Error>(error) && final(config)@ == old(config)@,
            },
    {
        let ghost all = crate::text::texts_of(flags@);
        let ghost first = first_settings(config@);
        let mut options = Options {
            reinstall: false,
            refresh: false,
            verbose: config.verbose_mode,
            answer: None,
            force: false,
        };
        let mut changed = config.copy();
        let mut i: usize = 0;
        assert(all.take(0) =~= Seq::<Seq<char>>::empty());
        while i < flags.len()
            invariant
                0 <= i <= flags@.len(),
                all == crate::text::texts_of(flags@),
                first == first_settings(old(config)@),
                config@ == old(config)@,
                flags_applied(first, all.take(i as int)) == Ok::<Settings, Error>(
                    Settings { options, config: changed@ },
                ),
            decreases flags@.len() - i,
        {
            assert(all.take(i + 1).drop_last() =~= all.take(i as int));
            assert(all.take(i + 1).last() == flags@[i as int]@);
            match apply_flag(&mut options, &mut changed, flags[i].as_str()) {
                Err(error) => {
                    proof {
                        lemma_flags_fail(first, all, i + 1);
                    }
                    return Err(error);
                },
                Ok(()) => {},
            }
            i += 1;
        }
        assert(all.take(i as int) =~= all);
        *config = changed;
        Ok(options)
    }
}

} // verus!
