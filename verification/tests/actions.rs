use fin::action::Action;
use fin::actions::clean::{CleanAction, CleanTarget};
use fin::actions::config::{ConfigAction, ConfigTask};
use fin::actions::list::{ListAction, Listed};
use fin::actions::help::HelpAction;
use fin::actions::version::{VersionAction, VERSION};
use fin::args::{show_help, Args};
use fin::config::{default_config, Config};
use fin::error::{batch_failed, Error, ErrorClass, Outcome};
use fin::options::Options;
use fin::user_prompt;
use fin::wildcards::match_wildcard;

fn all_actions() -> [Action; 9] {
    [
        Action::Install,
        Action::Reinstall,
        Action::Update,
        Action::Remove,
        Action::List,
        Action::Clean,
        Action::Config,
        Action::Version,
        Action::Help,
    ]
}

fn words(list: &[&str]) -> Vec<String> {
    list.iter().map(|word| word.to_string()).collect()
}

#[test]
fn help_includes_all_actions() {
    let all_actions = all_actions();
    let help_actions = Action::help_actions();
    println!("{help_actions}");

    all_actions.iter().for_each(|action| {
        let action = format!("  {action:?} ").to_lowercase();
        if !help_actions.contains(&action) {
            panic!(
                "The '{}' action is missing from the help message",
                action.trim()
            );
        }
    });
}

#[test]
fn help_for_every_action() {
    let all_actions = all_actions();

    all_actions.iter().for_each(|action| {
        println!("\n{action:?}:");
        let help = HelpAction::run(action);
        let action = format!("{action:?}").trim().to_lowercase();
        if action == "help" {
            return;
        }
        if !help.contains("Usage") || !help.contains(&format!("{action}")) {
            panic!("The '{action}' action help message is missing a usage section",);
        }
        if !help.contains("Action") {
            panic!(
                "The '{action}' action help message is missing a description:
Action:
    [Explanation of what it does]",
            );
        }
        if !match_wildcard(&help, "Action:\n*\n\nUsage*:\n    fin*") {
            panic!("The '{action}' action help message format is incorrect",);
        }
    });
}

#[test]
fn help_of_the_program_lists_actions_and_arguments() {
    let help = HelpAction::run(&Action::Help);
    assert_eq!(
        help,
        format!(
            "Usage:\n    fin [action] [items]\n\n{}\n{}",
            Action::help_actions(),
            Options::help_options()
        )
    );
    assert_eq!(help, show_help());
    assert_eq!(help, HelpAction::show_help());
    assert!(help.contains("    --refresh       -r    Ignore cache and fetch new data\n"));
    assert!(CleanAction::show_help().contains("state                 Clear the install state lock"));
}

#[test]
fn version_is_reported() {
    assert_eq!(VersionAction::run(), "0.2.0");
    assert_eq!(VERSION, "0.2.0");
}

#[test]
fn actions_are_read_by_name() {
    let parse = |word: &str| Action::parse(Some(&word.to_string()));
    assert_eq!(Action::parse(None), Ok(Action::Help));
    assert_eq!(parse("install"), Ok(Action::Install));
    assert_eq!(parse("get"), Ok(Action::Install));
    assert_eq!(parse("reinstall"), Ok(Action::Reinstall));
    assert_eq!(parse("update"), Ok(Action::Update));
    assert_eq!(parse("upgrade"), Ok(Action::Update));
    assert_eq!(parse("up"), Ok(Action::Update));
    assert_eq!(parse("remove"), Ok(Action::Remove));
    assert_eq!(parse("uninstall"), Ok(Action::Remove));
    assert_eq!(parse("rm"), Ok(Action::Remove));
    assert_eq!(parse("list"), Ok(Action::List));
    assert_eq!(parse("ls"), Ok(Action::List));
    assert_eq!(parse("clean"), Ok(Action::Clean));
    assert_eq!(parse("clear"), Ok(Action::Clean));
    assert_eq!(parse("config"), Ok(Action::Config));
    assert_eq!(parse("cfg"), Ok(Action::Config));
    assert_eq!(parse("version"), Ok(Action::Version));
    assert_eq!(parse("ver"), Ok(Action::Version));
    assert_eq!(parse("v"), Ok(Action::Version));
    assert_eq!(parse("help"), Ok(Action::Help));
    assert_eq!(parse("h"), Ok(Action::Help));
    assert_eq!(parse("Install"), Err(Error::UnrecognizedAction));
    assert_eq!(parse(""), Err(Error::UnrecognizedAction));
}

#[test]
fn default_config_is_as_documented() {
    let config = Config::default();
    assert_eq!(config.install_dir, "~/.local/share/fonts");
    assert_eq!(config.cache_timeout, 90);
    assert!(!config.verbose_mode);
    assert!(!config.verbose_files);
    assert!(!config.verbose_list);
    assert!(!config.verbose_urls);
    let text = default_config();
    assert!(text.contains("\ninstall_dir = \"~/.local/share/fonts\"\n"));
    assert!(text.contains("\ncache_timeout = 90\n"));
    assert!(text.contains("\nverbose_mode = false\n"));
    assert!(text.contains("\nverbose_files = false\n"));
    assert!(text.contains("\nverbose_list = false\n"));
    assert!(text.contains("\nverbose_urls = false\n"));
}

#[test]
fn config_is_valid_with_two_slashes() {
    let mut config = Config::default();
    assert!(config.is_valid());
    config.panic_if_invalid();
    config.install_dir = String::from("/fonts");
    assert!(!config.is_valid());
    config.install_dir = String::from("fonts");
    assert!(!config.is_valid());
    config.install_dir = String::from("/usr/fonts");
    assert!(config.is_valid());
    let copy = config.copy();
    assert_eq!(copy.install_dir, "/usr/fonts");
    assert_eq!(copy.cache_timeout, 90);
}

#[test]
fn options_are_read_from_flags() {
    let mut config = Config::default();
    let options = Options::build(
        &words(&["--refresh", "--verbose", "--yes", "--force", "--reinstall"]),
        &mut config,
    )
    .unwrap();
    assert_eq!(
        options,
        Options {
            reinstall: true,
            refresh: true,
            verbose: true,
            answer: Some(true),
            force: true
        }
    );
    let options = Options::build(&words(&["-rvn"]), &mut config).unwrap();
    assert_eq!(
        options,
        Options {
            reinstall: false,
            refresh: true,
            verbose: true,
            answer: Some(false),
            force: false
        }
    );
    assert_eq!(Options::build(&words(&[]), &mut config), Ok(Options::default()));
    let options = Options::build(&words(&["-iFy", "--no"]), &mut config).unwrap();
    assert!(options.reinstall && options.force);
    assert_eq!(options.answer, Some(false));
}

#[test]
fn flags_change_the_configuration() {
    let mut config = Config::default();
    Options::build(
        &words(&["--install-dir=/tmp/fonts", "--cache-timeout=15", "--verbose-urls"]),
        &mut config,
    )
    .unwrap();
    assert_eq!(config.install_dir, "/tmp/fonts");
    assert_eq!(config.cache_timeout, 15);
    assert!(config.verbose_urls);
    let options = Options::build(&words(&["--refresh", "--no-refresh"]), &mut config).unwrap();
    assert!(!options.refresh);
    assert_eq!(config.cache_timeout, u64::MAX);
    Options::build(&words(&["--cache-timeout=+7"]), &mut config).unwrap();
    assert_eq!(config.cache_timeout, 7);
    Options::build(&words(&["-c"]), &mut config).unwrap();
    assert_eq!(config.cache_timeout, u64::MAX);
    Options::build(&words(&["--cache-timeout=18446744073709551615"]), &mut config).unwrap();
    assert_eq!(config.cache_timeout, u64::MAX);
    Options::build(&words(&["--install-dir=/a=b"]), &mut config).unwrap();
    assert_eq!(config.install_dir, "/a");
    config.verbose_mode = true;
    config.verbose_files = true;
    config.verbose_list = true;
    let options = Options::build(&words(&[]), &mut config).unwrap();
    assert!(options.verbose);
    let options = Options::build(&words(&["--no-verbose"]), &mut config).unwrap();
    assert!(!options.verbose);
    assert!(!config.verbose_files && !config.verbose_list && !config.verbose_urls);
    Options::build(&words(&["--verbose-files", "--verbose-list"]), &mut config).unwrap();
    assert!(config.verbose_files && config.verbose_list);
    Options::build(
        &words(&["--no-verbose-files", "--no-verbose-list", "--no-verbose-urls"]),
        &mut config,
    )
    .unwrap();
    assert!(!config.verbose_files && !config.verbose_list && !config.verbose_urls);
}

#[test]
fn flags_that_are_refused_leave_the_configuration() {
    let mut config = Config::default();
    let refused = |flags: &[&str], config: &mut Config| Options::build(&words(flags), config);
    assert_eq!(refused(&["--install-dir"], &mut config), Err(Error::MissingValue));
    assert_eq!(refused(&["--cache-timeout"], &mut config), Err(Error::MissingValue));
    assert_eq!(refused(&["--cache-timeout=soon"], &mut config), Err(Error::InvalidNumber));
    assert_eq!(refused(&["--cache-timeout="], &mut config), Err(Error::InvalidNumber));
    assert_eq!(refused(&["--cache-timeout=-1"], &mut config), Err(Error::InvalidNumber));
    assert_eq!(
        refused(&["--cache-timeout=18446744073709551616"], &mut config),
        Err(Error::InvalidNumber)
    );
    assert_eq!(refused(&["--verbose=yes"], &mut config), Err(Error::UnknownArgument));
    assert_eq!(refused(&["--unknown"], &mut config), Err(Error::UnknownArgument));
    assert_eq!(refused(&["-x"], &mut config), Err(Error::UnknownArgument));
    assert_eq!(refused(&["font"], &mut config), Err(Error::UnknownArgument));
    assert_eq!(refused(&[""], &mut config), Err(Error::UnknownArgument));
    assert_eq!(
        refused(&["--install-dir=/tmp/fonts", "-c", "-rx"], &mut config),
        Err(Error::UnknownArgument)
    );
    assert_eq!(config.install_dir, "~/.local/share/fonts");
    assert_eq!(config.cache_timeout, 90);
}

#[test]
fn command_line_is_split_into_action_flags_and_items() {
    let (args, items) = Args::build(
        &words(&["install", "Hack", "-v", "Inter:v4", "--cache-timeout=5"]),
        Config::default(),
        "/home/me",
    )
    .unwrap();
    assert_eq!(args.action, Action::Install);
    assert!(args.options.verbose);
    assert_eq!(args.config.cache_timeout, 5);
    assert_eq!(args.config.install_dir, "/home/me/.local/share/fonts");
    assert_eq!(items, words(&["Hack", "Inter:v4"]));
    let (args, items) = Args::build(&words(&[]), Config::default(), "/home/me").unwrap();
    assert_eq!(args.action, Action::Help);
    assert!(items.is_empty());
    assert_eq!(
        Args::build(&words(&["dance"]), Config::default(), "/home/me").map(|_| ()),
        Err(Error::UnrecognizedAction)
    );
    assert_eq!(
        Args::build(&words(&["list", "--what"]), Config::default(), "/home/me").map(|_| ()),
        Err(Error::UnknownArgument)
    );
}

#[test]
fn answers_are_understood() {
    assert_eq!(user_prompt(Some(true), "no\n"), Some(true));
    assert_eq!(user_prompt(Some(false), "yes\n"), Some(false));
    assert_eq!(user_prompt(None, "y\n"), Some(true));
    assert_eq!(user_prompt(None, "YES\n"), Some(true));
    assert_eq!(user_prompt(None, "Yabadabadoo\n"), Some(true));
    assert_eq!(user_prompt(None, "n\n"), Some(false));
    assert_eq!(user_prompt(None, "No\n"), Some(false));
    assert_eq!(user_prompt(None, "nope\n"), Some(false));
    assert_eq!(user_prompt(None, "yes"), None);
    assert_eq!(user_prompt(None, "maybe\n"), None);
    assert_eq!(user_prompt(None, ""), None);
}

#[test]
fn errors_fall_into_classes() {
    assert_eq!(Error::EmptyInclude.class(), ErrorClass::Validation);
    assert_eq!(Error::InvalidName.class(), ErrorClass::Validation);
    assert_eq!(Error::UnresolvedTag.class(), ErrorClass::Validation);
    assert_eq!(Error::MissingExtension.class(), ErrorClass::Validation);
    assert_eq!(Error::LinkNotFound.class(), ErrorClass::Resolution);
    assert_eq!(Error::InvalidUrl.class(), ErrorClass::Resolution);
    assert_eq!(Error::Transport.class(), ErrorClass::Network);
    assert_eq!(Error::ChecksumMismatch.class(), ErrorClass::Integrity);
    assert_eq!(Error::FileSystem.class(), ErrorClass::Io);
    assert_eq!(Error::BadArchive.class(), ErrorClass::Io);
    assert_eq!(Error::Locked.class(), ErrorClass::Concurrency);
    assert_eq!(Error::UnknownArgument.class(), ErrorClass::Usage);
    assert!(Error::Locked.ends_run());
    assert!(!Error::ChecksumMismatch.ends_run());
    assert!(!Error::Transport.ends_run());
}

#[test]
fn lock_refuses_what_changes_the_installation() {
    for (action, word) in [
        (Action::Install, "installing"),
        (Action::Reinstall, "reinstalling"),
        (Action::Update, "updating"),
        (Action::Remove, "removing"),
    ] {
        assert_eq!(action.lock_action(), Some(word));
        assert_eq!(action.begin(None, false), Ok(Some(word)));
        assert_eq!(action.begin(Some("installing"), false), Err(Error::Locked));
        assert_eq!(action.begin(Some("installing"), true), Err(Error::Locked));
        assert_eq!(action.begin(Some(""), false), Err(Error::Locked));
    }
    for action in [Action::List, Action::Config, Action::Version, Action::Help] {
        assert_eq!(action.lock_action(), None);
        assert_eq!(action.begin(None, false), Ok(None));
        assert_eq!(action.begin(Some("updating"), false), Ok(None));
    }
    assert_eq!(Action::Clean.lock_action(), None);
    assert_eq!(Action::Clean.begin(None, false), Ok(None));
    assert_eq!(Action::Clean.begin(Some("updating"), false), Err(Error::Locked));
    assert_eq!(Action::Clean.begin(Some("updating"), true), Ok(None));
}

#[test]
fn batch_fails_where_an_item_fails() {
    assert!(!batch_failed(&[]));
    assert!(!batch_failed(&[Outcome::Done, Outcome::Idle, Outcome::Done]));
    assert!(batch_failed(&[
        Outcome::Done,
        Outcome::Failed(Error::ChecksumMismatch),
        Outcome::Done
    ]));
    assert!(batch_failed(&[Outcome::Failed(Error::Transport)]));
}

#[test]
fn actions_say_what_they_need_and_what_they_found() {
    for action in [Action::Install, Action::Reinstall, Action::Update, Action::Remove] {
        assert!(action.needs_valid_config());
    }
    for action in [
        Action::List,
        Action::Clean,
        Action::Config,
        Action::Version,
        Action::Help,
    ] {
        assert!(!action.needs_valid_config());
        assert_eq!(action.nothing_to_do(), "");
    }
    assert_eq!(Action::Install.nothing_to_do(), "Nothing new to install");
    assert_eq!(Action::Reinstall.nothing_to_do(), "Nothing to reinstall");
    assert_eq!(Action::Update.nothing_to_do(), "No updates found");
    assert_eq!(Action::Remove.nothing_to_do(), "Nothing to remove");
}

#[test]
fn cleaning_is_decided_by_the_items() {
    assert_eq!(CleanAction::run(&[], false, false), Ok(vec![CleanTarget::All]));
    assert_eq!(
        CleanAction::run(
            &words(&["pages", "staging", "state", "all", "help", "cache", ""]),
            false,
            false
        ),
        Ok(vec![
            CleanTarget::Pages,
            CleanTarget::Staging,
            CleanTarget::State,
            CleanTarget::All,
            CleanTarget::Help,
            CleanTarget::Unknown,
            CleanTarget::Unknown
        ])
    );
    assert_eq!(CleanAction::run(&words(&["all"]), true, false), Err(Error::Locked));
    assert_eq!(CleanAction::run(&[], true, false), Err(Error::Locked));
    assert_eq!(
        CleanAction::run(&words(&["state"]), true, true),
        Ok(vec![CleanTarget::State])
    );
}

#[test]
fn configuration_task_is_decided_by_the_first_item() {
    assert_eq!(ConfigAction::run(&[]), ConfigTask::Help);
    assert_eq!(ConfigAction::run(&words(&["show"])), ConfigTask::Show);
    assert_eq!(ConfigAction::run(&words(&["default"])), ConfigTask::WriteDefault);
    assert_eq!(ConfigAction::run(&words(&["delete", "show"])), ConfigTask::Delete);
    assert_eq!(ConfigAction::run(&words(&["help"])), ConfigTask::Help);
    assert_eq!(ConfigAction::run(&words(&["Show"])), ConfigTask::Unknown);
}

#[test]
fn fonts_are_listed_by_their_state() {
    assert_eq!(ListAction::run(false, true, true, true, true), (Listed::Available, false));
    assert_eq!(ListAction::run(true, true, true, false, false), (Listed::Installed, false));
    assert_eq!(ListAction::run(true, true, true, false, true), (Listed::Installed, true));
    assert_eq!(ListAction::run(true, true, true, true, false), (Listed::Installed, true));
    assert_eq!(
        ListAction::run(true, true, false, false, true),
        (Listed::MissingDirectory, true)
    );
    assert_eq!(
        ListAction::run(true, true, false, false, false),
        (Listed::MissingDirectory, false)
    );
    assert_eq!(
        ListAction::run(true, false, true, false, true),
        (Listed::MissingInstaller, false)
    );
    assert_eq!(
        ListAction::run(true, false, false, true, false),
        (Listed::MissingInstaller, true)
    );
}
