use fin::bar::{ProgressBar, State};
use fin::paths::{
    cache_dir, config_dir, config_file_path, expand_tilde, home_dir, installed_file_path,
    installers_dir, lock_file_path, page_cache_dir, staging_dir,
};

#[test]
fn paths_are_made_from_the_directories_above() {
    assert_eq!(home_dir("/home/me"), "/home/me/");
    assert_eq!(config_dir(None, "/home/me/"), "/home/me/.config/fin/");
    assert_eq!(config_dir(Some("/etc/xdg"), "/home/me/"), "/etc/xdg/fin/");
    assert_eq!(cache_dir(None, "/home/me/"), "/home/me/.cache/fin/");
    assert_eq!(cache_dir(Some("/var/cache"), "/home/me/"), "/var/cache/fin/");
    assert_eq!(installers_dir("/c/fin/"), "/c/fin/installers/");
    assert_eq!(page_cache_dir("/k/fin/"), "/k/fin/page_cache/");
    assert_eq!(staging_dir("/k/fin/"), "/k/fin/staging/");
    assert_eq!(installed_file_path("/c/fin/"), "/c/fin/installed.toml");
    assert_eq!(config_file_path("/c/fin/"), "/c/fin/config.toml");
    assert_eq!(lock_file_path("/c/fin/"), "/c/fin/lock_state");
}

#[test]
fn tilde_is_expanded_at_the_start() {
    let expand = |path: &str| {
        let mut path = String::from(path);
        expand_tilde(&mut path, "/home/me/");
        path
    };
    assert_eq!(expand("~/fonts"), "/home/me//fonts");
    assert_eq!(expand("~/"), "/home/me//");
    assert_eq!(expand("/usr/fonts"), "/usr/fonts");
    assert_eq!(expand("~fonts"), "~fonts");
    assert_eq!(expand("a/~/fonts"), "a/~/fonts");
    assert_eq!(expand(""), "");
    assert_eq!(expand("a^~/b"), "/home/me/^~/b");
}

#[test]
fn progress_bar_begins_in_progress() {
    let bar = ProgressBar::new("Staging:");
    assert_eq!(bar.state, State::InProgress);
    assert_eq!(bar.prefix, "Staging:     ");
    assert_eq!(bar.prefix.len(), 13);
    assert_eq!(bar.last_len, 0);
    assert_eq!(ProgressBar::new("").prefix, " ".repeat(13));
    assert_eq!(ProgressBar::new("Downloading everything:").prefix, "Downloading everything:");
    assert_eq!(ProgressBar::new("ééé").prefix, "ééé       ");
    let mut bar = ProgressBar::new("x");
    bar.pass();
    assert_eq!(bar.state, State::Passed);
    bar.fail();
    assert_eq!(bar.state, State::Failed);
    bar.update_state(State::InProgress);
    assert_eq!(bar.state, State::InProgress);
    assert_eq!(State::InProgress.status_symbol(), "…");
    assert_eq!(State::Passed.status_symbol(), "\x1b[92m✓\x1b[0m");
    assert_eq!(State::Failed.status_symbol(), "\x1b[91m×\x1b[0m");
}
