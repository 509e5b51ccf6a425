//! The configuration of the program.
use crate::text::{count_char, count_of};
use vstd::prelude::*;
use vstd::string::*;

verus! {

/// The configuration.
#[derive(Debug)]
pub struct Config {
    /// The directory below which new items are installed.
    pub install_dir: String,
    /// After how many minutes a cached webpage counts as outdated.
    pub cache_timeout: u64,
    /// Whether all output is verbose.
    pub verbose_mode: bool,
    /// Whether the output on files is verbose.
    pub verbose_files: bool,
    /// Whether lists show the directories of the items.
    pub verbose_list: bool,
    /// Whether the output shows URLs.
    pub verbose_urls: bool,
}

/// A `Config` with its directory as text.
pub struct ConfigView {
    pub install_dir: Seq<char>,
    pub cache_timeout: u64,
    pub verbose_mode: bool,
    pub verbose_files: bool,
    pub verbose_list: bool,
    pub verbose_urls: bool,
}

impl View for Config {
    type V = ConfigView;

    open spec fn view(&self) -> ConfigView {
        ConfigView {
            install_dir: self.install_dir@,
            cache_timeout: self.cache_timeout,
            verbose_mode: self.verbose_mode,
            verbose_files: self.verbose_files,
            verbose_list: self.verbose_list,
            verbose_urls: self.verbose_urls,
        }
    }
}

/// The minutes after which a cached webpage counts as outdated, unless the
/// configuration says otherwise.
pub const DEFAULT_CACHE_TIMEOUT: u64 = 90;

impl Default for Config {
    fn default() -> (r: Self)
        ensures
            r@ == (ConfigView {
                install_dir: "~/.local/share/fonts"@,
                cache_timeout: DEFAULT_CACHE_TIMEOUT,
                verbose_mode: false,
                verbose_files: false,
                verbose_list: false,
                verbose_urls: false,
            }),
    {
        Config {
            install_dir: "~/.local/share/fonts".to_owned(),
            cache_timeout: DEFAULT_CACHE_TIMEOUT,
            verbose_mode: false,
            verbose_files: false,
            verbose_list: false,
            verbose_urls: false,
        }
    }
}

impl Config {
    /// The directory to install to holds at least two `/`: it is more than a
    /// name, and more than a directory just below the root.
    pub open spec fn valid(&self) -> bool {
        count_of(self.install_dir@, '/') >= 2
    }

    /// Whether the configuration is valid.
    pub fn is_valid(&self) -> (r: bool)
        ensures
            r == self.valid(),
    {
        count_char(self.install_dir.as_str(), '/') >= 2
    }

    /// Does nothing; it can only be called on a valid configuration.
    pub fn panic_if_invalid(&self)
        requires
            self.valid(),
    {
    }

    /// Returns a copy of the configuration.
    pub fn copy(&self) -> (r: Self)
        ensures
            r@ == self@,
    {
        Config {
            install_dir: self.install_dir.clone(),
            cache_timeout: self.cache_timeout,
            verbose_mode: self.verbose_mode,
            verbose_files: self.verbose_files,
            verbose_list: self.verbose_list,
            verbose_urls: self.verbose_urls,
        }
    }
}

/// The text of the configuration file that is written where there is none.
pub fn default_config() -> (r: &'static str)
    ensures
        r@ == default_config_text(),
{
    "# Location where new fonts will be installed
# Override:  --install-dir=[path]
install_dir = \"~/.local/share/fonts\"

# How long (in minutes) until cache is considered outdated
# Override:  --cache-timeout=[time]
# Related:   --refresh, --no-refresh
cache_timeout = 90

# Show verbose output by default
# Enable:   --verbose
# Disable:  --no-verbose
verbose_mode = false

# Show verbose output when adding or removing files
# Enable:   --verbose-files,    --verbose
# Disable:  --no-verbose-files, --no-verbose
verbose_files = false

# Show installed paths when running the list command
# Enable:   --verbose-list,    --verbose
# Disable:  --no-verbose-list, --no-verbose
verbose_list = false

# Show URLs in the output
# Enable:   --verbose-urls,    --verbose
# Disable:  --no-verbose-urls, --no-verbose
verbose_urls = false
"
}

/// The text of the configuration file that is written where there is none.
pub open spec fn default_config_text() -> Seq<char> {
    "# Location where new fonts will be installed
# Override:  --install-dir=[path]
install_dir = \"~/.local/share/fonts\"

# How long (in minutes) until cache is considered outdated
# Override:  --cache-timeout=[time]
# Related:   --refresh, --no-refresh
cache_timeout = 90

# Show verbose output by default
# Enable:   --verbose
# Disable:  --no-verbose
verbose_mode = false

# Show verbose output when adding or removing files
# Enable:   --verbose-files,    --verbose
# Disable:  --no-verbose-files, --no-verbose
verbose_files = false

# Show installed paths when running the list command
# Enable:   --verbose-list,    --verbose
# Disable:  --no-verbose-list, --no-verbose
verbose_list = false

# Show URLs in the output
# Enable:   --verbose-urls,    --verbose
# Disable:  --no-verbose-urls, --no-verbose
verbose_urls = false
"@
}

} // verus!
