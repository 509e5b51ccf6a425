//! Where the program keeps its files. Each path is made from the directory
//! above it; a directory ends with `/`.
use crate::encoding::bytes_of;
use crate::wildcards::{wildcard_part, wildcard_substring};
use vstd::prelude::*;
use vstd::string::*;

verus! {

/// The pattern `^~/` as bytes.
pub open spec fn tilde_pattern() -> Seq<u8> {
    seq![0x5eu8, 0x7eu8, 0x2fu8]
}

/// Whether the pattern `^~/` finds something in `path`.
pub open spec fn has_tilde(path: Seq<char>) -> bool {
    wildcard_part(bytes_of(path), tilde_pattern(), Seq::empty()) is Some
}

/// Puts `home` in the place of the first character of `path`, where the
/// pattern `^~/` finds something in the path.
pub fn expand_tilde(path: &mut String, home: &str)
    ensures
        final(path)@ == if has_tilde(old(path)@) && old(path)@.len() > 0 {
            home@ + old(path)@.skip(1)
        } else {
            old(path)@
        },
{
    let pattern = "^~/";
    let nothing: [u8; 0] = [];
    proof {
        reveal_strlit("^~/");
        is_ascii_spec_bytes(pattern);
        assert(pattern.spec_bytes() =~= tilde_pattern());
        assert(nothing@ =~= Seq::<u8>::empty());
    }
    let found = wildcard_substring(path.as_str(), pattern, nothing.as_slice()).is_some();
    let len = path.as_str().unicode_len();
    if found && len > 0 {
        let mut out = home.to_owned();
        out.append(path.as_str().substring_char(1, len));
        assert(old(path)@.subrange(1, len as int) =~= old(path)@.skip(1));
        *path = out;
    }
}

/// The home directory with `/` behind it.
pub fn home_dir(home: &str) -> (r: String)
    ensures
        r@ == home@ + "/"@,
{
    let mut out = home.to_owned();
    out.append("/");
    out
}

/// The directory of the configuration: `fin/` below the directory that the
/// environment names for configurations, or below `.config` in the home
/// directory.
pub fn config_dir(configured: Option<&str>, home_dir: &str) -> (r: String)
    ensures
        r@ == match configured {
            Some(dir) => dir@ + "/fin/"@,
            None => home_dir@ + ".config"@ + "/fin/"@,
        },
{
    match configured {
        Some(dir) => {
            let mut out = dir.to_owned();
            out.append("/fin/");
            out
        },
        None => {
            let mut out = home_dir.to_owned();
            out.append(".config");
            out.append("/fin/");
            out
        },
    }
}

/// The directory of the cache: `fin/` below the directory that the
/// environment names for caches, or below `.cache` in the home directory.
pub fn cache_dir(configured: Option<&str>, home_dir: &str) -> (r: String)
    ensures
        r@ == match configured {
            Some(dir) => dir@ + "/fin/"@,
            None => home_dir@ + ".cache"@ + "/fin/"@,
        },
{
    match configured {
        Some(dir) => {
            let mut out = dir.to_owned();
            out.append("/fin/");
            out
        },
        None => {
            let mut out = home_dir.to_owned();
            out.append(".cache");
            out.append("/fin/");
            out
        },
    }
}

/// The directory of the descriptors, below the directory of the
/// configuration.
pub fn installers_dir(config_dir: &str) -> (r: String)
    ensures
        r@ == config_dir@ + "installers/"@,
{
    let mut out = config_dir.to_owned();
    out.append("installers/");
    out
}

/// The directory of the cached webpages, below the directory of the cache.
pub fn page_cache_dir(cache_dir: &str) -> (r: String)
    ensures
        r@ == cache_dir@ + "page_cache/"@,
{
    let mut out = cache_dir.to_owned();
    out.append("page_cache/");
    out
}

/// The directory in which downloads are staged, below the directory of the
/// cache.
pub fn staging_dir(cache_dir: &str) -> (r: String)
    ensures
        r@ == cache_dir@ + "staging/"@,
{
    let mut out = cache_dir.to_owned();
    out.append("staging/");
    out
}

/// The file of the records of what is installed, in the directory of the
/// configuration.
pub fn installed_file_path(config_dir: &str) -> (r: String)
    ensures
        r@ == config_dir@ + "installed.toml"@,
{
    let mut out = config_dir.to_owned();
    out.append("installed.toml");
    out
}

/// The file of the configuration, in its directory.
pub fn config_file_path(config_dir: &str) -> (r: String)
    ensures
        r@ == config_dir@ + "config.toml"@,
{
    let mut out = config_dir.to_owned();
    out.append("config.toml");
    out
}

/// The file that says that a run is at work, in the directory of the
/// configuration.
pub fn lock_file_path(config_dir: &str) -> (r: String)
    ensures
        r@ == config_dir@ + "lock_state"@,
{
    let mut out = config_dir.to_owned();
    out.append("lock_state");
    out
}

} // verus!
