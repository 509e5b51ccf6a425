use fin::font_page::{
    file_name_with_hash, filename_friendly, minutes_of, FontPage, Lookup, PageCache,
};
use std::hash::{Hash, Hasher};

fn page(time: u64, contents: Option<&str>) -> FontPage {
    FontPage {
        time,
        contents: contents.map(String::from),
    }
}

fn hash_of(text: &str) -> u64 {
    let mut hasher = std::hash::DefaultHasher::new();
    text.hash(&mut hasher);
    hasher.finish()
}

#[test]
fn fresh_page_is_not_fetched_again() {
    let cached = page(100, Some("text"));
    assert!(!cached.needs_fetch(100, 90, false));
    assert!(!cached.needs_fetch(189, 90, false));
    assert!(cached.needs_fetch(190, 90, false));
    assert!(cached.needs_fetch(1000, 90, false));
    assert!(cached.needs_fetch(100, 90, true));
    assert!(cached.needs_fetch(100, 0, false));
    assert!(!cached.needs_fetch(u64::MAX, u64::MAX, false));
    assert!(cached.needs_fetch(99, 90, false));
    assert!(page(100, None).needs_fetch(100, 90, false));
    assert!(FontPage::default().needs_fetch(0, u64::MAX, false));
    assert_eq!(minutes_of(0), 0);
    assert_eq!(minutes_of(59), 0);
    assert_eq!(minutes_of(60), 1);
    assert_eq!(minutes_of(1_700_000_000), 28_333_333);
}

#[test]
fn webpage_is_claimed_by_one_caller_at_a_time() {
    let mut cache = PageCache::new();
    assert!(!cache.is_pending("a.toml"));
    assert!(matches!(cache.claim("a.toml"), Lookup::Claimed));
    assert!(cache.is_pending("a.toml"));
    for _ in 0..5 {
        assert!(matches!(cache.claim("a.toml"), Lookup::Wait));
    }
    assert!(matches!(cache.claim("b.toml"), Lookup::Claimed));
    cache.complete("a.toml", page(7, Some("contents")));
    assert!(!cache.is_pending("a.toml"));
    assert!(cache.is_pending("b.toml"));
    for _ in 0..5 {
        match cache.claim("a.toml") {
            Lookup::Ready(found) => {
                assert_eq!(found.time, 7);
                assert_eq!(found.contents, Some(String::from("contents")));
            }
            _ => panic!("the page is not ready"),
        }
    }
}

#[test]
fn callers_of_one_webpage_fetch_it_once() {
    let mut cache = PageCache::new();
    let mut fetches = 0;
    let mut waiting = Vec::new();
    let mut found = Vec::new();
    for caller in 0..8 {
        match cache.claim("page.toml") {
            Lookup::Claimed => {
                fetches += 1;
                waiting.push(caller);
            }
            Lookup::Wait => waiting.push(caller),
            Lookup::Ready(page) => found.push(page.contents),
        }
    }
    assert_eq!(fetches, 1);
    assert_eq!(waiting.len(), 8);
    cache.complete("page.toml", page(1, Some("fetched once")));
    for _ in waiting {
        assert!(!cache.is_pending("page.toml"));
        match cache.claim("page.toml") {
            Lookup::Ready(page) => found.push(page.contents),
            _ => fetches += 1,
        }
    }
    assert_eq!(fetches, 1);
    assert_eq!(found.len(), 8);
    assert!(found
        .iter()
        .all(|contents| contents.as_deref() == Some("fetched once")));
}

#[test]
fn failed_fetch_can_be_tried_again() {
    let mut cache = PageCache::new();
    assert!(matches!(cache.claim("a.toml"), Lookup::Claimed));
    cache.abandon("a.toml");
    assert!(!cache.is_pending("a.toml"));
    assert!(matches!(cache.claim("a.toml"), Lookup::Claimed));
    cache.abandon("b.toml");
    assert!(matches!(cache.claim("a.toml"), Lookup::Wait));
}

#[test]
fn short_url_keeps_its_name() {
    assert_eq!(
        filename_friendly("https://api.github.com/repos/a/b/releases/latest"),
        Some(String::from("api.github.com_repos_a_b_releases_latest.toml"))
    );
    assert_eq!(
        filename_friendly("http://x.org/a?b=c#d"),
        Some(String::from("http___x.org_a_b_c_d.toml"))
    );
    assert_eq!(filename_friendly(""), Some(String::from(".toml")));
    assert_eq!(
        filename_friendly("a*b\\c<d>e|f"),
        Some(String::from("a_b_c_d_e_f.toml"))
    );
    let longest = "x".repeat(75);
    assert_eq!(filename_friendly(&longest), Some(format!("{longest}.toml")));
    assert_eq!(
        file_name_with_hash("https://x.org/a", 0),
        String::from("x.org_a.toml")
    );
}

#[test]
fn long_url_is_cut_and_hashed() {
    let url = format!("https://example.org/{}", "abcdefghij".repeat(10));
    let plain = format!("example.org_{}", "abcdefghij".repeat(10));
    assert_eq!(
        file_name_with_hash(&url, 12_345_678_901_234),
        format!("{}12345678.toml", &plain[..67])
    );
    assert_eq!(
        file_name_with_hash(&url, 10_000_000),
        format!("{}10000000.toml", &plain[..67])
    );
    assert_eq!(
        file_name_with_hash(&url, u64::MAX),
        format!("{}18446744.toml", &plain[..67])
    );
    let hash = hash_of(&url);
    let name = filename_friendly(&url);
    if hash >= 10_000_000 {
        let digits = hash.to_string();
        assert_eq!(name, Some(format!("{}{}.toml", &plain[..67], &digits[..8])));
        assert_eq!(name.unwrap().len(), 80);
    } else {
        assert_eq!(name, None);
    }
    assert_eq!(filename_friendly(&url), filename_friendly(&url));
    let just_too_long = "x".repeat(76);
    let hash = hash_of(&just_too_long);
    if hash >= 10_000_000 {
        assert_eq!(
            filename_friendly(&just_too_long),
            Some(format!("{}{}.toml", "x".repeat(67), &hash.to_string()[..8]))
        );
    }
}

#[test]
fn url_that_cannot_be_cut_has_no_name() {
    let url = format!("{}é{}", "x".repeat(66), "y".repeat(20));
    assert_eq!(filename_friendly(&url), None);
    let fits = format!("{}é{}", "x".repeat(65), "y".repeat(20));
    assert!(filename_friendly(&fits).is_some());
}

#[test]
fn page_is_copied() {
    let cached = page(5, Some("text"));
    let copy = cached.copy();
    assert_eq!(copy.time, 5);
    assert_eq!(copy.contents, Some(String::from("text")));
    let empty = FontPage::default();
    assert_eq!(empty.time, 0);
    assert_eq!(empty.contents, None);
}
