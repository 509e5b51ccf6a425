use fin::error::Error;
use fin::file_action::{FileAction, FileType};
use fin::source::Source;

fn github(tag: Option<&str>, author: &str, project: &str) -> Source {
    Source::GitHub {
        tag: tag.map(String::from),
        author: String::from(author),
        project: String::from(project),
    }
}

fn webpage(tag: Option<&str>, url: &str) -> Source {
    Source::Webpage {
        tag: tag.map(String::from),
        url: String::from(url),
    }
}

fn direct(tag: Option<&str>, url: &str) -> Source {
    Source::Direct {
        tag: tag.map(String::from),
        url: String::from(url),
    }
}

fn extract(file: &str, includes: &[&str], excludes: Option<&[&str]>) -> FileAction {
    FileAction::Extract {
        file: String::from(file),
        includes: includes.iter().map(|p| p.to_string()).collect(),
        excludes: excludes.map(|list| list.iter().map(|p| p.to_string()).collect()),
        keep_folders: None,
        file_type: FileType::Unsupported,
    }
}

#[test]
fn tag_is_settled() {
    let mut source = github(None, "a", "p");
    source.validate_tag(None);
    assert_eq!(source.ref_tag(), Ok(Some("latest")));
    source.validate_tag(Some("v1"));
    assert_eq!(source.ref_tag(), Ok(Some("v1")));
    source.validate_tag(None);
    assert_eq!(source.ref_tag(), Ok(Some("v1")));
    let mut source = webpage(None, "https://x.org/f/");
    source.validate_tag(None);
    assert_eq!(source.ref_tag(), Ok(None));
    source.validate_tag(Some("v2"));
    assert_eq!(source.ref_tag(), Ok(Some("v2")));
    let mut source = direct(Some("v1"), "https://x.org/$file");
    source.validate_tag(Some("v3"));
    assert_eq!(source.ref_tag(), Ok(Some("v3")));
    let mut source = Source::Unset;
    source.validate_tag(Some("v3"));
    assert_eq!(source.ref_tag(), Err(Error::NoSource));
}

#[test]
fn repository_is_checked() {
    assert_eq!(github(None, "", "p").validate("f.zip"), Err(Error::MissingAuthor));
    assert_eq!(github(None, "a", "").validate("f.zip"), Err(Error::MissingProject));
    assert_eq!(github(None, "", "").validate("f.zip"), Err(Error::MissingAuthor));
    assert_eq!(github(None, "a/b", "p").validate("f.zip"), Err(Error::InvalidAuthor));
    assert_eq!(github(None, "a", "p?x").validate("f.zip"), Err(Error::InvalidProject));
    assert_eq!(github(None, "a#", "p&").validate("f.zip"), Err(Error::InvalidAuthor));
    assert_eq!(github(None, "a", "p$").validate("f.zip"), Err(Error::InvalidProject));
    assert_eq!(github(None, "a", "p\\").validate("f.zip"), Err(Error::InvalidProject));
    assert_eq!(github(None, "a-b", "p.q").validate("f.zip"), Ok(()));
}

#[test]
fn webpage_is_checked_and_its_tag_filled() {
    assert_eq!(webpage(None, "x.org").validate("f.zip"), Err(Error::InvalidUrl));
    assert_eq!(webpage(None, "https://x/").validate("f.zip"), Err(Error::InvalidUrl));
    assert_eq!(
        webpage(None, "https://x.org/$tag/").validate("f.zip"),
        Err(Error::UnresolvedTag)
    );
    let mut source = webpage(Some("v2"), "https://x.org/$tag/$tag.html");
    assert_eq!(source.validate("f.zip"), Ok(()));
    assert_eq!(source.ref_webpage_url(), Ok("https://x.org/v2/v2.html"));
    let mut source = webpage(None, "https://x.org/fonts/");
    assert_eq!(source.validate("f.zip"), Ok(()));
    assert_eq!(source.ref_webpage_url(), Ok("https://x.org/fonts/"));
    assert_eq!(source.ref_direct_url(), Err(Error::NotDirect));
}

#[test]
fn direct_url_gets_its_file() {
    assert_eq!(
        direct(None, "https://x.org/f.zip").validate("f.zip"),
        Err(Error::MissingFilePlaceholder)
    );
    assert_eq!(
        direct(None, "https://x.org/$file/").validate("f.zip"),
        Err(Error::MissingFilePlaceholder)
    );
    let mut source = direct(None, "https://x.org/$file");
    assert_eq!(source.validate("f.zip"), Ok(()));
    assert_eq!(source.ref_direct_url(), Ok("https://x.org/f.zip"));
    assert_eq!(source.ref_webpage_url(), Err(Error::NotWebpage));
    let mut source = direct(None, "https://x.org/$file/$file");
    assert_eq!(source.validate("f.zip"), Ok(()));
    assert_eq!(source.ref_direct_url(), Ok("https://x.org/f.zip/f.zip"));
    assert_eq!(Source::Unset.validate("f.zip"), Err(Error::NoSource));
}

#[test]
fn repository_becomes_the_webpage_of_its_releases() {
    let mut source = github(Some("latest"), "ryanoasis", "nerd-fonts");
    assert_eq!(
        source.webpage_to_read("Hack.zip"),
        Ok(Some(String::from(
            "https://api.github.com/repos/ryanoasis/nerd-fonts/releases/latest"
        )))
    );
    assert_eq!(
        source.ref_webpage_url(),
        Ok("https://api.github.com/repos/ryanoasis/nerd-fonts/releases/latest")
    );
    assert_eq!(source.ref_tag(), Ok(Some("latest")));
    assert_eq!(
        source.webpage_to_read("Hack.zip"),
        Ok(Some(String::from(
            "https://api.github.com/repos/ryanoasis/nerd-fonts/releases/latest"
        )))
    );
    let mut untagged = github(None, "a", "p");
    assert_eq!(untagged.webpage_to_read("f.zip"), Err(Error::UnresolvedTag));
    assert!(matches!(untagged, Source::GitHub { .. }));
    let mut done = direct(None, "https://x.org/f.zip");
    assert_eq!(done.webpage_to_read("f.zip"), Ok(None));
    assert_eq!(Source::Unset.webpage_to_read("f.zip"), Ok(None));
}

#[test]
fn link_is_found_between_quotes() {
    let page = r#"{"name":"Hack.zip","url":"https://x.org/dl/v3/Hack.zip","size":1}"#;
    assert_eq!(
        Source::find_direct_link(page, "Hack.zip"),
        Ok(String::from("https://x.org/dl/v3/Hack.zip"))
    );
    assert_eq!(
        Source::find_direct_link(page, "Inter.zip"),
        Err(Error::LinkNotFound)
    );
    assert_eq!(Source::find_direct_link("", "Hack.zip"), Err(Error::LinkNotFound));
    assert_eq!(
        Source::find_direct_link("see https://x.org/Hack.zip", "Hack.zip"),
        Ok(String::from("https://x.org/Hack.zip"))
    );
    let two = r#"<a href="https://a.org/Hack.zip">a</a> <a href="https://b.org/Hack.zip">b</a>"#;
    assert_eq!(
        Source::find_direct_link(two, "Hack.zip"),
        Ok(String::from("https://a.org/Hack.zip"))
    );
    let split = r#"https://a.org/"Hack.zip"#;
    assert_eq!(Source::find_direct_link(split, "Hack.zip"), Err(Error::LinkNotFound));
    let other = r#"é "https://a.org/ü/Hack.zip" é"#;
    assert_eq!(
        Source::find_direct_link(other, "Hack.zip"),
        Ok(String::from("https://a.org/ü/Hack.zip"))
    );
}

#[test]
fn webpage_becomes_the_link_found_on_it() {
    let page = r#"{"browser_download_url":"https://x.org/dl/v3/Hack.zip"}"#;
    let mut source = webpage(Some("v3"), "https://x.org/releases/v3");
    assert_eq!(source.into_direct_url(page, "Hack.zip"), Ok(()));
    assert_eq!(source.ref_direct_url(), Ok("https://x.org/dl/v3/Hack.zip"));
    assert_eq!(source.ref_tag(), Ok(Some("v3")));
    assert_eq!(source.into_direct_url("", "Hack.zip"), Ok(()));
    assert_eq!(source.ref_direct_url(), Ok("https://x.org/dl/v3/Hack.zip"));
    let mut lost = webpage(None, "https://x.org/releases/");
    assert_eq!(lost.into_direct_url(page, "Inter.zip"), Err(Error::LinkNotFound));
    assert_eq!(lost.ref_webpage_url(), Ok("https://x.org/releases/"));
    let mut repository = github(Some("v3"), "a", "p");
    assert_eq!(repository.into_direct_url(page, "Hack.zip"), Ok(()));
    assert_eq!(repository.ref_direct_url(), Ok("https://x.org/dl/v3/Hack.zip"));
    let mut bad = github(Some("v3"), "a", "");
    assert_eq!(bad.into_direct_url(page, "Hack.zip"), Ok(()));
    assert!(matches!(bad, Source::Direct { .. }));
    let mut unset = Source::Unset;
    assert_eq!(unset.into_direct_url(page, "Hack.zip"), Ok(()));
    assert!(matches!(unset, Source::Unset));
}

#[test]
fn source_is_taken() {
    let mut source = direct(Some("v1"), "https://x.org/f.zip");
    let taken = source.take();
    assert!(matches!(source, Source::Unset));
    assert_eq!(taken.ref_direct_url(), Ok("https://x.org/f.zip"));
    assert_eq!(taken.ref_tag(), Ok(Some("v1")));
}

#[test]
fn action_is_checked_and_its_tag_filled() {
    let mut action = extract("Hack-$tag.zip", &["*$tag*.ttf", "*.otf"], Some(&["*Mono$tag*"]));
    assert_eq!(action.validate(Some("v3")), Ok(()));
    match &action {
        FileAction::Extract {
            file,
            includes,
            excludes,
            keep_folders,
            file_type,
        } => {
            assert_eq!(file, "Hack-v3.zip");
            assert_eq!(includes, &vec![String::from("*v3*.ttf"), String::from("*.otf")]);
            assert_eq!(excludes, &Some(vec![String::from("*Monov3*")]));
            assert_eq!(*keep_folders, None);
            assert_eq!(*file_type, FileType::Zip);
        }
        _ => panic!("the action no longer extracts"),
    }
    assert_eq!(action.ref_file(), Ok("Hack-v3.zip"));
    let mut single = FileAction::SingleFile {
        file: String::from("foo-$tag.ttf"),
    };
    assert_eq!(single.validate(Some("v2")), Ok(()));
    assert_eq!(single.ref_file(), Ok("foo-v2.ttf"));
    let mut plain = FileAction::SingleFile {
        file: String::from("foo.ttf"),
    };
    assert_eq!(plain.validate(None), Ok(()));
    assert_eq!(plain.ref_file(), Ok("foo.ttf"));
}

#[test]
fn action_that_is_refused_stays_as_it_was() {
    assert_eq!(extract("a.zip", &[], None).validate(None), Err(Error::EmptyInclude));
    assert_eq!(
        extract("a.zip", &["*$tag"], None).validate(None),
        Err(Error::UnresolvedTag)
    );
    assert_eq!(
        extract("a.zip", &["*"], Some(&["$tag"])).validate(None),
        Err(Error::UnresolvedTag)
    );
    assert_eq!(
        extract("a.zip", &["*$t", "ag"], None).validate(None),
        Err(Error::UnresolvedTag)
    );
    assert_eq!(
        extract("a$tag.zip", &["*"], None).validate(None),
        Err(Error::UnresolvedTag)
    );
    assert_eq!(extract("azip", &["*"], None).validate(None), Err(Error::MissingExtension));
    assert_eq!(extract("a.*", &["*"], None).validate(None), Err(Error::TrailingWildcard));
    assert_eq!(extract(".", &["*"], None).validate(None), Err(Error::InvalidFile));
    assert_eq!(
        extract("a.rar", &["*"], None).validate(None),
        Err(Error::UnsupportedExtension)
    );
    assert_eq!(
        extract("a.tar.xz", &["*"], None).validate(None),
        Err(Error::UnsupportedExtension)
    );
    assert_eq!(extract("a.gz", &["*"], None).validate(None), Err(Error::UnsupportedExtension));
    assert_eq!(FileAction::Unset.validate(Some("v1")), Err(Error::NoAction));
    assert_eq!(FileAction::Unset.ref_file(), Err(Error::NoAction));
    let mut action = extract("a.$tag", &["*$tag"], Some(&["$tag"]));
    assert_eq!(action.validate(Some("rar")), Err(Error::UnsupportedExtension));
    match &action {
        FileAction::Extract {
            file,
            includes,
            excludes,
            ..
        } => {
            assert_eq!(file, "a.$tag");
            assert_eq!(includes, &vec![String::from("*$tag")]);
            assert_eq!(excludes, &Some(vec![String::from("$tag")]));
        }
        _ => panic!("the action no longer extracts"),
    }
    let mut by_tag = extract("a.$tag", &["*"], None);
    assert_eq!(by_tag.validate(Some("zip")), Ok(()));
    assert_eq!(by_tag.ref_file(), Ok("a.zip"));
}

#[test]
fn file_is_checked_and_its_tag_filled() {
    let check = |file: &str, tag: Option<&str>| {
        let mut file = String::from(file);
        let result = FileAction::validate_file(&mut file, tag);
        (result, file)
    };
    assert_eq!(check("a-$tag.ttf", Some("v1")), (Ok(()), String::from("a-v1.ttf")));
    assert_eq!(check("$tag$tag.t", Some("")), (Ok(()), String::from(".t")));
    assert_eq!(check("a.ttf", None), (Ok(()), String::from("a.ttf")));
    assert_eq!(check("a.ttf", Some("v1")), (Ok(()), String::from("a.ttf")));
    assert_eq!(
        check("attf", Some("v1")),
        (Err(Error::MissingExtension), String::from("attf"))
    );
    assert_eq!(check("", None), (Err(Error::MissingExtension), String::from("")));
    assert_eq!(check("a.*", None), (Err(Error::TrailingWildcard), String::from("a.*")));
    assert_eq!(check(".", None), (Err(Error::InvalidFile), String::from(".")));
    assert_eq!(
        check("a-$tag.ttf", None),
        (Err(Error::UnresolvedTag), String::from("a-$tag.ttf"))
    );
}

#[test]
fn kind_of_archive_is_told_by_the_extension() {
    assert_eq!(FileAction::get_file_type("a.zip"), FileType::Zip);
    assert_eq!(FileAction::get_file_type("a.b.zip"), FileType::Zip);
    assert_eq!(FileAction::get_file_type("a.tar"), FileType::Tar);
    assert_eq!(FileAction::get_file_type("a.tar.gz"), FileType::TarGz);
    assert_eq!(FileAction::get_file_type("a.gz"), FileType::Unsupported);
    assert_eq!(FileAction::get_file_type("gz"), FileType::Unsupported);
    assert_eq!(FileAction::get_file_type("tar.gz"), FileType::TarGz);
    assert_eq!(FileAction::get_file_type("a.tar.xz"), FileType::Unsupported);
    assert_eq!(FileAction::get_file_type("a.ZIP"), FileType::Unsupported);
    assert_eq!(FileAction::get_file_type("zip"), FileType::Zip);
    assert_eq!(FileAction::get_file_type(""), FileType::Unsupported);
    assert_eq!(FileType::default(), FileType::Unsupported);
}

#[test]
fn action_is_taken() {
    let mut action = FileAction::SingleFile {
        file: String::from("a.ttf"),
    };
    let taken = action.take();
    assert!(matches!(action, FileAction::Unset));
    assert_eq!(taken.ref_file(), Ok("a.ttf"));
}
