use fin::checksum::Checksum;
use fin::error::Error;
use fin::file_action::{FileAction, FileType};
use fin::installed::{InstalledFont, InstalledFonts};
use fin::installer::{select_names, staging_path, Installer};
use fin::source::Source;

fn texts(list: &[&str]) -> Vec<String> {
    list.iter().map(|text| text.to_string()).collect()
}

fn item(name: &str, url: &str, files: &[&str]) -> Installer {
    Installer {
        name: String::from(name),
        source: Source::Direct {
            tag: None,
            url: String::from(url),
        },
        action: FileAction::SingleFile {
            file: String::from("f.ttf"),
        },
        check: None,
        installer_name: String::from(name),
        data: None,
        data_size: 0,
        files: texts(files),
        font_page: None,
    }
}

#[test]
fn names_are_checked() {
    assert_eq!(Installer::validate_name("Hack"), Ok(()));
    assert_eq!(Installer::validate_name("Hack Nerd Font"), Ok(()));
    assert_eq!(Installer::validate_name("a/b"), Ok(()));
    assert_eq!(Installer::validate_name(".hidden"), Ok(()));
    assert_eq!(Installer::validate_name(""), Err(Error::InvalidName));
    assert_eq!(Installer::validate_name("."), Err(Error::InvalidName));
    assert_eq!(Installer::validate_name("/"), Err(Error::InvalidName));
    assert_eq!(Installer::validate_name("./."), Err(Error::InvalidName));
    assert_eq!(Installer::validate_name(".."), Err(Error::InvalidName));
    assert_eq!(Installer::validate_name("../Hack"), Err(Error::InvalidName));
    assert_eq!(Installer::validate_name("a/../b"), Err(Error::InvalidName));
    assert_eq!(Installer::validate_name("a..b"), Err(Error::InvalidName));
}

#[test]
fn descriptor_is_checked_in_order() {
    let parse = |name: &str, source: Source, action: FileAction, tag: Option<&str>| {
        Installer::parse(String::from(name), source, action, None, "d.toml", tag).map(|_| ())
    };
    let direct = || Source::Direct {
        tag: None,
        url: String::from("https://x/$file"),
    };
    let single = |file: &str| FileAction::SingleFile {
        file: String::from(file),
    };
    assert_eq!(parse("..", Source::Unset, FileAction::Unset, None), Err(Error::InvalidName));
    assert_eq!(parse("Foo", Source::Unset, FileAction::Unset, None), Err(Error::NoSource));
    assert_eq!(parse("Foo", direct(), FileAction::Unset, None), Err(Error::NoAction));
    assert_eq!(
        parse("Foo", direct(), single("foo-$tag.ttf"), None),
        Err(Error::UnresolvedTag)
    );
    assert_eq!(
        parse(
            "Foo",
            Source::Direct {
                tag: None,
                url: String::from("https://x/")
            },
            single("foo.ttf"),
            None
        ),
        Err(Error::MissingFilePlaceholder)
    );
    assert_eq!(parse("Foo", direct(), single("foo.ttf"), None), Ok(()));
    let repository = Installer::parse(
        String::from("Hack"),
        Source::GitHub {
            tag: None,
            author: String::from("ryanoasis"),
            project: String::from("nerd-fonts"),
        },
        FileAction::Extract {
            file: String::from("Hack-$tag.zip"),
            includes: texts(&["*.ttf"]),
            excludes: None,
            keep_folders: None,
            file_type: FileType::Unsupported,
        },
        Some(Checksum::SHA256 { file: None }),
        "hack.toml",
        None,
    )
    .unwrap();
    assert_eq!(repository.source.ref_tag(), Ok(Some("latest")));
    assert_eq!(repository.action.ref_file(), Ok("Hack-latest.zip"));
    assert_eq!(repository.installer_name, "hack.toml");
    assert!(repository.check.is_some());
    assert!(repository.data.is_none());
}

#[test]
fn download_reports_its_progress() {
    let mut installer = item("Foo", "https://x/f.ttf", &[]);
    installer.begin_download(Some(10));
    assert_eq!(installer.data, Some(Vec::new()));
    assert_eq!(installer.data_size, 10);
    assert_eq!(installer.receive(b"abcd"), (4, 10));
    assert_eq!(installer.receive(b"efgh"), (8, 10));
    assert_eq!(installer.receive(b"ijkl"), (12, 12));
    assert_eq!(installer.receive(b""), (12, 12));
    assert_eq!(installer.data, Some(b"abcdefghijkl".to_vec()));
    assert_eq!(installer.data_size, 12);
    installer.begin_download(None);
    assert_eq!(installer.data_size, 0);
    assert_eq!(installer.receive(b"ab"), (2, 2));
    let mut unbegun = item("Foo", "https://x/f.ttf", &[]);
    assert_eq!(unbegun.receive(b"abc"), (3, 3));
    assert_eq!(unbegun.data, Some(b"abc".to_vec()));
}

#[test]
fn download_is_verified() {
    let sum = "ba7816bf8f01cfea414140de5dae2223b00361a396177a9cb410ff61f20015ad";
    let mut installer = item("Foo", "https://x/f.ttf", &[]);
    assert_eq!(installer.verify_download(), Err(Error::NoData));
    installer.begin_download(None);
    installer.receive(b"abc");
    assert_eq!(installer.verify_download(), Ok(()));
    installer.check = Some(Checksum::SHA256 { file: None });
    assert_eq!(installer.verify_download(), Err(Error::NoChecksum));
    installer.check = Some(Checksum::SHA256 {
        file: Some(format!("{sum}  f.ttf\n")),
    });
    assert_eq!(installer.verify_download(), Ok(()));
    installer.receive(b"d");
    assert_eq!(installer.verify_download(), Err(Error::ChecksumMismatch));
}

#[test]
fn download_is_staged_and_used_up() {
    let mut installer = item("Foo", "https://x/dl/foo.ttf", &[]);
    assert_eq!(installer.prepare_install().map(|_| ()), Err(Error::NoData));
    installer.begin_download(None);
    installer.receive(b"font");
    let staging = installer.prepare_install().unwrap();
    assert_eq!(staging.files.len(), 1);
    assert_eq!(staging.files[0].path, "foo.ttf");
    assert_eq!(staging.files[0].contents, b"font".to_vec());
    assert_eq!(installer.files, texts(&["foo.ttf"]));
    assert!(installer.data.is_none());
    assert_eq!(installer.prepare_install().map(|_| ()), Err(Error::NoData));
    let mut unresolved = item("Foo", "", &[]);
    unresolved.source = Source::Webpage {
        tag: None,
        url: String::from("https://x.org/f/"),
    };
    unresolved.begin_download(None);
    assert_eq!(unresolved.prepare_install().map(|_| ()), Err(Error::NotDirect));
    assert!(unresolved.data.is_none());
    unresolved.action = FileAction::Extract {
        file: String::from("f.zip"),
        includes: texts(&["*"]),
        excludes: None,
        keep_folders: None,
        file_type: FileType::Zip,
    };
    unresolved.begin_download(None);
    assert_eq!(unresolved.prepare_install().map(|_| ()), Err(Error::BadArchive));
}

#[test]
fn installation_is_planned() {
    let installer = item("Foo", "https://x/f.ttf", &["a.ttf", "sub/b.ttf"]);
    let mut installed = InstalledFonts::new();
    let plan = installer.plan_install(&installed, "/root/fonts", "/cache/staging/");
    assert_eq!(plan.target_dir, "/root/fonts/Foo/");
    assert_eq!(plan.old_files, None);
    assert_eq!(plan.moves.len(), 2);
    assert_eq!(plan.moves[0].from, "/cache/staging/Foo/a.ttf");
    assert_eq!(plan.moves[0].to, "/root/fonts/Foo//a.ttf");
    assert_eq!(plan.moves[0].parent, "/root/fonts/Foo/");
    assert_eq!(plan.moves[1].from, "/cache/staging/Foo/sub/b.ttf");
    assert_eq!(plan.moves[1].to, "/root/fonts/Foo//sub/b.ttf");
    assert_eq!(plan.moves[1].parent, "/root/fonts/Foo//sub");
    installed.update_entry(
        "Foo",
        InstalledFont {
            url: String::from("https://x/old.ttf"),
            dir: String::from("/elsewhere/Foo/"),
            files: texts(&["a.ttf", "old.ttf"]),
        },
    );
    let plan = installer.plan_install(&installed, "/root/fonts", "/cache/staging/");
    assert_eq!(plan.target_dir, "/elsewhere/Foo/");
    assert_eq!(plan.old_files, Some(texts(&["a.ttf", "old.ttf"])));
    assert_eq!(plan.moves[1].to, "/elsewhere/Foo//sub/b.ttf");
    assert_eq!(staging_path("/cache/staging/", "Foo"), "/cache/staging/Foo/");
}

#[test]
fn installation_is_recorded_and_strays_are_deleted() {
    let installer = item("Foo", "https://x/new.ttf", &["a.ttf", "b.ttf"]);
    let mut installed = InstalledFonts::new();
    installed.update_entry(
        "Foo",
        InstalledFont {
            url: String::from("https://x/old.ttf"),
            dir: String::from("/root/fonts/Foo/"),
            files: texts(&["a.ttf", "b.ttf", "c.ttf"]),
        },
    );
    let plan = installer.plan_install(&installed, "/root/fonts", "/cache/staging/");
    assert_eq!(
        installer.finalize_install(&mut installed, &plan, false),
        Ok(texts(&["c.ttf"]))
    );
    let entry = installed.get("Foo").unwrap();
    assert_eq!(entry.url, "https://x/new.ttf");
    assert_eq!(entry.dir, "/root/fonts/Foo/");
    assert_eq!(entry.files, texts(&["a.ttf", "b.ttf"]));
}

#[test]
fn installation_that_failed_is_not_recorded() {
    let installer = item("Foo", "https://x/new.ttf", &["a.ttf"]);
    let mut installed = InstalledFonts::new();
    let plan = installer.plan_install(&installed, "/root/fonts", "/cache/staging/");
    assert_eq!(
        installer.finalize_install(&mut installed, &plan, true),
        Err(Error::FileSystem)
    );
    assert!(installed.get("Foo").is_none());
    assert!(!installed.is_changed());
    let mut unresolved = item("Foo", "", &["a.ttf"]);
    unresolved.source = Source::Unset;
    assert_eq!(
        unresolved.finalize_install(&mut installed, &plan, false),
        Err(Error::NotDirect)
    );
    assert!(installed.get("Foo").is_none());
}

#[test]
fn installing_twice_changes_nothing() {
    let installer = item("Foo", "https://x/new.ttf", &["a.ttf", "sub/b.ttf"]);
    let mut installed = InstalledFonts::new();
    installed.update_entry(
        "Bar",
        InstalledFont {
            url: String::from("u"),
            dir: String::from("d"),
            files: texts(&["x"]),
        },
    );
    let plan = installer.plan_install(&installed, "/root/fonts", "/cache/staging/");
    assert_eq!(installer.finalize_install(&mut installed, &plan, false), Ok(Vec::new()));
    let first = installed.get("Foo").unwrap().copy();
    let again = installer.plan_install(&installed, "/root/fonts", "/cache/staging/");
    assert_eq!(again.target_dir, plan.target_dir);
    assert_eq!(installer.finalize_install(&mut installed, &again, false), Ok(Vec::new()));
    assert_eq!(installed.write("text"), Some(String::from("text")));
    let second = installed.get("Foo").unwrap();
    assert_eq!(second.url, first.url);
    assert_eq!(second.dir, first.dir);
    assert_eq!(second.files, first.files);
    assert_eq!(installed.get_names(), texts(&["Bar", "Foo"]));
}

#[test]
fn descriptor_is_resolved_staged_and_installed() {
    let mut installer = Installer::parse(
        String::from("Foo"),
        Source::Direct {
            tag: None,
            url: String::from("https://x/$file"),
        },
        FileAction::SingleFile {
            file: String::from("foo-$tag.ttf"),
        },
        None,
        "Foo",
        Some("v2"),
    )
    .unwrap();
    assert_eq!(installer.source.webpage_to_read("foo-v2.ttf"), Ok(None));
    assert_eq!(installer.source.ref_direct_url(), Ok("https://x/foo-v2.ttf"));
    installer.begin_download(Some(4));
    installer.receive(b"font");
    assert_eq!(installer.verify_download(), Ok(()));
    let staging = installer.prepare_install().unwrap();
    let mut installed = InstalledFonts::new();
    let plan = installer.plan_install(&installed, "<root>", "<staging>/");
    assert_eq!(staging.files[0].path, "foo-v2.ttf");
    assert_eq!(
        format!("{}{}", staging_path("<staging>/", "Foo"), staging.files[0].path),
        "<staging>/Foo/foo-v2.ttf"
    );
    assert_eq!(plan.moves[0].from, "<staging>/Foo/foo-v2.ttf");
    assert_eq!(installer.finalize_install(&mut installed, &plan, false), Ok(Vec::new()));
    let entry = installed.get("Foo").unwrap();
    assert_eq!(entry.url, "https://x/foo-v2.ttf");
    assert_eq!(entry.dir, "<root>/Foo/");
    assert_eq!(entry.files, texts(&["foo-v2.ttf"]));
    assert!(installed.is_changed());
}

#[test]
fn updates_are_found() {
    let installer = item("Foo", "https://x/v2.ttf", &[]);
    let mut installed = InstalledFonts::new();
    assert_eq!(installer.has_updates(&installed, true), Ok(true));
    assert_eq!(installer.has_updates(&installed, false), Ok(true));
    installed.update_entry(
        "Foo",
        InstalledFont {
            url: String::from("https://x/v1.ttf"),
            dir: String::from("d"),
            files: Vec::new(),
        },
    );
    assert_eq!(installer.has_updates(&installed, true), Ok(true));
    installed.update_entry(
        "Foo",
        InstalledFont {
            url: String::from("https://x/v2.ttf"),
            dir: String::from("d"),
            files: Vec::new(),
        },
    );
    assert_eq!(installer.has_updates(&installed, true), Ok(false));
    assert_eq!(installer.has_updates(&installed, false), Ok(true));
    let mut unresolved = item("Foo", "", &[]);
    unresolved.source = Source::Unset;
    assert_eq!(unresolved.has_updates(&installed, true), Err(Error::NotDirect));
}

#[test]
fn descriptors_are_selected_by_filters_with_tags() {
    let available = texts(&["Inter", "Hack", "Iosevka"]);
    assert_eq!(
        Installer::filter_installers(&available, &texts(&["I*", "Hack:v3", "none", "Inter"])),
        (texts(&["Hack:v3", "Inter", "Iosevka"]), texts(&["none"]))
    );
    assert_eq!(
        Installer::filter_installers(&available, &texts(&["*:v1:x", "I*:v2"])),
        (
            texts(&[
                "Hack:v1:x",
                "Inter:v1:x",
                "Inter:v2",
                "Iosevka:v1:x",
                "Iosevka:v2"
            ]),
            Vec::new()
        )
    );
    assert_eq!(
        Installer::filter_installers(&available, &[]),
        (Vec::new(), Vec::new())
    );
    assert_eq!(
        Installer::filter_installers(&[], &texts(&["*", "*"])),
        (Vec::new(), texts(&["*", "*"]))
    );
    assert_eq!(
        Installer::filter_installers(&available, &texts(&["Hack:"])),
        (texts(&["Hack:"]), Vec::new())
    );
}

#[test]
fn installed_items_are_selected_by_filters() {
    let mut installed = InstalledFonts::new();
    for name in ["Inter", "Hack", "Iosevka"] {
        installed.update_entry(
            name,
            InstalledFont {
                url: String::new(),
                dir: String::new(),
                files: Vec::new(),
            },
        );
    }
    assert_eq!(
        Installer::filter_installed(&texts(&["I*", "I*", "none", "Hack:v3"]), &installed),
        (texts(&["Inter", "Iosevka"]), texts(&["none", "Hack:v3"]))
    );
    assert_eq!(
        Installer::filter_installed(&texts(&["*"]), &installed),
        (texts(&["Hack", "Inter", "Iosevka"]), Vec::new())
    );
    assert_eq!(
        select_names(&texts(&["b", "a"]), &texts(&["*"]), false),
        (texts(&["a", "b"]), Vec::new())
    );
}

#[test]
fn installing_what_is_recorded_leaves_the_records_unchanged() {
    let installer = item("Foo", "https://x/new.ttf", &["a.ttf"]);
    let records = vec![(
        String::from("Foo"),
        InstalledFont {
            url: String::from("https://x/new.ttf"),
            dir: String::from("/root/fonts/Foo/"),
            files: texts(&["a.ttf"]),
        },
    )];
    let mut installed = InstalledFonts::read(&records);
    let plan = installer.plan_install(&installed, "/root/fonts", "/cache/staging/");
    assert_eq!(installer.finalize_install(&mut installed, &plan, false), Ok(Vec::new()));
    assert!(!installed.is_changed());
    let newer = item("Foo", "https://x/newer.ttf", &["a.ttf"]);
    assert_eq!(newer.finalize_install(&mut installed, &plan, false), Ok(Vec::new()));
    assert!(installed.is_changed());
}
