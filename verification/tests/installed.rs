use fin::error::Error;
use fin::installed::{
    copy_texts, dir_name, directories_of, directory_in, file_in, holds_text, stray_files,
    InstalledFont, InstalledFonts, Removal,
};
use fin::ordered::comes_first;

fn texts(list: &[&str]) -> Vec<String> {
    list.iter().map(|text| text.to_string()).collect()
}

fn font(url: &str, dir: &str, files: &[&str]) -> InstalledFont {
    InstalledFont {
        url: String::from(url),
        dir: String::from(dir),
        files: texts(files),
    }
}

#[test]
fn records_are_kept_by_name_and_in_order() {
    let mut installed = InstalledFonts::new();
    assert!(!installed.is_changed());
    assert!(installed.get_names().is_empty());
    assert!(installed.get("Hack").is_none());
    installed.update_entry("Inter", font("https://x/i", "/f/Inter/", &["i.ttf"]));
    assert!(installed.is_changed());
    installed.update_entry("Hack", font("https://x/h", "/f/Hack/", &["h.ttf"]));
    installed.update_entry("Iosevka", font("https://x/o", "/f/Iosevka/", &[]));
    installed.update_entry("hack", font("https://x/l", "/f/hack/", &[]));
    assert_eq!(installed.get_names(), texts(&["Hack", "Inter", "Iosevka", "hack"]));
    let hack = installed.get("Hack").unwrap();
    assert_eq!(hack.url, "https://x/h");
    assert_eq!(hack.dir, "/f/Hack/");
    assert_eq!(hack.files, texts(&["h.ttf"]));
    installed.update_entry("Hack", font("https://x/h2", "/f/Hack/", &["h.ttf", "b.ttf"]));
    assert_eq!(installed.get_names().len(), 4);
    assert_eq!(installed.get("Hack").unwrap().url, "https://x/h2");
    assert_eq!(installed.get("Hack").unwrap().files.len(), 2);
    assert_eq!(installed.get("Inter").unwrap().url, "https://x/i");
    let copy = installed.get("Inter").unwrap().copy();
    assert_eq!(copy.dir, "/f/Inter/");
}

#[test]
fn records_are_removed() {
    let mut installed = InstalledFonts::new();
    installed.update_entry("b", font("u", "d", &[]));
    installed.update_entry("a", font("u", "d", &[]));
    installed.update_entry("c", font("u", "d", &[]));
    installed.remove_entry("b");
    assert_eq!(installed.get_names(), texts(&["a", "c"]));
    assert!(installed.get("b").is_none());
    installed.remove_entry("b");
    assert_eq!(installed.get_names(), texts(&["a", "c"]));
    installed.remove_entry("a");
    installed.remove_entry("c");
    assert!(installed.get_names().is_empty());
    let mut fresh = InstalledFonts::new();
    fresh.remove_entry("a");
    assert!(!fresh.is_changed());
    assert!(fresh.get_names().is_empty());
}

#[test]
fn strays_are_the_files_that_are_gone() {
    assert_eq!(
        stray_files(&texts(&["a", "b", "c"]), &texts(&["a", "b"])),
        texts(&["c"])
    );
    assert!(stray_files(&texts(&["a", "b"]), &texts(&["a", "b"])).is_empty());
    assert!(stray_files(&texts(&["a", "b"]), &texts(&["b", "a", "c"])).is_empty());
    assert_eq!(
        stray_files(&texts(&["x/a", "b", "x/a"]), &texts(&["a"])),
        texts(&["x/a", "b", "x/a"])
    );
    assert!(stray_files(&[], &texts(&["a"])).is_empty());
    assert_eq!(stray_files(&texts(&["a"]), &[]), texts(&["a"]));
    assert!(holds_text(&texts(&["a", "b"]), "b"));
    assert!(!holds_text(&texts(&["a", "b"]), "c"));
    assert_eq!(copy_texts(&texts(&["a", "b"])), texts(&["a", "b"]));
}

#[test]
fn directories_come_innermost_first() {
    assert_eq!(
        directories_of(&texts(&["a/b/c.ttf", "a/d.ttf", "e.ttf", "f/g.ttf"])),
        texts(&["f", "a/b", "a", ""])
    );
    assert_eq!(directories_of(&texts(&["c.ttf"])), texts(&[""]));
    assert_eq!(directories_of(&[]), texts(&[""]));
    assert_eq!(
        directories_of(&texts(&["static/x.ttf", "static/y.ttf"])),
        texts(&["static", ""])
    );
    assert_eq!(directories_of(&texts(&["a//b"])), texts(&["a/", "a", ""]));
}

#[test]
fn cleanup_deletes_what_is_gone_and_looks_at_its_directories() {
    let gone = stray_files(&texts(&["a", "b", "sub/c"]), &texts(&["a", "b"]));
    assert_eq!(gone, texts(&["sub/c"]));
    assert_eq!(directories_of(&gone), texts(&["sub", ""]));
}

#[test]
fn item_is_taken_out_of_the_records() {
    let mut installed = InstalledFonts::new();
    installed.update_entry("Hack", font("u", "/f/Hack/", &["h.ttf"]));
    assert_eq!(installed.uninstall("Inter", Removal::Removed), Ok(None));
    assert_eq!(installed.uninstall("Hack", Removal::Failed), Err(Error::FileSystem));
    assert!(installed.get("Hack").is_some());
    assert_eq!(
        installed.uninstall("Hack", Removal::Removed),
        Ok(Some(String::from("/f/Hack/")))
    );
    assert!(installed.get("Hack").is_none());
    installed.update_entry("Hack", font("u", "/f/Hack/", &["h.ttf"]));
    assert_eq!(
        installed.uninstall("Hack", Removal::DirectoryMissing),
        Ok(Some(String::from("/f/Hack/")))
    );
    assert!(installed.get_names().is_empty());
}

#[test]
fn directory_is_named_by_its_last_part() {
    assert_eq!(dir_name("/home/me/fonts/Hack/"), "Hack");
    assert_eq!(dir_name("/home/me/fonts/Hack"), "fonts");
    assert_eq!(dir_name("Hack/"), "Hack");
    assert_eq!(dir_name("Hack"), "(unknown)");
    assert_eq!(dir_name(""), "(unknown)");
    assert_eq!(file_in("/f/Hack/", "sub/h.ttf"), "/f/Hack//sub/h.ttf");
    assert_eq!(directory_in("/f/Hack/", "sub"), "/f/Hack/sub");
    assert_eq!(directory_in("/f/Hack/", ""), "/f/Hack/");
}

#[test]
fn texts_are_ordered_by_their_bytes() {
    assert!(comes_first("a", "b"));
    assert!(!comes_first("b", "a"));
    assert!(!comes_first("a", "a"));
    assert!(comes_first("a", "ab"));
    assert!(comes_first("", "a"));
    assert!(!comes_first("", ""));
    assert!(comes_first("Z", "a"));
    assert!(comes_first("z", "é"));
}

#[test]
fn records_are_read_unchanged_and_written_when_changed() {
    let records = vec![
        (String::from("b"), font("u1", "d1", &["x"])),
        (String::from("a"), font("u2", "d2", &[])),
        (String::from("b"), font("u3", "d3", &["y", "z"])),
    ];
    let mut installed = InstalledFonts::read(&records);
    assert!(!installed.is_changed());
    assert_eq!(installed.get_names(), texts(&["a", "b"]));
    assert_eq!(installed.get("b").unwrap().url, "u3");
    assert_eq!(installed.get("b").unwrap().files, texts(&["y", "z"]));
    let text = "[b]\nurl = \"u3\"\nfiles = [\"y\", \"z\"]\n";
    assert_eq!(installed.write(text), None);
    installed.remove_entry("a");
    assert_eq!(
        installed.write(text),
        Some(String::from("[b]\nurl = \"u3\"\nfiles = [\n\t\"y\",\n\t\"z\"\n]\n"))
    );
    assert_eq!(installed.write("files = []\n"), Some(String::from("files = []\n")));
    assert!(InstalledFonts::read(&[]).get_names().is_empty());
}

#[test]
fn cleanup_names_the_files_that_are_gone() {
    let mut installed = InstalledFonts::new();
    installed.update_entry("Hack", font("u", "d", &["a", "b"]));
    assert_eq!(
        installed.cleanup("Hack", &Some(texts(&["a", "b", "c"]))),
        texts(&["c"])
    );
    assert!(installed.cleanup("Hack", &Some(texts(&["b", "a"]))).is_empty());
    assert!(installed.cleanup("Hack", &None).is_empty());
    assert!(installed.cleanup("Inter", &Some(texts(&["c"]))).is_empty());
}

#[test]
fn records_count_as_changed_only_where_they_change() {
    let records = vec![(String::from("a"), font("u", "d", &["x", "y"]))];
    let mut installed = InstalledFonts::read(&records);
    installed.remove_entry("b");
    assert!(!installed.is_changed());
    installed.update_entry("a", font("u", "d", &["x", "y"]));
    assert!(!installed.is_changed());
    assert_eq!(installed.write("text"), None);
    installed.update_entry("a", font("u", "d", &["y", "x"]));
    assert!(installed.is_changed());
    let mut installed = InstalledFonts::read(&records);
    installed.update_entry("a", font("u2", "d", &["x", "y"]));
    assert!(installed.is_changed());
    let mut installed = InstalledFonts::read(&records);
    installed.update_entry("a", font("u", "d", &["x"]));
    assert!(installed.is_changed());
    let mut installed = InstalledFonts::read(&records);
    installed.update_entry("b", font("u", "d", &["x", "y"]));
    assert!(installed.is_changed());
    let mut installed = InstalledFonts::read(&records);
    installed.remove_entry("a");
    assert!(installed.is_changed());
    installed.remove_entry("a");
    assert!(installed.is_changed());
    assert!(font("u", "d", &["x"]).same_as(&font("u", "d", &["x"])));
    assert!(!font("u", "d", &["x"]).same_as(&font("u", "e", &["x"])));
}
