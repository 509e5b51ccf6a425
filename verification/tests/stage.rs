use fin::error::Error;
use fin::file_action::{FileAction, FileType};
use fin::stage::{place_entry, plan_staging, stage_single, Staging};
use std::io::Write;

fn texts(list: &[&str]) -> Vec<String> {
    list.iter().map(|text| text.to_string()).collect()
}

fn zip_of(entries: &[(&str, &[u8])]) -> Vec<u8> {
    let mut writer = zip::ZipWriter::new(std::io::Cursor::new(Vec::new()));
    let options = zip::write::SimpleFileOptions::default()
        .compression_method(zip::CompressionMethod::Deflated);
    for (name, contents) in entries {
        if name.ends_with('/') {
            writer.add_directory(*name, options).unwrap();
        } else {
            writer.start_file(*name, options).unwrap();
            writer.write_all(contents).unwrap();
        }
    }
    writer.finish().unwrap().into_inner()
}

fn tar_of(entries: &[(&str, &[u8])]) -> Vec<u8> {
    let mut builder = tar::Builder::new(Vec::new());
    for (name, contents) in entries {
        let mut header = tar::Header::new_gnu();
        if name.ends_with('/') {
            header.set_entry_type(tar::EntryType::Directory);
            header.set_size(0);
        } else {
            header.set_size(contents.len() as u64);
        }
        header.set_mode(0o644);
        header.set_path(name).unwrap();
        header.set_cksum();
        if name.ends_with('/') {
            builder.append(&header, std::io::empty()).unwrap();
        } else {
            builder.append(&header, *contents).unwrap();
        }
    }
    builder.into_inner().unwrap()
}

fn gzip_of(data: &[u8]) -> Vec<u8> {
    let mut encoder = flate2::write::GzEncoder::new(Vec::new(), flate2::Compression::default());
    encoder.write_all(data).unwrap();
    encoder.finish().unwrap()
}

fn staged(staging: &Staging) -> Vec<(String, Vec<u8>)> {
    staging
        .files
        .iter()
        .map(|file| (file.path.clone(), file.contents.clone()))
        .collect()
}

fn entries() -> Vec<(&'static str, &'static [u8])> {
    vec![
        ("fonts/", b"".as_slice()),
        ("fonts/Hack-Regular.ttf", b"regular".as_slice()),
        ("fonts/Hack-Bold.ttf", b"bold".as_slice()),
        ("fonts/mono/", b"".as_slice()),
        ("fonts/mono/Hack-Mono.ttf", b"mono".as_slice()),
        ("docs/", b"".as_slice()),
        ("docs/README.md", b"read me".as_slice()),
        ("LICENSE", b"free".as_slice()),
    ]
}

#[test]
fn plan_keeps_folders_and_picks_selected_files() {
    let names = texts(&[
        "fonts/",
        "fonts/Hack-Regular.ttf",
        "fonts/Hack-Bold.ttf",
        "docs/",
        "docs/README.md",
        "",
        "LICENSE",
    ]);
    let (folders, picks) = plan_staging(&names, &texts(&["*.ttf", "LICENSE"]), &texts(&["*Bold*"]), true);
    assert_eq!(folders, texts(&["fonts/", "docs/", ""]));
    assert_eq!(picks, vec![1, 6]);
    let (folders, picks) = plan_staging(&names, &texts(&["*"]), &[], false);
    assert!(folders.is_empty());
    assert_eq!(picks, vec![1, 2, 4, 6]);
    let (folders, picks) = plan_staging(&names, &[], &[], true);
    assert_eq!(folders.len(), 3);
    assert!(picks.is_empty());
    let (folders, picks) = plan_staging(&[], &texts(&["*"]), &[], true);
    assert!(folders.is_empty() && picks.is_empty());
}

#[test]
fn entries_are_placed_with_or_without_folders() {
    assert_eq!(place_entry("a/b/c.ttf", true), "a/b/c.ttf");
    assert_eq!(place_entry("a/b/c.ttf", false), "c.ttf");
    assert_eq!(place_entry("c.ttf", false), "c.ttf");
    assert_eq!(place_entry("/c.ttf", false), "c.ttf");
}

#[test]
fn zip_is_staged_flat() {
    let data = zip_of(&entries());
    let staging = FileAction::extract_zip(&data, &texts(&["*.ttf"]), &texts(&["*Mono*"]), false).unwrap();
    assert!(staging.folders.is_empty());
    assert_eq!(
        staged(&staging),
        vec![
            (String::from("Hack-Regular.ttf"), b"regular".to_vec()),
            (String::from("Hack-Bold.ttf"), b"bold".to_vec()),
        ]
    );
    assert_eq!(staging.paths(), texts(&["Hack-Regular.ttf", "Hack-Bold.ttf"]));
}

#[test]
fn zip_is_staged_with_folders() {
    let data = zip_of(&entries());
    let staging = FileAction::extract_zip(&data, &texts(&["*Mono*"]), &[], true).unwrap();
    assert_eq!(staging.folders, texts(&["fonts/", "fonts/mono/", "docs/"]));
    assert_eq!(
        staged(&staging),
        vec![(String::from("fonts/mono/Hack-Mono.ttf"), b"mono".to_vec())]
    );
}

#[test]
fn flat_names_may_collide() {
    let data = zip_of(&[("a/x.ttf", b"one".as_slice()), ("b/x.ttf", b"two".as_slice())]);
    let staging = FileAction::extract_zip(&data, &texts(&["*"]), &[], false).unwrap();
    assert_eq!(
        staged(&staging),
        vec![
            (String::from("x.ttf"), b"one".to_vec()),
            (String::from("x.ttf"), b"two".to_vec()),
        ]
    );
}

#[test]
fn what_is_no_archive_is_refused() {
    assert_eq!(
        FileAction::extract_zip(b"no archive", &texts(&["*"]), &[], false).map(|_| ()),
        Err(Error::BadArchive)
    );
    assert_eq!(
        FileAction::extract_tar_gz(b"no archive", &texts(&["*"]), &[], false).map(|_| ()),
        Err(Error::BadArchive)
    );
    assert_eq!(
        FileAction::extract_tar(&[1u8; 600], &texts(&["*"]), &[], false).map(|_| ()),
        Err(Error::BadArchive)
    );
    let mut cut = zip_of(&entries());
    cut.truncate(cut.len() - 10);
    assert_eq!(
        FileAction::extract_zip(&cut, &texts(&["*"]), &[], false).map(|_| ()),
        Err(Error::BadArchive)
    );
}

#[test]
fn tar_is_staged() {
    let data = tar_of(&entries());
    let staging = FileAction::extract_tar(&data, &texts(&["fonts/*.ttf"]), &texts(&["*Bold*"]), true).unwrap();
    assert_eq!(staging.folders, texts(&["fonts/", "fonts/mono/", "docs/"]));
    assert_eq!(
        staged(&staging),
        vec![
            (String::from("fonts/Hack-Regular.ttf"), b"regular".to_vec()),
            (String::from("fonts/mono/Hack-Mono.ttf"), b"mono".to_vec()),
        ]
    );
    let flat = FileAction::extract_tar(&data, &texts(&["*.md", "LICENSE"]), &[], false).unwrap();
    assert!(flat.folders.is_empty());
    assert_eq!(
        staged(&flat),
        vec![
            (String::from("README.md"), b"read me".to_vec()),
            (String::from("LICENSE"), b"free".to_vec()),
        ]
    );
    let empty = FileAction::extract_tar(&[], &texts(&["*"]), &[], true).unwrap();
    assert!(empty.folders.is_empty() && empty.files.is_empty());
}

#[test]
fn packed_tar_is_staged() {
    let data = gzip_of(&tar_of(&entries()));
    let staging = FileAction::extract_tar_gz(&data, &texts(&["*Regular*"]), &[], false).unwrap();
    assert_eq!(
        staged(&staging),
        vec![(String::from("Hack-Regular.ttf"), b"regular".to_vec())]
    );
    assert_eq!(
        FileAction::extract_tar(&data, &texts(&["*"]), &[], false).map(|_| ()),
        Err(Error::BadArchive)
    );
}

#[test]
fn single_file_is_staged_under_the_name_in_its_url() {
    let staging = stage_single("https://x.org/dl/foo-v2.ttf", b"font".to_vec());
    assert!(staging.folders.is_empty());
    assert_eq!(staged(&staging), vec![(String::from("foo-v2.ttf"), b"font".to_vec())]);
    assert_eq!(staging.files[0].target("/cache/staging/Foo/"), "/cache/staging/Foo/foo-v2.ttf");
    let bare = stage_single("foo.ttf", Vec::new());
    assert_eq!(staged(&bare), vec![(String::from("foo.ttf"), Vec::new())]);
}

#[test]
fn download_is_staged_by_its_action() {
    let extract = |file_type: FileType, keep_folders: Option<bool>| FileAction::Extract {
        file: String::from("Hack.zip"),
        includes: texts(&["*.ttf"]),
        excludes: None,
        keep_folders,
        file_type,
    };
    let zipped = zip_of(&entries());
    let staging = extract(FileType::Zip, None)
        .stage_install("https://x.org/Hack.zip", zipped.clone())
        .unwrap();
    assert!(staging.folders.is_empty());
    assert_eq!(
        staging.paths(),
        texts(&["Hack-Regular.ttf", "Hack-Bold.ttf", "Hack-Mono.ttf"])
    );
    let staging = extract(FileType::Zip, Some(true))
        .stage_install("", zipped.clone())
        .unwrap();
    assert_eq!(staging.folders.len(), 3);
    assert_eq!(staging.paths()[2], "fonts/mono/Hack-Mono.ttf");
    let staging = extract(FileType::Tar, Some(false))
        .stage_install("", tar_of(&entries()))
        .unwrap();
    assert_eq!(staging.paths().len(), 3);
    let staging = extract(FileType::TarGz, None)
        .stage_install("", gzip_of(&tar_of(&entries())))
        .unwrap();
    assert_eq!(staging.paths().len(), 3);
    assert_eq!(
        extract(FileType::Tar, None).stage_install("", zipped.clone()).map(|_| ()),
        Err(Error::BadArchive)
    );
    assert_eq!(
        extract(FileType::TarXz, None).stage_install("", zipped.clone()).map(|_| ()),
        Err(Error::UnsupportedExtension)
    );
    assert_eq!(
        extract(FileType::Unsupported, None).stage_install("", zipped.clone()).map(|_| ()),
        Err(Error::UnsupportedExtension)
    );
    assert_eq!(
        FileAction::extract_tar_xz(&zipped, &texts(&["*"]), &[], false).map(|_| ()),
        Err(Error::UnsupportedExtension)
    );
    assert_eq!(
        FileAction::Unset.stage_install("", zipped).map(|_| ()),
        Err(Error::NoAction)
    );
    let single = FileAction::SingleFile {
        file: String::from("foo.ttf"),
    };
    let staging = single.stage_install("https://x.org/foo.ttf", b"font".to_vec()).unwrap();
    assert_eq!(staged(&staging), vec![(String::from("foo.ttf"), b"font".to_vec())]);
}
