use std::io::Write;

use porovnavac::metadata::ModMeta;
use porovnavac::scan::{
    assemble_snapshot, file_stem, is_archive_name, is_disabled_name, make_record, scan_file,
    select_archives, take_snapshot, ScannedFile,
};

fn archive(entries: &[(&str, &[u8])]) -> Vec<u8> {
    let mut writer = zip::ZipWriter::new(std::io::Cursor::new(Vec::new()));
    for (name, content) in entries {
        writer
            .start_file(*name, zip::write::SimpleFileOptions::default())
            .expect("entry starts");
        writer.write_all(content).expect("entry is written");
    }
    writer.finish().expect("archive is finished").into_inner()
}

fn meta(id: &str, name: &str, version: &str) -> ModMeta {
    ModMeta {
        id: id.to_string(),
        name: name.to_string(),
        version: version.to_string(),
        loader: "fabric".to_string(),
    }
}

fn scanned_file(filename: &str, meta: Option<ModMeta>) -> ScannedFile {
    ScannedFile { filename: filename.to_string(), meta }
}

fn names(list: &[&str]) -> Vec<String> {
    list.iter().map(|s| s.to_string()).collect()
}

#[test]
fn archive_names() {
    assert!(is_archive_name("a.jar"));
    assert!(is_archive_name("a.jar.disabled"));
    assert!(is_archive_name(".jar"));
    assert!(!is_archive_name("a.zip"));
    assert!(!is_archive_name("a.jar.bak"));
    assert!(!is_archive_name("a.JAR"));
    assert!(!is_archive_name("jar"));
    assert!(!is_archive_name(""));
    assert!(is_disabled_name("a.jar.disabled"));
    assert!(!is_disabled_name("a.jar"));
    assert!(!is_disabled_name("a.disabled"));
}

#[test]
fn stems() {
    assert_eq!(file_stem("sodium-0.5.jar"), "sodium-0.5");
    assert_eq!(file_stem("sodium.jar.disabled"), "sodium.jar");
    assert_eq!(file_stem(".jar"), ".jar");
    assert_eq!(file_stem("plain"), "plain");
    assert_eq!(file_stem("a."), "a");
    assert_eq!(file_stem(""), "");
}

#[test]
fn stems_agree_with_those_of_paths() {
    for name in ["a.jar", "a.b.jar", "a.jar.disabled", ".jar", ".jar.disabled", "x", "x.", "é.jar"] {
        let expected = std::path::Path::new(name).file_stem().unwrap().to_str().unwrap();
        assert_eq!(file_stem(name), expected, "{name}");
    }
}

#[test]
fn a_record_takes_what_the_metadata_gives() {
    let r = make_record("lib-1.jar", &meta("lib", "Library", "1.0"));
    assert_eq!(r.filename, "lib-1.jar");
    assert_eq!(r.id, "lib");
    assert_eq!(r.name, "Library");
    assert_eq!(r.version, "1.0");
    assert_eq!(r.loader, "fabric");
    assert!(!r.disabled);
}

#[test]
fn a_record_falls_back_on_the_stem_and_on_unknown() {
    let r = make_record("lib-1.jar", &meta("", "", ""));
    assert_eq!(r.id, "lib-1");
    assert_eq!(r.name, "lib-1");
    assert_eq!(r.version, "unknown");
    let r = make_record("lib-1.jar.disabled", &meta("lib", "", "2"));
    assert_eq!(r.id, "lib");
    assert_eq!(r.name, "lib-1.jar");
    assert_eq!(r.version, "2");
    assert!(r.disabled);
}

#[test]
fn scanning_one_file() {
    let jar = archive(&[("fabric.mod.json", b"{\"id\": \"f\", \"version\": \"1\"}")]);
    let file = scan_file("f.jar", Some(&jar));
    assert_eq!(file.filename, "f.jar");
    assert_eq!(file.meta.as_ref().unwrap().id, "f");
    let file = scan_file("broken.jar", Some(b"no archive"));
    assert!(file.meta.is_none());
    let file = scan_file("unreadable.jar", None);
    assert_eq!(file.filename, "unreadable.jar");
    assert!(file.meta.is_none());
}

#[test]
fn a_snapshot_sorts_its_files_into_three_lists() {
    let files = vec![
        scanned_file("a.jar", Some(meta("a", "A", "1"))),
        scanned_file("b.jar", None),
        scanned_file("c.jar.disabled", Some(meta("c", "C", "1"))),
        scanned_file("d.jar", Some(meta("", "", ""))),
        scanned_file("e.jar.disabled", None),
    ];
    let s = assemble_snapshot("/mods", "2024-05-01T10:00:00+02:00", &files);
    assert_eq!(s.timestamp, "2024-05-01T10:00:00+02:00");
    assert_eq!(s.mods_dir, "/mods");
    let active: Vec<&str> = s.active.iter().map(|m| m.filename.as_str()).collect();
    assert_eq!(active, vec!["a.jar", "d.jar"]);
    assert_eq!(s.active[1].id, "d");
    assert_eq!(s.active[1].version, "unknown");
    assert!(s.active.iter().all(|m| !m.disabled));
    let disabled: Vec<&str> = s.disabled.iter().map(|m| m.filename.as_str()).collect();
    assert_eq!(disabled, vec!["c.jar.disabled"]);
    assert!(s.disabled[0].disabled);
    assert_eq!(s.failed, vec!["b.jar", "e.jar.disabled"]);
    assert_eq!(s.stats.total, 5);
    assert_eq!(s.stats.active, 2);
    assert_eq!(s.stats.disabled, 1);
    assert_eq!(s.stats.failed, 2);
    assert_eq!(s.stats.total, s.stats.active + s.stats.disabled + s.stats.failed);
}

#[test]
fn the_snapshot_of_no_files_is_empty() {
    let s = assemble_snapshot("/none", "t", &Vec::new());
    assert!(s.active.is_empty() && s.disabled.is_empty() && s.failed.is_empty());
    assert_eq!(s.stats.total, 0);
    assert_eq!(s.stats.active, 0);
    assert_eq!(s.stats.disabled, 0);
    assert_eq!(s.stats.failed, 0);
}

#[test]
fn a_snapshot_taken_now_carries_a_timestamp() {
    let files = vec![scanned_file("a.jar", Some(meta("a", "A", "1")))];
    let s = take_snapshot("/mods", &files);
    assert_eq!(s.active.len(), 1);
    assert_eq!(s.stats.total, 1);
    assert!(s.timestamp.len() >= 20, "{}", s.timestamp);
    assert_eq!(&s.timestamp[4..5], "-");
    assert_eq!(&s.timestamp[10..11], "T");
}

#[test]
fn archives_are_picked_and_ordered_by_name() {
    let listing = names(&["zeta.jar", "notes.txt", "alpha.jar.disabled", "Beta.jar", "alpha.jar", "dir"]);
    assert_eq!(
        select_archives(&listing),
        names(&["Beta.jar", "alpha.jar", "alpha.jar.disabled", "zeta.jar"])
    );
    assert_eq!(select_archives(&Vec::new()), Vec::<String>::new());
}

#[test]
fn the_order_of_the_listing_does_not_matter() {
    let one = names(&["c.jar", "a.jar", "b.jar.disabled", "x.txt"]);
    let other = names(&["x.txt", "b.jar.disabled", "c.jar", "a.jar"]);
    assert_eq!(select_archives(&one), select_archives(&other));
}

#[test]
fn scanning_the_same_files_twice_gives_the_same_snapshot() {
    let jar_a = archive(&[("fabric.mod.json", b"{\"id\": \"a\", \"version\": \"1\"}")]);
    let jar_b = archive(&[("quilt.mod.json", b"{\"id\": \"b\", \"version\": \"2\"}")]);
    let scan = || {
        let listing = names(&["b.jar.disabled", "junk.jar", "a.jar"]);
        let files: Vec<ScannedFile> = select_archives(&listing)
            .iter()
            .map(|name| match name.as_str() {
                "a.jar" => scan_file(name, Some(&jar_a)),
                "b.jar.disabled" => scan_file(name, Some(&jar_b)),
                _ => scan_file(name, Some(b"junk")),
            })
            .collect();
        assemble_snapshot("/mods", "now", &files)
    };
    let first = scan();
    let second = scan();
    let key = |s: &porovnavac::snapshot::Snapshot| {
        (
            s.active.iter().map(|m| (m.filename.clone(), m.id.clone(), m.version.clone())).collect::<Vec<_>>(),
            s.disabled.iter().map(|m| (m.filename.clone(), m.id.clone(), m.version.clone())).collect::<Vec<_>>(),
            s.failed.clone(),
            s.stats,
        )
    };
    assert_eq!(key(&first), key(&second));
    assert_eq!(first.active[0].id, "a");
    assert_eq!(first.disabled[0].id, "b");
    assert_eq!(first.failed, vec!["junk.jar"]);
}
