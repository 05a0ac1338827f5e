use std::io::Write;

use porovnavac::metadata::{
    grab, read_meta_from_bytes, read_meta_from_jar, read_meta_from_text, regex_fallback, ModMeta,
};

fn archive(entries: &[(&str, &[u8])]) -> Vec<u8> {
    let mut writer = zip::ZipWriter::new(std::io::Cursor::new(Vec::new()));
    for (name, content) in entries {
        writer
            .start_file(*name, zip::write::SimpleFileOptions::default())
            .expect("entry starts");
        writer.write_all(content).expect("entry is written");
    }
    writer.finish().expect("archive is finished").into_inner()
}

fn fields(meta: &ModMeta) -> (&str, &str, &str, &str) {
    (meta.id.as_str(), meta.name.as_str(), meta.version.as_str(), meta.loader.as_str())
}

#[test]
fn strict_reading_takes_the_three_fields() {
    let meta = read_meta_from_text("{\"id\": \"a\", \"name\": \"A\", \"version\": \"1.0\"}").unwrap();
    assert_eq!(fields(&meta), ("a", "A", "1.0", "fabric"));
}

#[test]
fn strict_reading_fills_in_what_is_missing() {
    let meta = read_meta_from_text("{}").unwrap();
    assert_eq!(fields(&meta), ("", "", "unknown", "fabric"));
    let meta = read_meta_from_text("{\"id\": 7, \"name\": null, \"version\": [\"1\"]}").unwrap();
    assert_eq!(fields(&meta), ("", "", "unknown", "fabric"));
}

#[test]
fn json_that_is_no_object_has_no_fields() {
    let meta = read_meta_from_text("[1, 2]").unwrap();
    assert_eq!(fields(&meta), ("", "", "unknown", "fabric"));
}

#[test]
fn a_dependency_on_the_quilt_loader_marks_quilt() {
    let meta = read_meta_from_text(
        "{\"id\": \"q\", \"depends\": {\"quilt_loader\": \">=0.17\", \"minecraft\": \"*\"}}",
    )
    .unwrap();
    assert_eq!(fields(&meta), ("q", "", "unknown", "quilt"));
    let meta = read_meta_from_text("{\"id\": \"q\", \"depends\": {\"fabricloader\": \"*\"}}").unwrap();
    assert_eq!(meta.loader, "fabric");
    let meta = read_meta_from_text("{\"id\": \"q\", \"quilt_loader\": {}}").unwrap();
    assert_eq!(meta.loader, "fabric");
    let meta = read_meta_from_text("{\"depends\": [\"quilt_loader\"]}").unwrap();
    assert_eq!(meta.loader, "fabric");
}

#[test]
fn broken_text_is_searched_field_by_field() {
    let meta = read_meta_from_text("{\"id\": \"a\" \"name\" : \"A b\", \"version\":\"2\" oops").unwrap();
    assert_eq!(fields(&meta), ("a", "A b", "2", "fabric"));
}

#[test]
fn the_search_leaves_missing_fields_empty() {
    let found = regex_fallback("\"name\": \"Only\" {{{").unwrap();
    assert_eq!(found, ("".to_string(), "Only".to_string(), "".to_string()));
    let meta = read_meta_from_text("\"name\": \"Only\" {{{").unwrap();
    assert_eq!(fields(&meta), ("", "Only", "", "fabric"));
}

#[test]
fn the_search_never_marks_quilt() {
    let meta = read_meta_from_text("{\"id\": \"q\", \"depends\": {\"quilt_loader\": \"*\"}").unwrap();
    assert_eq!(fields(&meta), ("q", "", "", "fabric"));
}

#[test]
fn text_without_any_field_gives_nothing() {
    assert!(read_meta_from_text("not json at all").is_none());
    assert!(read_meta_from_text("").is_none());
    assert!(read_meta_from_text("{\"id\": \"\"").is_none());
    assert!(regex_fallback("{\"other\": \"x\"").is_none());
}

#[test]
fn grab_takes_the_first_quoted_value() {
    assert_eq!(grab("\"id\"  :\n \"one\", \"id\": \"two\"", "id"), Some("one".to_string()));
    assert_eq!(grab("\"id\": 5", "id"), None);
    assert_eq!(grab("\"idx\": \"v\"", "id"), None);
}

#[test]
fn bytes_are_decoded_repaired_and_read() {
    let meta = read_meta_from_bytes(b"\xef\xbb\xbf{\"id\": \"a\", // c\n \"version\": \"1\",}").unwrap();
    assert_eq!(fields(&meta), ("a", "", "1", "fabric"));
}

#[test]
fn ill_formed_bytes_are_replaced_not_refused() {
    let meta = read_meta_from_bytes(b"{\"id\": \"a\xffb\", \"name\": \"N\"}").unwrap();
    assert_eq!(fields(&meta), ("a\u{fffd}b", "N", "unknown", "fabric"));
}

#[test]
fn the_fabric_descriptor_is_read_from_the_archive() {
    let jar = archive(&[
        ("META-INF/MANIFEST.MF", b"Manifest-Version: 1.0\n"),
        ("fabric.mod.json", b"{\"id\": \"f\", \"name\": \"F\", \"version\": \"3\"}"),
    ]);
    let meta = read_meta_from_jar(&jar).unwrap();
    assert_eq!(fields(&meta), ("f", "F", "3", "fabric"));
}

#[test]
fn the_fabric_descriptor_comes_before_the_quilt_one() {
    let jar = archive(&[
        ("quilt.mod.json", b"{\"id\": \"q\"}"),
        ("fabric.mod.json", b"{\"id\": \"f\"}"),
    ]);
    assert_eq!(read_meta_from_jar(&jar).unwrap().id, "f");
}

#[test]
fn the_quilt_descriptor_is_read_where_there_is_no_other() {
    let jar = archive(&[(
        "quilt.mod.json",
        b"{\"id\": \"q\", \"version\": \"1\", \"depends\": {\"quilt_loader\": \"*\"}}",
    )]);
    let meta = read_meta_from_jar(&jar).unwrap();
    assert_eq!(fields(&meta), ("q", "", "1", "quilt"));
}

#[test]
fn a_useless_fabric_descriptor_gives_way_to_the_quilt_one() {
    let jar = archive(&[
        ("fabric.mod.json", b"nothing to read here"),
        ("quilt.mod.json", b"{\"id\": \"q\"}"),
    ]);
    assert_eq!(read_meta_from_jar(&jar).unwrap().id, "q");
}

#[test]
fn an_archive_without_descriptor_gives_nothing() {
    let jar = archive(&[("mods.toml", b"modId = \"x\"")]);
    assert!(read_meta_from_jar(&jar).is_none());
    let jar = archive(&[("sub/fabric.mod.json", b"{\"id\": \"x\"}")]);
    assert!(read_meta_from_jar(&jar).is_none());
}

#[test]
fn bytes_that_are_no_archive_give_nothing() {
    assert!(read_meta_from_jar(b"").is_none());
    assert!(read_meta_from_jar(b"{\"id\": \"x\"}").is_none());
}
