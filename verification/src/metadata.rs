//! The metadata of one archive: found in the archive by the `zip` crate,
//! repaired, and read by `serde_json` or, where that fails, field by field.

use vstd::prelude::*;
use std::io::Read;
use crate::pattern::{first_group, regex_first_group};
use crate::sanitize::{sanitize_json, sanitized};

verus! {

/// The descriptor of a Fabric mod; looked for first.
pub const FABRIC_ENTRY: &'static str = "fabric.mod.json";

/// The descriptor of a Quilt mod; looked for second.
pub const QUILT_ENTRY: &'static str = "quilt.mod.json";

pub const FABRIC: &'static str = "fabric";

pub const QUILT: &'static str = "quilt";

pub const ID_KEY: &'static str = "id";

pub const NAME_KEY: &'static str = "name";

pub const VERSION_KEY: &'static str = "version";

/// The member that holds what a mod depends on.
pub const DEPENDS_KEY: &'static str = "depends";

/// The dependency that marks a Quilt mod.
pub const QUILT_LOADER_KEY: &'static str = "quilt_loader";

/// The version of a mod that states none.
pub const UNKNOWN_VERSION: &'static str = "unknown";

pub const QUOTE: &'static str = "\"";

/// In the pattern of one field, what follows the quoted key: a colon, and
/// the value between quotes as the first group.
pub const FIELD_VALUE: &'static str = r#""\s*:\s*"([^"]+)""#;

/// What `String::from_utf8_lossy` makes of `bytes`: the text they encode in
/// UTF-8, with U+FFFD in place of each ill-formed part.
pub uninterp spec fn utf8_lossy(bytes: Seq<u8>) -> Seq<char>;

/// The bytes that `zip::ZipArchive::by_name` reads for the entry `name` of
/// the archive `archive`; `None` where `archive` is no archive that
/// `zip::ZipArchive::new` accepts, where it has no such entry, and where the
/// entry cannot be read to its end.
pub uninterp spec fn zip_entry(archive: Seq<u8>, name: Seq<char>) -> Option<Seq<u8>>;

/// Whether `serde_json::from_str` takes `text` as one JSON value.
pub uninterp spec fn json_parses(text: Seq<char>) -> bool;

/// In the JSON value that `serde_json::from_str` makes of `text`: the string
/// that `Value::get` and `Value::as_str` find under `key`. `None` where
/// `text` is no JSON, where the value has no member `key`, and where the
/// member is no string.
pub uninterp spec fn json_string_member(text: Seq<char>, key: Seq<char>) -> Option<Seq<char>>;

/// In the JSON value that `serde_json::from_str` makes of `text`: whether
/// `Value::get` finds a member `outer`, and in it a member `inner`.
pub uninterp spec fn json_nested_member(
    text: Seq<char>,
    outer: Seq<char>,
    inner: Seq<char>,
) -> bool;

/// `String::from_utf8_lossy`. The contract only gives the result its name.
#[verifier::external_body]
fn decode_lossy(bytes: &[u8]) -> (out: String)
    ensures
        out@ == utf8_lossy(bytes@),
{
    String::from_utf8_lossy(bytes).into_owned()
}

/// Opens `archive` with `zip::ZipArchive::new`, looks the entry up with
/// `ZipArchive::by_name` and reads it to its end. The contract only gives the
/// result its name; each of the three failures gives `None`.
#[verifier::external_body]
fn read_zip_entry(archive: &[u8], name: &str) -> (out: Option<Vec<u8>>)
    ensures
        match out {
            Some(raw) => zip_entry(archive@, name@) == Some(raw@),
            None => zip_entry(archive@, name@) is None,
        },
{
    let mut zip = zip::ZipArchive::new(std::io::Cursor::new(archive)).ok()?;
    let mut entry = zip.by_name(name).ok()?;
    let mut raw = Vec::new();
    entry.read_to_end(&mut raw).ok()?;
    Some(raw)
}

/// Whether `serde_json::from_str::<serde_json::Value>` returns `Ok` on `text`.
#[verifier::external_body]
fn parses_as_json(text: &str) -> (out: bool)
    ensures
        out == json_parses(text@),
{
    serde_json::from_str::<serde_json::Value>(text).is_ok()
}

/// Parses `text` with `serde_json::from_str` and hands out the member `key`
/// of the value where `Value::as_str` finds a string in it. The contract only
/// gives the result its name.
#[verifier::external_body]
fn string_member(text: &str, key: &str) -> (out: Option<String>)
    ensures
        match out {
            Some(s) => json_string_member(text@, key@) == Some(s@),
            None => json_string_member(text@, key@) is None,
        },
{
    match serde_json::from_str::<serde_json::Value>(text) {
        Ok(doc) => match doc.get(key) {
            Some(member) => match member.as_str() {
                Some(s) => Some(s.to_string()),
                None => None,
            },
            None => None,
        },
        Err(_) => None,
    }
}

/// Parses `text` with `serde_json::from_str` and says whether `Value::get`
/// finds `outer` in the value and `inner` in that member. The contract only
/// gives the result its name.
#[verifier::external_body]
fn nested_member(text: &str, outer: &str, inner: &str) -> (out: bool)
    ensures
        out == json_nested_member(text@, outer@, inner@),
{
    match serde_json::from_str::<serde_json::Value>(text) {
        Ok(doc) => match doc.get(outer) {
            Some(member) => member.get(inner).is_some(),
            None => false,
        },
        Err(_) => false,
    }
}

/// What the metadata of an archive says of it.
#[derive(Debug)]
pub struct ModMeta {
    pub id: String,
    pub name: String,
    pub version: String,
    pub loader: String,
}

/// What a [`ModMeta`] holds, as plain values.
pub ghost struct MetaView {
    pub id: Seq<char>,
    pub name: Seq<char>,
    pub version: Seq<char>,
    pub loader: Seq<char>,
}

impl View for ModMeta {
    type V = MetaView;

    open spec fn view(&self) -> MetaView {
        MetaView { id: self.id@, name: self.name@, version: self.version@, loader: self.loader@ }
    }
}

/// The view of optional metadata.
pub open spec fn meta_view(m: Option<ModMeta>) -> Option<MetaView> {
    match m {
        Some(m) => Some(m@),
        None => None,
    }
}

/// `value`, or `default` where there is none.
pub open spec fn text_or(value: Option<Seq<char>>, default: Seq<char>) -> Seq<char> {
    match value {
        Some(v) => v,
        None => default,
    }
}

/// What a strict reading of `text`, which is JSON, gives: identifier and name
/// are empty and the version is `unknown` where the member is missing or no
/// string; the loader is Quilt where `depends` holds `quilt_loader`.
pub open spec fn strict_meta(text: Seq<char>) -> MetaView {
    MetaView {
        id: text_or(json_string_member(text, ID_KEY@), ""@),
        name: text_or(json_string_member(text, NAME_KEY@), ""@),
        version: text_or(json_string_member(text, VERSION_KEY@), UNKNOWN_VERSION@),
        loader: if json_nested_member(text, DEPENDS_KEY@, QUILT_LOADER_KEY@) {
            QUILT@
        } else {
            FABRIC@
        },
    }
}

/// The pattern that finds the quoted value of the field `key`.
pub open spec fn field_pattern(key: Seq<char>) -> Seq<char> {
    QUOTE@ + key + FIELD_VALUE@
}

/// The quoted value of the field `key` in `text`, found without parsing.
pub open spec fn grabbed(text: Seq<char>, key: Seq<char>) -> Option<Seq<char>> {
    regex_first_group(field_pattern(key), text)
}

/// What the search field by field gives: nothing where none of the three
/// fields is found; else each field, empty where it is not found.
pub open spec fn fallback_fields(text: Seq<char>) -> Option<(Seq<char>, Seq<char>, Seq<char>)> {
    if grabbed(text, ID_KEY@) is None && grabbed(text, NAME_KEY@) is None && grabbed(
        text,
        VERSION_KEY@,
    ) is None {
        None
    } else {
        Some(
            (
                text_or(grabbed(text, ID_KEY@), ""@),
                text_or(grabbed(text, NAME_KEY@), ""@),
                text_or(grabbed(text, VERSION_KEY@), ""@),
            ),
        )
    }
}

/// The metadata in repaired text: read strictly where the text is JSON, else
/// field by field with Fabric as the loader, else none.
pub open spec fn meta_of_text(text: Seq<char>) -> Option<MetaView> {
    if json_parses(text) {
        Some(strict_meta(text))
    } else {
        match fallback_fields(text) {
            Some((id, name, version)) => Some(MetaView { id, name, version, loader: FABRIC@ }),
            None => None,
        }
    }
}

/// The metadata in the bytes of one descriptor: decoded, repaired, read.
pub open spec fn meta_of_bytes(raw: Seq<u8>) -> Option<MetaView> {
    meta_of_text(sanitized(utf8_lossy(raw)))
}

/// The metadata under one entry name of an archive.
pub open spec fn meta_of_entry(archive: Seq<u8>, name: Seq<char>) -> Option<MetaView> {
    match zip_entry(archive, name) {
        Some(raw) => meta_of_bytes(raw),
        None => None,
    }
}

/// The metadata of an archive: that of the Fabric descriptor where it gives
/// any, else that of the Quilt descriptor.
pub open spec fn meta_of_archive(archive: Seq<u8>) -> Option<MetaView> {
    match meta_of_entry(archive, FABRIC_ENTRY@) {
        Some(m) => Some(m),
        None => meta_of_entry(archive, QUILT_ENTRY@),
    }
}

/// Finds the quoted value of one field without parsing.
pub fn grab(text: &str, key: &str) -> (out: Option<String>)
    ensures
        match out {
            Some(s) => grabbed(text@, key@) == Some(s@),
            None => grabbed(text@, key@) is None,
        },
{
    let mut pattern = String::new();
    pattern.append(QUOTE);
    pattern.append(key);
    pattern.append(FIELD_VALUE);
    assert(pattern@ =~= field_pattern(key@));
    first_group(pattern.as_str(), text)
}

/// The text of `value`, or an empty one.
fn or_empty(value: Option<String>) -> (out: String)
    ensures
        out@ == text_or(
            match value {
                Some(v) => Some(v@),
                None => None,
            },
            ""@,
        ),
{
    match value {
        Some(v) => v,
        None => {
            proof {
                reveal_strlit("");
            }
            assert(""@ =~= Seq::<char>::empty());
            String::new()
        },
    }
}

/// Reads identifier, name and version out of text that is no JSON.
pub fn regex_fallback(txt: &str) -> (out: Option<(String, String, String)>)
    ensures
        match out {
            Some((id, name, version)) => fallback_fields(txt@) == Some((id@, name@, version@)),
            None => fallback_fields(txt@) is None,
        },
{
    let id = grab(txt, ID_KEY);
    let name = grab(txt, NAME_KEY);
    let version = grab(txt, VERSION_KEY);
    if id.is_some() || name.is_some() || version.is_some() {
        Some((or_empty(id), or_empty(name), or_empty(version)))
    } else {
        None
    }
}

/// Reads the metadata out of repaired text.
pub fn read_meta_from_text(clean: &str) -> (out: Option<ModMeta>)
    ensures
        meta_view(out) == meta_of_text(clean@),
{
    if parses_as_json(clean) {
        let id = or_empty(string_member(clean, ID_KEY));
        let name = or_empty(string_member(clean, NAME_KEY));
        let version = match string_member(clean, VERSION_KEY) {
            Some(v) => v,
            None => UNKNOWN_VERSION.to_owned(),
        };
        let loader = if nested_member(clean, DEPENDS_KEY, QUILT_LOADER_KEY) {
            QUILT.to_owned()
        } else {
            FABRIC.to_owned()
        };
        Some(ModMeta { id, name, version, loader })
    } else {
        match regex_fallback(clean) {
            Some((id, name, version)) => Some(
                ModMeta { id, name, version, loader: FABRIC.to_owned() },
            ),
            None => None,
        }
    }
}

/// Reads the metadata out of the bytes of one descriptor.
pub fn read_meta_from_bytes(raw: &[u8]) -> (out: Option<ModMeta>)
    ensures
        meta_view(out) == meta_of_bytes(raw@),
{
    let txt = decode_lossy(raw);
    let clean = sanitize_json(txt.as_str());
    read_meta_from_text(clean.as_str())
}

/// Reads the metadata under one entry name of an archive.
fn read_meta_from_entry(archive: &[u8], name: &str) -> (out: Option<ModMeta>)
    ensures
        meta_view(out) == meta_of_entry(archive@, name@),
{
    match read_zip_entry(archive, name) {
        Some(raw) => read_meta_from_bytes(raw.as_slice()),
        None => None,
    }
}

/// Reads the metadata of an archive, given as its bytes.
pub fn read_meta_from_jar(archive: &[u8]) -> (out: Option<ModMeta>)
    ensures
        meta_view(out) == meta_of_archive(archive@),
{
    match read_meta_from_entry(archive, FABRIC_ENTRY) {
        Some(m) => Some(m),
        None => read_meta_from_entry(archive, QUILT_ENTRY),
    }
}

} // verus!
