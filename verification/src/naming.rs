//! Names derived from a pack's base name, edition and version: the name
//! shown to the user and the prefix of the files written for it.

use vstd::prelude::*;
use crate::pattern::{replace_all, replaced};
use crate::text::{
    chars_of, ends_with, has_suffix, lowercase, same_text, to_lowercase, trim, trimmed,
};

verus! {

/// A run of white space.
pub const SPACE_RUN: &'static str = r"\s+";

/// A character that a file prefix does not keep.
pub const NOT_IN_SLUG: &'static str = r"[^a-z0-9._\-]";

/// Two hyphens or more in a row.
pub const HYPHEN_RUN: &'static str = r"-{2,}";

pub const HYPHEN: &'static str = "-";

/// What stands for a name of which nothing is left.
pub const EMPTY_SLUG: &'static str = "pack";

/// The base name of a pack that gives none.
pub const DEFAULT_BASE: &'static str = "Agonia";

/// What stands for a missing version.
pub const NO_VERSION: &'static str = "unknown";

/// The complete edition.
pub const FULL: &'static str = "Full";

/// The reduced edition.
pub const LITE: &'static str = "Lite";

/// `s` as part of a file name: trimmed, in lowercase, each run of white space
/// turned into one hyphen, every character but `a` to `z`, digits, `.`, `_`
/// and `-` dropped, each run of hyphens turned into one; `pack` where nothing
/// is left.
pub open spec fn slug(s: Seq<char>) -> Seq<char> {
    let lower = lowercase(trimmed(s));
    let hyphened = replaced(SPACE_RUN@, lower, HYPHEN@);
    let kept = replaced(NOT_IN_SLUG@, hyphened, ""@);
    let merged = replaced(HYPHEN_RUN@, kept, HYPHEN@);
    if merged.len() == 0 {
        EMPTY_SLUG@
    } else {
        merged
    }
}

/// Turns `s` into part of a file name.
pub fn slugify(s: &str) -> (out: String)
    ensures
        out@ == slug(s@),
{
    let t = trim(s);
    let t = to_lowercase(t.as_str());
    let t = replace_all(SPACE_RUN, t.as_str(), HYPHEN);
    let t = replace_all(NOT_IN_SLUG, t.as_str(), "");
    let t = replace_all(HYPHEN_RUN, t.as_str(), HYPHEN);
    if t.as_str().is_empty() {
        EMPTY_SLUG.to_owned()
    } else {
        t
    }
}

/// Whether `lower`, an edition in lowercase, is a word for the complete edition.
pub open spec fn names_full(lower: Seq<char>) -> bool {
    lower == "full"@ || lower == "normal"@ || lower == "default"@
}

/// Whether `lower`, an edition in lowercase, is a word for the reduced edition.
pub open spec fn names_lite(lower: Seq<char>) -> bool {
    lower == "lite"@ || lower == "light"@ || lower == "minimal"@
}

/// The edition that `edition` stands for: `Full` for nothing and for its
/// synonyms, `Lite` for its synonyms, without regard to case or surrounding
/// white space; any other word as it was given.
pub open spec fn normalized_edition(edition: Seq<char>) -> Seq<char> {
    let e = trimmed(edition);
    if e.len() == 0 || names_full(lowercase(e)) {
        FULL@
    } else if names_lite(lowercase(e)) {
        LITE@
    } else {
        edition
    }
}

/// Maps the synonyms of an edition to its one name.
pub fn normalize_edition<'a>(edition: &'a str) -> (out: &'a str)
    ensures
        out@ == normalized_edition(edition@),
{
    let e = trim(edition);
    if e.as_str().is_empty() {
        return FULL;
    }
    let lower = to_lowercase(e.as_str());
    let l = lower.as_str();
    if same_text(l, "full") || same_text(l, "normal") || same_text(l, "default") {
        FULL
    } else if same_text(l, "lite") || same_text(l, "light") || same_text(l, "minimal") {
        LITE
    } else {
        edition
    }
}

/// The base name shown: the trimmed one, or the default where it is empty.
pub open spec fn shown_base(base_name: Seq<char>) -> Seq<char> {
    if trimmed(base_name).len() == 0 {
        DEFAULT_BASE@
    } else {
        trimmed(base_name)
    }
}

/// The name shown to the user: base and version, with the edition between
/// them unless it is the complete one; trimmed as a whole.
pub open spec fn display_name(
    base_name: Seq<char>,
    edition: Seq<char>,
    pack_version: Seq<char>,
) -> Seq<char> {
    let base = shown_base(base_name);
    let ed = normalized_edition(edition);
    let ver = trimmed(pack_version);
    if lowercase(ed) == "full"@ {
        trimmed(base + " "@ + ver)
    } else {
        trimmed(base + " "@ + ed + " "@ + ver)
    }
}

/// Builds the name shown to the user.
pub fn build_display_name(base_name: &str, edition: &str, pack_version: &str) -> (out: String)
    ensures
        out@ == display_name(base_name@, edition@, pack_version@),
{
    let trimmed_base = trim(base_name);
    let mut name = if trimmed_base.as_str().is_empty() {
        DEFAULT_BASE.to_owned()
    } else {
        trimmed_base
    };
    let ed = normalize_edition(edition);
    let ver = trim(pack_version);
    let ed_lower = to_lowercase(ed);
    if !same_text(ed_lower.as_str(), "full") {
        name.append(" ");
        name.append(ed);
    }
    name.append(" ");
    name.append(ver.as_str());
    trim(name.as_str())
}

/// The version as part of a file name: `unknown` where it is blank.
pub open spec fn version_slug(pack_version: Seq<char>) -> Seq<char> {
    if trimmed(pack_version).len() == 0 {
        NO_VERSION@
    } else {
        slug(pack_version)
    }
}

/// The prefix of the files of a pack: base, version and edition, each as part
/// of a file name, with hyphens between them.
pub open spec fn file_prefix(
    base_name: Seq<char>,
    edition: Seq<char>,
    pack_version: Seq<char>,
) -> Seq<char> {
    slug(base_name) + HYPHEN@ + version_slug(pack_version) + HYPHEN@ + slug(
        normalized_edition(edition),
    )
}

/// Builds the prefix of the files of a pack.
pub fn build_file_prefix(base_name: &str, edition: &str, pack_version: &str) -> (out: String)
    ensures
        out@ == file_prefix(base_name@, edition@, pack_version@),
{
    let mut out = slugify(base_name);
    let ed = slugify(normalize_edition(edition));
    let ver = if trim(pack_version).as_str().is_empty() {
        NO_VERSION.to_owned()
    } else {
        slugify(pack_version)
    };
    out.append(HYPHEN);
    out.append(ver.as_str());
    out.append(HYPHEN);
    out.append(ed.as_str());
    out
}

/// How the name of a snapshot file ends.
pub const SNAPSHOT_SUFFIX: &'static str = ".mods_snapshot.json";

/// How the name of a report file ends.
pub const CHANGELOG_SUFFIX: &'static str = ".changelog.md";

/// The name of the snapshot file of a pack.
pub fn snapshot_file_name(prefix: &str) -> (out: String)
    ensures
        out@ == prefix@ + SNAPSHOT_SUFFIX@,
{
    let mut out = prefix.to_owned();
    out.append(SNAPSHOT_SUFFIX);
    out
}

/// The name of the report file of a pack.
pub fn changelog_file_name(prefix: &str) -> (out: String)
    ensures
        out@ == prefix@ + CHANGELOG_SUFFIX@,
{
    let mut out = prefix.to_owned();
    out.append(CHANGELOG_SUFFIX);
    out
}

/// Whether a file of this name is a snapshot file.
pub fn is_snapshot_name(name: &str) -> (out: bool)
    ensures
        out == ends_with(name@, SNAPSHOT_SUFFIX@),
{
    has_suffix(&chars_of(name), &chars_of(SNAPSHOT_SUFFIX))
}

} // verus!
