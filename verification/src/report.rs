//! The report of a comparison, as text.

use vstd::prelude::*;
use crate::clock::{local_now, stamp, stamp_of, WallClock};
use crate::diff::{updated_views, Changes, ChangesView, UpdatedMod, UpdatedView};
use crate::order::{key_texts, ordered, sort_order, sorted_order};
use crate::snapshot::{mod_views, ModData, ModView, Snapshot, SnapshotStats, SnapshotView};
use crate::text::{
    chars_of, decimal, join_lines, joined, lowercase, push_decimal, push_line, text_views,
    to_lowercase,
};

verus! {

// The fixed texts of the report, in the order in which they appear.
pub const TITLE_OPEN: &'static str = "# 🛠️ ";

pub const TITLE_CLOSE: &'static str = " — Přehled změn\n";

pub const DATE_LABEL: &'static str = "**Datum:** ";

pub const COUNT_ACTIVE: &'static str = "**Celkem modů:** ";

pub const COUNT_DISABLED: &'static str = "  •  Vypnuté: ";

pub const COUNT_FAILED: &'static str = "  •  Chyby čtení: ";

pub const COMPARED_WITH: &'static str = "**Porovnáno s:** ";

pub const LINE_END: &'static str = "\n";

pub const HEADER_END: &'static str = "\n---\n";

pub const RULE: &'static str = "---\n";

pub const ADDED_HEADING: &'static str = "## ✨ Nové módy";

pub const UPDATED_HEADING: &'static str = "## 🔄 Aktualizované módy";

pub const REMOVED_HEADING: &'static str = "## ❌ Odstraněné módy";

pub const NEWLY_DISABLED_HEADING: &'static str = "## 🚫 Nově vypnuté módy";

pub const NEWLY_DISABLED_NOTE: &'static str =
    "*Důvod: Pravděpodobně nekompatibilní nebo konfliktní s aktuální verzí*\n";

pub const NEWLY_ENABLED_HEADING: &'static str = "## ✅ Nově zapnuté módy";

pub const DISABLED_HEADING: &'static str = "## 📋 Aktuálně vypnuté módy";

pub const FAILED_HEADING: &'static str = "## ⚠️ Soubory s chybou čtení";

pub const COUNT_OPEN: &'static str = " (";

pub const COUNT_CLOSE: &'static str = ")";

pub const ENTRY_OPEN: &'static str = "* `";

pub const ENTRY_VERSION: &'static str = "` v";

pub const UPDATED_NEW: &'static str = "` → **";

pub const UPDATED_OLD: &'static str = "** (předtím ";

pub const UPDATED_CLOSE: &'static str = ")";

pub const FAILED_CLOSE: &'static str = "` — nelze přečíst metadata";

pub const RECOMMENDATION: &'static str =
    "🎮 **Doporučení:** Po větších updatech může pomoct smazat `config/` (nebo aspoň konkrétní configy problematických modů).\n";

pub const SUMMARY_UNCHANGED: &'static str = "_(Beze změny: ";

pub const SUMMARY_TOTAL: &'static str = " • Celkem změn: ";

pub const SUMMARY_CLOSE: &'static str = ")_\n";

/// One section: nothing where there is no entry, else the lines of `head`,
/// the entries in the order of their keys, and an empty line.
pub open spec fn section(
    head: Seq<Seq<char>>,
    keys: Seq<Seq<char>>,
    entries: Seq<Seq<char>>,
) -> Seq<Seq<char>> {
    if entries.len() == 0 {
        Seq::empty()
    } else {
        head + ordered(keys, entries) + seq![Seq::<char>::empty()]
    }
}

/// Appends one section to `lines`.
pub fn push_section(
    lines: &mut Vec<String>,
    head: &Vec<String>,
    keys: &Vec<Vec<char>>,
    entries: &Vec<String>,
)
    requires
        keys@.len() == entries@.len(),
    ensures
        text_views(final(lines)@) == text_views(old(lines)@) + section(
            text_views(head@),
            key_texts(keys@),
            text_views(entries@),
        ),
{
    let ghost base = text_views(lines@);
    let ghost h = text_views(head@);
    let ghost kt = key_texts(keys@);
    let ghost et = text_views(entries@);
    if entries.len() == 0 {
        assert(base + Seq::<Seq<char>>::empty() =~= base);
        return ;
    }
    let mut i: usize = 0;
    while i < head.len()
        invariant
            i <= head.len(),
            h == text_views(head@),
            text_views(lines@) == base + h.take(i as int),
        decreases head.len() - i,
    {
        push_line(lines, head[i].clone());
        assert(base + h.take(i + 1) =~= (base + h.take(i as int)).push(head@[i as int]@));
        i += 1;
    }
    assert(h.take(head@.len() as int) =~= h);
    let order = sort_order(keys);
    let ghost sorted = ordered(kt, et);
    let mut t: usize = 0;
    while t < order.len()
        invariant
            t <= order.len(),
            order@ == sorted_order(kt),
            order@.len() == entries@.len(),
            keys@.len() == entries@.len(),
            forall|i: int| 0 <= i < order@.len() ==> (#[trigger] order@[i]) < keys@.len(),
            et == text_views(entries@),
            sorted == ordered(kt, et),
            text_views(lines@) == base + h + sorted.take(t as int),
        decreases order.len() - t,
    {
        push_line(lines, entries[order[t]].clone());
        assert(base + h + sorted.take(t + 1) =~= (base + h + sorted.take(t as int)).push(
            entries@[order@[t as int] as int]@,
        ));
        t += 1;
    }
    assert(sorted.take(order@.len() as int) =~= sorted);
    push_line(lines, String::new());
    assert(text_views(lines@) =~= base + section(h, kt, et));
}

/// A heading with the number of its entries.
pub open spec fn heading(label: Seq<char>, n: nat) -> Seq<char> {
    label + COUNT_OPEN@ + decimal(n) + COUNT_CLOSE@
}

/// The line of one record: its name and its version.
pub open spec fn mod_line(m: ModView) -> Seq<char> {
    ENTRY_OPEN@ + m.name + ENTRY_VERSION@ + m.version
}

/// The line of one change of version: the name, the new version, the old one.
pub open spec fn updated_line(u: UpdatedView) -> Seq<char> {
    ENTRY_OPEN@ + u.name + UPDATED_NEW@ + u.new_version + UPDATED_OLD@ + u.old_version
        + UPDATED_CLOSE@
}

/// The line of one file that could not be read.
pub open spec fn failed_line(f: Seq<char>) -> Seq<char> {
    ENTRY_OPEN@ + f + FAILED_CLOSE@
}

/// The keys by which records are ordered: their names in lowercase.
pub open spec fn mod_keys(mods: Seq<ModView>) -> Seq<Seq<char>> {
    mods.map_values(|m: ModView| lowercase(m.name))
}

/// The lines of a list of records, in its order.
pub open spec fn mod_entries(mods: Seq<ModView>) -> Seq<Seq<char>> {
    mods.map_values(|m: ModView| mod_line(m))
}

/// The keys by which changes of version are ordered: their names in lowercase.
pub open spec fn updated_keys(us: Seq<UpdatedView>) -> Seq<Seq<char>> {
    us.map_values(|u: UpdatedView| lowercase(u.name))
}

/// The lines of a list of changes of version, in its order.
pub open spec fn updated_entries(us: Seq<UpdatedView>) -> Seq<Seq<char>> {
    us.map_values(|u: UpdatedView| updated_line(u))
}

/// The lines of a list of unreadable files, in its order.
pub open spec fn failed_entries(fs: Seq<Seq<char>>) -> Seq<Seq<char>> {
    fs.map_values(|f: Seq<char>| failed_line(f))
}

/// No line, or one.
pub open spec fn optional_line(line: Option<&str>) -> Seq<Seq<char>> {
    match line {
        Some(l) => seq![l@],
        None => Seq::empty(),
    }
}

/// The section of a list of records, ordered by name without regard to case:
/// the lines of `lead`, the heading with the count, the lines of `note`, one
/// line for each record, and an empty line. An empty list gives no line.
pub open spec fn mod_section(
    lead: Seq<Seq<char>>,
    label: Seq<char>,
    note: Seq<Seq<char>>,
    mods: Seq<ModView>,
) -> Seq<Seq<char>> {
    section(lead + seq![heading(label, mods.len())] + note, mod_keys(mods), mod_entries(mods))
}

/// The section of the changes of version, ordered by name without regard to case.
pub open spec fn updated_section(us: Seq<UpdatedView>) -> Seq<Seq<char>> {
    section(seq![heading(UPDATED_HEADING@, us.len())], updated_keys(us), updated_entries(us))
}

/// The section of the files that could not be read, ordered by file name.
pub open spec fn failed_section(fs: Seq<Seq<char>>) -> Seq<Seq<char>> {
    section(seq![RULE@, heading(FAILED_HEADING@, fs.len())], fs, failed_entries(fs))
}

/// Builds a heading.
pub fn heading_line(label: &str, n: usize) -> (out: String)
    ensures
        out@ == heading(label@, n as nat),
{
    let mut out = String::new();
    out.append(label);
    out.append(COUNT_OPEN);
    push_decimal(&mut out, n as u128);
    out.append(COUNT_CLOSE);
    assert(out@ =~= heading(label@, n as nat));
    out
}

/// Builds the line of one record.
pub fn mod_line_of(m: &ModData) -> (out: String)
    ensures
        out@ == mod_line(m@),
{
    let mut out = String::new();
    out.append(ENTRY_OPEN);
    out.append(m.name.as_str());
    out.append(ENTRY_VERSION);
    out.append(m.version.as_str());
    assert(out@ =~= mod_line(m@));
    out
}

/// Builds the line of one change of version.
pub fn updated_line_of(u: &UpdatedMod) -> (out: String)
    ensures
        out@ == updated_line(u@),
{
    let mut out = String::new();
    out.append(ENTRY_OPEN);
    out.append(u.name.as_str());
    out.append(UPDATED_NEW);
    out.append(u.new_version.as_str());
    out.append(UPDATED_OLD);
    out.append(u.old_version.as_str());
    out.append(UPDATED_CLOSE);
    assert(out@ =~= updated_line(u@));
    out
}

/// Builds the line of one file that could not be read.
pub fn failed_line_of(f: &str) -> (out: String)
    ensures
        out@ == failed_line(f@),
{
    let mut out = String::new();
    out.append(ENTRY_OPEN);
    out.append(f);
    out.append(FAILED_CLOSE);
    assert(out@ =~= failed_line(f@));
    out
}

/// The lines that open a section, from the optional parts and the heading.
fn section_head(lead: Option<&str>, label: &str, note: Option<&str>, n: usize) -> (out: Vec<String>)
    ensures
        text_views(out@) == optional_line(lead) + seq![heading(label@, n as nat)] + optional_line(
            note,
        ),
{
    let mut out: Vec<String> = Vec::new();
    assert(text_views(out@) =~= Seq::<Seq<char>>::empty());
    if let Some(l) = lead {
        push_line(&mut out, l.to_owned());
    }
    push_line(&mut out, heading_line(label, n));
    if let Some(l) = note {
        push_line(&mut out, l.to_owned());
    }
    assert(text_views(out@) =~= optional_line(lead) + seq![heading(label@, n as nat)]
        + optional_line(note));
    out
}

/// Appends the section of a list of records.
pub fn push_mod_section(
    lines: &mut Vec<String>,
    lead: Option<&str>,
    label: &str,
    note: Option<&str>,
    mods: &Vec<ModData>,
)
    ensures
        text_views(final(lines)@) == text_views(old(lines)@) + mod_section(
            optional_line(lead),
            label@,
            optional_line(note),
            mod_views(mods@),
        ),
{
    let head = section_head(lead, label, note, mods.len());
    let keys = keys_of_mods(mods);
    let mut entries: Vec<String> = Vec::new();
    let ghost views = mod_views(mods@);
    let mut i: usize = 0;
    while i < mods.len()
        invariant
            i <= mods.len(),
            views == mod_views(mods@),
            text_views(entries@) == mod_entries(views.take(i as int)),
            entries@.len() == i,
        decreases mods.len() - i,
    {
        let entry = mod_line_of(&mods[i]);
        proof {
            assert(views.take(i + 1) =~= views.take(i as int).push(mods@[i as int]@));
            assert(mod_entries(views.take(i + 1)) =~= mod_entries(views.take(i as int)).push(
                entry@,
            ));
        }
        entries.push(entry);
        assert(text_views(entries@) =~= mod_entries(views.take(i as int)).push(entry@));
        i += 1;
    }
    assert(views.take(mods@.len() as int) =~= views);
    push_section(lines, &head, &keys, &entries);
}

/// Appends the section of the changes of version.
pub fn push_updated_section(lines: &mut Vec<String>, updated: &Vec<UpdatedMod>)
    ensures
        text_views(final(lines)@) == text_views(old(lines)@) + updated_section(
            updated_views(updated@),
        ),
{
    let head = section_head(None, UPDATED_HEADING, None, updated.len());
    assert(text_views(head@) =~= seq![heading(UPDATED_HEADING@, updated@.len())]);
    let mut keys: Vec<Vec<char>> = Vec::new();
    let mut entries: Vec<String> = Vec::new();
    let ghost views = updated_views(updated@);
    let mut i: usize = 0;
    while i < updated.len()
        invariant
            i <= updated.len(),
            views == updated_views(updated@),
            key_texts(keys@) == updated_keys(views.take(i as int)),
            text_views(entries@) == updated_entries(views.take(i as int)),
            keys@.len() == i,
            entries@.len() == i,
        decreases updated.len() - i,
    {
        let key = to_lowercase(updated[i].name.as_str());
        let key_chars = chars_of(key.as_str());
        let entry = updated_line_of(&updated[i]);
        proof {
            assert(views.take(i + 1) =~= views.take(i as int).push(updated@[i as int]@));
            assert(updated_keys(views.take(i + 1)) =~= updated_keys(views.take(i as int)).push(
                key_chars@,
            ));
            assert(updated_entries(views.take(i + 1)) =~= updated_entries(
                views.take(i as int),
            ).push(entry@));
        }
        keys.push(key_chars);
        entries.push(entry);
        assert(key_texts(keys@) =~= updated_keys(views.take(i as int)).push(key_chars@));
        assert(text_views(entries@) =~= updated_entries(views.take(i as int)).push(entry@));
        i += 1;
    }
    assert(views.take(updated@.len() as int) =~= views);
    push_section(lines, &head, &keys, &entries);
}

/// Appends the section of the files that could not be read.
pub fn push_failed_section(lines: &mut Vec<String>, failed: &Vec<String>)
    ensures
        text_views(final(lines)@) == text_views(old(lines)@) + failed_section(
            text_views(failed@),
        ),
{
    let head = section_head(Some(RULE), FAILED_HEADING, None, failed.len());
    assert(text_views(head@) =~= seq![RULE@, heading(FAILED_HEADING@, failed@.len())]);
    let mut keys: Vec<Vec<char>> = Vec::new();
    let mut entries: Vec<String> = Vec::new();
    let ghost views = text_views(failed@);
    let mut i: usize = 0;
    while i < failed.len()
        invariant
            i <= failed.len(),
            views == text_views(failed@),
            key_texts(keys@) == views.take(i as int),
            text_views(entries@) == failed_entries(views.take(i as int)),
            keys@.len() == i,
            entries@.len() == i,
        decreases failed.len() - i,
    {
        let key_chars = chars_of(failed[i].as_str());
        let entry = failed_line_of(failed[i].as_str());
        proof {
            assert(views.take(i + 1) =~= views.take(i as int).push(failed@[i as int]@));
            assert(failed_entries(views.take(i + 1)) =~= failed_entries(
                views.take(i as int),
            ).push(entry@));
        }
        keys.push(key_chars);
        entries.push(entry);
        assert(key_texts(keys@) =~= views.take(i as int).push(key_chars@));
        assert(text_views(entries@) =~= failed_entries(views.take(i as int)).push(entry@));
        i += 1;
    }
    assert(views.take(failed@.len() as int) =~= views);
    push_section(lines, &head, &keys, &entries);
}

/// The title line.
pub open spec fn title_line(title: Seq<char>) -> Seq<char> {
    TITLE_OPEN@ + title + TITLE_CLOSE@
}

/// The line that says when the report was made.
pub open spec fn date_line(generated_at: Seq<char>) -> Seq<char> {
    DATE_LABEL@ + generated_at + LINE_END@
}

/// The line of the counts of the newer snapshot: active, disabled, failed.
pub open spec fn counts_line(stats: SnapshotStats) -> Seq<char> {
    COUNT_ACTIVE@ + decimal(stats.active as nat) + COUNT_DISABLED@ + decimal(
        stats.disabled as nat,
    ) + COUNT_FAILED@ + decimal(stats.failed as nat) + LINE_END@
}

/// The line that names the snapshot compared with, by its timestamp.
pub open spec fn compared_line(timestamp: Seq<char>) -> Seq<char> {
    COMPARED_WITH@ + timestamp + LINE_END@
}

/// The last line: how many records did not change, and how many changes there are.
pub open spec fn summary_line(unchanged: nat, total: nat) -> Seq<char> {
    SUMMARY_UNCHANGED@ + decimal(unchanged) + SUMMARY_TOTAL@ + decimal(total) + SUMMARY_CLOSE@
}

/// The lines before the sections.
pub open spec fn header_lines(
    title: Seq<char>,
    generated_at: Seq<char>,
    stats: SnapshotStats,
    compared_with: Option<Seq<char>>,
) -> Seq<Seq<char>> {
    seq![title_line(title), date_line(generated_at), counts_line(stats)] + (match compared_with {
        Some(t) => seq![compared_line(t)],
        None => Seq::empty(),
    }) + seq![HEADER_END@]
}

/// The lines behind the sections.
pub open spec fn footer_lines(c: ChangesView) -> Seq<Seq<char>> {
    seq![RULE@, RECOMMENDATION@, summary_line(c.unchanged.len(), c.total())]
}

/// The lines of the report, in their fixed order: the header; the sections
/// of the added, updated, removed, newly disabled and newly enabled records;
/// the section of all records disabled in the newer snapshot; the section of
/// its unreadable files; the footer.
pub open spec fn report_lines(
    title: Seq<char>,
    c: ChangesView,
    new: SnapshotView,
    compared_with: Option<Seq<char>>,
    generated_at: Seq<char>,
) -> Seq<Seq<char>> {
    header_lines(title, generated_at, new.stats, compared_with) + mod_section(
        Seq::empty(),
        ADDED_HEADING@,
        Seq::empty(),
        c.added,
    ) + updated_section(c.updated) + mod_section(
        Seq::empty(),
        REMOVED_HEADING@,
        Seq::empty(),
        c.removed,
    ) + mod_section(
        Seq::empty(),
        NEWLY_DISABLED_HEADING@,
        seq![NEWLY_DISABLED_NOTE@],
        c.newly_disabled,
    ) + mod_section(Seq::empty(), NEWLY_ENABLED_HEADING@, Seq::empty(), c.newly_enabled)
        + mod_section(seq![RULE@], DISABLED_HEADING@, Seq::empty(), new.disabled) + failed_section(
        new.failed,
    ) + footer_lines(c)
}

/// The report as one text.
pub open spec fn report(
    title: Seq<char>,
    c: ChangesView,
    new: SnapshotView,
    compared_with: Option<Seq<char>>,
    generated_at: Seq<char>,
) -> Seq<char> {
    joined(report_lines(title, c, new, compared_with, generated_at))
}

/// The timestamp of the snapshot compared with, if there is one.
pub open spec fn timestamp_of(old: Option<&Snapshot>) -> Option<Seq<char>> {
    match old {
        Some(o) => Some(o.timestamp@),
        None => None,
    }
}

fn push_header(
    lines: &mut Vec<String>,
    title: &str,
    generated_at: &str,
    stats: &SnapshotStats,
    previous: Option<&Snapshot>,
)
    ensures
        text_views(final(lines)@) == text_views(old(lines)@) + header_lines(
            title@,
            generated_at@,
            *stats,
            timestamp_of(previous),
        ),
{
    let ghost base = text_views(lines@);
    let mut line = String::new();
    line.append(TITLE_OPEN);
    line.append(title);
    line.append(TITLE_CLOSE);
    assert(line@ =~= title_line(title@));
    push_line(lines, line);

    let mut line = String::new();
    line.append(DATE_LABEL);
    line.append(generated_at);
    line.append(LINE_END);
    assert(line@ =~= date_line(generated_at@));
    push_line(lines, line);

    let mut line = String::new();
    line.append(COUNT_ACTIVE);
    push_decimal(&mut line, stats.active as u128);
    line.append(COUNT_DISABLED);
    push_decimal(&mut line, stats.disabled as u128);
    line.append(COUNT_FAILED);
    push_decimal(&mut line, stats.failed as u128);
    line.append(LINE_END);
    assert(line@ =~= counts_line(*stats));
    push_line(lines, line);

    if let Some(o) = previous {
        let mut line = String::new();
        line.append(COMPARED_WITH);
        line.append(o.timestamp.as_str());
        line.append(LINE_END);
        assert(line@ =~= compared_line(o.timestamp@));
        push_line(lines, line);
    }
    push_line(lines, HEADER_END.to_owned());
    assert(text_views(lines@) =~= base + header_lines(
        title@,
        generated_at@,
        *stats,
        timestamp_of(previous),
    ));
}

fn push_footer(lines: &mut Vec<String>, changes: &Changes)
    ensures
        text_views(final(lines)@) == text_views(old(lines)@) + footer_lines(changes@),
{
    let ghost base = text_views(lines@);
    push_line(lines, RULE.to_owned());
    push_line(lines, RECOMMENDATION.to_owned());
    let total: u128 = changes.added.len() as u128 + changes.removed.len() as u128
        + changes.updated.len() as u128 + changes.newly_disabled.len() as u128
        + changes.newly_enabled.len() as u128;
    let mut line = String::new();
    line.append(SUMMARY_UNCHANGED);
    push_decimal(&mut line, changes.unchanged.len() as u128);
    line.append(SUMMARY_TOTAL);
    push_decimal(&mut line, total);
    line.append(SUMMARY_CLOSE);
    assert(line@ =~= summary_line(changes@.unchanged.len(), changes@.total()));
    push_line(lines, line);
    assert(text_views(lines@) =~= base + footer_lines(changes@));
}

/// Renders the report of `changes` under the title `display_name`, with the
/// counts and the disabled and unreadable entries of `new_snapshot`, the
/// timestamp of `old_snapshot` where there is one, and `generated_at` as the
/// time of writing.
pub fn render_markdown(
    display_name: &str,
    changes: &Changes,
    new_snapshot: &Snapshot,
    old_snapshot: Option<&Snapshot>,
    generated_at: &str,
) -> (out: String)
    ensures
        out@ == report(
            display_name@,
            changes@,
            new_snapshot@,
            timestamp_of(old_snapshot),
            generated_at@,
        ),
{
    let mut lines: Vec<String> = Vec::new();
    assert(text_views(lines@) =~= Seq::<Seq<char>>::empty());
    push_header(&mut lines, display_name, generated_at, &new_snapshot.stats, old_snapshot);
    push_mod_section(&mut lines, None, ADDED_HEADING, None, &changes.added);
    push_updated_section(&mut lines, &changes.updated);
    push_mod_section(&mut lines, None, REMOVED_HEADING, None, &changes.removed);
    push_mod_section(
        &mut lines,
        None,
        NEWLY_DISABLED_HEADING,
        Some(NEWLY_DISABLED_NOTE),
        &changes.newly_disabled,
    );
    push_mod_section(&mut lines, None, NEWLY_ENABLED_HEADING, None, &changes.newly_enabled);
    push_mod_section(&mut lines, Some(RULE), DISABLED_HEADING, None, &new_snapshot.disabled);
    push_failed_section(&mut lines, &new_snapshot.failed);
    push_footer(&mut lines, changes);
    assert(text_views(lines@) =~= report_lines(
        display_name@,
        changes@,
        new_snapshot@,
        timestamp_of(old_snapshot),
        generated_at@,
    ));
    join_lines(&lines)
}

/// Renders the report of `changes`, stamped with the local time of the call.
/// Whatever the clock reads, the text is the report for the stamp of a reading.
pub fn generate_markdown(
    display_name: &str,
    changes: &Changes,
    new_snapshot: &Snapshot,
    old_snapshot: Option<&Snapshot>,
) -> (out: String)
    ensures
        exists|now: WallClock|
            out@ == report(
                display_name@,
                changes@,
                new_snapshot@,
                timestamp_of(old_snapshot),
                stamp(now),
            ),
{
    let now = local_now();
    let generated_at = stamp_of(&now);
    render_markdown(display_name, changes, new_snapshot, old_snapshot, generated_at.as_str())
}

/// The records in the order of their names, without regard to case; records
/// whose names differ in case alone keep their order.
pub open spec fn mods_by_name(mods: Seq<ModView>) -> Seq<ModView> {
    sorted_order(mod_keys(mods)).map_values(|i: usize| mods[i as int])
}

/// The changes of version in the order of their names, without regard to case.
pub open spec fn updates_by_name(us: Seq<UpdatedView>) -> Seq<UpdatedView> {
    sorted_order(updated_keys(us)).map_values(|i: usize| us[i as int])
}

/// The keys of a list of records: their names in lowercase.
fn keys_of_mods(mods: &Vec<ModData>) -> (keys: Vec<Vec<char>>)
    ensures
        key_texts(keys@) == mod_keys(mod_views(mods@)),
        keys@.len() == mods@.len(),
{
    let mut keys: Vec<Vec<char>> = Vec::new();
    let ghost views = mod_views(mods@);
    let mut i: usize = 0;
    while i < mods.len()
        invariant
            i <= mods.len(),
            views == mod_views(mods@),
            key_texts(keys@) == mod_keys(views.take(i as int)),
            keys@.len() == i,
        decreases mods.len() - i,
    {
        let key = to_lowercase(mods[i].name.as_str());
        let key_chars = chars_of(key.as_str());
        proof {
            assert(views.take(i + 1) =~= views.take(i as int).push(mods@[i as int]@));
            assert(mod_keys(views.take(i + 1)) =~= mod_keys(views.take(i as int)).push(
                key_chars@,
            ));
        }
        keys.push(key_chars);
        assert(key_texts(keys@) =~= mod_keys(views.take(i as int)).push(key_chars@));
        i += 1;
    }
    assert(views.take(mods@.len() as int) =~= views);
    keys
}

/// Orders records by name, without regard to case.
pub fn sorted_mods(mods: &Vec<ModData>) -> (out: Vec<ModData>)
    ensures
        mod_views(out@) == mods_by_name(mod_views(mods@)),
{
    let keys = keys_of_mods(mods);
    let order = sort_order(&keys);
    let ghost views = mod_views(mods@);
    let ghost sorted = mods_by_name(views);
    let mut out: Vec<ModData> = Vec::new();
    let mut t: usize = 0;
    assert(mod_views(out@) =~= sorted.take(0));
    while t < order.len()
        invariant
            t <= order.len(),
            views == mod_views(mods@),
            order@ == sorted_order(mod_keys(views)),
            sorted == mods_by_name(views),
            forall|i: int| 0 <= i < order@.len() ==> (#[trigger] order@[i]) < mods@.len(),
            mod_views(out@) == sorted.take(t as int),
        decreases order.len() - t,
    {
        out.push(mods[order[t]].clone());
        assert(mod_views(out@) =~= sorted.take(t as int).push(mods@[order@[t as int] as int]@));
        assert(sorted.take(t + 1) =~= sorted.take(t as int).push(mods@[order@[t as int] as int]@));
        t += 1;
    }
    assert(sorted.take(order@.len() as int) =~= sorted);
    out
}

/// Orders changes of version by name, without regard to case.
pub fn sorted_updates(updated: &Vec<UpdatedMod>) -> (out: Vec<UpdatedMod>)
    ensures
        updated_views(out@) == updates_by_name(updated_views(updated@)),
{
    let ghost views = updated_views(updated@);
    let mut keys: Vec<Vec<char>> = Vec::new();
    let mut i: usize = 0;
    while i < updated.len()
        invariant
            i <= updated.len(),
            views == updated_views(updated@),
            key_texts(keys@) == updated_keys(views.take(i as int)),
            keys@.len() == i,
        decreases updated.len() - i,
    {
        let key = to_lowercase(updated[i].name.as_str());
        let key_chars = chars_of(key.as_str());
        proof {
            assert(views.take(i + 1) =~= views.take(i as int).push(updated@[i as int]@));
            assert(updated_keys(views.take(i + 1)) =~= updated_keys(views.take(i as int)).push(
                key_chars@,
            ));
        }
        keys.push(key_chars);
        assert(key_texts(keys@) =~= updated_keys(views.take(i as int)).push(key_chars@));
        i += 1;
    }
    assert(views.take(updated@.len() as int) =~= views);
    let order = sort_order(&keys);
    let ghost sorted = updates_by_name(views);
    let mut out: Vec<UpdatedMod> = Vec::new();
    let mut t: usize = 0;
    assert(updated_views(out@) =~= sorted.take(0));
    while t < order.len()
        invariant
            t <= order.len(),
            views == updated_views(updated@),
            order@ == sorted_order(updated_keys(views)),
            sorted == updates_by_name(views),
            forall|i: int| 0 <= i < order@.len() ==> (#[trigger] order@[i]) < updated@.len(),
            updated_views(out@) == sorted.take(t as int),
        decreases order.len() - t,
    {
        out.push(updated[order[t]].clone());
        assert(updated_views(out@) =~= sorted.take(t as int).push(
            updated@[order@[t as int] as int]@,
        ));
        assert(sorted.take(t + 1) =~= sorted.take(t as int).push(
            updated@[order@[t as int] as int]@,
        ));
        t += 1;
    }
    assert(sorted.take(order@.len() as int) =~= sorted);
    out
}

} // verus!
