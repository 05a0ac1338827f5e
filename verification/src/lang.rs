//! The texts of the user interface, in each language.

use vstd::prelude::*;
use vstd::hash_map::StringHashMap;
use crate::text::{decimal, decimal_string, replace_text, substituted};

verus! {

/// What stands for a text that the table does not hold.
pub const MISSING: &'static str = "???";

/// A language of the user interface.
#[derive(Debug, Clone, Copy, PartialEq, Eq, Structural)]
pub enum Lang {
    Cs,
    En,
}

impl Lang {
    /// The name of the language, as the user reads it.
    pub fn label(self) -> (out: &'static str)
        ensures
            out@ == (match self {
                Lang::Cs => "Cestina"@,
                Lang::En => "English"@,
            }),
    {
        match self {
            Lang::Cs => "Cestina",
            Lang::En => "English",
        }
    }

    /// The key of the language in a table of translations.
    pub fn key(self) -> (out: &'static str)
        ensures
            out@ == (match self {
                Lang::Cs => "cs"@,
                Lang::En => "en"@,
            }),
    {
        match self {
            Lang::Cs => "cs",
            Lang::En => "en",
        }
    }
}

/// The table of translations: for each language, texts under their keys.
pub struct T {
    cs: StringHashMap<String>,
    en: StringHashMap<String>,
}

/// What a [`T`] holds, as plain values.
pub ghost struct TableView {
    pub cs: Map<Seq<char>, Seq<char>>,
    pub en: Map<Seq<char>, Seq<char>>,
}

impl TableView {
    /// The texts of one language.
    pub open spec fn of(self, l: Lang) -> Map<Seq<char>, Seq<char>> {
        match l {
            Lang::Cs => self.cs,
            Lang::En => self.en,
        }
    }

    /// The text under `key` in the language `l`; `???` where there is none.
    pub open spec fn text(self, l: Lang, key: Seq<char>) -> Seq<char> {
        if self.of(l).contains_key(key) {
            self.of(l)[key]
        } else {
            MISSING@
        }
    }

    /// The table with `text` put under `key` in the language `l`.
    pub open spec fn with(self, l: Lang, key: Seq<char>, text: Seq<char>) -> TableView {
        match l {
            Lang::Cs => TableView { cs: self.cs.insert(key, text), en: self.en },
            Lang::En => TableView { cs: self.cs, en: self.en.insert(key, text) },
        }
    }
}

/// The texts of a map of strings.
pub open spec fn texts_of(m: Map<Seq<char>, String>) -> Map<Seq<char>, Seq<char>> {
    m.map_values(|s: String| s@)
}

/// The text with each pair of `pairs`, a placeholder and its value, filled
/// in, one pair after the other.
pub open spec fn formatted(text: Seq<char>, pairs: Seq<(Seq<char>, Seq<char>)>) -> Seq<char>
    decreases pairs.len(),
{
    if pairs.len() == 0 {
        text
    } else {
        substituted(formatted(text, pairs.drop_last()), pairs.last().0, pairs.last().1)
    }
}

/// The views of a sequence of pairs of strings.
pub open spec fn pair_views(s: Seq<(String, String)>) -> Seq<(Seq<char>, Seq<char>)> {
    s.map_values(|p: (String, String)| (p.0@, p.1@))
}

impl View for T {
    type V = TableView;

    closed spec fn view(&self) -> TableView {
        TableView { cs: texts_of(self.cs@), en: texts_of(self.en@) }
    }
}

impl T {
    /// A table without texts.
    pub fn new() -> (out: T)
        ensures
            out@.cs == Map::<Seq<char>, Seq<char>>::empty(),
            out@.en == Map::<Seq<char>, Seq<char>>::empty(),
    {
        let out = T { cs: StringHashMap::new(), en: StringHashMap::new() };
        assert(texts_of(out.cs@) =~= Map::<Seq<char>, Seq<char>>::empty());
        assert(texts_of(out.en@) =~= Map::<Seq<char>, Seq<char>>::empty());
        out
    }

    /// Puts `text` under `key` in the language `l`, in place of what was there.
    pub fn insert(&mut self, l: Lang, key: String, text: String)
        ensures
            final(self)@ == old(self)@.with(l, key@, text@),
    {
        match l {
            Lang::Cs => {
                self.cs.insert(key, text);
                assert(texts_of(self.cs@) =~= texts_of(old(self).cs@).insert(key@, text@));
            },
            Lang::En => {
                self.en.insert(key, text);
                assert(texts_of(self.en@) =~= texts_of(old(self).en@).insert(key@, text@));
            },
        }
    }

    /// The text under `key` in the language `l`.
    pub fn get(&self, l: Lang, key: &str) -> (out: &str)
        ensures
            out@ == self@.text(l, key@),
    {
        let found = match l {
            Lang::Cs => self.cs.get(key),
            Lang::En => self.en.get(key),
        };
        match found {
            Some(text) => text.as_str(),
            None => MISSING,
        }
    }

    /// The text under `key` in the language `l`, as a string of its own.
    pub fn get_owned(&self, l: Lang, key: &str) -> (out: String)
        ensures
            out@ == self@.text(l, key@),
    {
        self.get(l, key).to_owned()
    }

    /// The text under `key` in the language `l`, with each placeholder of
    /// `replacements` replaced by its value, one pair after the other.
    pub fn fmt(&self, l: Lang, key: &str, replacements: &Vec<(String, String)>) -> (out: String)
        ensures
            out@ == formatted(self@.text(l, key@), pair_views(replacements@)),
    {
        let mut text = self.get_owned(l, key);
        let ghost pairs = pair_views(replacements@);
        let mut i: usize = 0;
        assert(pairs.take(0) =~= Seq::<(Seq<char>, Seq<char>)>::empty());
        while i < replacements.len()
            invariant
                i <= replacements.len(),
                pairs == pair_views(replacements@),
                text@ == formatted(self@.text(l, key@), pairs.take(i as int)),
            decreases replacements.len() - i,
        {
            proof {
                assert(pairs.take(i + 1).drop_last() =~= pairs.take(i as int));
                assert(pairs.take(i + 1).last() == pairs[i as int]);
            }
            text = replace_text(
                text.as_str(),
                replacements[i].0.as_str(),
                replacements[i].1.as_str(),
            );
            i += 1;
        }
        assert(pairs.take(replacements@.len() as int) =~= pairs);
        text
    }

    /// The text under `window_title`.
    pub fn window_title(&self, l: Lang) -> (out: &str)
        ensures
            out@ == self@.text(l, "window_title"@),
    {
        self.get(l, "window_title")
    }

    /// The text under `tab_settings`.
    pub fn tab_settings(&self, l: Lang) -> (out: &str)
        ensures
            out@ == self@.text(l, "tab_settings"@),
    {
        self.get(l, "tab_settings")
    }

    /// The text under `tab_results`.
    pub fn tab_results(&self, l: Lang) -> (out: &str)
        ensures
            out@ == self@.text(l, "tab_results"@),
    {
        self.get(l, "tab_results")
    }

    /// The text under `tab_markdown`.
    pub fn tab_markdown(&self, l: Lang) -> (out: &str)
        ensures
            out@ == self@.text(l, "tab_markdown"@),
    {
        self.get(l, "tab_markdown")
    }

    /// The text under `tab_history`.
    pub fn tab_history(&self, l: Lang) -> (out: &str)
        ensures
            out@ == self@.text(l, "tab_history"@),
    {
        self.get(l, "tab_history")
    }

    /// The text under `scanning`.
    pub fn scanning(&self, l: Lang) -> (out: &str)
        ensures
            out@ == self@.text(l, "scanning"@),
    {
        self.get(l, "scanning")
    }

    /// The text under `settings_heading`.
    pub fn settings_heading(&self, l: Lang) -> (out: &str)
        ensures
            out@ == self@.text(l, "settings_heading"@),
    {
        self.get(l, "settings_heading")
    }

    /// The text under `profile_label`.
    pub fn profile_label(&self, l: Lang) -> (out: &str)
        ensures
            out@ == self@.text(l, "profile_label"@),
    {
        self.get(l, "profile_label")
    }

    /// The text under `custom_path`.
    pub fn custom_path(&self, l: Lang) -> (out: &str)
        ensures
            out@ == self@.text(l, "custom_path"@),
    {
        self.get(l, "custom_path")
    }

    /// The text under `mods_dir_label`.
    pub fn mods_dir_label(&self, l: Lang) -> (out: &str)
        ensures
            out@ == self@.text(l, "mods_dir_label"@),
    {
        self.get(l, "mods_dir_label")
    }

    /// The text under `browse`.
    pub fn browse(&self, l: Lang) -> (out: &str)
        ensures
            out@ == self@.text(l, "browse"@),
    {
        self.get(l, "browse")
    }

    /// The text under `browse_title`.
    pub fn browse_title(&self, l: Lang) -> (out: &str)
        ensures
            out@ == self@.text(l, "browse_title"@),
    {
        self.get(l, "browse_title")
    }

    /// The text under `pack_name_label`.
    pub fn pack_name_label(&self, l: Lang) -> (out: &str)
        ensures
            out@ == self@.text(l, "pack_name_label"@),
    {
        self.get(l, "pack_name_label")
    }

    /// The text under `edition_label`.
    pub fn edition_label(&self, l: Lang) -> (out: &str)
        ensures
            out@ == self@.text(l, "edition_label"@),
    {
        self.get(l, "edition_label")
    }

    /// The text under `pack_version_label`.
    pub fn pack_version_label(&self, l: Lang) -> (out: &str)
        ensures
            out@ == self@.text(l, "pack_version_label"@),
    {
        self.get(l, "pack_version_label")
    }

    /// The text under `force_new`.
    pub fn force_new(&self, l: Lang) -> (out: &str)
        ensures
            out@ == self@.text(l, "force_new"@),
    {
        self.get(l, "force_new")
    }

    /// The text under `name_preview`.
    pub fn name_preview(&self, l: Lang) -> (out: &str)
        ensures
            out@ == self@.text(l, "name_preview"@),
    {
        self.get(l, "name_preview")
    }

    /// The text under `scan_button`.
    pub fn scan_button(&self, l: Lang) -> (out: &str)
        ensures
            out@ == self@.text(l, "scan_button"@),
    {
        self.get(l, "scan_button")
    }

    /// The text under `scanning_in_progress`.
    pub fn scanning_in_progress(&self, l: Lang) -> (out: &str)
        ensures
            out@ == self@.text(l, "scanning_in_progress"@),
    {
        self.get(l, "scanning_in_progress")
    }

    /// The text under `dir_not_found`.
    pub fn dir_not_found(&self, l: Lang) -> (out: &str)
        ensures
            out@ == self@.text(l, "dir_not_found"@),
    {
        self.get(l, "dir_not_found")
    }

    /// The text under `language_label`.
    pub fn language_label(&self, l: Lang) -> (out: &str)
        ensures
            out@ == self@.text(l, "language_label"@),
    {
        self.get(l, "language_label")
    }

    /// The text under `no_results`.
    pub fn no_results(&self, l: Lang) -> (out: &str)
        ensures
            out@ == self@.text(l, "no_results"@),
    {
        self.get(l, "no_results")
    }

    /// The text under `run_scan_first`.
    pub fn run_scan_first(&self, l: Lang) -> (out: &str)
        ensures
            out@ == self@.text(l, "run_scan_first"@),
    {
        self.get(l, "run_scan_first")
    }

    /// The text under `results_heading`.
    pub fn results_heading(&self, l: Lang) -> (out: &str)
        ensures
            out@ == self@.text(l, "results_heading"@),
    {
        self.get(l, "results_heading")
    }

    /// The text under `total_jars`.
    pub fn total_jars(&self, l: Lang) -> (out: &str)
        ensures
            out@ == self@.text(l, "total_jars"@),
    {
        self.get(l, "total_jars")
    }

    /// The text under `active`.
    pub fn active(&self, l: Lang) -> (out: &str)
        ensures
            out@ == self@.text(l, "active"@),
    {
        self.get(l, "active")
    }

    /// The text under `disabled`.
    pub fn disabled(&self, l: Lang) -> (out: &str)
        ensures
            out@ == self@.text(l, "disabled"@),
    {
        self.get(l, "disabled")
    }

    /// The text under `read_errors`.
    pub fn read_errors(&self, l: Lang) -> (out: &str)
        ensures
            out@ == self@.text(l, "read_errors"@),
    {
        self.get(l, "read_errors")
    }

    /// The text under `changes_heading`.
    pub fn changes_heading(&self, l: Lang) -> (out: &str)
        ensures
            out@ == self@.text(l, "changes_heading"@),
    {
        self.get(l, "changes_heading")
    }

    /// The text under `no_changes`.
    pub fn no_changes(&self, l: Lang) -> (out: &str)
        ensures
            out@ == self@.text(l, "no_changes"@),
    {
        self.get(l, "no_changes")
    }

    /// The text under `no_report`.
    pub fn no_report(&self, l: Lang) -> (out: &str)
        ensures
            out@ == self@.text(l, "no_report"@),
    {
        self.get(l, "no_report")
    }

    /// The text under `run_scan_first_short`.
    pub fn run_scan_first_short(&self, l: Lang) -> (out: &str)
        ensures
            out@ == self@.text(l, "run_scan_first_short"@),
    {
        self.get(l, "run_scan_first_short")
    }

    /// The text under `generated_markdown`.
    pub fn generated_markdown(&self, l: Lang) -> (out: &str)
        ensures
            out@ == self@.text(l, "generated_markdown"@),
    {
        self.get(l, "generated_markdown")
    }

    /// The text under `copy_to_clipboard`.
    pub fn copy_to_clipboard(&self, l: Lang) -> (out: &str)
        ensures
            out@ == self@.text(l, "copy_to_clipboard"@),
    {
        self.get(l, "copy_to_clipboard")
    }

    /// The text under `copied`.
    pub fn copied(&self, l: Lang) -> (out: &str)
        ensures
            out@ == self@.text(l, "copied"@),
    {
        self.get(l, "copied")
    }

    /// The text under `history_heading`.
    pub fn history_heading(&self, l: Lang) -> (out: &str)
        ensures
            out@ == self@.text(l, "history_heading"@),
    {
        self.get(l, "history_heading")
    }

    /// The text under `refresh`.
    pub fn refresh(&self, l: Lang) -> (out: &str)
        ensures
            out@ == self@.text(l, "refresh"@),
    {
        self.get(l, "refresh")
    }

    /// The text under `no_snapshots`.
    pub fn no_snapshots(&self, l: Lang) -> (out: &str)
        ensures
            out@ == self@.text(l, "no_snapshots"@),
    {
        self.get(l, "no_snapshots")
    }

    /// The text under `run_scan_for_first`.
    pub fn run_scan_for_first(&self, l: Lang) -> (out: &str)
        ensures
            out@ == self@.text(l, "run_scan_for_first"@),
    {
        self.get(l, "run_scan_for_first")
    }

    /// The text under `older_snapshot`.
    pub fn older_snapshot(&self, l: Lang) -> (out: &str)
        ensures
            out@ == self@.text(l, "older_snapshot"@),
    {
        self.get(l, "older_snapshot")
    }

    /// The text under `newer_snapshot`.
    pub fn newer_snapshot(&self, l: Lang) -> (out: &str)
        ensures
            out@ == self@.text(l, "newer_snapshot"@),
    {
        self.get(l, "newer_snapshot")
    }

    /// The text under `select`.
    pub fn select(&self, l: Lang) -> (out: &str)
        ensures
            out@ == self@.text(l, "select"@),
    {
        self.get(l, "select")
    }

    /// The text under `compare_selected`.
    pub fn compare_selected(&self, l: Lang) -> (out: &str)
        ensures
            out@ == self@.text(l, "compare_selected"@),
    {
        self.get(l, "compare_selected")
    }

    /// The text under `select_two_different`.
    pub fn select_two_different(&self, l: Lang) -> (out: &str)
        ensures
            out@ == self@.text(l, "select_two_different"@),
    {
        self.get(l, "select_two_different")
    }

    /// The text under `history_comparison`.
    pub fn history_comparison(&self, l: Lang) -> (out: &str)
        ensures
            out@ == self@.text(l, "history_comparison"@),
    {
        self.get(l, "history_comparison")
    }

    /// The text under `copy_history_md`.
    pub fn copy_history_md(&self, l: Lang) -> (out: &str)
        ensures
            out@ == self@.text(l, "copy_history_md"@),
    {
        self.get(l, "copy_history_md")
    }

    /// The text under `history_md_copied`.
    pub fn history_md_copied(&self, l: Lang) -> (out: &str)
        ensures
            out@ == self@.text(l, "history_md_copied"@),
    {
        self.get(l, "history_md_copied")
    }

    /// The text under `md_date`.
    pub fn md_date(&self, l: Lang) -> (out: &str)
        ensures
            out@ == self@.text(l, "md_date"@),
    {
        self.get(l, "md_date")
    }

    /// The text under `md_compared_with`.
    pub fn md_compared_with(&self, l: Lang) -> (out: &str)
        ensures
            out@ == self@.text(l, "md_compared_with"@),
    {
        self.get(l, "md_compared_with")
    }

    /// The text under `md_disabled_reason`.
    pub fn md_disabled_reason(&self, l: Lang) -> (out: &str)
        ensures
            out@ == self@.text(l, "md_disabled_reason"@),
    {
        self.get(l, "md_disabled_reason")
    }

    /// The text under `md_recommendation`.
    pub fn md_recommendation(&self, l: Lang) -> (out: &str)
        ensures
            out@ == self@.text(l, "md_recommendation"@),
    {
        self.get(l, "md_recommendation")
    }

    /// The text under `scan_done`,
    /// with `{active}`, `{disabled}`, `{failed}`, `{changes}` filled in, in this order.
    pub fn scan_done(
        &self,
        l: Lang,
        active: usize,
        disabled: usize,
        failed: usize,
        changes: usize,
    ) -> (out: String)
        ensures
            out@ == ({
                let text = self@.text(l, "scan_done"@);
                let text = substituted(text, "{active}"@, decimal(active as nat));
                let text = substituted(text, "{disabled}"@, decimal(disabled as nat));
                let text = substituted(text, "{failed}"@, decimal(failed as nat));
                let text = substituted(text, "{changes}"@, decimal(changes as nat));
                text
            }),
    {
        let text = self.get_owned(l, "scan_done");
        let text = replace_text(text.as_str(), "{active}", decimal_string(active as u128).as_str());
        let text = replace_text(text.as_str(), "{disabled}", decimal_string(disabled as u128).as_str());
        let text = replace_text(text.as_str(), "{failed}", decimal_string(failed as u128).as_str());
        let text = replace_text(text.as_str(), "{changes}", decimal_string(changes as u128).as_str());
        text
    }

    /// The text under `added`, with `{count}` filled in.
    pub fn added(&self, l: Lang, count: usize) -> (out: String)
        ensures
            out@ == substituted(self@.text(l, "added"@), "{count}"@, decimal(count as nat)),
    {
        let text = self.get_owned(l, "added");
        let text = replace_text(text.as_str(), "{count}", decimal_string(count as u128).as_str());
        text
    }

    /// The text under `updated`, with `{count}` filled in.
    pub fn updated(&self, l: Lang, count: usize) -> (out: String)
        ensures
            out@ == substituted(self@.text(l, "updated"@), "{count}"@, decimal(count as nat)),
    {
        let text = self.get_owned(l, "updated");
        let text = replace_text(text.as_str(), "{count}", decimal_string(count as u128).as_str());
        text
    }

    /// The text under `updated_detail`,
    /// with `{name}`, `{new_ver}`, `{old_ver}` filled in, in this order.
    pub fn updated_detail(&self, l: Lang, name: &str, new_ver: &str, old_ver: &str) -> (out: String)
        ensures
            out@ == ({
                let text = self@.text(l, "updated_detail"@);
                let text = substituted(text, "{name}"@, name@);
                let text = substituted(text, "{new_ver}"@, new_ver@);
                let text = substituted(text, "{old_ver}"@, old_ver@);
                text
            }),
    {
        let text = self.get_owned(l, "updated_detail");
        let text = replace_text(text.as_str(), "{name}", name);
        let text = replace_text(text.as_str(), "{new_ver}", new_ver);
        let text = replace_text(text.as_str(), "{old_ver}", old_ver);
        text
    }

    /// The text under `removed`, with `{count}` filled in.
    pub fn removed(&self, l: Lang, count: usize) -> (out: String)
        ensures
            out@ == substituted(self@.text(l, "removed"@), "{count}"@, decimal(count as nat)),
    {
        let text = self.get_owned(l, "removed");
        let text = replace_text(text.as_str(), "{count}", decimal_string(count as u128).as_str());
        text
    }

    /// The text under `newly_disabled`, with `{count}` filled in.
    pub fn newly_disabled(&self, l: Lang, count: usize) -> (out: String)
        ensures
            out@ == substituted(self@.text(l, "newly_disabled"@), "{count}"@, decimal(count as nat)),
    {
        let text = self.get_owned(l, "newly_disabled");
        let text = replace_text(text.as_str(), "{count}", decimal_string(count as u128).as_str());
        text
    }

    /// The text under `newly_enabled`, with `{count}` filled in.
    pub fn newly_enabled(&self, l: Lang, count: usize) -> (out: String)
        ensures
            out@ == substituted(self@.text(l, "newly_enabled"@), "{count}"@, decimal(count as nat)),
    {
        let text = self.get_owned(l, "newly_enabled");
        let text = replace_text(text.as_str(), "{count}", decimal_string(count as u128).as_str());
        text
    }

    /// The text under `unchanged_summary`, with `{unchanged}`, `{total}` filled in, in this order.
    pub fn unchanged_summary(&self, l: Lang, unchanged: usize, total: usize) -> (out: String)
        ensures
            out@ == ({
                let text = self@.text(l, "unchanged_summary"@);
                let text = substituted(text, "{unchanged}"@, decimal(unchanged as nat));
                let text = substituted(text, "{total}"@, decimal(total as nat));
                text
            }),
    {
        let text = self.get_owned(l, "unchanged_summary");
        let text = replace_text(text.as_str(), "{unchanged}", decimal_string(unchanged as u128).as_str());
        let text = replace_text(text.as_str(), "{total}", decimal_string(total as u128).as_str());
        text
    }

    /// The text under `snapshots_found`, with `{count}` filled in.
    pub fn snapshots_found(&self, l: Lang, count: usize) -> (out: String)
        ensures
            out@ == substituted(self@.text(l, "snapshots_found"@), "{count}"@, decimal(count as nat)),
    {
        let text = self.get_owned(l, "snapshots_found");
        let text = replace_text(text.as_str(), "{count}", decimal_string(count as u128).as_str());
        text
    }

    /// The text under `snapshot_read_error`, with `{filename}` filled in.
    pub fn snapshot_read_error(&self, l: Lang, filename: &str) -> (out: String)
        ensures
            out@ == substituted(self@.text(l, "snapshot_read_error"@), "{filename}"@, filename@),
    {
        let text = self.get_owned(l, "snapshot_read_error");
        let text = replace_text(text.as_str(), "{filename}", filename);
        text
    }

    /// The text under `history_summary`,
    /// with `{changes}`, `{file_a}`, `{file_b}` filled in, in this order.
    pub fn history_summary(
        &self,
        l: Lang,
        changes: usize,
        file_a: &str,
        file_b: &str,
    ) -> (out: String)
        ensures
            out@ == ({
                let text = self@.text(l, "history_summary"@);
                let text = substituted(text, "{changes}"@, decimal(changes as nat));
                let text = substituted(text, "{file_a}"@, file_a@);
                let text = substituted(text, "{file_b}"@, file_b@);
                text
            }),
    {
        let text = self.get_owned(l, "history_summary");
        let text = replace_text(text.as_str(), "{changes}", decimal_string(changes as u128).as_str());
        let text = replace_text(text.as_str(), "{file_a}", file_a);
        let text = replace_text(text.as_str(), "{file_b}", file_b);
        text
    }

    /// The text under `md_heading`, with `{name}` filled in.
    pub fn md_heading(&self, l: Lang, display_name: &str) -> (out: String)
        ensures
            out@ == substituted(self@.text(l, "md_heading"@), "{name}"@, display_name@),
    {
        let text = self.get_owned(l, "md_heading");
        let text = replace_text(text.as_str(), "{name}", display_name);
        text
    }

    /// The text under `md_total_mods`,
    /// with `{active}`, `{disabled}`, `{failed}` filled in, in this order.
    pub fn md_total_mods(
        &self,
        l: Lang,
        active: usize,
        disabled: usize,
        failed: usize,
    ) -> (out: String)
        ensures
            out@ == ({
                let text = self@.text(l, "md_total_mods"@);
                let text = substituted(text, "{active}"@, decimal(active as nat));
                let text = substituted(text, "{disabled}"@, decimal(disabled as nat));
                let text = substituted(text, "{failed}"@, decimal(failed as nat));
                text
            }),
    {
        let text = self.get_owned(l, "md_total_mods");
        let text = replace_text(text.as_str(), "{active}", decimal_string(active as u128).as_str());
        let text = replace_text(text.as_str(), "{disabled}", decimal_string(disabled as u128).as_str());
        let text = replace_text(text.as_str(), "{failed}", decimal_string(failed as u128).as_str());
        text
    }

    /// The text under `md_new_mods`, with `{count}` filled in.
    pub fn md_new_mods(&self, l: Lang, count: usize) -> (out: String)
        ensures
            out@ == substituted(self@.text(l, "md_new_mods"@), "{count}"@, decimal(count as nat)),
    {
        let text = self.get_owned(l, "md_new_mods");
        let text = replace_text(text.as_str(), "{count}", decimal_string(count as u128).as_str());
        text
    }

    /// The text under `md_updated_mods`, with `{count}` filled in.
    pub fn md_updated_mods(&self, l: Lang, count: usize) -> (out: String)
        ensures
            out@ == substituted(self@.text(l, "md_updated_mods"@), "{count}"@, decimal(count as nat)),
    {
        let text = self.get_owned(l, "md_updated_mods");
        let text = replace_text(text.as_str(), "{count}", decimal_string(count as u128).as_str());
        text
    }

    /// The text under `md_updated_detail`,
    /// with `{name}`, `{new_ver}`, `{old_ver}` filled in, in this order.
    pub fn md_updated_detail(
        &self,
        l: Lang,
        name: &str,
        new_ver: &str,
        old_ver: &str,
    ) -> (out: String)
        ensures
            out@ == ({
                let text = self@.text(l, "md_updated_detail"@);
                let text = substituted(text, "{name}"@, name@);
                let text = substituted(text, "{new_ver}"@, new_ver@);
                let text = substituted(text, "{old_ver}"@, old_ver@);
                text
            }),
    {
        let text = self.get_owned(l, "md_updated_detail");
        let text = replace_text(text.as_str(), "{name}", name);
        let text = replace_text(text.as_str(), "{new_ver}", new_ver);
        let text = replace_text(text.as_str(), "{old_ver}", old_ver);
        text
    }

    /// The text under `md_removed_mods`, with `{count}` filled in.
    pub fn md_removed_mods(&self, l: Lang, count: usize) -> (out: String)
        ensures
            out@ == substituted(self@.text(l, "md_removed_mods"@), "{count}"@, decimal(count as nat)),
    {
        let text = self.get_owned(l, "md_removed_mods");
        let text = replace_text(text.as_str(), "{count}", decimal_string(count as u128).as_str());
        text
    }

    /// The text under `md_newly_disabled`, with `{count}` filled in.
    pub fn md_newly_disabled(&self, l: Lang, count: usize) -> (out: String)
        ensures
            out@ == substituted(self@.text(l, "md_newly_disabled"@), "{count}"@, decimal(count as nat)),
    {
        let text = self.get_owned(l, "md_newly_disabled");
        let text = replace_text(text.as_str(), "{count}", decimal_string(count as u128).as_str());
        text
    }

    /// The text under `md_newly_enabled`, with `{count}` filled in.
    pub fn md_newly_enabled(&self, l: Lang, count: usize) -> (out: String)
        ensures
            out@ == substituted(self@.text(l, "md_newly_enabled"@), "{count}"@, decimal(count as nat)),
    {
        let text = self.get_owned(l, "md_newly_enabled");
        let text = replace_text(text.as_str(), "{count}", decimal_string(count as u128).as_str());
        text
    }

    /// The text under `md_currently_disabled`, with `{count}` filled in.
    pub fn md_currently_disabled(&self, l: Lang, count: usize) -> (out: String)
        ensures
            out@ == substituted(self@.text(l, "md_currently_disabled"@), "{count}"@, decimal(count as nat)),
    {
        let text = self.get_owned(l, "md_currently_disabled");
        let text = replace_text(text.as_str(), "{count}", decimal_string(count as u128).as_str());
        text
    }

    /// The text under `md_read_errors`, with `{count}` filled in.
    pub fn md_read_errors(&self, l: Lang, count: usize) -> (out: String)
        ensures
            out@ == substituted(self@.text(l, "md_read_errors"@), "{count}"@, decimal(count as nat)),
    {
        let text = self.get_owned(l, "md_read_errors");
        let text = replace_text(text.as_str(), "{count}", decimal_string(count as u128).as_str());
        text
    }

    /// The text under `md_read_error_detail`, with `{filename}` filled in.
    pub fn md_read_error_detail(&self, l: Lang, filename: &str) -> (out: String)
        ensures
            out@ == substituted(self@.text(l, "md_read_error_detail"@), "{filename}"@, filename@),
    {
        let text = self.get_owned(l, "md_read_error_detail");
        let text = replace_text(text.as_str(), "{filename}", filename);
        text
    }

    /// The text under `md_summary`, with `{unchanged}`, `{total}` filled in, in this order.
    pub fn md_summary(&self, l: Lang, unchanged: usize, total: usize) -> (out: String)
        ensures
            out@ == ({
                let text = self@.text(l, "md_summary"@);
                let text = substituted(text, "{unchanged}"@, decimal(unchanged as nat));
                let text = substituted(text, "{total}"@, decimal(total as nat));
                text
            }),
    {
        let text = self.get_owned(l, "md_summary");
        let text = replace_text(text.as_str(), "{unchanged}", decimal_string(unchanged as u128).as_str());
        let text = replace_text(text.as_str(), "{total}", decimal_string(total as u128).as_str());
        text
    }
}

} // verus!
