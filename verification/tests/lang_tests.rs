use porovnavac::lang::{Lang, T};

fn table() -> T {
    let mut t = T::new();
    let entries = [
        (Lang::En, "window_title", "Mod Comparer"),
        (Lang::Cs, "window_title", "Porovn\u{e1}va\u{10d} m\u{f3}d\u{16f}"),
        (Lang::En, "added", "Added ({count})"),
        (Lang::En, "scan_done", "{active} active, {disabled} disabled, {failed} failed, {changes} changes"),
        (Lang::En, "updated_detail", "  {name}: {old_ver} -> {new_ver}"),
        (Lang::En, "md_heading", "# {name} changes"),
        (Lang::En, "md_summary", "_(Unchanged: {unchanged}, total: {total})_"),
        (Lang::En, "history_summary", "{changes} changes between {file_a} and {file_b}"),
        (Lang::En, "snapshot_read_error", "Cannot read {filename}"),
        (Lang::En, "md_total_mods", "**Mods:** {active} / {disabled} / {failed}"),
    ];
    for (l, key, text) in entries {
        t.insert(l, key.to_string(), text.to_string());
    }
    t
}

#[test]
fn labels_and_keys() {
    assert_eq!(Lang::Cs.label(), "Cestina");
    assert_eq!(Lang::En.label(), "English");
    assert_eq!(Lang::Cs.key(), "cs");
    assert_eq!(Lang::En.key(), "en");
}

#[test]
fn a_text_is_found_in_its_language() {
    let t = table();
    assert_eq!(t.window_title(Lang::En), "Mod Comparer");
    assert_eq!(t.window_title(Lang::Cs), "Porovn\u{e1}va\u{10d} m\u{f3}d\u{16f}");
    assert_eq!(t.get(Lang::En, "window_title"), "Mod Comparer");
    assert_eq!(t.get_owned(Lang::En, "window_title"), "Mod Comparer");
}

#[test]
fn a_missing_text_is_three_question_marks() {
    let t = table();
    assert_eq!(t.tab_settings(Lang::En), "???");
    assert_eq!(t.get(Lang::Cs, "added"), "???");
    assert_eq!(t.added(Lang::Cs, 3), "???");
    assert_eq!(T::new().md_recommendation(Lang::Cs), "???");
}

#[test]
fn a_later_text_replaces_an_earlier_one() {
    let mut t = table();
    t.insert(Lang::En, "window_title".to_string(), "Other".to_string());
    assert_eq!(t.window_title(Lang::En), "Other");
    assert_eq!(t.window_title(Lang::Cs), "Porovn\u{e1}va\u{10d} m\u{f3}d\u{16f}");
}

#[test]
fn placeholders_are_filled_in() {
    let t = table();
    assert_eq!(t.added(Lang::En, 12), "Added (12)");
    assert_eq!(t.scan_done(Lang::En, 10, 2, 1, 5), "10 active, 2 disabled, 1 failed, 5 changes");
    assert_eq!(t.updated_detail(Lang::En, "Sodium", "0.6", "0.5"), "  Sodium: 0.5 -> 0.6");
    assert_eq!(t.md_heading(Lang::En, "My Pack 1.0"), "# My Pack 1.0 changes");
    assert_eq!(t.md_summary(Lang::En, 40, 0), "_(Unchanged: 40, total: 0)_");
    assert_eq!(t.history_summary(Lang::En, 3, "a.json", "b.json"), "3 changes between a.json and b.json");
    assert_eq!(t.snapshot_read_error(Lang::En, "x.json"), "Cannot read x.json");
    assert_eq!(t.md_total_mods(Lang::En, 1, 2, 3), "**Mods:** 1 / 2 / 3");
}

#[test]
fn a_value_that_holds_a_later_placeholder_is_filled_in_too() {
    let t = table();
    assert_eq!(t.history_summary(Lang::En, 1, "{file_b}", "z"), "1 changes between z and z");
}

#[test]
fn formatting_with_any_pairs() {
    let t = table();
    let pairs = vec![
        ("{active}".to_string(), "A".to_string()),
        ("{failed}".to_string(), "F".to_string()),
    ];
    assert_eq!(t.fmt(Lang::En, "scan_done", &pairs), "A active, {disabled} disabled, F failed, {changes} changes");
    assert_eq!(t.fmt(Lang::En, "scan_done", &Vec::new()), "{active} active, {disabled} disabled, {failed} failed, {changes} changes");
    assert_eq!(t.fmt(Lang::Cs, "scan_done", &pairs), "???");
}
