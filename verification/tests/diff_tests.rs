use porovnavac::diff::{compare_snapshots, compare_with_previous, Changes};
use porovnavac::snapshot::{ModData, Snapshot, SnapshotStats};

fn record(id: &str, version: &str, disabled: bool) -> ModData {
    let suffix = if disabled { ".jar.disabled" } else { ".jar" };
    ModData {
        filename: format!("{id}{suffix}"),
        id: id.to_string(),
        name: id.to_uppercase(),
        version: version.to_string(),
        loader: "fabric".to_string(),
        disabled,
    }
}

fn snapshot(active: Vec<ModData>, disabled: Vec<ModData>) -> Snapshot {
    let stats = SnapshotStats {
        total: active.len() + disabled.len(),
        active: active.len(),
        disabled: disabled.len(),
        failed: 0,
    };
    Snapshot {
        timestamp: "2024-01-01T00:00:00+00:00".to_string(),
        mods_dir: "/mods".to_string(),
        active,
        disabled,
        failed: Vec::new(),
        stats,
    }
}

fn ids(list: &[ModData]) -> Vec<&str> {
    list.iter().map(|m| m.id.as_str()).collect()
}

#[test]
fn version_bump_is_one_update() {
    let old = snapshot(vec![record("a", "1.0", false)], vec![]);
    let new = snapshot(vec![record("a", "1.1", false)], vec![]);
    let changes = compare_snapshots(&old, &new);
    assert_eq!(changes.updated.len(), 1);
    let u = &changes.updated[0];
    assert_eq!(u.id, "a");
    assert_eq!(u.name, "A");
    assert_eq!(u.old_version, "1.0");
    assert_eq!(u.new_version, "1.1");
    assert_eq!(u.filename, "a.jar");
    assert!(changes.added.is_empty());
    assert!(changes.removed.is_empty());
    assert!(changes.unchanged.is_empty());
    assert_eq!(changes.total_changes(), 1);
}

#[test]
fn versions_are_compared_as_plain_text() {
    let old = snapshot(vec![record("a", "1.0", false)], vec![]);
    let new = snapshot(vec![record("a", "1.00", false)], vec![]);
    let changes = compare_snapshots(&old, &new);
    assert_eq!(changes.updated.len(), 1);
    assert!(changes.unchanged.is_empty());
}

#[test]
fn disabled_before_and_active_now_is_newly_enabled() {
    let old = snapshot(vec![], vec![record("b", "1.0", true)]);
    let new = snapshot(vec![record("b", "1.0", false)], vec![]);
    let changes = compare_snapshots(&old, &new);
    assert_eq!(ids(&changes.newly_enabled), vec!["b"]);
    assert!(!changes.newly_enabled[0].disabled);
    assert!(changes.added.is_empty());
    assert_eq!(changes.total_changes(), 1);
}

#[test]
fn active_before_and_disabled_now_is_newly_disabled() {
    let old = snapshot(vec![record("c", "1.0", false)], vec![]);
    let new = snapshot(vec![], vec![record("c", "2.0", true)]);
    let changes = compare_snapshots(&old, &new);
    assert_eq!(ids(&changes.newly_disabled), vec!["c"]);
    assert_eq!(changes.newly_disabled[0].version, "2.0");
    assert_eq!(changes.newly_disabled[0].filename, "c.jar.disabled");
    assert!(changes.newly_disabled[0].disabled);
    assert!(changes.removed.is_empty());
    assert_eq!(changes.total_changes(), 1);
}

#[test]
fn enabled_wins_over_an_earlier_active_record() {
    let old = snapshot(vec![record("d", "1.0", false)], vec![record("d", "0.9", true)]);
    let new = snapshot(vec![record("d", "2.0", false)], vec![]);
    let changes = compare_snapshots(&old, &new);
    assert_eq!(ids(&changes.newly_enabled), vec!["d"]);
    assert!(changes.updated.is_empty());
}

#[test]
fn added_and_removed_records() {
    let old = snapshot(vec![record("gone", "1", false), record("kept", "1", false)], vec![]);
    let new = snapshot(vec![record("kept", "1", false), record("fresh", "1", false)], vec![]);
    let changes = compare_snapshots(&old, &new);
    assert_eq!(ids(&changes.added), vec!["fresh"]);
    assert_eq!(ids(&changes.removed), vec!["gone"]);
    assert_eq!(ids(&changes.unchanged), vec!["kept"]);
    assert_eq!(changes.total_changes(), 2);
}

#[test]
fn comparing_a_snapshot_with_its_copy_reports_nothing() {
    let s = snapshot(
        vec![record("a", "1", false), record("b", "2", false), record("c", "3", false)],
        vec![record("z", "1", true)],
    );
    let copy = s.clone();
    let changes = compare_snapshots(&s, &copy);
    assert!(changes.added.is_empty());
    assert!(changes.removed.is_empty());
    assert!(changes.updated.is_empty());
    assert!(changes.newly_disabled.is_empty());
    assert!(changes.newly_enabled.is_empty());
    assert_eq!(changes.total_changes(), 0);
    assert_eq!(ids(&changes.unchanged), vec!["a", "b", "c"]);
    assert_eq!(changes.unchanged[1].version, "2");
}

#[test]
fn an_identifier_both_active_and_disabled_breaks_self_comparison() {
    let s = snapshot(vec![record("a", "1", false)], vec![record("a", "1", true)]);
    let changes = compare_snapshots(&s, &s.clone());
    assert_eq!(ids(&changes.newly_enabled), vec!["a"]);
    assert!(changes.unchanged.is_empty());
    assert!(changes.newly_disabled.is_empty());
}

#[test]
fn without_an_earlier_snapshot_everything_active_is_added() {
    let new = snapshot(
        vec![record("a", "1", false), record("b", "2", false)],
        vec![record("c", "3", true)],
    );
    let changes = compare_with_previous(None, &new);
    assert_eq!(ids(&changes.added), vec!["a", "b"]);
    assert!(changes.removed.is_empty());
    assert!(changes.updated.is_empty());
    assert!(changes.newly_disabled.is_empty());
    assert!(changes.newly_enabled.is_empty());
    assert!(changes.unchanged.is_empty());
    assert_eq!(changes.total_changes(), 2);
}

#[test]
fn with_an_earlier_snapshot_the_two_are_compared() {
    let old = snapshot(vec![record("a", "1", false)], vec![]);
    let new = snapshot(vec![record("a", "1", false), record("b", "2", false)], vec![]);
    let changes = compare_with_previous(Some(&old), &new);
    assert_eq!(ids(&changes.added), vec!["b"]);
    assert_eq!(ids(&changes.unchanged), vec!["a"]);
}

#[test]
fn of_records_that_share_an_identifier_the_last_counts() {
    let mut first = record("a", "1.0", false);
    first.filename = "a-old.jar".to_string();
    let old = snapshot(vec![record("a", "2.0", false)], vec![]);
    let new = snapshot(vec![first, record("a", "2.0", false)], vec![]);
    let changes = compare_snapshots(&old, &new);
    assert_eq!(changes.unchanged.len(), 1);
    assert_eq!(changes.unchanged[0].filename, "a.jar");
    assert!(changes.updated.is_empty());
}

#[test]
fn identifiers_that_are_active_in_neither_snapshot_are_in_no_list() {
    let old = snapshot(vec![], vec![record("d", "1", true), record("e", "1", true)]);
    let new = snapshot(vec![], vec![record("d", "2", true)]);
    let changes = compare_snapshots(&old, &new);
    assert_eq!(changes.total_changes(), 0);
    assert!(changes.unchanged.is_empty());
}

#[test]
fn active_now_and_disabled_now_is_not_newly_disabled() {
    let old = snapshot(vec![record("a", "1", false)], vec![]);
    let new = snapshot(vec![record("a", "1", false)], vec![record("a", "1", true)]);
    let changes = compare_snapshots(&old, &new);
    assert_eq!(ids(&changes.unchanged), vec!["a"]);
    assert!(changes.newly_disabled.is_empty());
    assert!(changes.removed.is_empty());
}

#[test]
fn lists_keep_the_order_of_the_snapshot() {
    let old = snapshot(vec![], vec![]);
    let new = snapshot(
        vec![record("m", "1", false), record("b", "1", false), record("x", "1", false)],
        vec![],
    );
    let changes = compare_snapshots(&old, &new);
    assert_eq!(ids(&changes.added), vec!["m", "b", "x"]);
}

#[test]
fn default_changes_are_empty() {
    let changes = Changes::default();
    assert_eq!(changes.total_changes(), 0);
    assert!(changes.added.is_empty() && changes.unchanged.is_empty());
}

#[test]
fn changes_are_counted_where_the_count_fits() {
    let old = snapshot(vec![record("gone", "1", false), record("kept", "1", false)], vec![]);
    let new = snapshot(vec![record("kept", "2", false), record("fresh", "1", false)], vec![]);
    let changes = compare_snapshots(&old, &new);
    assert_eq!(changes.checked_total_changes(), Some(3));
    assert_eq!(Changes::default().checked_total_changes(), Some(0));
}

#[test]
fn a_copy_of_changes_holds_the_same_records() {
    let old = snapshot(vec![record("gone", "1", false), record("kept", "1", false)], vec![]);
    let new = snapshot(vec![record("kept", "2", false), record("fresh", "1", false)], vec![]);
    let changes = compare_snapshots(&old, &new);
    let copy = changes.clone();
    assert_eq!(ids(&copy.added), ids(&changes.added));
    assert_eq!(ids(&copy.removed), ids(&changes.removed));
    assert_eq!(copy.updated.len(), 1);
    assert_eq!(copy.updated[0].old_version, "1");
    assert_eq!(copy.updated[0].new_version, "2");
    assert_eq!(copy.total_changes(), changes.total_changes());
}

#[test]
fn every_active_identifier_is_in_exactly_one_list() {
    let old = snapshot(
        vec![record("same", "1", false), record("bump", "1", false), record("gone", "1", false)],
        vec![record("back", "1", true)],
    );
    let new = snapshot(
        vec![
            record("same", "1", false),
            record("bump", "2", false),
            record("back", "1", false),
            record("fresh", "1", false),
        ],
        vec![],
    );
    let c = compare_snapshots(&old, &new);
    assert_eq!(c.added.len() + c.newly_enabled.len() + c.updated.len() + c.unchanged.len(), 4);
    assert_eq!(ids(&c.added), vec!["fresh"]);
    assert_eq!(ids(&c.newly_enabled), vec!["back"]);
    assert_eq!(c.updated[0].id, "bump");
    assert_eq!(ids(&c.unchanged), vec!["same"]);
    assert_eq!(ids(&c.removed), vec!["gone"]);
}
