//! The difference between two snapshots, by the identifier of each record.

use vstd::prelude::*;
use vstd::hash_map::StringHashMap;
use crate::snapshot::{clone_mods, mod_views, ModData, ModView, Snapshot, SnapshotView};

verus! {

/// One change of version.
#[derive(Debug)]
pub struct UpdatedMod {
    pub id: String,
    pub name: String,
    pub old_version: String,
    pub new_version: String,
    /// File name in the newer snapshot.
    pub filename: String,
}

/// What an [`UpdatedMod`] holds, as plain values.
pub ghost struct UpdatedView {
    pub id: Seq<char>,
    pub name: Seq<char>,
    pub old_version: Seq<char>,
    pub new_version: Seq<char>,
    pub filename: Seq<char>,
}

impl View for UpdatedMod {
    type V = UpdatedView;

    open spec fn view(&self) -> UpdatedView {
        UpdatedView {
            id: self.id@,
            name: self.name@,
            old_version: self.old_version@,
            new_version: self.new_version@,
            filename: self.filename@,
        }
    }
}

impl Clone for UpdatedMod {
    fn clone(&self) -> (out: Self)
        ensures
            out == *self,
    {
        UpdatedMod {
            id: self.id.clone(),
            name: self.name.clone(),
            old_version: self.old_version.clone(),
            new_version: self.new_version.clone(),
            filename: self.filename.clone(),
        }
    }
}

/// The views of a sequence of version changes, in order.
pub open spec fn updated_views(s: Seq<UpdatedMod>) -> Seq<UpdatedView> {
    s.map_values(|u: UpdatedMod| u@)
}

/// The records of two snapshots, sorted into the kinds of change.
#[derive(Debug)]
pub struct Changes {
    pub added: Vec<ModData>,
    pub removed: Vec<ModData>,
    pub updated: Vec<UpdatedMod>,
    pub newly_disabled: Vec<ModData>,
    pub newly_enabled: Vec<ModData>,
    pub unchanged: Vec<ModData>,
}

/// What a [`Changes`] holds, as plain values.
pub ghost struct ChangesView {
    pub added: Seq<ModView>,
    pub removed: Seq<ModView>,
    pub updated: Seq<UpdatedView>,
    pub newly_disabled: Seq<ModView>,
    pub newly_enabled: Seq<ModView>,
    pub unchanged: Seq<ModView>,
}

impl ChangesView {
    /// Number of records in the five kinds of change; `unchanged` does not count.
    pub open spec fn total(self) -> nat {
        self.added.len() + self.removed.len() + self.updated.len() + self.newly_disabled.len()
            + self.newly_enabled.len()
    }
}

impl View for Changes {
    type V = ChangesView;

    open spec fn view(&self) -> ChangesView {
        ChangesView {
            added: mod_views(self.added@),
            removed: mod_views(self.removed@),
            updated: updated_views(self.updated@),
            newly_disabled: mod_views(self.newly_disabled@),
            newly_enabled: mod_views(self.newly_enabled@),
            unchanged: mod_views(self.unchanged@),
        }
    }
}

impl Default for Changes {
    fn default() -> (out: Self)
        ensures
            out.added@.len() == 0,
            out.removed@.len() == 0,
            out.updated@.len() == 0,
            out.newly_disabled@.len() == 0,
            out.newly_enabled@.len() == 0,
            out.unchanged@.len() == 0,
    {
        Changes {
            added: Vec::new(),
            removed: Vec::new(),
            updated: Vec::new(),
            newly_disabled: Vec::new(),
            newly_enabled: Vec::new(),
            unchanged: Vec::new(),
        }
    }
}

impl Changes {
    /// Number of records in the five kinds of change; `unchanged` does not count.
    pub fn total_changes(&self) -> (n: usize)
        requires
            self@.total() <= usize::MAX,
        ensures
            n == self@.total(),
    {
        self.added.len() + self.removed.len() + self.updated.len() + self.newly_disabled.len()
            + self.newly_enabled.len()
    }
}

/// Index of the last record of `s` whose identifier is `id`, or -1 where none has it.
pub open spec fn last_index_of(s: Seq<ModView>, id: Seq<char>) -> int
    decreases s.len(),
{
    if s.len() == 0 {
        -1
    } else if s.last().id == id {
        s.len() - 1
    } else {
        last_index_of(s.drop_last(), id)
    }
}

/// Whether a record of `s` has the identifier `id`.
pub open spec fn has_id(s: Seq<ModView>, id: Seq<char>) -> bool {
    last_index_of(s, id) >= 0
}

/// The record that a lookup by `id` gives: of those that share it, the last one.
pub open spec fn held(s: Seq<ModView>, id: Seq<char>) -> ModView {
    s[last_index_of(s, id)]
}

/// Of the first `n` records of `s`, those that no later record of `s` shares
/// its identifier with, in order.
pub open spec fn keyed_upto(s: Seq<ModView>, n: nat) -> Seq<ModView>
    decreases n,
{
    if n == 0 || n > s.len() {
        Seq::empty()
    } else {
        let before = keyed_upto(s, (n - 1) as nat);
        if last_index_of(s, s[n - 1].id) == n - 1 {
            before.push(s[n - 1])
        } else {
            before
        }
    }
}

/// One record for each identifier of `s`: the one a lookup gives, in the order of `s`.
pub open spec fn keyed(s: Seq<ModView>) -> Seq<ModView> {
    keyed_upto(s, s.len())
}

/// `m`, active now, was neither active nor disabled before.
pub open spec fn is_added(old: SnapshotView, m: ModView) -> bool {
    !has_id(old.active, m.id) && !has_id(old.disabled, m.id)
}

/// `m`, active now, was disabled before.
pub open spec fn is_newly_enabled(old: SnapshotView, m: ModView) -> bool {
    has_id(old.disabled, m.id)
}

/// `m`, active now, was active before under another version.
pub open spec fn is_updated(old: SnapshotView, m: ModView) -> bool {
    &&& !has_id(old.disabled, m.id)
    &&& has_id(old.active, m.id)
    &&& held(old.active, m.id).version != m.version
}

/// `m`, active now, was active before under the same version.
pub open spec fn is_unchanged(old: SnapshotView, m: ModView) -> bool {
    &&& !has_id(old.disabled, m.id)
    &&& has_id(old.active, m.id)
    &&& held(old.active, m.id).version == m.version
}

/// `m`, active before, is neither active nor disabled now.
pub open spec fn is_removed(new: SnapshotView, m: ModView) -> bool {
    !has_id(new.active, m.id) && !has_id(new.disabled, m.id)
}

/// `m`, active before, is no longer active and is disabled now.
pub open spec fn is_newly_disabled(new: SnapshotView, m: ModView) -> bool {
    !has_id(new.active, m.id) && has_id(new.disabled, m.id)
}

/// The change of version of `m`, active now, against the record active before.
pub open spec fn transition(old: SnapshotView, m: ModView) -> UpdatedView {
    UpdatedView {
        id: m.id,
        name: m.name,
        old_version: held(old.active, m.id).version,
        new_version: m.version,
        filename: m.filename,
    }
}

/// `is_added` against `old`, as a predicate.
pub open spec fn added_in(old: SnapshotView) -> spec_fn(ModView) -> bool {
    |m: ModView| is_added(old, m)
}

/// `is_newly_enabled` against `old`, as a predicate.
pub open spec fn newly_enabled_in(old: SnapshotView) -> spec_fn(ModView) -> bool {
    |m: ModView| is_newly_enabled(old, m)
}

/// `is_updated` against `old`, as a predicate.
pub open spec fn updated_in(old: SnapshotView) -> spec_fn(ModView) -> bool {
    |m: ModView| is_updated(old, m)
}

/// `is_unchanged` against `old`, as a predicate.
pub open spec fn unchanged_in(old: SnapshotView) -> spec_fn(ModView) -> bool {
    |m: ModView| is_unchanged(old, m)
}

/// `is_removed` against `new`, as a predicate.
pub open spec fn removed_in(new: SnapshotView) -> spec_fn(ModView) -> bool {
    |m: ModView| is_removed(new, m)
}

/// `is_newly_disabled` against `new`, as a predicate.
pub open spec fn newly_disabled_in(new: SnapshotView) -> spec_fn(ModView) -> bool {
    |m: ModView| is_newly_disabled(new, m)
}

/// `transition` against `old`, as a function of the record.
pub open spec fn transition_from(old: SnapshotView) -> spec_fn(ModView) -> UpdatedView {
    |m: ModView| transition(old, m)
}

/// For a record, the disabled record of `new` that shares its identifier.
pub open spec fn disabled_record_in(new: SnapshotView) -> spec_fn(ModView) -> ModView {
    |m: ModView| held(new.disabled, m.id)
}

/// The difference between `old` and `new`.
///
/// Each identifier active in `new` falls under exactly one of `added`,
/// `newly_enabled`, `updated` and `unchanged`; each identifier active in `old`
/// and no longer active in `new` under `removed` or `newly_disabled`, where
/// the record reported is the disabled one of `new`. An identifier that is
/// active in neither snapshot is in no list.
pub open spec fn changes_between(old: SnapshotView, new: SnapshotView) -> ChangesView {
    ChangesView {
        added: keyed(new.active).filter(added_in(old)),
        removed: keyed(old.active).filter(removed_in(new)),
        updated: keyed(new.active).filter(updated_in(old)).map_values(transition_from(old)),
        newly_disabled: keyed(old.active).filter(newly_disabled_in(new)).map_values(
            disabled_record_in(new),
        ),
        newly_enabled: keyed(new.active).filter(newly_enabled_in(old)),
        unchanged: keyed(new.active).filter(unchanged_in(old)),
    }
}

/// Where `last_index_of` points, and that no record after it has the identifier.
pub proof fn lemma_last_index_of(s: Seq<ModView>, id: Seq<char>)
    ensures
        -1 <= last_index_of(s, id) < s.len(),
        last_index_of(s, id) >= 0 ==> s[last_index_of(s, id)].id == id,
        forall|j: int| last_index_of(s, id) < j < s.len() ==> (#[trigger] s[j]).id != id,
    decreases s.len(),
{
    if s.len() > 0 && s.last().id != id {
        lemma_last_index_of(s.drop_last(), id);
        assert forall|j: int| last_index_of(s, id) < j < s.len() implies (#[trigger] s[j]).id
            != id by {
            if j < s.len() - 1 {
                assert(s[j] == s.drop_last()[j]);
            }
        }
    }
}

/// A record with the identifier at index `i` puts the last index at `i` or later.
pub proof fn lemma_has_id_from_index(s: Seq<ModView>, i: int)
    requires
        0 <= i < s.len(),
    ensures
        last_index_of(s, s[i].id) >= i,
{
    lemma_last_index_of(s, s[i].id);
}

/// The last index of each identifier, for every record of `v`.
fn index_by_id(v: &Vec<ModData>) -> (m: StringHashMap<usize>)
    ensures
        forall|id: Seq<char>| #[trigger] m@.contains_key(id) <==> has_id(mod_views(v@), id),
        forall|id: Seq<char>| #[trigger]
            m@.contains_key(id) ==> m@[id] as int == last_index_of(mod_views(v@), id),
{
    let mut m: StringHashMap<usize> = StringHashMap::new();
    let ghost s = mod_views(v@);
    let mut i: usize = 0;
    while i < v.len()
        invariant
            i <= v.len(),
            s == mod_views(v@),
            forall|id: Seq<char>| #[trigger]
                m@.contains_key(id) <==> has_id(s.take(i as int), id),
            forall|id: Seq<char>| #[trigger]
                m@.contains_key(id) ==> m@[id] as int == last_index_of(s.take(i as int), id),
        decreases v.len() - i,
    {
        let key = v[i].id.clone();
        proof {
            let t = s.take(i + 1);
            assert(t.drop_last() =~= s.take(i as int));
            assert(t.last() == s[i as int]);
            assert(s[i as int].id == key@);
        }
        m.insert(key, i);
        i += 1;
    }
    assert(s.take(v@.len() as int) =~= s);
    m
}

/// The difference between two snapshots.
pub fn compare_snapshots(old: &Snapshot, new: &Snapshot) -> (out: Changes)
    ensures
        out@ == changes_between(old@, new@),
{
    let old_active = index_by_id(&old.active);
    let new_active = index_by_id(&new.active);
    let old_disabled = index_by_id(&old.disabled);
    let new_disabled = index_by_id(&new.disabled);
    let mut out = Changes::default();
    let ghost o = old@;
    let ghost n = new@;

    let mut i: usize = 0;
    while i < new.active.len()
        invariant
            i <= new.active.len(),
            o == old@,
            n == new@,
            forall|id: Seq<char>| #[trigger] old_active@.contains_key(id) <==> has_id(o.active, id),
            forall|id: Seq<char>| #[trigger]
                old_active@.contains_key(id) ==> old_active@[id] as int == last_index_of(
                    o.active,
                    id,
                ),
            forall|id: Seq<char>| #[trigger]
                new_active@.contains_key(id) <==> has_id(n.active, id),
            forall|id: Seq<char>| #[trigger]
                new_active@.contains_key(id) ==> new_active@[id] as int == last_index_of(
                    n.active,
                    id,
                ),
            forall|id: Seq<char>| #[trigger]
                old_disabled@.contains_key(id) <==> has_id(o.disabled, id),
            mod_views(out.added@) == keyed_upto(n.active, i as nat).filter(added_in(o)),
            mod_views(out.newly_enabled@) == keyed_upto(n.active, i as nat).filter(
                newly_enabled_in(o),
            ),
            updated_views(out.updated@) == keyed_upto(n.active, i as nat).filter(
                updated_in(o),
            ).map_values(transition_from(o)),
            mod_views(out.unchanged@) == keyed_upto(n.active, i as nat).filter(unchanged_in(o)),
            out.removed@.len() == 0,
            out.newly_disabled@.len() == 0,
        decreases new.active.len() - i,
    {
        let m = &new.active[i];
        let ghost before = keyed_upto(n.active, i as nat);
        proof {
            assert(n.active[i as int] == m@);
            lemma_has_id_from_index(n.active, i as int);
            lemma_last_index_of(o.active, m@.id);
        }
        let is_last = match new_active.get(m.id.as_str()) {
            Some(k) => *k == i,
            None => false,
        };
        if is_last {
            proof {
                assert(keyed_upto(n.active, (i + 1) as nat) == before.push(m@));
                before.lemma_filter_push(m@, added_in(o));
                before.lemma_filter_push(m@, newly_enabled_in(o));
                before.lemma_filter_push(m@, updated_in(o));
                before.lemma_filter_push(m@, unchanged_in(o));
            }
            let was_disabled = old_disabled.contains_key(m.id.as_str());
            match old_active.get(m.id.as_str()) {
                None => {
                    if was_disabled {
                        out.newly_enabled.push(m.clone());
                        assert(mod_views(out.newly_enabled@) =~= before.filter(
                            newly_enabled_in(o),
                        ).push(m@));
                    } else {
                        out.added.push(m.clone());
                        assert(mod_views(out.added@) =~= before.filter(added_in(o)).push(m@));
                    }
                },
                Some(k) => {
                    if was_disabled {
                        out.newly_enabled.push(m.clone());
                        assert(mod_views(out.newly_enabled@) =~= before.filter(
                            newly_enabled_in(o),
                        ).push(m@));
                    } else {
                        let was = &old.active[*k];
                        assert(was@ == held(o.active, m@.id));
                        if m.version != was.version {
                            let u = UpdatedMod {
                                id: m.id.clone(),
                                name: m.name.clone(),
                                old_version: was.version.clone(),
                                new_version: m.version.clone(),
                                filename: m.filename.clone(),
                            };
                            assert(u@ == transition(o, m@));
                            out.updated.push(u);
                            assert(updated_views(out.updated@) =~= before.filter(
                                updated_in(o),
                            ).map_values(transition_from(o)).push(u@));
                            assert(before.filter(updated_in(o)).push(m@).map_values(
                                transition_from(o),
                            ) =~= before.filter(updated_in(o)).map_values(
                                transition_from(o),
                            ).push(u@));
                        } else {
                            out.unchanged.push(m.clone());
                            assert(mod_views(out.unchanged@) =~= before.filter(
                                unchanged_in(o),
                            ).push(m@));
                        }
                    }
                },
            }
        } else {
            assert(keyed_upto(n.active, (i + 1) as nat) == before);
        }
        i += 1;
    }

    let mut j: usize = 0;
    while j < old.active.len()
        invariant
            j <= old.active.len(),
            o == old@,
            n == new@,
            forall|id: Seq<char>| #[trigger] old_active@.contains_key(id) <==> has_id(o.active, id),
            forall|id: Seq<char>| #[trigger]
                old_active@.contains_key(id) ==> old_active@[id] as int == last_index_of(
                    o.active,
                    id,
                ),
            forall|id: Seq<char>| #[trigger]
                new_active@.contains_key(id) <==> has_id(n.active, id),
            forall|id: Seq<char>| #[trigger]
                new_disabled@.contains_key(id) <==> has_id(n.disabled, id),
            forall|id: Seq<char>| #[trigger]
                new_disabled@.contains_key(id) ==> new_disabled@[id] as int == last_index_of(
                    n.disabled,
                    id,
                ),
            mod_views(out.added@) == changes_between(o, n).added,
            mod_views(out.newly_enabled@) == changes_between(o, n).newly_enabled,
            updated_views(out.updated@) == changes_between(o, n).updated,
            mod_views(out.unchanged@) == changes_between(o, n).unchanged,
            mod_views(out.removed@) == keyed_upto(o.active, j as nat).filter(removed_in(n)),
            mod_views(out.newly_disabled@) == keyed_upto(o.active, j as nat).filter(
                newly_disabled_in(n),
            ).map_values(disabled_record_in(n)),
        decreases old.active.len() - j,
    {
        let m = &old.active[j];
        let ghost before = keyed_upto(o.active, j as nat);
        proof {
            assert(o.active[j as int] == m@);
            lemma_has_id_from_index(o.active, j as int);
            lemma_last_index_of(n.disabled, m@.id);
        }
        let is_last = match old_active.get(m.id.as_str()) {
            Some(k) => *k == j,
            None => false,
        };
        if is_last {
            proof {
                assert(keyed_upto(o.active, (j + 1) as nat) == before.push(m@));
                before.lemma_filter_push(m@, removed_in(n));
                before.lemma_filter_push(m@, newly_disabled_in(n));
            }
            if !new_active.contains_key(m.id.as_str()) {
                match new_disabled.get(m.id.as_str()) {
                    None => {
                        out.removed.push(m.clone());
                        assert(mod_views(out.removed@) =~= before.filter(removed_in(n)).push(m@));
                    },
                    Some(k) => {
                        let now = &new.disabled[*k];
                        assert(now@ == held(n.disabled, m@.id));
                        out.newly_disabled.push(now.clone());
                        assert(mod_views(out.newly_disabled@) =~= before.filter(
                            newly_disabled_in(n),
                        ).map_values(disabled_record_in(n)).push(now@));
                        assert(before.filter(newly_disabled_in(n)).push(m@).map_values(
                            disabled_record_in(n),
                        ) =~= before.filter(newly_disabled_in(n)).map_values(
                            disabled_record_in(n),
                        ).push(now@));
                    },
                }
            }
        } else {
            assert(keyed_upto(o.active, (j + 1) as nat) == before);
        }
        j += 1;
    }
    out
}

/// The difference against an earlier snapshot that may be missing: without
/// one, every active record of `new` is an addition and nothing else changed.
pub open spec fn changes_since(old: Option<SnapshotView>, new: SnapshotView) -> ChangesView {
    match old {
        Some(o) => changes_between(o, new),
        None => ChangesView {
            added: new.active,
            removed: Seq::empty(),
            updated: Seq::empty(),
            newly_disabled: Seq::empty(),
            newly_enabled: Seq::empty(),
            unchanged: Seq::empty(),
        },
    }
}

/// The view of an optional snapshot.
pub open spec fn baseline_view(old: Option<&Snapshot>) -> Option<SnapshotView> {
    match old {
        Some(o) => Some(o@),
        None => None,
    }
}

/// The difference between `new` and the snapshot recorded before it, if there is one.
pub fn compare_with_previous(old: Option<&Snapshot>, new: &Snapshot) -> (out: Changes)
    ensures
        out@ == changes_since(baseline_view(old), new@),
        old is None ==> out@.added == new@.active && out@.total() == new@.active.len(),
{
    match old {
        Some(o) => compare_snapshots(o, new),
        None => {
            let mut out = Changes::default();
            out.added = clone_mods(&new.active);
            assert(mod_views(out.removed@) =~= Seq::empty());
            assert(mod_views(out.newly_disabled@) =~= Seq::empty());
            assert(mod_views(out.newly_enabled@) =~= Seq::empty());
            assert(mod_views(out.unchanged@) =~= Seq::empty());
            assert(updated_views(out.updated@) =~= Seq::empty());
            out
        },
    }
}

/// No identifier is both active and disabled.
pub open spec fn active_apart_from_disabled(s: SnapshotView) -> bool {
    forall|i: int, j: int|
        0 <= i < s.active.len() && 0 <= j < s.disabled.len() ==> (#[trigger] s.active[i]).id != (
        #[trigger] s.disabled[j]).id
}

/// Records that share an identifier are the same record.
pub open spec fn one_record_per_id(s: Seq<ModView>) -> bool {
    forall|i: int, j: int|
        0 <= i < s.len() && 0 <= j < s.len() && (#[trigger] s[i]).id == (#[trigger] s[j]).id
            ==> s[i] == s[j]
}

/// No two records share an identifier.
pub open spec fn distinct_ids(s: Seq<ModView>) -> bool {
    forall|i: int, j: int|
        0 <= i < j < s.len() ==> (#[trigger] s[i]).id != (#[trigger] s[j]).id
}

/// Every record of `keyed_upto(s, n)` is one of the first `n` of `s`, and the
/// last of its identifier.
pub proof fn lemma_keyed_members(s: Seq<ModView>, n: nat)
    requires
        n <= s.len(),
    ensures
        forall|m: ModView| #[trigger]
            keyed_upto(s, n).contains(m) <==> exists|k: int|
                0 <= k < n && #[trigger] s[k] == m && last_index_of(s, m.id) == k,
    decreases n,
{
    if n > 0 {
        let before = keyed_upto(s, (n - 1) as nat);
        lemma_keyed_members(s, (n - 1) as nat);
        let x = s[n - 1];
        assert forall|m: ModView| #[trigger]
            keyed_upto(s, n).contains(m) <==> exists|k: int|
                0 <= k < n && #[trigger] s[k] == m && last_index_of(s, m.id) == k by {
            if last_index_of(s, x.id) == n - 1 {
                assert(before.push(x).last() == x);
                assert(forall|i: int| 0 <= i < before.len() ==> before.push(x)[i] == before[i]);
                if keyed_upto(s, n).contains(m) {
                    let i = choose|i: int| 0 <= i < before.push(x).len() && before.push(x)[i] == m;
                    if i < before.len() {
                        assert(before.contains(m));
                    } else {
                        assert(s[n - 1] == m);
                    }
                }
                if exists|k: int| 0 <= k < n && #[trigger] s[k] == m && last_index_of(s, m.id) == k {
                    let k = choose|k: int|
                        0 <= k < n && #[trigger] s[k] == m && last_index_of(s, m.id) == k;
                    if k < n - 1 {
                        assert(before.contains(m));
                        let i = choose|i: int| 0 <= i < before.len() && before[i] == m;
                        assert(before.push(x)[i] == m);
                    } else {
                        assert(before.push(x)[before.len() as int] == m);
                    }
                }
            } else {
                if exists|k: int| 0 <= k < n && #[trigger] s[k] == m && last_index_of(s, m.id) == k {
                    let k = choose|k: int|
                        0 <= k < n && #[trigger] s[k] == m && last_index_of(s, m.id) == k;
                    assert(k < n - 1);
                }
            }
        }
    }
}

/// Where every record passes, a filter keeps the sequence; where none does, nothing.
pub proof fn lemma_filter_all_or_none(s: Seq<ModView>, p: spec_fn(ModView) -> bool)
    ensures
        (forall|i: int| 0 <= i < s.len() ==> p(#[trigger] s[i])) ==> s.filter(p) == s,
        (forall|i: int| 0 <= i < s.len() ==> !p(#[trigger] s[i])) ==> s.filter(p).len() == 0,
    decreases s.len(),
{
    if s.len() > 0 {
        let d = s.drop_last();
        lemma_filter_all_or_none(d, p);
        assert(d.push(s.last()) =~= s);
        d.lemma_filter_push(s.last(), p);
        assert(forall|i: int| 0 <= i < d.len() ==> d[i] == s[i]);
    } else {
        assert(s.filter(p) =~= s) by {
            s.lemma_filter_len(p);
        }
    }
}

/// Comparing a snapshot with itself reports no change: the five lists of
/// changes are empty and `unchanged` holds the active records. This is stated
/// for snapshots in which no identifier is both active and disabled and in
/// which active records that share an identifier are equal; where the active
/// identifiers are distinct, `unchanged` is the active list itself.
pub proof fn law_self_comparison(s: SnapshotView)
    requires
        active_apart_from_disabled(s),
        one_record_per_id(s.active),
    ensures
        changes_between(s, s).added.len() == 0,
        changes_between(s, s).removed.len() == 0,
        changes_between(s, s).updated.len() == 0,
        changes_between(s, s).newly_disabled.len() == 0,
        changes_between(s, s).newly_enabled.len() == 0,
        changes_between(s, s).total() == 0,
        changes_between(s, s).unchanged.to_set() == s.active.to_set(),
        distinct_ids(s.active) ==> changes_between(s, s).unchanged == s.active,
{
    let k = keyed(s.active);
    lemma_keyed_members(s.active, s.active.len());
    assert forall|i: int| 0 <= i < k.len() implies {
        &&& unchanged_in(s)(#[trigger] k[i])
        &&& !added_in(s)(k[i])
        &&& !updated_in(s)(k[i])
        &&& !newly_enabled_in(s)(k[i])
        &&& !removed_in(s)(k[i])
        &&& !newly_disabled_in(s)(k[i])
    } by {
        let m = k[i];
        assert(k.contains(m));
        let at = choose|at: int|
            0 <= at < s.active.len() && #[trigger] s.active[at] == m && last_index_of(
                s.active,
                m.id,
            ) == at;
        lemma_last_index_of(s.disabled, m.id);
    }
    lemma_filter_all_or_none(k, unchanged_in(s));
    lemma_filter_all_or_none(k, added_in(s));
    lemma_filter_all_or_none(k, updated_in(s));
    lemma_filter_all_or_none(k, newly_enabled_in(s));
    lemma_filter_all_or_none(k, removed_in(s));
    lemma_filter_all_or_none(k, newly_disabled_in(s));
    assert(changes_between(s, s).unchanged == k);

    assert(k.to_set() =~= s.active.to_set()) by {
        assert forall|m: ModView| k.contains(m) <==> s.active.contains(m) by {
            if s.active.contains(m) {
                let i = choose|i: int| 0 <= i < s.active.len() && s.active[i] == m;
                lemma_last_index_of(s.active, m.id);
                let l = last_index_of(s.active, m.id);
                assert(s.active[l] == s.active[i]);
            }
        }
    }

    if distinct_ids(s.active) {
        lemma_keyed_of_distinct(s.active, s.active.len());
        assert(s.active.take(s.active.len() as int) =~= s.active);
    }
}

/// Where no two records share an identifier, `keyed_upto` drops none.
pub proof fn lemma_keyed_of_distinct(s: Seq<ModView>, n: nat)
    requires
        distinct_ids(s),
        n <= s.len(),
    ensures
        keyed_upto(s, n) == s.take(n as int),
    decreases n,
{
    if n > 0 {
        lemma_keyed_of_distinct(s, (n - 1) as nat);
        lemma_last_index_of(s, s[n - 1].id);
        assert(s.take(n as int) =~= s.take(n - 1).push(s[n - 1]));
    } else {
        assert(s.take(0) =~= Seq::<ModView>::empty());
    }
}

/// A record that is active now is of exactly one kind: added, newly
/// enabled, updated or unchanged. A record that was active before is not
/// both removed and newly disabled.
pub proof fn law_one_kind_of_change(old: SnapshotView, new: SnapshotView, m: ModView)
    ensures
        is_added(old, m) || is_newly_enabled(old, m) || is_updated(old, m) || is_unchanged(old, m),
        !(is_added(old, m) && is_newly_enabled(old, m)),
        !(is_added(old, m) && is_updated(old, m)),
        !(is_added(old, m) && is_unchanged(old, m)),
        !(is_newly_enabled(old, m) && is_updated(old, m)),
        !(is_newly_enabled(old, m) && is_unchanged(old, m)),
        !(is_updated(old, m) && is_unchanged(old, m)),
        !(is_removed(new, m) && is_newly_disabled(new, m)),
{
}

/// Four filters of which every record passes exactly one share the records
/// out among them.
proof fn lemma_filters_share_out(
    s: Seq<ModView>,
    a: spec_fn(ModView) -> bool,
    b: spec_fn(ModView) -> bool,
    c: spec_fn(ModView) -> bool,
    d: spec_fn(ModView) -> bool,
)
    requires
        forall|m: ModView|
            (if #[trigger] a(m) {
                1int
            } else {
                0
            }) + (if b(m) {
                1int
            } else {
                0
            }) + (if c(m) {
                1int
            } else {
                0
            }) + (if d(m) {
                1int
            } else {
                0
            }) == 1,
    ensures
        s.filter(a).len() + s.filter(b).len() + s.filter(c).len() + s.filter(d).len() == s.len(),
    decreases s.len(),
{
    if s.len() == 0 {
        s.lemma_filter_len(a);
        s.lemma_filter_len(b);
        s.lemma_filter_len(c);
        s.lemma_filter_len(d);
    } else {
        let front = s.drop_last();
        let x = s.last();
        assert(front.push(x) =~= s);
        lemma_filters_share_out(front, a, b, c, d);
        front.lemma_filter_push(x, a);
        front.lemma_filter_push(x, b);
        front.lemma_filter_push(x, c);
        front.lemma_filter_push(x, d);
        assert(a(x) || !a(x));
    }
}

/// Every identifier that is active now is counted once: the added, newly
/// enabled, updated and unchanged records are as many as there are active
/// identifiers; and no more records are removed or newly disabled than there
/// were active identifiers before.
pub proof fn law_changes_share_out_the_records(old: SnapshotView, new: SnapshotView)
    ensures
        changes_between(old, new).added.len() + changes_between(old, new).newly_enabled.len()
            + changes_between(old, new).updated.len() + changes_between(old, new).unchanged.len()
            == keyed(new.active).len(),
        changes_between(old, new).removed.len() + changes_between(old, new).newly_disabled.len()
            <= keyed(old.active).len(),
        keyed(new.active).len() <= new.active.len(),
        keyed(old.active).len() <= old.active.len(),
{
    lemma_filters_share_out(
        keyed(new.active),
        added_in(old),
        newly_enabled_in(old),
        updated_in(old),
        unchanged_in(old),
    );
    let never = |m: ModView| false;
    let other = |m: ModView| !is_removed(new, m) && !is_newly_disabled(new, m);
    lemma_filters_share_out(
        keyed(old.active),
        removed_in(new),
        newly_disabled_in(new),
        other,
        never,
    );
    lemma_keyed_len(new.active, new.active.len());
    lemma_keyed_len(old.active, old.active.len());
}

/// `keyed_upto` keeps at most the records it is given.
pub proof fn lemma_keyed_len(s: Seq<ModView>, n: nat)
    ensures
        keyed_upto(s, n).len() <= n,
    decreases n,
{
    if n > 0 && n <= s.len() {
        lemma_keyed_len(s, (n - 1) as nat);
    }
}

impl Changes {
    /// Number of records in the five kinds of change, where a `usize` holds it.
    pub fn checked_total_changes(&self) -> (n: Option<usize>)
        ensures
            match n {
                Some(n) => n == self@.total(),
                None => self@.total() > usize::MAX,
            },
    {
        let total: u128 = self.added.len() as u128 + self.removed.len() as u128
            + self.updated.len() as u128 + self.newly_disabled.len() as u128
            + self.newly_enabled.len() as u128;
        if total <= usize::MAX as u128 {
            Some(total as usize)
        } else {
            None
        }
    }
}

impl Clone for Changes {
    fn clone(&self) -> (out: Self)
        ensures
            out@ == self@,
    {
        let mut updated: Vec<UpdatedMod> = Vec::new();
        let mut i: usize = 0;
        while i < self.updated.len()
            invariant
                i <= self.updated.len(),
                updated@ == self.updated@.take(i as int),
            decreases self.updated.len() - i,
        {
            updated.push(self.updated[i].clone());
            assert(self.updated@.take(i + 1) =~= self.updated@.take(i as int).push(
                self.updated@[i as int],
            ));
            i += 1;
        }
        assert(self.updated@.take(self.updated@.len() as int) =~= self.updated@);
        Changes {
            added: clone_mods(&self.added),
            removed: clone_mods(&self.removed),
            updated,
            newly_disabled: clone_mods(&self.newly_disabled),
            newly_enabled: clone_mods(&self.newly_enabled),
            unchanged: clone_mods(&self.unchanged),
        }
    }
}

} // verus!
