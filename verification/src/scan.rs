//! From the files of a directory to its snapshot.

use vstd::prelude::*;
use vstd::relations::sorted_by;
use vstd::seq_lib::to_multiset_build;
use crate::clock::local_now_rfc3339;
use crate::metadata::{meta_of_archive, meta_view, read_meta_from_jar, MetaView, ModMeta, UNKNOWN_VERSION};
use crate::order::{
    key_texts, law_ordered_texts, law_ordering_ignores_given_order, ordered, sort_order,
    sorted_order, text_order,
};
use crate::snapshot::{mod_views, ModData, ModView, Snapshot, SnapshotStats, SnapshotView};
use crate::text::{chars_of, ends_with, has_suffix, string_of, text_views};

verus! {

/// How the name of an active archive ends.
pub const ACTIVE_SUFFIX: &'static str = ".jar";

/// How the name of a disabled archive ends.
pub const DISABLED_SUFFIX: &'static str = ".jar.disabled";

/// Whether a file of this name is an archive, active or disabled.
pub open spec fn archive_name(name: Seq<char>) -> bool {
    ends_with(name, ACTIVE_SUFFIX@) || ends_with(name, DISABLED_SUFFIX@)
}

/// Whether a file of this name is a disabled archive.
pub open spec fn disabled_name(name: Seq<char>) -> bool {
    ends_with(name, DISABLED_SUFFIX@)
}

/// Index of the last dot of `name`, or -1 where it has none.
pub open spec fn last_dot(name: Seq<char>) -> int
    decreases name.len(),
{
    if name.len() == 0 {
        -1
    } else if name.last() == '.' {
        name.len() - 1
    } else {
        last_dot(name.drop_last())
    }
}

/// The stem of a file name: what stands before its last dot; the whole name
/// where it has no dot or only one that begins it.
pub open spec fn stem(name: Seq<char>) -> Seq<char> {
    if last_dot(name) <= 0 {
        name
    } else {
        name.take(last_dot(name))
    }
}

/// Whether a file of this name is an archive, active or disabled.
pub fn is_archive_name(name: &str) -> (out: bool)
    ensures
        out == archive_name(name@),
{
    let chars = chars_of(name);
    has_suffix(&chars, &chars_of(ACTIVE_SUFFIX)) || has_suffix(&chars, &chars_of(DISABLED_SUFFIX))
}

/// Whether a file of this name is a disabled archive.
pub fn is_disabled_name(name: &str) -> (out: bool)
    ensures
        out == disabled_name(name@),
{
    has_suffix(&chars_of(name), &chars_of(DISABLED_SUFFIX))
}

/// The stem of a file name.
pub fn file_stem(name: &str) -> (out: String)
    ensures
        out@ == stem(name@),
{
    let chars = chars_of(name);
    let mut end: usize = chars.len();
    assert(chars@.take(chars@.len() as int) =~= chars@);
    while end > 0 && chars[end - 1] != '.'
        invariant
            end <= chars.len(),
            last_dot(chars@) == last_dot(chars@.take(end as int)),
        decreases end,
    {
        proof {
            assert(chars@.take(end as int).drop_last() =~= chars@.take(end - 1));
        }
        end -= 1;
    }
    proof {
        if end == 0 {
            assert(chars@.take(0).len() == 0);
        } else {
            assert(chars@.take(end as int).last() == '.');
        }
    }
    if end <= 1 {
        return name.to_owned();
    }
    let mut front: Vec<char> = Vec::new();
    let mut i: usize = 0;
    while i < end - 1
        invariant
            i <= end - 1,
            end <= chars.len(),
            front@ == chars@.take(i as int),
        decreases end - 1 - i,
    {
        front.push(chars[i]);
        assert(chars@.take(i + 1) =~= chars@.take(i as int).push(chars@[i as int]));
        i += 1;
    }
    string_of(&front)
}

/// `value`, or `default` where `value` is empty.
pub open spec fn filled(value: Seq<char>, default: Seq<char>) -> Seq<char> {
    if value.len() == 0 {
        default
    } else {
        value
    }
}

/// The record of the archive `filename` with the metadata `meta`: the stem
/// of the file name stands for a missing identifier or name, `unknown` for a
/// missing version, and the file name alone says whether it is disabled.
pub open spec fn record_of(filename: Seq<char>, meta: MetaView) -> ModView {
    ModView {
        filename,
        id: filled(meta.id, stem(filename)),
        name: filled(meta.name, stem(filename)),
        version: filled(meta.version, UNKNOWN_VERSION@),
        loader: meta.loader,
        disabled: disabled_name(filename),
    }
}

/// Builds the record of one archive from its metadata.
pub fn make_record(filename: &str, meta: &ModMeta) -> (out: ModData)
    ensures
        out@ == record_of(filename@, meta@),
{
    let id = if meta.id.as_str().is_empty() {
        file_stem(filename)
    } else {
        meta.id.clone()
    };
    let name = if meta.name.as_str().is_empty() {
        file_stem(filename)
    } else {
        meta.name.clone()
    };
    let version = if meta.version.as_str().is_empty() {
        UNKNOWN_VERSION.to_owned()
    } else {
        meta.version.clone()
    };
    ModData {
        filename: filename.to_owned(),
        id,
        name,
        version,
        loader: meta.loader.clone(),
        disabled: is_disabled_name(filename),
    }
}

/// One archive of a directory and what was read of it.
#[derive(Debug)]
pub struct ScannedFile {
    pub filename: String,
    /// The metadata; `None` where none could be read.
    pub meta: Option<ModMeta>,
}

/// What a [`ScannedFile`] holds, as plain values.
pub ghost struct ScannedView {
    pub filename: Seq<char>,
    pub meta: Option<MetaView>,
}

impl View for ScannedFile {
    type V = ScannedView;

    open spec fn view(&self) -> ScannedView {
        ScannedView { filename: self.filename@, meta: meta_view(self.meta) }
    }
}

/// The views of a sequence of scanned files, in order.
pub open spec fn scanned_views(s: Seq<ScannedFile>) -> Seq<ScannedView> {
    s.map_values(|f: ScannedFile| f@)
}

/// The bytes of an archive that may be missing.
pub open spec fn content_view(archive: Option<&[u8]>) -> Option<Seq<u8>> {
    match archive {
        Some(a) => Some(a@),
        None => None,
    }
}

/// What the scan of one file gives: the metadata of its archive, and none
/// where the file could not be read at all.
pub open spec fn scanned(filename: Seq<char>, archive: Option<Seq<u8>>) -> ScannedView {
    ScannedView {
        filename,
        meta: match archive {
            Some(a) => meta_of_archive(a),
            None => None,
        },
    }
}

/// Scans one file: `archive` holds its bytes, or nothing where it could not be read.
pub fn scan_file(filename: &str, archive: Option<&[u8]>) -> (out: ScannedFile)
    ensures
        out@ == scanned(filename@, content_view(archive)),
{
    let meta = match archive {
        Some(a) => read_meta_from_jar(a),
        None => None,
    };
    ScannedFile { filename: filename.to_owned(), meta }
}

/// Whether a file gave metadata and is not disabled.
pub open spec fn is_active_file() -> spec_fn(ScannedView) -> bool {
    |f: ScannedView| f.meta is Some && !disabled_name(f.filename)
}

/// Whether a file gave metadata and is disabled.
pub open spec fn is_disabled_file() -> spec_fn(ScannedView) -> bool {
    |f: ScannedView| f.meta is Some && disabled_name(f.filename)
}

/// Whether a file gave no metadata.
pub open spec fn is_failed_file() -> spec_fn(ScannedView) -> bool {
    |f: ScannedView| f.meta is None
}

/// The record of a file that gave metadata.
pub open spec fn to_record() -> spec_fn(ScannedView) -> ModView {
    |f: ScannedView| record_of(f.filename, f.meta->0)
}

/// The name of a file.
pub open spec fn to_filename() -> spec_fn(ScannedView) -> Seq<char> {
    |f: ScannedView| f.filename
}

/// The active records of a list of scanned files, in its order.
pub open spec fn active_records(files: Seq<ScannedView>) -> Seq<ModView> {
    files.filter(is_active_file()).map_values(to_record())
}

/// The disabled records of a list of scanned files, in its order.
pub open spec fn disabled_records(files: Seq<ScannedView>) -> Seq<ModView> {
    files.filter(is_disabled_file()).map_values(to_record())
}

/// The names of the files of which no metadata was read, in the order of the list.
pub open spec fn failed_names(files: Seq<ScannedView>) -> Seq<Seq<char>> {
    files.filter(is_failed_file()).map_values(to_filename())
}

/// The counts of a snapshot are those of its three lists, and they add up.
pub open spec fn counted(s: SnapshotView) -> bool {
    &&& s.stats.active == s.active.len()
    &&& s.stats.disabled == s.disabled.len()
    &&& s.stats.failed == s.failed.len()
    &&& s.stats.balanced()
}

/// The snapshot of a directory whose scanned files are `files`: each file is
/// in exactly one of the three lists, in the order of `files`, and the counts
/// are the lengths of the lists; the total is the number of files.
pub open spec fn snapshot_of(
    mods_dir: Seq<char>,
    timestamp: Seq<char>,
    files: Seq<ScannedView>,
) -> SnapshotView {
    SnapshotView {
        timestamp,
        mods_dir,
        active: active_records(files),
        disabled: disabled_records(files),
        failed: failed_names(files),
        stats: SnapshotStats {
            total: files.len() as usize,
            active: active_records(files).len() as usize,
            disabled: disabled_records(files).len() as usize,
            failed: failed_names(files).len() as usize,
        },
    }
}

/// Assembles the snapshot of a directory from its scanned files.
pub fn assemble_snapshot(mods_dir: &str, timestamp: &str, files: &Vec<ScannedFile>) -> (out:
    Snapshot)
    ensures
        out@ == snapshot_of(mods_dir@, timestamp@, scanned_views(files@)),
        counted(out@),
        out@.stats.total == files@.len(),
{
    let ghost all = scanned_views(files@);
    let mut active: Vec<ModData> = Vec::new();
    let mut disabled: Vec<ModData> = Vec::new();
    let mut failed: Vec<String> = Vec::new();
    assert(all.take(0) =~= Seq::<ScannedView>::empty());
    assert(mod_views(active@) =~= active_records(all.take(0)));
    assert(mod_views(disabled@) =~= disabled_records(all.take(0)));
    assert(text_views(failed@) =~= failed_names(all.take(0)));
    let mut i: usize = 0;
    while i < files.len()
        invariant
            i <= files.len(),
            all == scanned_views(files@),
            mod_views(active@) == active_records(all.take(i as int)),
            mod_views(disabled@) == disabled_records(all.take(i as int)),
            text_views(failed@) == failed_names(all.take(i as int)),
            active@.len() + disabled@.len() + failed@.len() == i,
        decreases files.len() - i,
    {
        let ghost before = all.take(i as int);
        let file = &files[i];
        proof {
            assert(all[i as int] == file@);
            assert(all.take(i + 1) =~= before.push(file@));
            before.lemma_filter_push(file@, is_active_file());
            before.lemma_filter_push(file@, is_disabled_file());
            before.lemma_filter_push(file@, is_failed_file());
        }
        match &file.meta {
            Some(m) => {
                let record = make_record(file.filename.as_str(), m);
                assert(record@ == to_record()(file@));
                if record.disabled {
                    disabled.push(record);
                    assert(mod_views(disabled@) =~= before.filter(is_disabled_file()).map_values(
                        to_record(),
                    ).push(record@));
                    assert(before.filter(is_disabled_file()).push(file@).map_values(to_record())
                        =~= before.filter(is_disabled_file()).map_values(to_record()).push(
                        record@,
                    ));
                } else {
                    active.push(record);
                    assert(mod_views(active@) =~= before.filter(is_active_file()).map_values(
                        to_record(),
                    ).push(record@));
                    assert(before.filter(is_active_file()).push(file@).map_values(to_record())
                        =~= before.filter(is_active_file()).map_values(to_record()).push(
                        record@,
                    ));
                }
            },
            None => {
                failed.push(file.filename.clone());
                assert(text_views(failed@) =~= before.filter(is_failed_file()).map_values(
                    to_filename(),
                ).push(file@.filename));
                assert(before.filter(is_failed_file()).push(file@).map_values(to_filename())
                    =~= before.filter(is_failed_file()).map_values(to_filename()).push(
                    file@.filename,
                ));
            },
        }
        i += 1;
    }
    assert(all.take(files@.len() as int) =~= all);
    let stats = SnapshotStats {
        total: files.len(),
        active: active.len(),
        disabled: disabled.len(),
        failed: failed.len(),
    };
    Snapshot {
        timestamp: timestamp.to_owned(),
        mods_dir: mods_dir.to_owned(),
        active,
        disabled,
        failed,
        stats,
    }
}

/// Assembles the snapshot of a directory, stamped with the time of the call.
/// Whatever the clock reads, everything but the timestamp is fixed by the files.
pub fn take_snapshot(mods_dir: &str, files: &Vec<ScannedFile>) -> (out: Snapshot)
    ensures
        out@ == snapshot_of(mods_dir@, out@.timestamp, scanned_views(files@)),
        counted(out@),
        out@.stats.total == files@.len(),
{
    let timestamp = local_now_rfc3339();
    assemble_snapshot(mods_dir, timestamp.as_str(), files)
}

/// `archive_name`, as a predicate.
pub open spec fn names_archive() -> spec_fn(Seq<char>) -> bool {
    |name: Seq<char>| archive_name(name)
}

/// Of the names of a directory, those of archives, ordered by name; characters
/// are compared by their code points.
pub open spec fn selected(names: Seq<Seq<char>>) -> Seq<Seq<char>> {
    ordered(names.filter(names_archive()), names.filter(names_archive()))
}

/// Picks the archives among the names of a directory and orders them by name.
pub fn select_archives(names: &Vec<String>) -> (out: Vec<String>)
    ensures
        text_views(out@) == selected(text_views(names@)),
{
    let ghost all = text_views(names@);
    let mut kept: Vec<String> = Vec::new();
    let mut keys: Vec<Vec<char>> = Vec::new();
    assert(all.take(0) =~= Seq::<Seq<char>>::empty());
    assert(text_views(kept@) =~= all.take(0).filter(names_archive()));
    assert(key_texts(keys@) =~= all.take(0).filter(names_archive()));
    let mut i: usize = 0;
    while i < names.len()
        invariant
            i <= names.len(),
            all == text_views(names@),
            text_views(kept@) == all.take(i as int).filter(names_archive()),
            key_texts(keys@) == text_views(kept@),
            keys@.len() == kept@.len(),
        decreases names.len() - i,
    {
        let ghost before = all.take(i as int);
        proof {
            assert(all.take(i + 1) =~= before.push(names@[i as int]@));
            before.lemma_filter_push(names@[i as int]@, names_archive());
        }
        if is_archive_name(names[i].as_str()) {
            let ghost old_kept = text_views(kept@);
            keys.push(chars_of(names[i].as_str()));
            kept.push(names[i].clone());
            assert(text_views(kept@) =~= old_kept.push(names@[i as int]@));
            assert(key_texts(keys@) =~= old_kept.push(names@[i as int]@));
        }
        i += 1;
    }
    assert(all.take(names@.len() as int) =~= all);
    let ghost kt = text_views(kept@);
    let order = sort_order(&keys);
    let mut out: Vec<String> = Vec::new();
    let mut t: usize = 0;
    assert(text_views(out@) =~= ordered(kt, kt).take(0));
    while t < order.len()
        invariant
            t <= order.len(),
            kt == text_views(kept@),
            order@ == sorted_order(kt),
            order@.len() == kept@.len(),
            forall|j: int| 0 <= j < order@.len() ==> (#[trigger] order@[j]) < kept@.len(),
            text_views(out@) == ordered(kt, kt).take(t as int),
        decreases order.len() - t,
    {
        out.push(kept[order[t]].clone());
        assert(text_views(out@) =~= ordered(kt, kt).take(t as int).push(
            kept@[order@[t as int] as int]@,
        ));
        assert(ordered(kt, kt).take(t + 1) =~= ordered(kt, kt).take(t as int).push(
            kept@[order@[t as int] as int]@,
        ));
        t += 1;
    }
    assert(ordered(kt, kt).take(order@.len() as int) =~= ordered(kt, kt));
    out
}

/// How often a text is in what a filter keeps: as often as before where it
/// passes, and never where it does not.
pub proof fn lemma_filter_count(s: Seq<Seq<char>>, p: spec_fn(Seq<char>) -> bool, v: Seq<char>)
    ensures
        s.filter(p).to_multiset().count(v) == if p(v) {
            s.to_multiset().count(v)
        } else {
            0
        },
    decreases s.len(),
{
    broadcast use vstd::multiset::group_multiset_axioms;

    if s.len() == 0 {
        assert(s.filter(p) =~= Seq::<Seq<char>>::empty()) by {
            s.lemma_filter_len(p);
        }
        s.to_multiset_ensures();
        s.filter(p).to_multiset_ensures();
        assert(s.to_multiset().len() == 0);
        assert(s.filter(p).to_multiset().len() == 0);
    } else {
        let d = s.drop_last();
        let x = s.last();
        lemma_filter_count(d, p, v);
        assert(d.push(x) =~= s);
        d.lemma_filter_push(x, p);
        to_multiset_build(d, x);
        to_multiset_build(d.filter(p), x);
    }
}

/// The names picked from a listing are those of its archives, each as often
/// as the listing has it, in ascending order.
pub proof fn law_selected_archives(names: Seq<Seq<char>>)
    requires
        names.len() <= usize::MAX,
    ensures
        sorted_by(selected(names), text_order()),
        forall|v: Seq<char>|
            selected(names).to_multiset().count(v) == if archive_name(v) {
                names.to_multiset().count(v)
            } else {
                0
            },
{
    let kept = names.filter(names_archive());
    names.lemma_filter_len(names_archive());
    law_ordered_texts(kept);
    assert forall|v: Seq<char>|
        selected(names).to_multiset().count(v) == if archive_name(v) {
            names.to_multiset().count(v)
        } else {
            0
        } by {
        lemma_filter_count(names, names_archive(), v);
    }
}

/// Two listings of the same names, in whatever order, give the same selection.
pub proof fn law_selection_ignores_listing_order(a: Seq<Seq<char>>, b: Seq<Seq<char>>)
    requires
        a.to_multiset() == b.to_multiset(),
        a.len() <= usize::MAX,
        b.len() <= usize::MAX,
    ensures
        selected(a) == selected(b),
{
    let ka = a.filter(names_archive());
    let kb = b.filter(names_archive());
    a.lemma_filter_len(names_archive());
    b.lemma_filter_len(names_archive());
    assert(ka.to_multiset() =~= kb.to_multiset()) by {
        assert forall|v: Seq<char>| ka.to_multiset().count(v) == kb.to_multiset().count(v) by {
            lemma_filter_count(a, names_archive(), v);
            lemma_filter_count(b, names_archive(), v);
        }
    }
    law_ordering_ignores_given_order(ka, kb);
}

/// The same files give the same lists and the same counts, whenever they are
/// scanned: only the timestamp tells two snapshots of them apart.
pub proof fn law_snapshot_is_repeatable(
    mods_dir: Seq<char>,
    first: Seq<char>,
    second: Seq<char>,
    files: Seq<ScannedView>,
)
    ensures
        snapshot_of(mods_dir, first, files).active == snapshot_of(mods_dir, second, files).active,
        snapshot_of(mods_dir, first, files).disabled == snapshot_of(
            mods_dir,
            second,
            files,
        ).disabled,
        snapshot_of(mods_dir, first, files).failed == snapshot_of(mods_dir, second, files).failed,
        snapshot_of(mods_dir, first, files).stats == snapshot_of(mods_dir, second, files).stats,
        snapshot_of(mods_dir, first, files) == (SnapshotView {
            timestamp: first,
            ..snapshot_of(mods_dir, second, files)
        }),
{
}

/// The file names of a list of scanned files.
pub open spec fn scanned_names(files: Seq<ScannedView>) -> Seq<Seq<char>> {
    files.map_values(to_filename())
}

/// The file names of a list of records.
pub open spec fn record_names(mods: Seq<ModView>) -> Seq<Seq<char>> {
    mods.map_values(|m: ModView| m.filename)
}

/// What a filter keeps of files in ascending order of their names is in
/// ascending order, and each of its names is one of theirs.
pub proof fn lemma_filter_keeps_order(files: Seq<ScannedView>, p: spec_fn(ScannedView) -> bool)
    requires
        sorted_by(scanned_names(files), text_order()),
    ensures
        sorted_by(scanned_names(files.filter(p)), text_order()),
        forall|i: int|
            0 <= i < files.filter(p).len() ==> exists|j: int|
                0 <= j < files.len() && files[j] == #[trigger] files.filter(p)[i],
    decreases files.len(),
{
    if files.len() == 0 {
        files.lemma_filter_len(p);
    } else {
        let d = files.drop_last();
        let x = files.last();
        assert(d.push(x) =~= files);
        assert forall|i: int, j: int| 0 <= i < j < d.len() implies #[trigger] text_order()(
            scanned_names(d)[i],
            scanned_names(d)[j],
        ) by {
            assert(text_order()(scanned_names(files)[i], scanned_names(files)[j]));
        }
        lemma_filter_keeps_order(d, p);
        d.lemma_filter_push(x, p);
        let kept = d.filter(p);
        assert forall|i: int| 0 <= i < files.filter(p).len() implies exists|j: int|
            0 <= j < files.len() && files[j] == #[trigger] files.filter(p)[i] by {
            if i < kept.len() {
                let j = choose|j: int| 0 <= j < d.len() && d[j] == kept[i];
                assert(files[j] == files.filter(p)[i]);
            } else {
                assert(files[files.len() - 1] == files.filter(p)[i]);
            }
        }
        if p(x) {
            assert forall|i: int, j: int| 0 <= i < j < kept.push(x).len() implies #[trigger] text_order()(
                scanned_names(kept.push(x))[i],
                scanned_names(kept.push(x))[j],
            ) by {
                if j < kept.len() {
                    assert(text_order()(scanned_names(kept)[i], scanned_names(kept)[j]));
                } else {
                    let at = choose|at: int| 0 <= at < d.len() && d[at] == kept[i];
                    assert(text_order()(
                        scanned_names(files)[at],
                        scanned_names(files)[files.len() - 1],
                    ));
                }
            }
        }
    }
}

/// The lists of a snapshot keep the order of the files: where these come in
/// ascending order of their names, so do the active records, the disabled
/// records and the files that could not be read.
pub proof fn law_snapshot_lists_are_ordered(
    mods_dir: Seq<char>,
    timestamp: Seq<char>,
    files: Seq<ScannedView>,
)
    requires
        sorted_by(scanned_names(files), text_order()),
    ensures
        sorted_by(record_names(snapshot_of(mods_dir, timestamp, files).active), text_order()),
        sorted_by(record_names(snapshot_of(mods_dir, timestamp, files).disabled), text_order()),
        sorted_by(snapshot_of(mods_dir, timestamp, files).failed, text_order()),
{
    lemma_filter_keeps_order(files, is_active_file());
    lemma_filter_keeps_order(files, is_disabled_file());
    lemma_filter_keeps_order(files, is_failed_file());
    let s = snapshot_of(mods_dir, timestamp, files);
    assert(record_names(s.active) =~= scanned_names(files.filter(is_active_file())));
    assert(record_names(s.disabled) =~= scanned_names(files.filter(is_disabled_file())));
    assert(s.failed =~= scanned_names(files.filter(is_failed_file())));
}

/// How many of `names` are names of archives.
pub open spec fn archive_count(names: Seq<Seq<char>>) -> nat {
    names.filter(names_archive()).len()
}

/// Counts the archives among the names of a directory.
pub fn count_archives(names: &Vec<String>) -> (out: usize)
    ensures
        out == archive_count(text_views(names@)),
{
    let ghost all = text_views(names@);
    let mut count: usize = 0;
    let mut i: usize = 0;
    assert(all.take(0) =~= Seq::<Seq<char>>::empty());
    while i < names.len()
        invariant
            i <= names.len(),
            all == text_views(names@),
            count == archive_count(all.take(i as int)),
            count <= i,
        decreases names.len() - i,
    {
        proof {
            assert(all.take(i + 1) =~= all.take(i as int).push(names@[i as int]@));
            all.take(i as int).lemma_filter_push(names@[i as int]@, names_archive());
        }
        if is_archive_name(names[i].as_str()) {
            count += 1;
        }
        i += 1;
    }
    assert(all.take(names@.len() as int) =~= all);
    count
}

/// Every scanned file is in exactly one of the three lists.
pub proof fn lemma_three_lists(files: Seq<ScannedView>)
    ensures
        files.filter(is_active_file()).len() + files.filter(is_disabled_file()).len()
            + files.filter(is_failed_file()).len() == files.len(),
    decreases files.len(),
{
    if files.len() == 0 {
        files.lemma_filter_len(is_active_file());
        files.lemma_filter_len(is_disabled_file());
        files.lemma_filter_len(is_failed_file());
    } else {
        let front = files.drop_last();
        let x = files.last();
        assert(front.push(x) =~= files);
        lemma_three_lists(front);
        front.lemma_filter_push(x, is_active_file());
        front.lemma_filter_push(x, is_disabled_file());
        front.lemma_filter_push(x, is_failed_file());
    }
}

/// What holds of a snapshot that a scan made: its counts are those of its
/// lists and add up, its records are ordered by file name, and each record
/// is in the list that its file name puts it in.
pub open spec fn well_formed(s: SnapshotView) -> bool {
    &&& counted(s)
    &&& sorted_by(record_names(s.active), text_order())
    &&& sorted_by(record_names(s.disabled), text_order())
    &&& forall|i: int|
        0 <= i < s.active.len() ==> !(#[trigger] s.active[i]).disabled && !disabled_name(
            s.active[i].filename,
        )
    &&& forall|i: int|
        0 <= i < s.disabled.len() ==> (#[trigger] s.disabled[i]).disabled && disabled_name(
            s.disabled[i].filename,
        )
}

/// The snapshot of files that come in ascending order of their names is
/// well formed, and its total is the number of the files.
pub proof fn law_snapshot_is_well_formed(
    mods_dir: Seq<char>,
    timestamp: Seq<char>,
    files: Seq<ScannedView>,
)
    requires
        sorted_by(scanned_names(files), text_order()),
        files.len() <= usize::MAX,
    ensures
        well_formed(snapshot_of(mods_dir, timestamp, files)),
        snapshot_of(mods_dir, timestamp, files).stats.total == files.len(),
{
    let s = snapshot_of(mods_dir, timestamp, files);
    lemma_three_lists(files);
    law_snapshot_lists_are_ordered(mods_dir, timestamp, files);
    assert forall|i: int| 0 <= i < s.active.len() implies !(#[trigger] s.active[i]).disabled
        && !disabled_name(s.active[i].filename) by {
        files.lemma_filter_pred(is_active_file(), i);
    }
    assert forall|i: int| 0 <= i < s.disabled.len() implies (#[trigger] s.disabled[i]).disabled
        && disabled_name(s.disabled[i].filename) by {
        files.lemma_filter_pred(is_disabled_file(), i);
    }
}

} // verus!
