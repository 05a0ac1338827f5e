//! The inventory of one directory: records, counts and the snapshot itself.

use vstd::prelude::*;
use crate::text::text_views;

verus! {

/// One archive of the inventory.
#[derive(Debug)]
pub struct ModData {
    /// File name, with the suffix of a disabled archive where it has one.
    pub filename: String,
    /// Stable identifier; the key by which two snapshots are compared.
    pub id: String,
    /// Display name.
    pub name: String,
    pub version: String,
    /// Loader the archive targets: `"fabric"` or `"quilt"`.
    pub loader: String,
    /// Whether the file name carries the suffix of a disabled archive.
    pub disabled: bool,
}

/// What a [`ModData`] holds, as plain values.
pub ghost struct ModView {
    pub filename: Seq<char>,
    pub id: Seq<char>,
    pub name: Seq<char>,
    pub version: Seq<char>,
    pub loader: Seq<char>,
    pub disabled: bool,
}

impl View for ModData {
    type V = ModView;

    open spec fn view(&self) -> ModView {
        ModView {
            filename: self.filename@,
            id: self.id@,
            name: self.name@,
            version: self.version@,
            loader: self.loader@,
            disabled: self.disabled,
        }
    }
}

impl Clone for ModData {
    fn clone(&self) -> (out: Self)
        ensures
            out == *self,
    {
        ModData {
            filename: self.filename.clone(),
            id: self.id.clone(),
            name: self.name.clone(),
            version: self.version.clone(),
            loader: self.loader.clone(),
            disabled: self.disabled,
        }
    }
}

/// The views of a sequence of records, in order.
pub open spec fn mod_views(s: Seq<ModData>) -> Seq<ModView> {
    s.map_values(|m: ModData| m@)
}

/// Counts of one snapshot.
#[derive(Debug, Clone, Copy, PartialEq, Eq, Structural)]
pub struct SnapshotStats {
    pub total: usize,
    pub active: usize,
    pub disabled: usize,
    pub failed: usize,
}

impl SnapshotStats {
    /// The total is the sum of the three other counts.
    pub open spec fn balanced(&self) -> bool {
        self.total == self.active + self.disabled + self.failed
    }
}

/// One inventory of a directory.
#[derive(Debug)]
pub struct Snapshot {
    /// Instant of capture.
    pub timestamp: String,
    /// The directory, as it was given.
    pub mods_dir: String,
    pub active: Vec<ModData>,
    pub disabled: Vec<ModData>,
    /// File names of the archives whose metadata could not be read.
    pub failed: Vec<String>,
    pub stats: SnapshotStats,
}

/// What a [`Snapshot`] holds, as plain values.
pub ghost struct SnapshotView {
    pub timestamp: Seq<char>,
    pub mods_dir: Seq<char>,
    pub active: Seq<ModView>,
    pub disabled: Seq<ModView>,
    pub failed: Seq<Seq<char>>,
    pub stats: SnapshotStats,
}

impl View for Snapshot {
    type V = SnapshotView;

    open spec fn view(&self) -> SnapshotView {
        SnapshotView {
            timestamp: self.timestamp@,
            mods_dir: self.mods_dir@,
            active: mod_views(self.active@),
            disabled: mod_views(self.disabled@),
            failed: text_views(self.failed@),
            stats: self.stats,
        }
    }
}

/// A copy of `v`, record by record.
pub fn clone_mods(v: &Vec<ModData>) -> (out: Vec<ModData>)
    ensures
        out@ == v@,
{
    let mut out: Vec<ModData> = Vec::new();
    let mut i: usize = 0;
    while i < v.len()
        invariant
            i <= v.len(),
            out@ == v@.take(i as int),
        decreases v.len() - i,
    {
        out.push(v[i].clone());
        assert(v@.take(i + 1) =~= v@.take(i as int).push(v@[i as int]));
        i += 1;
    }
    assert(v@.take(v@.len() as int) =~= v@);
    out
}

/// A copy of `v`, string by string.
pub fn clone_texts(v: &Vec<String>) -> (out: Vec<String>)
    ensures
        out@ == v@,
{
    let mut out: Vec<String> = Vec::new();
    let mut i: usize = 0;
    while i < v.len()
        invariant
            i <= v.len(),
            out@ == v@.take(i as int),
        decreases v.len() - i,
    {
        out.push(v[i].clone());
        assert(v@.take(i + 1) =~= v@.take(i as int).push(v@[i as int]));
        i += 1;
    }
    assert(v@.take(v@.len() as int) =~= v@);
    out
}

impl Clone for Snapshot {
    fn clone(&self) -> (out: Self)
        ensures
            out@ == self@,
    {
        Snapshot {
            timestamp: self.timestamp.clone(),
            mods_dir: self.mods_dir.clone(),
            active: clone_mods(&self.active),
            disabled: clone_mods(&self.disabled),
            failed: clone_texts(&self.failed),
            stats: self.stats,
        }
    }
}

} // verus!
