//! Table metadata as the routes read it.

use vstd::prelude::*;

use crate::text;
use crate::textmap::TextMap;

verus! {

/// One snapshot of a table.
#[derive(Debug)]
pub struct Snapshot {
    /// Its id.
    pub snapshot_id: i64,
    /// The snapshot it was made from.
    pub parent_snapshot_id: Option<i64>,
    /// Its place in the table's order of changes.
    pub sequence_number: Option<i64>,
    /// When it was made.
    pub timestamp_ms: i64,
    /// Where its manifest list is.
    pub manifest_list: Option<String>,
    /// The schema it was written with.
    pub schema_id: Option<i32>,
    /// What its writer recorded of it.
    pub summary: Option<TextMap<String>>,
}

/// Whether a named ref moves or stays.
#[derive(Clone, Copy, Debug, PartialEq, Eq, Structural)]
pub enum RefType {
    /// A ref that moves.
    Branch,
    /// A ref that stays.
    Tag,
}

/// A named ref to a snapshot.
#[derive(Debug)]
pub struct SnapshotRef {
    /// The snapshot it names.
    pub snapshot_id: i64,
    /// Whether it moves.
    pub ref_type: RefType,
    /// How many snapshots its history keeps.
    pub min_snapshots_to_keep: Option<i32>,
    /// How old a snapshot of its history may get.
    pub max_snapshot_age_ms: Option<i64>,
    /// How old the ref may get.
    pub max_ref_age_ms: Option<i64>,
}

/// One top-level column of a schema.
#[derive(Debug)]
pub struct SchemaField {
    /// Its id.
    pub id: i32,
    /// Its name.
    pub name: String,
    /// Its type, as the metadata file writes it.
    pub field_type: String,
}

/// A schema of a table.
#[derive(Debug)]
pub struct Schema {
    /// Its id, where it has one.
    pub schema_id: Option<i32>,
    /// Its top-level columns.
    pub fields: Vec<SchemaField>,
}

/// The metadata of a table at one version.
#[derive(Debug)]
pub struct TableMetadata {
    /// The table's UUID.
    pub table_uuid: String,
    /// Where its files are.
    pub location: String,
    /// The format version of the metadata file.
    pub format_version: u8,
    /// The id of the current snapshot; negative where there is none.
    pub current_snapshot_id: Option<i64>,
    /// The snapshots that are kept.
    pub snapshots: Option<Vec<Snapshot>>,
    /// The named refs.
    pub refs: Option<TextMap<SnapshotRef>>,
    /// The table's properties.
    pub properties: Option<TextMap<String>>,
    /// The id of the current schema.
    pub current_schema_id: i32,
    /// The schemas that are kept.
    pub schemas: Vec<Schema>,
}

/// The current snapshot's id, where there is a current snapshot.
pub open spec fn current_of(metadata: TableMetadata) -> Option<i64> {
    match metadata.current_snapshot_id {
        Some(id) => if id >= 0 { Some(id) } else { None },
        None => None,
    }
}

/// The kept snapshots.
pub open spec fn snapshots_of(metadata: TableMetadata) -> Seq<Snapshot> {
    match metadata.snapshots {
        Some(all) => all@,
        None => Seq::empty(),
    }
}

/// The named refs.
pub open spec fn refs_of(metadata: TableMetadata) -> Map<Seq<char>, SnapshotRef> {
    match metadata.refs {
        Some(refs) => refs@,
        None => Map::empty(),
    }
}

/// Whether a snapshot of that id is kept.
pub open spec fn is_kept(metadata: TableMetadata, id: i64) -> bool {
    exists|i: int| 0 <= i < snapshots_of(metadata).len() && (#[trigger] snapshots_of(metadata)[i]).snapshot_id == id
}

/// Whether a branch, a tag or the current pointer names the snapshot.
pub open spec fn is_referenced(metadata: TableMetadata, id: i64) -> bool {
    ||| current_of(metadata) == Some(id)
    ||| exists|name: Seq<char>| refs_of(metadata).dom().contains(name) && (#[trigger] refs_of(metadata)[name]).snapshot_id == id
}

/// The place of the first snapshot of that id.
pub open spec fn first_of_id(all: Seq<Snapshot>, id: i64, i: int) -> bool {
    &&& 0 <= i < all.len()
    &&& all[i].snapshot_id == id
    &&& forall|j: int| 0 <= j < i ==> (#[trigger] all[j]).snapshot_id != id
}

impl TableMetadata {
    /// The current snapshot's id, where there is a current snapshot.
    pub fn current_id(&self) -> (r: Option<i64>)
        ensures
            r == current_of(*self),
    {
        match self.current_snapshot_id {
            Some(id) => if id >= 0 { Some(id) } else { None },
            None => None,
        }
    }

    /// The kept snapshot of that id.
    pub fn snapshot_by_id(&self, id: i64) -> (r: Option<&Snapshot>)
        ensures
            r is Some == is_kept(*self, id),
            r matches Some(s) ==> s.snapshot_id == id && snapshots_of(*self).contains(*s),
            r matches Some(s) ==> exists|i: int| #[trigger] first_of_id(snapshots_of(*self), id, i) && *s == snapshots_of(*self)[i],
    {
        match &self.snapshots {
            None => None,
            Some(all) => {
                let mut i: usize = 0;
                while i < all.len()
                    invariant
                        i <= all@.len(),
                        snapshots_of(*self) == all@,
                        forall|j: int| 0 <= j < i ==> (#[trigger] all@[j]).snapshot_id != id,
                    decreases all@.len() - i,
                {
                    if all[i].snapshot_id == id {
                        assert(first_of_id(snapshots_of(*self), id, i as int));
                        assert(snapshots_of(*self)[i as int].snapshot_id == id);
                        return Some(&all[i]);
                    }
                    i = i + 1;
                }
                None
            },
        }
    }
}

// ---------------------------------------------------------------------------
// The index rows of a table
// ---------------------------------------------------------------------------

/// One row of the snapshot index.
#[derive(Debug)]
pub struct SnapshotIndexRow {
    /// The snapshot.
    pub snapshot_id: i64,
    /// The snapshot it was made from.
    pub parent_snapshot_id: Option<i64>,
    /// Its place in the table's order of changes.
    pub sequence_number: Option<i64>,
    /// When it was made.
    pub timestamp_ms: i64,
    /// Where its manifest list is.
    pub manifest_list: Option<String>,
    /// The operation that its summary names.
    pub operation: Option<String>,
    /// Its summary; empty where it has none.
    pub summary: TextMap<String>,
    /// Whether it is the current snapshot.
    pub is_current: bool,
}

/// What the catalog's index holds of a table, taken from its metadata.
#[derive(Debug)]
pub struct DerivedTableState {
    /// The format version.
    pub format_version: i16,
    /// The table's properties; empty where the metadata has none.
    pub properties: TextMap<String>,
    /// One row per kept snapshot, in the metadata's order.
    pub snapshots: Vec<SnapshotIndexRow>,
    /// How many snapshots are kept.
    pub snapshot_count: usize,
    /// The current snapshot.
    pub current_snapshot_id: Option<i64>,
}

/// The texts of an optional map; empty where it is absent.
pub open spec fn opt_map(m: Option<TextMap<String>>) -> Map<Seq<char>, String> {
    match m {
        Some(m) => m@,
        None => Map::empty(),
    }
}

/// Whether `row` is the index row of `snapshot`.
pub open spec fn is_row_of(row: SnapshotIndexRow, snapshot: Snapshot, current: Option<i64>) -> bool {
    &&& row.snapshot_id == snapshot.snapshot_id
    &&& row.parent_snapshot_id == snapshot.parent_snapshot_id
    &&& row.sequence_number == snapshot.sequence_number
    &&& row.timestamp_ms == snapshot.timestamp_ms
    &&& text::opt_text(row.manifest_list) == text::opt_text(snapshot.manifest_list)
    &&& row.summary@ == opt_map(snapshot.summary)
    &&& text::opt_text(row.operation) == (if opt_map(snapshot.summary).dom().contains("operation"@) {
        Some(opt_map(snapshot.summary)["operation"@]@)
    } else {
        None
    })
    &&& row.is_current == (current == Some(snapshot.snapshot_id))
}

fn index_row(snapshot: &Snapshot, current: Option<i64>) -> (r: SnapshotIndexRow)
    ensures
        is_row_of(r, *snapshot, current),
{
    let summary = match &snapshot.summary {
        Some(m) => m.copy(),
        None => TextMap::new(),
    };
    let operation = match summary.get("operation") {
        Some(op) => Some(op.clone()),
        None => None,
    };
    SnapshotIndexRow {
        snapshot_id: snapshot.snapshot_id,
        parent_snapshot_id: snapshot.parent_snapshot_id,
        sequence_number: snapshot.sequence_number,
        timestamp_ms: snapshot.timestamp_ms,
        manifest_list: copy_opt(&snapshot.manifest_list),
        operation,
        summary,
        is_current: match current {
            Some(id) => id == snapshot.snapshot_id,
            None => false,
        },
    }
}

/// A copy of an optional string.
pub fn copy_opt(s: &Option<String>) -> (r: Option<String>)
    ensures
        r == *s,
{
    match s {
        Some(t) => Some(t.clone()),
        None => None,
    }
}

/// Takes the index rows of a table from its metadata.
pub fn derived_state(metadata: &TableMetadata) -> (r: DerivedTableState)
    ensures
        r.format_version == metadata.format_version,
        r.properties@ == opt_map(metadata.properties),
        r.current_snapshot_id == current_of(*metadata),
        r.snapshot_count == snapshots_of(*metadata).len(),
        r.snapshots@.len() == snapshots_of(*metadata).len(),
        forall|i: int|
            0 <= i < r.snapshots@.len() ==> is_row_of(
                #[trigger] r.snapshots@[i],
                snapshots_of(*metadata)[i],
                current_of(*metadata),
            ),
{
    let current = metadata.current_id();
    let mut rows: Vec<SnapshotIndexRow> = Vec::new();
    match &metadata.snapshots {
        None => {},
        Some(all) => {
            let mut i: usize = 0;
            while i < all.len()
                invariant
                    i <= all@.len(),
                    rows@.len() == i,
                    snapshots_of(*metadata) == all@,
                    forall|j: int| 0 <= j < i ==> is_row_of(#[trigger] rows@[j], all@[j], current),
                decreases all@.len() - i,
            {
                let row = index_row(&all[i], current);
                rows.push(row);
                i = i + 1;
            }
        },
    }
    DerivedTableState {
        format_version: metadata.format_version as i16,
        properties: match &metadata.properties {
            Some(m) => m.copy(),
            None => TextMap::new(),
        },
        snapshot_count: rows.len(),
        snapshots: rows,
        current_snapshot_id: current,
    }
}

/// The ids that a branch, a tag or the current pointer names.
fn referenced_ids(metadata: &TableMetadata) -> (r: Vec<i64>)
    ensures
        forall|id: i64| r@.contains(id) == is_referenced(*metadata, id),
{
    let mut ids: Vec<i64> = Vec::new();
    if let Some(current) = metadata.current_id() {
        ids.push(current);
        assert(ids@[0] == current);
    }
    let ghost first = ids@;
    assert(forall|id: i64| first.contains(id) <==> current_of(*metadata) == Some(id));
    match &metadata.refs {
        None => {},
        Some(refs) => {
            let n: usize = refs.len();
            let mut i: usize = 0;
            while i < n
                invariant
                    i <= n,
                    n == refs.pairs().len(),
                    crate::textmap::in_key_order(refs.pairs()),
                    first.len() + i == ids@.len(),
                    first == ids@.take(first.len() as int),
                    forall|j: int| 0 <= j < i ==> ids@[first.len() + j] == (#[trigger] refs.pairs()[j]).1.snapshot_id,
                decreases n - i,
            {
                let ghost before = ids@;
                ids.push(refs.value_at(i).snapshot_id);
                assert(ids@.take(first.len() as int) == before.take(first.len() as int));
                i = i + 1;
            }
            proof {
                assert forall|id: i64| ids@.contains(id) == is_referenced(*metadata, id) by {
                    if ids@.contains(id) {
                        let k = choose|k: int| 0 <= k < ids@.len() && ids@[k] == id;
                        if k < first.len() {
                            assert(first[k] == id);
                        } else {
                            let j = k - first.len();
                            assert(refs.pairs()[j].1.snapshot_id == id);
                            crate::textmap::one_place(refs.pairs(), j);
                            assert(refs_of(*metadata)[refs.pairs()[j].0].snapshot_id == id);
                        }
                    }
                    if current_of(*metadata) == Some(id) {
                        assert(first.contains(id));
                        let k = choose|k: int| 0 <= k < first.len() && first[k] == id;
                        assert(ids@[k] == id);
                    }
                    if exists|name: Seq<char>| refs_of(*metadata).dom().contains(name) && (#[trigger] refs_of(*metadata)[name]).snapshot_id == id {
                        let name = choose|name: Seq<char>| refs_of(*metadata).dom().contains(name) && (#[trigger] refs_of(*metadata)[name]).snapshot_id == id;
                        let j = choose|j: int| crate::textmap::stands_at(refs.pairs(), name, j);
                        crate::textmap::one_place(refs.pairs(), j);
                        assert(ids@[first.len() + j] == refs.pairs()[j].1.snapshot_id);
                    }
                }
            }
        },
    }
    ids
}

/// Keeps only the snapshots that a branch, a tag or the current pointer names.
pub fn retain_referenced_snapshots(metadata: &mut TableMetadata)
    ensures
        is_pruned(*old(metadata), *final(metadata)),
        final(metadata).snapshots is Some == old(metadata).snapshots is Some,
        final(metadata).table_uuid == old(metadata).table_uuid,
        final(metadata).location == old(metadata).location,
        final(metadata).format_version == old(metadata).format_version,
        final(metadata).properties == old(metadata).properties,
        final(metadata).current_schema_id == old(metadata).current_schema_id,
        final(metadata).schemas == old(metadata).schemas,
{
    let ids = referenced_ids(metadata);
    let ghost pred = |s: Snapshot| is_referenced(*old(metadata), s.snapshot_id);
    reveal(Seq::filter);
    match metadata.snapshots.take() {
        None => {
            assert(snapshots_of(*old(metadata)).filter(pred) == Seq::<Snapshot>::empty());
        },
        Some(all) => {
            let ghost before = all@;
            let mut kept: Vec<Snapshot> = Vec::new();
            assert(before.take(0).filter(pred) == Seq::<Snapshot>::empty());
            for snapshot in it: all
                invariant
                    it.seq() == before,
                    kept@ == before.take(it.index()).filter(pred),
                    forall|s: Snapshot| #[trigger] pred(s) == ids@.contains(s.snapshot_id),
            {
                reveal(Seq::filter);
                assert(before.take(it.index() + 1).drop_last() == before.take(it.index()));
                assert(before.take(it.index() + 1).last() == snapshot);
                assert(pred(snapshot) == ids@.contains(snapshot.snapshot_id));
                if holds_id(&ids, snapshot.snapshot_id) {
                    kept.push(snapshot);
                }
            }
            assert(before.take(before.len() as int) == before);
            metadata.snapshots = Some(kept);
        },
    }
}

/// Whether the list holds the id.
pub fn holds_id(ids: &Vec<i64>, id: i64) -> (r: bool)
    ensures
        r == ids@.contains(id),
{
    let mut i: usize = 0;
    while i < ids.len()
        invariant
            i <= ids@.len(),
            forall|j: int| 0 <= j < i ==> ids@[j] != id,
        decreases ids@.len() - i,
    {
        if ids[i] == id {
            return true;
        }
        i = i + 1;
    }
    false
}

/// Whether `after` is `before` with only the referenced snapshots kept, and
/// its pointers as they were.
pub open spec fn is_pruned(before: TableMetadata, after: TableMetadata) -> bool {
    &&& snapshots_of(after) == snapshots_of(before).filter(|s: Snapshot| is_referenced(before, s.snapshot_id))
    &&& after.current_snapshot_id == before.current_snapshot_id
    &&& after.refs == before.refs
}

/// Keeping only the referenced snapshots a second time changes nothing more.
pub proof fn pruning_twice_changes_nothing(before: TableMetadata, after: TableMetadata, again: TableMetadata)
    requires
        is_pruned(before, after),
        is_pruned(after, again),
    ensures
        snapshots_of(again) == snapshots_of(after),
        again.current_snapshot_id == after.current_snapshot_id,
        again.refs == after.refs,
{
    broadcast use vstd::seq_lib::group_filter_ensures;

    let kept = |s: Snapshot| is_referenced(before, s.snapshot_id);
    let kept_again = |s: Snapshot| is_referenced(after, s.snapshot_id);
    assert forall|s: Snapshot| #[trigger] kept(s) == kept_again(s) by {
        assert(refs_of(before) == refs_of(after));
        assert(current_of(before) == current_of(after));
    }
    let all = snapshots_of(after);
    assert forall|i: int| 0 <= i < all.len() implies kept_again(#[trigger] all[i]) by {
        assert(kept(all[i]));
    }
    all_are_kept(all, kept_again);
}

proof fn all_are_kept(all: Seq<Snapshot>, keep: spec_fn(Snapshot) -> bool)
    requires
        forall|i: int| 0 <= i < all.len() ==> keep(#[trigger] all[i]),
    ensures
        all.filter(keep) == all,
    decreases all.len(),
{
    reveal(Seq::filter);
    if all.len() > 0 {
        let earlier = all.drop_last();
        assert forall|i: int| 0 <= i < earlier.len() implies keep(#[trigger] earlier[i]) by {
            assert(earlier[i] == all[i]);
        }
        all_are_kept(earlier, keep);
        assert(keep(all[all.len() - 1]));
        assert(all =~= earlier.push(all.last()));
    }
}

/// The current snapshot is never dropped when only the referenced snapshots
/// are kept.
pub proof fn current_snapshot_is_referenced(metadata: TableMetadata, id: i64)
    requires
        current_of(metadata) == Some(id),
    ensures
        is_referenced(metadata, id),
{
}

/// Pruning keeps a snapshot exactly where it is the current one or a ref points
/// at it, and adds none.
pub proof fn pruning_keeps_the_referenced(before: TableMetadata, after: TableMetadata, i: int)
    requires
        is_pruned(before, after),
    ensures
        0 <= i < snapshots_of(before).len() ==> (snapshots_of(after).contains(snapshots_of(before)[i]) <==> is_pointed_at(
            before,
            snapshots_of(before)[i].snapshot_id,
        )),
        0 <= i < snapshots_of(after).len() ==> snapshots_of(before).contains(snapshots_of(after)[i]),
        after.current_snapshot_id == before.current_snapshot_id,
        after.refs == before.refs,
{
    let keep = |s: Snapshot| is_referenced(before, s.snapshot_id);
    let all = snapshots_of(before);
    let kept = all.filter(keep);
    broadcast use vstd::seq_lib::group_filter_ensures;

    if 0 <= i < all.len() {
        let id = all[i].snapshot_id;
        if is_pointed_at(before, id) {
            if !(before.current_snapshot_id == Some(id) && id >= 0) {
                let name = choose|name: Seq<char>|
                    #![trigger refs_of(before).dom().contains(name)]
                    refs_of(before).dom().contains(name) && refs_of(before)[name].snapshot_id == id;
                assert(refs_of(before)[name].snapshot_id == id);
            }
            assert(keep(all[i]));
            assert(kept.contains(all[i]));
        } else if kept.contains(all[i]) {
            let k = choose|k: int| 0 <= k < kept.len() && kept[k] == all[i];
            assert(keep(kept[k]));
            if current_of(before) != Some(id) {
                let name = choose|name: Seq<char>|
                    refs_of(before).dom().contains(name) && (#[trigger] refs_of(before)[name]).snapshot_id == id;
                assert(refs_of(before).dom().contains(name));
            }
        }
    }
    if 0 <= i < kept.len() {
        assert(kept.contains(kept[i]));
        all.lemma_filter_contains_rev(keep, kept[i]);
    }
}

/// Whether the snapshot of this id is the current one, or a ref points at it.
pub open spec fn is_pointed_at(metadata: TableMetadata, id: i64) -> bool {
    ||| metadata.current_snapshot_id == Some(id) && id >= 0
    ||| exists|name: Seq<char>|
        #![trigger refs_of(metadata).dom().contains(name)]
        refs_of(metadata).dom().contains(name) && refs_of(metadata)[name].snapshot_id == id
}

/// A table has a current snapshot exactly where its metadata names one that is
/// not negative.
pub proof fn negative_ids_are_none(metadata: TableMetadata)
    ensures
        match current_of(metadata) {
            Some(id) => metadata.current_snapshot_id == Some(id) && id >= 0,
            None => metadata.current_snapshot_id matches Some(id) ==> id < 0,
        },
{
}

} // verus!
