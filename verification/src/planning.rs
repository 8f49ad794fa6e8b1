//! Scan planning: which snapshot and schema a scan reads, what policy takes
//! away from it, whether it is planned at once or by a worker, and who may
//! fetch the result.

use vstd::prelude::*;

use crate::error;
use crate::error::{ApiError, ErrorKind};
use crate::grants;
use crate::grants::{require, Access, Found};
use crate::ids::fresh_ulid;
use crate::metadata;
use crate::metadata::{Schema, Snapshot, TableMetadata};
use crate::namespaces;
use crate::namespaces::decode_namespace_param;
use crate::tables;
use crate::tables::{current_metadata_unreadable, no_such_table, Header, TableRecord};
use crate::text;
use crate::text::{cat2, cat3, decimal_i64, quote, same, trim};
use crate::textmap::TextMap;

verus! {

// ---------------------------------------------------------------------------
// The way in
// ---------------------------------------------------------------------------

/// What is known so far of the table that a planning route addresses.
#[derive(Debug)]
pub struct ReadFacts {
    /// Whether there is a warehouse of the prefix.
    pub warehouse: Found<()>,
    /// The table of the path, in that warehouse.
    pub table: Found<TableRecord>,
    /// Whether the caller may read the table.
    pub access: Option<Access>,
}

/// How far a caller of a planning route has come.
#[derive(Debug)]
pub enum Gate<'a> {
    /// Look up the warehouse of the prefix.
    AskWarehouse,
    /// Look up the table.
    AskTable,
    /// Ask whether the caller may read the table.
    AskRead,
    /// The caller may read this table.
    Open(&'a TableRecord),
}

/// The way into every planning route: the warehouse, the table, then read
/// access to it, asked afresh on each request.
pub open spec fn gate<'a>(prefix: Seq<char>, raw: Seq<char>, name: Seq<char>, facts: &'a ReadFacts) -> Result<
    Gate<'a>,
    error::ErrorView,
> {
    match facts.warehouse {
        Found::Unasked => Ok(Gate::AskWarehouse),
        Found::Missing => Err(error::error_of(ErrorKind::NoSuchWarehouse, prefix)),
        Found::Is(_) => match namespaces::levels_error(namespaces::param_levels(raw)) {
            Some(e) => Err(e),
            None => match &facts.table {
                Found::Unasked => Ok(Gate::AskTable),
                Found::Missing => Err(tables::missing_table(namespaces::param_levels(raw), name)),
                Found::Is(record) => match facts.access {
                    None => Ok(Gate::AskRead),
                    Some(access) => match grants::access_error(access) {
                        Some(e) => Err(e),
                        None => Ok(Gate::Open(record)),
                    },
                },
            },
        },
    }
}

/// Takes the next step of the way into a planning route.
pub fn authorize_read<'a>(prefix: &str, raw_namespace: &str, name: &str, facts: &'a ReadFacts) -> (r: Result<
    Gate<'a>,
    ApiError,
>)
    ensures
        error::outcome(r) == gate(prefix@, raw_namespace@, name@, facts),
{
    match &facts.warehouse {
        Found::Unasked => { return Ok(Gate::AskWarehouse); },
        Found::Missing => { return Err(ApiError::new(ErrorKind::NoSuchWarehouse, prefix)); },
        Found::Is(_) => {},
    }
    let levels = match decode_namespace_param(raw_namespace) {
        Ok(levels) => levels,
        Err(e) => { return Err(e); },
    };
    let record = match &facts.table {
        Found::Unasked => { return Ok(Gate::AskTable); },
        Found::Missing => { return Err(no_such_table(&levels, name)); },
        Found::Is(record) => record,
    };
    match &facts.access {
        None => Ok(Gate::AskRead),
        Some(access) => match require(access) {
            Err(e) => Err(e),
            Ok(()) => Ok(Gate::Open(record)),
        },
    }
}

/// The way in is open only to a caller who may read the table.
pub proof fn plans_are_guarded(prefix: Seq<char>, raw: Seq<char>, name: Seq<char>, facts: &ReadFacts)
    requires
        gate(prefix, raw, name, facts) matches Ok(g) && g is Open,
    ensures
        facts.access matches Some(access) && access is Granted,
        facts.table is Is,
{
}

/// The purpose that a header declares, where it declares one.
pub open spec fn purpose_of(header: Header) -> Option<Seq<char>> {
    match header {
        Header::Text(raw) => if text::trimmed(raw@).len() > 0 { Some(text::trimmed(raw@)) } else { None },
        _ => None,
    }
}

/// The purpose that a scan declares in its header, without the blanks around
/// it.
pub fn purpose_from_headers(header: &Header) -> (r: Option<String>)
    ensures
        text::opt_text(r) == purpose_of(*header),
{
    match header {
        Header::Text(raw) => {
            let purpose = trim(raw.as_str());
            if purpose.is_empty() {
                None
            } else {
                Some(purpose.to_owned())
            }
        },
        _ => None,
    }
}

// ---------------------------------------------------------------------------
// The scan
// ---------------------------------------------------------------------------

/// Request body of a scan to plan.
#[derive(Debug)]
pub struct PlanTableScanRequest {
    /// The snapshot to read; the current one where it is absent.
    pub snapshot_id: Option<i64>,
    /// The columns to read.
    pub select: Option<Vec<String>>,
    /// Whether column names are told apart by case.
    pub case_sensitive: Option<bool>,
    /// Whether to read with the snapshot's own schema.
    pub use_snapshot_schema: Option<bool>,
    /// Where an incremental scan starts.
    pub start_snapshot_id: Option<i64>,
    /// Where an incremental scan ends.
    pub end_snapshot_id: Option<i64>,
    /// The columns whose statistics to keep.
    pub stats_fields: Option<Vec<String>>,
}

/// The request that an empty body stands for: it names nothing.
pub open spec fn plain_request() -> PlanTableScanRequest {
    PlanTableScanRequest {
        snapshot_id: None,
        select: None,
        case_sensitive: None,
        use_snapshot_schema: None,
        start_snapshot_id: None,
        end_snapshot_id: None,
        stats_fields: None,
    }
}

/// The request that an empty body stands for.
pub fn default_plan_request() -> (r: PlanTableScanRequest)
    ensures
        r == plain_request(),
{
    PlanTableScanRequest {
        snapshot_id: None,
        select: None,
        case_sensitive: None,
        use_snapshot_schema: None,
        start_snapshot_id: None,
        end_snapshot_id: None,
        stats_fields: None,
    }
}

/// What a body asks for: an empty one for a plain scan, any other what it
/// parses as.
pub open spec fn requested(body_len: usize, parsed: Result<PlanTableScanRequest, String>) -> Result<
    PlanTableScanRequest,
    error::ErrorView,
> {
    if body_len == 0 {
        Ok(plain_request())
    } else {
        match parsed {
            Ok(request) => Ok(request),
            Err(detail) => Err(error::bad_request("invalid planTableScan request body: "@ + detail@)),
        }
    }
}

/// Reads the body of a plan request, given how long it is and what it parses
/// as.
pub fn parse_plan_request<'a>(
    body_len: usize,
    parsed: &'a Result<PlanTableScanRequest, String>,
    plain: &'a PlanTableScanRequest,
) -> (r: Result<&'a PlanTableScanRequest, ApiError>)
    requires
        *plain == plain_request(),
    ensures
        match requested(body_len, *parsed) {
            Ok(request) => r matches Ok(it) && *it == request,
            Err(e) => error::fails_with(r, e),
        },
{
    if body_len == 0 {
        return Ok(plain);
    }
    match parsed {
        Ok(request) => Ok(request),
        Err(detail) => Err(
            ApiError::bad_request(cat2("invalid planTableScan request body: ", detail.as_str()).as_str()),
        ),
    }
}

/// How long a plan is kept where the configured seconds do not fit.
pub const FALLBACK_PLAN_TTL_SECS: i64 = 3600;

/// How many seconds a plan is kept.
pub fn plan_ttl(secs: u64) -> (r: i64)
    ensures
        r == (if secs <= i64::MAX { secs as int } else { FALLBACK_PLAN_TTL_SECS as int }),
{
    if secs <= 0x7fff_ffff_ffff_ffff {
        secs as i64
    } else {
        FALLBACK_PLAN_TTL_SECS
    }
}

/// The refusal of an operation that is not offered.
pub open spec fn unsupported_view(message: Seq<char>) -> error::ErrorView {
    error::error_of(ErrorKind::UnsupportedOperation, message)
}

/// The refusal of an operation that is not offered.
pub fn unsupported(message: &str) -> (r: ApiError)
    ensures
        r@ == unsupported_view(message@),
{
    ApiError::new(ErrorKind::UnsupportedOperation, message)
}

/// The refusal of a scan mode.
pub open spec fn scan_mode_error(request: PlanTableScanRequest) -> Option<error::ErrorView> {
    if request.start_snapshot_id is None && request.end_snapshot_id is None {
        None
    } else if request.snapshot_id is Some {
        Some(
            error::bad_request(
                "a scan is either point-in-time (snapshot-id) or incremental (start-snapshot-id/end-snapshot-id), not both"@,
            ),
        )
    } else if request.end_snapshot_id is None {
        Some(error::bad_request("end-snapshot-id is required when start-snapshot-id is set"@))
    } else {
        Some(unsupported_view("incremental scan planning is not yet implemented"@))
    }
}

/// Refuses the scan modes that are not offered: only a point in time is.
pub fn validate_scan_mode(request: &PlanTableScanRequest) -> (r: Result<(), ApiError>)
    ensures
        match scan_mode_error(*request) {
            Some(e) => error::fails_with(r, e),
            None => r is Ok,
        },
{
    if request.start_snapshot_id.is_none() && request.end_snapshot_id.is_none() {
        return Ok(());
    }
    if request.snapshot_id.is_some() {
        return Err(ApiError::bad_request(
            "a scan is either point-in-time (snapshot-id) or incremental (start-snapshot-id/end-snapshot-id), not both",
        ));
    }
    if request.start_snapshot_id.is_some() && request.end_snapshot_id.is_none() {
        return Err(ApiError::bad_request("end-snapshot-id is required when start-snapshot-id is set"));
    }
    Err(unsupported("incremental scan planning is not yet implemented"))
}

/// The first snapshot of an id, from place `from` on.
pub open spec fn snapshot_place(all: Seq<Snapshot>, id: i64, from: int) -> Option<int>
    decreases all.len() - from,
{
    if from < 0 || from >= all.len() {
        None
    } else if all[from].snapshot_id == id {
        Some(from)
    } else {
        snapshot_place(all, id, from + 1)
    }
}

/// The first schema of an id, from place `from` on.
pub open spec fn schema_place(all: Seq<Schema>, id: i32, from: int) -> Option<int>
    decreases all.len() - from,
{
    if from < 0 || from >= all.len() {
        None
    } else if all[from].schema_id == Some(id) {
        Some(from)
    } else {
        schema_place(all, id, from + 1)
    }
}

/// The place that an index stands for.
pub open spec fn as_place(i: Option<usize>) -> Option<int> {
    match i {
        Some(n) => Some(n as int),
        None => None,
    }
}

/// The place of a snapshot among those that are kept.
pub fn find_snapshot(metadata: &TableMetadata, id: i64) -> (r: Option<usize>)
    ensures
        as_place(r) == snapshot_place(metadata::snapshots_of(*metadata), id, 0),
        r matches Some(i) ==> metadata.snapshots is Some && i < metadata::snapshots_of(*metadata).len()
            && metadata::snapshots_of(*metadata)[i as int].snapshot_id == id,
{
    match &metadata.snapshots {
        None => None,
        Some(all) => {
            let mut i: usize = 0;
            while i < all.len()
                invariant
                    i <= all@.len(),
                    metadata.snapshots == Some(*all),
                    snapshot_place(all@, id, 0) == snapshot_place(all@, id, i as int),
                decreases all@.len() - i,
            {
                if all[i].snapshot_id == id {
                    return Some(i);
                }
                i = i + 1;
            }
            None
        },
    }
}

/// The place of a schema among those that are kept.
pub fn find_schema(schemas: &Vec<Schema>, id: i32) -> (r: Option<usize>)
    ensures
        as_place(r) == schema_place(schemas@, id, 0),
        r matches Some(i) ==> i < schemas@.len() && schemas@[i as int].schema_id == Some(id),
{
    let mut i: usize = 0;
    while i < schemas.len()
        invariant
            i <= schemas@.len(),
            schema_place(schemas@, id, 0) == schema_place(schemas@, id, i as int),
        decreases schemas@.len() - i,
    {
        let is_it = match schemas[i].schema_id {
            Some(own) => own == id,
            None => false,
        };
        if is_it {
            return Some(i);
        }
        i = i + 1;
    }
    None
}

/// The snapshot that a scan reads, by its place: the one asked for, or the
/// current one; none where the table is empty.
pub open spec fn scanned_snapshot(metadata: TableMetadata, request: PlanTableScanRequest) -> Result<
    Option<int>,
    error::ErrorView,
> {
    match request.snapshot_id {
        Some(id) => match snapshot_place(metadata::snapshots_of(metadata), id, 0) {
            Some(i) => Ok(Some(i)),
            None => Err(error::bad_request("snapshot "@ + text::decimal(id as int) + " does not exist"@)),
        },
        None => match metadata::current_of(metadata) {
            None => Ok(None),
            Some(id) => match snapshot_place(metadata::snapshots_of(metadata), id, 0) {
                Some(i) => Ok(Some(i)),
                None => Err(
                    error::error_of(
                        ErrorKind::InternalServer,
                        "current snapshot "@ + text::decimal(id as int) + " is missing from table metadata"@,
                    ),
                ),
            },
        },
    }
}

/// The snapshot to plan: the one that is asked for, which must exist, or the
/// current one, which an empty table does not have.
pub fn resolve_snapshot(metadata: &TableMetadata, request: &PlanTableScanRequest) -> (r: Result<
    Option<usize>,
    ApiError,
>)
    ensures
        match scanned_snapshot(*metadata, *request) {
            Err(e) => error::fails_with(r, e),
            Ok(place) => r matches Ok(got) && as_place(got) == place,
        },
        r matches Ok(Some(i)) ==> metadata.snapshots is Some && i < metadata::snapshots_of(*metadata).len(),
{
    match request.snapshot_id {
        Some(id) => match find_snapshot(metadata, id) {
            Some(i) => Ok(Some(i)),
            None => Err(ApiError::bad_request(
                cat3("snapshot ", decimal_i64(id).as_str(), " does not exist").as_str(),
            )),
        },
        None => match metadata.current_id() {
            None => Ok(None),
            Some(id) => match find_snapshot(metadata, id) {
                Some(i) => Ok(Some(i)),
                None => Err(ApiError::new(
                    ErrorKind::InternalServer,
                    cat3("current snapshot ", decimal_i64(id).as_str(), " is missing from table metadata").as_str(),
                )),
            },
        },
    }
}

/// What a scan reads.
#[derive(Debug)]
pub struct ScanTarget {
    /// The snapshot.
    pub snapshot_id: i64,
    /// Where its manifest list is.
    pub manifest_list: String,
    /// The schema, by its place in the metadata.
    pub schema: usize,
}

/// The id of the schema that a scan of `snapshot` reads with.
pub open spec fn scan_schema_id(metadata: TableMetadata, request: PlanTableScanRequest, snapshot: Snapshot) -> i32 {
    if request.use_snapshot_schema == Some(true) {
        match snapshot.schema_id {
            Some(id) => id,
            None => metadata.current_schema_id,
        }
    } else {
        metadata.current_schema_id
    }
}

/// What a scan reads; nothing where the table is empty.
pub open spec fn scan_target_of(metadata: TableMetadata, request: PlanTableScanRequest) -> Result<
    Option<ScanTarget>,
    error::ErrorView,
> {
    match scan_mode_error(request) {
        Some(e) => Err(e),
        None => match scanned_snapshot(metadata, request) {
            Err(e) => Err(e),
            Ok(None) => Ok(None),
            Ok(Some(i)) => {
                let snapshot = metadata::snapshots_of(metadata)[i];
                let schema_id = scan_schema_id(metadata, request, snapshot);
                match snapshot.manifest_list {
                    None => Err(
                        unsupported_view(
                            "snapshot "@ + text::decimal(snapshot.snapshot_id as int)
                                + " has no manifest-list (legacy v1 layout); server-side planning requires a manifest list"@,
                        ),
                    ),
                    Some(at) => match schema_place(metadata.schemas@, schema_id, 0) {
                        None => Err(
                            error::error_of(
                                ErrorKind::InternalServer,
                                "schema "@ + text::decimal(schema_id as int) + " is missing from table metadata"@,
                            ),
                        ),
                        Some(k) => Ok(
                            Some(
                                ScanTarget {
                                    snapshot_id: snapshot.snapshot_id,
                                    manifest_list: at,
                                    schema: k as usize,
                                },
                            ),
                        ),
                    },
                }
            },
        },
    }
}

/// Says what a scan reads.
pub fn scan_target(metadata: &TableMetadata, request: &PlanTableScanRequest) -> (r: Result<
    Option<ScanTarget>,
    ApiError,
>)
    ensures
        error::outcome(r) == scan_target_of(*metadata, *request),
        r matches Ok(Some(t)) ==> t.schema < metadata.schemas@.len(),
{
    match validate_scan_mode(request) {
        Err(e) => { return Err(e); },
        Ok(()) => {},
    }
    let place = match resolve_snapshot(metadata, request) {
        Err(e) => { return Err(e); },
        Ok(None) => { return Ok(None); },
        Ok(Some(i)) => i,
    };
    let snapshot = match &metadata.snapshots {
        None => { return Ok(None); },
        Some(all) => &all[place],
    };
    let manifest_list = match &snapshot.manifest_list {
        None => {
            return Err(unsupported(
                cat3(
                    "snapshot ",
                    decimal_i64(snapshot.snapshot_id).as_str(),
                    " has no manifest-list (legacy v1 layout); server-side planning requires a manifest list",
                ).as_str(),
            ));
        },
        Some(at) => at.clone(),
    };
    let own_schema = match request.use_snapshot_schema {
        Some(b) => b,
        None => false,
    };
    let schema_id: i32 = if own_schema {
        match snapshot.schema_id {
            Some(id) => id,
            None => metadata.current_schema_id,
        }
    } else {
        metadata.current_schema_id
    };
    match find_schema(&metadata.schemas, schema_id) {
        None => Err(ApiError::new(
            ErrorKind::InternalServer,
            cat3("schema ", decimal_i64(schema_id as i64).as_str(), " is missing from table metadata").as_str(),
        )),
        Some(schema) => Ok(Some(ScanTarget { snapshot_id: snapshot.snapshot_id, manifest_list, schema })),
    }
}

/// A scan that asks for a snapshot reads that snapshot, and one that asks for
/// none reads the current one.
pub proof fn scans_read_what_is_asked(metadata: TableMetadata, request: PlanTableScanRequest)
    requires
        scan_target_of(metadata, request) matches Ok(Some(t)),
    ensures
        scan_target_of(metadata, request)->Ok_0->0.snapshot_id == (match request.snapshot_id {
            Some(id) => id,
            None => metadata::current_of(metadata)->0,
        }),
{
    match request.snapshot_id {
        Some(id) => place_is_right(metadata::snapshots_of(metadata), id, 0),
        None => place_is_right(metadata::snapshots_of(metadata), metadata::current_of(metadata)->0, 0),
    }
}

/// Whether the schema at place `k` is the one to read a snapshot with: the
/// snapshot's own where it names one and `own` asks for it, else the current
/// one.
pub open spec fn is_schema_for(metadata: TableMetadata, own: bool, snapshot: Snapshot, k: int) -> bool {
    0 <= k < metadata.schemas@.len() && (match snapshot.schema_id {
        Some(id) => metadata.schemas@[k].schema_id == Some(if own { id } else { metadata.current_schema_id }),
        None => metadata.schemas@[k].schema_id == Some(metadata.current_schema_id),
    })
}

/// Whether the target is this snapshot, with the schema that is asked for.
pub open spec fn is_target(metadata: TableMetadata, own: bool, snapshot: Snapshot, t: ScanTarget) -> bool {
    &&& snapshot.snapshot_id == t.snapshot_id
    &&& snapshot.manifest_list == Some(t.manifest_list)
    &&& is_schema_for(metadata, own, snapshot, t.schema as int)
}

/// Whether a snapshot cannot be scanned: it has no manifest list, or its schema
/// is not kept.
pub open spec fn is_unreadable(metadata: TableMetadata, own: bool, snapshot: Snapshot, kind: ErrorKind) -> bool {
    ||| snapshot.manifest_list is None && kind == ErrorKind::UnsupportedOperation
    ||| kind == ErrorKind::InternalServer && forall|k: int| !#[trigger] is_schema_for(metadata, own, snapshot, k)
}

/// A scan reads the snapshot that is asked for, else the current one, from that
/// snapshot's own manifest list. It is bound to the current schema; only where
/// the request asks for the snapshot's schema is it bound to that one, if the
/// snapshot names one. There is nothing to read where no snapshot is asked for
/// and none is current. A scan is refused where it is incremental, or where the
/// snapshot, its manifest list or the schema is not there.
pub proof fn scans_are_bound_as_asked(metadata: TableMetadata, request: PlanTableScanRequest)
    ensures
        ({
            let all = metadata::snapshots_of(metadata);
            let own = request.use_snapshot_schema == Some(true);
            let incremental = request.start_snapshot_id is Some || request.end_snapshot_id is Some;
            let wanted = match request.snapshot_id {
                Some(id) => Some(id),
                None => match metadata.current_snapshot_id {
                    Some(id) => if id >= 0 {
                        Some(id)
                    } else {
                        None
                    },
                    None => None,
                },
            };
            match scan_target_of(metadata, request) {
                Ok(None) => !incremental && wanted is None,
                Ok(Some(t)) => !incremental && wanted == Some(t.snapshot_id) && exists|i: int|
                    0 <= i < all.len() && is_target(metadata, own, #[trigger] all[i], t),
                Err(e) => {
                    ||| incremental && (e.kind == ErrorKind::BadRequest || e.kind == ErrorKind::UnsupportedOperation)
                    ||| wanted matches Some(id) && (forall|i: int|
                        0 <= i < all.len() ==> (#[trigger] all[i]).snapshot_id != id) && e.kind == (
                    if request.snapshot_id is Some {
                        ErrorKind::BadRequest
                    } else {
                        ErrorKind::InternalServer
                    })
                    ||| wanted matches Some(id) && exists|i: int|
                        0 <= i < all.len() && (#[trigger] all[i]).snapshot_id == id && is_unreadable(
                            metadata,
                            own,
                            all[i],
                            e.kind,
                        )
                },
            }
        }),
{
    let all = metadata::snapshots_of(metadata);
    let own = request.use_snapshot_schema == Some(true);
    let wanted = match request.snapshot_id {
        Some(id) => Some(id),
        None => metadata::current_of(metadata),
    };
    let n: usize = metadata.schemas.len();
    if let Some(id) = wanted {
        place_is_right(all, id, 0);
        absent_place(all, id, 0);
        if let Some(i) = snapshot_place(all, id, 0) {
            let bound = scan_schema_id(metadata, request, all[i]);
            schema_place_is_right(metadata.schemas@, bound, 0);
            absent_schema(metadata.schemas@, bound, 0);
            if let Ok(Some(t)) = scan_target_of(metadata, request) {
                assert(is_target(metadata, own, all[i], t));
            }
            if let Err(e) = scan_target_of(metadata, request) {
                if scan_mode_error(request) is None {
                    assert(is_unreadable(metadata, own, all[i], e.kind));
                }
            }
        }
    }
}

/// Which snapshot is asked for has no part in the choice of the schema: two
/// scans of one table that do not ask for the snapshot's schema are bound to
/// the same one.
pub proof fn snapshots_do_not_choose_the_schema(
    metadata: TableMetadata,
    one: PlanTableScanRequest,
    other: PlanTableScanRequest,
)
    requires
        one.use_snapshot_schema != Some(true),
        other.use_snapshot_schema != Some(true),
        scan_target_of(metadata, one) matches Ok(Some(_)),
        scan_target_of(metadata, other) matches Ok(Some(_)),
    ensures
        scan_target_of(metadata, one)->Ok_0->0.schema == scan_target_of(metadata, other)->Ok_0->0.schema,
{
}

proof fn absent_place(all: Seq<Snapshot>, id: i64, from: int)
    requires
        0 <= from,
    ensures
        snapshot_place(all, id, from) is None ==> forall|i: int|
            from <= i < all.len() ==> (#[trigger] all[i]).snapshot_id != id,
    decreases all.len() - from,
{
    if from < all.len() && all[from].snapshot_id != id {
        absent_place(all, id, from + 1);
    }
}

/// A schema that was found is there, and has the id that was looked for.
pub proof fn schema_place_is_right(all: Seq<Schema>, id: i32, from: int)
    ensures
        schema_place(all, id, from) matches Some(k) ==> 0 <= k < all.len() && all[k].schema_id == Some(id),
    decreases all.len() - from,
{
    if 0 <= from < all.len() && all[from].schema_id != Some(id) {
        schema_place_is_right(all, id, from + 1);
    }
}

proof fn absent_schema(all: Seq<Schema>, id: i32, from: int)
    requires
        0 <= from,
    ensures
        schema_place(all, id, from) is None ==> forall|k: int|
            from <= k < all.len() ==> (#[trigger] all[k]).schema_id != Some(id),
    decreases all.len() - from,
{
    if from < all.len() && all[from].schema_id != Some(id) {
        absent_schema(all, id, from + 1);
    }
}

/// A snapshot that was found is there, and has the id that was looked for.
pub proof fn place_is_right(all: Seq<Snapshot>, id: i64, from: int)
    ensures
        snapshot_place(all, id, from) matches Some(i) ==> 0 <= i < all.len() && all[i].snapshot_id == id,
    decreases all.len() - from,
{
    if 0 <= from < all.len() && all[from].snapshot_id != id {
        place_is_right(all, id, from + 1);
    }
}

/// What the lookup of column names and the binding of the filter gave, against
/// the schema of the scan.
#[derive(Debug)]
pub struct ScanAnswers {
    /// The ids of the columns that were found, by name.
    pub fields: TextMap<i32>,
    /// Why the filter could not be bound, where it could not.
    pub filter_error: Option<String>,
}

/// The first name that no column has, from place `from` on.
pub open spec fn first_unknown(names: Seq<String>, fields: Map<Seq<char>, i32>, from: int) -> Option<Seq<char>>
    decreases names.len() - from,
{
    if from < 0 || from >= names.len() {
        None
    } else if !fields.dom().contains(names[from]@) {
        Some(names[from]@)
    } else {
        first_unknown(names, fields, from + 1)
    }
}

/// The names of an optional list.
pub open spec fn listed(names: Option<Vec<String>>) -> Seq<String> {
    match names {
        Some(v) => v@,
        None => seq![],
    }
}

/// The refusal of a request's columns or filter.
pub open spec fn fields_error(request: PlanTableScanRequest, answers: ScanAnswers) -> Option<error::ErrorView> {
    match first_unknown(listed(request.select), answers.fields@, 0) {
        Some(name) => Some(
            error::bad_request("select field "@ + text::quoted(name) + " does not exist in the scan schema"@),
        ),
        None => match first_unknown(listed(request.stats_fields), answers.fields@, 0) {
            Some(name) => Some(
                error::bad_request("stats field "@ + text::quoted(name) + " does not exist in the scan schema"@),
            ),
            None => match answers.filter_error {
                Some(detail) => Some(error::bad_request("invalid filter: "@ + detail@)),
                None => None,
            },
        },
    }
}

fn find_unknown<'a>(names: &'a Vec<String>, fields: &TextMap<i32>) -> (r: Option<&'a String>)
    ensures
        first_unknown(names@, fields@, 0) == (match r {
            Some(s) => Some(s@),
            None => None,
        }),
{
    let mut i: usize = 0;
    while i < names.len()
        invariant
            i <= names@.len(),
            first_unknown(names@, fields@, 0) == first_unknown(names@, fields@, i as int),
        decreases names@.len() - i,
    {
        if !fields.has(names[i].as_str()) {
            return Some(&names[i]);
        }
        i = i + 1;
    }
    None
}

fn unknown_of<'a>(names: &'a Option<Vec<String>>, fields: &TextMap<i32>) -> (r: Option<&'a String>)
    ensures
        first_unknown(listed(*names), fields@, 0) == (match r {
            Some(s) => Some(s@),
            None => None,
        }),
{
    match names {
        Some(v) => find_unknown(v, fields),
        None => None,
    }
}

/// Whether the list holds exactly the ids of the set, in ascending order.
pub open spec fn lists_ids(ids: Seq<i32>, set: Set<i32>) -> bool {
    &&& forall|i: int, j: int| 0 <= i < j < ids.len() ==> #[trigger] ids[i] < #[trigger] ids[j]
    &&& forall|id: i32| #[trigger] ids.contains(id) == set.contains(id)
}

/// The ids of the named columns; a name that no column has stands for nothing.
pub open spec fn ids_of(names: Seq<String>, fields: Map<Seq<char>, i32>) -> Set<i32>
    decreases names.len(),
{
    if names.len() == 0 {
        Set::empty()
    } else {
        let rest = ids_of(names.drop_last(), fields);
        if fields.dom().contains(names.last()@) {
            rest.insert(fields[names.last()@])
        } else {
            rest
        }
    }
}

fn put_in(ids: &mut Vec<i32>, id: i32, Ghost(set): Ghost<Set<i32>>)
    requires
        lists_ids(old(ids)@, set),
    ensures
        lists_ids(final(ids)@, set.insert(id)),
{
    let ghost before = ids@;
    let mut i: usize = 0;
    while i < ids.len() && ids[i] < id
        invariant
            i <= ids@.len(),
            ids@ == before,
            forall|j: int| 0 <= j < i ==> #[trigger] ids@[j] < id,
        decreases ids@.len() - i,
    {
        i = i + 1;
    }
    if i < ids.len() && ids[i] == id {
        assert(before.contains(before[i as int]));
        assert(set.insert(id) =~= set);
        return;
    }
    ids.insert(i, id);
    let ghost after = ids@;
    assert(after == before.insert(i as int, id));
    assert forall|k: i32| #[trigger] after.contains(k) == set.insert(id).contains(k) by {
        if after.contains(k) {
            let a = choose|a: int| 0 <= a < after.len() && after[a] == k;
            if a < i {
                assert(before[a] == k);
                assert(before.contains(k));
            } else if a > i {
                assert(before[a - 1] == k);
                assert(before.contains(k));
            }
        }
        if k == id {
            assert(after[i as int] == k);
        } else if set.contains(k) {
            assert(before.contains(k));
            let a = choose|a: int| 0 <= a < before.len() && before[a] == k;
            if a < i {
                assert(after[a] == k);
            } else {
                assert(after[a + 1] == k);
            }
        }
    }
}

/// The ids of the named columns, each once, in ascending order.
pub fn column_ids(names: &Vec<String>, fields: &TextMap<i32>) -> (r: Vec<i32>)
    ensures
        lists_ids(r@, ids_of(names@, fields@)),
{
    let mut ids: Vec<i32> = Vec::new();
    let mut i: usize = 0;
    assert(names@.take(0) =~= Seq::<String>::empty());
    while i < names.len()
        invariant
            i <= names@.len(),
            lists_ids(ids@, ids_of(names@.take(i as int), fields@)),
        decreases names@.len() - i,
    {
        assert(names@.take(i + 1).drop_last() =~= names@.take(i as int));
        match fields.get(names[i].as_str()) {
            Some(id) => {
                let ghost set = ids_of(names@.take(i as int), fields@);
                put_in(&mut ids, *id, Ghost(set));
            },
            None => {},
        }
        i = i + 1;
    }
    assert(names@.take(names@.len() as int) =~= names@);
    ids
}

/// The columns whose statistics a scan keeps; all where none are named.
pub open spec fn kept_stats(request: PlanTableScanRequest, answers: ScanAnswers) -> Option<Set<i32>> {
    match request.stats_fields {
        None => None,
        Some(names) => Some(ids_of(names@, answers.fields@)),
    }
}

/// Whether the list, where there is one, holds exactly the ids of the set, in
/// ascending order.
pub open spec fn lists_kept(keep: Option<Vec<i32>>, set: Option<Set<i32>>) -> bool {
    match set {
        None => keep is None,
        Some(ids) => keep matches Some(list) && lists_ids(list@, ids),
    }
}

/// Checks the columns and the filter of a request against the scan's schema,
/// and gives the columns whose statistics to keep; all where none are named.
pub fn resolve_scan(request: &PlanTableScanRequest, answers: &ScanAnswers) -> (r: Result<
    Option<Vec<i32>>,
    ApiError,
>)
    ensures
        match fields_error(*request, *answers) {
            Some(e) => error::fails_with(r, e),
            None => r matches Ok(keep) && lists_kept(keep, kept_stats(*request, *answers)),
        },
{
    match unknown_of(&request.select, &answers.fields) {
        Some(name) => {
            return Err(ApiError::bad_request(
                cat3("select field ", quote(name.as_str()).as_str(), " does not exist in the scan schema").as_str(),
            ));
        },
        None => {},
    }
    match unknown_of(&request.stats_fields, &answers.fields) {
        Some(name) => {
            return Err(ApiError::bad_request(
                cat3("stats field ", quote(name.as_str()).as_str(), " does not exist in the scan schema").as_str(),
            ));
        },
        None => {},
    }
    match &answers.filter_error {
        Some(detail) => {
            return Err(ApiError::bad_request(cat2("invalid filter: ", detail.as_str()).as_str()));
        },
        None => {},
    }
    match &request.stats_fields {
        None => Ok(None),
        Some(names) => Ok(Some(column_ids(names, &answers.fields))),
    }
}

// ---------------------------------------------------------------------------
// Policy
// ---------------------------------------------------------------------------

/// What policy says of a caller's scan of a table.
#[derive(Debug)]
pub struct ScanPolicy {
    /// Whether the scan is refused.
    pub denied: bool,
    /// Why.
    pub reason: String,
    /// The rows that stay, as a rendered expression.
    pub row_filter: Option<String>,
    /// The columns that are masked, by name.
    pub removed_columns: Vec<String>,
}

/// Whether a policy changes the result: it refuses, filters, or masks.
pub open spec fn is_effective(policy: ScanPolicy) -> bool {
    policy.denied || policy.row_filter is Some || policy.removed_columns@.len() > 0
}

impl ScanPolicy {
    /// Whether the policy changes the result.
    pub fn effective(&self) -> (r: bool)
        ensures
            r == is_effective(*self),
    {
        self.denied || self.row_filter.is_some() || self.removed_columns.len() > 0
    }
}

/// What policy takes away from a scan.
#[derive(Debug)]
pub struct ScanEnforcement {
    /// The rows that stay, as a rendered expression.
    pub row_policy: Option<String>,
    /// The ids of the masked columns, ascending.
    pub strip_fields: Vec<i32>,
}

/// Whether the enforcement is what the policy asks for, against the columns of
/// the scan schema.
pub open spec fn enforces(e: ScanEnforcement, policy: ScanPolicy, fields: Map<Seq<char>, i32>) -> bool {
    &&& e.row_policy == policy.row_filter
    &&& lists_ids(e.strip_fields@, ids_of(policy.removed_columns@, fields))
}

/// The refusal of a scan by policy.
pub open spec fn policy_denial(reason: Seq<char>) -> error::ErrorView {
    error::error_of(ErrorKind::Forbidden, "access denied by policy: "@ + reason)
}

/// Turns a policy into what it takes away from a scan. A masked column that
/// the scan's schema does not have is inert.
pub fn apply_enforcement(policy: &ScanPolicy, fields: &TextMap<i32>) -> (r: Result<ScanEnforcement, ApiError>)
    ensures
        if policy.denied {
            error::fails_with(r, policy_denial(policy.reason@))
        } else {
            r matches Ok(e) && enforces(e, *policy, fields@)
        },
{
    if policy.denied {
        return Err(ApiError::new(
            ErrorKind::Forbidden,
            cat2("access denied by policy: ", policy.reason.as_str()).as_str(),
        ));
    }
    Ok(
        ScanEnforcement {
            row_policy: metadata::copy_opt(&policy.row_filter),
            strip_fields: column_ids(&policy.removed_columns, fields),
        },
    )
}

/// A masked column that the scan's schema has is stripped.
pub proof fn masked_columns_are_stripped(
    e: ScanEnforcement,
    policy: ScanPolicy,
    fields: Map<Seq<char>, i32>,
    i: int,
)
    requires
        enforces(e, policy, fields),
        0 <= i < policy.removed_columns@.len(),
        fields.dom().contains(policy.removed_columns@[i]@),
    ensures
        e.strip_fields@.contains(fields[policy.removed_columns@[i]@]),
{
    id_is_listed(policy.removed_columns@, fields, i);
}

proof fn id_is_listed(names: Seq<String>, fields: Map<Seq<char>, i32>, i: int)
    requires
        0 <= i < names.len(),
        fields.dom().contains(names[i]@),
    ensures
        ids_of(names, fields).contains(fields[names[i]@]),
    decreases names.len(),
{
    if i + 1 < names.len() {
        id_is_listed(names.drop_last(), fields, i);
    }
}

// ---------------------------------------------------------------------------
// Planning a scan
// ---------------------------------------------------------------------------

/// One manifest, as its list describes it.
#[derive(Clone, Copy, Debug)]
pub struct ManifestEntry {
    /// Whether it holds data files, and not deletes.
    pub data: bool,
    /// How many files it added.
    pub added_files_count: Option<i32>,
    /// How many files it carries over.
    pub existing_files_count: Option<i32>,
}

/// How many live data files the manifests track; unknown where one of them
/// does not say.
pub open spec fn live_files(manifests: Seq<ManifestEntry>) -> Option<int>
    decreases manifests.len(),
{
    if manifests.len() == 0 {
        Some(0int)
    } else {
        let m = manifests.last();
        match live_files(manifests.drop_last()) {
            None => None,
            Some(n) => if !m.data {
                Some(n)
            } else {
                match (m.added_files_count, m.existing_files_count) {
                    (Some(added), Some(existing)) => Some(n + added + existing),
                    _ => None,
                }
            },
        }
    }
}

/// Whether a scan is planned at once: its live data files are known, and there
/// are few enough of them.
pub open spec fn plans_at_once(manifests: Seq<ManifestEntry>, sync_max: i64) -> bool {
    live_files(manifests) matches Some(n) && n <= sync_max
}

proof fn unknown_stays_unknown(manifests: Seq<ManifestEntry>, i: int)
    requires
        0 <= i <= manifests.len(),
        live_files(manifests.take(i)) is None,
    ensures
        live_files(manifests) is None,
    decreases manifests.len() - i,
{
    if i == manifests.len() {
        assert(manifests.take(i) =~= manifests);
    } else {
        assert(manifests.take(i + 1).drop_last() =~= manifests.take(i));
        unknown_stays_unknown(manifests, i + 1);
    }
}

/// Whether a scan is planned at once.
pub fn is_sync(manifests: &Vec<ManifestEntry>, sync_max: i64) -> (r: bool)
    ensures
        r == plans_at_once(manifests@, sync_max),
{
    let mut total: i128 = 0;
    let mut i: usize = 0;
    assert(manifests@.take(0) =~= Seq::<ManifestEntry>::empty());
    while i < manifests.len()
        invariant
            i <= manifests@.len(),
            live_files(manifests@.take(i as int)) == Some(total as int),
            -0x1_0000_0000 * i <= total <= 0x1_0000_0000 * i,
        decreases manifests@.len() - i,
    {
        let m = manifests[i];
        assert(manifests@.take(i + 1).drop_last() =~= manifests@.take(i as int));
        if m.data {
            match (m.added_files_count, m.existing_files_count) {
                (Some(added), Some(existing)) => {
                    total = total + added as i128 + existing as i128;
                },
                _ => {
                    proof {
                        unknown_stays_unknown(manifests@, i + 1);
                    }
                    return false;
                },
            }
        }
        i = i + 1;
    }
    assert(manifests@.take(manifests@.len() as int) =~= manifests@);
    total <= sync_max as i128
}

/// What came of reading the table's metadata.
#[derive(Debug)]
pub enum MetadataRead {
    /// Not read yet.
    Unread,
    /// The warehouse's storage cannot be used.
    NoStorage(ApiError),
    /// The file cannot be read.
    Unreadable(String),
    /// The metadata.
    Read(TableMetadata),
}

/// What came of reading the manifest list.
#[derive(Debug)]
pub enum ManifestRead {
    /// Not read yet.
    Unread,
    /// It cannot be read.
    Unreadable(String),
    /// The manifests.
    Read(Vec<ManifestEntry>),
}

/// What policy resolution gave for a scan.
#[derive(Debug)]
pub struct PolicyAnswer {
    /// The policy.
    pub policy: ScanPolicy,
    /// The ids of the masked columns that the scan schema has, by name.
    pub fields: TextMap<i32>,
}

/// What a planner is handed.
#[derive(Debug)]
pub struct ScanWork {
    /// What it reads.
    pub target: ScanTarget,
    /// The columns whose statistics stay, ascending; all where there is no
    /// list.
    pub stats: Option<Vec<i32>>,
    /// What policy takes away.
    pub enforcement: ScanEnforcement,
}

/// What a planner is handed, with the columns as sets.
pub struct WorkView {
    /// What it reads.
    pub target: ScanTarget,
    /// The columns whose statistics stay; all where there is no set.
    pub stats: Option<Set<i32>>,
    /// The rows that stay, as a rendered expression.
    pub row_policy: Option<String>,
    /// The masked columns.
    pub strip_fields: Set<i32>,
}

impl View for ScanWork {
    type V = WorkView;

    open spec fn view(&self) -> WorkView {
        WorkView {
            target: self.target,
            stats: match self.stats {
                None => None,
                Some(ids) => Some(ids@.to_set()),
            },
            row_policy: self.enforcement.row_policy,
            strip_fields: self.enforcement.strip_fields@.to_set(),
        }
    }
}

/// Whether ids stand in ascending order, each once.
pub open spec fn ascends(ids: Seq<i32>) -> bool {
    forall|i: int, j: int| 0 <= i < j < ids.len() ==> #[trigger] ids[i] < #[trigger] ids[j]
}

/// Whether the lists of a planner's work are in ascending order.
pub open spec fn is_ordered(work: ScanWork) -> bool {
    &&& work.stats matches Some(ids) ==> ascends(ids@)
    &&& ascends(work.enforcement.strip_fields@)
}

/// What a planner is handed: the target, the columns that the request wants
/// statistics of, and what the caller's policy takes away.
pub open spec fn work_of(
    target: ScanTarget,
    request: PlanTableScanRequest,
    answers: ScanAnswers,
    answer: PolicyAnswer,
) -> WorkView {
    WorkView {
        target,
        stats: kept_stats(request, answers),
        row_policy: answer.policy.row_filter,
        strip_fields: ids_of(answer.policy.removed_columns@, answer.fields@),
    }
}

fn scan_work(
    target: ScanTarget,
    stats: Option<Vec<i32>>,
    enforcement: ScanEnforcement,
    Ghost(request): Ghost<PlanTableScanRequest>,
    Ghost(answers): Ghost<ScanAnswers>,
    Ghost(answer): Ghost<PolicyAnswer>,
) -> (r: ScanWork)
    requires
        lists_kept(stats, kept_stats(request, answers)),
        enforces(enforcement, answer.policy, answer.fields@),
    ensures
        r@ == work_of(target, request, answers, answer),
        is_ordered(r),
{
    proof {
        if stats is Some {
            assert(stats->0@.to_set() =~= kept_stats(request, answers)->0);
        }
        assert(enforcement.strip_fields@.to_set() =~= ids_of(answer.policy.removed_columns@, answer.fields@));
    }
    ScanWork { target, stats, enforcement }
}

/// What is known so far of a scan to plan.
#[derive(Debug)]
pub struct PlanFacts {
    /// Whether planning is on.
    pub enabled: bool,
    /// The table and who asks.
    pub read: ReadFacts,
    /// How many bytes the body has.
    pub body_len: usize,
    /// What the body parses as, or why it does not parse.
    pub request: Result<PlanTableScanRequest, String>,
    /// The table's metadata.
    pub metadata: MetadataRead,
    /// What the lookup of columns gave.
    pub answers: Option<ScanAnswers>,
    /// What policy says.
    pub policy: Option<PolicyAnswer>,
    /// Whether the decision of policy was recorded.
    pub audited: bool,
    /// The manifest list.
    pub manifests: ManifestRead,
    /// How many live data files are planned at once.
    pub sync_max_data_files: i64,
    /// Whether a worker is free, where one was asked for.
    pub worker: Option<bool>,
}

/// The next step of planning a scan.
#[derive(Debug)]
pub enum PlanStep {
    /// Look up the warehouse of the prefix.
    AskWarehouse,
    /// Look up the table.
    AskTable,
    /// Ask whether the caller may read the table.
    AskRead,
    /// Read the metadata at this location.
    ReadMetadata(String),
    /// Look the request's columns up in the target's schema, and bind its
    /// filter.
    LookUp(ScanTarget),
    /// The table is empty: record a completed plan without tasks.
    CompleteEmpty,
    /// Resolve the policy of the scan.
    AskPolicy,
    /// Record the decision.
    Audit,
    /// Read the manifest list at this location.
    ReadManifests(String),
    /// Plan at once, and record the completed plan.
    PlanNow(ScanWork),
    /// Take a worker, if one is free.
    TakeWorker,
    /// Record a submitted plan, and hand it to the worker.
    Submit(ScanWork),
}

/// A step of planning a scan, with the columns as sets.
pub enum PlanStepView {
    /// Look up the warehouse.
    AskWarehouse,
    /// Look up the table.
    AskTable,
    /// Ask for the access.
    AskRead,
    /// Read the metadata.
    ReadMetadata(String),
    /// Look the columns up.
    LookUp(ScanTarget),
    /// Record a completed plan without tasks.
    CompleteEmpty,
    /// Resolve the policy.
    AskPolicy,
    /// Record the decision.
    Audit,
    /// Read the manifest list.
    ReadManifests(String),
    /// Plan at once.
    PlanNow(WorkView),
    /// Take a worker.
    TakeWorker,
    /// Hand a submitted plan to the worker.
    Submit(WorkView),
}

impl View for PlanStep {
    type V = PlanStepView;

    open spec fn view(&self) -> PlanStepView {
        match *self {
            PlanStep::AskWarehouse => PlanStepView::AskWarehouse,
            PlanStep::AskTable => PlanStepView::AskTable,
            PlanStep::AskRead => PlanStepView::AskRead,
            PlanStep::ReadMetadata(at) => PlanStepView::ReadMetadata(at),
            PlanStep::LookUp(target) => PlanStepView::LookUp(target),
            PlanStep::CompleteEmpty => PlanStepView::CompleteEmpty,
            PlanStep::AskPolicy => PlanStepView::AskPolicy,
            PlanStep::Audit => PlanStepView::Audit,
            PlanStep::ReadManifests(at) => PlanStepView::ReadManifests(at),
            PlanStep::PlanNow(work) => PlanStepView::PlanNow(work@),
            PlanStep::TakeWorker => PlanStepView::TakeWorker,
            PlanStep::Submit(work) => PlanStepView::Submit(work@),
        }
    }
}

/// Whether the lists of a step's work, where it has one, are in ascending
/// order.
pub open spec fn hands_ordered(step: PlanStep) -> bool {
    match step {
        PlanStep::PlanNow(work) => is_ordered(work),
        PlanStep::Submit(work) => is_ordered(work),
        _ => true,
    }
}

/// The refusal where planning is off.
pub open spec fn planning_off() -> error::ErrorView {
    unsupported_view("server-side scan planning is disabled"@)
}

/// The refusal where every worker is taken.
pub open spec fn no_worker() -> error::ErrorView {
    error::error_of(ErrorKind::ServiceUnavailable, "scan-planning capacity is exhausted; retry shortly"@)
}

/// The step once the scan's target and columns are settled: policy, its
/// record, then the size of the scan.
pub open spec fn sized_step(
    target: ScanTarget,
    request: PlanTableScanRequest,
    answers: ScanAnswers,
    facts: PlanFacts,
) -> Result<PlanStepView, error::ErrorView> {
    match facts.policy {
        None => Ok(PlanStepView::AskPolicy),
        Some(answer) => if is_effective(answer.policy) && !facts.audited {
            Ok(PlanStepView::Audit)
        } else if answer.policy.denied {
            Err(policy_denial(answer.policy.reason@))
        } else {
            match facts.manifests {
                ManifestRead::Unread => Ok(PlanStepView::ReadManifests(target.manifest_list)),
                ManifestRead::Unreadable(detail) => Err(error::error_of(ErrorKind::InternalServer, detail@)),
                ManifestRead::Read(manifests) => if plans_at_once(manifests@, facts.sync_max_data_files) {
                    Ok(PlanStepView::PlanNow(work_of(target, request, answers, answer)))
                } else {
                    match facts.worker {
                        None => Ok(PlanStepView::TakeWorker),
                        Some(false) => Err(no_worker()),
                        Some(true) => Ok(PlanStepView::Submit(work_of(target, request, answers, answer))),
                    }
                },
            }
        },
    }
}

/// The step once the metadata was read.
pub open spec fn scan_step(metadata: TableMetadata, request: PlanTableScanRequest, facts: PlanFacts) -> Result<
    PlanStepView,
    error::ErrorView,
> {
    match scan_target_of(metadata, request) {
        Err(e) => Err(e),
        Ok(None) => Ok(PlanStepView::CompleteEmpty),
        Ok(Some(target)) => match facts.answers {
            None => Ok(PlanStepView::LookUp(target)),
            Some(answers) => match fields_error(request, answers) {
                Some(e) => Err(e),
                None => sized_step(target, request, answers, facts),
            },
        },
    }
}

/// The step of planning a scan.
pub open spec fn plan_step(prefix: Seq<char>, raw: Seq<char>, name: Seq<char>, facts: PlanFacts) -> Result<
    PlanStepView,
    error::ErrorView,
> {
    if !facts.enabled {
        Err(planning_off())
    } else {
        match gate(prefix, raw, name, &facts.read) {
            Err(e) => Err(e),
            Ok(Gate::AskWarehouse) => Ok(PlanStepView::AskWarehouse),
            Ok(Gate::AskTable) => Ok(PlanStepView::AskTable),
            Ok(Gate::AskRead) => Ok(PlanStepView::AskRead),
            Ok(Gate::Open(record)) => match requested(facts.body_len, facts.request) {
                Err(e) => Err(e),
                Ok(request) => match record.metadata_location {
                    None => Err(tables::missing_table(namespaces::param_levels(raw), name)),
                    Some(at) => match facts.metadata {
                        MetadataRead::Unread => Ok(PlanStepView::ReadMetadata(at)),
                        MetadataRead::NoStorage(e) => Err(e@),
                        MetadataRead::Unreadable(detail) => Err(tables::unreadable_metadata(at@, detail@)),
                        MetadataRead::Read(metadata) => scan_step(metadata, request, facts),
                    },
                },
            },
        }
    }
}

fn copy_error(e: &ApiError) -> (r: ApiError)
    ensures
        r@ == e@,
{
    ApiError::new(e.kind, e.message.as_str())
}

fn sized(
    target: ScanTarget,
    stats: Option<Vec<i32>>,
    request: &PlanTableScanRequest,
    answers: &ScanAnswers,
    facts: &PlanFacts,
) -> (r: Result<PlanStep, ApiError>)
    requires
        lists_kept(stats, kept_stats(*request, *answers)),
    ensures
        error::viewed(r) == sized_step(target, *request, *answers, *facts),
        r matches Ok(step) ==> hands_ordered(step),
{
    let answer = match &facts.policy {
        None => { return Ok(PlanStep::AskPolicy); },
        Some(answer) => answer,
    };
    if answer.policy.effective() && !facts.audited {
        return Ok(PlanStep::Audit);
    }
    let enforcement = match apply_enforcement(&answer.policy, &answer.fields) {
        Err(e) => { return Err(e); },
        Ok(enforcement) => enforcement,
    };
    match &facts.manifests {
        ManifestRead::Unread => Ok(PlanStep::ReadManifests(target.manifest_list)),
        ManifestRead::Unreadable(detail) => Err(ApiError::new(ErrorKind::InternalServer, detail.as_str())),
        ManifestRead::Read(manifests) => if is_sync(manifests, facts.sync_max_data_files) {
            Ok(
                PlanStep::PlanNow(
                    scan_work(target, stats, enforcement, Ghost(*request), Ghost(*answers), Ghost(*answer)),
                ),
            )
        } else {
            match facts.worker {
                None => Ok(PlanStep::TakeWorker),
                Some(free) => if free {
                    Ok(
                        PlanStep::Submit(
                            scan_work(target, stats, enforcement, Ghost(*request), Ghost(*answers), Ghost(*answer)),
                        ),
                    )
                } else {
                    Err(ApiError::new(
                        ErrorKind::ServiceUnavailable,
                        "scan-planning capacity is exhausted; retry shortly",
                    ))
                },
            }
        },
    }
}

fn scanned(metadata: &TableMetadata, request: &PlanTableScanRequest, facts: &PlanFacts) -> (r: Result<
    PlanStep,
    ApiError,
>)
    ensures
        error::viewed(r) == scan_step(*metadata, *request, *facts),
        r matches Ok(step) ==> hands_ordered(step),
{
    let target = match scan_target(metadata, request) {
        Err(e) => { return Err(e); },
        Ok(None) => { return Ok(PlanStep::CompleteEmpty); },
        Ok(Some(target)) => target,
    };
    let answers = match &facts.answers {
        None => { return Ok(PlanStep::LookUp(target)); },
        Some(answers) => answers,
    };
    match resolve_scan(request, answers) {
        Err(e) => Err(e),
        Ok(stats) => sized(target, stats, request, answers, facts),
    }
}

/// Takes the next step of planning a scan.
pub fn plan_table_scan(prefix: &str, raw_namespace: &str, name: &str, facts: &PlanFacts) -> (r: Result<
    PlanStep,
    ApiError,
>)
    ensures
        error::viewed(r) == plan_step(prefix@, raw_namespace@, name@, *facts),
        r matches Ok(step) ==> hands_ordered(step),
{
    if !facts.enabled {
        return Err(unsupported("server-side scan planning is disabled"));
    }
    let record = match authorize_read(prefix, raw_namespace, name, &facts.read) {
        Err(e) => { return Err(e); },
        Ok(Gate::AskWarehouse) => { return Ok(PlanStep::AskWarehouse); },
        Ok(Gate::AskTable) => { return Ok(PlanStep::AskTable); },
        Ok(Gate::AskRead) => { return Ok(PlanStep::AskRead); },
        Ok(Gate::Open(record)) => record,
    };
    let plain = default_plan_request();
    let request = match parse_plan_request(facts.body_len, &facts.request, &plain) {
        Err(e) => { return Err(e); },
        Ok(request) => request,
    };
    let at = match &record.metadata_location {
        None => {
            return match decode_namespace_param(raw_namespace) {
                Err(e) => Err(e),
                Ok(levels) => Err(no_such_table(&levels, name)),
            };
        },
        Some(at) => at,
    };
    match &facts.metadata {
        MetadataRead::Unread => Ok(PlanStep::ReadMetadata(at.clone())),
        MetadataRead::NoStorage(e) => Err(copy_error(e)),
        MetadataRead::Unreadable(detail) => Err(current_metadata_unreadable(at.as_str(), detail.as_str())),
        MetadataRead::Read(metadata) => scanned(metadata, request, facts),
    }
}

/// Whether a step hands out tasks, now or later.
pub open spec fn hands_out(step: PlanStepView) -> bool {
    step is PlanNow || step is Submit
}

/// Tasks are handed out only to a caller who may read the table, of a scan
/// that policy does not refuse, and where policy changes the result only once
/// that was recorded.
pub proof fn tasks_are_guarded(prefix: Seq<char>, raw: Seq<char>, name: Seq<char>, facts: PlanFacts)
    requires
        plan_step(prefix, raw, name, facts) matches Ok(step) && hands_out(step),
    ensures
        facts.enabled,
        facts.read.access matches Some(access) && access is Granted,
        facts.policy matches Some(answer) && !answer.policy.denied && (is_effective(answer.policy)
            ==> facts.audited),
{
}

/// A scan that policy refuses is answered only once the refusal was recorded.
pub proof fn denials_are_recorded(
    target: ScanTarget,
    request: PlanTableScanRequest,
    answers: ScanAnswers,
    facts: PlanFacts,
)
    requires
        facts.policy matches Some(answer) && answer.policy.denied,
    ensures
        match sized_step(target, request, answers, facts) {
            Ok(step) => step is Audit && !facts.audited,
            Err(e) => e.kind == ErrorKind::Forbidden && facts.audited,
        },
{
}

/// A scan is planned at once exactly where its live data files are known and
/// few enough; any other goes to a worker.
pub proof fn large_scans_go_to_workers(
    target: ScanTarget,
    request: PlanTableScanRequest,
    answers: ScanAnswers,
    facts: PlanFacts,
)
    requires
        facts.policy matches Some(answer) && !answer.policy.denied && (is_effective(answer.policy)
            ==> facts.audited),
        facts.manifests is Read,
    ensures
        (sized_step(target, request, answers, facts) matches Ok(step) && step is PlanNow) == plans_at_once(
            facts.manifests->Read_0@,
            facts.sync_max_data_files,
        ),
{
}

/// The work of a step that hands out tasks.
pub open spec fn handed(step: PlanStepView) -> WorkView {
    match step {
        PlanStepView::PlanNow(work) => work,
        PlanStepView::Submit(work) => work,
        _ => arbitrary(),
    }
}

/// Whatever a plan hands out is filtered by the rows that the caller's policy
/// leaves, and without each column that it masks and the scan schema has,
/// whether it is planned at once or by a worker.
pub proof fn tasks_are_enforced(prefix: Seq<char>, raw: Seq<char>, name: Seq<char>, facts: PlanFacts, i: int)
    requires
        plan_step(prefix, raw, name, facts) matches Ok(step) && hands_out(step),
        0 <= i < facts.policy->0.policy.removed_columns@.len(),
        facts.policy->0.fields@.dom().contains(facts.policy->0.policy.removed_columns@[i]@),
    ensures
        facts.policy matches Some(answer) && ({
            let work = handed(plan_step(prefix, raw, name, facts)->Ok_0);
            &&& work.row_policy == answer.policy.row_filter
            &&& work.strip_fields.contains(answer.fields@[answer.policy.removed_columns@[i]@])
        }),
{
    let answer = facts.policy->0;
    id_is_listed(answer.policy.removed_columns@, answer.fields@, i);
}

// ---------------------------------------------------------------------------
// Results
// ---------------------------------------------------------------------------

/// A JSON value of a plan's answer.
#[derive(Debug)]
pub enum Json {
    /// A text.
    Text(String),
    /// A list of texts.
    Texts(Vec<String>),
    /// A number.
    Number(u64),
    /// An empty list.
    EmptyList,
    /// What went wrong.
    Failure(PlanFailure),
    /// A value that was rendered elsewhere.
    Raw(String),
}

/// What went wrong with a plan.
#[derive(Debug)]
pub struct PlanFailure {
    /// The message.
    pub message: String,
    /// The type of the error.
    pub kind: String,
    /// Its code.
    pub code: u16,
}

/// A payload of scan tasks, as it is stored.
#[derive(Debug)]
pub enum Payload {
    /// An object.
    Object(TextMap<Json>),
    /// Anything else.
    Other(Json),
}

/// The fields of a payload; one that is not an object stands for its tasks.
pub open spec fn payload_fields(payload: Payload) -> Map<Seq<char>, Json> {
    match payload {
        Payload::Object(map) => map@,
        Payload::Other(value) => Map::empty().insert("file-scan-tasks"@, value),
    }
}

/// A map with each of the pairs put in, in order.
pub open spec fn put_each(map: Map<Seq<char>, Json>, extra: Seq<(String, Json)>) -> Map<Seq<char>, Json>
    decreases extra.len(),
{
    if extra.len() == 0 {
        map
    } else {
        put_each(map, extra.drop_last()).insert(extra.last().0@, extra.last().1)
    }
}

/// Merges fields into a payload. A payload that is not an object is wrapped.
pub fn with_fields(payload: Payload, extra: Vec<(String, Json)>) -> (r: TextMap<Json>)
    ensures
        r@ == put_each(payload_fields(payload), extra@),
{
    let mut map: TextMap<Json> = match payload {
        Payload::Object(map) => map,
        Payload::Other(value) => TextMap::new().with("file-scan-tasks", value),
    };
    let ghost base = map@;
    let ghost all = extra@;
    assert(all.take(0) =~= Seq::<(String, Json)>::empty());
    for pair in it: extra
        invariant
            it.seq() == all,
            map@ == put_each(base, all.take(it.index())),
    {
        assert(all.take(it.index() + 1).drop_last() =~= all.take(it.index()));
        map = map.with(pair.0.as_str(), pair.1);
    }
    assert(all.take(all.len() as int) =~= all);
    map
}

/// One page of a plan's tasks.
#[derive(Debug)]
pub struct NewPlanPage {
    /// Its place.
    pub page_index: i32,
    /// The token that fetches it.
    pub page_token: String,
    /// Its tasks.
    pub payload: Payload,
}

/// Whether each payload has a page: numbered in their order, and with a token
/// of its own form.
pub open spec fn are_pages_of(pages: Seq<NewPlanPage>, payloads: Seq<Payload>) -> bool {
    &&& pages.len() == payloads.len()
    &&& forall|i: int|
        #![trigger pages[i]]
        0 <= i < pages.len() ==> {
            &&& pages[i].payload == payloads[i]
            &&& pages[i].page_index == (if i <= i32::MAX { i } else { i32::MAX as int })
            &&& namespaces::is_ulid_text(pages[i].page_token@)
        }
}

/// Makes a page of each payload, in order, each under a fresh token.
pub fn pages_for(payloads: Vec<Payload>) -> (r: Vec<NewPlanPage>)
    ensures
        are_pages_of(r@, payloads@),
{
    let mut out: Vec<NewPlanPage> = Vec::new();
    let ghost all = payloads@;
    for payload in it: payloads
        invariant
            it.seq() == all,
            out@.len() == it.index(),
            forall|i: int|
                #![trigger out@[i]]
                0 <= i < out@.len() ==> {
                    &&& out@[i].payload == all[i]
                    &&& out@[i].page_index == (if i <= i32::MAX { i } else { i32::MAX as int })
                    &&& namespaces::is_ulid_text(out@[i].page_token@)
                },
    {
        let n: usize = out.len();
        let page_index: i32 = if n <= 0x7fff_ffff { n as i32 } else { i32::MAX };
        out.push(NewPlanPage { page_index, page_token: fresh_ulid(), payload });
    }
    out
}

/// The payload of a plan without tasks.
pub open spec fn no_tasks() -> Map<Seq<char>, Json> {
    Map::empty().insert("file-scan-tasks"@, Json::EmptyList)
}

/// The one payload of an inline plan: its first page, or no tasks.
pub fn inline_payload(pages: Vec<Payload>) -> (r: Payload)
    ensures
        if pages@.len() == 0 {
            payload_fields(r) == no_tasks() && r is Object
        } else {
            r == pages@[0]
        },
{
    let mut pages = pages;
    if pages.len() == 0 {
        Payload::Object(TextMap::new().with("file-scan-tasks", Json::EmptyList))
    } else {
        pages.swap_remove(0)
    }
}

/// The answer to a scan that was planned at once.
pub fn respond_completed_inline(payload: Payload, plan_id: String) -> (r: TextMap<Json>)
    ensures
        exists|status: String|
            status@ == "completed"@ && r@ == payload_fields(payload).insert("status"@, Json::Text(status)).insert(
                "plan-id"@,
                Json::Text(plan_id),
            ),
{
    let status = "completed".to_owned();
    let mut extra: Vec<(String, Json)> = Vec::new();
    extra.push(("status".to_owned(), Json::Text(status)));
    extra.push(("plan-id".to_owned(), Json::Text(plan_id)));
    proof {
        reveal_with_fuel(put_each, 3);
        assert(extra@.drop_last().drop_last() =~= Seq::<(String, Json)>::empty());
        assert(extra@.drop_last().last() == extra@[0]);
    }
    with_fields(payload, extra)
}

/// The delete files that the tasks of a plan refer to, by index.
pub open spec fn deletes_of(files: Seq<Vec<usize>>) -> Set<usize>
    decreases files.len(),
{
    if files.len() == 0 {
        Set::empty()
    } else {
        deletes_of(files.drop_last()).union(files.last()@.to_set())
    }
}

fn see_all(seen: &mut Vec<usize>, more: &Vec<usize>)
    requires
        old(seen)@.no_duplicates(),
    ensures
        final(seen)@.no_duplicates(),
        final(seen)@.to_set() == old(seen)@.to_set().union(more@.to_set()),
{
    let ghost before = seen@;
    let mut i: usize = 0;
    assert(more@.take(0).to_set() =~= Set::<usize>::empty());
    assert(before.to_set().union(more@.take(0).to_set()) =~= before.to_set());
    while i < more.len()
        invariant
            i <= more@.len(),
            seen@.no_duplicates(),
            seen@.to_set() == before.to_set().union(more@.take(i as int).to_set()),
        decreases more@.len() - i,
    {
        let d: usize = more[i];
        let ghost now = seen@;
        assert(more@.take(i + 1) =~= more@.take(i as int).push(d));
        assert(more@.take(i + 1).to_set() =~= more@.take(i as int).to_set().insert(d)) by {
            let next = more@.take(i + 1);
            assert forall|k: usize| next.to_set().contains(k) == more@.take(i as int).to_set().insert(d).contains(
                k,
            ) by {
                if more@.take(i as int).contains(k) {
                    let a = choose|a: int| 0 <= a < i && more@.take(i as int)[a] == k;
                    assert(next[a] == k);
                }
                assert(next[i as int] == d);
                if next.contains(k) && k != d {
                    let a = choose|a: int| 0 <= a < next.len() && next[a] == k;
                    assert(more@.take(i as int)[a] == k);
                }
            }
        }
        if !holds_index(seen, d) {
            seen.push(d);
            assert(seen@.to_set() =~= now.to_set().insert(d)) by {
                assert forall|k: usize| seen@.to_set().contains(k) == now.to_set().insert(d).contains(k) by {
                    if now.contains(k) {
                        let a = choose|a: int| 0 <= a < now.len() && now[a] == k;
                        assert(seen@[a] == k);
                    }
                    assert(seen@[now.len() as int] == d);
                    if seen@.contains(k) && k != d {
                        let a = choose|a: int| 0 <= a < seen@.len() && seen@[a] == k;
                        assert(now[a] == k);
                    }
                }
            }
        } else {
            assert(now.to_set().contains(d));
        }
        assert(seen@.to_set() =~= before.to_set().union(more@.take(i + 1).to_set()));
        i = i + 1;
    }
    assert(more@.take(more@.len() as int) =~= more@);
}

fn holds_index(seen: &Vec<usize>, d: usize) -> (r: bool)
    ensures
        r == seen@.contains(d),
{
    let mut i: usize = 0;
    while i < seen.len()
        invariant
            i <= seen@.len(),
            forall|j: int| 0 <= j < i ==> #[trigger] seen@[j] != d,
        decreases seen@.len() - i,
    {
        if seen[i] == d {
            return true;
        }
        i = i + 1;
    }
    false
}

/// How many delete files the tasks of a plan refer to, each counted once.
pub fn referenced_deletes(files: &Vec<Vec<usize>>) -> (r: usize)
    ensures
        r == deletes_of(files@).len(),
{
    let mut seen: Vec<usize> = Vec::new();
    let mut i: usize = 0;
    assert(files@.take(0) =~= Seq::<Vec<usize>>::empty());
    assert(seen@.to_set() =~= Set::<usize>::empty());
    while i < files.len()
        invariant
            i <= files@.len(),
            seen@.no_duplicates(),
            seen@.to_set() == deletes_of(files@.take(i as int)),
        decreases files@.len() - i,
    {
        assert(files@.take(i + 1).drop_last() =~= files@.take(i as int));
        see_all(&mut seen, &files[i]);
        i = i + 1;
    }
    assert(files@.take(files@.len() as int) =~= files@);
    proof {
        seen@.unique_seq_to_set();
    }
    seen.len()
}

/// A summary that is an object, with the mode, the duration, the number of
/// pages and the cache's counters put in.
pub open spec fn is_enriched(
    r: Map<Seq<char>, Json>,
    summary: Map<Seq<char>, Json>,
    mode: String,
    duration_ms: u128,
    pages: Option<usize>,
    cache: Json,
) -> bool {
    let millis = if duration_ms <= u64::MAX { duration_ms as u64 } else { u64::MAX };
    let timed = summary.insert("mode"@, Json::Text(mode)).insert("duration_ms"@, Json::Number(millis));
    let paged = match pages {
        Some(n) => timed.insert("pages"@, Json::Number(n as u64)),
        None => timed,
    };
    r == paged.insert("cache"@, cache)
}

/// The summary of a plan, with how it was made put in.
pub fn enriched_summary(
    summary: TextMap<Json>,
    mode: String,
    duration_ms: u128,
    pages: Option<usize>,
    cache: Json,
) -> (r: TextMap<Json>)
    ensures
        is_enriched(r@, summary@, mode, duration_ms, pages, cache),
{
    let millis: u64 = if duration_ms <= u64::MAX as u128 { duration_ms as u64 } else { u64::MAX };
    let timed = summary.with("mode", Json::Text(mode)).with("duration_ms", Json::Number(millis));
    let paged = match pages {
        Some(n) => timed.with("pages", Json::Number(n as u64)),
        None => timed,
    };
    paged.with("cache", cache)
}

/// What a worker makes of the plan it worked on.
#[derive(Debug)]
pub enum JobEnd {
    /// Record the pages, unless the plan was given up meanwhile.
    Complete(Vec<NewPlanPage>),
    /// Record the failure.
    Fail(PlanFailure),
}

/// A failure of the planner.
pub open spec fn is_plan_failure(f: PlanFailure, message: Seq<char>) -> bool {
    f.message@ == message && f.kind@ == "InternalServerError"@ && f.code == 500
}

/// What the worker records: the pages of a plan that was made, or the failure.
pub fn finish_job(result: Result<Vec<Payload>, String>) -> (r: JobEnd)
    ensures
        match result {
            Ok(payloads) => r matches JobEnd::Complete(pages) && are_pages_of(pages@, payloads@),
            Err(message) => r matches JobEnd::Fail(f) && is_plan_failure(f, message@),
        },
{
    match result {
        Ok(payloads) => JobEnd::Complete(pages_for(payloads)),
        Err(message) => JobEnd::Fail(PlanFailure { message, kind: "InternalServerError".to_owned(), code: 500 }),
    }
}

// ---------------------------------------------------------------------------
// Fetching, cancelling
// ---------------------------------------------------------------------------

/// Where a plan stands.
#[derive(Clone, Copy, Debug, PartialEq, Eq, Structural)]
pub enum PlanStatus {
    /// A worker is on it.
    Submitted,
    /// It is done.
    Completed,
    /// It failed.
    Failed,
    /// It was cancelled.
    Cancelled,
}

/// How a plan's result is kept.
#[derive(Clone, Copy, Debug, PartialEq, Eq, Structural)]
pub enum ResultMode {
    /// It is not: it is made again on each fetch.
    Inline,
    /// As pages.
    Paged,
}

/// A plan, as the store keeps it.
#[derive(Debug)]
pub struct ScanPlan {
    /// Its id.
    pub id: String,
    /// The table that it scans.
    pub table_id: String,
    /// The snapshot that it reads; negative where the table was empty.
    pub snapshot_id: i64,
    /// Where it stands.
    pub status: PlanStatus,
    /// How its result is kept.
    pub result_mode: ResultMode,
}

/// The 404 of a plan.
pub open spec fn missing_plan(plan_id: Seq<char>) -> error::ErrorView {
    error::error_of(ErrorKind::NoSuchPlan, "plan "@ + text::quoted(plan_id) + " does not exist"@)
}

/// The 404 of a plan.
pub fn no_such_plan(plan_id: &str) -> (r: ApiError)
    ensures
        r@ == missing_plan(plan_id@),
{
    ApiError::new(ErrorKind::NoSuchPlan, cat3("plan ", quote(plan_id).as_str(), " does not exist").as_str())
}

/// The 404 of a plan task.
pub open spec fn missing_task() -> error::ErrorView {
    error::error_of(ErrorKind::NoSuchPlanTask, "the plan task does not exist"@)
}

/// The 404 of a plan task.
pub fn no_such_plan_task() -> (r: ApiError)
    ensures
        r@ == missing_task(),
{
    ApiError::new(ErrorKind::NoSuchPlanTask, "the plan task does not exist")
}

/// The plan of an id, where it is a plan of that table.
pub open spec fn plan_of<'a>(record: TableRecord, plan_id: Seq<char>, found: Option<&'a ScanPlan>) -> Result<
    &'a ScanPlan,
    error::ErrorView,
> {
    match found {
        None => Err(missing_plan(plan_id)),
        Some(plan) => if plan.table_id@ == record.id@ {
            Ok(plan)
        } else {
            Err(missing_plan(plan_id))
        },
    }
}

/// The plan of an id, where it is a plan of that table; a plan of another
/// table is as good as none.
pub fn plan_for_table<'a>(record: &TableRecord, plan_id: &str, found: Option<&'a ScanPlan>) -> (r: Result<
    &'a ScanPlan,
    ApiError,
>)
    ensures
        error::outcome(r) == plan_of(*record, plan_id@, found),
{
    match found {
        None => Err(no_such_plan(plan_id)),
        Some(plan) => if same(plan.table_id.as_str(), record.id.as_str()) {
            Ok(plan)
        } else {
            Err(no_such_plan(plan_id))
        },
    }
}

/// What is known so far of a plan that a route addresses.
#[derive(Debug)]
pub struct FetchFacts {
    /// Whether planning is on.
    pub enabled: bool,
    /// The table and who asks.
    pub read: ReadFacts,
    /// The plan of the path's id.
    pub plan: Found<ScanPlan>,
}

/// The next step of a route that addresses a plan.
#[derive(Debug)]
pub enum FetchStep<'a> {
    /// Look up the warehouse of the prefix.
    AskWarehouse,
    /// Look up the table.
    AskTable,
    /// Ask whether the caller may read the table.
    AskRead,
    /// Look up the plan.
    AskPlan,
    /// The caller may have this plan.
    Plan(&'a ScanPlan),
}

/// The step of a route that addresses a plan: planning is on, the caller may
/// read the table, and the plan is one of the table's.
pub open spec fn fetch_step<'a>(
    prefix: Seq<char>,
    raw: Seq<char>,
    name: Seq<char>,
    plan_id: Seq<char>,
    facts: &'a FetchFacts,
) -> Result<FetchStep<'a>, error::ErrorView> {
    if !facts.enabled {
        Err(planning_off())
    } else {
        match gate(prefix, raw, name, &facts.read) {
            Err(e) => Err(e),
            Ok(Gate::AskWarehouse) => Ok(FetchStep::AskWarehouse),
            Ok(Gate::AskTable) => Ok(FetchStep::AskTable),
            Ok(Gate::AskRead) => Ok(FetchStep::AskRead),
            Ok(Gate::Open(record)) => match &facts.plan {
                Found::Unasked => Ok(FetchStep::AskPlan),
                Found::Missing => Err(missing_plan(plan_id)),
                Found::Is(plan) => match plan_of(*record, plan_id, Some(plan)) {
                    Err(e) => Err(e),
                    Ok(plan) => Ok(FetchStep::Plan(plan)),
                },
            },
        }
    }
}

/// Takes the next step of a route that addresses a plan: a fetch of its
/// result, or its cancellation.
pub fn fetch_planning_result<'a>(
    prefix: &str,
    raw_namespace: &str,
    name: &str,
    plan_id: &str,
    facts: &'a FetchFacts,
) -> (r: Result<FetchStep<'a>, ApiError>)
    ensures
        error::outcome(r) == fetch_step(prefix@, raw_namespace@, name@, plan_id@, facts),
{
    if !facts.enabled {
        return Err(unsupported("server-side scan planning is disabled"));
    }
    let record = match authorize_read(prefix, raw_namespace, name, &facts.read) {
        Err(e) => { return Err(e); },
        Ok(Gate::AskWarehouse) => { return Ok(FetchStep::AskWarehouse); },
        Ok(Gate::AskTable) => { return Ok(FetchStep::AskTable); },
        Ok(Gate::AskRead) => { return Ok(FetchStep::AskRead); },
        Ok(Gate::Open(record)) => record,
    };
    match &facts.plan {
        Found::Unasked => Ok(FetchStep::AskPlan),
        Found::Missing => Err(no_such_plan(plan_id)),
        Found::Is(plan) => match plan_for_table(record, plan_id, Some(plan)) {
            Err(e) => Err(e),
            Ok(plan) => Ok(FetchStep::Plan(plan)),
        },
    }
}

/// A plan is fetched or cancelled only by a caller who may read its table, and
/// only under its own table's path: knowing its id is not enough.
pub proof fn plans_stay_with_their_table<'a>(
    prefix: Seq<char>,
    raw: Seq<char>,
    name: Seq<char>,
    plan_id: Seq<char>,
    facts: &'a FetchFacts,
)
    requires
        fetch_step(prefix, raw, name, plan_id, facts) matches Ok(step) && step is Plan,
    ensures
        facts.read.access matches Some(access) && access is Granted,
        facts.read.table matches Found::Is(record) && (facts.plan matches Found::Is(plan) && plan.table_id@
            == record.id@),
{
}

/// How a plan's result is answered.
#[derive(Clone, Copy, Debug, PartialEq, Eq, Structural)]
pub enum ResultForm {
    /// Only the status `submitted`.
    Submitted,
    /// Only the status `cancelled`.
    Cancelled,
    /// The recorded failure, with the status `failed`.
    Failed,
    /// The tasks, made again, with the status `completed`.
    Again,
    /// The tokens of the pages, with the status `completed`.
    Tokens,
}

/// How the result of a plan is answered.
pub open spec fn result_form_of(plan: ScanPlan) -> ResultForm {
    match plan.status {
        PlanStatus::Submitted => ResultForm::Submitted,
        PlanStatus::Cancelled => ResultForm::Cancelled,
        PlanStatus::Failed => ResultForm::Failed,
        PlanStatus::Completed => match plan.result_mode {
            ResultMode::Inline => ResultForm::Again,
            ResultMode::Paged => ResultForm::Tokens,
        },
    }
}

/// How the result of a plan is answered.
pub fn result_form(plan: &ScanPlan) -> (r: ResultForm)
    ensures
        r == result_form_of(*plan),
{
    match plan.status {
        PlanStatus::Submitted => ResultForm::Submitted,
        PlanStatus::Cancelled => ResultForm::Cancelled,
        PlanStatus::Failed => ResultForm::Failed,
        PlanStatus::Completed => match plan.result_mode {
            ResultMode::Inline => ResultForm::Again,
            ResultMode::Paged => ResultForm::Tokens,
        },
    }
}

/// Whether the fields are those of a plan answer of the given status.
pub open spec fn has_status(r: Map<Seq<char>, Json>, base: Map<Seq<char>, Json>, status: Seq<char>) -> bool {
    exists|text: String| text@ == status && r == #[trigger] base.insert("status"@, Json::Text(text))
}

fn status_field(base: TextMap<Json>, status: &str) -> (r: TextMap<Json>)
    ensures
        has_status(r@, base@, status@),
{
    let text = status.to_owned();
    let r = base.with("status", Json::Text(text));
    assert(r@ == base@.insert("status"@, Json::Text(text)));
    r
}

/// The answer for a plan that failed: the recorded failure, or a plain one
/// where none was recorded.
pub fn failed_answer(recorded: Option<Payload>) -> (r: TextMap<Json>)
    ensures
        match recorded {
            Some(payload) => has_status(r@, payload_fields(payload), "failed"@),
            None => exists|f: PlanFailure|
                is_plan_failure(f, "planning failed"@) && has_status(
                    r@,
                    #[trigger] Map::empty().insert("error"@, Json::Failure(f)),
                    "failed"@,
                ),
        },
{
    match recorded {
        Some(payload) => {
            let none: Vec<(String, Json)> = Vec::new();
            status_field(with_fields(payload, none), "failed")
        },
        None => {
            let f = PlanFailure {
                message: "planning failed".to_owned(),
                kind: "InternalServerError".to_owned(),
                code: 500,
            };
            let base = TextMap::new().with("error", Json::Failure(f));
            assert(base@ == Map::<Seq<char>, Json>::empty().insert("error"@, Json::Failure(f)));
            status_field(base, "failed")
        },
    }
}

/// The answer for a plan whose tasks were made again.
pub fn completed_answer(payload: Payload) -> (r: TextMap<Json>)
    ensures
        has_status(r@, payload_fields(payload), "completed"@),
{
    let none: Vec<(String, Json)> = Vec::new();
    status_field(with_fields(payload, none), "completed")
}

/// The answer for a plan that is kept as pages.
pub fn tokens_answer(tokens: Vec<String>) -> (r: TextMap<Json>)
    ensures
        has_status(r@, Map::empty().insert("plan-tasks"@, Json::Texts(tokens)), "completed"@),
{
    status_field(TextMap::new().with("plan-tasks", Json::Texts(tokens)), "completed")
}

/// Says what came of a cancellation: the plan is gone where the store did not
/// find it any more.
pub fn cancel_planning(plan_id: &str, cancelled: bool) -> (r: Result<(), ApiError>)
    ensures
        if cancelled {
            r is Ok
        } else {
            error::fails_with(r, missing_plan(plan_id@))
        },
{
    if cancelled {
        Ok(())
    } else {
        Err(no_such_plan(plan_id))
    }
}

/// What is known so far of a page of scan tasks that a route addresses.
#[derive(Debug)]
pub struct TaskFacts {
    /// Whether planning is on.
    pub enabled: bool,
    /// The table and who asks.
    pub read: ReadFacts,
    /// The token of the body, or what is wrong with the body.
    pub request: Result<String, String>,
    /// The plan whose page the token names.
    pub page: Found<ScanPlan>,
}

/// The next step of a fetch of scan tasks.
#[derive(Debug)]
pub enum TaskStep<'a> {
    /// Look up the warehouse of the prefix.
    AskWarehouse,
    /// Look up the table.
    AskTable,
    /// Ask whether the caller may read the table.
    AskRead,
    /// Look up the page of this token, with its plan.
    AskPage(&'a String),
    /// Hand the page out.
    HandOut,
}

/// Whether a page may be handed out under a table's path: its plan is one of
/// the table's, and is done.
pub open spec fn may_hand_out(record: TableRecord, plan: ScanPlan) -> bool {
    plan.table_id@ == record.id@ && plan.status == PlanStatus::Completed
}

/// The step of a fetch of scan tasks: planning is on, the caller may read the
/// table, the body is one, and the page belongs to a finished plan of the table.
pub open spec fn task_step<'a>(prefix: Seq<char>, raw: Seq<char>, name: Seq<char>, facts: &'a TaskFacts) -> Result<
    TaskStep<'a>,
    error::ErrorView,
> {
    if !facts.enabled {
        Err(planning_off())
    } else {
        match gate(prefix, raw, name, &facts.read) {
            Err(e) => Err(e),
            Ok(Gate::AskWarehouse) => Ok(TaskStep::AskWarehouse),
            Ok(Gate::AskTable) => Ok(TaskStep::AskTable),
            Ok(Gate::AskRead) => Ok(TaskStep::AskRead),
            Ok(Gate::Open(record)) => match &facts.request {
                Err(detail) => Err(error::bad_request("invalid fetchScanTasks request body: "@ + detail@)),
                Ok(token) => match &facts.page {
                    Found::Unasked => Ok(TaskStep::AskPage(token)),
                    Found::Missing => Err(missing_task()),
                    Found::Is(plan) => if may_hand_out(*record, *plan) {
                        Ok(TaskStep::HandOut)
                    } else {
                        Err(missing_task())
                    },
                },
            },
        }
    }
}

/// Takes the next step of a fetch of scan tasks.
pub fn fetch_scan_tasks<'a>(prefix: &str, raw_namespace: &str, name: &str, facts: &'a TaskFacts) -> (r: Result<
    TaskStep<'a>,
    ApiError,
>)
    ensures
        error::outcome(r) == task_step(prefix@, raw_namespace@, name@, facts),
{
    if !facts.enabled {
        return Err(unsupported("server-side scan planning is disabled"));
    }
    let record = match authorize_read(prefix, raw_namespace, name, &facts.read) {
        Err(e) => { return Err(e); },
        Ok(Gate::AskWarehouse) => { return Ok(TaskStep::AskWarehouse); },
        Ok(Gate::AskTable) => { return Ok(TaskStep::AskTable); },
        Ok(Gate::AskRead) => { return Ok(TaskStep::AskRead); },
        Ok(Gate::Open(record)) => record,
    };
    let token = match &facts.request {
        Err(detail) => {
            return Err(ApiError::bad_request(
                cat2("invalid fetchScanTasks request body: ", detail.as_str()).as_str(),
            ));
        },
        Ok(token) => token,
    };
    match &facts.page {
        Found::Unasked => Ok(TaskStep::AskPage(token)),
        Found::Missing => Err(no_such_plan_task()),
        Found::Is(plan) => if same(plan.table_id.as_str(), record.id.as_str()) && plan.status == PlanStatus::Completed {
            Ok(TaskStep::HandOut)
        } else {
            Err(no_such_plan_task())
        },
    }
}

/// A page of scan tasks is handed out only to a caller who may read the table
/// of the path, and only where it belongs to a finished plan of that table:
/// knowing a token is not enough.
pub proof fn pages_stay_with_their_table<'a>(prefix: Seq<char>, raw: Seq<char>, name: Seq<char>, facts: &'a TaskFacts)
    requires
        task_step(prefix, raw, name, facts) matches Ok(step) && step is HandOut,
    ensures
        facts.read.access matches Some(access) && access is Granted,
        facts.read.table matches Found::Is(record) && (facts.page matches Found::Is(plan) && plan.table_id@
            == record.id@ && plan.status == PlanStatus::Completed),
{
}

// ---------------------------------------------------------------------------
// Making an inline plan again
// ---------------------------------------------------------------------------

/// What is known so far of an inline plan to make again.
#[derive(Debug)]
pub struct AgainFacts {
    /// The stored request, or why it could not be parsed.
    pub request: Result<PlanTableScanRequest, String>,
    /// The table's metadata.
    pub metadata: MetadataRead,
    /// What the lookup of columns gave.
    pub answers: Option<ScanAnswers>,
    /// What policy says of the caller who fetches.
    pub policy: Option<PolicyAnswer>,
    /// What the planner gave.
    pub planned: Option<Result<(), String>>,
}

/// The next step of making an inline plan again.
#[derive(Debug)]
pub enum AgainStep {
    /// The table was empty: answer with no tasks.
    Empty,
    /// Read the metadata at this location.
    ReadMetadata(String),
    /// Look the request's columns up in the target's schema, and bind its
    /// filter.
    LookUp(ScanTarget),
    /// Resolve the policy of the caller who fetches.
    AskPolicy,
    /// Plan the target, under the policy of the caller who fetches.
    Plan(ScanWork),
    /// Answer with the planner's tasks.
    Done,
}

/// A step of making an inline plan again, with the columns as sets.
pub enum AgainStepView {
    /// Answer with no tasks.
    Empty,
    /// Read the metadata.
    ReadMetadata(String),
    /// Look the columns up.
    LookUp(ScanTarget),
    /// Resolve the policy.
    AskPolicy,
    /// Plan the target.
    Plan(WorkView),
    /// Answer with the planner's tasks.
    Done,
}

impl View for AgainStep {
    type V = AgainStepView;

    open spec fn view(&self) -> AgainStepView {
        match *self {
            AgainStep::Empty => AgainStepView::Empty,
            AgainStep::ReadMetadata(at) => AgainStepView::ReadMetadata(at),
            AgainStep::LookUp(target) => AgainStepView::LookUp(target),
            AgainStep::AskPolicy => AgainStepView::AskPolicy,
            AgainStep::Plan(work) => AgainStepView::Plan(work@),
            AgainStep::Done => AgainStepView::Done,
        }
    }
}

/// A request with its snapshot pinned.
pub open spec fn pinned(request: PlanTableScanRequest, snapshot_id: i64) -> PlanTableScanRequest {
    PlanTableScanRequest { snapshot_id: Some(snapshot_id), ..request }
}

/// The step of making an inline plan again, once its snapshot was found.
pub open spec fn replan_step(
    plan: ScanPlan,
    request: PlanTableScanRequest,
    metadata: TableMetadata,
    facts: AgainFacts,
) -> Result<AgainStepView, error::ErrorView> {
    match scan_target_of(metadata, request) {
        Err(e) => Err(e),
        Ok(None) => Err(missing_plan(plan.id@)),
        Ok(Some(target)) => match facts.answers {
            None => Ok(AgainStepView::LookUp(target)),
            Some(answers) => match fields_error(request, answers) {
                Some(e) => Err(e),
                None => match facts.policy {
                    None => Ok(AgainStepView::AskPolicy),
                    Some(answer) => if answer.policy.denied {
                        Err(policy_denial(answer.policy.reason@))
                    } else {
                        match facts.planned {
                            None => Ok(AgainStepView::Plan(work_of(target, request, answers, answer))),
                            Some(Err(detail)) => Err(error::error_of(ErrorKind::InternalServer, detail@)),
                            Some(Ok(_)) => Ok(AgainStepView::Done),
                        }
                    },
                },
            },
        },
    }
}

/// The step of making an inline plan again: the stored request, pinned to the
/// stored snapshot, under the policy of the caller who fetches. Where the
/// snapshot has left the table's metadata, the plan is gone.
pub open spec fn again_step(plan: ScanPlan, record: TableRecord, facts: AgainFacts) -> Result<
    AgainStepView,
    error::ErrorView,
> {
    if plan.snapshot_id < 0 {
        Ok(AgainStepView::Empty)
    } else {
        match facts.request {
            Err(detail) => Err(
                error::error_of(ErrorKind::InternalServer, "stored plan request is unreadable: "@ + detail@),
            ),
            Ok(stored) => match record.metadata_location {
                None => Err(missing_plan(plan.id@)),
                Some(at) => match facts.metadata {
                    MetadataRead::Unread => Ok(AgainStepView::ReadMetadata(at)),
                    MetadataRead::NoStorage(e) => Err(e@),
                    MetadataRead::Unreadable(detail) => Err(tables::unreadable_metadata(at@, detail@)),
                    MetadataRead::Read(metadata) => {
                        if snapshot_place(metadata::snapshots_of(metadata), plan.snapshot_id, 0) is None {
                            Err(missing_plan(plan.id@))
                        } else {
                            replan_step(plan, pinned(stored, plan.snapshot_id), metadata, facts)
                        }
                    },
                },
            },
        }
    }
}

fn copy_list(names: &Option<Vec<String>>) -> (r: Option<Vec<String>>)
    ensures
        r is Some == names is Some,
        listed(r) == listed(*names),
{
    match names {
        None => None,
        Some(v) => {
            let mut out: Vec<String> = Vec::new();
            let mut i: usize = 0;
            while i < v.len()
                invariant
                    i <= v@.len(),
                    out@ == v@.take(i as int),
                decreases v@.len() - i,
            {
                out.push(v[i].clone());
                assert(v@.take(i as int).push(v@[i as int]) =~= v@.take(i + 1));
                i = i + 1;
            }
            assert(v@.take(v@.len() as int) =~= v@);
            Some(out)
        },
    }
}

fn pin(request: &PlanTableScanRequest, snapshot_id: i64) -> (r: PlanTableScanRequest)
    ensures
        r.snapshot_id == Some(snapshot_id),
        listed(r.select) == listed(request.select),
        listed(r.stats_fields) == listed(request.stats_fields),
        r.stats_fields is Some == request.stats_fields is Some,
        r.case_sensitive == request.case_sensitive,
        r.use_snapshot_schema == request.use_snapshot_schema,
        r.start_snapshot_id == request.start_snapshot_id,
        r.end_snapshot_id == request.end_snapshot_id,
{
    PlanTableScanRequest {
        snapshot_id: Some(snapshot_id),
        select: copy_list(&request.select),
        case_sensitive: request.case_sensitive,
        use_snapshot_schema: request.use_snapshot_schema,
        start_snapshot_id: request.start_snapshot_id,
        end_snapshot_id: request.end_snapshot_id,
        stats_fields: copy_list(&request.stats_fields),
    }
}

/// Takes the next step of making an inline plan again.
pub fn recompute_inline_payload(plan: &ScanPlan, record: &TableRecord, facts: &AgainFacts) -> (r: Result<
    AgainStep,
    ApiError,
>)
    ensures
        error::viewed(r) == again_step(*plan, *record, *facts),
        r matches Ok(AgainStep::Plan(work)) ==> is_ordered(work),
{
    if plan.snapshot_id < 0 {
        return Ok(AgainStep::Empty);
    }
    let stored = match &facts.request {
        Err(detail) => {
            return Err(ApiError::new(
                ErrorKind::InternalServer,
                cat2("stored plan request is unreadable: ", detail.as_str()).as_str(),
            ));
        },
        Ok(stored) => stored,
    };
    let request = pin(stored, plan.snapshot_id);
    let at = match &record.metadata_location {
        None => { return Err(no_such_plan(plan.id.as_str())); },
        Some(at) => at,
    };
    let metadata = match &facts.metadata {
        MetadataRead::Unread => { return Ok(AgainStep::ReadMetadata(at.clone())); },
        MetadataRead::NoStorage(e) => { return Err(copy_error(e)); },
        MetadataRead::Unreadable(detail) => {
            return Err(current_metadata_unreadable(at.as_str(), detail.as_str()));
        },
        MetadataRead::Read(metadata) => metadata,
    };
    if find_snapshot(metadata, plan.snapshot_id).is_none() {
        return Err(no_such_plan(plan.id.as_str()));
    }
    assert(scan_target_of(*metadata, request) == scan_target_of(*metadata, pinned(*stored, plan.snapshot_id)));
    let target = match scan_target(metadata, &request) {
        Err(e) => { return Err(e); },
        Ok(None) => { return Err(no_such_plan(plan.id.as_str())); },
        Ok(Some(target)) => target,
    };
    let answers = match &facts.answers {
        None => { return Ok(AgainStep::LookUp(target)); },
        Some(answers) => answers,
    };
    assert(fields_error(request, *answers) == fields_error(pinned(*stored, plan.snapshot_id), *answers));
    assert(kept_stats(request, *answers) == kept_stats(pinned(*stored, plan.snapshot_id), *answers));
    let stats = match resolve_scan(&request, answers) {
        Err(e) => { return Err(e); },
        Ok(stats) => stats,
    };
    let answer = match &facts.policy {
        None => { return Ok(AgainStep::AskPolicy); },
        Some(answer) => answer,
    };
    let enforcement = match apply_enforcement(&answer.policy, &answer.fields) {
        Err(e) => { return Err(e); },
        Ok(enforcement) => enforcement,
    };
    match &facts.planned {
        None => Ok(
            AgainStep::Plan(
                scan_work(
                    target,
                    stats,
                    enforcement,
                    Ghost(pinned(*stored, plan.snapshot_id)),
                    Ghost(*answers),
                    Ghost(*answer),
                ),
            ),
        ),
        Some(Err(detail)) => Err(ApiError::new(ErrorKind::InternalServer, detail.as_str())),
        Some(Ok(_)) => Ok(AgainStep::Done),
    }
}

/// An inline plan whose snapshot has left the table's metadata is gone: asking
/// for it again is a 404, whatever was asked for.
pub proof fn expired_plans_are_gone(plan: ScanPlan, record: TableRecord, facts: AgainFacts, metadata: TableMetadata)
    requires
        plan.snapshot_id >= 0,
        facts.request is Ok,
        record.metadata_location is Some,
        facts.metadata == MetadataRead::Read(metadata),
        forall|i: int|
            0 <= i < metadata::snapshots_of(metadata).len() ==> (#[trigger] metadata::snapshots_of(
                metadata,
            )[i]).snapshot_id != plan.snapshot_id,
    ensures
        again_step(plan, record, facts) == Err::<AgainStepView, error::ErrorView>(missing_plan(plan.id@)),
{
    no_place(metadata::snapshots_of(metadata), plan.snapshot_id, 0);
}

proof fn no_place(snapshots: Seq<metadata::Snapshot>, id: i64, from: int)
    requires
        0 <= from,
        forall|i: int| 0 <= i < snapshots.len() ==> (#[trigger] snapshots[i]).snapshot_id != id,
    ensures
        snapshot_place(snapshots, id, from) is None,
    decreases snapshots.len() - from,
{
    if from < snapshots.len() {
        no_place(snapshots, id, from + 1);
    }
}

/// A plan that is made again reads the snapshot it was made for, only where
/// policy does not refuse the caller who fetches, and under that caller's row
/// filter and masks.
pub proof fn replans_are_pinned_and_guarded(plan: ScanPlan, record: TableRecord, facts: AgainFacts)
    requires
        again_step(plan, record, facts) matches Ok(step) && (step is Plan || step is Done),
    ensures
        facts.policy matches Some(answer) && !answer.policy.denied,
        again_step(plan, record, facts) matches Ok(AgainStepView::Plan(work)) ==> {
            &&& work.target.snapshot_id == plan.snapshot_id
            &&& work.row_policy == facts.policy->0.policy.row_filter
            &&& work.strip_fields == ids_of(facts.policy->0.policy.removed_columns@, facts.policy->0.fields@)
        },
{
    let request = pinned(facts.request->Ok_0, plan.snapshot_id);
    scans_read_what_is_asked(facts.metadata->Read_0, request);
}

// ---------------------------------------------------------------------------
// What the planning routes do
// ---------------------------------------------------------------------------

/// A read of a table is open exactly where its warehouse, its path and the table
/// are good and the caller may read it; what is asked for on the way was not
/// answered yet.
pub proof fn reads_are_opened(prefix: Seq<char>, raw: Seq<char>, name: Seq<char>, facts: &ReadFacts)
    ensures
        ({
            let good_path = namespaces::good_levels(namespaces::param_levels(raw));
            match gate(prefix, raw, name, facts) {
                Ok(Gate::AskWarehouse) => facts.warehouse is Unasked,
                Ok(Gate::AskTable) => facts.warehouse is Is && good_path && facts.table is Unasked,
                Ok(Gate::AskRead) => good_path && facts.table is Is && facts.access is None,
                Ok(Gate::Open(record)) => good_path && facts.table == Found::Is(*record) && (facts.access matches Some(
                    access,
                ) && access is Granted),
                Err(e) => {
                    ||| facts.warehouse is Missing && e.kind == ErrorKind::NoSuchWarehouse
                    ||| !good_path && e.kind == ErrorKind::BadRequest
                    ||| facts.table is Missing && e.kind == ErrorKind::NoSuchTable
                    ||| facts.access matches Some(access) && !(access is Granted)
                },
            }
        }),
{
    namespaces::bad_levels_are_refused(namespaces::param_levels(raw));
}

/// The ids of columns are those of the names that are known, and no others.
pub proof fn ids_are_those_of_the_names(names: Seq<String>, fields: Map<Seq<char>, i32>, id: i32)
    ensures
        ids_of(names, fields).contains(id) <==> is_id_of_one(names, fields, id),
    decreases names.len(),
{
    if names.len() > 0 {
        let rest = names.drop_last();
        let last = names.len() - 1;
        ids_are_those_of_the_names(rest, fields, id);
        if is_id_of_one(rest, fields, id) {
            let i = choose|i: int|
                0 <= i < rest.len() && fields.dom().contains((#[trigger] rest[i])@) && fields[rest[i]@] == id;
            assert(fields[names[i]@] == id);
        }
        if fields.dom().contains(names.last()@) && fields[names.last()@] == id {
            assert(fields[names[last]@] == id);
        }
        if is_id_of_one(names, fields, id) {
            let i = choose|i: int|
                0 <= i < names.len() && fields.dom().contains((#[trigger] names[i])@) && fields[names[i]@] == id;
            if i < last {
                assert(fields[rest[i]@] == id);
            }
        }
    }
}

/// Whether one of the names is known under this id.
pub open spec fn is_id_of_one(names: Seq<String>, fields: Map<Seq<char>, i32>, id: i32) -> bool {
    exists|i: int| 0 <= i < names.len() && fields.dom().contains((#[trigger] names[i])@) && fields[names[i]@] == id
}

/// Whether every name is known.
pub open spec fn all_known(names: Option<Vec<String>>, fields: Map<Seq<char>, i32>) -> bool {
    names matches Some(list) ==> forall|i: int| 0 <= i < list@.len() ==> fields.dom().contains((#[trigger] list@[i])@)
}

proof fn unknown_names_are_found(names: Seq<String>, fields: Map<Seq<char>, i32>, from: int)
    requires
        0 <= from,
    ensures
        first_unknown(names, fields, from) is None <==> forall|i: int|
            from <= i < names.len() ==> fields.dom().contains((#[trigger] names[i])@),
    decreases names.len() - from,
{
    if from < names.len() && fields.dom().contains(names[from]@) {
        unknown_names_are_found(names, fields, from + 1);
    }
}

/// A scan's columns are refused exactly where one that it selects or wants
/// statistics of is unknown, or its filter does not bind; always as a bad
/// request.
pub proof fn unknown_columns_are_refused(request: PlanTableScanRequest, answers: ScanAnswers)
    ensures
        fields_error(request, answers) is None <==> all_known(request.select, answers.fields@) && all_known(
            request.stats_fields,
            answers.fields@,
        ) && answers.filter_error is None,
        fields_error(request, answers) matches Some(e) ==> e.kind == ErrorKind::BadRequest,
{
    unknown_names_are_found(listed(request.select), answers.fields@, 0);
    unknown_names_are_found(listed(request.stats_fields), answers.fields@, 0);
}

/// The live files of manifests add up: those of two lists together are those of
/// the one and of the other. A manifest of deletes holds none; a data manifest
/// holds its added and its existing files, and where it does not say how many,
/// the sum is unknown.
pub proof fn live_files_add_up(a: Seq<ManifestEntry>, b: Seq<ManifestEntry>, m: ManifestEntry)
    ensures
        live_files(a + b) == (match (live_files(a), live_files(b)) {
            (Some(x), Some(y)) => Some(x + y),
            _ => None,
        }),
        live_files(seq![m]) == (if !m.data {
            Some(0int)
        } else {
            match (m.added_files_count, m.existing_files_count) {
                (Some(added), Some(existing)) => Some(added + existing),
                _ => None,
            }
        }),
    decreases b.len(),
{
    assert(seq![m].drop_last() =~= Seq::<ManifestEntry>::empty());
    assert(live_files(Seq::<ManifestEntry>::empty()) == Some(0int));
    if b.len() == 0 {
        assert(a + b =~= a);
    } else {
        live_files_add_up(a, b.drop_last(), m);
        assert((a + b).drop_last() =~= a + b.drop_last());
        assert((a + b).last() == b.last());
    }
}

/// Whether the work is that of the scan: its target, the statistics that it
/// wants, the rows that the policy leaves, and the columns that it removes.
pub open spec fn is_work_of(
    work: WorkView,
    metadata: TableMetadata,
    request: PlanTableScanRequest,
    answers: ScanAnswers,
    answer: PolicyAnswer,
) -> bool {
    &&& scan_target_of(metadata, request) == Ok::<Option<ScanTarget>, error::ErrorView>(Some(work.target))
    &&& work.stats is Some <==> request.stats_fields is Some
    &&& work.stats matches Some(ids) ==> forall|id: i32|
        #[trigger] ids.contains(id) <==> is_id_of_one(listed(request.stats_fields), answers.fields@, id)
    &&& work.row_policy == answer.policy.row_filter
    &&& forall|id: i32|
        #[trigger] work.strip_fields.contains(id) <==> is_id_of_one(
            answer.policy.removed_columns@,
            answer.fields@,
            id,
        )
}

proof fn work_is_that_of_the_scan(
    metadata: TableMetadata,
    target: ScanTarget,
    request: PlanTableScanRequest,
    answers: ScanAnswers,
    answer: PolicyAnswer,
)
    requires
        scan_target_of(metadata, request) == Ok::<Option<ScanTarget>, error::ErrorView>(Some(target)),
    ensures
        is_work_of(work_of(target, request, answers, answer), metadata, request, answers, answer),
{
    let work = work_of(target, request, answers, answer);
    assert forall|id: i32| #[trigger] work.strip_fields.contains(id) <==> is_id_of_one(
        answer.policy.removed_columns@,
        answer.fields@,
        id,
    ) by {
        ids_are_those_of_the_names(answer.policy.removed_columns@, answer.fields@, id);
    }
    if let Some(ids) = work.stats {
        assert forall|id: i32| #[trigger] ids.contains(id) <==> is_id_of_one(
            listed(request.stats_fields),
            answers.fields@,
            id,
        ) by {
            ids_are_those_of_the_names(listed(request.stats_fields), answers.fields@, id);
        }
    }
}

/// Whether the scan that a request asks for is settled: its table can be read,
/// its metadata was read, and its columns and filter are sound.
pub open spec fn is_settled(prefix: Seq<char>, raw: Seq<char>, name: Seq<char>, facts: PlanFacts) -> bool {
    &&& facts.enabled
    &&& gate(prefix, raw, name, &facts.read) matches Ok(g) && g is Open
    &&& facts.metadata is Read
    &&& requested(facts.body_len, facts.request) matches Ok(request) && (scan_target_of(
        facts.metadata->Read_0,
        request,
    ) matches Ok(Some(_))) && (facts.answers matches Some(answers) && fields_error(request, answers) is None)
}

/// Planning a scan goes on as it should. The metadata that is read is the
/// table's own; a scan with nothing to read completes at once. The policies are
/// asked before any manifest is read, and one that has an effect is recorded
/// before anything else follows from it. What is then planned, here or by a
/// worker, is the scan that was asked for with those policies in force; it is
/// planned here exactly where the live files are known and few enough.
pub proof fn scans_are_planned_as_asked(prefix: Seq<char>, raw: Seq<char>, name: Seq<char>, facts: PlanFacts)
    ensures
        ({
            let settled = is_settled(prefix, raw, name, facts);
            let metadata = facts.metadata->Read_0;
            let request = requested(facts.body_len, facts.request)->Ok_0;
            let cleared = facts.policy matches Some(answer) && !answer.policy.denied && (answer.policy.row_filter is Some
                || answer.policy.removed_columns@.len() > 0 ==> facts.audited);
            match plan_step(prefix, raw, name, facts) {
                Ok(PlanStepView::AskWarehouse) => facts.enabled && facts.read.warehouse is Unasked,
                Ok(PlanStepView::AskTable) => facts.enabled && facts.read.table is Unasked,
                Ok(PlanStepView::AskRead) => facts.enabled && facts.read.access is None,
                Ok(PlanStepView::ReadMetadata(at)) => facts.enabled && facts.metadata is Unread && (facts.read.table
                    matches Found::Is(record) && record.metadata_location == Some(at)),
                Ok(PlanStepView::LookUp(target)) => facts.metadata is Read && facts.answers is None && scan_target_of(
                    metadata,
                    request,
                ) == Ok::<Option<ScanTarget>, error::ErrorView>(Some(target)),
                Ok(PlanStepView::CompleteEmpty) => facts.metadata is Read && scan_target_of(metadata, request) == Ok::<
                    Option<ScanTarget>,
                    error::ErrorView,
                >(None),
                Ok(PlanStepView::AskPolicy) => settled && facts.policy is None,
                Ok(PlanStepView::Audit) => settled && !facts.audited && (facts.policy matches Some(answer) && (
                answer.policy.denied || answer.policy.row_filter is Some || answer.policy.removed_columns@.len() > 0)),
                Ok(PlanStepView::ReadManifests(at)) => settled && cleared && facts.manifests is Unread && (
                scan_target_of(metadata, request) matches Ok(Some(target)) && at == target.manifest_list),
                Ok(PlanStepView::PlanNow(work)) => settled && cleared && is_work_of(
                    work,
                    metadata,
                    request,
                    facts.answers->0,
                    facts.policy->0,
                ) && (facts.manifests matches ManifestRead::Read(manifests) && (live_files(manifests@) matches Some(n)
                    && n <= facts.sync_max_data_files)),
                Ok(PlanStepView::TakeWorker) => settled && cleared && facts.worker is None && (facts.manifests
                    matches ManifestRead::Read(manifests) && (live_files(manifests@) matches Some(n) ==> n
                    > facts.sync_max_data_files)),
                Ok(PlanStepView::Submit(work)) => settled && cleared && is_work_of(
                    work,
                    metadata,
                    request,
                    facts.answers->0,
                    facts.policy->0,
                ) && facts.worker == Some(true) && (facts.manifests matches ManifestRead::Read(manifests) && (live_files(
                    manifests@,
                ) matches Some(n) ==> n > facts.sync_max_data_files)),
                Err(e) => {
                    ||| !facts.enabled && e.kind == ErrorKind::UnsupportedOperation
                    ||| gate(prefix, raw, name, &facts.read) is Err
                    ||| facts.body_len > 0 && facts.request is Err && e.kind == ErrorKind::BadRequest
                    ||| (facts.read.table matches Found::Is(record) && record.metadata_location is None) && e.kind
                        == ErrorKind::NoSuchTable
                    ||| facts.metadata matches MetadataRead::NoStorage(cause) && e == cause@
                    ||| facts.metadata is Unreadable && e.kind == ErrorKind::InternalServer
                    ||| facts.metadata is Read && scan_target_of(metadata, request) == Err::<
                        Option<ScanTarget>,
                        error::ErrorView,
                    >(e)
                    ||| facts.answers matches Some(answers) && fields_error(request, answers) == Some(e)
                    ||| (facts.policy matches Some(answer) && answer.policy.denied) && facts.audited && e.kind
                        == ErrorKind::Forbidden
                    ||| facts.manifests is Unreadable && e.kind == ErrorKind::InternalServer
                    ||| facts.worker == Some(false) && e.kind == ErrorKind::ServiceUnavailable
                },
            }
        }),
{
    reads_are_opened(prefix, raw, name, &facts.read);
    if let MetadataRead::Read(metadata) = facts.metadata {
        if let Ok(request) = requested(facts.body_len, facts.request) {
            if let Ok(Some(target)) = scan_target_of(metadata, request) {
                if let Some(answers) = facts.answers {
                    if let Some(answer) = facts.policy {
                        work_is_that_of_the_scan(metadata, target, request, answers, answer);
                    }
                }
            }
        }
    }
}

/// An empty body asks for a plain scan, and any other for what it says.
pub proof fn bodies_are_read(body_len: usize, parsed: Result<PlanTableScanRequest, String>)
    ensures
        match requested(body_len, parsed) {
            Ok(request) => if body_len == 0 {
                &&& request.snapshot_id is None
                &&& request.select is None
                &&& request.case_sensitive is None
                &&& request.use_snapshot_schema is None
                &&& request.start_snapshot_id is None
                &&& request.end_snapshot_id is None
                &&& request.stats_fields is None
            } else {
                parsed == Ok::<PlanTableScanRequest, String>(request)
            },
            Err(e) => body_len > 0 && parsed is Err && e.kind == ErrorKind::BadRequest,
        },
{
}

/// A plan is handed back only under its own table, and a page of it only once
/// the plan was completed; anything else does not exist.
pub proof fn plans_are_handed_back_as_asked(
    prefix: Seq<char>,
    raw: Seq<char>,
    name: Seq<char>,
    plan_id: Seq<char>,
    fetch: &FetchFacts,
    task: &TaskFacts,
)
    ensures
        match fetch_step(prefix, raw, name, plan_id, fetch) {
            Ok(FetchStep::AskWarehouse) => fetch.enabled && fetch.read.warehouse is Unasked,
            Ok(FetchStep::AskTable) => fetch.enabled && fetch.read.table is Unasked,
            Ok(FetchStep::AskRead) => fetch.enabled && fetch.read.access is None,
            Ok(FetchStep::AskPlan) => fetch.enabled && fetch.plan is Unasked,
            Ok(FetchStep::Plan(plan)) => fetch.enabled && fetch.plan == Found::Is(*plan) && (fetch.read.table
                matches Found::Is(record) && plan.table_id@ == record.id@),
            Err(e) => {
                ||| !fetch.enabled && e.kind == ErrorKind::UnsupportedOperation
                ||| gate(prefix, raw, name, &fetch.read) is Err
                ||| e.kind == ErrorKind::NoSuchPlan && (fetch.plan matches Found::Is(plan) ==> (fetch.read.table
                    matches Found::Is(record) && plan.table_id@ != record.id@))
            },
        },
        match task_step(prefix, raw, name, task) {
            Ok(TaskStep::AskWarehouse) => task.enabled && task.read.warehouse is Unasked,
            Ok(TaskStep::AskTable) => task.enabled && task.read.table is Unasked,
            Ok(TaskStep::AskRead) => task.enabled && task.read.access is None,
            Ok(TaskStep::AskPage(token)) => task.enabled && task.page is Unasked && task.request == Ok::<String, String>(
                *token,
            ),
            Ok(TaskStep::HandOut) => task.enabled && (task.page matches Found::Is(plan) && plan.status
                == PlanStatus::Completed && (task.read.table matches Found::Is(record) && plan.table_id@ == record.id@)),
            Err(e) => {
                ||| !task.enabled && e.kind == ErrorKind::UnsupportedOperation
                ||| gate(prefix, raw, name, &task.read) is Err
                ||| task.request is Err && e.kind == ErrorKind::BadRequest
                ||| e.kind == ErrorKind::NoSuchPlanTask && (task.page matches Found::Is(plan) ==> plan.status
                    != PlanStatus::Completed || (task.read.table matches Found::Is(record) && plan.table_id@
                    != record.id@))
            },
        },
{
    reads_are_opened(prefix, raw, name, &fetch.read);
    reads_are_opened(prefix, raw, name, &task.read);
}

/// A plan that was answered inline is planned again as it was stored, but for
/// its snapshot: it stays the one of the plan, with the policies that are now in
/// force. A plan of an empty table stays empty.
pub proof fn plans_are_repeated_as_stored(plan: ScanPlan, record: TableRecord, facts: AgainFacts)
    ensures
        ({
            let stored = facts.request->Ok_0;
            let metadata = facts.metadata->Read_0;
            let again = PlanTableScanRequest { snapshot_id: Some(plan.snapshot_id), ..stored };
            match again_step(plan, record, facts) {
                Ok(AgainStepView::Empty) => plan.snapshot_id < 0,
                Ok(AgainStepView::ReadMetadata(at)) => plan.snapshot_id >= 0 && facts.metadata is Unread
                    && record.metadata_location == Some(at),
                Ok(AgainStepView::LookUp(target)) => facts.answers is None && target.snapshot_id == plan.snapshot_id
                    && scan_target_of(metadata, again) == Ok::<Option<ScanTarget>, error::ErrorView>(Some(target)),
                Ok(AgainStepView::AskPolicy) => facts.policy is None && facts.answers is Some,
                Ok(AgainStepView::Plan(work)) => facts.planned is None && work.target.snapshot_id == plan.snapshot_id && (
                facts.answers matches Some(answers) && (facts.policy matches Some(answer) && !answer.policy.denied
                    && is_work_of(work, metadata, again, answers, answer))),
                Ok(AgainStepView::Done) => (facts.planned matches Some(Ok(_))) && (facts.policy matches Some(answer)
                    && !answer.policy.denied),
                Err(e) => plan.snapshot_id >= 0,
            }
        }),
{
    if let MetadataRead::Read(metadata) = facts.metadata {
        if let Ok(stored) = facts.request {
            let again = pinned(stored, plan.snapshot_id);
            if let Ok(Some(target)) = scan_target_of(metadata, again) {
                scans_are_bound_as_asked(metadata, again);
                if let Some(answers) = facts.answers {
                    if let Some(answer) = facts.policy {
                        work_is_that_of_the_scan(metadata, target, again, answers, answer);
                    }
                }
            }
        }
    }
}

/// A plan is answered by its status, and a completed one by how its tasks were
/// kept: planned again where they were answered inline, by their tokens where
/// they were paged.
pub proof fn plans_are_answered_by_status(plan: ScanPlan)
    ensures
        result_form_of(plan) == ResultForm::Submitted <==> plan.status == PlanStatus::Submitted,
        result_form_of(plan) == ResultForm::Cancelled <==> plan.status == PlanStatus::Cancelled,
        result_form_of(plan) == ResultForm::Failed <==> plan.status == PlanStatus::Failed,
        result_form_of(plan) == ResultForm::Again <==> plan.status == PlanStatus::Completed && plan.result_mode
            == ResultMode::Inline,
        result_form_of(plan) == ResultForm::Tokens <==> plan.status == PlanStatus::Completed && plan.result_mode
            == ResultMode::Paged,
{
}

/// A scan's purpose is what its header holds, without the blanks around it; a
/// blank header states none.
pub proof fn purposes_are_read(header: Header)
    ensures
        match purpose_of(header) {
            Some(purpose) => (header matches Header::Text(raw) && purpose == text::trimmed(raw@)) && purpose.len() > 0,
            None => header matches Header::Text(raw) ==> text::trimmed(raw@).len() == 0,
        },
{
}

/// A policy has an effect exactly where it denies, filters rows or removes
/// columns.
pub proof fn effects_are_seen(policy: ScanPolicy)
    ensures
        is_effective(policy) <==> policy.denied || policy.row_filter is Some || policy.removed_columns@.len() > 0,
{
}

} // verus!
