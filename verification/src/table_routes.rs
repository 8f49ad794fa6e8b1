//! The table routes: create, register, load, drop, rename and metrics.
//!
//! Each route is a function from the request and what the store has answered
//! so far to the next step. A lookup that the store itself fails ends the
//! request with that failure.

use vstd::prelude::*;

use crate::branches;
use crate::branches::BranchRecord;
use crate::error;
use crate::error::{ApiError, ErrorKind, StoreError, StoreKind};
use crate::grants;
use crate::grants::{require, Access, Found};
use crate::ids;
use crate::ids::fresh_table_uuid;
use crate::namespaces;
use crate::namespaces::{decode_namespace_param, found_namespace, resolve_pagination, split_prefix, Pagination};
use crate::tables;
use crate::tables::{
    default_table_location, display_ident, if_none_match_matches, no_such_table, reject_if_foreign,
    reject_if_foreign_warehouse, table_etag, validate_table_name, DropTableQuery, Header, ListTablesQuery, LoadTableQuery,
    RegisterTableRequest, RenameTableRequest, TableRecord, WarehouseRecord,
};
use crate::text;
use crate::text::{blank, cat2, cat3, drop_trailing, parse_unsigned, quote, same, starts};
use crate::textmap;
use crate::textmap::TextMap;

verus! {

// ---------------------------------------------------------------------------
// Failures of the metadata builder and of object storage
// ---------------------------------------------------------------------------

/// Why the metadata builder refused an update list.
#[derive(Debug)]
pub enum MetadataBuildError {
    /// A snapshot of that id exists already.
    SnapshotAlreadyExists(String),
    /// A snapshot's sequence number is not above the last one.
    NonMonotonicSequenceNumber(String),
    /// Anything else.
    Other(String),
}

/// A refused update list: a clash with concurrent state is a failed commit,
/// anything else a bad request.
pub open spec fn build_failure(error: MetadataBuildError) -> error::ErrorView {
    match error {
        MetadataBuildError::SnapshotAlreadyExists(m) => error::error_of(ErrorKind::CommitFailed, m@),
        MetadataBuildError::NonMonotonicSequenceNumber(m) => error::error_of(ErrorKind::CommitFailed, m@),
        MetadataBuildError::Other(m) => error::bad_request(m@),
    }
}

/// A clash with concurrent state is a failed commit, which can be tried again;
/// any other refused update list is a bad request.
pub proof fn refused_updates_are_told(error: MetadataBuildError)
    ensures
        build_failure(error).kind == (if error is Other {
            ErrorKind::BadRequest
        } else {
            ErrorKind::CommitFailed
        }),
{
}

/// Maps a refused update list onto the answer.
pub fn map_build_error(error: &MetadataBuildError) -> (r: ApiError)
    ensures
        r@ == build_failure(*error),
{
    match error {
        MetadataBuildError::SnapshotAlreadyExists(m) => ApiError::new(ErrorKind::CommitFailed, m.as_str()),
        MetadataBuildError::NonMonotonicSequenceNumber(m) => ApiError::new(ErrorKind::CommitFailed, m.as_str()),
        MetadataBuildError::Other(m) => ApiError::bad_request(m.as_str()),
    }
}

/// A failure of object storage. The texts are the storage layer's own
/// messages.
#[derive(Debug)]
pub enum StorageError {
    /// The location is not under the root.
    InvalidLocation {
        /// The location.
        location: String,
        /// The root.
        root: String,
    },
    /// There is no object at the location.
    NotFound(String),
    /// There is an object at the location already.
    AlreadyExists(String),
    /// The object is no table metadata.
    InvalidMetadata(String),
    /// The metadata is of a format version that is not read.
    UnsupportedFormatVersion(String),
    /// The storage did not answer in time.
    Transient,
    /// The storage refused access.
    PermissionDenied(String),
    /// The storage failed.
    Backend(String),
    /// The storage options are wrong.
    Config(String),
}

/// A storage failure as the table routes answer it.
pub open spec fn storage_failure(error: StorageError) -> error::ErrorView {
    match error {
        StorageError::InvalidLocation { location, root } => error::bad_request(
            "location "@ + text::quoted(location@) + " is outside the warehouse storage root "@ + text::quoted(root@),
        ),
        StorageError::NotFound(location) => error::bad_request("no object exists at "@ + text::quoted(location@)),
        StorageError::AlreadyExists(location) => error::error_of(
            ErrorKind::InternalServer,
            "staged metadata location collided at "@ + text::quoted(location@),
        ),
        StorageError::InvalidMetadata(m) => error::bad_request(m@),
        StorageError::UnsupportedFormatVersion(m) => error::bad_request(m@),
        StorageError::Transient => error::error_of(
            ErrorKind::ServiceUnavailable,
            "object storage is temporarily unavailable"@,
        ),
        StorageError::PermissionDenied(m) => error::error_of(
            ErrorKind::InternalServer,
            "object storage operation failed: "@ + m@,
        ),
        StorageError::Backend(m) => error::error_of(
            ErrorKind::InternalServer,
            "object storage operation failed: "@ + m@,
        ),
        StorageError::Config(m) => error::error_of(
            ErrorKind::InternalServer,
            "object storage operation failed: "@ + m@,
        ),
    }
}

/// What the request got wrong is a bad request, a storage that does not answer
/// in time is unavailable, and any other failure is the server's.
pub proof fn storage_failures_are_told(error: StorageError)
    ensures
        storage_failure(error).kind == (match error {
            StorageError::InvalidLocation { location, root } => ErrorKind::BadRequest,
            StorageError::NotFound(_) => ErrorKind::BadRequest,
            StorageError::InvalidMetadata(_) => ErrorKind::BadRequest,
            StorageError::UnsupportedFormatVersion(_) => ErrorKind::BadRequest,
            StorageError::Transient => ErrorKind::ServiceUnavailable,
            _ => ErrorKind::InternalServer,
        }),
{
}

/// Maps a storage failure on the table path onto the answer.
pub fn storage_to_api(error: &StorageError) -> (r: ApiError)
    ensures
        r@ == storage_failure(*error),
{
    match error {
        StorageError::InvalidLocation { location, root } => ApiError::bad_request(
            cat2(
                cat3(
                    "location ",
                    quote(location.as_str()).as_str(),
                    " is outside the warehouse storage root ",
                ).as_str(),
                quote(root.as_str()).as_str(),
            ).as_str(),
        ),
        StorageError::NotFound(location) => ApiError::bad_request(
            cat2("no object exists at ", quote(location.as_str()).as_str()).as_str(),
        ),
        StorageError::AlreadyExists(location) => ApiError::new(
            ErrorKind::InternalServer,
            cat2("staged metadata location collided at ", quote(location.as_str()).as_str()).as_str(),
        ),
        StorageError::InvalidMetadata(m) => ApiError::bad_request(m.as_str()),
        StorageError::UnsupportedFormatVersion(m) => ApiError::bad_request(m.as_str()),
        StorageError::Transient => ApiError::new(
            ErrorKind::ServiceUnavailable,
            "object storage is temporarily unavailable",
        ),
        StorageError::PermissionDenied(m) => storage_operation_failed(m.as_str()),
        StorageError::Backend(m) => storage_operation_failed(m.as_str()),
        StorageError::Config(m) => storage_operation_failed(m.as_str()),
    }
}

fn storage_operation_failed(message: &str) -> (r: ApiError)
    ensures
        r@ == error::error_of(ErrorKind::InternalServer, "object storage operation failed: "@ + message@),
{
    ApiError::new(ErrorKind::InternalServer, cat2("object storage operation failed: ", message).as_str())
}

/// Why a new table could not be written: the file, or the row.
#[derive(Debug)]
pub enum MaterializeError {
    /// The metadata file could not be written.
    Storage(StorageError),
    /// The row could not be inserted.
    Store(StoreError),
}

/// How a route names the collision of a new table with another.
#[derive(Clone, Copy, Debug, PartialEq, Eq, Structural)]
pub enum Collision {
    /// The table exists already.
    AlreadyExists,
    /// The commit's `assert-create` no longer holds.
    AssertCreateFailed,
}

/// The answer to a new table that could not be written.
pub open spec fn materialize_failure(error: MaterializeError, collision: Collision) -> error::ErrorView {
    match error {
        MaterializeError::Storage(e) => storage_failure(e),
        MaterializeError::Store(e) => match e.kind {
            StoreKind::Conflict => match collision {
                Collision::AlreadyExists => error::error_of(ErrorKind::AlreadyExists, e.message@),
                Collision::AssertCreateFailed => error::error_of(
                    ErrorKind::CommitFailed,
                    "assert-create failed: "@ + e.message@,
                ),
            },
            StoreKind::NotFound => error::error_of(ErrorKind::NoSuchNamespace, e.message@),
            _ => error::store_failure(e),
        },
    }
}

/// A new table that collides with another is answered as its route names it, and
/// one whose namespace is gone as that.
pub proof fn lost_tables_are_told(error: StoreError, collision: Collision)
    ensures
        error.kind == StoreKind::Conflict ==> materialize_failure(MaterializeError::Store(error), collision).kind == (
        match collision {
            Collision::AlreadyExists => ErrorKind::AlreadyExists,
            Collision::AssertCreateFailed => ErrorKind::CommitFailed,
        }),
        error.kind == StoreKind::NotFound ==> materialize_failure(MaterializeError::Store(error), collision).kind
            == ErrorKind::NoSuchNamespace,
{
}

impl MaterializeError {
    /// The answer to a new table that could not be written.
    pub fn into_api(&self, collision: Collision) -> (r: ApiError)
        ensures
            r@ == materialize_failure(*self, collision),
    {
        match self {
            MaterializeError::Storage(e) => storage_to_api(e),
            MaterializeError::Store(e) => match e.kind {
                StoreKind::Conflict => match collision {
                    Collision::AlreadyExists => ApiError::new(ErrorKind::AlreadyExists, e.message.as_str()),
                    Collision::AssertCreateFailed => ApiError::new(
                        ErrorKind::CommitFailed,
                        cat2("assert-create failed: ", e.message.as_str()).as_str(),
                    ),
                },
                StoreKind::NotFound => ApiError::new(ErrorKind::NoSuchNamespace, e.message.as_str()),
                _ => ApiError::from_store(e),
            },
        }
    }
}

/// What to do after an attempt to write a new table: the file is written
/// before the row, and a file whose row was refused is deleted.
#[derive(Debug)]
pub enum MaterializeStep {
    /// Write the metadata file.
    WriteFile,
    /// Insert the row that points at the file.
    InsertRow,
    /// The table is there.
    Done,
    /// Delete the file, then fail.
    DiscardAndFail(MaterializeError),
    /// Fail; no file was written.
    Fail(MaterializeError),
}

/// What has happened to a new table so far.
#[derive(Debug)]
pub enum MaterializeEvent {
    /// Nothing yet.
    Start,
    /// The file was written, or not.
    File(Result<(), StorageError>),
    /// The row was inserted, or not.
    Row(Result<(), StoreError>),
}

/// Takes the next step of writing a new table.
pub fn materialize_new_table(event: MaterializeEvent) -> (r: MaterializeStep)
    ensures
        match event {
            MaterializeEvent::Start => r is WriteFile,
            MaterializeEvent::File(Ok(_)) => r is InsertRow,
            MaterializeEvent::File(Err(e)) => r == MaterializeStep::Fail(MaterializeError::Storage(e)),
            MaterializeEvent::Row(Ok(_)) => r is Done,
            MaterializeEvent::Row(Err(e)) => r == MaterializeStep::DiscardAndFail(MaterializeError::Store(e)),
        },
{
    match event {
        MaterializeEvent::Start => MaterializeStep::WriteFile,
        MaterializeEvent::File(Ok(_)) => MaterializeStep::InsertRow,
        MaterializeEvent::File(Err(e)) => MaterializeStep::Fail(MaterializeError::Storage(e)),
        MaterializeEvent::Row(Ok(_)) => MaterializeStep::Done,
        MaterializeEvent::Row(Err(e)) => MaterializeStep::DiscardAndFail(MaterializeError::Store(e)),
    }
}

// ---------------------------------------------------------------------------
// New tables
// ---------------------------------------------------------------------------

/// Request body to create a table, but for the schema, the partition spec and
/// the sort order themselves, which the metadata builder takes.
#[derive(Debug)]
pub struct CreateTableRequest {
    /// Table name.
    pub name: String,
    /// Explicit table location; assigned where absent.
    pub location: Option<String>,
    /// Whether the request has a partition spec.
    pub has_partition_spec: bool,
    /// Whether the request has a sort order.
    pub has_write_order: bool,
    /// Whether to return metadata without creating the table.
    pub stage_create: bool,
    /// Initial table properties; `format-version` is consumed, not stored.
    pub properties: TextMap<String>,
}

/// An update that builds a new table's metadata.
#[derive(Clone, Copy, Debug, PartialEq, Eq, Structural)]
pub enum BuildStep {
    /// Give the table its UUID.
    AssignUuid,
    /// Add the schema.
    AddSchema,
    /// Make the last added schema current.
    SetCurrentSchema,
    /// Add the partition spec.
    AddSpec,
    /// Make the last added spec the default.
    SetDefaultSpec,
    /// Add the sort order.
    AddSortOrder,
    /// Make the last added order the default.
    SetDefaultSortOrder,
    /// Set the properties.
    SetProperties,
}

/// How a new table's metadata is built.
#[derive(Debug)]
pub struct NewTablePlan {
    /// The table's UUID.
    pub table_uuid: String,
    /// The format version to start from.
    pub format_version: u8,
    /// The table's location.
    pub location: String,
    /// The updates, in order.
    pub steps: Vec<BuildStep>,
    /// The properties to set.
    pub properties: TextMap<String>,
}

/// The format version that a request asks for: 2 where it does not say.
pub open spec fn format_version_of(properties: Map<Seq<char>, String>) -> Result<u8, error::ErrorView> {
    if !properties.dom().contains("format-version"@) {
        Ok(2u8)
    } else {
        let raw = properties["format-version"@]@;
        match text::signed_value(raw) {
            Some(n) => if 1 <= n <= 3 {
                Ok(n as u8)
            } else {
                Err(bad_format_version(raw))
            },
            None => Err(bad_format_version(raw)),
        }
    }
}

/// The error of a format version that is none of the three.
pub open spec fn bad_format_version(raw: Seq<char>) -> error::ErrorView {
    error::bad_request("invalid format-version "@ + text::quoted(raw) + ": expected 1, 2, or 3"@)
}

/// Where a new table goes: where the request says, else the default location.
pub open spec fn new_location(
    request: CreateTableRequest,
    root: Seq<char>,
    levels: Seq<Seq<char>>,
    uuid: Seq<char>,
) -> Seq<char> {
    match request.location {
        Some(location) if !text::is_blank(location@) => text::without_trailing(location@, '/'),
        _ => tables::default_location(root, levels, request.name@, uuid),
    }
}

/// The updates that build a new table's metadata.
pub open spec fn build_steps(has_spec: bool, has_order: bool, has_properties: bool) -> Seq<BuildStep> {
    seq![BuildStep::AssignUuid, BuildStep::AddSchema, BuildStep::SetCurrentSchema]
        + (if has_spec { seq![BuildStep::AddSpec, BuildStep::SetDefaultSpec] } else { seq![] })
        + (if has_order { seq![BuildStep::AddSortOrder, BuildStep::SetDefaultSortOrder] } else { seq![] })
        + (if has_properties { seq![BuildStep::SetProperties] } else { seq![] })
}

/// Whether the plan is that of a new table with this UUID.
pub open spec fn is_new_table_plan(
    plan: NewTablePlan,
    request: CreateTableRequest,
    root: Seq<char>,
    levels: Seq<Seq<char>>,
    uuid: Seq<char>,
    version: u8,
) -> bool {
    &&& plan.table_uuid@ == uuid
    &&& plan.format_version == version
    &&& plan.location@ == new_location(request, root, levels, uuid)
    &&& plan.properties@ == request.properties@.remove("format-version"@)
    &&& plan.steps@ == build_steps(
        request.has_partition_spec,
        request.has_write_order,
        plan.properties.pairs().len() > 0,
    )
}

/// Plans the metadata of a new table under a UUID of its own. The
/// `format-version` property chooses the format version and is not stored.
/// Which UUID is left to chance.
pub fn build_new_table_metadata(request: CreateTableRequest, storage_root: &str, levels: &Vec<String>) -> (r: Result<
    NewTablePlan,
    ApiError,
>)
    ensures
        match format_version_of(request.properties@) {
            Err(e) => error::fails_with(r, e),
            Ok(version) => r matches Ok(plan) && ids::is_uuid_text(plan.table_uuid@) && is_new_table_plan(
                plan,
                request,
                storage_root@,
                text::texts(levels@),
                plan.table_uuid@,
                version,
            ),
        },
{
    new_table_plan(request, storage_root, levels, fresh_table_uuid())
}

/// Plans the metadata of a new table with the given UUID.
pub fn new_table_plan(
    request: CreateTableRequest,
    storage_root: &str,
    levels: &Vec<String>,
    table_uuid: String,
) -> (r: Result<NewTablePlan, ApiError>)
    ensures
        match format_version_of(request.properties@) {
            Err(e) => error::fails_with(r, e),
            Ok(version) => r matches Ok(plan) && is_new_table_plan(
                plan,
                request,
                storage_root@,
                text::texts(levels@),
                table_uuid@,
                version,
            ),
        },
{
    let format_version: u8 = match request.properties.get("format-version") {
        None => 2,
        Some(raw) => {
            let parsed = parse_unsigned(raw.as_str(), 255);
            match parsed {
                Some(n) if 1 <= n && n <= 3 => n as u8,
                _ => {
                    return Err(ApiError::bad_request(
                        cat3(
                            "invalid format-version ",
                            quote(raw.as_str()).as_str(),
                            ": expected 1, 2, or 3",
                        ).as_str(),
                    ));
                },
            }
        },
    };
    let location = match &request.location {
        Some(location) => if blank(location.as_str()) {
            default_table_location(storage_root, levels, request.name.as_str(), table_uuid.as_str())
        } else {
            drop_trailing(location.as_str(), '/').to_owned()
        },
        None => default_table_location(storage_root, levels, request.name.as_str(), table_uuid.as_str()),
    };
    let properties = request.properties.without("format-version");
    let mut steps: Vec<BuildStep> = Vec::new();
    steps.push(BuildStep::AssignUuid);
    steps.push(BuildStep::AddSchema);
    steps.push(BuildStep::SetCurrentSchema);
    if request.has_partition_spec {
        steps.push(BuildStep::AddSpec);
        steps.push(BuildStep::SetDefaultSpec);
    }
    if request.has_write_order {
        steps.push(BuildStep::AddSortOrder);
        steps.push(BuildStep::SetDefaultSortOrder);
    }
    if properties.len() > 0 {
        steps.push(BuildStep::SetProperties);
    }
    assert(steps@ =~= build_steps(
        request.has_partition_spec,
        request.has_write_order,
        properties.pairs().len() > 0,
    ));
    Ok(NewTablePlan { table_uuid, format_version, location, steps, properties })
}

/// What the store has answered so far about the tables of a namespace.
#[derive(Debug)]
pub struct ListFacts {
    /// Whether the namespace is there.
    pub namespace: Found<()>,
    /// Whether the caller may list its tables.
    pub access: Option<Access>,
}

/// The next step of listing the tables of a namespace.
#[derive(Debug)]
pub enum ListTablesStep {
    /// Look up the namespace of these levels.
    AskNamespace(Vec<String>),
    /// Ask whether the caller may list its tables.
    AskListTables,
    /// Fetch this page.
    Fetch(Pagination),
}

/// Takes the next step of listing the tables of a namespace: the namespace,
/// access, then the page.
pub fn list_tables(raw_namespace: &str, query: &ListTablesQuery, facts: &ListFacts) -> (r: Result<
    ListTablesStep,
    ApiError,
>)
    ensures
        ({
            let levels = namespaces::param_levels(raw_namespace@);
            match namespaces::levels_error(levels) {
                Some(e) => error::fails_with(r, e),
                None => match facts.namespace {
                    Found::Unasked => r matches Ok(ListTablesStep::AskNamespace(got)) && text::texts(got@) == levels,
                    Found::Missing => error::fails_with(r, namespaces::no_such_namespace(levels)),
                    Found::Is(_) => match facts.access {
                        None => r matches Ok(step) && step is AskListTables,
                        Some(access) => match grants::access_error(access) {
                            Some(e) => error::fails_with(r, e),
                            None => match namespaces::page_asked(text::opt_text(query.page_token), query.page_size) {
                                Err(e) => error::fails_with(r, e),
                                Ok((limit, after)) => r matches Ok(ListTablesStep::Fetch(p)) && p.limit == limit
                                    && text::opt_text(p.after_id) == after,
                            },
                        },
                    },
                },
            }
        }),
        r matches Ok(step) ==> (step is Fetch ==> facts.namespace is Is && facts.access == Some(Access::Granted)),
        r matches Ok(step) ==> (step is AskListTables ==> facts.namespace is Is && facts.access is None),
{
    let levels = match decode_namespace_param(raw_namespace) {
        Ok(levels) => levels,
        Err(e) => { return Err(e); },
    };
    match &facts.namespace {
        Found::Unasked => { return Ok(ListTablesStep::AskNamespace(levels)); },
        Found::Missing => {
            return match found_namespace::<()>(&levels, None) {
                Err(e) => Err(e),
                Ok(()) => Ok(ListTablesStep::AskListTables),
            };
        },
        Found::Is(_) => {},
    }
    match &facts.access {
        None => { return Ok(ListTablesStep::AskListTables); },
        Some(access) => match require(access) {
            Err(e) => { return Err(e); },
            Ok(()) => {},
        },
    }
    let token = match &query.page_token {
        Some(t) => Some(t.as_str()),
        None => None,
    };
    match resolve_pagination(token, query.page_size) {
        Ok(p) => Ok(ListTablesStep::Fetch(p)),
        Err(e) => Err(e),
    }
}

/// What the store has answered so far about the table of a path.
#[derive(Debug)]
pub struct TableFacts {
    /// The table.
    pub table: Found<TableRecord>,
    /// Whether the caller may do with it what the route does.
    pub access: Option<Access>,
}

/// The next step of asking whether a table exists.
#[derive(Clone, Copy, Debug, PartialEq, Eq, Structural)]
pub enum ExistsStep {
    /// Look up the table.
    AskTable,
    /// Ask whether the caller may read it.
    AskRead,
    /// It exists.
    Exists,
}

/// The step of asking whether a table exists.
pub open spec fn exists_step(raw: Seq<char>, name: Seq<char>, facts: TableFacts) -> Result<
    ExistsStep,
    error::ErrorView,
> {
    let levels = namespaces::param_levels(raw);
    match namespaces::levels_error(levels) {
        Some(e) => Err(e),
        None => match facts.table {
            Found::Unasked => Ok(ExistsStep::AskTable),
            Found::Missing => Err(tables::missing_table(levels, name)),
            Found::Is(_) => match facts.access {
                None => Ok(ExistsStep::AskRead),
                Some(access) => match grants::access_error(access) {
                    Some(e) => Err(e),
                    None => Ok(ExistsStep::Exists),
                },
            },
        },
    }
}

/// Takes the next step of asking whether a table exists.
pub fn table_exists(raw_namespace: &str, name: &str, facts: &TableFacts) -> (r: Result<ExistsStep, ApiError>)
    ensures
        error::outcome(r) == exists_step(raw_namespace@, name@, *facts),
{
    let levels = match decode_namespace_param(raw_namespace) {
        Ok(levels) => levels,
        Err(e) => { return Err(e); },
    };
    match &facts.table {
        Found::Unasked => { return Ok(ExistsStep::AskTable); },
        Found::Missing => { return Err(no_such_table(&levels, name)); },
        Found::Is(_) => {},
    }
    match &facts.access {
        None => Ok(ExistsStep::AskRead),
        Some(access) => match require(access) {
            Err(e) => Err(e),
            Ok(()) => Ok(ExistsStep::Exists),
        },
    }
}

/// What the store has answered so far about a new table.
#[derive(Debug)]
pub struct NewTableFacts {
    /// The warehouse of the prefix.
    pub warehouse: Found<WarehouseRecord>,
    /// The namespace of the path, in that warehouse.
    pub namespace: Found<String>,
    /// Whether the caller may create tables in that namespace.
    pub access: Option<Access>,
    /// The table of that name.
    pub table: Found<()>,
    /// The view of that name.
    pub view: Found<()>,
}

/// The next step of admitting a new table.
#[derive(Debug)]
pub enum NewTableStep {
    /// Look up the warehouse of this name.
    AskWarehouse(String),
    /// Look up the namespace of these levels.
    AskNamespace(Vec<String>),
    /// Ask whether the caller may create tables in the namespace.
    AskCreateTable,
    /// Look up a table of the new name.
    AskTable,
    /// Look up a view of the new name.
    AskView,
    /// Go on: nothing stands in the way.
    Admit(Vec<String>),
    /// Answer with the error.
    Refuse(ApiError),
}

/// The model of the next step.
pub enum NewTableView {
    /// Look up the warehouse of the prefix.
    AskWarehouse,
    /// Look up the namespace of the path.
    AskNamespace,
    /// Ask whether the caller may create tables in the namespace.
    AskCreateTable,
    /// Look up a table of the new name.
    AskTable,
    /// Look up a view of the new name.
    AskView,
    /// Go on: nothing stands in the way.
    Admit,
    /// Answer with the error.
    Refuse(error::ErrorView),
}

/// Whether `step` is the modelled step, with the names that it carries.
pub open spec fn is_new_table_step(step: NewTableStep, view: NewTableView, prefix: Seq<char>, raw: Seq<char>) -> bool {
    match step {
        NewTableStep::AskWarehouse(name) => view is AskWarehouse && name@ == namespaces::prefix_base(prefix),
        NewTableStep::AskNamespace(levels) => view is AskNamespace && text::texts(levels@) == namespaces::param_levels(
            raw,
        ),
        NewTableStep::AskCreateTable => view is AskCreateTable,
        NewTableStep::AskTable => view is AskTable,
        NewTableStep::AskView => view is AskView,
        NewTableStep::Admit(levels) => view is Admit && text::texts(levels@) == namespaces::param_levels(raw),
        NewTableStep::Refuse(e) => view == NewTableView::Refuse(e@),
    }
}

/// The error of a name that a table has already.
pub open spec fn table_taken(ident: Seq<char>) -> error::ErrorView {
    error::error_of(ErrorKind::AlreadyExists, "table "@ + text::quoted(ident) + " already exists"@)
}

/// The error of a name that a view has already.
pub open spec fn view_taken(ident: Seq<char>) -> error::ErrorView {
    error::error_of(
        ErrorKind::AlreadyExists,
        "the identifier "@ + text::quoted(ident) + " already exists as a view (tables and views share a namespace)"@,
    )
}

/// The step once access is granted: the warehouse must be native, the name
/// good and free, and an overwrite is not supported.
pub open spec fn free_name_step(
    warehouse: WarehouseRecord,
    levels: Seq<Seq<char>>,
    name: Seq<char>,
    overwrite: bool,
    facts: NewTableFacts,
) -> NewTableView {
    match tables::foreign_warehouse_error(warehouse) {
        Some(e) => NewTableView::Refuse(e),
        None => match tables::table_name_error(name) {
            Some(e) => NewTableView::Refuse(e),
            None => if overwrite {
                NewTableView::Refuse(error::bad_request("register with overwrite=true is not supported yet"@))
            } else {
                match facts.table {
                    Found::Unasked => NewTableView::AskTable,
                    Found::Is(_) => NewTableView::Refuse(table_taken(tables::ident_text(levels, name))),
                    Found::Missing => match facts.view {
                        Found::Unasked => NewTableView::AskView,
                        Found::Is(_) => NewTableView::Refuse(view_taken(tables::ident_text(levels, name))),
                        Found::Missing => NewTableView::Admit,
                    },
                }
            },
        },
    }
}

/// The step of admitting a new table: warehouse, namespace, access, then the
/// name.
pub open spec fn new_table_step(
    prefix: Seq<char>,
    raw: Seq<char>,
    name: Seq<char>,
    overwrite: bool,
    facts: NewTableFacts,
) -> NewTableView {
    match facts.warehouse {
        Found::Unasked => NewTableView::AskWarehouse,
        Found::Missing => NewTableView::Refuse(error::error_of(ErrorKind::NoSuchWarehouse, prefix)),
        Found::Is(warehouse) => {
            let levels = namespaces::param_levels(raw);
            match namespaces::levels_error(levels) {
                Some(e) => NewTableView::Refuse(e),
                None => match facts.namespace {
                    Found::Unasked => NewTableView::AskNamespace,
                    Found::Missing => NewTableView::Refuse(namespaces::no_such_namespace(levels)),
                    Found::Is(_) => match facts.access {
                        None => NewTableView::AskCreateTable,
                        Some(access) => match grants::access_error(access) {
                            Some(e) => NewTableView::Refuse(e),
                            None => free_name_step(warehouse, levels, name, overwrite, facts),
                        },
                    },
                },
            }
        },
    }
}

/// Takes the next step of admitting a new table, whether it is created or
/// registered. Only a registration can ask for an overwrite.
pub fn admit_new_table(
    prefix: &str,
    raw_namespace: &str,
    name: &str,
    overwrite: bool,
    facts: &NewTableFacts,
) -> (r: NewTableStep)
    ensures
        is_new_table_step(
            r,
            new_table_step(prefix@, raw_namespace@, name@, overwrite, *facts),
            prefix@,
            raw_namespace@,
        ),
{
    let warehouse = match &facts.warehouse {
        Found::Unasked => {
            let (base, _branch) = split_prefix(prefix);
            return NewTableStep::AskWarehouse(base);
        },
        Found::Missing => {
            return NewTableStep::Refuse(ApiError::new(ErrorKind::NoSuchWarehouse, prefix));
        },
        Found::Is(warehouse) => warehouse,
    };
    let levels = match decode_namespace_param(raw_namespace) {
        Ok(levels) => levels,
        Err(e) => { return NewTableStep::Refuse(e); },
    };
    match &facts.namespace {
        Found::Unasked => { return NewTableStep::AskNamespace(levels); },
        Found::Missing => {
            let none: Option<()> = None;
            match found_namespace(&levels, none) {
                Err(e) => { return NewTableStep::Refuse(e); },
                Ok(_) => {},
            }
        },
        Found::Is(_) => {},
    }
    match &facts.access {
        None => { return NewTableStep::AskCreateTable; },
        Some(access) => match require(access) {
            Err(e) => { return NewTableStep::Refuse(e); },
            Ok(()) => {},
        },
    }
    match reject_if_foreign_warehouse(warehouse) {
        Err(e) => { return NewTableStep::Refuse(e); },
        Ok(()) => {},
    }
    match validate_table_name(name) {
        Err(e) => { return NewTableStep::Refuse(e); },
        Ok(()) => {},
    }
    if overwrite {
        return NewTableStep::Refuse(ApiError::bad_request("register with overwrite=true is not supported yet"));
    }
    match &facts.table {
        Found::Unasked => { return NewTableStep::AskTable; },
        Found::Is(_) => {
            let ident = display_ident(&levels, name);
            return NewTableStep::Refuse(ApiError::new(
                ErrorKind::AlreadyExists,
                cat3("table ", quote(ident.as_str()).as_str(), " already exists").as_str(),
            ));
        },
        Found::Missing => {},
    }
    match &facts.view {
        Found::Unasked => NewTableStep::AskView,
        Found::Is(_) => {
            let ident = display_ident(&levels, name);
            NewTableStep::Refuse(ApiError::new(
                ErrorKind::AlreadyExists,
                cat3(
                    "the identifier ",
                    quote(ident.as_str()).as_str(),
                    " already exists as a view (tables and views share a namespace)",
                ).as_str(),
            ))
        },
        Found::Missing => NewTableStep::Admit(levels),
    }
}

/// The next step of creating a table.
#[derive(Debug)]
pub enum CreateStep {
    /// Go on with admitting it, or answer with the error.
    Admit(NewTableStep),
    /// Answer with the metadata of the new table, and write nothing: the
    /// client commits it later.
    Stage(Vec<String>),
    /// Write the metadata file and the row of the new table.
    Write(Vec<String>),
}

/// Takes the next step of creating a table: once it is admitted, a staged
/// creation writes nothing.
pub fn create_table(prefix: &str, raw_namespace: &str, request: &CreateTableRequest, facts: &NewTableFacts) -> (r:
    CreateStep)
    ensures
        match new_table_step(prefix@, raw_namespace@, request.name@, false, *facts) {
            NewTableView::Admit => if request.stage_create {
                r matches CreateStep::Stage(levels) && text::texts(levels@) == namespaces::param_levels(raw_namespace@)
            } else {
                r matches CreateStep::Write(levels) && text::texts(levels@) == namespaces::param_levels(raw_namespace@)
            },
            view => r matches CreateStep::Admit(step) && is_new_table_step(step, view, prefix@, raw_namespace@),
        },
{
    match admit_new_table(prefix, raw_namespace, request.name.as_str(), false, facts) {
        NewTableStep::Admit(levels) => if request.stage_create {
            CreateStep::Stage(levels)
        } else {
            CreateStep::Write(levels)
        },
        step => CreateStep::Admit(step),
    }
}

/// Takes the next step of registering a table: once it is admitted, its
/// metadata file is read and adopted as it is.
pub fn register_table(
    prefix: &str,
    raw_namespace: &str,
    request: &RegisterTableRequest,
    facts: &NewTableFacts,
) -> (r: NewTableStep)
    ensures
        is_new_table_step(
            r,
            new_table_step(prefix@, raw_namespace@, request.name@, request.overwrite, *facts),
            prefix@,
            raw_namespace@,
        ),
{
    admit_new_table(prefix, raw_namespace, request.name.as_str(), request.overwrite, facts)
}

/// A table is created or registered only for a caller who may create tables
/// there, in a warehouse of its own, under a name that no table and no view
/// has.
pub proof fn new_tables_are_guarded(
    prefix: Seq<char>,
    raw: Seq<char>,
    name: Seq<char>,
    overwrite: bool,
    facts: NewTableFacts,
)
    requires
        new_table_step(prefix, raw, name, overwrite, facts) is Admit,
    ensures
        facts.access == Some(Access::Granted),
        facts.warehouse matches Found::Is(w) && !w.foreign,
        facts.table is Missing,
        facts.view is Missing,
        !overwrite,
        tables::table_name_error(name) is None,
{
}

/// Whether a name is taken is asked only for a caller who may create tables
/// there: a caller who is refused learns nothing of it.
pub proof fn names_are_hidden_from_the_refused(
    prefix: Seq<char>,
    raw: Seq<char>,
    name: Seq<char>,
    overwrite: bool,
    facts: NewTableFacts,
)
    requires
        facts.access matches Some(a) && !(a is Granted),
    ensures
        !(new_table_step(prefix, raw, name, overwrite, facts) is AskTable),
        !(new_table_step(prefix, raw, name, overwrite, facts) is AskView),
        !(new_table_step(prefix, raw, name, overwrite, facts) is Admit),
{
}

/// The answer to a registration that the store refused.
pub fn register_error(error: &StoreError) -> (r: ApiError)
    ensures
        r@ == namespaces::namespace_failure(*error, Some(ErrorKind::AlreadyExists)),
{
    namespaces::create_namespace_error(error)
}

// ---------------------------------------------------------------------------
// Loading a table
// ---------------------------------------------------------------------------

/// How the client wants to reach the table's files.
#[derive(Clone, Copy, Debug, PartialEq, Eq, Structural)]
pub enum RequestedDelegation {
    /// With its own credentials.
    Own,
    /// With credentials that the catalog vends.
    VendedCredentials,
    /// With requests that the catalog signs.
    RemoteSigning,
}

/// Where a table's metadata is on a branch or a tag.
#[derive(Debug)]
pub struct BranchPointer {
    /// The metadata file.
    pub metadata_location: String,
    /// The version of the pointer.
    pub pointer_version: i64,
}

/// What the store has answered so far about a table to load.
#[derive(Debug)]
pub struct LoadFacts {
    /// The warehouse of the prefix.
    pub warehouse: Found<WarehouseRecord>,
    /// The table of the path, in that warehouse.
    pub table: Found<TableRecord>,
    /// Whether the caller may read the table.
    pub access: Option<Access>,
    /// The branch or tag of the prefix.
    pub branch: Found<BranchRecord>,
    /// The table's pointer on that branch or tag.
    pub pointer: Found<BranchPointer>,
}

/// The next step of loading a table.
#[derive(Debug)]
pub enum LoadStep {
    /// Look up the warehouse of this name.
    AskWarehouse(String),
    /// Look up the table, in the namespace of these levels.
    AskTable(Vec<String>),
    /// Ask whether the caller may read the table.
    AskRead,
    /// Look up the branch or tag of this name.
    AskBranch(String),
    /// Look up the table's pointer: the frozen one of a tag, or the overlay of
    /// a branch.
    AskPointer {
        /// Whether the ref is a tag.
        tag: bool,
    },
    /// Answer that nothing changed since this tag.
    NotModified(String),
    /// Read the metadata file and answer with it.
    Read {
        /// Where the file is.
        location: String,
        /// Whether it lies in a foreign catalog's storage.
        foreign: bool,
        /// Whether to leave out the snapshots that nothing refers to.
        refs_only: bool,
        /// The tag of the answer.
        etag: String,
    },
    /// Answer with the error.
    Refuse(ApiError),
}

/// The model of the next step.
pub enum LoadView {
    /// Look up the warehouse of this name.
    AskWarehouse(Seq<char>),
    /// Look up the table, in the namespace of these levels.
    AskTable(Seq<Seq<char>>),
    /// Ask whether the caller may read the table.
    AskRead,
    /// Look up the branch or tag of this name.
    AskBranch(Seq<char>),
    /// Look up the table's pointer.
    AskPointer(bool),
    /// Answer that nothing changed since this tag.
    NotModified(Seq<char>),
    /// Read the metadata file and answer with it.
    Read(Seq<char>, bool, bool, Seq<char>),
    /// Answer with the error.
    Refuse(error::ErrorView),
}

/// Whether `step` is the modelled step.
pub open spec fn is_load_step(step: LoadStep, view: LoadView) -> bool {
    match step {
        LoadStep::AskWarehouse(name) => view == LoadView::AskWarehouse(name@),
        LoadStep::AskTable(levels) => view == LoadView::AskTable(text::texts(levels@)),
        LoadStep::AskRead => view is AskRead,
        LoadStep::AskBranch(name) => view == LoadView::AskBranch(name@),
        LoadStep::AskPointer { tag } => view == LoadView::AskPointer(tag),
        LoadStep::NotModified(etag) => view == LoadView::NotModified(etag@),
        LoadStep::Read { location, foreign, refs_only, etag } => view == LoadView::Read(
            location@,
            foreign,
            refs_only,
            etag@,
        ),
        LoadStep::Refuse(e) => view == LoadView::Refuse(e@),
    }
}

/// Which snapshots the query asks for: all, or only the referenced ones.
pub open spec fn refs_only_of(query: LoadTableQuery) -> Result<bool, error::ErrorView> {
    match query.snapshots {
        None => Ok(false),
        Some(mode) => if mode@ == "all"@ {
            Ok(false)
        } else if mode@ == "refs"@ {
            Ok(true)
        } else {
            Err(
                error::bad_request(
                    "invalid snapshots mode "@ + text::quoted(mode@) + ": expected \"all\" or \"refs\""@,
                ),
            )
        },
    }
}

/// The step once the pointer is known: an answer that nothing changed, a 404
/// where there is no metadata, or the file to read.
pub open spec fn pointed_step(
    record: TableRecord,
    missing: error::ErrorView,
    refs_only: bool,
    header: Header,
    location: Option<Seq<char>>,
    version: i64,
) -> LoadView {
    let etag = tables::etag_text(record.table_uuid@, version as int, refs_only);
    if header matches Header::Text(raw) && tables::header_matches(raw@, etag) {
        LoadView::NotModified(etag)
    } else {
        match location {
            None => LoadView::Refuse(missing),
            Some(at) => LoadView::Read(at, record.mirror_id is Some, refs_only, etag),
        }
    }
}

/// The step once the caller may read the table: the pointer is that of the
/// branch or tag that the prefix names, else the table's own.
pub open spec fn readable_step(
    prefix: Seq<char>,
    missing: error::ErrorView,
    record: TableRecord,
    refs_only: bool,
    header: Header,
    facts: LoadFacts,
) -> LoadView {
    match namespaces::prefix_branch(prefix) {
        None => pointed_step(
            record,
            missing,
            refs_only,
            header,
            text::opt_text(record.metadata_location),
            record.pointer_version,
        ),
        Some(name) => match facts.branch {
            Found::Unasked => LoadView::AskBranch(name),
            Found::Missing => LoadView::Refuse(error::error_of(ErrorKind::NoSuchWarehouse, prefix)),
            Found::Is(branch) => if branches::is_deleted(branch) {
                LoadView::Refuse(error::error_of(ErrorKind::NoSuchWarehouse, prefix))
            } else {
                match facts.pointer {
                    Found::Unasked => LoadView::AskPointer(branches::is_tag_record(branch)),
                    Found::Missing => LoadView::Refuse(missing),
                    Found::Is(p) => pointed_step(
                        record,
                        missing,
                        refs_only,
                        header,
                        Some(p.metadata_location@),
                        p.pointer_version,
                    ),
                }
            },
        },
    }
}

/// The step of loading a table: warehouse, table, access, the snapshot mode,
/// then the pointer.
pub open spec fn load_step(
    prefix: Seq<char>,
    raw: Seq<char>,
    name: Seq<char>,
    query: LoadTableQuery,
    header: Header,
    facts: LoadFacts,
) -> LoadView {
    match facts.warehouse {
        Found::Unasked => LoadView::AskWarehouse(namespaces::prefix_base(prefix)),
        Found::Missing => LoadView::Refuse(error::error_of(ErrorKind::NoSuchWarehouse, prefix)),
        Found::Is(_) => {
            let levels = namespaces::param_levels(raw);
            let missing = tables::missing_table(levels, name);
            match namespaces::levels_error(levels) {
                Some(e) => LoadView::Refuse(e),
                None => match facts.table {
                    Found::Unasked => LoadView::AskTable(levels),
                    Found::Missing => LoadView::Refuse(missing),
                    Found::Is(record) => match facts.access {
                        None => LoadView::AskRead,
                        Some(access) => match grants::access_error(access) {
                            Some(e) => LoadView::Refuse(e),
                            None => match refs_only_of(query) {
                                Err(e) => LoadView::Refuse(e),
                                Ok(refs_only) => readable_step(prefix, missing, record, refs_only, header, facts),
                            },
                        },
                    },
                },
            }
        },
    }
}

fn snapshots_mode(query: &LoadTableQuery) -> (r: Result<bool, ApiError>)
    ensures
        match refs_only_of(*query) {
            Ok(b) => r matches Ok(got) && got == b,
            Err(e) => error::fails_with(r, e),
        },
{
    match &query.snapshots {
        None => Ok(false),
        Some(mode) => if same(mode.as_str(), "all") {
            Ok(false)
        } else if same(mode.as_str(), "refs") {
            Ok(true)
        } else {
            Err(ApiError::bad_request(
                cat3(
                    "invalid snapshots mode ",
                    quote(mode.as_str()).as_str(),
                    ": expected \"all\" or \"refs\"",
                ).as_str(),
            ))
        },
    }
}

fn pointed(
    record: &TableRecord,
    levels: &Vec<String>,
    name: &str,
    refs_only: bool,
    header: &Header,
    location: Option<String>,
    version: i64,
) -> (r: LoadStep)
    ensures
        is_load_step(
            r,
            pointed_step(
                *record,
                tables::missing_table(text::texts(levels@), name@),
                refs_only,
                *header,
                text::opt_text(location),
                version,
            ),
        ),
{
    let etag = table_etag(record.table_uuid.as_str(), version, refs_only);
    if if_none_match_matches(header, etag.as_str()) {
        return LoadStep::NotModified(etag);
    }
    match location {
        None => LoadStep::Refuse(no_such_table(levels, name)),
        Some(location) => LoadStep::Read { location, foreign: record.mirror_id.is_some(), refs_only, etag },
    }
}

/// Takes the next step of loading a table.
pub fn load_table(
    prefix: &str,
    raw_namespace: &str,
    name: &str,
    query: &LoadTableQuery,
    if_none_match: &Header,
    facts: &LoadFacts,
) -> (r: LoadStep)
    ensures
        is_load_step(r, load_step(prefix@, raw_namespace@, name@, *query, *if_none_match, *facts)),
{
    let (base, branch_name) = split_prefix(prefix);
    match &facts.warehouse {
        Found::Unasked => { return LoadStep::AskWarehouse(base); },
        Found::Missing => { return LoadStep::Refuse(ApiError::new(ErrorKind::NoSuchWarehouse, prefix)); },
        Found::Is(_) => {},
    }
    let levels = match decode_namespace_param(raw_namespace) {
        Ok(levels) => levels,
        Err(e) => { return LoadStep::Refuse(e); },
    };
    let record = match &facts.table {
        Found::Unasked => { return LoadStep::AskTable(levels); },
        Found::Missing => { return LoadStep::Refuse(no_such_table(&levels, name)); },
        Found::Is(record) => record,
    };
    match &facts.access {
        None => { return LoadStep::AskRead; },
        Some(access) => match require(access) {
            Err(e) => { return LoadStep::Refuse(e); },
            Ok(()) => {},
        },
    }
    let refs_only = match snapshots_mode(query) {
        Ok(b) => b,
        Err(e) => { return LoadStep::Refuse(e); },
    };
    match branch_name {
        None => pointed(
            record,
            &levels,
            name,
            refs_only,
            if_none_match,
            crate::metadata::copy_opt(&record.metadata_location),
            record.pointer_version,
        ),
        Some(wanted) => match &facts.branch {
            Found::Unasked => LoadStep::AskBranch(wanted),
            Found::Missing => LoadStep::Refuse(ApiError::new(ErrorKind::NoSuchWarehouse, prefix)),
            Found::Is(branch) => if branch.deleted() {
                LoadStep::Refuse(ApiError::new(ErrorKind::NoSuchWarehouse, prefix))
            } else {
                match &facts.pointer {
                    Found::Unasked => LoadStep::AskPointer { tag: branch.is_tag() },
                    Found::Missing => LoadStep::Refuse(no_such_table(&levels, name)),
                    Found::Is(p) => pointed(
                        record,
                        &levels,
                        name,
                        refs_only,
                        if_none_match,
                        Some(p.metadata_location.clone()),
                        p.pointer_version,
                    ),
                }
            },
        },
    }
}

/// A table's metadata is read, or said to be unchanged, only for a caller who
/// may read the table.
pub proof fn loads_are_guarded(
    prefix: Seq<char>,
    raw: Seq<char>,
    name: Seq<char>,
    query: LoadTableQuery,
    header: Header,
    facts: LoadFacts,
)
    requires
        load_step(prefix, raw, name, query, header, facts) is Read || load_step(
            prefix,
            raw,
            name,
            query,
            header,
            facts,
        ) is NotModified,
    ensures
        facts.access == Some(Access::Granted),
        facts.table is Is,
{
}

/// A client that holds the tag of a table's current state is told that nothing
/// changed; the metadata is read only where the client's tags do not match.
pub proof fn unchanged_tables_are_not_read(
    prefix: Seq<char>,
    raw: Seq<char>,
    name: Seq<char>,
    query: LoadTableQuery,
    raw_header: String,
    facts: LoadFacts,
)
    ensures
        load_step(prefix, raw, name, query, Header::Text(raw_header), facts) matches LoadView::Read(_l, _f, _r, etag)
            ==> !tables::header_matches(raw_header@, etag),
        load_step(prefix, raw, name, query, Header::Text(raw_header), facts) matches LoadView::NotModified(etag)
            ==> tables::header_matches(raw_header@, etag),
{
}

/// A load reads the file that the prefix names. Under a warehouse alone, that is
/// the table's own metadata, at the table's own version. Under a branch or a
/// tag, it is the metadata of the table's pointer on that ref, at that pointer's
/// version; the tag of the answer is always that of the same pointer. A tag's
/// pointer is the frozen one, and a ref that was deleted reads nothing.
pub proof fn loads_read_the_named_pointer(
    warehouse: Seq<char>,
    branch: Option<Seq<char>>,
    raw: Seq<char>,
    name: Seq<char>,
    query: LoadTableQuery,
    header: Header,
    facts: LoadFacts,
)
    requires
        match branch {
            None => !warehouse.contains('@'),
            Some(b) => !b.contains('@'),
        },
    ensures
        ({
            let prefix = match branch {
                None => warehouse,
                Some(b) => warehouse + seq!['@'] + b,
            };
            match load_step(prefix, raw, name, query, header, facts) {
                LoadView::AskWarehouse(base) => base == warehouse && facts.warehouse is Unasked,
                LoadView::AskTable(_levels) => facts.warehouse is Is && facts.table is Unasked,
                LoadView::AskRead => facts.table is Is && facts.access is None,
                LoadView::AskBranch(asked) => branch == Some(asked) && facts.branch is Unasked,
                LoadView::AskPointer(tag) => branch is Some && facts.pointer is Unasked && (facts.branch
                    matches Found::Is(row) && tag == (row.kind@ == "tag"@) && row.state@ != "deleted"@),
                LoadView::NotModified(etag) => facts.table matches Found::Is(record) && match branch {
                    None => etag == tables::etag_text(
                        record.table_uuid@,
                        record.pointer_version as int,
                        query.snapshots matches Some(mode) && mode@ == "refs"@,
                    ),
                    Some(_) => facts.pointer matches Found::Is(p) && etag == tables::etag_text(
                        record.table_uuid@,
                        p.pointer_version as int,
                        query.snapshots matches Some(mode) && mode@ == "refs"@,
                    ),
                },
                LoadView::Read(location, foreign, refs_only, etag) => {
                    &&& facts.table matches Found::Is(record) && foreign == (record.mirror_id is Some) && match branch {
                        None => (record.metadata_location matches Some(own) && location == own@) && etag
                            == tables::etag_text(record.table_uuid@, record.pointer_version as int, refs_only),
                        Some(_) => (facts.branch matches Found::Is(row) && row.state@ != "deleted"@) && (facts.pointer
                            matches Found::Is(p) && location == p.metadata_location@ && etag == tables::etag_text(
                            record.table_uuid@,
                            p.pointer_version as int,
                            refs_only,
                        )),
                    }
                    &&& refs_only == (query.snapshots matches Some(mode) && mode@ == "refs"@)
                },
                LoadView::Refuse(_e) => true,
            }
        }),
{
    namespaces::prefixes_name_their_ref(
        warehouse,
        match branch {
            None => seq![],
            Some(b) => b,
        },
    );
    reveal_strlit("all");
    reveal_strlit("refs");
    assert("all"@.len() == 3 && "refs"@.len() == 4);
}

/// A load is refused only for a reason: the warehouse, the table, the ref or the
/// pointer is missing, the caller may not read the table, the namespace or the
/// snapshot mode is bad, or the table has no metadata.
pub proof fn loads_are_refused_for_a_reason(
    prefix: Seq<char>,
    raw: Seq<char>,
    name: Seq<char>,
    query: LoadTableQuery,
    header: Header,
    facts: LoadFacts,
)
    ensures
        load_step(prefix, raw, name, query, header, facts) matches LoadView::Refuse(e) ==> {
            ||| facts.warehouse is Missing && e.kind == ErrorKind::NoSuchWarehouse
            ||| !namespaces::good_levels(namespaces::param_levels(raw)) && e.kind == ErrorKind::BadRequest
            ||| facts.table is Missing && e.kind == ErrorKind::NoSuchTable
            ||| facts.access matches Some(access) && !(access is Granted)
            ||| (query.snapshots matches Some(mode) && mode@ != "all"@ && mode@ != "refs"@) && e.kind
                == ErrorKind::BadRequest
            ||| facts.branch is Missing && e.kind == ErrorKind::NoSuchWarehouse
            ||| (facts.branch matches Found::Is(row) && row.state@ == "deleted"@) && e.kind
                == ErrorKind::NoSuchWarehouse
            ||| facts.pointer is Missing && e.kind == ErrorKind::NoSuchTable
            ||| (facts.table matches Found::Is(record) && record.metadata_location is None) && e.kind
                == ErrorKind::NoSuchTable
        },
{
    namespaces::bad_levels_are_refused(namespaces::param_levels(raw));
}

/// Puts the client properties that a delegation adds into a load result's
/// configuration; says whether vended credentials are in it.
pub fn attach_delegation(
    config: TextMap<String>,
    delegation: RequestedDelegation,
    vended: Option<TextMap<String>>,
    signing: Option<TextMap<String>>,
) -> (r: (TextMap<String>, bool))
    ensures
        match delegation {
            RequestedDelegation::Own => r.0 == config && !r.1,
            RequestedDelegation::VendedCredentials => match vended {
                Some(more) => textmap::text_values(r.0@) == textmap::text_values(config@).union_prefer_right(
                    textmap::text_values(more@),
                ) && r.1,
                None => r.0 == config && !r.1,
            },
            RequestedDelegation::RemoteSigning => match signing {
                Some(more) => textmap::text_values(r.0@) == textmap::text_values(config@).union_prefer_right(
                    textmap::text_values(more@),
                ) && !r.1,
                None => r.0 == config && !r.1,
            },
        },
{
    match delegation {
        RequestedDelegation::Own => (config, false),
        RequestedDelegation::VendedCredentials => match vended {
            Some(more) => (config.with_all(&more), true),
            None => (config, false),
        },
        RequestedDelegation::RemoteSigning => match signing {
            Some(more) => (config.with_all(&more), false),
            None => (config, false),
        },
    }
}

// ---------------------------------------------------------------------------
// Dropping and renaming a table
// ---------------------------------------------------------------------------

/// The next step of dropping a table.
#[derive(Clone, Copy, Debug, PartialEq, Eq, Structural)]
pub enum DropStep {
    /// Look up the table.
    AskTable,
    /// Ask whether the caller may drop it.
    AskDrop,
    /// Drop it.
    Drop,
}

/// The step of dropping a table: access is decided whether or not the table
/// exists, and a foreign table is not dropped.
pub open spec fn drop_step(raw: Seq<char>, name: Seq<char>, facts: TableFacts) -> Result<DropStep, error::ErrorView> {
    let levels = namespaces::param_levels(raw);
    match namespaces::levels_error(levels) {
        Some(e) => Err(e),
        None => if facts.table is Unasked {
            Ok(DropStep::AskTable)
        } else {
            match facts.access {
                None => Ok(DropStep::AskDrop),
                Some(access) => match grants::access_error(access) {
                    Some(e) => Err(e),
                    None => match facts.table {
                        Found::Is(record) => match tables::foreign_table_error(
                            record,
                            tables::ident_text(levels, name),
                        ) {
                            Some(e) => Err(e),
                            None => Ok(DropStep::Drop),
                        },
                        _ => Ok(DropStep::Drop),
                    },
                },
            }
        },
    }
}

/// Takes the next step of dropping a table. That the table is not there, the
/// store finds out as it drops it.
pub fn drop_table(raw_namespace: &str, name: &str, facts: &TableFacts) -> (r: Result<DropStep, ApiError>)
    ensures
        error::outcome(r) == drop_step(raw_namespace@, name@, *facts),
{
    let levels = match decode_namespace_param(raw_namespace) {
        Ok(levels) => levels,
        Err(e) => { return Err(e); },
    };
    match &facts.table {
        Found::Unasked => { return Ok(DropStep::AskTable); },
        _ => {},
    }
    match &facts.access {
        None => { return Ok(DropStep::AskDrop); },
        Some(access) => match require(access) {
            Err(e) => { return Err(e); },
            Ok(()) => {},
        },
    }
    match &facts.table {
        Found::Is(record) => match reject_if_foreign(record, &levels, name) {
            Err(e) => Err(e),
            Ok(()) => Ok(DropStep::Drop),
        },
        _ => Ok(DropStep::Drop),
    }
}

/// The answer to a drop that the store refused.
pub fn drop_table_error(levels: &Vec<String>, name: &str, error: &StoreError) -> (r: ApiError)
    ensures
        r@ == (match error.kind {
            StoreKind::NotFound => tables::missing_table(text::texts(levels@), name@),
            _ => error::store_failure(*error),
        }),
{
    match error.kind {
        StoreKind::NotFound => no_such_table(levels, name),
        _ => ApiError::from_store(error),
    }
}

/// What a drop deletes at once: the metadata directory, where a purge was
/// asked for and the table's location follows the convention.
pub fn purge_on_drop(query: &DropTableQuery, metadata_location: &Option<String>) -> (r: Option<String>)
    ensures
        match r {
            Some(p) => {
                &&& query.purge_requested
                &&& metadata_location matches Some(at) && exists|i: int|
                    #[trigger] text::stands_last(at@, "/metadata/"@, i) && p@ == at@.take(i) + "/metadata"@
            },
            None => {
                ||| !query.purge_requested
                ||| metadata_location is None
                ||| forall|i: int| !#[trigger] text::stands_in(metadata_location->0@, "/metadata/"@, i)
            },
        },
{
    if !query.purge_requested {
        return None;
    }
    match metadata_location {
        Some(at) => tables::purge_prefix(at.as_str()),
        None => None,
    }
}

/// What the store has answered so far about a rename.
#[derive(Debug)]
pub struct RenameFacts {
    /// The source table.
    pub source: Found<TableRecord>,
    /// Whether the caller may write to the source table.
    pub source_access: Option<Access>,
    /// Whether the caller may create tables in the destination namespace.
    pub destination_access: Option<Access>,
}

/// The next step of a rename.
#[derive(Debug)]
pub enum RenameStep {
    /// Look up the source table.
    AskSource,
    /// Ask whether the caller may write to the source table.
    AskWriteSource,
    /// Ask whether the caller may create tables in the destination namespace.
    AskCreateInDestination,
    /// Rename the table.
    Rename,
    /// Answer with the error.
    Refuse(ApiError),
}

/// The model of the next step.
pub enum RenameView {
    /// Look up the source table.
    AskSource,
    /// Ask whether the caller may write to the source table.
    AskWriteSource,
    /// Ask whether the caller may create tables in the destination namespace.
    AskCreateInDestination,
    /// Rename the table.
    Rename,
    /// Answer with the error.
    Refuse(error::ErrorView),
}

impl View for RenameStep {
    type V = RenameView;

    open spec fn view(&self) -> RenameView {
        match *self {
            RenameStep::AskSource => RenameView::AskSource,
            RenameStep::AskWriteSource => RenameView::AskWriteSource,
            RenameStep::AskCreateInDestination => RenameView::AskCreateInDestination,
            RenameStep::Rename => RenameView::Rename,
            RenameStep::Refuse(e) => RenameView::Refuse(e@),
        }
    }
}

/// The foreign-table refusal of the source, where it is known and foreign.
pub open spec fn foreign_source(request: RenameTableRequest, facts: RenameFacts) -> Option<error::ErrorView> {
    match facts.source {
        Found::Is(record) => tables::foreign_table_error(
            record,
            tables::ident_text(text::texts(request.source.namespace@), request.source.name@),
        ),
        _ => None,
    }
}

/// The step of a rename: the request, the source, access to it, access to the
/// destination, then the warehouse.
pub open spec fn rename_step(
    warehouse: WarehouseRecord,
    request: RenameTableRequest,
    facts: RenameFacts,
) -> RenameView {
    match tables::table_name_error(request.destination.name@) {
        Some(e) => RenameView::Refuse(e),
        None => if request.source.namespace@.len() == 0 || request.destination.namespace@.len() == 0 {
            RenameView::Refuse(error::bad_request("source and destination identifiers must include a namespace"@))
        } else if facts.source is Unasked {
            RenameView::AskSource
        } else {
            match facts.source_access {
                None => RenameView::AskWriteSource,
                Some(access) => match grants::access_error(access) {
                    Some(e) => RenameView::Refuse(e),
                    None => match foreign_source(request, facts) {
                        Some(e) => RenameView::Refuse(e),
                        None => match facts.destination_access {
                            None => RenameView::AskCreateInDestination,
                            Some(there) => match grants::access_error(there) {
                                Some(e) => RenameView::Refuse(e),
                                None => match tables::foreign_warehouse_error(warehouse) {
                                    Some(e) => RenameView::Refuse(e),
                                    None => RenameView::Rename,
                                },
                            },
                        },
                    },
                },
            }
        },
    }
}

/// Takes the next step of a rename within a warehouse.
pub fn rename_table(warehouse: &WarehouseRecord, request: &RenameTableRequest, facts: &RenameFacts) -> (r: RenameStep)
    ensures
        r@ == rename_step(*warehouse, *request, *facts),
{
    match validate_table_name(request.destination.name.as_str()) {
        Err(e) => { return RenameStep::Refuse(e); },
        Ok(()) => {},
    }
    if request.source.namespace.len() == 0 || request.destination.namespace.len() == 0 {
        return RenameStep::Refuse(
            ApiError::bad_request("source and destination identifiers must include a namespace"),
        );
    }
    match &facts.source {
        Found::Unasked => { return RenameStep::AskSource; },
        _ => {},
    }
    match &facts.source_access {
        None => { return RenameStep::AskWriteSource; },
        Some(access) => match require(access) {
            Err(e) => { return RenameStep::Refuse(e); },
            Ok(()) => {},
        },
    }
    match &facts.source {
        Found::Is(record) => match reject_if_foreign(
            record,
            &request.source.namespace,
            request.source.name.as_str(),
        ) {
            Err(e) => { return RenameStep::Refuse(e); },
            Ok(()) => {},
        },
        _ => {},
    }
    match &facts.destination_access {
        None => { return RenameStep::AskCreateInDestination; },
        Some(access) => match require(access) {
            Err(e) => { return RenameStep::Refuse(e); },
            Ok(()) => {},
        },
    }
    match reject_if_foreign_warehouse(warehouse) {
        Err(e) => RenameStep::Refuse(e),
        Ok(()) => RenameStep::Rename,
    }
}

/// A table is renamed only for a caller who may write to it and may create
/// tables where it lands, and never a foreign one.
pub proof fn renames_are_guarded(warehouse: WarehouseRecord, request: RenameTableRequest, facts: RenameFacts)
    requires
        rename_step(warehouse, request, facts) is Rename,
    ensures
        facts.source_access == Some(Access::Granted),
        facts.destination_access == Some(Access::Granted),
        facts.source matches Found::Is(record) ==> record.mirror_id is None,
        !warehouse.foreign,
{
}

/// The answer to a rename that the store refused: a missing namespace and a
/// missing table are told apart by how the store's message starts.
pub fn rename_error(error: &StoreError) -> (r: ApiError)
    ensures
        r@ == (match error.kind {
            StoreKind::NotFound => if "namespace"@.is_prefix_of(error.message@) {
                error::error_of(ErrorKind::NoSuchNamespace, error.message@)
            } else {
                error::error_of(ErrorKind::NoSuchTable, error.message@)
            },
            StoreKind::Conflict => error::error_of(ErrorKind::AlreadyExists, error.message@),
            _ => error::store_failure(*error),
        }),
{
    match error.kind {
        StoreKind::NotFound => if starts(error.message.as_str(), "namespace") {
            ApiError::new(ErrorKind::NoSuchNamespace, error.message.as_str())
        } else {
            ApiError::new(ErrorKind::NoSuchTable, error.message.as_str())
        },
        StoreKind::Conflict => ApiError::new(ErrorKind::AlreadyExists, error.message.as_str()),
        _ => ApiError::from_store(error),
    }
}

/// The next step of taking a metrics report.
#[derive(Clone, Copy, Debug, PartialEq, Eq, Structural)]
pub enum ReportStep {
    /// Look up the table.
    AskTable,
    /// Ask whether the caller may write to it.
    AskWrite,
    /// Keep the report.
    Keep,
}

/// The step of taking a metrics report.
pub open spec fn report_step(raw: Seq<char>, name: Seq<char>, is_object: bool, facts: TableFacts) -> Result<
    ReportStep,
    error::ErrorView,
> {
    let levels = namespaces::param_levels(raw);
    match namespaces::levels_error(levels) {
        Some(e) => Err(e),
        None => match facts.table {
            Found::Unasked => Ok(ReportStep::AskTable),
            Found::Missing => Err(tables::missing_table(levels, name)),
            Found::Is(_) => match facts.access {
                None => Ok(ReportStep::AskWrite),
                Some(access) => match grants::access_error(access) {
                    Some(e) => Err(e),
                    None => if is_object {
                        Ok(ReportStep::Keep)
                    } else {
                        Err(error::bad_request("metrics report must be a JSON object"@))
                    },
                },
            },
        },
    }
}

/// Takes the next step of taking a metrics report: the table, whether the
/// caller may write to it, then the report, which is a JSON object.
pub fn report_metrics(raw_namespace: &str, name: &str, is_object: bool, facts: &TableFacts) -> (r: Result<
    ReportStep,
    ApiError,
>)
    ensures
        error::outcome(r) == report_step(raw_namespace@, name@, is_object, *facts),
{
    let levels = match decode_namespace_param(raw_namespace) {
        Ok(levels) => levels,
        Err(e) => { return Err(e); },
    };
    match &facts.table {
        Found::Unasked => { return Ok(ReportStep::AskTable); },
        Found::Missing => { return Err(no_such_table(&levels, name)); },
        Found::Is(_) => {},
    }
    match &facts.access {
        None => { return Ok(ReportStep::AskWrite); },
        Some(access) => match require(access) {
            Err(e) => { return Err(e); },
            Ok(()) => {},
        },
    }
    if is_object {
        Ok(ReportStep::Keep)
    } else {
        Err(ApiError::bad_request("metrics report must be a JSON object"))
    }
}

/// A table is dropped only by a caller who may drop it, and never where it is
/// foreign.
pub proof fn drops_are_guarded(raw: Seq<char>, name: Seq<char>, facts: TableFacts)
    requires
        drop_step(raw, name, facts) == Ok::<DropStep, error::ErrorView>(DropStep::Drop),
    ensures
        facts.access == Some(Access::Granted),
        facts.table matches Found::Is(record) ==> record.mirror_id is None,
{
}

/// Each step of creating or registering a table comes only where what it asks
/// for is still open and all that goes before it was answered well. A table is
/// admitted exactly where its warehouse and its namespace exist, the caller may
/// create there, the warehouse is native, the name is good, nothing is to be
/// overwritten, and neither a table nor a view has the name.
pub proof fn new_tables_are_admitted_as_asked(
    prefix: Seq<char>,
    raw: Seq<char>,
    name: Seq<char>,
    overwrite: bool,
    facts: NewTableFacts,
)
    ensures
        ({
            let good_path = namespaces::good_levels(namespaces::param_levels(raw));
            let good_name = name.len() > 0 && !name.contains('\u{1f}');
            let granted = facts.access matches Some(access) && access is Granted;
            let native = facts.warehouse matches Found::Is(w) && !w.foreign;
            let open = good_path && facts.namespace is Is && granted && native && good_name && !overwrite;
            match new_table_step(prefix, raw, name, overwrite, facts) {
                NewTableView::AskWarehouse => facts.warehouse is Unasked,
                NewTableView::AskNamespace => facts.warehouse is Is && good_path && facts.namespace is Unasked,
                NewTableView::AskCreateTable => facts.warehouse is Is && good_path && facts.namespace is Is
                    && facts.access is None,
                NewTableView::AskTable => open && facts.table is Unasked,
                NewTableView::AskView => open && facts.table is Missing && facts.view is Unasked,
                NewTableView::Admit => open && facts.table is Missing && facts.view is Missing,
                NewTableView::Refuse(e) => {
                    ||| facts.warehouse is Missing && e.kind == ErrorKind::NoSuchWarehouse
                    ||| !good_path && e.kind == ErrorKind::BadRequest
                    ||| facts.namespace is Missing && e.kind == ErrorKind::NoSuchNamespace
                    ||| facts.access is Some && !granted
                    ||| !native && e.kind == ErrorKind::ForeignReadOnly
                    ||| (!good_name || overwrite) && e.kind == ErrorKind::BadRequest
                    ||| (facts.table is Is || facts.view is Is) && e.kind == ErrorKind::AlreadyExists
                },
            }
        }),
{
    namespaces::bad_levels_are_refused(namespaces::param_levels(raw));
}

/// A new table has format version 2, unless its properties name another one: 1,
/// 2 and 3 are taken, anything else is a bad request.
pub proof fn format_versions_are_read(properties: Map<Seq<char>, String>)
    ensures
        match format_version_of(properties) {
            Ok(version) => {
                ||| !properties.dom().contains("format-version"@) && version == 2
                ||| properties.dom().contains("format-version"@) && 1 <= version <= 3 && text::signed_value(
                    properties["format-version"@]@,
                ) == Some(version as int)
            },
            Err(e) => e.kind == ErrorKind::BadRequest && properties.dom().contains("format-version"@) && !(
            text::signed_value(properties["format-version"@]@) matches Some(n) && 1 <= n <= 3),
        },
{
}

/// A new table is built as asked. It lies where the request says, or under the
/// warehouse root with its UUID behind its name. The format version is no
/// property of the table, and every other property is kept. The schema comes
/// first, the partition spec and the sort order only where they are given.
pub proof fn new_tables_are_built_as_asked(
    plan: NewTablePlan,
    request: CreateTableRequest,
    root: Seq<char>,
    levels: Seq<Seq<char>>,
    uuid: Seq<char>,
    version: u8,
    key: Seq<char>,
)
    requires
        is_new_table_plan(plan, request, root, levels, uuid, version),
    ensures
        !plan.properties@.dom().contains("format-version"@),
        key != "format-version"@ ==> (plan.properties@.dom().contains(key) <==> request.properties@.dom().contains(
            key,
        )) && (plan.properties@.dom().contains(key) ==> plan.properties@[key] == request.properties@[key]),
        plan.steps@.take(3) == seq![BuildStep::AssignUuid, BuildStep::AddSchema, BuildStep::SetCurrentSchema],
        plan.steps@.contains(BuildStep::AddSpec) == request.has_partition_spec,
        plan.steps@.contains(BuildStep::SetDefaultSpec) == request.has_partition_spec,
        plan.steps@.contains(BuildStep::AddSortOrder) == request.has_write_order,
        plan.steps@.contains(BuildStep::SetDefaultSortOrder) == request.has_write_order,
        plan.steps@.contains(BuildStep::SetProperties) == (plan.properties.pairs().len() > 0),
        request.location is None ==> (exists|front: Seq<char>|
            plan.location@ == #[trigger] (front + request.name@ + "-"@ + uuid)),
        request.location matches Some(at) && !text::is_blank(at@) && (at@.len() > 0 && at@.last() != '/')
            ==> plan.location@ == request.location->0@,
{
    let steps = plan.steps@;
    let start = seq![BuildStep::AssignUuid, BuildStep::AddSchema, BuildStep::SetCurrentSchema];
    let spec = if request.has_partition_spec {
        seq![BuildStep::AddSpec, BuildStep::SetDefaultSpec]
    } else {
        seq![]
    };
    let order = if request.has_write_order {
        seq![BuildStep::AddSortOrder, BuildStep::SetDefaultSortOrder]
    } else {
        seq![]
    };
    let properties = if plan.properties.pairs().len() > 0 {
        seq![BuildStep::SetProperties]
    } else {
        seq![]
    };
    assert(steps.take(3) =~= start);
    if request.has_partition_spec {
        assert(steps[3] == BuildStep::AddSpec && steps[4] == BuildStep::SetDefaultSpec);
    }
    if request.has_write_order {
        assert(steps[(3 + spec.len()) as int] == BuildStep::AddSortOrder);
        assert(steps[(4 + spec.len()) as int] == BuildStep::SetDefaultSortOrder);
    }
    if plan.properties.pairs().len() > 0 {
        assert(steps[(3 + spec.len() + order.len()) as int] == BuildStep::SetProperties);
    }
    let base = text::without_trailing(root, '/');
    let path = text::join_with(levels, "/"@);
    if request.location is None {
        if path.len() == 0 {
            assert(plan.location@ =~= (base + "/"@) + request.name@ + "-"@ + uuid);
        } else {
            assert(plan.location@ =~= (base + "/"@ + path + "/"@) + request.name@ + "-"@ + uuid);
        }
    }
}

/// A table is dropped exactly where the caller may drop it and it is native;
/// whether it exists is left to the drop itself.
pub proof fn drops_go_through(raw: Seq<char>, name: Seq<char>, facts: TableFacts)
    ensures
        match drop_step(raw, name, facts) {
            Ok(DropStep::AskTable) => facts.table is Unasked,
            Ok(DropStep::AskDrop) => !(facts.table is Unasked) && facts.access is None,
            Ok(DropStep::Drop) => !(facts.table is Unasked) && (facts.access matches Some(access) && access is Granted)
                && (facts.table matches Found::Is(record) ==> record.mirror_id is None),
            Err(e) => {
                ||| !namespaces::good_levels(namespaces::param_levels(raw)) && e.kind == ErrorKind::BadRequest
                ||| facts.access matches Some(access) && !(access is Granted)
                ||| (facts.table matches Found::Is(record) && record.mirror_id is Some) && e.kind
                    == ErrorKind::ForeignReadOnly
            },
        },
{
    namespaces::bad_levels_are_refused(namespaces::param_levels(raw));
}

/// A table is renamed exactly where the caller may write the source and create
/// in the destination, both name a namespace, the new name is good, and neither
/// the table nor the warehouse is foreign.
pub proof fn renames_go_through(warehouse: WarehouseRecord, request: RenameTableRequest, facts: RenameFacts)
    ensures
        ({
            let good = request.destination.name@.len() > 0 && !request.destination.name@.contains('\u{1f}')
                && request.source.namespace@.len() > 0 && request.destination.namespace@.len() > 0;
            let from = facts.source_access matches Some(access) && access is Granted;
            let into = facts.destination_access matches Some(access) && access is Granted;
            let native = facts.source matches Found::Is(record) ==> record.mirror_id is None;
            match rename_step(warehouse, request, facts) {
                RenameView::AskSource => good && facts.source is Unasked,
                RenameView::AskWriteSource => good && !(facts.source is Unasked) && facts.source_access is None,
                RenameView::AskCreateInDestination => good && from && native && facts.destination_access is None,
                RenameView::Rename => good && !(facts.source is Unasked) && from && native && into
                    && !warehouse.foreign,
                RenameView::Refuse(e) => {
                    ||| !good && e.kind == ErrorKind::BadRequest
                    ||| facts.source_access is Some && !from
                    ||| facts.destination_access is Some && !into
                    ||| (!native || warehouse.foreign) && e.kind == ErrorKind::ForeignReadOnly
                },
            }
        }),
{
}

/// A table is said to exist, and a metrics report is kept, only for a table that
/// is there and a caller who holds the privilege.
pub proof fn looks_and_reports_are_answered(raw: Seq<char>, name: Seq<char>, is_object: bool, facts: TableFacts)
    ensures
        ({
            let granted = facts.access matches Some(access) && access is Granted;
            let there = facts.table is Is;
            let good_path = namespaces::good_levels(namespaces::param_levels(raw));
            &&& match exists_step(raw, name, facts) {
                Ok(ExistsStep::AskTable) => good_path && facts.table is Unasked,
                Ok(ExistsStep::AskRead) => good_path && there && facts.access is None,
                Ok(ExistsStep::Exists) => good_path && there && granted,
                Err(e) => {
                    ||| !good_path && e.kind == ErrorKind::BadRequest
                    ||| facts.table is Missing && e.kind == ErrorKind::NoSuchTable
                    ||| facts.access is Some && !granted
                },
            }
            &&& match report_step(raw, name, is_object, facts) {
                Ok(ReportStep::AskTable) => good_path && facts.table is Unasked,
                Ok(ReportStep::AskWrite) => good_path && there && facts.access is None,
                Ok(ReportStep::Keep) => good_path && there && granted && is_object,
                Err(e) => {
                    ||| (!good_path || !is_object) && e.kind == ErrorKind::BadRequest
                    ||| facts.table is Missing && e.kind == ErrorKind::NoSuchTable
                    ||| facts.access is Some && !granted
                },
            }
        }),
{
    namespaces::bad_levels_are_refused(namespaces::param_levels(raw));
}

} // verus!
