//! Data quality: contracts and monitors and what they bind to, the resolution
//! of quarantined snapshots, and incidents.

use vstd::prelude::*;

use crate::contracts;
use crate::contracts::EnforcementMode;
use crate::error;
use crate::error::{ApiError, ErrorKind};
use crate::grants;
use crate::grants::{require, Access, Found};
use crate::limits;
use crate::limits::clamp;
use crate::metadata;
use crate::metadata::{RefType, SnapshotRef, TableMetadata};
use crate::namespaces;
use crate::namespaces::decode_dotted_namespace;
use crate::tables::TableRecord;
use crate::text;
use crate::text::{blank, cat2, cat3, cat4, cat5, decimal_i64, quote, same};
use crate::textmap;
use crate::textmap::TextMap;

verus! {

/// The branch that quarantined commits go to where a contract names none.
pub const DEFAULT_QUARANTINE_BRANCH: &'static str = "meridian_quarantine";

// ---------------------------------------------------------------------------
// The table of a path
// ---------------------------------------------------------------------------

/// The 404 of a table of the quality routes.
pub open spec fn no_quality_table(warehouse: Seq<char>, namespace: Seq<char>, table: Seq<char>) -> error::ErrorView {
    error::error_of(
        ErrorKind::NoSuchTable,
        "table "@ + warehouse + "/"@ + namespace + "/"@ + table + " does not exist"@,
    )
}

fn missing_quality_table(warehouse: &str, namespace: &str, table: &str) -> (r: ApiError)
    ensures
        r@ == no_quality_table(warehouse@, namespace@, table@),
{
    let path = cat5(warehouse, "/", namespace, "/", table);
    let message = cat3("table ", path.as_str(), " does not exist");
    assert(message@ =~= "table "@ + warehouse@ + "/"@ + namespace@ + "/"@ + table@ + " does not exist"@);
    ApiError::new(ErrorKind::NoSuchTable, message.as_str())
}

/// How far a table of the quality routes is resolved.
#[derive(Debug)]
pub enum TableGate<'a> {
    /// Look up the warehouse.
    AskWarehouse,
    /// Look up the table in the namespace of these levels.
    AskTable(Vec<String>),
    /// The table.
    Open(&'a TableRecord),
}

/// The model of how far a table is resolved.
pub enum GateView {
    /// Look up the warehouse.
    AskWarehouse,
    /// Look up the table in the namespace of these levels.
    AskTable(Seq<Seq<char>>),
    /// The table.
    Open(TableRecord),
}

impl<'a> View for TableGate<'a> {
    type V = GateView;

    open spec fn view(&self) -> GateView {
        match *self {
            TableGate::AskWarehouse => GateView::AskWarehouse,
            TableGate::AskTable(levels) => GateView::AskTable(text::texts(levels@)),
            TableGate::Open(record) => GateView::Open(*record),
        }
    }
}

/// The way of the quality routes to a table, whose namespace is dotted:
/// management access, then the warehouse, then the table.
pub open spec fn table_gate(
    access: Access,
    warehouse: Seq<char>,
    namespace: Seq<char>,
    table: Seq<char>,
    has_warehouse: Found<()>,
    record: Found<TableRecord>,
) -> Result<GateView, error::ErrorView> {
    match grants::access_error(access) {
        Some(e) => Err(e),
        None => match has_warehouse {
            Found::Unasked => Ok(GateView::AskWarehouse),
            Found::Missing => Err(error::error_of(ErrorKind::NoSuchWarehouse, warehouse)),
            Found::Is(_) => match namespaces::levels_error(namespaces::dotted_levels(namespace)) {
                Some(e) => Err(e),
                None => match record {
                    Found::Unasked => Ok(GateView::AskTable(namespaces::dotted_levels(namespace))),
                    Found::Missing => Err(no_quality_table(warehouse, namespace, table)),
                    Found::Is(r) => Ok(GateView::Open(r)),
                },
            },
        },
    }
}

/// Takes the next step of the way to a table.
pub fn resolve_table<'a>(
    access: &Access,
    warehouse: &str,
    namespace: &str,
    table: &str,
    has_warehouse: &Found<()>,
    record: &'a Found<TableRecord>,
) -> (r: Result<TableGate<'a>, ApiError>)
    ensures
        error::viewed(r) == table_gate(*access, warehouse@, namespace@, table@, *has_warehouse, *record),
{
    match require(access) {
        Err(e) => { return Err(e); },
        Ok(()) => {},
    }
    match has_warehouse {
        Found::Unasked => { return Ok(TableGate::AskWarehouse); },
        Found::Missing => { return Err(ApiError::new(ErrorKind::NoSuchWarehouse, warehouse)); },
        Found::Is(_) => {},
    }
    let levels = match decode_dotted_namespace(namespace) {
        Err(e) => { return Err(e); },
        Ok(levels) => levels,
    };
    match record {
        Found::Unasked => Ok(TableGate::AskTable(levels)),
        Found::Missing => Err(missing_quality_table(warehouse, namespace, table)),
        Found::Is(r) => Ok(TableGate::Open(r)),
    }
}

/// How a table is named in the answers: warehouse, namespace and table, with
/// dots between.
pub fn table_ident(warehouse: &str, namespace: &str, table: &str) -> (r: String)
    ensures
        r@ == warehouse@ + "."@ + namespace@ + "."@ + table@,
{
    cat5(warehouse, ".", namespace, ".", table)
}

// ---------------------------------------------------------------------------
// Contracts and monitors
// ---------------------------------------------------------------------------

/// The refusal of a contract mode.
pub open spec fn mode_error(name: Seq<char>) -> error::ErrorView {
    error::bad_request(
        "invalid contract mode "@ + text::quoted(name) + ": expected warn, quarantine, or block"@,
    )
}

/// The mode that a request names, where it names one.
pub fn named_mode(raw: Option<&str>) -> (r: Result<Option<EnforcementMode>, ApiError>)
    ensures
        match raw {
            None => r matches Ok(got) && got is None,
            Some(s) => match contracts::mode_of(s@) {
                Some(mode) => r matches Ok(got) && got == Some(mode),
                None => error::fails_with(r, mode_error(s@)),
            },
        },
{
    match raw {
        None => Ok(None),
        Some(s) => match EnforcementMode::parse(s) {
            Some(mode) => Ok(Some(mode)),
            None => Err(ApiError::bad_request(
                cat3("invalid contract mode ", quote(s).as_str(), ": expected warn, quarantine, or block").as_str(),
            )),
        },
    }
}

/// The mode of a new contract: to warn, where none is named.
pub fn parse_mode(raw: Option<&str>) -> (r: Result<EnforcementMode, ApiError>)
    ensures
        match raw {
            None => r matches Ok(got) && got == EnforcementMode::Warn,
            Some(s) => match contracts::mode_of(s@) {
                Some(mode) => r matches Ok(got) && got == mode,
                None => error::fails_with(r, mode_error(s@)),
            },
        },
{
    match named_mode(raw) {
        Err(e) => Err(e),
        Ok(Some(mode)) => Ok(mode),
        Ok(None) => Ok(EnforcementMode::Warn),
    }
}

/// The quarantine branch of a contract: the one that is named, unless it is
/// blank.
pub fn quarantine_branch(named: &Option<String>) -> (r: String)
    ensures
        r@ == (match *named {
            Some(b) => if text::is_blank(b@) { DEFAULT_QUARANTINE_BRANCH@ } else { b@ },
            None => DEFAULT_QUARANTINE_BRANCH@,
        }),
{
    match named {
        Some(b) => if blank(b.as_str()) { DEFAULT_QUARANTINE_BRANCH.to_owned() } else { b.clone() },
        None => DEFAULT_QUARANTINE_BRANCH.to_owned(),
    }
}

/// What a contract or a monitor binds to.
#[derive(Clone, Copy, Debug, PartialEq, Eq, Structural)]
pub enum BoundTo {
    /// One table.
    Table,
    /// Every table of a namespace.
    Namespace,
}

/// The binding of a wire name.
pub open spec fn bound_to_of(name: Seq<char>) -> Option<BoundTo> {
    if name == "table"@ {
        Some(BoundTo::Table)
    } else if name == "namespace"@ {
        Some(BoundTo::Namespace)
    } else {
        None
    }
}

/// The binding that a request to create a contract or a monitor names.
#[derive(Debug)]
pub struct BindingRequest {
    /// The warehouse.
    pub warehouse: String,
    /// What to bind to: `table` or `namespace`.
    pub bound_to: String,
    /// The namespace, or that of the table, dotted.
    pub namespace: String,
    /// The table, where a table is bound.
    pub table: Option<String>,
}

/// The next step of resolving a binding.
#[derive(Debug)]
pub enum BindingStep {
    /// Look up the warehouse.
    AskWarehouse,
    /// Look up the namespace of these levels.
    AskNamespace(Vec<String>),
    /// Look up the table in the namespace of these levels.
    AskTable(Vec<String>),
    /// Bind to the securable of this id.
    Bind(BoundTo, String),
}

/// The model of a step of resolving a binding.
pub enum BindingView {
    /// Look up the warehouse.
    AskWarehouse,
    /// Look up the namespace of these levels.
    AskNamespace(Seq<Seq<char>>),
    /// Look up the table in the namespace of these levels.
    AskTable(Seq<Seq<char>>),
    /// Bind to the securable of this id.
    Bind(BoundTo, String),
}

impl View for BindingStep {
    type V = BindingView;

    open spec fn view(&self) -> BindingView {
        match *self {
            BindingStep::AskWarehouse => BindingView::AskWarehouse,
            BindingStep::AskNamespace(levels) => BindingView::AskNamespace(text::texts(levels@)),
            BindingStep::AskTable(levels) => BindingView::AskTable(text::texts(levels@)),
            BindingStep::Bind(bound_to, id) => BindingView::Bind(bound_to, id),
        }
    }
}

/// The step of resolving a binding.
pub open spec fn binding_step(req: BindingRequest, warehouse: Found<()>, securable: Found<String>) -> Result<
    BindingView,
    error::ErrorView,
> {
    match bound_to_of(req.bound_to@) {
        None => Err(
            error::bad_request(
                "invalid bound_to "@ + text::quoted(req.bound_to@) + ": expected table or namespace"@,
            ),
        ),
        Some(bound_to) => match warehouse {
            Found::Unasked => Ok(BindingView::AskWarehouse),
            Found::Missing => Err(error::error_of(ErrorKind::NoSuchWarehouse, req.warehouse@)),
            Found::Is(_) => match namespaces::levels_error(namespaces::dotted_levels(req.namespace@)) {
                Some(e) => Err(e),
                None => match bound_to {
                    BoundTo::Namespace => match securable {
                        Found::Unasked => Ok(BindingView::AskNamespace(namespaces::dotted_levels(req.namespace@))),
                        Found::Missing => Err(
                            error::error_of(
                                ErrorKind::NoSuchNamespace,
                                "namespace "@ + text::quoted(req.namespace@) + " does not exist in "@
                                    + req.warehouse@,
                            ),
                        ),
                        Found::Is(id) => Ok(BindingView::Bind(bound_to, id)),
                    },
                    BoundTo::Table => match req.table {
                        None => Err(error::bad_request("a table binding requires a 'table' name"@)),
                        Some(name) => match securable {
                            Found::Unasked => Ok(BindingView::AskTable(namespaces::dotted_levels(req.namespace@))),
                            Found::Missing => Err(no_quality_table(req.warehouse@, req.namespace@, name@)),
                            Found::Is(id) => Ok(BindingView::Bind(bound_to, id)),
                        },
                    },
                },
            },
        },
    }
}

/// Takes the next step of resolving what a contract or a monitor binds to.
pub fn resolve_binding(req: &BindingRequest, warehouse: &Found<()>, securable: &Found<String>) -> (r: Result<
    BindingStep,
    ApiError,
>)
    ensures
        error::viewed(r) == binding_step(*req, *warehouse, *securable),
{
    let bound_to = if same(req.bound_to.as_str(), "table") {
        BoundTo::Table
    } else if same(req.bound_to.as_str(), "namespace") {
        BoundTo::Namespace
    } else {
        return Err(ApiError::bad_request(
            cat3("invalid bound_to ", quote(req.bound_to.as_str()).as_str(), ": expected table or namespace").as_str(),
        ));
    };
    match warehouse {
        Found::Unasked => { return Ok(BindingStep::AskWarehouse); },
        Found::Missing => { return Err(ApiError::new(ErrorKind::NoSuchWarehouse, req.warehouse.as_str())); },
        Found::Is(_) => {},
    }
    let levels = match decode_dotted_namespace(req.namespace.as_str()) {
        Err(e) => { return Err(e); },
        Ok(levels) => levels,
    };
    match bound_to {
        BoundTo::Namespace => match securable {
            Found::Unasked => Ok(BindingStep::AskNamespace(levels)),
            Found::Missing => Err(ApiError::new(
                ErrorKind::NoSuchNamespace,
                cat4(
                    "namespace ",
                    quote(req.namespace.as_str()).as_str(),
                    " does not exist in ",
                    req.warehouse.as_str(),
                ).as_str(),
            )),
            Found::Is(id) => Ok(BindingStep::Bind(bound_to, id.clone())),
        },
        BoundTo::Table => match &req.table {
            None => Err(ApiError::bad_request("a table binding requires a 'table' name")),
            Some(name) => match securable {
                Found::Unasked => Ok(BindingStep::AskTable(levels)),
                Found::Missing => Err(
                    missing_quality_table(req.warehouse.as_str(), req.namespace.as_str(), name.as_str()),
                ),
                Found::Is(id) => Ok(BindingStep::Bind(bound_to, id.clone())),
            },
        },
    }
}

/// The signal that a monitor watches.
#[derive(Clone, Copy, Debug, PartialEq, Eq, Structural)]
pub enum MonitorKind {
    /// How old the newest data is.
    Freshness,
    /// How much data there is.
    Volume,
    /// Changes of the schema.
    SchemaChange,
    /// The size of the files.
    FileSize,
    /// Snapshots that nothing expires.
    SnapshotDebt,
    /// Commits that fail.
    CommitFailure,
}

/// The monitor kind of a wire name.
pub open spec fn monitor_kind_of(name: Seq<char>) -> Option<MonitorKind> {
    if name == "freshness"@ {
        Some(MonitorKind::Freshness)
    } else if name == "volume"@ {
        Some(MonitorKind::Volume)
    } else if name == "schema_change"@ {
        Some(MonitorKind::SchemaChange)
    } else if name == "file_size"@ {
        Some(MonitorKind::FileSize)
    } else if name == "snapshot_debt"@ {
        Some(MonitorKind::SnapshotDebt)
    } else if name == "commit_failure"@ {
        Some(MonitorKind::CommitFailure)
    } else {
        None
    }
}

/// The refusal of a monitor kind.
pub open spec fn monitor_kind_error(name: Seq<char>) -> error::ErrorView {
    error::bad_request(
        "invalid monitor kind "@ + text::quoted(name)
            + ": expected freshness, volume, schema_change, file_size, snapshot_debt, or commit_failure"@,
    )
}

/// The monitor kind of a wire name, or a 400.
pub fn parse_kind(raw: &str) -> (r: Result<MonitorKind, ApiError>)
    ensures
        match monitor_kind_of(raw@) {
            Some(kind) => r matches Ok(got) && got == kind,
            None => error::fails_with(r, monitor_kind_error(raw@)),
        },
{
    if same(raw, "freshness") {
        Ok(MonitorKind::Freshness)
    } else if same(raw, "volume") {
        Ok(MonitorKind::Volume)
    } else if same(raw, "schema_change") {
        Ok(MonitorKind::SchemaChange)
    } else if same(raw, "file_size") {
        Ok(MonitorKind::FileSize)
    } else if same(raw, "snapshot_debt") {
        Ok(MonitorKind::SnapshotDebt)
    } else if same(raw, "commit_failure") {
        Ok(MonitorKind::CommitFailure)
    } else {
        Err(ApiError::bad_request(
            cat3(
                "invalid monitor kind ",
                quote(raw).as_str(),
                ": expected freshness, volume, schema_change, file_size, snapshot_debt, or commit_failure",
            ).as_str(),
        ))
    }
}

/// How grave an incident is.
#[derive(Clone, Copy, Debug, PartialEq, Eq, Structural)]
pub enum Severity {
    /// Slight.
    Low,
    /// Middling.
    Medium,
    /// Grave.
    High,
}

/// The severity of a wire name.
pub open spec fn severity_of(name: Seq<char>) -> Option<Severity> {
    if name == "low"@ {
        Some(Severity::Low)
    } else if name == "medium"@ {
        Some(Severity::Medium)
    } else if name == "high"@ {
        Some(Severity::High)
    } else {
        None
    }
}

/// The refusal of a severity.
pub open spec fn severity_error(name: Seq<char>) -> error::ErrorView {
    error::bad_request("invalid severity "@ + text::quoted(name) + ": expected low, medium, or high"@)
}

/// The severity that is named: middling, where none is.
pub fn parse_severity(raw: Option<&str>) -> (r: Result<Severity, ApiError>)
    ensures
        match raw {
            None => r matches Ok(got) && got == Severity::Medium,
            Some(s) => match severity_of(s@) {
                Some(severity) => r matches Ok(got) && got == severity,
                None => error::fails_with(r, severity_error(s@)),
            },
        },
{
    match raw {
        None => Ok(Severity::Medium),
        Some(s) => if same(s, "low") {
            Ok(Severity::Low)
        } else if same(s, "medium") {
            Ok(Severity::Medium)
        } else if same(s, "high") {
            Ok(Severity::High)
        } else {
            Err(ApiError::bad_request(
                cat3("invalid severity ", quote(s).as_str(), ": expected low, medium, or high").as_str(),
            ))
        },
    }
}

/// Admits a new contract: management access, then its mode. What it binds to
/// is resolved after this.
pub fn create_contract(access: &Access, mode: Option<&str>) -> (r: Result<EnforcementMode, ApiError>)
    ensures
        match grants::access_error(*access) {
            Some(e) => error::fails_with(r, e),
            None => match mode {
                None => r matches Ok(got) && got == EnforcementMode::Warn,
                Some(s) => match contracts::mode_of(s@) {
                    Some(m) => r matches Ok(got) && got == m,
                    None => error::fails_with(r, mode_error(s@)),
                },
            },
        },
{
    match require(access) {
        Err(e) => Err(e),
        Ok(()) => parse_mode(mode),
    }
}

/// Admits a change of a contract, and gives the mode that it names.
pub fn update_contract(access: &Access, mode: Option<&str>) -> (r: Result<Option<EnforcementMode>, ApiError>)
    ensures
        match grants::access_error(*access) {
            Some(e) => error::fails_with(r, e),
            None => match mode {
                None => r matches Ok(got) && got is None,
                Some(name) => match contracts::mode_of(name@) {
                    Some(m) => r matches Ok(got) && got == Some(m),
                    None => error::fails_with(r, mode_error(name@)),
                },
            },
        },
{
    match require(access) {
        Err(e) => Err(e),
        Ok(()) => named_mode(mode),
    }
}

/// Admits a new monitor: management access, then its kind and severity. What
/// it binds to is resolved after this.
pub fn create_monitor(access: &Access, kind: &str, severity: Option<&str>) -> (r: Result<
    (MonitorKind, Severity),
    ApiError,
>)
    ensures
        match grants::access_error(*access) {
            Some(e) => error::fails_with(r, e),
            None => match monitor_kind_of(kind@) {
                None => error::fails_with(r, monitor_kind_error(kind@)),
                Some(k) => match severity {
                    None => r matches Ok(got) && got == (k, Severity::Medium),
                    Some(s) => match severity_of(s@) {
                        Some(v) => r matches Ok(got) && got == (k, v),
                        None => error::fails_with(r, severity_error(s@)),
                    },
                },
            },
        },
{
    match require(access) {
        Err(e) => { return Err(e); },
        Ok(()) => {},
    }
    let k = match parse_kind(kind) {
        Err(e) => { return Err(e); },
        Ok(k) => k,
    };
    match parse_severity(severity) {
        Err(e) => Err(e),
        Ok(v) => Ok((k, v)),
    }
}

/// Admits a change of a monitor, and gives the severity that it names.
pub fn update_monitor(access: &Access, severity: Option<&str>) -> (r: Result<Option<Severity>, ApiError>)
    ensures
        match grants::access_error(*access) {
            Some(e) => error::fails_with(r, e),
            None => match severity {
                None => r matches Ok(got) && got is None,
                Some(name) => match severity_of(name@) {
                    Some(s) => r matches Ok(got) && got == Some(s),
                    None => error::fails_with(r, severity_error(name@)),
                },
            },
        },
{
    match require(access) {
        Err(e) => { return Err(e); },
        Ok(()) => {},
    }
    match severity {
        None => Ok(None),
        Some(name) => match parse_severity(Some(name)) {
            Err(e) => Err(e),
            Ok(s) => Ok(Some(s)),
        },
    }
}

/// What the 404s of the quality routes speak of.
#[derive(Clone, Copy, Debug, PartialEq, Eq, Structural)]
pub enum QualityItem {
    /// A contract.
    Contract,
    /// A monitor.
    Monitor,
    /// An incident.
    Incident,
}

/// The word for an item.
pub open spec fn item_word(item: QualityItem) -> Seq<char> {
    match item {
        QualityItem::Contract => "contract "@,
        QualityItem::Monitor => "monitor "@,
        QualityItem::Incident => "incident "@,
    }
}

/// The 404 of an item.
pub open spec fn no_item(item: QualityItem, id: Seq<char>) -> error::ErrorView {
    error::not_found(item_word(item) + text::quoted(id) + " does not exist"@)
}

/// Shows a manager the item of an id, or a 404.
pub fn item_of<T>(access: &Access, item: QualityItem, id: &str, found: Option<T>) -> (r: Result<T, ApiError>)
    ensures
        match grants::access_error(*access) {
            Some(e) => error::fails_with(r, e),
            None => match found {
                Some(v) => r matches Ok(got) && got == v,
                None => error::fails_with(r, no_item(item, id@)),
            },
        },
{
    match require(access) {
        Err(e) => { return Err(e); },
        Ok(()) => {},
    }
    match found {
        Some(v) => Ok(v),
        None => {
            let word = match item {
                QualityItem::Contract => "contract ",
                QualityItem::Monitor => "monitor ",
                QualityItem::Incident => "incident ",
            };
            Err(ApiError::not_found(cat3(word, quote(id).as_str(), " does not exist").as_str()))
        },
    }
}

// ---------------------------------------------------------------------------
// Lists
// ---------------------------------------------------------------------------

/// Query parameters of the violation list.
#[derive(Debug)]
pub struct ViolationQueryParams {
    /// Only those of this contract.
    pub contract_id: Option<String>,
    /// Only those of this table.
    pub table_id: Option<String>,
    /// How many.
    pub limit: Option<i64>,
}

/// Query parameters of the list of monitor results.
#[derive(Debug)]
pub struct ResultQueryParams {
    /// Only those of this monitor.
    pub monitor_id: Option<String>,
    /// Only those of this table.
    pub table_id: Option<String>,
    /// How many.
    pub limit: Option<i64>,
}

/// Query parameters of the incident list.
#[derive(Debug)]
pub struct IncidentQueryParams {
    /// Only those of this table.
    pub table_id: Option<String>,
    /// Only those of this status.
    pub status: Option<String>,
    /// Only those that are not resolved.
    pub live: bool,
    /// How many.
    pub limit: Option<i64>,
}

/// Where an incident stands.
#[derive(Clone, Copy, Debug, PartialEq, Eq, Structural)]
pub enum IncidentStatus {
    /// Nobody has taken it.
    Open,
    /// Somebody has.
    Acknowledged,
    /// It is over.
    Resolved,
}

/// The status of a wire name.
pub open spec fn incident_status_of(name: Seq<char>) -> Option<IncidentStatus> {
    if name == "open"@ {
        Some(IncidentStatus::Open)
    } else if name == "acknowledged"@ {
        Some(IncidentStatus::Acknowledged)
    } else if name == "resolved"@ {
        Some(IncidentStatus::Resolved)
    } else {
        None
    }
}

/// How many rows the lists of violations and of results give: 100, or as many
/// as are asked for from 1 to 1000.
pub fn page_limit(access: &Access, limit: Option<i64>) -> (r: Result<i64, ApiError>)
    ensures
        match grants::access_error(*access) {
            Some(e) => error::fails_with(r, e),
            None => r matches Ok(n) && n == limits::clamped(limit, 100, 1, 1000),
        },
{
    match require(access) {
        Err(e) => Err(e),
        Ok(()) => Ok(clamp(limit, 100, 1, 1000)),
    }
}

/// Reads the query of the incident list.
pub fn list_incidents(access: &Access, params: &IncidentQueryParams) -> (r: Result<
    (Option<IncidentStatus>, i64),
    ApiError,
>)
    ensures
        match grants::access_error(*access) {
            Some(e) => error::fails_with(r, e),
            None => match params.status {
                None => r matches Ok(got) && got == (None::<IncidentStatus>, limits::clamped(params.limit, 100, 1, 1000)),
                Some(s) => match incident_status_of(s@) {
                    Some(status) => r matches Ok(got) && got == (
                        Some(status),
                        limits::clamped(params.limit, 100, 1, 1000),
                    ),
                    None => error::fails_with(
                        r,
                        error::bad_request(
                            "invalid status "@ + text::quoted(s@)
                                + ": expected open, acknowledged, or resolved"@,
                        ),
                    ),
                },
            },
        },
{
    match require(access) {
        Err(e) => { return Err(e); },
        Ok(()) => {},
    }
    let status = match &params.status {
        None => None,
        Some(s) => if same(s.as_str(), "open") {
            Some(IncidentStatus::Open)
        } else if same(s.as_str(), "acknowledged") {
            Some(IncidentStatus::Acknowledged)
        } else if same(s.as_str(), "resolved") {
            Some(IncidentStatus::Resolved)
        } else {
            return Err(ApiError::bad_request(
                cat3(
                    "invalid status ",
                    quote(s.as_str()).as_str(),
                    ": expected open, acknowledged, or resolved",
                ).as_str(),
            ));
        },
    };
    Ok((status, clamp(params.limit, 100, 1, 1000)))
}

// ---------------------------------------------------------------------------
// Quarantine
// ---------------------------------------------------------------------------

/// How a quarantine is resolved.
#[derive(Clone, Copy, Debug, PartialEq, Eq, Structural)]
pub enum QuarantineAction {
    /// The quarantined snapshot becomes the head of `main`.
    Publish,
    /// The quarantined snapshot is given up.
    Discard,
}

/// The name of the first ref beside `main` that names the snapshot, from place
/// `from` of the key order on.
pub open spec fn quarantine_ref(pairs: Seq<(Seq<char>, SnapshotRef)>, snapshot_id: i64, from: int) -> Option<Seq<char>>
    decreases pairs.len() - from,
{
    if from < 0 || from >= pairs.len() {
        None
    } else if pairs[from].0 != "main"@ && pairs[from].1.snapshot_id == snapshot_id {
        Some(pairs[from].0)
    } else {
        quarantine_ref(pairs, snapshot_id, from + 1)
    }
}

/// The refs of a table, in key order.
pub open spec fn ref_pairs(metadata: TableMetadata) -> Seq<(Seq<char>, SnapshotRef)> {
    match metadata.refs {
        Some(refs) => refs.pairs(),
        None => seq![],
    }
}

/// The quarantine branch of a snapshot: the snapshot is kept, is not the head
/// of `main`, and a ref beside `main` names it.
pub open spec fn quarantined_on(metadata: TableMetadata, table: Seq<char>, snapshot_id: i64) -> Result<
    Seq<char>,
    error::ErrorView,
> {
    let number = text::decimal(snapshot_id as int);
    if !metadata::is_kept(metadata, snapshot_id) {
        Err(
            error::error_of(
                ErrorKind::NoSuchTable,
                "snapshot "@ + number + " is not retained on table "@ + table,
            ),
        )
    } else if metadata.current_snapshot_id == Some(snapshot_id) {
        Err(
            error::bad_request(
                "snapshot "@ + number + " is already the current (main) snapshot; nothing to resolve"@,
            ),
        )
    } else {
        match quarantine_ref(ref_pairs(metadata), snapshot_id, 0) {
            Some(name) => Ok(name),
            None => Err(
                error::bad_request(
                    "snapshot "@ + number + " is not on a quarantine branch of table "@ + table,
                ),
            ),
        }
    }
}

/// The quarantine branch of a snapshot, or why it is not quarantined.
pub fn find_quarantine(metadata: &TableMetadata, table: &str, snapshot_id: i64) -> (r: Result<String, ApiError>)
    ensures
        match quarantined_on(*metadata, table@, snapshot_id) {
            Ok(name) => r matches Ok(got) && got@ == name,
            Err(e) => error::fails_with(r, e),
        },
{
    let number = decimal_i64(snapshot_id);
    if metadata.snapshot_by_id(snapshot_id).is_none() {
        return Err(ApiError::new(
            ErrorKind::NoSuchTable,
            cat4("snapshot ", number.as_str(), " is not retained on table ", table).as_str(),
        ));
    }
    let current = match metadata.current_snapshot_id {
        Some(id) => id == snapshot_id,
        None => false,
    };
    if current {
        return Err(ApiError::bad_request(
            cat3("snapshot ", number.as_str(), " is already the current (main) snapshot; nothing to resolve").as_str(),
        ));
    }
    match &metadata.refs {
        None => {},
        Some(refs) => {
            let n: usize = refs.len();
            let mut i: usize = 0;
            while i < n
                invariant
                    i <= n,
                    n == refs.pairs().len(),
                    metadata.refs == Some(*refs),
                    metadata::is_kept(*metadata, snapshot_id),
                    metadata.current_snapshot_id != Some(snapshot_id),
                    quarantine_ref(refs.pairs(), snapshot_id, 0) == quarantine_ref(
                        refs.pairs(),
                        snapshot_id,
                        i as int,
                    ),
                decreases n - i,
            {
                let name = refs.key_at(i);
                if !same(name.as_str(), "main") && refs.value_at(i).snapshot_id == snapshot_id {
                    return Ok(name.clone());
                }
                i = i + 1;
            }
        },
    }
    Err(ApiError::bad_request(
        cat4("snapshot ", number.as_str(), " is not on a quarantine branch of table ", table).as_str(),
    ))
}

/// The ref that `main` gets when a snapshot is published.
pub open spec fn published_ref(snapshot_id: i64) -> SnapshotRef {
    SnapshotRef {
        snapshot_id,
        ref_type: RefType::Branch,
        min_snapshots_to_keep: None,
        max_snapshot_age_ms: None,
        max_ref_age_ms: None,
    }
}

/// The refs once a quarantine was resolved.
pub open spec fn resolved_refs(
    refs: Map<Seq<char>, SnapshotRef>,
    snapshot_id: i64,
    branch: Seq<char>,
    action: QuarantineAction,
) -> Map<Seq<char>, SnapshotRef> {
    match action {
        QuarantineAction::Publish => refs.remove(branch).insert("main"@, published_ref(snapshot_id)),
        QuarantineAction::Discard => refs.remove(branch),
    }
}

/// Resolves a quarantine in the metadata: the branch goes, and a published
/// snapshot becomes the head of `main`. Nothing else changes.
pub fn apply_quarantine_action(
    metadata: &mut TableMetadata,
    snapshot_id: i64,
    branch: &str,
    action: QuarantineAction,
)
    ensures
        metadata::refs_of(*final(metadata)) == resolved_refs(
            metadata::refs_of(*old(metadata)),
            snapshot_id,
            branch@,
            action,
        ),
        *final(metadata) == (TableMetadata {
            refs: final(metadata).refs,
            current_snapshot_id: if action == QuarantineAction::Publish {
                Some(snapshot_id)
            } else {
                old(metadata).current_snapshot_id
            },
            ..*old(metadata)
        }),
        final(metadata).refs is Some,
{
    let refs = match metadata.refs.take() {
        Some(refs) => refs,
        None => TextMap::new(),
    };
    let refs = refs.without(branch);
    let refs = match action {
        QuarantineAction::Publish => refs.with(
            "main",
            SnapshotRef {
                snapshot_id,
                ref_type: RefType::Branch,
                min_snapshots_to_keep: None,
                max_snapshot_age_ms: None,
                max_ref_age_ms: None,
            },
        ),
        QuarantineAction::Discard => refs,
    };
    metadata.refs = Some(refs);
    match action {
        QuarantineAction::Publish => {
            metadata.current_snapshot_id = Some(snapshot_id);
        },
        QuarantineAction::Discard => {},
    }
}

/// Publishing makes the quarantined snapshot the head of `main` and drops its
/// branch.
pub proof fn publishing_moves_main(refs: Map<Seq<char>, SnapshotRef>, snapshot_id: i64, branch: Seq<char>)
    requires
        branch != "main"@,
    ensures
        ({
            let after = resolved_refs(refs, snapshot_id, branch, QuarantineAction::Publish);
            after.dom().contains("main"@) && after["main"@].snapshot_id == snapshot_id && !after.dom().contains(branch)
        }),
{
}

/// Discarding drops the branch of the quarantined snapshot and leaves `main`
/// and every other ref as they were.
pub proof fn discarding_leaves_main(
    refs: Map<Seq<char>, SnapshotRef>,
    snapshot_id: i64,
    branch: Seq<char>,
    other: Seq<char>,
)
    requires
        other != branch,
    ensures
        ({
            let after = resolved_refs(refs, snapshot_id, branch, QuarantineAction::Discard);
            &&& !after.dom().contains(branch)
            &&& after.dom().contains(other) == refs.dom().contains(other)
            &&& refs.dom().contains(other) ==> after[other] == refs[other]
        }),
{
}

/// A resolution never drops `main`: the branch that it drops is another.
pub proof fn quarantine_is_not_main(pairs: Seq<(Seq<char>, SnapshotRef)>, snapshot_id: i64, from: int)
    ensures
        quarantine_ref(pairs, snapshot_id, from) matches Some(name) ==> name != "main"@,
    decreases pairs.len() - from,
{
    if 0 <= from < pairs.len() {
        quarantine_is_not_main(pairs, snapshot_id, from + 1);
    }
}

/// What is known so far of a quarantine to resolve.
#[derive(Debug)]
pub struct QuarantineFacts {
    /// The version of the table's pointer, or why it could not be loaded.
    pub pointer: Option<Result<i64, String>>,
    /// The table's metadata, or why it could not be read.
    pub metadata: Option<Result<TableMetadata, String>>,
    /// Whether the resolved metadata was staged, or why not.
    pub staged: Option<Result<(), String>>,
    /// Whether the swap went through, or why not.
    pub committed: Option<Result<(), String>>,
    /// Whether the staged file was deleted.
    pub discarded: bool,
}

/// The next step of resolving a quarantine.
#[derive(Debug)]
pub enum QuarantineStep {
    /// Load the table's pointer.
    LoadPointer,
    /// Read the metadata that it points at.
    ReadMetadata,
    /// Apply the action, and stage the metadata for this version.
    Stage {
        /// The version that the metadata would have.
        version: i64,
    },
    /// Swap the pointer, if it still has this version.
    Swap {
        /// The version that it must still have.
        expected: i64,
    },
    /// Delete the staged file.
    DiscardStaged,
    /// Answer that the quarantine is resolved.
    Done,
}

/// The step of resolving a quarantine.
pub open spec fn quarantine_step(table: Seq<char>, snapshot_id: i64, facts: QuarantineFacts) -> Result<
    QuarantineStep,
    error::ErrorView,
> {
    match facts.pointer {
        None => Ok(QuarantineStep::LoadPointer),
        Some(Err(e)) => Err(error::error_of(ErrorKind::InternalServer, "failed to load table pointer: "@ + e@)),
        Some(Ok(version)) => match facts.metadata {
            None => Ok(QuarantineStep::ReadMetadata),
            Some(Err(e)) => Err(
                error::error_of(ErrorKind::InternalServer, "failed to read current metadata: "@ + e@),
            ),
            Some(Ok(metadata)) => match quarantined_on(metadata, table, snapshot_id) {
                Err(e) => Err(e),
                Ok(_) => match facts.staged {
                    None => Ok(QuarantineStep::Stage { version: (version + 1) as i64 }),
                    Some(Err(e)) => Err(
                        error::error_of(ErrorKind::InternalServer, "failed to stage resolved metadata: "@ + e@),
                    ),
                    Some(Ok(_)) => match facts.committed {
                        None => Ok(QuarantineStep::Swap { expected: version }),
                        Some(Ok(_)) => Ok(QuarantineStep::Done),
                        Some(Err(e)) => if !facts.discarded {
                            Ok(QuarantineStep::DiscardStaged)
                        } else {
                            Err(
                                error::error_of(
                                    ErrorKind::CommitFailed,
                                    "failed to resolve quarantine (retry): "@ + e@,
                                ),
                            )
                        },
                    },
                },
            },
        },
    }
}

/// Takes the next step of resolving a quarantine.
pub fn resolve_quarantine(table: &str, snapshot_id: i64, facts: &QuarantineFacts) -> (r: Result<
    QuarantineStep,
    ApiError,
>)
    requires
        facts.pointer matches Some(Ok(version)) ==> version < i64::MAX,
    ensures
        error::outcome(r) == quarantine_step(table@, snapshot_id, *facts),
{
    let version: i64 = match &facts.pointer {
        None => { return Ok(QuarantineStep::LoadPointer); },
        Some(Err(e)) => {
            return Err(ApiError::new(
                ErrorKind::InternalServer,
                cat2("failed to load table pointer: ", e.as_str()).as_str(),
            ));
        },
        Some(Ok(version)) => *version,
    };
    let metadata = match &facts.metadata {
        None => { return Ok(QuarantineStep::ReadMetadata); },
        Some(Err(e)) => {
            return Err(ApiError::new(
                ErrorKind::InternalServer,
                cat2("failed to read current metadata: ", e.as_str()).as_str(),
            ));
        },
        Some(Ok(metadata)) => metadata,
    };
    match find_quarantine(metadata, table, snapshot_id) {
        Err(e) => { return Err(e); },
        Ok(_) => {},
    }
    match &facts.staged {
        None => { return Ok(QuarantineStep::Stage { version: version + 1 }); },
        Some(Err(e)) => {
            return Err(ApiError::new(
                ErrorKind::InternalServer,
                cat2("failed to stage resolved metadata: ", e.as_str()).as_str(),
            ));
        },
        Some(Ok(_)) => {},
    }
    match &facts.committed {
        None => Ok(QuarantineStep::Swap { expected: version }),
        Some(Ok(_)) => Ok(QuarantineStep::Done),
        Some(Err(e)) => if !facts.discarded {
            Ok(QuarantineStep::DiscardStaged)
        } else {
            Err(ApiError::new(
                ErrorKind::CommitFailed,
                cat2("failed to resolve quarantine (retry): ", e.as_str()).as_str(),
            ))
        },
    }
}

/// A swap that was lost is answered only once the staged file was deleted.
pub proof fn lost_resolutions_leave_no_file(table: Seq<char>, snapshot_id: i64, facts: QuarantineFacts)
    requires
        facts.staged matches Some(Ok(_)) && facts.committed matches Some(Err(_)),
        quarantine_step(table, snapshot_id, facts) matches Err(e) && e.kind == ErrorKind::CommitFailed,
    ensures
        facts.discarded,
{
}

/// Whether a ref other than main points at the snapshot.
pub open spec fn is_parked(metadata: TableMetadata, snapshot_id: i64, name: Seq<char>) -> bool {
    exists|i: int|
        0 <= i < ref_pairs(metadata).len() && (#[trigger] ref_pairs(metadata)[i]).0 == name && name != "main"@
            && ref_pairs(metadata)[i].1.snapshot_id == snapshot_id
}

proof fn parked_refs_are_found(metadata: TableMetadata, snapshot_id: i64, from: int)
    requires
        0 <= from,
    ensures
        match quarantine_ref(ref_pairs(metadata), snapshot_id, from) {
            Some(name) => is_parked(metadata, snapshot_id, name),
            None => forall|i: int|
                from <= i < ref_pairs(metadata).len() ==> (#[trigger] ref_pairs(metadata)[i]).0 == "main"@
                    || ref_pairs(metadata)[i].1.snapshot_id != snapshot_id,
        },
    decreases ref_pairs(metadata).len() - from,
{
    let pairs = ref_pairs(metadata);
    if from < pairs.len() {
        if pairs[from].0 != "main"@ && pairs[from].1.snapshot_id == snapshot_id {
            assert(ref_pairs(metadata)[from].0 == pairs[from].0);
        } else {
            parked_refs_are_found(metadata, snapshot_id, from + 1);
        }
    }
}

/// A quarantine can be resolved exactly where its snapshot is kept, is not the
/// current one, and a ref other than main points at it; that ref is then the
/// quarantine's. A snapshot that is not kept is not found, and any other that
/// does not qualify is a bad request.
pub proof fn quarantines_are_found(metadata: TableMetadata, table: Seq<char>, snapshot_id: i64)
    ensures
        match quarantined_on(metadata, table, snapshot_id) {
            Ok(name) => metadata::is_kept(metadata, snapshot_id) && metadata.current_snapshot_id != Some(snapshot_id)
                && is_parked(metadata, snapshot_id, name),
            Err(e) => {
                ||| !metadata::is_kept(metadata, snapshot_id) && e.kind == ErrorKind::NoSuchTable
                ||| metadata.current_snapshot_id == Some(snapshot_id) && e.kind == ErrorKind::BadRequest
                ||| (forall|name: Seq<char>| !#[trigger] is_parked(metadata, snapshot_id, name)) && e.kind
                    == ErrorKind::BadRequest
            },
        },
{
    parked_refs_are_found(metadata, snapshot_id, 0);
    if quarantine_ref(ref_pairs(metadata), snapshot_id, 0) is None {
        assert forall|name: Seq<char>| !#[trigger] is_parked(metadata, snapshot_id, name) by {
            if is_parked(metadata, snapshot_id, name) {
                let i = choose|i: int|
                    0 <= i < ref_pairs(metadata).len() && (#[trigger] ref_pairs(metadata)[i]).0 == name && name
                        != "main"@ && ref_pairs(metadata)[i].1.snapshot_id == snapshot_id;
                assert(ref_pairs(metadata)[i].1.snapshot_id == snapshot_id);
            }
        }
    }
}

/// The resolution of a quarantine builds on the pointer that was loaded: the
/// resolved metadata is staged for the version after it, and the swap expects
/// exactly it. Nothing is staged for a snapshot that is not in quarantine. It is
/// done only where the swap was made; a swap that was not made deletes the
/// staged file before it is answered.
pub proof fn resolutions_build_on_what_was_loaded(table: Seq<char>, snapshot_id: i64, facts: QuarantineFacts)
    requires
        facts.pointer matches Some(Ok(version)) ==> version < i64::MAX,
    ensures
        ({
            let found = facts.metadata matches Some(Ok(m)) && quarantined_on(m, table, snapshot_id) is Ok;
            match quarantine_step(table, snapshot_id, facts) {
                Ok(QuarantineStep::LoadPointer) => facts.pointer is None,
                Ok(QuarantineStep::ReadMetadata) => (facts.pointer matches Some(Ok(_))) && facts.metadata is None,
                Ok(QuarantineStep::Stage { version }) => found && facts.staged is None && (facts.pointer matches Some(
                    Ok(loaded),
                ) && version == loaded + 1),
                Ok(QuarantineStep::Swap { expected }) => found && (facts.staged matches Some(Ok(_)))
                    && facts.committed is None && (facts.pointer matches Some(Ok(loaded)) && expected == loaded),
                Ok(QuarantineStep::DiscardStaged) => found && (facts.staged matches Some(Ok(_))) && (facts.committed
                    matches Some(Err(_))) && !facts.discarded,
                Ok(QuarantineStep::Done) => found && (facts.staged matches Some(Ok(_))) && (facts.committed
                    matches Some(Ok(_))),
                Err(e) => {
                    ||| (facts.pointer matches Some(Err(_))) && e.kind == ErrorKind::InternalServer
                    ||| (facts.metadata matches Some(Err(_))) && e.kind == ErrorKind::InternalServer
                    ||| facts.metadata matches Some(Ok(m)) && quarantined_on(m, table, snapshot_id)
                        == Err::<Seq<char>, error::ErrorView>(e)
                    ||| (facts.staged matches Some(Err(_))) && e.kind == ErrorKind::InternalServer
                    ||| (facts.committed matches Some(Err(_))) && facts.discarded && e.kind == ErrorKind::CommitFailed
                },
            }
        }),
{
}

/// To resolve a quarantine touches its own branch and, to publish it, main; no
/// other ref changes. To publish it makes main a branch at the snapshot; to
/// discard it leaves main as it is.
pub proof fn resolutions_touch_two_refs(
    refs: Map<Seq<char>, SnapshotRef>,
    snapshot_id: i64,
    branch: Seq<char>,
    action: QuarantineAction,
    other: Seq<char>,
)
    requires
        branch != "main"@,
    ensures
        ({
            let after = resolved_refs(refs, snapshot_id, branch, action);
            &&& !after.dom().contains(branch)
            &&& other != branch && other != "main"@ ==> (after.dom().contains(other) <==> refs.dom().contains(other)) && (
            refs.dom().contains(other) ==> after[other] == refs[other])
            &&& match action {
                QuarantineAction::Publish => after.dom().contains("main"@) && after["main"@].snapshot_id == snapshot_id
                    && after["main"@].ref_type == RefType::Branch,
                QuarantineAction::Discard => (after.dom().contains("main"@) <==> refs.dom().contains("main"@)) && (
                refs.dom().contains("main"@) ==> after["main"@] == refs["main"@]),
            }
        }),
{
}

/// A table is open to the quality routes exactly where the caller was granted
/// access and it is there; what is asked for on the way was not answered yet.
pub proof fn tables_are_opened(
    access: Access,
    warehouse: Seq<char>,
    namespace: Seq<char>,
    table: Seq<char>,
    has_warehouse: Found<()>,
    record: Found<TableRecord>,
)
    ensures
        match table_gate(access, warehouse, namespace, table, has_warehouse, record) {
            Ok(GateView::AskWarehouse) => access is Granted && has_warehouse is Unasked,
            Ok(GateView::AskTable(levels)) => access is Granted && has_warehouse is Is && record is Unasked && levels
                == namespaces::dotted_levels(namespace),
            Ok(GateView::Open(r)) => access is Granted && has_warehouse is Is && record == Found::Is(r),
            Err(e) => {
                ||| !(access is Granted)
                ||| has_warehouse is Missing && e.kind == ErrorKind::NoSuchWarehouse
                ||| !namespaces::good_levels(namespaces::dotted_levels(namespace)) && e.kind == ErrorKind::BadRequest
                ||| record is Missing && e.kind == ErrorKind::NoSuchTable
            },
        },
{
    namespaces::bad_levels_are_refused(namespaces::dotted_levels(namespace));
}

/// A contract is bound to what the request names: to the namespace, or to the
/// table, which must then be named. It is bound under the id that was found for
/// it, and to nothing that is missing.
pub proof fn bindings_bind_what_is_named(req: BindingRequest, warehouse: Found<()>, securable: Found<String>)
    ensures
        match binding_step(req, warehouse, securable) {
            Ok(BindingView::AskWarehouse) => warehouse is Unasked,
            Ok(BindingView::AskNamespace(levels)) => req.bound_to@ == "namespace"@ && securable is Unasked && levels
                == namespaces::dotted_levels(req.namespace@),
            Ok(BindingView::AskTable(levels)) => req.bound_to@ == "table"@ && req.table is Some && securable is Unasked
                && levels == namespaces::dotted_levels(req.namespace@),
            Ok(BindingView::Bind(bound_to, id)) => warehouse is Is && securable == Found::Is(id) && match bound_to {
                BoundTo::Table => req.bound_to@ == "table"@ && req.table is Some,
                BoundTo::Namespace => req.bound_to@ == "namespace"@,
            },
            Err(e) => {
                ||| req.bound_to@ != "table"@ && req.bound_to@ != "namespace"@ && e.kind == ErrorKind::BadRequest
                ||| warehouse is Missing && e.kind == ErrorKind::NoSuchWarehouse
                ||| !namespaces::good_levels(namespaces::dotted_levels(req.namespace@)) && e.kind
                    == ErrorKind::BadRequest
                ||| securable is Missing && e.kind == (if req.bound_to@ == "table"@ {
                    ErrorKind::NoSuchTable
                } else {
                    ErrorKind::NoSuchNamespace
                })
                ||| req.bound_to@ == "table"@ && req.table is None && e.kind == ErrorKind::BadRequest
            },
        },
{
    namespaces::bad_levels_are_refused(namespaces::dotted_levels(req.namespace@));
    reveal_strlit("table");
    reveal_strlit("namespace");
    assert("table"@.len() == 5 && "namespace"@.len() == 9);
}

/// A severity, a monitor kind and an incident status are read off their names,
/// and off nothing else.
pub proof fn names_are_read(name: Seq<char>)
    ensures
        severity_of(name) == Some(Severity::Low) <==> name == "low"@,
        severity_of(name) == Some(Severity::Medium) <==> name == "medium"@,
        severity_of(name) == Some(Severity::High) <==> name == "high"@,
        monitor_kind_of(name) == Some(MonitorKind::Freshness) <==> name == "freshness"@,
        monitor_kind_of(name) == Some(MonitorKind::Volume) <==> name == "volume"@,
        monitor_kind_of(name) == Some(MonitorKind::SchemaChange) <==> name == "schema_change"@,
        monitor_kind_of(name) == Some(MonitorKind::FileSize) <==> name == "file_size"@,
        monitor_kind_of(name) == Some(MonitorKind::SnapshotDebt) <==> name == "snapshot_debt"@,
        monitor_kind_of(name) == Some(MonitorKind::CommitFailure) <==> name == "commit_failure"@,
        incident_status_of(name) == Some(IncidentStatus::Open) <==> name == "open"@,
        incident_status_of(name) == Some(IncidentStatus::Acknowledged) <==> name == "acknowledged"@,
        incident_status_of(name) == Some(IncidentStatus::Resolved) <==> name == "resolved"@,
{
    reveal_strlit("low");
    reveal_strlit("medium");
    reveal_strlit("high");
    reveal_strlit("freshness");
    reveal_strlit("volume");
    reveal_strlit("schema_change");
    reveal_strlit("file_size");
    reveal_strlit("snapshot_debt");
    reveal_strlit("commit_failure");
    reveal_strlit("open");
    reveal_strlit("acknowledged");
    reveal_strlit("resolved");
    assert("low"@.len() == 3 && "medium"@.len() == 6 && "high"@.len() == 4);
    assert("freshness"@.len() == 9 && "volume"@.len() == 6 && "schema_change"@.len() == 13);
    assert("file_size"@[0] == 'f' && "file_size"@[1] == 'i' && "freshness"@[1] == 'r');
    assert("snapshot_debt"@[1] == 'n' && "schema_change"@[1] == 'c' && "commit_failure"@.len() == 14);
    assert("open"@.len() == 4 && "acknowledged"@.len() == 12 && "resolved"@.len() == 8);
}

} // verus!
