//! Table maintenance: policies and their scopes, jobs, and health.

use vstd::prelude::*;

use crate::error;
use crate::error::{ApiError, ErrorKind, StoreError, StoreKind};
use crate::grants;
use crate::grants::{require, Access, Found};
use crate::limits;
use crate::limits::clamp;
use crate::namespaces;
use crate::namespaces::{decode_namespace_param, found_namespace};
use crate::tables;
use crate::tables::{no_such_table, TableRecord};
use crate::text;
use crate::text::{cat2, cat3, cat5, join, quote, same, split, trim};

verus! {

/// How many jobs or savings a list gives where no number is asked for.
pub const DEFAULT_LIMIT: i64 = 50;

/// The most rows that a list gives.
pub const MAX_LIMIT: i64 = 500;

/// How many points of a health history are given where no number is asked for.
pub const DEFAULT_HISTORY_LIMIT: i64 = 50;

/// How many months a roll-up covers where no number is asked for.
pub const DEFAULT_ROLLUP_MONTHS: i64 = 12;

/// The most months that a roll-up covers.
pub const MAX_ROLLUP_MONTHS: i64 = 120;

/// The size that compaction aims at: 512 MiB.
pub const DEFAULT_TARGET_FILE_SIZE_BYTES: i64 = 536_870_912;

/// How many files a compaction combines at least.
pub const DEFAULT_MIN_INPUT_FILES: i32 = 5;

/// How many snapshots are kept at least.
pub const DEFAULT_SNAPSHOT_RETENTION_COUNT: i32 = 100;

/// How long a snapshot is kept at least: five days, in milliseconds.
pub const DEFAULT_SNAPSHOT_RETENTION_AGE_MS: i64 = 432_000_000;

// ---------------------------------------------------------------------------
// Names
// ---------------------------------------------------------------------------

/// Human-readable identifier of a table: its levels and its name, with dots.
pub fn display_ident(levels: &Vec<String>, name: &str) -> (r: String)
    ensures
        r@ == tables::ident_text(text::texts(levels@), name@),
{
    tables::display_ident(levels, name)
}

/// The pieces without the blanks around them, and without the empty ones.
pub open spec fn trimmed_pieces(pieces: Seq<Seq<char>>) -> Seq<Seq<char>>
    decreases pieces.len(),
{
    if pieces.len() == 0 {
        Seq::empty()
    } else {
        let earlier = trimmed_pieces(pieces.drop_last());
        let last = text::trimmed(pieces.last());
        if last.len() == 0 {
            earlier
        } else {
            earlier.push(last)
        }
    }
}

/// The levels of a dotted namespace: its pieces, without blanks around them
/// and without the empty ones.
pub open spec fn dotted_levels(dotted: Seq<char>) -> Seq<Seq<char>> {
    trimmed_pieces(text::split_on(dotted, '.'))
}

/// The refusal of a namespace without levels.
pub open spec fn empty_namespace() -> error::ErrorView {
    error::bad_request("namespace must not be empty"@)
}

/// The levels of a dotted namespace; refused where there is none.
pub fn parse_dotted_namespace(dotted: &str) -> (r: Result<Vec<String>, ApiError>)
    ensures
        if dotted_levels(dotted@).len() == 0 {
            error::fails_with(r, empty_namespace())
        } else {
            r matches Ok(levels) && text::texts(levels@) == dotted_levels(dotted@)
        },
{
    let pieces = split(dotted, '.');
    let ghost all = text::texts(pieces@);
    let mut levels: Vec<String> = Vec::new();
    let mut i: usize = 0;
    assert(all.take(0) =~= Seq::<Seq<char>>::empty());
    assert(text::texts(levels@) =~= Seq::<Seq<char>>::empty());
    while i < pieces.len()
        invariant
            i <= pieces@.len(),
            all == text::texts(pieces@),
            text::texts(levels@) == trimmed_pieces(all.take(i as int)),
        decreases pieces@.len() - i,
    {
        let ghost next = all.take(i + 1);
        assert(next.drop_last() =~= all.take(i as int));
        assert(next.last() == pieces@[i as int]@);
        let piece = trim(pieces[i].as_str());
        let ghost before = levels@;
        if !piece.is_empty() {
            let level = piece.to_owned();
            levels.push(level);
            assert(text::texts(levels@) =~= text::texts(before).push(piece@));
        }
        i = i + 1;
    }
    assert(all.take(all.len() as int) =~= all);
    assert(text::texts(levels@).len() == levels@.len());
    if levels.len() == 0 {
        return Err(ApiError::bad_request("namespace must not be empty"));
    }
    Ok(levels)
}

/// No level of a dotted namespace is empty.
pub proof fn dotted_levels_are_named(dotted: Seq<char>, i: int)
    requires
        0 <= i < dotted_levels(dotted).len(),
    ensures
        dotted_levels(dotted)[i].len() > 0,
{
    trimmed_pieces_are_named(text::split_on(dotted, '.'), i);
}

proof fn trimmed_pieces_are_named(pieces: Seq<Seq<char>>, i: int)
    requires
        0 <= i < trimmed_pieces(pieces).len(),
    ensures
        trimmed_pieces(pieces)[i].len() > 0,
    decreases pieces.len(),
{
    if pieces.len() > 0 {
        let earlier = pieces.drop_last();
        if i < trimmed_pieces(earlier).len() {
            trimmed_pieces_are_named(earlier, i);
        }
    }
}

// ---------------------------------------------------------------------------
// Policies
// ---------------------------------------------------------------------------

/// What a policy attaches to, by name: a warehouse; a warehouse and a
/// namespace; or a warehouse, a namespace and a table.
#[derive(Debug)]
pub struct PolicyScopeSelector {
    /// The warehouse.
    pub warehouse: String,
    /// The namespace, dotted.
    pub namespace: Option<String>,
    /// The table.
    pub table: Option<String>,
}

/// Request body to create or change a policy: its scope, and what it asks for.
#[derive(Debug)]
pub struct PolicyRequest {
    /// What the policy attaches to.
    pub scope: PolicyScopeSelector,
    /// The size that compaction aims at, in bytes.
    pub target_file_size_bytes: Option<i64>,
    /// How many files a compaction combines at least.
    pub min_input_files: Option<i32>,
    /// How many snapshots are kept at least.
    pub snapshot_retention_count: Option<i32>,
    /// How long a snapshot is kept at least, in milliseconds.
    pub snapshot_retention_age_ms: Option<i64>,
    /// How stale the table may be, in milliseconds.
    pub max_staleness_ms: Option<i64>,
    /// The schedule.
    pub schedule: Option<String>,
    /// The start of the window.
    pub window_start: Option<String>,
    /// The end of the window.
    pub window_end: Option<String>,
    /// What is excluded, as JSON.
    pub exclusions: Option<String>,
    /// Whether the policy is active.
    pub enabled: Option<bool>,
}

/// What a policy asks for.
#[derive(Debug)]
pub struct PolicySpec {
    /// The size that compaction aims at, in bytes.
    pub target_file_size_bytes: i64,
    /// How many files a compaction combines at least.
    pub min_input_files: i32,
    /// How many snapshots are kept at least.
    pub snapshot_retention_count: i32,
    /// How long a snapshot is kept at least, in milliseconds.
    pub snapshot_retention_age_ms: i64,
    /// How stale the table may be, in milliseconds.
    pub max_staleness_ms: Option<i64>,
    /// The schedule.
    pub schedule: Option<String>,
    /// The start of the window.
    pub window_start: Option<String>,
    /// The end of the window.
    pub window_end: Option<String>,
    /// What is excluded, as JSON.
    pub exclusions: String,
    /// Whether the policy is active.
    pub enabled: bool,
}

/// The number that is given, or the other.
pub open spec fn or_default<T>(given: Option<T>, other: T) -> T {
    match given {
        Some(v) => v,
        None => other,
    }
}

fn number_or<T: Copy>(given: &Option<T>, other: T) -> (r: T)
    ensures
        r == or_default(*given, other),
{
    match given {
        Some(v) => *v,
        None => other,
    }
}

fn copy_text(item: &Option<String>) -> (r: Option<String>)
    ensures
        r == *item,
{
    match item {
        Some(s) => Some(s.clone()),
        None => None,
    }
}

impl PolicyRequest {
    /// What the request asks for; what it leaves open has its default.
    pub fn to_spec(&self) -> (r: PolicySpec)
        ensures
            r.target_file_size_bytes == or_default(self.target_file_size_bytes, DEFAULT_TARGET_FILE_SIZE_BYTES),
            r.min_input_files == or_default(self.min_input_files, DEFAULT_MIN_INPUT_FILES),
            r.snapshot_retention_count == or_default(
                self.snapshot_retention_count,
                DEFAULT_SNAPSHOT_RETENTION_COUNT,
            ),
            r.snapshot_retention_age_ms == or_default(
                self.snapshot_retention_age_ms,
                DEFAULT_SNAPSHOT_RETENTION_AGE_MS,
            ),
            r.max_staleness_ms == self.max_staleness_ms,
            r.schedule == self.schedule,
            r.window_start == self.window_start,
            r.window_end == self.window_end,
            r.exclusions@ == (match self.exclusions {
                Some(rules) => rules@,
                None => "{}"@,
            }),
            r.enabled == or_default(self.enabled, true),
    {
        PolicySpec {
            target_file_size_bytes: number_or(&self.target_file_size_bytes, DEFAULT_TARGET_FILE_SIZE_BYTES),
            min_input_files: number_or(&self.min_input_files, DEFAULT_MIN_INPUT_FILES),
            snapshot_retention_count: number_or(&self.snapshot_retention_count, DEFAULT_SNAPSHOT_RETENTION_COUNT),
            snapshot_retention_age_ms: number_or(
                &self.snapshot_retention_age_ms,
                DEFAULT_SNAPSHOT_RETENTION_AGE_MS,
            ),
            max_staleness_ms: self.max_staleness_ms,
            schedule: copy_text(&self.schedule),
            window_start: copy_text(&self.window_start),
            window_end: copy_text(&self.window_end),
            exclusions: match &self.exclusions {
                Some(rules) => rules.clone(),
                None => "{}".to_owned(),
            },
            enabled: number_or(&self.enabled, true),
        }
    }
}

/// What kind of thing a policy attaches to.
#[derive(Clone, Copy, Debug, PartialEq, Eq, Structural)]
pub enum Scope {
    /// A warehouse.
    Warehouse,
    /// A namespace.
    Namespace,
    /// A table.
    Table,
}

/// The label of a scope.
pub open spec fn scope_name(scope: Scope) -> Seq<char> {
    match scope {
        Scope::Warehouse => "warehouse"@,
        Scope::Namespace => "namespace"@,
        Scope::Table => "table"@,
    }
}

impl Scope {
    /// The label of the scope.
    pub fn as_str(&self) -> (r: &'static str)
        ensures
            r@ == scope_name(*self),
    {
        match self {
            Scope::Warehouse => "warehouse",
            Scope::Namespace => "namespace",
            Scope::Table => "table",
        }
    }

    /// The scope of a stored label; a warehouse, where the label is none of
    /// these, so that one row does not fail a list.
    pub fn of_row(raw: &str) -> (r: Scope)
        ensures
            r == (if raw@ == "table"@ {
                Scope::Table
            } else if raw@ == "namespace"@ {
                Scope::Namespace
            } else {
                Scope::Warehouse
            }),
    {
        if same(raw, "table") {
            Scope::Table
        } else if same(raw, "namespace") {
            Scope::Namespace
        } else {
            Scope::Warehouse
        }
    }
}

/// A namespace as a policy's scope needs it.
#[derive(Debug)]
pub struct ScopeNamespace {
    /// ULID.
    pub id: String,
    /// The ids from its root down to itself.
    pub chain: Vec<String>,
}

/// What is known so far of a policy's scope.
#[derive(Debug)]
pub struct ScopeFacts {
    /// The id of the warehouse.
    pub warehouse: Found<String>,
    /// The namespace.
    pub namespace: Found<ScopeNamespace>,
    /// The id of the table.
    pub table: Found<String>,
    /// Whether the caller may manage namespaces there.
    pub access: Option<Access>,
}

/// The next step of resolving a policy's scope for a change.
#[derive(Debug)]
pub enum ScopeStep {
    /// Look up the warehouse.
    AskWarehouse,
    /// Look up the namespace of these levels, and its chain.
    AskNamespace(Vec<String>),
    /// Look up the table in the namespace of these levels.
    AskTable(Vec<String>),
    /// Ask whether the caller may manage namespaces in the warehouse.
    AskManageWarehouse,
    /// Ask whether the caller may manage namespaces along the chain of the
    /// namespace of these levels.
    AskManageNamespace(Vec<String>),
    /// Go on with this scope.
    Open(Scope, String),
}

/// The model of a step of resolving a policy's scope.
pub enum ScopeView {
    /// Look up the warehouse.
    AskWarehouse,
    /// Look up the namespace of these levels, and its chain.
    AskNamespace(Seq<Seq<char>>),
    /// Look up the table in the namespace of these levels.
    AskTable(Seq<Seq<char>>),
    /// Ask whether the caller may manage namespaces in the warehouse.
    AskManageWarehouse,
    /// Ask whether the caller may manage namespaces along the chain of the
    /// namespace of these levels.
    AskManageNamespace(Seq<Seq<char>>),
    /// Go on with this scope.
    Open(Scope, String),
}

impl View for ScopeStep {
    type V = ScopeView;

    open spec fn view(&self) -> ScopeView {
        match *self {
            ScopeStep::AskWarehouse => ScopeView::AskWarehouse,
            ScopeStep::AskNamespace(levels) => ScopeView::AskNamespace(text::texts(levels@)),
            ScopeStep::AskTable(levels) => ScopeView::AskTable(text::texts(levels@)),
            ScopeStep::AskManageWarehouse => ScopeView::AskManageWarehouse,
            ScopeStep::AskManageNamespace(levels) => ScopeView::AskManageNamespace(text::texts(levels@)),
            ScopeStep::Open(scope, id) => ScopeView::Open(scope, id),
        }
    }
}

/// The 404 of a namespace that a policy or a job names.
pub open spec fn no_dotted_namespace(dotted: Seq<char>) -> error::ErrorView {
    error::error_of(
        ErrorKind::NoSuchNamespace,
        "namespace "@ + text::quoted(dotted) + " does not exist"@,
    )
}

fn missing_dotted_namespace(dotted: &str) -> (r: ApiError)
    ensures
        r@ == no_dotted_namespace(dotted@),
{
    ApiError::new(
        ErrorKind::NoSuchNamespace,
        cat3("namespace ", quote(dotted).as_str(), " does not exist").as_str(),
    )
}

/// The scope that a selector stands for; the next lookup, where one is
/// missing; or the refusal.
pub open spec fn scope_of(selector: PolicyScopeSelector, facts: ScopeFacts) -> Result<ScopeView, error::ErrorView> {
    match facts.warehouse {
        Found::Unasked => Ok(ScopeView::AskWarehouse),
        Found::Missing => Err(error::error_of(ErrorKind::NoSuchWarehouse, selector.warehouse@)),
        Found::Is(warehouse) => match selector.namespace {
            None => match selector.table {
                None => Ok(ScopeView::Open(Scope::Warehouse, warehouse)),
                Some(_) => Err(error::bad_request("a table-scoped policy must also name its namespace"@)),
            },
            Some(dotted) => if dotted_levels(dotted@).len() == 0 {
                Err(empty_namespace())
            } else {
                match facts.namespace {
                    Found::Unasked => Ok(ScopeView::AskNamespace(dotted_levels(dotted@))),
                    Found::Missing => Err(no_dotted_namespace(dotted@)),
                    Found::Is(namespace) => match selector.table {
                        None => Ok(ScopeView::Open(Scope::Namespace, namespace.id)),
                        Some(name) => match facts.table {
                            Found::Unasked => Ok(ScopeView::AskTable(dotted_levels(dotted@))),
                            Found::Missing => Err(
                                error::error_of(
                                    ErrorKind::NoSuchTable,
                                    "table "@ + text::quoted(dotted@ + "."@ + name@) + " does not exist"@,
                                ),
                            ),
                            Found::Is(table) => Ok(ScopeView::Open(Scope::Table, table)),
                        },
                    },
                }
            },
        },
    }
}

/// Whether the access is asked for at the warehouse: where no chain is known.
pub open spec fn managed_at_warehouse(selector: PolicyScopeSelector, facts: ScopeFacts) -> bool {
    selector.namespace is None || !(facts.namespace matches Found::Is(n) && n.chain@.len() > 0)
}

/// The step of resolving a policy's scope for a change.
pub open spec fn scope_step(selector: PolicyScopeSelector, facts: ScopeFacts) -> Result<ScopeView, error::ErrorView> {
    match scope_of(selector, facts) {
        Ok(ScopeView::Open(scope, id)) => match facts.access {
            None => if managed_at_warehouse(selector, facts) {
                Ok(ScopeView::AskManageWarehouse)
            } else {
                Ok(ScopeView::AskManageNamespace(dotted_levels(selector.namespace->0@)))
            },
            Some(access) => match grants::access_error(access) {
                Some(e) => Err(e),
                None => Ok(ScopeView::Open(scope, id)),
            },
        },
        other => other,
    }
}

fn resolve_names(selector: &PolicyScopeSelector, facts: &ScopeFacts) -> (r: Result<ScopeStep, ApiError>)
    ensures
        error::viewed(r) == scope_of(*selector, *facts),
{
    let warehouse = match &facts.warehouse {
        Found::Unasked => { return Ok(ScopeStep::AskWarehouse); },
        Found::Missing => {
            return Err(ApiError::new(ErrorKind::NoSuchWarehouse, selector.warehouse.as_str()));
        },
        Found::Is(id) => id,
    };
    let dotted = match &selector.namespace {
        None => {
            return match &selector.table {
                None => Ok(ScopeStep::Open(Scope::Warehouse, warehouse.clone())),
                Some(_) => Err(ApiError::bad_request("a table-scoped policy must also name its namespace")),
            };
        },
        Some(dotted) => dotted,
    };
    let levels = match parse_dotted_namespace(dotted.as_str()) {
        Err(e) => { return Err(e); },
        Ok(levels) => levels,
    };
    let namespace = match &facts.namespace {
        Found::Unasked => { return Ok(ScopeStep::AskNamespace(levels)); },
        Found::Missing => { return Err(missing_dotted_namespace(dotted.as_str())); },
        Found::Is(n) => n,
    };
    match &selector.table {
        None => Ok(ScopeStep::Open(Scope::Namespace, namespace.id.clone())),
        Some(name) => match &facts.table {
            Found::Unasked => Ok(ScopeStep::AskTable(levels)),
            Found::Missing => {
                let ident = cat3(dotted.as_str(), ".", name.as_str());
                Err(ApiError::new(
                    ErrorKind::NoSuchTable,
                    cat3("table ", quote(ident.as_str()).as_str(), " does not exist").as_str(),
                ))
            },
            Found::Is(id) => Ok(ScopeStep::Open(Scope::Table, id.clone())),
        },
    }
}

fn asked_at_warehouse(selector: &PolicyScopeSelector, facts: &ScopeFacts) -> (r: bool)
    ensures
        r == managed_at_warehouse(*selector, *facts),
{
    match &selector.namespace {
        None => true,
        Some(_) => match &facts.namespace {
            Found::Is(n) => n.chain.len() == 0,
            _ => true,
        },
    }
}

/// Takes the next step of resolving a policy's scope for a change: the names
/// first, each of which must exist, then the access, at the warehouse or along
/// the namespace's chain.
pub fn resolve_scope(selector: &PolicyScopeSelector, facts: &ScopeFacts) -> (r: Result<ScopeStep, ApiError>)
    ensures
        error::viewed(r) == scope_step(*selector, *facts),
{
    match resolve_names(selector, facts) {
        Ok(ScopeStep::Open(scope, id)) => match &facts.access {
            None => match &selector.namespace {
                Some(dotted) => if asked_at_warehouse(selector, facts) {
                    Ok(ScopeStep::AskManageWarehouse)
                } else {
                    match parse_dotted_namespace(dotted.as_str()) {
                        Err(e) => Err(e),
                        Ok(levels) => Ok(ScopeStep::AskManageNamespace(levels)),
                    }
                },
                None => Ok(ScopeStep::AskManageWarehouse),
            },
            Some(access) => match require(access) {
                Err(e) => Err(e),
                Ok(()) => Ok(ScopeStep::Open(scope, id)),
            },
        },
        other => other,
    }
}

/// A policy is changed only by a caller who may manage namespaces there, and
/// only where everything it names exists.
pub proof fn policies_are_guarded(selector: PolicyScopeSelector, facts: ScopeFacts)
    ensures
        scope_step(selector, facts) matches Ok(ScopeView::Open(scope, _)) ==> {
            &&& facts.access == Some(Access::Granted)
            &&& facts.warehouse is Is
            &&& selector.namespace is Some ==> facts.namespace is Is
            &&& selector.table is Some ==> facts.table is Is
            &&& scope == (if selector.table is Some {
                Scope::Table
            } else if selector.namespace is Some {
                Scope::Namespace
            } else {
                Scope::Warehouse
            })
        },
{
}

/// How a scope that was just named is shown.
pub open spec fn named_label(warehouse: Seq<char>, namespace: Option<Seq<char>>, table: Option<Seq<char>>) -> Seq<char> {
    match namespace {
        None => "warehouse:"@ + warehouse,
        Some(dotted) => match table {
            None => warehouse + "/"@ + dotted,
            Some(name) => warehouse + "/"@ + dotted + "."@ + name,
        },
    }
}

/// How a scope that was just named is shown.
pub fn scope_label(warehouse_name: &str, selector: &PolicyScopeSelector) -> (r: String)
    ensures
        r@ == named_label(warehouse_name@, text::opt_text(selector.namespace), text::opt_text(selector.table)),
{
    match &selector.namespace {
        None => cat2("warehouse:", warehouse_name),
        Some(dotted) => match &selector.table {
            None => cat3(warehouse_name, "/", dotted.as_str()),
            Some(name) => cat5(warehouse_name, "/", dotted.as_str(), ".", name.as_str()),
        },
    }
}

/// What a stored scope is called.
#[derive(Debug)]
pub struct ScopeNames {
    /// Its warehouse.
    pub warehouse: String,
    /// The levels of its namespace.
    pub levels: Vec<String>,
    /// Its table.
    pub table: String,
}

/// How a stored scope is shown: by its names, or by its id, where it is gone.
pub open spec fn stored_label(scope: Scope, id: Seq<char>, found: Option<ScopeNames>) -> Seq<char> {
    match found {
        None => scope_name(scope) + ":"@ + id,
        Some(names) => {
            let path = text::join_with(text::texts(names.levels@), "."@);
            match scope {
                Scope::Warehouse => "warehouse:"@ + names.warehouse@,
                Scope::Namespace => names.warehouse@ + "/"@ + path,
                Scope::Table => names.warehouse@ + "/"@ + path + "."@ + names.table@,
            }
        },
    }
}

/// How a stored scope is shown: by its names, or by its id, where it is gone.
pub fn policy_scope_label(scope: Scope, scope_id: &str, found: &Option<ScopeNames>) -> (r: String)
    ensures
        r@ == stored_label(scope, scope_id@, *found),
{
    match found {
        None => cat3(scope.as_str(), ":", scope_id),
        Some(names) => match scope {
            Scope::Warehouse => cat2("warehouse:", names.warehouse.as_str()),
            Scope::Namespace => cat3(names.warehouse.as_str(), "/", join(&names.levels, ".").as_str()),
            Scope::Table => cat5(
                names.warehouse.as_str(),
                "/",
                join(&names.levels, ".").as_str(),
                ".",
                names.table.as_str(),
            ),
        },
    }
}

/// A store failure of creating a policy.
pub fn create_policy_error(error: &StoreError) -> (r: ApiError)
    ensures
        r@ == (match error.kind {
            StoreKind::Conflict => error::error_of(ErrorKind::AlreadyExists, error.message@),
            StoreKind::Validation => error::bad_request(error.message@),
            _ => error::store_failure(*error),
        }),
{
    match error.kind {
        StoreKind::Conflict => ApiError::new(ErrorKind::AlreadyExists, error.message.as_str()),
        StoreKind::Validation => ApiError::bad_request(error.message.as_str()),
        _ => ApiError::from_store(error),
    }
}

/// A store failure of changing a policy.
pub fn update_policy_error(error: &StoreError) -> (r: ApiError)
    ensures
        r@ == (match error.kind {
            StoreKind::NotFound => error::not_found(error.message@),
            StoreKind::Validation => error::bad_request(error.message@),
            _ => error::store_failure(*error),
        }),
{
    match error.kind {
        StoreKind::NotFound => ApiError::not_found(error.message.as_str()),
        StoreKind::Validation => ApiError::bad_request(error.message.as_str()),
        _ => ApiError::from_store(error),
    }
}

/// The answer to a deletion: there must have been a policy.
pub fn delete_policy(deleted: bool) -> (r: Result<(), ApiError>)
    ensures
        if deleted {
            r is Ok
        } else {
            error::fails_with(r, error::not_found("no policy exists for that scope"@))
        },
{
    if deleted {
        Ok(())
    } else {
        Err(ApiError::not_found("no policy exists for that scope"))
    }
}

// ---------------------------------------------------------------------------
// Health
// ---------------------------------------------------------------------------

/// What is known so far of a table whose health is read.
#[derive(Debug)]
pub struct HealthFacts {
    /// Whether the warehouse is there.
    pub warehouse: Found<()>,
    /// Whether the namespace is there.
    pub namespace: Found<()>,
    /// The table.
    pub table: Found<TableRecord>,
    /// Whether the caller may read the table.
    pub access: Option<Access>,
}

/// The next step of reading a table's health.
#[derive(Debug)]
pub enum HealthStep {
    /// Look up the warehouse.
    AskWarehouse,
    /// Look up the namespace of these levels.
    AskNamespace(Vec<String>),
    /// Look up the table in the namespace of these levels.
    AskTable(Vec<String>),
    /// Ask whether the caller may read the table in the namespace of these
    /// levels.
    AskRead(Vec<String>),
    /// Go on.
    Open,
}

/// The model of a step of reading a table's health.
pub enum HealthView {
    /// Look up the warehouse.
    AskWarehouse,
    /// Look up the namespace of these levels.
    AskNamespace(Seq<Seq<char>>),
    /// Look up the table in the namespace of these levels.
    AskTable(Seq<Seq<char>>),
    /// Ask whether the caller may read the table in the namespace of these
    /// levels.
    AskRead(Seq<Seq<char>>),
    /// Go on.
    Open,
}

impl View for HealthStep {
    type V = HealthView;

    open spec fn view(&self) -> HealthView {
        match *self {
            HealthStep::AskWarehouse => HealthView::AskWarehouse,
            HealthStep::AskNamespace(levels) => HealthView::AskNamespace(text::texts(levels@)),
            HealthStep::AskTable(levels) => HealthView::AskTable(text::texts(levels@)),
            HealthStep::AskRead(levels) => HealthView::AskRead(text::texts(levels@)),
            HealthStep::Open => HealthView::Open,
        }
    }
}

/// The step of reading a table's health.
pub open spec fn health_step(
    warehouse: Seq<char>,
    namespace: Seq<char>,
    table: Seq<char>,
    facts: HealthFacts,
) -> Result<HealthView, error::ErrorView> {
    let levels = namespaces::param_levels(namespace);
    match facts.warehouse {
        Found::Unasked => Ok(HealthView::AskWarehouse),
        Found::Missing => Err(error::error_of(ErrorKind::NoSuchWarehouse, warehouse)),
        Found::Is(_) => match namespaces::levels_error(levels) {
            Some(e) => Err(e),
            None => match facts.namespace {
                Found::Unasked => Ok(HealthView::AskNamespace(levels)),
                Found::Missing => Err(namespaces::no_such_namespace(levels)),
                Found::Is(_) => match facts.table {
                    Found::Unasked => Ok(HealthView::AskTable(levels)),
                    Found::Missing => Err(tables::missing_table(levels, table)),
                    Found::Is(_) => match facts.access {
                        None => Ok(HealthView::AskRead(levels)),
                        Some(access) => match grants::access_error(access) {
                            Some(e) => Err(e),
                            None => Ok(HealthView::Open),
                        },
                    },
                },
            },
        },
    }
}

/// Takes the next step of reading a table's health.
pub fn resolve_table_for_read(warehouse: &str, namespace: &str, table: &str, facts: &HealthFacts) -> (r: Result<
    HealthStep,
    ApiError,
>)
    ensures
        error::viewed(r) == health_step(warehouse@, namespace@, table@, *facts),
{
    match &facts.warehouse {
        Found::Unasked => { return Ok(HealthStep::AskWarehouse); },
        Found::Missing => { return Err(ApiError::new(ErrorKind::NoSuchWarehouse, warehouse)); },
        Found::Is(_) => {},
    }
    let levels = match decode_namespace_param(namespace) {
        Err(e) => { return Err(e); },
        Ok(levels) => levels,
    };
    match &facts.namespace {
        Found::Unasked => { return Ok(HealthStep::AskNamespace(levels)); },
        Found::Missing => {
            return match found_namespace::<()>(&levels, None) {
                Err(e) => Err(e),
                Ok(_) => Ok(HealthStep::Open),
            };
        },
        Found::Is(_) => {},
    }
    match &facts.table {
        Found::Unasked => { return Ok(HealthStep::AskTable(levels)); },
        Found::Missing => { return Err(no_such_table(&levels, table)); },
        Found::Is(_) => {},
    }
    match &facts.access {
        None => Ok(HealthStep::AskRead(levels)),
        Some(access) => match require(access) {
            Err(e) => Err(e),
            Ok(()) => Ok(HealthStep::Open),
        },
    }
}

/// A table's health is shown only to those who may read the table.
pub proof fn health_is_guarded(warehouse: Seq<char>, namespace: Seq<char>, table: Seq<char>, facts: HealthFacts)
    ensures
        health_step(warehouse, namespace, table, facts) matches Ok(HealthView::Open) ==> facts.access == Some(
            Access::Granted,
        ) && facts.table is Is,
{
}

/// Where the metadata lies that the health is computed from.
pub fn health_metadata<'a>(levels: &Vec<String>, table: &str, record: &'a TableRecord) -> (r: Result<
    &'a String,
    ApiError,
>)
    ensures
        match record.metadata_location {
            Some(location) => r matches Ok(got) && *got == location,
            None => error::fails_with(
                r,
                error::error_of(
                    ErrorKind::NoSuchTable,
                    "table "@ + text::quoted(tables::ident_text(text::texts(levels@), table@)) + " has no metadata"@,
                ),
            ),
        },
{
    match &record.metadata_location {
        Some(location) => Ok(location),
        None => {
            let ident = display_ident(levels, table);
            Err(ApiError::new(
                ErrorKind::NoSuchTable,
                cat3("table ", quote(ident.as_str()).as_str(), " has no metadata").as_str(),
            ))
        },
    }
}

/// Query parameters of the health history.
#[derive(Debug)]
pub struct HistoryQuery {
    /// How many points.
    pub limit: Option<i64>,
}

/// How many points of a health history are given.
pub fn history_limit(query: &HistoryQuery) -> (r: i64)
    ensures
        r == limits::clamped(query.limit, DEFAULT_HISTORY_LIMIT, 1, MAX_LIMIT),
        1 <= r <= MAX_LIMIT,
{
    clamp(query.limit, DEFAULT_HISTORY_LIMIT, 1, MAX_LIMIT)
}

// ---------------------------------------------------------------------------
// Jobs
// ---------------------------------------------------------------------------

/// What a job does.
#[derive(Clone, Copy, Debug, PartialEq, Eq, Structural)]
pub enum JobType {
    /// It combines small files.
    Compaction,
    /// It expires snapshots.
    ExpireSnapshots,
    /// It removes files that nothing refers to.
    RemoveOrphans,
    /// It rewrites manifests.
    RewriteManifests,
}

/// The job type of a wire name.
pub open spec fn job_type_of(name: Seq<char>) -> Option<JobType> {
    if name == "compaction"@ {
        Some(JobType::Compaction)
    } else if name == "expire_snapshots"@ {
        Some(JobType::ExpireSnapshots)
    } else if name == "remove_orphans"@ {
        Some(JobType::RemoveOrphans)
    } else if name == "rewrite_manifests"@ {
        Some(JobType::RewriteManifests)
    } else {
        None
    }
}

/// The job type of a wire name.
pub fn parse_job_type(raw: &str) -> (r: Option<JobType>)
    ensures
        r == job_type_of(raw@),
{
    if same(raw, "compaction") {
        Some(JobType::Compaction)
    } else if same(raw, "expire_snapshots") {
        Some(JobType::ExpireSnapshots)
    } else if same(raw, "remove_orphans") {
        Some(JobType::RemoveOrphans)
    } else if same(raw, "rewrite_manifests") {
        Some(JobType::RewriteManifests)
    } else {
        None
    }
}

/// How far a job is.
#[derive(Clone, Copy, Debug, PartialEq, Eq, Structural)]
pub enum JobState {
    /// It waits.
    Queued,
    /// It runs.
    Running,
    /// It is done.
    Succeeded,
    /// It failed.
    Failed,
    /// It was called off.
    Cancelled,
}

/// The job state of a wire name.
pub open spec fn job_state_of(name: Seq<char>) -> Option<JobState> {
    if name == "queued"@ {
        Some(JobState::Queued)
    } else if name == "running"@ {
        Some(JobState::Running)
    } else if name == "succeeded"@ {
        Some(JobState::Succeeded)
    } else if name == "failed"@ {
        Some(JobState::Failed)
    } else if name == "cancelled"@ {
        Some(JobState::Cancelled)
    } else {
        None
    }
}

/// The job state of a wire name.
pub fn parse_job_state(raw: &str) -> (r: Option<JobState>)
    ensures
        r == job_state_of(raw@),
{
    if same(raw, "queued") {
        Some(JobState::Queued)
    } else if same(raw, "running") {
        Some(JobState::Running)
    } else if same(raw, "succeeded") {
        Some(JobState::Succeeded)
    } else if same(raw, "failed") {
        Some(JobState::Failed)
    } else if same(raw, "cancelled") {
        Some(JobState::Cancelled)
    } else {
        None
    }
}

/// The error of a stored job that cannot be read.
pub open spec fn job_unreadable(message: Seq<char>) -> error::ErrorView {
    error::error_of(ErrorKind::Store(StoreKind::Internal), message)
}

/// The type and the state of a stored job; a job of an unknown type or state
/// is a fault of the store.
pub fn job_of_row(job_type: &str, state: &str) -> (r: Result<(JobType, JobState), ApiError>)
    ensures
        match job_type_of(job_type@) {
            None => error::fails_with(r, job_unreadable("job has an unknown type"@)),
            Some(t) => match job_state_of(state@) {
                None => error::fails_with(r, job_unreadable("job has an unknown state"@)),
                Some(s) => r matches Ok(job) && job == (t, s),
            },
        },
{
    let t = match parse_job_type(job_type) {
        None => {
            return Err(ApiError::new(ErrorKind::Store(StoreKind::Internal), "job has an unknown type"));
        },
        Some(t) => t,
    };
    match parse_job_state(state) {
        None => Err(ApiError::new(ErrorKind::Store(StoreKind::Internal), "job has an unknown state")),
        Some(s) => Ok((t, s)),
    }
}

/// Query parameters of the job list.
#[derive(Debug)]
pub struct JobListQuery {
    /// Only jobs in this state.
    pub state: Option<String>,
    /// Only jobs of this table.
    pub table_id: Option<String>,
    /// How many.
    pub limit: Option<i64>,
}

/// Admits the job list, and gives the number of rows. A state that is none is
/// refused, so that a typo is seen.
pub fn list_jobs(access: &Access, query: &JobListQuery) -> (r: Result<i64, ApiError>)
    ensures
        match grants::access_error(*access) {
            Some(e) => error::fails_with(r, e),
            None => match query.state {
                Some(state) if job_state_of(state@) is None => error::fails_with(
                    r,
                    error::bad_request("unknown job state "@ + text::quoted(state@)),
                ),
                _ => r matches Ok(limit) && limit == limits::clamped(query.limit, DEFAULT_LIMIT, 1, MAX_LIMIT),
            },
        },
{
    match require(access) {
        Err(e) => { return Err(e); },
        Ok(()) => {},
    }
    match &query.state {
        None => {},
        Some(state) => match parse_job_state(state.as_str()) {
            Some(_) => {},
            None => {
                return Err(ApiError::bad_request(
                    cat2("unknown job state ", quote(state.as_str()).as_str()).as_str(),
                ));
            },
        },
    }
    Ok(clamp(query.limit, DEFAULT_LIMIT, 1, MAX_LIMIT))
}

/// The job of an id.
pub fn get_job<T>(access: &Access, found: Option<T>) -> (r: Result<T, ApiError>)
    ensures
        match grants::access_error(*access) {
            Some(e) => error::fails_with(r, e),
            None => match found {
                Some(job) => r matches Ok(got) && got == job,
                None => error::fails_with(r, error::not_found("job not found"@)),
            },
        },
{
    match require(access) {
        Err(e) => { return Err(e); },
        Ok(()) => {},
    }
    match found {
        Some(job) => Ok(job),
        None => Err(ApiError::not_found("job not found")),
    }
}

/// What is known so far of a job to call off.
#[derive(Debug)]
pub struct CancelFacts {
    /// Whether the job is there.
    pub job: Found<()>,
    /// Whether its table is there.
    pub table: Found<()>,
    /// Whether the caller may manage the table's namespace.
    pub access: Option<Access>,
    /// What became of the job.
    pub cancelled: Option<Result<(), StoreError>>,
}

/// The next step of calling off a job.
#[derive(Debug)]
pub enum CancelStep {
    /// Look up the job.
    AskJob,
    /// Look up the namespace of its table.
    AskTable,
    /// Ask whether the caller may manage that namespace.
    AskManage,
    /// Call it off.
    Cancel,
    /// Answer with the job.
    Answer,
}

/// A store failure of calling off a job.
pub open spec fn cancel_failure(error: StoreError) -> error::ErrorView {
    match error.kind {
        StoreKind::Conflict => error::error_of(ErrorKind::Conflict, error.message@),
        StoreKind::NotFound => error::not_found(error.message@),
        _ => error::store_failure(error),
    }
}

/// The step of calling off a job.
pub open spec fn cancel_step(facts: CancelFacts) -> Result<CancelStep, error::ErrorView> {
    match facts.job {
        Found::Unasked => Ok(CancelStep::AskJob),
        Found::Missing => Err(error::not_found("job not found"@)),
        Found::Is(_) => match facts.table {
            Found::Unasked => Ok(CancelStep::AskTable),
            Found::Missing => Err(error::not_found("the job's table no longer exists"@)),
            Found::Is(_) => match facts.access {
                None => Ok(CancelStep::AskManage),
                Some(access) => match grants::access_error(access) {
                    Some(e) => Err(e),
                    None => match facts.cancelled {
                        None => Ok(CancelStep::Cancel),
                        Some(Err(e)) => Err(cancel_failure(e)),
                        Some(Ok(_)) => Ok(CancelStep::Answer),
                    },
                },
            },
        },
    }
}

/// Takes the next step of calling off a job.
pub fn cancel_job(facts: &CancelFacts) -> (r: Result<CancelStep, ApiError>)
    ensures
        error::outcome(r) == cancel_step(*facts),
{
    match &facts.job {
        Found::Unasked => { return Ok(CancelStep::AskJob); },
        Found::Missing => { return Err(ApiError::not_found("job not found")); },
        Found::Is(_) => {},
    }
    match &facts.table {
        Found::Unasked => { return Ok(CancelStep::AskTable); },
        Found::Missing => { return Err(ApiError::not_found("the job's table no longer exists")); },
        Found::Is(_) => {},
    }
    match &facts.access {
        None => { return Ok(CancelStep::AskManage); },
        Some(access) => match require(access) {
            Err(e) => { return Err(e); },
            Ok(()) => {},
        },
    }
    match &facts.cancelled {
        None => Ok(CancelStep::Cancel),
        Some(Ok(_)) => Ok(CancelStep::Answer),
        Some(Err(e)) => Err(match e.kind {
            StoreKind::Conflict => ApiError::new(ErrorKind::Conflict, e.message.as_str()),
            StoreKind::NotFound => ApiError::not_found(e.message.as_str()),
            _ => ApiError::from_store(e),
        }),
    }
}

/// Request body to start a job.
#[derive(Debug)]
pub struct TriggerRequest {
    /// The warehouse.
    pub warehouse: String,
    /// The namespace, dotted.
    pub namespace: String,
    /// The table.
    pub table: String,
    /// What the job does: `compaction` or `expire_snapshots`.
    pub job_type: Option<String>,
    /// Whether it only plans.
    pub dry_run: bool,
}

/// What is known so far of a job to start.
#[derive(Debug)]
pub struct TriggerFacts {
    /// Whether the warehouse is there.
    pub warehouse: Found<()>,
    /// Whether the namespace is there.
    pub namespace: Found<()>,
    /// Whether the table is there.
    pub table: Found<()>,
    /// Whether the caller may manage the namespace.
    pub access: Option<Access>,
}

/// The next step of starting a job.
#[derive(Debug)]
pub enum TriggerStep {
    /// Look up the warehouse.
    AskWarehouse,
    /// Look up the namespace of these levels.
    AskNamespace(Vec<String>),
    /// Look up the table in the namespace of these levels.
    AskTable(Vec<String>),
    /// Ask whether the caller may manage the namespace of these levels.
    AskManage(Vec<String>),
    /// Enqueue a job of this type, which only plans or not.
    Enqueue(JobType, bool),
}

/// The model of a step of starting a job.
pub enum TriggerView {
    /// Look up the warehouse.
    AskWarehouse,
    /// Look up the namespace of these levels.
    AskNamespace(Seq<Seq<char>>),
    /// Look up the table in the namespace of these levels.
    AskTable(Seq<Seq<char>>),
    /// Ask whether the caller may manage the namespace of these levels.
    AskManage(Seq<Seq<char>>),
    /// Enqueue a job of this type, which only plans or not.
    Enqueue(JobType, bool),
}

impl View for TriggerStep {
    type V = TriggerView;

    open spec fn view(&self) -> TriggerView {
        match *self {
            TriggerStep::AskWarehouse => TriggerView::AskWarehouse,
            TriggerStep::AskNamespace(levels) => TriggerView::AskNamespace(text::texts(levels@)),
            TriggerStep::AskTable(levels) => TriggerView::AskTable(text::texts(levels@)),
            TriggerStep::AskManage(levels) => TriggerView::AskManage(text::texts(levels@)),
            TriggerStep::Enqueue(kind, dry_run) => TriggerView::Enqueue(kind, dry_run),
        }
    }
}

/// What a request starts.
pub open spec fn triggered_type(req: TriggerRequest) -> Result<JobType, error::ErrorView> {
    match req.job_type {
        None => Ok(JobType::Compaction),
        Some(name) => if name@ == "compaction"@ {
            Ok(JobType::Compaction)
        } else if name@ == "expire_snapshots"@ {
            Ok(JobType::ExpireSnapshots)
        } else {
            Err(
                error::bad_request(
                    "unsupported job_type "@ + text::quoted(name@)
                        + ": expected \"compaction\" or \"expire_snapshots\""@,
                ),
            )
        },
    }
}

/// The step of starting a job.
pub open spec fn trigger_step(req: TriggerRequest, facts: TriggerFacts) -> Result<TriggerView, error::ErrorView> {
    let levels = dotted_levels(req.namespace@);
    match facts.warehouse {
        Found::Unasked => Ok(TriggerView::AskWarehouse),
        Found::Missing => Err(error::error_of(ErrorKind::NoSuchWarehouse, req.warehouse@)),
        Found::Is(_) => if levels.len() == 0 {
            Err(empty_namespace())
        } else {
            match facts.namespace {
                Found::Unasked => Ok(TriggerView::AskNamespace(levels)),
                Found::Missing => Err(no_dotted_namespace(req.namespace@)),
                Found::Is(_) => match facts.table {
                    Found::Unasked => Ok(TriggerView::AskTable(levels)),
                    Found::Missing => Err(tables::missing_table(levels, req.table@)),
                    Found::Is(_) => match facts.access {
                        None => Ok(TriggerView::AskManage(levels)),
                        Some(access) => match grants::access_error(access) {
                            Some(e) => Err(e),
                            None => match triggered_type(req) {
                                Err(e) => Err(e),
                                Ok(t) => Ok(TriggerView::Enqueue(t, req.dry_run && t is Compaction)),
                            },
                        },
                    },
                },
            }
        },
    }
}

fn type_to_trigger(req: &TriggerRequest) -> (r: Result<JobType, ApiError>)
    ensures
        error::outcome(r) == triggered_type(*req),
{
    match &req.job_type {
        None => Ok(JobType::Compaction),
        Some(name) => if same(name.as_str(), "compaction") {
            Ok(JobType::Compaction)
        } else if same(name.as_str(), "expire_snapshots") {
            Ok(JobType::ExpireSnapshots)
        } else {
            Err(ApiError::bad_request(
                cat3(
                    "unsupported job_type ",
                    quote(name.as_str()).as_str(),
                    ": expected \"compaction\" or \"expire_snapshots\"",
                ).as_str(),
            ))
        },
    }
}

/// Takes the next step of starting a job by hand.
pub fn trigger_job(req: &TriggerRequest, facts: &TriggerFacts) -> (r: Result<TriggerStep, ApiError>)
    ensures
        error::viewed(r) == trigger_step(*req, *facts),
{
    match &facts.warehouse {
        Found::Unasked => { return Ok(TriggerStep::AskWarehouse); },
        Found::Missing => { return Err(ApiError::new(ErrorKind::NoSuchWarehouse, req.warehouse.as_str())); },
        Found::Is(_) => {},
    }
    let levels = match parse_dotted_namespace(req.namespace.as_str()) {
        Err(e) => { return Err(e); },
        Ok(levels) => levels,
    };
    match &facts.namespace {
        Found::Unasked => { return Ok(TriggerStep::AskNamespace(levels)); },
        Found::Missing => { return Err(missing_dotted_namespace(req.namespace.as_str())); },
        Found::Is(_) => {},
    }
    match &facts.table {
        Found::Unasked => { return Ok(TriggerStep::AskTable(levels)); },
        Found::Missing => { return Err(no_such_table(&levels, req.table.as_str())); },
        Found::Is(_) => {},
    }
    match &facts.access {
        None => { return Ok(TriggerStep::AskManage(levels)); },
        Some(access) => match require(access) {
            Err(e) => { return Err(e); },
            Ok(()) => {},
        },
    }
    match type_to_trigger(req) {
        Err(e) => Err(e),
        Ok(t) => Ok(TriggerStep::Enqueue(t, req.dry_run && t == JobType::Compaction)),
    }
}

/// A job is started or called off only by a caller who may manage the
/// namespace, and only a compaction merely plans.
pub proof fn jobs_are_guarded(req: TriggerRequest, started: TriggerFacts, stopped: CancelFacts)
    ensures
        trigger_step(req, started) matches Ok(TriggerView::Enqueue(t, dry_run)) ==> {
            &&& started.access == Some(Access::Granted)
            &&& dry_run ==> t is Compaction
        },
        cancel_step(stopped) matches Ok(CancelStep::Cancel) ==> stopped.access == Some(Access::Granted),
{
}

// ---------------------------------------------------------------------------
// Savings
// ---------------------------------------------------------------------------

/// Query parameters of the savings ledger.
#[derive(Debug)]
pub struct SavingsQuery {
    /// Only savings of this table.
    pub table_id: Option<String>,
    /// How many.
    pub limit: Option<i64>,
}

/// Query parameters of the roll-up.
#[derive(Debug)]
pub struct RollupQuery {
    /// How many months.
    pub months: Option<i64>,
}

/// Admits the savings ledger, and gives the number of rows.
pub fn list_savings(access: &Access, query: &SavingsQuery) -> (r: Result<i64, ApiError>)
    ensures
        match grants::access_error(*access) {
            Some(e) => error::fails_with(r, e),
            None => r matches Ok(limit) && limit == limits::clamped(query.limit, DEFAULT_LIMIT, 1, MAX_LIMIT),
        },
{
    match require(access) {
        Err(e) => Err(e),
        Ok(()) => Ok(clamp(query.limit, DEFAULT_LIMIT, 1, MAX_LIMIT)),
    }
}

/// Admits the roll-up of the savings, and gives the number of months.
pub fn savings_rollup(access: &Access, query: &RollupQuery) -> (r: Result<i64, ApiError>)
    ensures
        match grants::access_error(*access) {
            Some(e) => error::fails_with(r, e),
            None => r matches Ok(months) && months == limits::clamped(
                query.months,
                DEFAULT_ROLLUP_MONTHS,
                1,
                MAX_ROLLUP_MONTHS,
            ),
        },
{
    match require(access) {
        Err(e) => Err(e),
        Ok(()) => Ok(clamp(query.months, DEFAULT_ROLLUP_MONTHS, 1, MAX_ROLLUP_MONTHS)),
    }
}

/// A policy's scope is the narrowest thing that the selector names, under the id
/// that was found for it: its table, else its namespace, else its warehouse. A
/// table is named only within a namespace. The caller must manage the namespace,
/// or the warehouse where none is named.
pub proof fn scopes_are_the_narrowest_named(selector: PolicyScopeSelector, facts: ScopeFacts)
    ensures
        match scope_step(selector, facts) {
            Ok(ScopeView::AskWarehouse) => facts.warehouse is Unasked,
            Ok(ScopeView::AskNamespace(levels)) => facts.namespace is Unasked && (selector.namespace matches Some(d)
                && levels == dotted_levels(d@)),
            Ok(ScopeView::AskTable(levels)) => facts.table is Unasked && selector.table is Some && (selector.namespace
                matches Some(d) && levels == dotted_levels(d@)),
            Ok(ScopeView::AskManageWarehouse) => facts.access is None && (selector.namespace is Some ==> (
            facts.namespace matches Found::Is(n) && n.chain@.len() == 0)),
            Ok(ScopeView::AskManageNamespace(levels)) => facts.access is None && (selector.namespace matches Some(d)
                && levels == dotted_levels(d@)) && (facts.namespace matches Found::Is(n) && n.chain@.len() > 0),
            Ok(ScopeView::Open(scope, id)) => (facts.access matches Some(access) && access is Granted) && match scope {
                Scope::Warehouse => selector.namespace is None && selector.table is None && facts.warehouse == Found::Is(
                    id,
                ),
                Scope::Namespace => selector.namespace is Some && selector.table is None && (facts.namespace
                    matches Found::Is(n) && n.id == id),
                Scope::Table => selector.namespace is Some && selector.table is Some && facts.table == Found::Is(id),
            },
            Err(e) => {
                ||| e.kind == ErrorKind::NoSuchWarehouse && facts.warehouse is Missing
                ||| e.kind == ErrorKind::BadRequest && selector.table is Some && selector.namespace is None
                ||| e == empty_namespace() && (selector.namespace matches Some(d) && dotted_levels(d@).len() == 0)
                ||| e.kind == ErrorKind::NoSuchNamespace && facts.namespace is Missing
                ||| e.kind == ErrorKind::NoSuchTable && facts.table is Missing
                ||| facts.access matches Some(access) && !(access is Granted)
            },
        },
{
}

/// A job is put into the queue exactly by a caller who may manage the table, as
/// what the request names: a compaction where it names nothing, else a
/// compaction or an expiry. Only a compaction can be a dry run, and it is one
/// exactly where that is asked for.
pub proof fn jobs_are_triggered_as_asked(req: TriggerRequest, facts: TriggerFacts)
    ensures
        match trigger_step(req, facts) {
            Ok(TriggerView::AskWarehouse) => facts.warehouse is Unasked,
            Ok(TriggerView::AskNamespace(levels)) => facts.namespace is Unasked && levels == dotted_levels(
                req.namespace@,
            ),
            Ok(TriggerView::AskTable(levels)) => facts.table is Unasked && levels == dotted_levels(req.namespace@),
            Ok(TriggerView::AskManage(levels)) => facts.access is None && levels == dotted_levels(req.namespace@),
            Ok(TriggerView::Enqueue(job, dry_run)) => facts.warehouse is Is && facts.namespace is Is && facts.table is Is
                && (facts.access matches Some(access) && access is Granted) && match job {
                JobType::Compaction => (req.job_type matches Some(name) ==> name@ == "compaction"@) && dry_run
                    == req.dry_run,
                JobType::ExpireSnapshots => (req.job_type matches Some(name) && name@ == "expire_snapshots"@)
                    && !dry_run,
                _ => false,
            },
            Err(e) => {
                ||| e.kind == ErrorKind::NoSuchWarehouse && facts.warehouse is Missing
                ||| e == empty_namespace() && dotted_levels(req.namespace@).len() == 0
                ||| e.kind == ErrorKind::NoSuchNamespace && facts.namespace is Missing
                ||| e.kind == ErrorKind::NoSuchTable && facts.table is Missing
                ||| facts.access matches Some(access) && !(access is Granted)
                ||| e.kind == ErrorKind::BadRequest && (req.job_type matches Some(name) && name@ != "compaction"@ && name@
                    != "expire_snapshots"@)
            },
        },
{
}

/// A job is cancelled exactly where it and its table are there and the caller
/// may manage the table; it is answered once it was cancelled.
pub proof fn jobs_are_cancelled_as_asked(facts: CancelFacts)
    ensures
        match cancel_step(facts) {
            Ok(CancelStep::AskJob) => facts.job is Unasked,
            Ok(CancelStep::AskTable) => facts.job is Is && facts.table is Unasked,
            Ok(CancelStep::AskManage) => facts.job is Is && facts.table is Is && facts.access is None,
            Ok(CancelStep::Cancel) => facts.job is Is && facts.table is Is && (facts.access matches Some(access)
                && access is Granted) && facts.cancelled is None,
            Ok(CancelStep::Answer) => facts.job is Is && facts.table is Is && (facts.access matches Some(access)
                && access is Granted) && (facts.cancelled matches Some(Ok(_))),
            Err(e) => {
                ||| e.kind == ErrorKind::NotFound && (facts.job is Missing || facts.table is Missing)
                ||| facts.access matches Some(access) && !(access is Granted)
                ||| facts.cancelled matches Some(Err(cause)) && (cause.kind == StoreKind::Conflict ==> e.kind
                    == ErrorKind::Conflict) && (cause.kind == StoreKind::NotFound ==> e.kind == ErrorKind::NotFound)
            },
        },
{
}

/// A table's health is open exactly where all that leads to it is there and the
/// caller may read it.
pub proof fn health_is_opened(warehouse: Seq<char>, namespace: Seq<char>, table: Seq<char>, facts: HealthFacts)
    ensures
        ({
            let levels = namespaces::param_levels(namespace);
            match health_step(warehouse, namespace, table, facts) {
                Ok(HealthView::AskWarehouse) => facts.warehouse is Unasked,
                Ok(HealthView::AskNamespace(asked)) => asked == levels && facts.namespace is Unasked,
                Ok(HealthView::AskTable(asked)) => asked == levels && facts.namespace is Is && facts.table is Unasked,
                Ok(HealthView::AskRead(asked)) => asked == levels && facts.table is Is && facts.access is None,
                Ok(HealthView::Open) => facts.warehouse is Is && facts.namespace is Is && facts.table is Is && (
                facts.access matches Some(access) && access is Granted),
                Err(e) => {
                    ||| e.kind == ErrorKind::NoSuchWarehouse && facts.warehouse is Missing
                    ||| e.kind == ErrorKind::BadRequest && !namespaces::good_levels(levels)
                    ||| e.kind == ErrorKind::NoSuchNamespace && facts.namespace is Missing
                    ||| e.kind == ErrorKind::NoSuchTable && facts.table is Missing
                    ||| facts.access matches Some(access) && !(access is Granted)
                },
            }
        }),
{
    namespaces::bad_levels_are_refused(namespaces::param_levels(namespace));
}

/// The type and the state of a job are read off their names, and off nothing
/// else.
pub proof fn job_names_are_read(name: Seq<char>)
    ensures
        job_type_of(name) == Some(JobType::Compaction) <==> name == "compaction"@,
        job_type_of(name) == Some(JobType::ExpireSnapshots) <==> name == "expire_snapshots"@,
        job_type_of(name) == Some(JobType::RemoveOrphans) <==> name == "remove_orphans"@,
        job_type_of(name) == Some(JobType::RewriteManifests) <==> name == "rewrite_manifests"@,
        job_state_of(name) == Some(JobState::Queued) <==> name == "queued"@,
        job_state_of(name) == Some(JobState::Running) <==> name == "running"@,
        job_state_of(name) == Some(JobState::Succeeded) <==> name == "succeeded"@,
        job_state_of(name) == Some(JobState::Failed) <==> name == "failed"@,
        job_state_of(name) == Some(JobState::Cancelled) <==> name == "cancelled"@,
{
    reveal_strlit("compaction");
    reveal_strlit("expire_snapshots");
    reveal_strlit("remove_orphans");
    reveal_strlit("rewrite_manifests");
    reveal_strlit("queued");
    reveal_strlit("running");
    reveal_strlit("succeeded");
    reveal_strlit("failed");
    reveal_strlit("cancelled");
    assert("compaction"@.len() == 10 && "expire_snapshots"@.len() == 16 && "remove_orphans"@.len() == 14
        && "rewrite_manifests"@.len() == 17);
    assert("queued"@.len() == 6 && "failed"@.len() == 6 && "queued"@[0] == 'q' && "failed"@[0] == 'f');
    assert("running"@.len() == 7 && "succeeded"@.len() == 9 && "cancelled"@.len() == 9);
    assert("succeeded"@[0] == 's' && "cancelled"@[0] == 'c');
}

} // verus!
