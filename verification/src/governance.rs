//! Governance: tags and where they are put, policies and what they bind to,
//! and the reports that an auditor reads.

use vstd::prelude::*;

use crate::error;
use crate::error::{ApiError, ErrorKind};
use crate::grants;
use crate::grants::{require, Access, EffectivePermission, Found};
use crate::limits;
use crate::limits::clamp;
use crate::metadata::{copy_opt, Schema};
use crate::namespaces;
use crate::namespaces::decode_dotted_namespace;
use crate::text;
use crate::text::{after_prefix, cat2, cat3, holds, join, quote, same};
use crate::textmap::TextMap;

verus! {

// ---------------------------------------------------------------------------
// Tags
// ---------------------------------------------------------------------------

/// Request body to create a tag.
#[derive(Debug)]
pub struct CreateTagRequest {
    /// Its key.
    pub key: String,
    /// Its value.
    pub value: String,
    /// What it is for.
    pub description: Option<String>,
}

/// A tag as policies write it: key and value, with a colon between.
pub open spec fn tag_text(key: Seq<char>, value: Seq<char>) -> Seq<char> {
    key + ":"@ + value
}

/// A tag as policies write it.
pub fn rendered_tag(key: &str, value: &str) -> (r: String)
    ensures
        r@ == tag_text(key@, value@),
{
    cat3(key, ":", value)
}

/// What a tag is put on.
#[derive(Clone, Copy, Debug, PartialEq, Eq, Structural)]
pub enum TagSecurable {
    /// A table.
    Table,
    /// A namespace.
    Namespace,
    /// A column of a table.
    Column,
}

/// The tag securable of a wire name.
pub open spec fn tag_securable_of(name: Seq<char>) -> Option<TagSecurable> {
    if name == "table"@ {
        Some(TagSecurable::Table)
    } else if name == "namespace"@ {
        Some(TagSecurable::Namespace)
    } else if name == "column"@ {
        Some(TagSecurable::Column)
    } else {
        None
    }
}

/// What a tag is to be put on, by name.
#[derive(Debug)]
pub struct AssignmentTarget {
    /// `table`, `namespace`, or `column`.
    pub securable_type: String,
    /// The warehouse.
    pub warehouse: String,
    /// The namespace, dotted.
    pub namespace: String,
    /// The table, for a table or a column.
    pub table: Option<String>,
    /// The column, for a column.
    pub column: Option<String>,
}

/// The next step of resolving what a tag is put on.
#[derive(Debug)]
pub enum TargetStep {
    /// Look up the warehouse.
    AskWarehouse,
    /// Look up the namespace of these levels.
    AskNamespace(Vec<String>),
    /// Look up the table in the namespace of these levels.
    AskTable(Vec<String>),
    /// Put the tag on the securable of this id, and this column of it.
    Put(TagSecurable, String, Option<String>),
}

/// The model of a step of resolving what a tag is put on.
pub enum TargetView {
    /// Look up the warehouse.
    AskWarehouse,
    /// Look up the namespace of these levels.
    AskNamespace(Seq<Seq<char>>),
    /// Look up the table in the namespace of these levels.
    AskTable(Seq<Seq<char>>),
    /// Put the tag on the securable of this id, and this column of it.
    Put(TagSecurable, String, Option<String>),
}

impl View for TargetStep {
    type V = TargetView;

    open spec fn view(&self) -> TargetView {
        match *self {
            TargetStep::AskWarehouse => TargetView::AskWarehouse,
            TargetStep::AskNamespace(levels) => TargetView::AskNamespace(text::texts(levels@)),
            TargetStep::AskTable(levels) => TargetView::AskTable(text::texts(levels@)),
            TargetStep::Put(kind, id, column) => TargetView::Put(kind, id, column),
        }
    }
}

/// The 404 of a table.
pub open spec fn table_missing(name: Seq<char>) -> error::ErrorView {
    error::error_of(ErrorKind::NoSuchTable, "table "@ + name + " does not exist"@)
}

/// The step of resolving what a tag is put on. A column is a column of its
/// table.
pub open spec fn target_step(target: AssignmentTarget, warehouse: Found<()>, row: Found<String>) -> Result<
    TargetView,
    error::ErrorView,
> {
    match tag_securable_of(target.securable_type@) {
        None => Err(
            error::bad_request(
                "invalid securable_type "@ + text::quoted(target.securable_type@)
                    + ": expected table, namespace, or column"@,
            ),
        ),
        Some(kind) => match warehouse {
            Found::Unasked => Ok(TargetView::AskWarehouse),
            Found::Missing => Err(error::error_of(ErrorKind::NoSuchWarehouse, target.warehouse@)),
            Found::Is(_) => match namespaces::levels_error(namespaces::dotted_levels(target.namespace@)) {
                Some(e) => Err(e),
                None => if kind == TagSecurable::Namespace {
                    match row {
                        Found::Unasked => Ok(TargetView::AskNamespace(namespaces::dotted_levels(target.namespace@))),
                        Found::Missing => Err(
                            error::error_of(
                                ErrorKind::NoSuchNamespace,
                                "namespace "@ + target.namespace@ + " does not exist"@,
                            ),
                        ),
                        Found::Is(id) => Ok(TargetView::Put(kind, id, None)),
                    }
                } else {
                    match target.table {
                        None => Err(error::bad_request("table is required for a table/column target"@)),
                        Some(name) => match row {
                            Found::Unasked => Ok(TargetView::AskTable(namespaces::dotted_levels(target.namespace@))),
                            Found::Missing => Err(table_missing(name@)),
                            Found::Is(id) => if kind == TagSecurable::Column {
                                match target.column {
                                    None => Err(error::bad_request("column is required for a column target"@)),
                                    Some(column) => Ok(TargetView::Put(kind, id, Some(column))),
                                }
                            } else {
                                Ok(TargetView::Put(kind, id, None))
                            },
                        },
                    }
                },
            },
        },
    }
}

/// Takes the next step of resolving what a tag is put on.
pub fn resolve_assignment_target(target: &AssignmentTarget, warehouse: &Found<()>, row: &Found<String>) -> (r: Result<
    TargetStep,
    ApiError,
>)
    ensures
        error::viewed(r) == target_step(*target, *warehouse, *row),
{
    let kind = if same(target.securable_type.as_str(), "table") {
        TagSecurable::Table
    } else if same(target.securable_type.as_str(), "namespace") {
        TagSecurable::Namespace
    } else if same(target.securable_type.as_str(), "column") {
        TagSecurable::Column
    } else {
        return Err(ApiError::bad_request(
            cat3(
                "invalid securable_type ",
                quote(target.securable_type.as_str()).as_str(),
                ": expected table, namespace, or column",
            ).as_str(),
        ));
    };
    match warehouse {
        Found::Unasked => { return Ok(TargetStep::AskWarehouse); },
        Found::Missing => { return Err(ApiError::new(ErrorKind::NoSuchWarehouse, target.warehouse.as_str())); },
        Found::Is(_) => {},
    }
    let levels = match decode_dotted_namespace(target.namespace.as_str()) {
        Err(e) => { return Err(e); },
        Ok(levels) => levels,
    };
    if kind == TagSecurable::Namespace {
        return match row {
            Found::Unasked => Ok(TargetStep::AskNamespace(levels)),
            Found::Missing => Err(ApiError::new(
                ErrorKind::NoSuchNamespace,
                cat3("namespace ", target.namespace.as_str(), " does not exist").as_str(),
            )),
            Found::Is(id) => Ok(TargetStep::Put(kind, id.clone(), None)),
        };
    }
    let name = match &target.table {
        None => { return Err(ApiError::bad_request("table is required for a table/column target")); },
        Some(name) => name,
    };
    let id = match row {
        Found::Unasked => { return Ok(TargetStep::AskTable(levels)); },
        Found::Missing => {
            return Err(ApiError::new(
                ErrorKind::NoSuchTable,
                cat3("table ", name.as_str(), " does not exist").as_str(),
            ));
        },
        Found::Is(id) => id,
    };
    if kind == TagSecurable::Column {
        match &target.column {
            None => Err(ApiError::bad_request("column is required for a column target")),
            Some(column) => Ok(TargetStep::Put(kind, id.clone(), Some(column.clone()))),
        }
    } else {
        Ok(TargetStep::Put(kind, id.clone(), None))
    }
}

/// Who put a tag somewhere.
#[derive(Clone, Copy, Debug, PartialEq, Eq, Structural)]
pub enum AssignmentSource {
    /// A person.
    Manual,
    /// A classifier.
    Classifier,
}

/// Who put a tag somewhere, as a request names it: a person, where it does
/// not say.
pub fn assignment_source(source: &Option<String>) -> (r: Result<AssignmentSource, ApiError>)
    ensures
        match *source {
            None => r matches Ok(got) && got == AssignmentSource::Manual,
            Some(s) => if s@ == "manual"@ {
                r matches Ok(got) && got == AssignmentSource::Manual
            } else if s@ == "classifier"@ {
                r matches Ok(got) && got == AssignmentSource::Classifier
            } else {
                error::fails_with(
                    r,
                    error::bad_request("invalid source "@ + text::quoted(s@) + ": expected manual or classifier"@),
                )
            },
        },
{
    match source {
        None => Ok(AssignmentSource::Manual),
        Some(s) => if same(s.as_str(), "manual") {
            Ok(AssignmentSource::Manual)
        } else if same(s.as_str(), "classifier") {
            Ok(AssignmentSource::Classifier)
        } else {
            Err(ApiError::bad_request(
                cat3("invalid source ", quote(s.as_str()).as_str(), ": expected manual or classifier").as_str(),
            ))
        },
    }
}

/// Whether an assignment is in force: as the request says, or else where a
/// person made it; what a classifier suggests waits for approval.
pub fn assignment_in_force(approved: Option<bool>, source: AssignmentSource) -> (r: bool)
    ensures
        r == (match approved {
            Some(b) => b,
            None => source == AssignmentSource::Manual,
        }),
{
    match approved {
        Some(b) => b,
        None => match source {
            AssignmentSource::Manual => true,
            AssignmentSource::Classifier => false,
        },
    }
}

// ---------------------------------------------------------------------------
// Coverage
// ---------------------------------------------------------------------------

/// Query parameters of the coverage and drift reports.
#[derive(Debug)]
pub struct CoverageQuery {
    /// The warehouse.
    pub warehouse: String,
    /// Only below this namespace, dotted.
    pub namespace: Option<String>,
}

/// The levels below which the coverage report looks: the whole warehouse,
/// where no namespace is named.
pub fn coverage_scope(query: &CoverageQuery) -> (r: Result<Vec<String>, ApiError>)
    ensures
        match query.namespace {
            None => r matches Ok(levels) && text::texts(levels@) == Seq::<Seq<char>>::empty(),
            Some(ns) => match namespaces::levels_error(namespaces::dotted_levels(ns@)) {
                Some(e) => error::fails_with(r, e),
                None => r matches Ok(levels) && text::texts(levels@) == namespaces::dotted_levels(ns@),
            },
        },
{
    match &query.namespace {
        None => {
            let all: Vec<String> = Vec::new();
            assert(text::texts(all@) =~= Seq::<Seq<char>>::empty());
            Ok(all)
        },
        Some(ns) => decode_dotted_namespace(ns.as_str()),
    }
}

/// A table of the coverage report.
#[derive(Debug)]
pub struct CoverageRow {
    /// ULID of the table.
    pub table_id: String,
    /// The levels of its namespace.
    pub levels: Vec<String>,
    /// Its name.
    pub name: String,
}

/// How far a table is tagged.
#[derive(Clone, Copy, Debug)]
pub struct TableCoverage {
    /// Whether the table itself is.
    pub table_tagged: bool,
    /// How many of its columns are.
    pub tagged_columns: i64,
}

/// One line of the coverage report.
#[derive(Debug)]
pub struct CoverageLine {
    /// ULID of the table.
    pub table_id: String,
    /// Its namespace, with dots between the levels.
    pub namespace: String,
    /// Its name.
    pub name: String,
    /// Whether the table itself is tagged.
    pub table_tagged: bool,
    /// How many of its columns are.
    pub tagged_columns: i64,
}

/// The coverage report.
#[derive(Debug)]
pub struct CoverageReport {
    /// How many tables there are.
    pub total_tables: usize,
    /// How many of them carry any tag.
    pub tables_with_any_tag: usize,
    /// One line per table, in the order of the rows.
    pub tables: Vec<CoverageLine>,
}

/// How far a table is tagged: not at all, where nothing was counted.
pub open spec fn coverage_of(counts: Map<Seq<char>, TableCoverage>, id: Seq<char>) -> TableCoverage {
    if counts.dom().contains(id) {
        counts[id]
    } else {
        TableCoverage { table_tagged: false, tagged_columns: 0 }
    }
}

/// Whether a table carries any tag.
pub open spec fn carries_tag(counts: Map<Seq<char>, TableCoverage>, row: CoverageRow) -> bool {
    let c = coverage_of(counts, row.table_id@);
    c.table_tagged || c.tagged_columns > 0
}

/// Whether the line is that of the row.
pub open spec fn is_coverage_line(line: CoverageLine, row: CoverageRow, counts: Map<Seq<char>, TableCoverage>) -> bool {
    let c = coverage_of(counts, row.table_id@);
    &&& line.table_id == row.table_id
    &&& line.namespace@ == text::join_with(text::texts(row.levels@), "."@)
    &&& line.name == row.name
    &&& line.table_tagged == c.table_tagged
    &&& line.tagged_columns == c.tagged_columns
}

/// Whether the report is that of the rows, line by line.
pub open spec fn is_coverage_report(
    report: CoverageReport,
    rows: Seq<CoverageRow>,
    counts: Map<Seq<char>, TableCoverage>,
) -> bool {
    &&& report.total_tables == rows.len()
    &&& report.tables_with_any_tag == rows.filter(|row: CoverageRow| carries_tag(counts, row)).len()
    &&& report.tables@.len() == rows.len()
    &&& forall|i: int| 0 <= i < rows.len() ==> is_coverage_line(#[trigger] report.tables@[i], rows[i], counts)
}

/// Draws up the coverage report of a warehouse for a manager.
pub fn classification_coverage(access: &Access, rows: Vec<CoverageRow>, counts: &TextMap<TableCoverage>) -> (r: Result<
    CoverageReport,
    ApiError,
>)
    ensures
        match grants::access_error(*access) {
            Some(e) => error::fails_with(r, e),
            None => r matches Ok(report) && is_coverage_report(report, rows@, counts@),
        },
{
    match require(access) {
        Err(e) => { return Err(e); },
        Ok(()) => {},
    }
    let ghost tagged = |row: CoverageRow| carries_tag(counts@, row);
    let total: usize = rows.len();
    let mut tables: Vec<CoverageLine> = Vec::new();
    let mut any: usize = 0;
    let ghost all = rows@;
    proof {
        reveal(Seq::filter);
    }
    for row in it: rows
        invariant
            it.seq() == all,
            total == all.len(),
            tagged == (|row: CoverageRow| carries_tag(counts@, row)),
            any == all.take(it.index()).filter(tagged).len(),
            any <= it.index(),
            tables@.len() == it.index(),
            forall|i: int| 0 <= i < tables@.len() ==> is_coverage_line(#[trigger] tables@[i], all[i], counts@),
    {
        proof {
            reveal(Seq::filter);
        }
        assert(all.take(it.index() + 1).drop_last() =~= all.take(it.index()));
        let c = match counts.get(row.table_id.as_str()) {
            Some(c) => *c,
            None => TableCoverage { table_tagged: false, tagged_columns: 0 },
        };
        if c.table_tagged || c.tagged_columns > 0 {
            any = any + 1;
        }
        tables.push(
            CoverageLine {
                table_id: row.table_id,
                namespace: join(&row.levels, "."),
                name: row.name,
                table_tagged: c.table_tagged,
                tagged_columns: c.tagged_columns,
            },
        );
    }
    assert(all.take(all.len() as int) =~= all);
    Ok(CoverageReport { total_tables: total, tables_with_any_tag: any, tables })
}

// ---------------------------------------------------------------------------
// Policies
// ---------------------------------------------------------------------------

/// What a policy does.
#[derive(Clone, Copy, Debug, PartialEq, Eq, Structural)]
pub enum PolicyKind {
    /// It filters rows.
    RowFilter,
    /// It masks columns.
    ColumnMask,
    /// It allows or refuses.
    Abac,
}

/// The wire name of a policy kind.
pub open spec fn policy_kind_name(kind: PolicyKind) -> Seq<char> {
    match kind {
        PolicyKind::RowFilter => "row_filter"@,
        PolicyKind::ColumnMask => "column_mask"@,
        PolicyKind::Abac => "abac"@,
    }
}

/// The policy kind of a wire name.
pub open spec fn policy_kind_of(name: Seq<char>) -> Option<PolicyKind> {
    if name == "row_filter"@ {
        Some(PolicyKind::RowFilter)
    } else if name == "column_mask"@ {
        Some(PolicyKind::ColumnMask)
    } else if name == "abac"@ {
        Some(PolicyKind::Abac)
    } else {
        None
    }
}

impl PolicyKind {
    /// The policy kind of a wire name.
    pub fn parse(name: &str) -> (r: Option<PolicyKind>)
        ensures
            r == policy_kind_of(name@),
    {
        if same(name, "row_filter") {
            Some(PolicyKind::RowFilter)
        } else if same(name, "column_mask") {
            Some(PolicyKind::ColumnMask)
        } else if same(name, "abac") {
            Some(PolicyKind::Abac)
        } else {
            None
        }
    }

    /// The wire name.
    pub fn as_str(&self) -> (r: &'static str)
        ensures
            r@ == policy_kind_name(*self),
    {
        match self {
            PolicyKind::RowFilter => "row_filter",
            PolicyKind::ColumnMask => "column_mask",
            PolicyKind::Abac => "abac",
        }
    }
}

/// The shape of a rule.
#[derive(Clone, Copy, Debug, PartialEq, Eq, Structural)]
pub enum RuleShape {
    /// Rows of a tagged table are filtered.
    TagRowFilter,
    /// Tagged columns are masked.
    TagColumnMask,
    /// A tagged table is refused without a purpose.
    TagDenyUnlessPurpose,
    /// The owner is allowed.
    OwnerAllow,
    /// A group is allowed.
    GroupAllow,
    /// A group is refused.
    GroupDeny,
    /// Someone is allowed for a time.
    TimeBoundAllow,
}

/// Whether a rule of that shape fits the policy kind.
pub open spec fn fits(kind: PolicyKind, shape: RuleShape) -> bool {
    match kind {
        PolicyKind::RowFilter => shape == RuleShape::TagRowFilter,
        PolicyKind::ColumnMask => shape == RuleShape::TagColumnMask,
        PolicyKind::Abac => shape != RuleShape::TagRowFilter && shape != RuleShape::TagColumnMask,
    }
}

/// The refusal of a rule that does not fit its policy's kind.
pub open spec fn misfit(kind: PolicyKind) -> error::ErrorView {
    error::bad_request(
        "policy kind "@ + policy_kind_name(kind)
            + " does not match the rule shape (row_filter⇒tag_row_filter, column_mask⇒tag_column_mask, abac⇒deny/group/owner/time rules)"@,
    )
}

/// Refuses a rule that does not fit its policy's kind.
pub fn cross_check_kind(kind: PolicyKind, shape: RuleShape) -> (r: Result<(), ApiError>)
    ensures
        if fits(kind, shape) {
            r is Ok
        } else {
            error::fails_with(r, misfit(kind))
        },
{
    let ok = match kind {
        PolicyKind::RowFilter => shape == RuleShape::TagRowFilter,
        PolicyKind::ColumnMask => shape == RuleShape::TagColumnMask,
        PolicyKind::Abac => match shape {
            RuleShape::TagRowFilter | RuleShape::TagColumnMask => false,
            _ => true,
        },
    };
    if ok {
        Ok(())
    } else {
        Err(ApiError::bad_request(
            cat3(
                "policy kind ",
                kind.as_str(),
                " does not match the rule shape (row_filter⇒tag_row_filter, column_mask⇒tag_column_mask, abac⇒deny/group/owner/time rules)",
            ).as_str(),
        ))
    }
}

/// Every rule shape fits exactly one policy kind.
pub proof fn rules_fit_one_kind(shape: RuleShape, a: PolicyKind, b: PolicyKind)
    requires
        fits(a, shape),
        fits(b, shape),
    ensures
        a == b,
{
}

/// The refusal of a policy's definition.
pub open spec fn definition_error(
    kind: PolicyKind,
    shape: Result<RuleShape, String>,
    compiled: Result<(), String>,
) -> Option<error::ErrorView> {
    match shape {
        Err(detail) => Some(
            error::bad_request(
                "policy definition is not a valid rule: "@ + detail@
                    + " (expected an AbacRule, e.g. {\"type\":\"tag_deny_unless_purpose\", ...})"@,
            ),
        ),
        Ok(s) => if !fits(kind, s) {
            Some(misfit(kind))
        } else {
            match compiled {
                Err(detail) => Some(error::bad_request("policy failed Cedar validation: "@ + detail@)),
                Ok(_) => None,
            }
        },
    }
}

/// Checks a policy's definition: it is a rule, the rule fits the kind, and it
/// compiles. A rule that does not is refused here, and never kept without
/// effect.
pub fn validate_definition(
    kind: PolicyKind,
    shape: &Result<RuleShape, String>,
    compiled: &Result<(), String>,
) -> (r: Result<(), ApiError>)
    ensures
        match definition_error(kind, *shape, *compiled) {
            Some(e) => error::fails_with(r, e),
            None => r is Ok,
        },
{
    let s = match shape {
        Err(detail) => {
            return Err(ApiError::bad_request(
                cat3(
                    "policy definition is not a valid rule: ",
                    detail.as_str(),
                    " (expected an AbacRule, e.g. {\"type\":\"tag_deny_unless_purpose\", ...})",
                ).as_str(),
            ));
        },
        Ok(s) => *s,
    };
    match cross_check_kind(kind, s) {
        Err(e) => { return Err(e); },
        Ok(()) => {},
    }
    match compiled {
        Err(detail) => Err(ApiError::bad_request(
            cat2("policy failed Cedar validation: ", detail.as_str()).as_str(),
        )),
        Ok(_) => Ok(()),
    }
}

/// Admits a new policy: management access, its kind, then its definition.
pub fn create_policy(
    access: &Access,
    kind: &str,
    shape: &Result<RuleShape, String>,
    compiled: &Result<(), String>,
) -> (r: Result<PolicyKind, ApiError>)
    ensures
        match grants::access_error(*access) {
            Some(e) => error::fails_with(r, e),
            None => match policy_kind_of(kind@) {
                None => error::fails_with(
                    r,
                    error::bad_request(
                        "invalid policy kind "@ + text::quoted(kind@)
                            + ": expected row_filter, column_mask, or abac"@,
                    ),
                ),
                Some(k) => match definition_error(k, *shape, *compiled) {
                    Some(e) => error::fails_with(r, e),
                    None => r matches Ok(got) && got == k,
                },
            },
        },
{
    match require(access) {
        Err(e) => { return Err(e); },
        Ok(()) => {},
    }
    let k = match PolicyKind::parse(kind) {
        None => {
            return Err(ApiError::bad_request(
                cat3(
                    "invalid policy kind ",
                    quote(kind).as_str(),
                    ": expected row_filter, column_mask, or abac",
                ).as_str(),
            ));
        },
        Some(k) => k,
    };
    match validate_definition(k, shape, compiled) {
        Err(e) => Err(e),
        Ok(()) => Ok(k),
    }
}

/// The 404 of a policy.
pub open spec fn no_policy(id: Seq<char>) -> error::ErrorView {
    error::not_found("policy "@ + text::quoted(id) + " does not exist"@)
}

/// Shows a manager the policy of an id, or a 404.
pub fn get_policy<T>(access: &Access, id: &str, found: Option<T>) -> (r: Result<T, ApiError>)
    ensures
        match grants::access_error(*access) {
            Some(e) => error::fails_with(r, e),
            None => match found {
                Some(v) => r matches Ok(got) && got == v,
                None => error::fails_with(r, no_policy(id@)),
            },
        },
{
    match require(access) {
        Err(e) => { return Err(e); },
        Ok(()) => {},
    }
    match found {
        Some(v) => Ok(v),
        None => Err(ApiError::not_found(cat3("policy ", quote(id).as_str(), " does not exist").as_str())),
    }
}

/// What is known so far of a change of a policy: the kind of the policy, and,
/// where the request has a new definition, its shape and what compiling it
/// said.
#[derive(Debug)]
pub struct PolicyUpdateFacts {
    /// The new definition.
    pub definition: Option<(Result<RuleShape, String>, Result<(), String>)>,
    /// The kind of the policy.
    pub kind: Found<PolicyKind>,
}

/// The next step of a change of a policy.
#[derive(Debug)]
pub enum PolicyUpdateStep {
    /// Look up the policy.
    AskPolicy,
    /// Change it.
    Update,
}

/// The step of a change of a policy.
pub open spec fn policy_update_step(access: Access, id: Seq<char>, facts: PolicyUpdateFacts) -> Result<
    PolicyUpdateStep,
    error::ErrorView,
> {
    match grants::access_error(access) {
        Some(e) => Err(e),
        None => match facts.definition {
            None => Ok(PolicyUpdateStep::Update),
            Some((shape, compiled)) => match facts.kind {
                Found::Unasked => Ok(PolicyUpdateStep::AskPolicy),
                Found::Missing => Err(error::not_found("policy "@ + text::quoted(id) + " does not exist"@)),
                Found::Is(kind) => match definition_error(kind, shape, compiled) {
                    Some(e) => Err(e),
                    None => Ok(PolicyUpdateStep::Update),
                },
            },
        },
    }
}

/// Takes the next step of a change of a policy. A new definition must fit the
/// kind of the policy, which does not change.
pub fn update_policy(access: &Access, id: &str, facts: &PolicyUpdateFacts) -> (r: Result<PolicyUpdateStep, ApiError>)
    ensures
        error::outcome(r) == policy_update_step(*access, id@, *facts),
{
    match require(access) {
        Err(e) => { return Err(e); },
        Ok(()) => {},
    }
    let (shape, compiled) = match &facts.definition {
        None => { return Ok(PolicyUpdateStep::Update); },
        Some(d) => (&d.0, &d.1),
    };
    match &facts.kind {
        Found::Unasked => Ok(PolicyUpdateStep::AskPolicy),
        Found::Missing => Err(ApiError::not_found(cat3("policy ", quote(id).as_str(), " does not exist").as_str())),
        Found::Is(kind) => match validate_definition(*kind, shape, compiled) {
            Err(e) => Err(e),
            Ok(()) => Ok(PolicyUpdateStep::Update),
        },
    }
}

/// A policy never takes a definition that does not fit its kind.
pub proof fn policies_keep_their_kind(access: Access, id: Seq<char>, facts: PolicyUpdateFacts)
    ensures
        policy_update_step(access, id, facts) matches Ok(PolicyUpdateStep::Update) ==> (facts.definition matches Some(d)
            ==> (facts.kind matches Found::Is(kind) && definition_error(kind, d.0, d.1) is None)),
{
}

/// Request body to roll a policy back.
#[derive(Clone, Copy, Debug)]
pub struct RollbackRequest {
    /// The version to go back to.
    pub to_version: i32,
}

/// Request body to bind a policy.
#[derive(Debug)]
pub struct BindRequest {
    /// `table`, `namespace`, or `tag`.
    pub target_type: String,
    /// The tag, for a tag.
    pub tag_id: Option<String>,
    /// The warehouse, for a table or a namespace.
    pub warehouse: Option<String>,
    /// The namespace, dotted, for a table or a namespace.
    pub namespace: Option<String>,
    /// The table, for a table.
    pub table: Option<String>,
}

/// The next step of resolving what a policy binds to.
#[derive(Debug)]
pub enum BindStep {
    /// Look up the warehouse.
    AskWarehouse,
    /// Look up the namespace of these levels.
    AskNamespace(Vec<String>),
    /// Look up the table in the namespace of these levels.
    AskTable(Vec<String>),
    /// Bind to the tag of this id.
    Tag(String),
    /// Bind to the securable of this id.
    Securable(TagSecurable, String),
}

/// The model of a step of resolving what a policy binds to.
pub enum BindView {
    /// Look up the warehouse.
    AskWarehouse,
    /// Look up the namespace of these levels.
    AskNamespace(Seq<Seq<char>>),
    /// Look up the table in the namespace of these levels.
    AskTable(Seq<Seq<char>>),
    /// Bind to the tag of this id.
    Tag(String),
    /// Bind to the securable of this id.
    Securable(TagSecurable, String),
}

impl View for BindStep {
    type V = BindView;

    open spec fn view(&self) -> BindView {
        match *self {
            BindStep::AskWarehouse => BindView::AskWarehouse,
            BindStep::AskNamespace(levels) => BindView::AskNamespace(text::texts(levels@)),
            BindStep::AskTable(levels) => BindView::AskTable(text::texts(levels@)),
            BindStep::Tag(id) => BindView::Tag(id),
            BindStep::Securable(kind, id) => BindView::Securable(kind, id),
        }
    }
}

/// The step of a binding to a namespace, or to a table of it.
pub open spec fn scoped_bind_step(req: BindRequest, warehouse: Found<()>, row: Found<String>, table: bool) -> Result<
    BindView,
    error::ErrorView,
> {
    match req.warehouse {
        None => Err(error::bad_request("warehouse is required for a securable binding"@)),
        Some(wh) => match req.namespace {
            None => Err(error::bad_request("namespace is required for a securable binding"@)),
            Some(ns) => match warehouse {
                Found::Unasked => Ok(BindView::AskWarehouse),
                Found::Missing => Err(error::error_of(ErrorKind::NoSuchWarehouse, wh@)),
                Found::Is(_) => match namespaces::levels_error(namespaces::dotted_levels(ns@)) {
                    Some(e) => Err(e),
                    None => if !table {
                        match row {
                            Found::Unasked => Ok(BindView::AskNamespace(namespaces::dotted_levels(ns@))),
                            Found::Missing => Err(
                                error::error_of(ErrorKind::NoSuchNamespace, "namespace does not exist"@),
                            ),
                            Found::Is(id) => Ok(BindView::Securable(TagSecurable::Namespace, id)),
                        }
                    } else {
                        match req.table {
                            None => Err(error::bad_request("table is required for a table binding"@)),
                            Some(name) => match row {
                                Found::Unasked => Ok(BindView::AskTable(namespaces::dotted_levels(ns@))),
                                Found::Missing => Err(table_missing(name@)),
                                Found::Is(id) => Ok(BindView::Securable(TagSecurable::Table, id)),
                            },
                        }
                    },
                },
            },
        },
    }
}

/// The step of resolving what a policy binds to.
pub open spec fn bind_step(req: BindRequest, warehouse: Found<()>, row: Found<String>) -> Result<
    BindView,
    error::ErrorView,
> {
    if req.target_type@ == "tag"@ {
        match req.tag_id {
            None => Err(error::bad_request("tag_id is required for a tag binding"@)),
            Some(id) => Ok(BindView::Tag(id)),
        }
    } else if req.target_type@ == "namespace"@ {
        scoped_bind_step(req, warehouse, row, false)
    } else if req.target_type@ == "table"@ {
        scoped_bind_step(req, warehouse, row, true)
    } else {
        Err(
            error::bad_request(
                "invalid target_type "@ + text::quoted(req.target_type@) + ": expected table, namespace, or tag"@,
            ),
        )
    }
}

fn binding_scope(req: &BindRequest, warehouse: &Found<()>, row: &Found<String>, table: bool) -> (r: Result<
    BindStep,
    ApiError,
>)
    ensures
        error::viewed(r) == scoped_bind_step(*req, *warehouse, *row, table),
{
    let wh = match &req.warehouse {
        None => { return Err(ApiError::bad_request("warehouse is required for a securable binding")); },
        Some(wh) => wh,
    };
    let ns = match &req.namespace {
        None => { return Err(ApiError::bad_request("namespace is required for a securable binding")); },
        Some(ns) => ns,
    };
    match warehouse {
        Found::Unasked => { return Ok(BindStep::AskWarehouse); },
        Found::Missing => { return Err(ApiError::new(ErrorKind::NoSuchWarehouse, wh.as_str())); },
        Found::Is(_) => {},
    }
    let levels = match decode_dotted_namespace(ns.as_str()) {
        Err(e) => { return Err(e); },
        Ok(levels) => levels,
    };
    if !table {
        return match row {
            Found::Unasked => Ok(BindStep::AskNamespace(levels)),
            Found::Missing => Err(ApiError::new(ErrorKind::NoSuchNamespace, "namespace does not exist")),
            Found::Is(id) => Ok(BindStep::Securable(TagSecurable::Namespace, id.clone())),
        };
    }
    match &req.table {
        None => Err(ApiError::bad_request("table is required for a table binding")),
        Some(name) => match row {
            Found::Unasked => Ok(BindStep::AskTable(levels)),
            Found::Missing => Err(ApiError::new(
                ErrorKind::NoSuchTable,
                cat3("table ", name.as_str(), " does not exist").as_str(),
            )),
            Found::Is(id) => Ok(BindStep::Securable(TagSecurable::Table, id.clone())),
        },
    }
}

/// Takes the next step of resolving what a policy binds to.
pub fn resolve_binding_target(req: &BindRequest, warehouse: &Found<()>, row: &Found<String>) -> (r: Result<
    BindStep,
    ApiError,
>)
    ensures
        error::viewed(r) == bind_step(*req, *warehouse, *row),
{
    let target = req.target_type.as_str();
    if same(target, "tag") {
        match &req.tag_id {
            None => Err(ApiError::bad_request("tag_id is required for a tag binding")),
            Some(id) => Ok(BindStep::Tag(id.clone())),
        }
    } else if same(target, "namespace") {
        binding_scope(req, warehouse, row, false)
    } else if same(target, "table") {
        binding_scope(req, warehouse, row, true)
    } else {
        Err(ApiError::bad_request(
            cat3("invalid target_type ", quote(target).as_str(), ": expected table, namespace, or tag").as_str(),
        ))
    }
}

// ---------------------------------------------------------------------------
// Effective policy, dry runs
// ---------------------------------------------------------------------------

/// Query parameters of the effective-policy route.
#[derive(Debug)]
pub struct EffectiveQuery {
    /// Whose access is asked for.
    pub principal: String,
    /// The warehouse.
    pub warehouse: String,
    /// The namespace, dotted.
    pub namespace: String,
    /// The table.
    pub table: String,
    /// The declared purpose.
    pub purpose: Option<String>,
}

/// Query parameters of the who-can-see route.
#[derive(Debug)]
pub struct WhoCanSeeQuery {
    /// Whose access is asked for.
    pub principal: String,
}

/// What a principal is.
#[derive(Clone, Copy, Debug, PartialEq, Eq, Structural)]
pub enum PrincipalKind {
    /// A person.
    User,
    /// A service.
    Service,
    /// An agent.
    Agent,
}

/// What an audit string names: the kind before its first colon, and the
/// subject after it.
pub open spec fn subject_of(audit: Seq<char>) -> Option<(PrincipalKind, Seq<char>)> {
    if "user:"@.is_prefix_of(audit) {
        Some((PrincipalKind::User, audit.skip("user:"@.len() as int)))
    } else if "service:"@.is_prefix_of(audit) {
        Some((PrincipalKind::Service, audit.skip("service:"@.len() as int)))
    } else if "agent:"@.is_prefix_of(audit) {
        Some((PrincipalKind::Agent, audit.skip("agent:"@.len() as int)))
    } else {
        None
    }
}

/// The refusal of a text that is no audit string.
pub open spec fn subject_error() -> error::ErrorView {
    error::bad_request("principal must be an audit string: user:<sub>, service:<sub>, or agent:<sub>"@)
}

/// The principal that an audit string names.
pub fn principal_for_subject(audit: &str) -> (r: Result<(PrincipalKind, String), ApiError>)
    ensures
        match subject_of(audit@) {
            Some(p) => r matches Ok(got) && got.0 == p.0 && got.1@ == p.1,
            None => error::fails_with(r, subject_error()),
        },
{
    match after_prefix(audit, "user:") {
        Some(s) => { return Ok((PrincipalKind::User, s.to_owned())); },
        None => {},
    }
    match after_prefix(audit, "service:") {
        Some(s) => { return Ok((PrincipalKind::Service, s.to_owned())); },
        None => {},
    }
    match after_prefix(audit, "agent:") {
        Some(s) => Ok((PrincipalKind::Agent, s.to_owned())),
        None => Err(ApiError::bad_request(
            "principal must be an audit string: user:<sub>, service:<sub>, or agent:<sub>",
        )),
    }
}

/// What is known so far of whom a question about reach is about.
#[derive(Debug)]
pub struct ReachFacts {
    /// The issuer of the principal's tokens, where it has one.
    pub issuer: Option<String>,
    /// The id of the principal.
    pub principal: Found<String>,
    /// What the principal may do.
    pub permissions: Option<Vec<EffectivePermission>>,
    /// How many policies apply to a table, by its id.
    pub policies: Option<TextMap<i64>>,
}

/// The next step of a question about a principal's reach.
#[derive(Debug)]
pub enum ReachStep {
    /// Look up the principal.
    AskPrincipal,
    /// Look up what the principal of this id may do.
    AskPermissions(String),
    /// Count the policies that apply to each of these tables.
    AskPolicies(Vec<String>),
    /// Answer with the permissions, each with the number of policies that apply
    /// to the table that it lets the principal read.
    Answer(Vec<Option<i64>>),
    /// Answer that it may do nothing.
    Nothing,
}

/// The model of a step of a question about a principal's reach.
pub enum ReachView {
    /// Look up the principal.
    AskPrincipal,
    /// Look up what the principal of this id may do.
    AskPermissions(Seq<char>),
    /// Count the policies that apply to each of these tables.
    AskPolicies(Seq<Seq<char>>),
    /// Answer with the permissions and these numbers.
    Answer(Seq<Option<i64>>),
    /// Answer that it may do nothing.
    Nothing,
}

impl View for ReachStep {
    type V = ReachView;

    open spec fn view(&self) -> ReachView {
        match *self {
            ReachStep::AskPrincipal => ReachView::AskPrincipal,
            ReachStep::AskPermissions(id) => ReachView::AskPermissions(id@),
            ReachStep::AskPolicies(tables) => ReachView::AskPolicies(text::texts(tables@)),
            ReachStep::Answer(counts) => ReachView::Answer(counts@),
            ReachStep::Nothing => ReachView::Nothing,
        }
    }
}

/// Whether a permission lets its holder read a table.
pub open spec fn reads_table(p: EffectivePermission) -> bool {
    p.securable_type@ == "table"@ && p.privilege@ == "READ"@
}

/// The tables that permissions let their holder read, in their order.
pub open spec fn readable_tables(permissions: Seq<EffectivePermission>) -> Seq<Seq<char>> {
    permissions.filter(|p: EffectivePermission| reads_table(p)).map_values(|p: EffectivePermission| p.securable_id@)
}

/// How many policies apply to the table that a permission lets its holder read;
/// nothing, where it is about something else.
pub open spec fn policies_on(p: EffectivePermission, policies: Map<Seq<char>, i64>) -> Option<i64> {
    if !reads_table(p) {
        None
    } else if policies.dom().contains(p.securable_id@) {
        Some(policies[p.securable_id@])
    } else {
        Some(0i64)
    }
}

/// The step of a question about a principal's reach.
pub open spec fn reach_step(access: Access, audit: Seq<char>, facts: ReachFacts) -> Result<ReachView, error::ErrorView> {
    match grants::access_error(access) {
        Some(e) => Err(e),
        None => match subject_of(audit) {
            None => Err(subject_error()),
            Some(_) => match facts.issuer {
                None => Ok(ReachView::Nothing),
                Some(_) => match facts.principal {
                    Found::Unasked => Ok(ReachView::AskPrincipal),
                    Found::Missing => Ok(ReachView::Nothing),
                    Found::Is(id) => match facts.permissions {
                        None => Ok(ReachView::AskPermissions(id@)),
                        Some(permissions) => match facts.policies {
                            None => Ok(ReachView::AskPolicies(readable_tables(permissions@))),
                            Some(policies) => Ok(
                                ReachView::Answer(
                                    permissions@.map_values(|p: EffectivePermission| policies_on(p, policies@)),
                                ),
                            ),
                        },
                    },
                },
            },
        },
    }
}

fn lets_read(p: &EffectivePermission) -> (r: bool)
    ensures
        r == reads_table(*p),
{
    same(p.securable_type.as_str(), "table") && same(p.privilege.as_str(), "READ")
}

fn tables_read(permissions: &Vec<EffectivePermission>) -> (r: Vec<String>)
    ensures
        text::texts(r@) == readable_tables(permissions@),
{
    let ghost keep = |p: EffectivePermission| reads_table(p);
    let ghost id = |p: EffectivePermission| p.securable_id@;
    let mut out: Vec<String> = Vec::new();
    let mut i: usize = 0;
    proof {
        reveal(Seq::filter);
        assert(permissions@.take(0).filter(keep).map_values(id) =~= text::texts(out@));
    }
    while i < permissions.len()
        invariant
            i <= permissions@.len(),
            keep == (|p: EffectivePermission| reads_table(p)),
            id == (|p: EffectivePermission| p.securable_id@),
            text::texts(out@) == permissions@.take(i as int).filter(keep).map_values(id),
        decreases permissions@.len() - i,
    {
        proof {
            reveal(Seq::filter);
        }
        assert(permissions@.take(i + 1).drop_last() =~= permissions@.take(i as int));
        let ghost before = out@;
        if lets_read(&permissions[i]) {
            out.push(permissions[i].securable_id.clone());
            assert(text::texts(out@) =~= text::texts(before).push(permissions@[i as int].securable_id@));
            assert(permissions@.take(i + 1).filter(keep).map_values(id) =~= permissions@.take(i as int).filter(
                keep,
            ).map_values(id).push(permissions@[i as int].securable_id@));
        }
        i = i + 1;
    }
    assert(permissions@.take(permissions@.len() as int) =~= permissions@);
    out
}

fn counted(permissions: &Vec<EffectivePermission>, policies: &TextMap<i64>) -> (r: Vec<Option<i64>>)
    ensures
        r@ == permissions@.map_values(|p: EffectivePermission| policies_on(p, policies@)),
{
    let mut out: Vec<Option<i64>> = Vec::new();
    let mut i: usize = 0;
    while i < permissions.len()
        invariant
            i <= permissions@.len(),
            out@.len() == i,
            forall|j: int| 0 <= j < i ==> #[trigger] out@[j] == policies_on(permissions@[j], policies@),
        decreases permissions@.len() - i,
    {
        let p = &permissions[i];
        let count: Option<i64> = if lets_read(p) {
            match policies.get(p.securable_id.as_str()) {
                Some(n) => Some(*n),
                None => Some(0i64),
            }
        } else {
            None
        };
        out.push(count);
        i = i + 1;
    }
    assert(out@ =~= permissions@.map_values(|p: EffectivePermission| policies_on(p, policies@)));
    out
}

/// Takes the next step of a question about a principal's reach: what it may do,
/// and, of each table that it can read, how many policies apply there. A
/// principal that nobody has seen may do nothing.
pub fn who_can_see(access: &Access, audit: &str, facts: &ReachFacts) -> (r: Result<ReachStep, ApiError>)
    ensures
        error::viewed(r) == reach_step(*access, audit@, *facts),
{
    match require(access) {
        Err(e) => { return Err(e); },
        Ok(()) => {},
    }
    match principal_for_subject(audit) {
        Err(e) => { return Err(e); },
        Ok(_) => {},
    }
    match &facts.issuer {
        None => { return Ok(ReachStep::Nothing); },
        Some(_) => {},
    }
    let id = match &facts.principal {
        Found::Unasked => { return Ok(ReachStep::AskPrincipal); },
        Found::Missing => { return Ok(ReachStep::Nothing); },
        Found::Is(id) => id,
    };
    match &facts.permissions {
        None => Ok(ReachStep::AskPermissions(id.clone())),
        Some(permissions) => match &facts.policies {
            None => Ok(ReachStep::AskPolicies(tables_read(permissions))),
            Some(policies) => Ok(ReachStep::Answer(counted(permissions, policies))),
        },
    }
}

/// Every permission of a principal is told, and a number of policies with it
/// exactly where it lets the principal read a table.
pub proof fn reach_tells_every_permission(access: Access, audit: Seq<char>, facts: ReachFacts, i: int)
    requires
        reach_step(access, audit, facts) is Ok,
        facts.permissions is Some,
        0 <= i < facts.permissions->0@.len(),
    ensures
        reach_step(access, audit, facts) matches Ok(ReachView::Answer(counts)) ==> counts.len()
            == facts.permissions->0@.len() && (counts[i] is Some <==> reads_table(facts.permissions->0@[i])),
{
}

/// The next step of loading a table's current schema.
#[derive(Debug)]
pub enum SchemaStep {
    /// Read the metadata at this location.
    ReadMetadata(String),
    /// The schema at this place of the metadata.
    Schema(usize),
}

/// The place of the current schema, or the step before it is known.
pub open spec fn schema_step(
    location: Option<String>,
    metadata: Option<Result<(Vec<Schema>, i32), String>>,
) -> Result<SchemaStep, error::ErrorView> {
    match location {
        None => Err(error::error_of(ErrorKind::NoSuchTable, "table has no metadata"@)),
        Some(at) => match metadata {
            None => Ok(SchemaStep::ReadMetadata(at)),
            Some(Err(detail)) => Err(
                error::error_of(ErrorKind::InternalServer, "table metadata is unreadable: "@ + detail@),
            ),
            Some(Ok(read)) => match crate::planning::schema_place(read.0@, read.1, 0) {
                Some(i) => Ok(SchemaStep::Schema(i as usize)),
                None => Err(
                    error::error_of(ErrorKind::InternalServer, "current schema missing from table metadata"@),
                ),
            },
        },
    }
}

/// Takes the next step of loading a table's current schema. `metadata` holds
/// the schemas and the id of the current one, once they were read.
pub fn load_table_schema(
    location: &Option<String>,
    metadata: &Option<Result<(Vec<Schema>, i32), String>>,
) -> (r: Result<SchemaStep, ApiError>)
    ensures
        error::outcome(r) == schema_step(*location, *metadata),
{
    let at = match location {
        None => { return Err(ApiError::new(ErrorKind::NoSuchTable, "table has no metadata")); },
        Some(at) => at,
    };
    match metadata {
        None => Ok(SchemaStep::ReadMetadata(at.clone())),
        Some(Err(detail)) => Err(ApiError::new(
            ErrorKind::InternalServer,
            cat2("table metadata is unreadable: ", detail.as_str()).as_str(),
        )),
        Some(Ok(read)) => match crate::planning::find_schema(&read.0, read.1) {
            Some(i) => Ok(SchemaStep::Schema(i)),
            None => Err(ApiError::new(ErrorKind::InternalServer, "current schema missing from table metadata")),
        },
    }
}

/// A tag of a table, or of one of its columns.
#[derive(Debug)]
pub struct ResolvedTag {
    /// The tag.
    pub tag: String,
    /// The column, where it is on one.
    pub column_name: Option<String>,
}

/// The tags that are on a column, or on the table itself, in order.
pub open spec fn tags_on(all: Seq<ResolvedTag>, column: Option<Seq<char>>) -> Seq<Seq<char>>
    decreases all.len(),
{
    if all.len() == 0 {
        seq![]
    } else {
        let earlier = tags_on(all.drop_last(), column);
        if text::opt_text(all.last().column_name) == column {
            earlier.push(all.last().tag@)
        } else {
            earlier
        }
    }
}

fn collect_tags(all: &Vec<ResolvedTag>, column: Option<&str>) -> (r: Vec<String>)
    ensures
        text::texts(r@) == tags_on(all@, text::opt_str(column)),
{
    let mut out: Vec<String> = Vec::new();
    let mut i: usize = 0;
    assert(all@.take(0) =~= Seq::<ResolvedTag>::empty());
    assert(text::texts(out@) =~= Seq::<Seq<char>>::empty());
    while i < all.len()
        invariant
            i <= all@.len(),
            text::texts(out@) == tags_on(all@.take(i as int), text::opt_str(column)),
        decreases all@.len() - i,
    {
        assert(all@.take(i + 1).drop_last() =~= all@.take(i as int));
        let here = match (&all[i].column_name, column) {
            (None, None) => true,
            (Some(c), Some(wanted)) => same(c.as_str(), wanted),
            _ => false,
        };
        if here {
            let ghost before = out@;
            out.push(all[i].tag.clone());
            assert(text::texts(out@) =~= text::texts(before).push(all@[i as int].tag@));
        }
        i = i + 1;
    }
    assert(all@.take(all@.len() as int) =~= all@);
    out
}

/// A column, with its tags.
#[derive(Debug)]
pub struct ResolvedColumn {
    /// Its name.
    pub name: String,
    /// Its tags.
    pub tags: Vec<String>,
}

/// Whose view a dry run takes.
#[derive(Debug)]
pub struct DrySubject {
    /// What they are.
    pub kind: PrincipalKind,
    /// Their name at the issuer.
    pub subject: String,
    /// Who vouches for them, where that is known.
    pub issuer: Option<String>,
}

/// A principal, as a rule sees it.
#[derive(Debug)]
pub struct DryPrincipal {
    /// The kind and the name, with a colon between.
    pub name: String,
    /// What they are.
    pub kind: PrincipalKind,
    /// Their roles.
    pub roles: Vec<String>,
    /// Their groups, which are their roles.
    pub groups: Vec<String>,
    /// What they read for.
    pub purpose: Option<String>,
}

/// What a dry run evaluates a rule against.
#[derive(Debug)]
pub struct DryRunInput {
    /// Who reads.
    pub principal: DryPrincipal,
    /// ULID of the table.
    pub table_id: String,
    /// The tags of the table itself.
    pub table_tags: Vec<String>,
    /// The columns of its schema, each with its tags.
    pub columns: Vec<ResolvedColumn>,
    /// What the request is for.
    pub purpose: Option<String>,
}

/// The next step of a dry run for one principal.
#[derive(Debug)]
pub enum DryStep {
    /// Look the principal up by issuer and subject.
    AskPrincipal,
    /// Ask for the effective roles of this principal.
    AskRoles(String),
    /// Evaluate the rule.
    Evaluate(DryRunInput),
}

/// What comes before the colon of a principal's name.
pub open spec fn kind_text(kind: PrincipalKind) -> Seq<char> {
    match kind {
        PrincipalKind::User => "user"@,
        PrincipalKind::Service => "service"@,
        PrincipalKind::Agent => "agent"@,
    }
}

/// The roles that a dry run goes by: none for a principal without an issuer,
/// or one that is not known.
pub open spec fn dry_roles(subject: DrySubject, known: Found<String>, roles: Option<Vec<String>>) -> Seq<Seq<char>> {
    if subject.issuer is Some && known is Is {
        match roles {
            Some(list) => text::texts(list@),
            None => seq![],
        }
    } else {
        seq![]
    }
}

/// Whether the principal is the subject with these roles, reading for this
/// purpose.
pub open spec fn is_reader(
    p: DryPrincipal,
    subject: DrySubject,
    roles: Seq<Seq<char>>,
    purpose: Option<String>,
) -> bool {
    &&& p.name@ == kind_text(subject.kind) + ":"@ + subject.subject@
    &&& p.kind == subject.kind
    &&& text::texts(p.roles@) == roles
    &&& text::texts(p.groups@) == roles
    &&& p.purpose == purpose
}

/// Whether the columns are those of the schema, each with its tags.
pub open spec fn are_tagged_columns(columns: Seq<ResolvedColumn>, schema: Schema, tags: Seq<ResolvedTag>) -> bool {
    &&& columns.len() == schema.fields@.len()
    &&& forall|i: int|
        #![trigger columns[i]]
        0 <= i < columns.len() ==> columns[i].name == schema.fields@[i].name && text::texts(columns[i].tags@)
            == tags_on(tags, Some(schema.fields@[i].name@))
}

fn tagged_columns(schema: &Schema, tags: &Vec<ResolvedTag>) -> (r: Vec<ResolvedColumn>)
    ensures
        are_tagged_columns(r@, *schema, tags@),
{
    let mut columns: Vec<ResolvedColumn> = Vec::new();
    let mut i: usize = 0;
    while i < schema.fields.len()
        invariant
            i <= schema.fields@.len(),
            columns@.len() == i,
            forall|j: int|
                #![trigger columns@[j]]
                0 <= j < columns@.len() ==> columns@[j].name == schema.fields@[j].name && text::texts(
                    columns@[j].tags@,
                ) == tags_on(tags@, Some(schema.fields@[j].name@)),
        decreases schema.fields@.len() - i,
    {
        let name = &schema.fields[i].name;
        columns.push(ResolvedColumn { name: name.clone(), tags: collect_tags(tags, Some(name.as_str())) });
        i = i + 1;
    }
    columns
}

fn dry_principal(subject: &DrySubject, roles: &Vec<String>, purpose: &Option<String>) -> (r: DryPrincipal)
    ensures
        is_reader(r, *subject, text::texts(roles@), *purpose),
{
    let kind = match subject.kind {
        PrincipalKind::User => "user",
        PrincipalKind::Service => "service",
        PrincipalKind::Agent => "agent",
    };
    DryPrincipal {
        name: cat3(kind, ":", subject.subject.as_str()),
        kind: subject.kind,
        roles: text::copy_texts(roles),
        groups: text::copy_texts(roles),
        purpose: copy_opt(purpose),
    }
}

/// Takes the next step of a dry run for one principal: the roles are looked up
/// where an issuer vouches for them, then the rule is evaluated against the
/// principal, the tags of the table, and those of each column of its schema.
/// Tags on columns that the schema does not have go unused.
pub fn dry_run_one(
    subject: &DrySubject,
    known: &Found<String>,
    roles: &Option<Vec<String>>,
    table_id: &str,
    schema: &Schema,
    tags: &Vec<ResolvedTag>,
    purpose: &Option<String>,
) -> (r: DryStep)
    ensures
        if subject.issuer is Some && *known is Unasked {
            r is AskPrincipal
        } else if subject.issuer is Some && *known is Is && *roles is None {
            r matches DryStep::AskRoles(id) && Found::Is(id) == *known
        } else {
            r matches DryStep::Evaluate(input) && ({
                &&& is_reader(input.principal, *subject, dry_roles(*subject, *known, *roles), *purpose)
                &&& input.table_id@ == table_id@
                &&& text::texts(input.table_tags@) == tags_on(tags@, None)
                &&& are_tagged_columns(input.columns@, *schema, tags@)
                &&& input.purpose == *purpose
            })
        },
{
    let none: Vec<String> = Vec::new();
    assert(text::texts(none@) =~= Seq::<Seq<char>>::empty());
    let held = match (&subject.issuer, known) {
        (Some(_), Found::Unasked) => { return DryStep::AskPrincipal; },
        (Some(_), Found::Is(id)) => match roles {
            None => { return DryStep::AskRoles(id.clone()); },
            Some(held) => held,
        },
        _ => &none,
    };
    DryStep::Evaluate(
        DryRunInput {
            principal: dry_principal(subject, held, purpose),
            table_id: table_id.to_owned(),
            table_tags: collect_tags(tags, None),
            columns: tagged_columns(schema, tags),
            purpose: copy_opt(purpose),
        },
    )
}

/// The tags of a dry run: those of the table, and the one that is assumed,
/// where one is.
pub fn assumed_tags(resolved: Vec<ResolvedTag>, tag: &Option<String>, column: &Option<String>) -> (r: Vec<ResolvedTag>)
    ensures
        match *tag {
            None => r@ == resolved@,
            Some(t) => r@ == resolved@.push(ResolvedTag { tag: t, column_name: *column }),
        },
{
    let mut out = resolved;
    match tag {
        None => {},
        Some(t) => {
            out.push(ResolvedTag { tag: t.clone(), column_name: copy_opt(column) });
        },
    }
    out
}

/// Admits a dry run: management access, the kind, then the definition. Nothing
/// is kept of it.
pub fn dry_run_policy(
    access: &Access,
    kind: &str,
    shape: &Result<RuleShape, String>,
    compiled: &Result<(), String>,
) -> (r: Result<PolicyKind, ApiError>)
    ensures
        match grants::access_error(*access) {
            Some(e) => error::fails_with(r, e),
            None => match policy_kind_of(kind@) {
                None => error::fails_with(r, error::bad_request("invalid policy kind "@ + text::quoted(kind@))),
                Some(k) => match definition_error(k, *shape, *compiled) {
                    Some(e) => error::fails_with(r, e),
                    None => r matches Ok(got) && got == k,
                },
            },
        },
{
    match require(access) {
        Err(e) => { return Err(e); },
        Ok(()) => {},
    }
    let k = match PolicyKind::parse(kind) {
        None => {
            return Err(ApiError::bad_request(cat2("invalid policy kind ", quote(kind).as_str()).as_str()));
        },
        Some(k) => k,
    };
    match validate_definition(k, shape, compiled) {
        Err(e) => Err(e),
        Ok(()) => Ok(k),
    }
}

// ---------------------------------------------------------------------------
// Drift, evidence
// ---------------------------------------------------------------------------

/// A column that is classified.
#[derive(Debug)]
pub struct TaggedColumn {
    /// ULID of its table.
    pub table_id: String,
    /// Its name.
    pub column_name: String,
    /// The key of its tag.
    pub key: String,
    /// The value of its tag.
    pub value: String,
}

/// A classified column that nothing masks.
#[derive(Debug)]
pub struct DriftAlert {
    /// ULID of its table.
    pub table_id: String,
    /// Its name.
    pub column: String,
    /// Its tag.
    pub tag: String,
}

/// Whether nothing masks a classified column: no mask policy is bound to its
/// table, and none to its tag.
pub open spec fn is_drift(c: TaggedColumn, masked_tags: Seq<String>, masked_tables: Seq<String>) -> bool {
    !text::texts(masked_tags).contains(tag_text(c.key@, c.value@)) && !text::texts(masked_tables).contains(
        c.table_id@,
    )
}

/// Whether the alert is that of the column.
pub open spec fn is_alert(a: DriftAlert, c: TaggedColumn) -> bool {
    a.table_id == c.table_id && a.column == c.column_name && a.tag@ == tag_text(c.key@, c.value@)
}

/// Whether the alerts are those of the columns, one for one.
pub open spec fn are_alerts(alerts: Seq<DriftAlert>, found: Seq<TaggedColumn>) -> bool {
    alerts.len() == found.len() && forall|i: int|
        0 <= i < alerts.len() ==> is_alert(#[trigger] alerts[i], found[i])
}

/// Shows a manager the classified columns that nothing masks, in the order
/// they are given.
pub fn drift(
    access: &Access,
    columns: Vec<TaggedColumn>,
    masked_tags: &Vec<String>,
    masked_tables: &Vec<String>,
) -> (r: Result<Vec<DriftAlert>, ApiError>)
    ensures
        match grants::access_error(*access) {
            Some(e) => error::fails_with(r, e),
            None => r matches Ok(alerts) && are_alerts(
                alerts@,
                columns@.filter(|c: TaggedColumn| is_drift(c, masked_tags@, masked_tables@)),
            ),
        },
{
    match require(access) {
        Err(e) => { return Err(e); },
        Ok(()) => {},
    }
    let ghost keep = |c: TaggedColumn| is_drift(c, masked_tags@, masked_tables@);
    let mut out: Vec<DriftAlert> = Vec::new();
    let ghost all = columns@;
    proof {
        reveal(Seq::filter);
    }
    for c in it: columns
        invariant
            it.seq() == all,
            keep == (|c: TaggedColumn| is_drift(c, masked_tags@, masked_tables@)),
            out@.len() == all.take(it.index()).filter(keep).len(),
            forall|i: int|
                0 <= i < out@.len() ==> is_alert(#[trigger] out@[i], all.take(it.index()).filter(keep)[i]),
    {
        proof {
            reveal(Seq::filter);
        }
        assert(all.take(it.index() + 1).drop_last() =~= all.take(it.index()));
        let ghost found = all.take(it.index()).filter(keep);
        let ghost next = all.take(it.index() + 1).filter(keep);
        let ghost before = out@;
        let tag = rendered_tag(c.key.as_str(), c.value.as_str());
        if !holds(masked_tags, tag.as_str()) && !holds(masked_tables, c.table_id.as_str()) {
            assert(next == found.push(c));
            out.push(DriftAlert { table_id: c.table_id, column: c.column_name, tag });
            assert forall|i: int| 0 <= i < out@.len() implies is_alert(#[trigger] out@[i], next[i]) by {
                if i < before.len() {
                    assert(is_alert(before[i], found[i]));
                }
            }
        } else {
            assert(next == found);
        }
    }
    assert(all.take(all.len() as int) =~= all);
    Ok(out)
}

/// Query parameters of the evidence export.
#[derive(Clone, Copy, Debug)]
pub struct EvidenceQuery {
    /// How many rows of the audit trail.
    pub limit: Option<i64>,
}

/// How many rows of the audit trail the evidence holds: 500, or as many as are
/// asked for from 1 to 5000.
pub fn evidence(access: &Access, query: &EvidenceQuery) -> (r: Result<i64, ApiError>)
    ensures
        match grants::access_error(*access) {
            Some(e) => error::fails_with(r, e),
            None => r matches Ok(n) && n == limits::clamped(query.limit, 500, 1, 5000),
        },
{
    match require(access) {
        Err(e) => Err(e),
        Ok(()) => Ok(clamp(query.limit, 500, 1, 5000)),
    }
}

// ---------------------------------------------------------------------------
// What the governance routes do
// ---------------------------------------------------------------------------

/// A tag is put on what the target names: a namespace, a table, or a column of
/// a table, under the id that was found for it. A table must be named for a
/// table or a column, and a column for a column; only a column's tag names one.
pub proof fn tags_are_put_where_named(target: AssignmentTarget, warehouse: Found<()>, row: Found<String>)
    ensures
        match target_step(target, warehouse, row) {
            Ok(TargetView::AskWarehouse) => warehouse is Unasked,
            Ok(TargetView::AskNamespace(levels)) => target.securable_type@ == "namespace"@ && row is Unasked && levels
                == namespaces::dotted_levels(target.namespace@),
            Ok(TargetView::AskTable(levels)) => (target.securable_type@ == "table"@ || target.securable_type@
                == "column"@) && target.table is Some && row is Unasked && levels == namespaces::dotted_levels(
                target.namespace@,
            ),
            Ok(TargetView::Put(kind, id, column)) => warehouse is Is && row == Found::Is(id) && match kind {
                TagSecurable::Namespace => target.securable_type@ == "namespace"@ && column is None,
                TagSecurable::Table => target.securable_type@ == "table"@ && target.table is Some && column is None,
                TagSecurable::Column => target.securable_type@ == "column"@ && target.table is Some && column is Some
                    && column == target.column,
            },
            Err(e) => {
                ||| e.kind == ErrorKind::BadRequest
                ||| e.kind == ErrorKind::NoSuchWarehouse && warehouse is Missing
                ||| e.kind == ErrorKind::NoSuchNamespace && target.securable_type@ == "namespace"@ && row is Missing
                ||| e.kind == ErrorKind::NoSuchTable && target.securable_type@ != "namespace"@ && row is Missing
            },
        },
{
    namespaces::bad_levels_are_refused(namespaces::dotted_levels(target.namespace@));
    reveal_strlit("table");
    reveal_strlit("namespace");
    reveal_strlit("column");
    assert("table"@.len() == 5 && "namespace"@.len() == 9 && "column"@.len() == 6);
}

/// A policy is bound to what the request names: to a tag by its id, else to the
/// namespace or the table under the id that was found for it.
pub proof fn policies_are_bound_where_named(req: BindRequest, warehouse: Found<()>, row: Found<String>)
    ensures
        match bind_step(req, warehouse, row) {
            Ok(BindView::Tag(id)) => req.target_type@ == "tag"@ && req.tag_id == Some(id),
            Ok(BindView::AskWarehouse) => req.target_type@ != "tag"@ && warehouse is Unasked,
            Ok(BindView::AskNamespace(levels)) => req.target_type@ == "namespace"@ && row is Unasked && (req.namespace
                matches Some(ns) && levels == namespaces::dotted_levels(ns@)),
            Ok(BindView::AskTable(levels)) => req.target_type@ == "table"@ && req.table is Some && row is Unasked && (
            req.namespace matches Some(ns) && levels == namespaces::dotted_levels(ns@)),
            Ok(BindView::Securable(kind, id)) => warehouse is Is && row == Found::Is(id) && req.warehouse is Some
                && req.namespace is Some && match kind {
                TagSecurable::Namespace => req.target_type@ == "namespace"@,
                TagSecurable::Table => req.target_type@ == "table"@ && req.table is Some,
                TagSecurable::Column => false,
            },
            Err(e) => {
                ||| e.kind == ErrorKind::BadRequest
                ||| e.kind == ErrorKind::NoSuchWarehouse && warehouse is Missing
                ||| e.kind == ErrorKind::NoSuchNamespace && req.target_type@ == "namespace"@ && row is Missing
                ||| e.kind == ErrorKind::NoSuchTable && req.target_type@ == "table"@ && row is Missing
            },
        },
{
    if let Some(ns) = req.namespace {
        namespaces::bad_levels_are_refused(namespaces::dotted_levels(ns@));
    }
    reveal_strlit("table");
    reveal_strlit("namespace");
    reveal_strlit("tag");
    assert("table"@.len() == 5 && "namespace"@.len() == 9 && "tag"@.len() == 3);
}

/// A rule fits a policy's kind: a row filter takes the row filter rule, a column
/// mask the mask rule, and an attribute policy every other rule.
pub proof fn rules_fit_their_kind(kind: PolicyKind, shape: RuleShape)
    ensures
        fits(kind, shape) <==> match shape {
            RuleShape::TagRowFilter => kind == PolicyKind::RowFilter,
            RuleShape::TagColumnMask => kind == PolicyKind::ColumnMask,
            _ => kind == PolicyKind::Abac,
        },
{
}

/// A policy's kind is read off its name, and off nothing else.
pub proof fn policy_kinds_are_read(name: Seq<char>)
    ensures
        policy_kind_of(name) == Some(PolicyKind::RowFilter) <==> name == "row_filter"@,
        policy_kind_of(name) == Some(PolicyKind::ColumnMask) <==> name == "column_mask"@,
        policy_kind_of(name) == Some(PolicyKind::Abac) <==> name == "abac"@,
        policy_kind_of(name) matches Some(kind) ==> policy_kind_name(kind) == name,
{
    reveal_strlit("row_filter");
    reveal_strlit("column_mask");
    reveal_strlit("abac");
    assert("row_filter"@.len() == 10 && "column_mask"@.len() == 11 && "abac"@.len() == 4);
}

/// A definition is taken exactly where it is a rule, the rule fits the policy's
/// kind, and it compiles; any other is a bad request.
pub proof fn definitions_are_judged(kind: PolicyKind, shape: Result<RuleShape, String>, compiled: Result<(), String>)
    ensures
        definition_error(kind, shape, compiled) is None <==> (shape matches Ok(s) && fits(kind, s)) && compiled is Ok,
        definition_error(kind, shape, compiled) matches Some(e) ==> e.kind == ErrorKind::BadRequest,
{
}

/// A policy is updated exactly where the caller was granted access and a new
/// definition, where there is one, is sound for the policy's own kind.
pub proof fn policies_are_updated_as_asked(access: Access, id: Seq<char>, facts: PolicyUpdateFacts)
    ensures
        match policy_update_step(access, id, facts) {
            Ok(PolicyUpdateStep::AskPolicy) => access is Granted && facts.definition is Some && facts.kind is Unasked,
            Ok(PolicyUpdateStep::Update) => access is Granted && (facts.definition matches Some(d) ==> (facts.kind
                matches Found::Is(kind) && (d.0 matches Ok(shape) && fits(kind, shape)) && d.1 is Ok)),
            Err(e) => {
                ||| !(access is Granted)
                ||| facts.definition is Some && facts.kind is Missing && e.kind == ErrorKind::NotFound
                ||| (facts.definition matches Some(d) && (facts.kind matches Found::Is(kind) && definition_error(
                    kind,
                    d.0,
                    d.1,
                ) == Some(e)))
            },
        },
{
}

/// An audit string names its principal: the kind ahead of the first colon, and
/// the subject, whatever it holds, behind it.
pub proof fn audit_strings_name_their_subject(subject: Seq<char>)
    ensures
        subject_of("user:"@ + subject) == Some((PrincipalKind::User, subject)),
        subject_of("service:"@ + subject) == Some((PrincipalKind::Service, subject)),
        subject_of("agent:"@ + subject) == Some((PrincipalKind::Agent, subject)),
{
    reveal_strlit("user:");
    reveal_strlit("service:");
    reveal_strlit("agent:");
    let u = "user:"@ + subject;
    let s = "service:"@ + subject;
    let a = "agent:"@ + subject;
    assert(u.take("user:"@.len() as int) =~= "user:"@);
    assert(s.take("service:"@.len() as int) =~= "service:"@);
    assert(a.take("agent:"@.len() as int) =~= "agent:"@);
    assert(u.skip("user:"@.len() as int) =~= subject);
    assert(s.skip("service:"@.len() as int) =~= subject);
    assert(a.skip("agent:"@.len() as int) =~= subject);
    assert(s[0] == 's' && a[0] == 'a' && "user:"@[0] == 'u' && "service:"@[0] == 's');
}

/// Who can see what is answered only to a caller who was granted access. Every
/// permission of the principal is answered in its place: where it reads a table,
/// with how many policies there are on that table, which are asked for exactly
/// these tables.
pub proof fn reach_is_told(access: Access, audit: Seq<char>, facts: ReachFacts, i: int)
    ensures
        match reach_step(access, audit, facts) {
            Ok(ReachView::AskPrincipal) => access is Granted && facts.issuer is Some && facts.principal is Unasked,
            Ok(ReachView::AskPermissions(id)) => access is Granted && facts.permissions is None && (facts.principal
                matches Found::Is(found) && id == found@),
            Ok(ReachView::AskPolicies(tables)) => access is Granted && facts.policies is None && (facts.permissions
                matches Some(all) && (0 <= i < all@.len() && all@[i].securable_type@ == "table"@ && all@[i].privilege@
                == "READ"@ ==> tables.contains(all@[i].securable_id@))),
            Ok(ReachView::Answer(counts)) => access is Granted && (facts.permissions matches Some(all) && (facts.policies
                matches Some(policies) && counts.len() == all@.len() && (0 <= i < all@.len() ==> counts[i] == (
            if all@[i].securable_type@ == "table"@ && all@[i].privilege@ == "READ"@ {
                Some(
                    if policies@.dom().contains(all@[i].securable_id@) {
                        policies@[all@[i].securable_id@]
                    } else {
                        0i64
                    },
                )
            } else {
                None
            })))),
            Ok(ReachView::Nothing) => access is Granted && (facts.issuer is None || facts.principal is Missing),
            Err(e) => !(access is Granted) || subject_of(audit) is None && e.kind == ErrorKind::BadRequest,
        },
{
    if let Some(all) = facts.permissions {
        let keep = |p: EffectivePermission| reads_table(p);
        if 0 <= i < all@.len() && reads_table(all@[i]) {
            broadcast use vstd::seq_lib::group_filter_ensures;

            assert(keep(all@[i]));
            let kept = all@.filter(keep);
            assert(kept.contains(all@[i]));
            let k = choose|k: int| 0 <= k < kept.len() && kept[k] == all@[i];
            assert(readable_tables(all@)[k] == all@[i].securable_id@);
        }
    }
}

/// A table counts as tagged exactly where it or one of its columns carries a
/// tag, and a table that nothing is known of carries none. No more tables are
/// tagged than there are, and where every one is, all of them count.
pub proof fn coverage_counts_the_tagged(
    report: CoverageReport,
    rows: Seq<CoverageRow>,
    counts: Map<Seq<char>, TableCoverage>,
    i: int,
)
    requires
        is_coverage_report(report, rows, counts),
        0 <= i < rows.len(),
    ensures
        report.tables_with_any_tag <= report.total_tables,
        report.tables@[i].table_id == rows[i].table_id,
        counts.dom().contains(rows[i].table_id@) ==> report.tables@[i].table_tagged
            == counts[rows[i].table_id@].table_tagged && report.tables@[i].tagged_columns
            == counts[rows[i].table_id@].tagged_columns,
        !counts.dom().contains(rows[i].table_id@) ==> !report.tables@[i].table_tagged
            && report.tables@[i].tagged_columns == 0,
        report.tables@[i].table_tagged || report.tables@[i].tagged_columns > 0 ==> report.tables_with_any_tag > 0,
        (forall|k: int|
            0 <= k < rows.len() ==> !(#[trigger] report.tables@[k]).table_tagged && report.tables@[k].tagged_columns
                <= 0) ==> report.tables_with_any_tag == 0,
{
    let keep = |row: CoverageRow| carries_tag(counts, row);
    let kept = rows.filter(keep);
    broadcast use vstd::seq_lib::group_filter_ensures;

    assert(is_coverage_line(report.tables@[i], rows[i], counts));
    if carries_tag(counts, rows[i]) {
        assert(keep(rows[i]));
        assert(kept.contains(rows[i]));
    }
    if kept.len() > 0 {
        let row = kept[0];
        assert(keep(row));
        assert(kept.contains(row));
        rows.lemma_filter_contains_rev(keep, row);
        let k = choose|k: int| 0 <= k < rows.len() && rows[k] == row;
        assert(is_coverage_line(report.tables@[k], rows[k], counts));
    }
}

/// An alert tells of every tagged column that no mask reaches, neither through
/// its tag nor on its table, and of no other column.
pub proof fn alerts_tell_of_every_drift(
    alerts: Seq<DriftAlert>,
    columns: Seq<TaggedColumn>,
    masked_tags: Seq<String>,
    masked_tables: Seq<String>,
    i: int,
)
    requires
        are_alerts(alerts, columns.filter(|c: TaggedColumn| is_drift(c, masked_tags, masked_tables))),
    ensures
        0 <= i < alerts.len() ==> !text::texts(masked_tags).contains(alerts[i].tag@) && !text::texts(
            masked_tables,
        ).contains(alerts[i].table_id@) && tells_of_one(alerts[i], columns),
        0 <= i < columns.len() && !text::texts(masked_tags).contains(columns[i].key@ + ":"@ + columns[i].value@)
            && !text::texts(masked_tables).contains(columns[i].table_id@) ==> is_told(alerts, columns[i]),
{
    let keep = |c: TaggedColumn| is_drift(c, masked_tags, masked_tables);
    let kept = columns.filter(keep);
    broadcast use vstd::seq_lib::group_filter_ensures;

    if 0 <= i < alerts.len() {
        assert(is_alert(alerts[i], kept[i]));
        assert(keep(kept[i]));
        assert(kept.contains(kept[i]));
        columns.lemma_filter_contains_rev(keep, kept[i]);
        let k = choose|k: int| 0 <= k < columns.len() && columns[k] == kept[i];
        assert(columns[k].table_id == alerts[i].table_id);
    }
    if 0 <= i < columns.len() && is_drift(columns[i], masked_tags, masked_tables) {
        assert(keep(columns[i]));
        assert(kept.contains(columns[i]));
        let k = choose|k: int| 0 <= k < kept.len() && kept[k] == columns[i];
        assert(is_alert(alerts[k], kept[k]));
    }
}

/// Whether the alert tells of one of the columns.
pub open spec fn tells_of_one(alert: DriftAlert, columns: Seq<TaggedColumn>) -> bool {
    exists|k: int|
        0 <= k < columns.len() && (#[trigger] columns[k]).table_id == alert.table_id && columns[k].column_name
            == alert.column && columns[k].key@ + ":"@ + columns[k].value@ == alert.tag@
}

/// Whether one of the alerts tells of the column.
pub open spec fn is_told(alerts: Seq<DriftAlert>, column: TaggedColumn) -> bool {
    exists|k: int|
        0 <= k < alerts.len() && (#[trigger] alerts[k]).table_id == column.table_id && alerts[k].column
            == column.column_name && alerts[k].tag@ == column.key@ + ":"@ + column.value@
}

/// The tags on a column are those that were resolved for it, in their order; the
/// table's own are those that name no column.
pub proof fn tags_are_told_apart_by_column(all: Seq<ResolvedTag>, more: ResolvedTag, column: Option<Seq<char>>)
    ensures
        tags_on(all.push(more), column) == (if text::opt_text(more.column_name) == column {
            tags_on(all, column).push(more.tag@)
        } else {
            tags_on(all, column)
        }),
        tags_on(Seq::<ResolvedTag>::empty(), column).len() == 0,
{
    assert(all.push(more).drop_last() =~= all);
}

/// The schema of a table is its current one, off the metadata that the table
/// points at.
pub proof fn current_schemas_are_read(
    location: Option<String>,
    metadata: Option<Result<(Vec<Schema>, i32), String>>,
    schemas: Vec<Schema>,
    current: i32,
)
    ensures
        schema_step(location, None) == (match location {
            Some(at) => Ok::<SchemaStep, error::ErrorView>(SchemaStep::ReadMetadata(at)),
            None => Err(error::error_of(ErrorKind::NoSuchTable, "table has no metadata"@)),
        }),
        location is Some && metadata == Some(Ok::<(Vec<Schema>, i32), String>((schemas, current))) ==> match schema_step(
            location,
            metadata,
        ) {
            Ok(SchemaStep::Schema(k)) => k < schemas@.len() && schemas@[k as int].schema_id == Some(current),
            Ok(SchemaStep::ReadMetadata(_)) => false,
            Err(e) => e.kind == ErrorKind::InternalServer,
        },
{
    let n: usize = schemas.len();
    crate::planning::schema_place_is_right(schemas@, current, 0);
}

} // verus!
