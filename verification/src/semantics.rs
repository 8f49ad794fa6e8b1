//! Metrics, the glossary, and data products.

use vstd::prelude::*;

use crate::error;
use crate::error::{ApiError, ErrorKind};
use crate::grants;
use crate::grants::{require, Access, Found};
use crate::limits;
use crate::limits::clamp;
use crate::shares::ProductMember;
use crate::text;
use crate::text::{after_prefix, blank, cat2, lowered_ascii, quote, same, trim};
use crate::textmap::TextMap;

verus! {

/// How many rows a list gives where no number is asked for.
pub const DEFAULT_PAGE_SIZE: i64 = 100;

/// The most rows that a list gives.
pub const MAX_PAGE_SIZE: i64 = 500;

/// Query parameters of the lists.
#[derive(Debug)]
pub struct ListQuery {
    /// Only rows after this one.
    pub after: Option<String>,
    /// How many.
    pub limit: Option<i64>,
}

/// The number of rows: 100, or as many as are asked for from 1 to 500.
pub fn clamp_limit(limit: Option<i64>) -> (r: i64)
    ensures
        r == limits::clamped(limit, DEFAULT_PAGE_SIZE, 1, MAX_PAGE_SIZE),
        1 <= r <= MAX_PAGE_SIZE,
{
    clamp(limit, DEFAULT_PAGE_SIZE, 1, MAX_PAGE_SIZE)
}

/// Where the next page starts: after the last row, where there is one.
pub fn next_after(ids: &Vec<String>) -> (r: Option<String>)
    ensures
        r == (if ids@.len() == 0 { None } else { Some(ids@.last()) }),
{
    if ids.len() == 0 {
        None
    } else {
        Some(ids[ids.len() - 1].clone())
    }
}

// ---------------------------------------------------------------------------
// Certification
// ---------------------------------------------------------------------------

/// How far something is certified.
#[derive(Clone, Copy, Debug, PartialEq, Eq, Structural)]
pub enum Certification {
    /// It is being worked on.
    Draft,
    /// It can be relied on.
    Certified,
    /// It is on its way out.
    Deprecated,
}

/// The certification of a wire name.
pub open spec fn certification_of(name: Seq<char>) -> Option<Certification> {
    if name == "draft"@ {
        Some(Certification::Draft)
    } else if name == "certified"@ {
        Some(Certification::Certified)
    } else if name == "deprecated"@ {
        Some(Certification::Deprecated)
    } else {
        None
    }
}

/// The refusal of a certification.
pub open spec fn certification_error(name: Seq<char>) -> error::ErrorView {
    error::bad_request("certification must be one of draft|certified|deprecated, got "@ + text::quoted(name))
}

/// What a request names as its certification; nothing where it names none.
pub open spec fn certification_named(raw: Option<String>) -> Result<Option<Certification>, error::ErrorView> {
    match raw {
        None => Ok(None),
        Some(name) => match certification_of(name@) {
            Some(c) => Ok(Some(c)),
            None => Err(certification_error(name@)),
        },
    }
}

/// What a request names as its certification; nothing where it names none.
pub fn named_certification(raw: &Option<String>) -> (r: Result<Option<Certification>, ApiError>)
    ensures
        error::outcome(r) == certification_named(*raw),
{
    match raw {
        None => Ok(None),
        Some(name) => if same(name.as_str(), "draft") {
            Ok(Some(Certification::Draft))
        } else if same(name.as_str(), "certified") {
            Ok(Some(Certification::Certified))
        } else if same(name.as_str(), "deprecated") {
            Ok(Some(Certification::Deprecated))
        } else {
            Err(ApiError::bad_request(
                cat2(
                    "certification must be one of draft|certified|deprecated, got ",
                    quote(name.as_str()).as_str(),
                ).as_str(),
            ))
        },
    }
}

/// The certification of something new: a draft, where none is named.
pub open spec fn new_certification(raw: Option<String>) -> Result<Certification, error::ErrorView> {
    match certification_named(raw) {
        Err(e) => Err(e),
        Ok(Some(c)) => Ok(c),
        Ok(None) => Ok(Certification::Draft),
    }
}

/// The certification of something new: a draft, where none is named.
pub fn parse_certification(raw: &Option<String>) -> (r: Result<Certification, ApiError>)
    ensures
        error::outcome(r) == new_certification(*raw),
{
    match named_certification(raw) {
        Err(e) => Err(e),
        Ok(Some(c)) => Ok(c),
        Ok(None) => Ok(Certification::Draft),
    }
}

/// What the answer to a change is, before the store is asked.
pub open spec fn admits_update(
    access: Access,
    certification: Option<String>,
    r: Result<Option<Certification>, ApiError>,
) -> bool {
    match grants::access_error(access) {
        Some(e) => error::fails_with(r, e),
        None => error::outcome(r) == certification_named(certification),
    }
}

fn admit_update(access: &Access, certification: &Option<String>) -> (r: Result<Option<Certification>, ApiError>)
    ensures
        admits_update(*access, *certification, r),
{
    match require(access) {
        Err(e) => Err(e),
        Ok(()) => named_certification(certification),
    }
}

/// Admits a list, and gives the number of rows. It is the same for metrics,
/// terms and products.
pub fn list_page(access: &Access, query: &ListQuery) -> (r: Result<i64, ApiError>)
    ensures
        match grants::access_error(*access) {
            Some(e) => error::fails_with(r, e),
            None => r matches Ok(limit) && limit == limits::clamped(query.limit, DEFAULT_PAGE_SIZE, 1, MAX_PAGE_SIZE),
        },
{
    match require(access) {
        Err(e) => Err(e),
        Ok(()) => Ok(clamp_limit(query.limit)),
    }
}

/// The text that is given, or that of the caller.
pub open spec fn or_caller(given: Option<String>, caller: Seq<char>) -> Seq<char> {
    match given {
        Some(s) => s@,
        None => caller,
    }
}

fn given_or(given: &Option<String>, other: &str) -> (r: String)
    ensures
        r@ == or_caller(*given, other@),
{
    match given {
        Some(s) => s.clone(),
        None => other.to_owned(),
    }
}

// ---------------------------------------------------------------------------
// Metrics
// ---------------------------------------------------------------------------

/// Request body to create a metric.
#[derive(Debug)]
pub struct CreateMetricRequest {
    /// Its name.
    pub name: String,
    /// What people call it.
    pub display_name: Option<String>,
    /// The table or view it reads.
    pub source: String,
    /// What it computes.
    pub expression: String,
    /// The dialect of its fragments.
    pub dialect: Option<String>,
    /// The dimensions it groups by.
    pub dimensions: Vec<String>,
    /// The filters it applies.
    pub filters: Vec<String>,
    /// Its grain.
    pub grain: Option<String>,
    /// What it is for.
    pub description: Option<String>,
    /// Whose it is.
    pub owner: Option<String>,
    /// How far it is certified.
    pub certification: Option<String>,
}

/// Request body to change a metric.
#[derive(Debug)]
pub struct UpdateMetricRequest {
    /// What people call it.
    pub display_name: Option<String>,
    /// The table or view it reads.
    pub source: Option<String>,
    /// What it computes.
    pub expression: Option<String>,
    /// The dialect of its fragments.
    pub dialect: Option<String>,
    /// The dimensions it groups by.
    pub dimensions: Option<Vec<String>>,
    /// The filters it applies.
    pub filters: Option<Vec<String>>,
    /// Its grain.
    pub grain: Option<String>,
    /// What it is for.
    pub description: Option<String>,
    /// Whose it is.
    pub owner: Option<String>,
    /// How far it is certified.
    pub certification: Option<String>,
}

/// A metric to create.
#[derive(Debug)]
pub struct NewMetric {
    /// Its name.
    pub name: String,
    /// The table or view it reads.
    pub source: String,
    /// What it computes.
    pub expression: String,
    /// The dialect of its fragments.
    pub dialect: String,
    /// Whose it is.
    pub owner: String,
    /// How far it is certified.
    pub certification: Certification,
}

/// The refusal of a metric.
pub open spec fn metric_error(access: Access, req: CreateMetricRequest) -> Option<error::ErrorView> {
    match grants::access_error(access) {
        Some(e) => Some(e),
        None => if text::is_blank(req.name@) {
            Some(error::bad_request("metric name must not be empty"@))
        } else if text::is_blank(req.expression@) {
            Some(error::bad_request("metric expression must not be empty"@))
        } else if text::is_blank(req.source@) {
            Some(error::bad_request("metric source must not be empty"@))
        } else {
            match new_certification(req.certification) {
                Err(e) => Some(e),
                Ok(_) => None,
            }
        },
    }
}

/// Admits a new metric. Its owner is the caller, and its dialect Trino's,
/// where none is named.
pub fn create_metric(access: &Access, req: &CreateMetricRequest, caller: &str) -> (r: Result<NewMetric, ApiError>)
    ensures
        match metric_error(*access, *req) {
            Some(e) => error::fails_with(r, e),
            None => {
                &&& r matches Ok(m)
                &&& m.name@ == text::trimmed(req.name@)
                &&& m.source@ == text::trimmed(req.source@)
                &&& m.expression@ == text::trimmed(req.expression@)
                &&& m.dialect@ == or_caller(req.dialect, "trino"@)
                &&& m.owner@ == or_caller(req.owner, caller@)
                &&& new_certification(req.certification) == Ok::<Certification, error::ErrorView>(m.certification)
            },
        },
{
    match require(access) {
        Err(e) => { return Err(e); },
        Ok(()) => {},
    }
    if blank(req.name.as_str()) {
        return Err(ApiError::bad_request("metric name must not be empty"));
    }
    if blank(req.expression.as_str()) {
        return Err(ApiError::bad_request("metric expression must not be empty"));
    }
    if blank(req.source.as_str()) {
        return Err(ApiError::bad_request("metric source must not be empty"));
    }
    let certification = match parse_certification(&req.certification) {
        Err(e) => { return Err(e); },
        Ok(c) => c,
    };
    Ok(
        NewMetric {
            name: trim(req.name.as_str()).to_owned(),
            source: trim(req.source.as_str()).to_owned(),
            expression: trim(req.expression.as_str()).to_owned(),
            dialect: given_or(&req.dialect, "trino"),
            owner: given_or(&req.owner, caller),
            certification,
        },
    )
}

/// Admits a change of a metric, and gives the certification that it names.
pub fn update_metric(access: &Access, req: &UpdateMetricRequest) -> (r: Result<Option<Certification>, ApiError>)
    ensures
        admits_update(*access, req.certification, r),
{
    admit_update(access, &req.certification)
}

/// Whether the answer is the item, or else this 404.
pub open spec fn gives_item<T>(access: Access, found: Option<T>, missing: Seq<char>, r: Result<T, ApiError>) -> bool {
    match grants::access_error(access) {
        Some(e) => error::fails_with(r, e),
        None => match found {
            Some(v) => r matches Ok(got) && got == v,
            None => error::fails_with(r, error::not_found(missing)),
        },
    }
}

fn item_of<T>(access: &Access, found: Option<T>, missing: &str) -> (r: Result<T, ApiError>)
    ensures
        gives_item(*access, found, missing@, r),
{
    match require(access) {
        Err(e) => { return Err(e); },
        Ok(()) => {},
    }
    match found {
        Some(v) => Ok(v),
        None => Err(ApiError::not_found(missing)),
    }
}

/// The metric of an id.
pub fn get_metric<T>(access: &Access, found: Option<T>) -> (r: Result<T, ApiError>)
    ensures
        gives_item(*access, found, "metric not found"@, r),
{
    item_of(access, found, "metric not found")
}

/// Query parameters of the compile route.
#[derive(Debug)]
pub struct CompileQuery {
    /// The dialect to compile for.
    pub engine: String,
}

/// What is known so far of a metric to compile.
#[derive(Debug)]
pub struct CompileFacts {
    /// Whether the metric is there.
    pub metric: Found<()>,
    /// Whether there is a sidecar.
    pub sidecar: bool,
    /// Whether the sidecar answered, or why not.
    pub compiled: Option<Result<(), String>>,
}

/// The next step of compiling a metric.
#[derive(Debug)]
pub enum CompileStep {
    /// Look up the metric.
    AskMetric,
    /// Ask the sidecar to compile it for this dialect.
    Compile(String),
    /// Answer with what the sidecar gave.
    Answer,
}

/// The dialect that a query names: without the blanks around it, in lower
/// case.
pub open spec fn dialect_of(query: CompileQuery) -> Seq<char> {
    text::ascii_lowered(text::trimmed(query.engine@))
}

/// The refusal where the sidecar cannot be had.
pub open spec fn sidecar_missing(message: Seq<char>) -> error::ErrorView {
    error::error_of(ErrorKind::ServiceUnavailable, message)
}

/// Takes the next step of compiling a metric. A sidecar that is not there or
/// does not answer is a 503.
pub fn compile_metric(access: &Access, query: &CompileQuery, facts: &CompileFacts) -> (r: Result<CompileStep, ApiError>)
    ensures
        match grants::access_error(*access) {
            Some(e) => error::fails_with(r, e),
            None => if dialect_of(*query).len() == 0 {
                error::fails_with(r, error::bad_request("engine (target dialect) must not be empty"@))
            } else {
                match facts.metric {
                    Found::Unasked => r matches Ok(step) && step is AskMetric,
                    Found::Missing => error::fails_with(r, error::not_found("metric not found"@)),
                    Found::Is(_) => if !facts.sidecar {
                        error::fails_with(r, sidecar_missing("the transpilation sidecar is not configured"@))
                    } else {
                        match facts.compiled {
                            None => r matches Ok(CompileStep::Compile(dialect)) && dialect@ == dialect_of(*query),
                            Some(Ok(_)) => r matches Ok(step) && step is Answer,
                            Some(Err(detail)) => error::fails_with(
                                r,
                                sidecar_missing("transpilation sidecar is unavailable: "@ + detail@),
                            ),
                        }
                    },
                }
            },
        },
{
    match require(access) {
        Err(e) => { return Err(e); },
        Ok(()) => {},
    }
    let dialect = lowered_ascii(trim(query.engine.as_str()));
    if dialect.as_str().is_empty() {
        return Err(ApiError::bad_request("engine (target dialect) must not be empty"));
    }
    match &facts.metric {
        Found::Unasked => { return Ok(CompileStep::AskMetric); },
        Found::Missing => { return Err(ApiError::not_found("metric not found")); },
        Found::Is(_) => {},
    }
    if !facts.sidecar {
        return Err(ApiError::new(
            ErrorKind::ServiceUnavailable,
            "the transpilation sidecar is not configured",
        ));
    }
    match &facts.compiled {
        None => Ok(CompileStep::Compile(dialect)),
        Some(Ok(_)) => Ok(CompileStep::Answer),
        Some(Err(detail)) => Err(ApiError::new(
            ErrorKind::ServiceUnavailable,
            cat2("transpilation sidecar is unavailable: ", detail.as_str()).as_str(),
        )),
    }
}

// ---------------------------------------------------------------------------
// Glossary
// ---------------------------------------------------------------------------

/// Request body to create a term.
#[derive(Debug)]
pub struct CreateTermRequest {
    /// Its name.
    pub name: String,
    /// What it means.
    pub definition: String,
    /// Who looks after it.
    pub steward: Option<String>,
    /// How far it is certified.
    pub certification: Option<String>,
}

/// Request body to change a term.
#[derive(Debug)]
pub struct UpdateTermRequest {
    /// What it means.
    pub definition: Option<String>,
    /// Who looks after it.
    pub steward: Option<String>,
    /// How far it is certified.
    pub certification: Option<String>,
}

/// Request body to link a term to an asset.
#[derive(Debug)]
pub struct LinkTermRequest {
    /// What the asset is.
    pub asset_kind: String,
    /// Which one it is.
    pub asset_ref: String,
}

/// A term to create.
#[derive(Debug)]
pub struct NewTerm {
    /// Its name.
    pub name: String,
    /// What it means.
    pub definition: String,
    /// Who looks after it.
    pub steward: String,
    /// How far it is certified.
    pub certification: Certification,
}

/// Admits a new term. Its steward is the caller, where none is named.
pub fn create_term(access: &Access, req: &CreateTermRequest, caller: &str) -> (r: Result<NewTerm, ApiError>)
    ensures
        match grants::access_error(*access) {
            Some(e) => error::fails_with(r, e),
            None => if text::is_blank(req.name@) {
                error::fails_with(r, error::bad_request("term name must not be empty"@))
            } else if text::is_blank(req.definition@) {
                error::fails_with(r, error::bad_request("term definition must not be empty"@))
            } else {
                match new_certification(req.certification) {
                    Err(e) => error::fails_with(r, e),
                    Ok(c) => r matches Ok(t) && t.name@ == text::trimmed(req.name@) && t.definition@
                        == text::trimmed(req.definition@) && t.steward@ == or_caller(req.steward, caller@)
                        && t.certification == c,
                }
            },
        },
{
    match require(access) {
        Err(e) => { return Err(e); },
        Ok(()) => {},
    }
    if blank(req.name.as_str()) {
        return Err(ApiError::bad_request("term name must not be empty"));
    }
    if blank(req.definition.as_str()) {
        return Err(ApiError::bad_request("term definition must not be empty"));
    }
    let certification = match parse_certification(&req.certification) {
        Err(e) => { return Err(e); },
        Ok(c) => c,
    };
    Ok(
        NewTerm {
            name: trim(req.name.as_str()).to_owned(),
            definition: trim(req.definition.as_str()).to_owned(),
            steward: given_or(&req.steward, caller),
            certification,
        },
    )
}

/// Admits a change of a term, and gives the certification that it names.
pub fn update_term(access: &Access, req: &UpdateTermRequest) -> (r: Result<Option<Certification>, ApiError>)
    ensures
        admits_update(*access, req.certification, r),
{
    admit_update(access, &req.certification)
}

/// The term of an id.
pub fn get_term<T>(access: &Access, found: Option<T>) -> (r: Result<T, ApiError>)
    ensures
        gives_item(*access, found, "term not found"@, r),
{
    item_of(access, found, "term not found")
}

/// Whether a term can be linked to assets of that kind.
pub open spec fn is_asset_kind(kind: Seq<char>) -> bool {
    kind == "table"@ || kind == "view"@ || kind == "metric"@
}

/// The refusal of an asset kind.
pub open spec fn asset_kind_error(kind: Seq<char>) -> error::ErrorView {
    error::bad_request("asset_kind must be one of table|view|metric, got "@ + text::quoted(kind))
}

/// Refuses a kind of asset that no term is linked to.
pub fn validate_asset_kind(kind: &str) -> (r: Result<(), ApiError>)
    ensures
        if is_asset_kind(kind@) {
            r is Ok
        } else {
            error::fails_with(r, asset_kind_error(kind@))
        },
{
    if same(kind, "table") || same(kind, "view") || same(kind, "metric") {
        Ok(())
    } else {
        Err(ApiError::bad_request(
            cat2("asset_kind must be one of table|view|metric, got ", quote(kind).as_str()).as_str(),
        ))
    }
}

/// Admits a link, and gives the reference to record.
pub fn link_term(access: &Access, req: &LinkTermRequest) -> (r: Result<String, ApiError>)
    ensures
        match grants::access_error(*access) {
            Some(e) => error::fails_with(r, e),
            None => if !is_asset_kind(req.asset_kind@) {
                error::fails_with(r, asset_kind_error(req.asset_kind@))
            } else if text::is_blank(req.asset_ref@) {
                error::fails_with(r, error::bad_request("asset_ref must not be empty"@))
            } else {
                r matches Ok(reference) && reference@ == text::trimmed(req.asset_ref@)
            },
        },
{
    match require(access) {
        Err(e) => { return Err(e); },
        Ok(()) => {},
    }
    match validate_asset_kind(req.asset_kind.as_str()) {
        Err(e) => { return Err(e); },
        Ok(()) => {},
    }
    if blank(req.asset_ref.as_str()) {
        return Err(ApiError::bad_request("asset_ref must not be empty"));
    }
    Ok(trim(req.asset_ref.as_str()).to_owned())
}

// ---------------------------------------------------------------------------
// Products
// ---------------------------------------------------------------------------

/// Request body to create a product.
#[derive(Debug)]
pub struct CreateProductRequest {
    /// Its name.
    pub name: String,
    /// What people call it.
    pub display_name: Option<String>,
    /// What it is for.
    pub description: Option<String>,
    /// Whose it is.
    pub owner: Option<String>,
    /// What it promises.
    pub sla: Option<String>,
    /// How far it is certified.
    pub certification: Option<String>,
}

/// Request body to change a product.
#[derive(Debug)]
pub struct UpdateProductRequest {
    /// What people call it.
    pub display_name: Option<String>,
    /// What it is for.
    pub description: Option<String>,
    /// Whose it is.
    pub owner: Option<String>,
    /// What it promises.
    pub sla: Option<String>,
    /// How far it is certified.
    pub certification: Option<String>,
}

/// Request body to add a member to a product.
#[derive(Debug)]
pub struct AddMemberRequest {
    /// What it is.
    pub member_kind: String,
    /// Which one it is.
    pub member_ref: String,
}

/// A product to create.
#[derive(Debug)]
pub struct NewProduct {
    /// Its name.
    pub name: String,
    /// Whose it is.
    pub owner: String,
    /// How far it is certified.
    pub certification: Certification,
}

/// Admits a new product. Its owner is the caller, where none is named.
pub fn create_product(access: &Access, req: &CreateProductRequest, caller: &str) -> (r: Result<NewProduct, ApiError>)
    ensures
        match grants::access_error(*access) {
            Some(e) => error::fails_with(r, e),
            None => if text::is_blank(req.name@) {
                error::fails_with(r, error::bad_request("product name must not be empty"@))
            } else {
                match new_certification(req.certification) {
                    Err(e) => error::fails_with(r, e),
                    Ok(c) => r matches Ok(p) && p.name@ == text::trimmed(req.name@) && p.owner@ == or_caller(
                        req.owner,
                        caller@,
                    ) && p.certification == c,
                }
            },
        },
{
    match require(access) {
        Err(e) => { return Err(e); },
        Ok(()) => {},
    }
    if blank(req.name.as_str()) {
        return Err(ApiError::bad_request("product name must not be empty"));
    }
    let certification = match parse_certification(&req.certification) {
        Err(e) => { return Err(e); },
        Ok(c) => c,
    };
    Ok(
        NewProduct {
            name: trim(req.name.as_str()).to_owned(),
            owner: given_or(&req.owner, caller),
            certification,
        },
    )
}

/// Admits a change of a product, and gives the certification that it names.
pub fn update_product(access: &Access, req: &UpdateProductRequest) -> (r: Result<Option<Certification>, ApiError>)
    ensures
        admits_update(*access, req.certification, r),
{
    admit_update(access, &req.certification)
}

/// The product of an id.
pub fn get_product<T>(access: &Access, found: Option<T>) -> (r: Result<T, ApiError>)
    ensures
        gives_item(*access, found, "product not found"@, r),
{
    item_of(access, found, "product not found")
}

/// Whether a product can hold members of that kind.
pub open spec fn is_member_kind(kind: Seq<char>) -> bool {
    kind == "table"@ || kind == "view"@ || kind == "metric"@ || kind == "glossary_term"@ || kind == "contract"@
}

/// The refusal of a member kind.
pub open spec fn member_kind_error(kind: Seq<char>) -> error::ErrorView {
    error::bad_request(
        "member_kind must be one of table|view|metric|glossary_term|contract, got "@ + text::quoted(kind),
    )
}

/// Refuses a kind of member that no product holds.
pub fn validate_member_kind(kind: &str) -> (r: Result<(), ApiError>)
    ensures
        if is_member_kind(kind@) {
            r is Ok
        } else {
            error::fails_with(r, member_kind_error(kind@))
        },
{
    if same(kind, "table") || same(kind, "view") || same(kind, "metric") || same(kind, "glossary_term")
        || same(kind, "contract") {
        Ok(())
    } else {
        Err(ApiError::bad_request(
            cat2(
                "member_kind must be one of table|view|metric|glossary_term|contract, got ",
                quote(kind).as_str(),
            ).as_str(),
        ))
    }
}

/// Admits a member, and gives the reference to record.
pub fn add_product_member(access: &Access, req: &AddMemberRequest) -> (r: Result<String, ApiError>)
    ensures
        match grants::access_error(*access) {
            Some(e) => error::fails_with(r, e),
            None => if !is_member_kind(req.member_kind@) {
                error::fails_with(r, member_kind_error(req.member_kind@))
            } else if text::is_blank(req.member_ref@) {
                error::fails_with(r, error::bad_request("member_ref must not be empty"@))
            } else {
                r matches Ok(reference) && reference@ == text::trimmed(req.member_ref@)
            },
        },
{
    match require(access) {
        Err(e) => { return Err(e); },
        Ok(()) => {},
    }
    match validate_member_kind(req.member_kind.as_str()) {
        Err(e) => { return Err(e); },
        Ok(()) => {},
    }
    if blank(req.member_ref.as_str()) {
        return Err(ApiError::bad_request("member_ref must not be empty"));
    }
    Ok(trim(req.member_ref.as_str()).to_owned())
}

// ---------------------------------------------------------------------------
// The status of a product
// ---------------------------------------------------------------------------

/// How well a table does.
#[derive(Clone, Copy, Debug, PartialEq, Eq, Structural)]
pub enum Health {
    /// Nothing is wrong.
    Healthy,
    /// A little is wrong.
    Degraded,
    /// Much is wrong.
    Unhealthy,
}

/// How bad a health is.
pub open spec fn badness(h: Health) -> int {
    match h {
        Health::Healthy => 0,
        Health::Degraded => 1,
        Health::Unhealthy => 2,
    }
}

/// The health of a table with so many open incidents.
pub open spec fn health_of(open_incidents: i64) -> Health {
    if open_incidents == 0 {
        Health::Healthy
    } else if 1 <= open_incidents <= 2 {
        Health::Degraded
    } else {
        Health::Unhealthy
    }
}

/// The health of a table with so many open incidents: none is healthy, one or
/// two degrade it, more make it unhealthy.
pub fn resolve_table_member_status(open_incidents: i64) -> (r: Health)
    ensures
        r == health_of(open_incidents),
{
    if open_incidents == 0 {
        Health::Healthy
    } else if 1 <= open_incidents && open_incidents <= 2 {
        Health::Degraded
    } else {
        Health::Unhealthy
    }
}

/// The table that a member names: what follows `table:`, or all of it.
pub fn member_table_id<'a>(member: &'a ProductMember) -> (r: Option<&'a str>)
    ensures
        r is Some == (member.member_kind@ == "table"@),
        r matches Some(id) ==> id@ == (if "table:"@.is_prefix_of(member.member_ref@) {
            member.member_ref@.skip("table:"@.len() as int)
        } else {
            member.member_ref@
        }),
{
    if !same(member.member_kind.as_str(), "table") {
        return None;
    }
    match after_prefix(member.member_ref.as_str(), "table:") {
        Some(id) => Some(id),
        None => Some(member.member_ref.as_str()),
    }
}

/// How many members are of a kind.
pub open spec fn count_of(members: Seq<ProductMember>, kind: Seq<char>) -> nat
    decreases members.len(),
{
    if members.len() == 0 {
        0
    } else {
        let earlier = count_of(members.drop_last(), kind);
        if members.last().member_kind@ == kind {
            earlier + 1
        } else {
            earlier
        }
    }
}

/// Whether the map counts the members of each kind.
pub open spec fn counts_kinds(map: Map<Seq<char>, usize>, members: Seq<ProductMember>) -> bool {
    forall|kind: Seq<char>| #![trigger map.dom().contains(kind)]
        map.dom().contains(kind) == (count_of(members, kind) > 0) && (map.dom().contains(kind) ==> map[kind]
            == count_of(members, kind))
}

proof fn counts_are_bounded(members: Seq<ProductMember>, kind: Seq<char>)
    ensures
        count_of(members, kind) <= members.len(),
    decreases members.len(),
{
    if members.len() > 0 {
        counts_are_bounded(members.drop_last(), kind);
    }
}

/// How many members of each kind a product has.
pub fn member_counts(members: &Vec<ProductMember>) -> (r: TextMap<usize>)
    ensures
        counts_kinds(r@, members@),
{
    let mut map: TextMap<usize> = TextMap::new();
    let total: usize = members.len();
    let mut i: usize = 0;
    assert(members@.take(0) =~= Seq::<ProductMember>::empty());
    while i < members.len()
        invariant
            i <= members@.len(),
            total == members@.len(),
            counts_kinds(map@, members@.take(i as int)),
        decreases members@.len() - i,
    {
        let ghost so_far = members@.take(i as int);
        let ghost next = members@.take(i + 1);
        assert(next.drop_last() =~= so_far);
        let kind = members[i].member_kind.as_str();
        let ghost before = map@;
        proof {
            counts_are_bounded(so_far, kind@);
            assert(before.dom().contains(kind@) == (count_of(so_far, kind@) > 0));
        }
        let n: usize = match map.get(kind) {
            Some(n) => *n,
            None => 0,
        };
        map = map.with(kind, n + 1);
        assert forall|k: Seq<char>| #![trigger map@.dom().contains(k)]
            map@.dom().contains(k) == (count_of(next, k) > 0) && (map@.dom().contains(k) ==> map@[k] == count_of(
                next,
                k,
            )) by {
            if k != kind@ {
                assert(before.dom().contains(k) == (count_of(so_far, k) > 0));
            }
        }
        i = i + 1;
    }
    assert(members@.take(members@.len() as int) =~= members@);
    map
}

/// How a product does.
#[derive(Clone, Copy, Debug, PartialEq, Eq, Structural)]
pub enum Rollup {
    /// As badly as its worst table.
    As(Health),
    /// No table says.
    NoSignal,
}

/// The label of a roll-up.
pub open spec fn rollup_label(r: Rollup) -> Seq<char> {
    match r {
        Rollup::As(Health::Healthy) => "healthy"@,
        Rollup::As(Health::Degraded) => "degraded"@,
        Rollup::As(Health::Unhealthy) => "unhealthy"@,
        Rollup::NoSignal => "no_signal"@,
    }
}

impl Rollup {
    /// The label of the roll-up.
    pub fn as_str(&self) -> (r: &'static str)
        ensures
            r@ == rollup_label(*self),
    {
        match self {
            Rollup::As(Health::Healthy) => "healthy",
            Rollup::As(Health::Degraded) => "degraded",
            Rollup::As(Health::Unhealthy) => "unhealthy",
            Rollup::NoSignal => "no_signal",
        }
    }
}

/// The roll-up of what the tables say, in order; a table that does not resolve
/// says nothing.
pub open spec fn rolled_up(tables: Seq<Option<Health>>) -> Rollup
    decreases tables.len(),
{
    if tables.len() == 0 {
        Rollup::NoSignal
    } else {
        let earlier = rolled_up(tables.drop_last());
        match tables.last() {
            None => earlier,
            Some(h) => match earlier {
                Rollup::NoSignal => Rollup::As(h),
                Rollup::As(worst) => if badness(h) > badness(worst) { Rollup::As(h) } else { earlier },
            },
        }
    }
}

fn rank(h: Health) -> (r: u8)
    ensures
        r == badness(h),
{
    match h {
        Health::Healthy => 0,
        Health::Degraded => 1,
        Health::Unhealthy => 2,
    }
}

/// How a product does: as badly as its worst table.
pub fn product_status(tables: &Vec<Option<Health>>) -> (r: Rollup)
    ensures
        r == rolled_up(tables@),
{
    let mut worst = Rollup::NoSignal;
    let mut i: usize = 0;
    assert(tables@.take(0) =~= Seq::<Option<Health>>::empty());
    while i < tables.len()
        invariant
            i <= tables@.len(),
            worst == rolled_up(tables@.take(i as int)),
        decreases tables@.len() - i,
    {
        assert(tables@.take(i + 1).drop_last() =~= tables@.take(i as int));
        match tables[i] {
            None => {},
            Some(h) => match worst {
                Rollup::NoSignal => {
                    worst = Rollup::As(h);
                },
                Rollup::As(w) => {
                    if rank(h) > rank(w) {
                        worst = Rollup::As(h);
                    }
                },
            },
        }
        i = i + 1;
    }
    assert(tables@.take(tables@.len() as int) =~= tables@);
    worst
}

/// A product is never said to do better than one of its tables.
pub proof fn rollups_are_the_worst(tables: Seq<Option<Health>>, i: int)
    requires
        0 <= i < tables.len(),
        tables[i] is Some,
    ensures
        rolled_up(tables) matches Rollup::As(worst) && badness(worst) >= badness(tables[i]->0),
    decreases tables.len(),
{
    if i + 1 < tables.len() {
        rollups_are_the_worst(tables.drop_last(), i);
    }
}

/// A product does as badly as one of its tables, and says nothing where none
/// of them does.
pub proof fn rollups_are_someones(tables: Seq<Option<Health>>)
    ensures
        match rolled_up(tables) {
            Rollup::NoSignal => forall|i: int| 0 <= i < tables.len() ==> #[trigger] tables[i] is None,
            Rollup::As(h) => exists|i: int| 0 <= i < tables.len() && #[trigger] tables[i] == Some(h),
        },
    decreases tables.len(),
{
    if tables.len() > 0 {
        let earlier = tables.drop_last();
        rollups_are_someones(earlier);
        match rolled_up(earlier) {
            Rollup::NoSignal => {
                assert forall|i: int| 0 <= i < tables.len() && i < earlier.len() implies #[trigger] tables[i] is None by {
                    assert(earlier[i] is None);
                }
                assert(tables[tables.len() - 1] == tables.last());
            },
            Rollup::As(h) => {
                let i = choose|i: int| 0 <= i < earlier.len() && #[trigger] earlier[i] == Some(h);
                assert(tables[i] == Some(h));
                assert(tables[tables.len() - 1] == tables.last());
            },
        }
    }
}

/// A table without open incidents is healthy, one with one or two is degraded,
/// and one with more is unhealthy: more incidents never make it better.
pub proof fn incidents_decide_the_health(fewer: i64, more: i64)
    requires
        0 <= fewer <= more,
    ensures
        health_of(fewer) == Health::Healthy <==> fewer == 0,
        health_of(fewer) == Health::Degraded <==> fewer == 1 || fewer == 2,
        health_of(fewer) == Health::Unhealthy <==> fewer >= 3,
        badness(health_of(fewer)) <= badness(health_of(more)),
{
}

/// A product is unhealthy exactly where one of its tables is, degraded exactly
/// where one is and none is unhealthy, and healthy exactly where one is and none
/// is worse. It has no signal exactly where none of its tables has one.
pub proof fn products_are_as_their_worst_table(tables: Seq<Option<Health>>)
    ensures
        rolled_up(tables) == Rollup::As(Health::Unhealthy) <==> tables.contains(Some(Health::Unhealthy)),
        rolled_up(tables) == Rollup::As(Health::Degraded) <==> tables.contains(Some(Health::Degraded))
            && !tables.contains(Some(Health::Unhealthy)),
        rolled_up(tables) == Rollup::As(Health::Healthy) <==> tables.contains(Some(Health::Healthy))
            && !tables.contains(Some(Health::Degraded)) && !tables.contains(Some(Health::Unhealthy)),
        rolled_up(tables) == Rollup::NoSignal <==> forall|i: int|
            0 <= i < tables.len() ==> #[trigger] tables[i] is None,
    decreases tables.len(),
{
    rollups_are_someones(tables);
    if tables.contains(Some(Health::Unhealthy)) {
        let i = choose|i: int| 0 <= i < tables.len() && tables[i] == Some(Health::Unhealthy);
        rollups_are_the_worst(tables, i);
    }
    if tables.contains(Some(Health::Degraded)) {
        let i = choose|i: int| 0 <= i < tables.len() && tables[i] == Some(Health::Degraded);
        rollups_are_the_worst(tables, i);
    }
    if tables.contains(Some(Health::Healthy)) {
        let i = choose|i: int| 0 <= i < tables.len() && tables[i] == Some(Health::Healthy);
        rollups_are_the_worst(tables, i);
    }
}

/// The members of a kind add up: those of two lists together are those of the
/// one and of the other; a member counts for its own kind and for no other.
pub proof fn members_are_counted(a: Seq<ProductMember>, b: Seq<ProductMember>, m: ProductMember, kind: Seq<char>)
    ensures
        count_of(a + b, kind) == count_of(a, kind) + count_of(b, kind),
        count_of(seq![m], kind) == (if m.member_kind@ == kind {
            1nat
        } else {
            0nat
        }),
    decreases b.len(),
{
    assert(seq![m].drop_last() =~= Seq::<ProductMember>::empty());
    assert(count_of(Seq::<ProductMember>::empty(), kind) == 0);
    if b.len() == 0 {
        assert(a + b =~= a);
    } else {
        members_are_counted(a, b.drop_last(), m, kind);
        assert((a + b).drop_last() =~= a + b.drop_last());
        assert((a + b).last() == b.last());
    }
}

/// A certification is read off its name, and off nothing else; what is new and
/// names none is a draft, and what is updated and names none keeps its own.
pub proof fn certifications_are_read(raw: Option<String>)
    ensures
        match raw {
            None => new_certification(raw) == Ok::<Certification, error::ErrorView>(Certification::Draft)
                && certification_named(raw) == Ok::<Option<Certification>, error::ErrorView>(None),
            Some(name) => match new_certification(raw) {
                Ok(c) => name@ == (match c {
                    Certification::Draft => "draft"@,
                    Certification::Certified => "certified"@,
                    Certification::Deprecated => "deprecated"@,
                }) && certification_named(raw) == Ok::<Option<Certification>, error::ErrorView>(Some(c)),
                Err(e) => e.kind == ErrorKind::BadRequest && name@ != "draft"@ && name@ != "certified"@ && name@
                    != "deprecated"@,
            },
        },
{
}

/// A metric is taken exactly from a caller who was granted access, with a name,
/// an expression and a source that are not blank and a certification that is
/// one.
pub proof fn metrics_are_judged(access: Access, req: CreateMetricRequest)
    ensures
        metric_error(access, req) is None <==> access is Granted && !text::is_blank(req.name@) && !text::is_blank(
            req.expression@,
        ) && !text::is_blank(req.source@) && new_certification(req.certification) is Ok,
        access is Granted ==> (metric_error(access, req) matches Some(e) ==> e.kind == ErrorKind::BadRequest),
{
    certifications_are_read(req.certification);
}

} // verus!
