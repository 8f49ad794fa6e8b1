//! Roles, grants, and who may do what.
//!
//! Authorization itself is the store's: it says whether a principal holds a
//! privilege. What follows from its answer is decided here. Every management
//! route turns away a caller without management access before it looks at the
//! request.

use vstd::prelude::*;

use crate::error;
use crate::error::{ApiError, ErrorKind, StoreError};
use crate::text;
use crate::text::{cat2, cat3, cat4, control_char, join, quote, same, to_chars};

verus! {

/// Longest accepted role name, in characters.
pub const MAX_ROLE_NAME_LEN: usize = 100;

/// The store's answer to the question whether a principal may do something.
#[derive(Debug)]
pub enum Access {
    /// It may.
    Granted,
    /// It may not; the message says why.
    Forbidden(String),
    /// The store failed.
    Failed(StoreError),
}

/// The error of an authorization that was not granted.
pub open spec fn access_error(access: Access) -> Option<error::ErrorView> {
    match access {
        Access::Granted => None,
        Access::Forbidden(message) => Some(error::error_of(ErrorKind::Forbidden, message@)),
        Access::Failed(e) => Some(error::store_failure(e)),
    }
}

/// Goes on only where access was granted.
pub fn require(access: &Access) -> (r: Result<(), ApiError>)
    ensures
        r is Ok == (access is Granted),
        r matches Err(e) ==> access_error(*access) == Some(e@),
{
    match access {
        Access::Granted => Ok(()),
        Access::Forbidden(message) => Err(ApiError::new(ErrorKind::Forbidden, message.as_str())),
        Access::Failed(e) => Err(ApiError::from_store(e)),
    }
}

/// The answer to a lookup in the store.
#[derive(Debug)]
pub enum Found<T> {
    /// Not looked up yet.
    Unasked,
    /// There is no such row.
    Missing,
    /// The row.
    Is(T),
}

// ---------------------------------------------------------------------------
// Roles
// ---------------------------------------------------------------------------

/// Request body to create a role.
#[derive(Debug)]
pub struct CreateRoleRequest {
    /// Role name, unique per workspace.
    pub name: String,
    /// Optional human description.
    pub description: Option<String>,
}

/// Request body to bind a principal to a role.
#[derive(Debug)]
pub struct CreateBindingRequest {
    /// ULID of the principal to bind.
    pub principal_id: String,
}

/// Whether a role name is refused, and how.
pub open spec fn role_name_error(name: Seq<char>) -> Option<error::ErrorView> {
    if name.len() == 0 || name.len() > MAX_ROLE_NAME_LEN {
        Some(error::bad_request("role name must be 1–100 characters"@))
    } else if exists|i: int| 0 <= i < name.len() && text::is_control_char(#[trigger] name[i]) {
        Some(error::bad_request("role name must not contain control characters"@))
    } else {
        None
    }
}

/// Validates a role name: 1 to 100 characters, no control characters.
pub fn validate_role_name(name: &str) -> (r: Result<(), ApiError>)
    ensures
        r is Ok == (role_name_error(name@) is None),
        r matches Err(e) ==> role_name_error(name@) == Some(e@),
{
    let chars = to_chars(name);
    if chars.len() == 0 || chars.len() > MAX_ROLE_NAME_LEN {
        return Err(ApiError::bad_request("role name must be 1–100 characters"));
    }
    let mut i: usize = 0;
    while i < chars.len()
        invariant
            i <= chars@.len(),
            chars@ == name@,
            0 < name@.len() <= MAX_ROLE_NAME_LEN,
            forall|j: int| 0 <= j < i ==> !text::is_control_char(#[trigger] name@[j]),
        decreases chars@.len() - i,
    {
        if control_char(chars[i]) {
            assert(text::is_control_char(name@[i as int]));
            return Err(ApiError::bad_request("role name must not contain control characters"));
        }
        i = i + 1;
    }
    Ok(())
}

/// Admits a request to create a role.
pub fn create_role(access: &Access, request: &CreateRoleRequest) -> (r: Result<(), ApiError>)
    ensures
        match access_error(*access) {
            Some(e) => error::fails_with(r, e),
            None => match role_name_error(request.name@) {
                Some(e) => error::fails_with(r, e),
                None => r is Ok,
            },
        },
{
    match require(access) {
        Err(e) => Err(e),
        Ok(()) => validate_role_name(request.name.as_str()),
    }
}

/// The role of a name, or a 404.
pub fn resolve_role(name: &str, role_id: Option<String>) -> (r: Result<String, ApiError>)
    ensures
        match role_id {
            Some(id) => r matches Ok(got) && got == id,
            None => error::fails_with(r, no_such_role(name@)),
        },
{
    match role_id {
        Some(id) => Ok(id),
        None => Err(ApiError::not_found(cat3("role ", quote(name).as_str(), " does not exist").as_str())),
    }
}

/// The 404 of a role that does not exist.
pub open spec fn no_such_role(name: Seq<char>) -> error::ErrorView {
    error::not_found("role "@ + text::quoted(name) + " does not exist"@)
}

// ---------------------------------------------------------------------------
// Securables
// ---------------------------------------------------------------------------

/// What a grant can attach to.
#[derive(Clone, Copy, Debug, PartialEq, Eq, Structural)]
pub enum SecurableType {
    /// A warehouse.
    Warehouse,
    /// A namespace of a warehouse.
    Namespace,
    /// A table of a namespace.
    Table,
    /// A view of a namespace.
    View,
    /// A workspace-level asset.
    Asset,
}

/// The securable type of a wire name.
pub open spec fn securable_type_of(name: Seq<char>) -> Option<SecurableType> {
    if name == "warehouse"@ {
        Some(SecurableType::Warehouse)
    } else if name == "namespace"@ {
        Some(SecurableType::Namespace)
    } else if name == "table"@ {
        Some(SecurableType::Table)
    } else if name == "view"@ {
        Some(SecurableType::View)
    } else if name == "asset"@ {
        Some(SecurableType::Asset)
    } else {
        None
    }
}

impl SecurableType {
    /// The securable type of a wire name.
    pub fn parse(name: &str) -> (r: Option<SecurableType>)
        ensures
            r == securable_type_of(name@),
    {
        if same(name, "warehouse") {
            Some(SecurableType::Warehouse)
        } else if same(name, "namespace") {
            Some(SecurableType::Namespace)
        } else if same(name, "table") {
            Some(SecurableType::Table)
        } else if same(name, "view") {
            Some(SecurableType::View)
        } else if same(name, "asset") {
            Some(SecurableType::Asset)
        } else {
            None
        }
    }
}

/// The securable that a grant attaches to, addressed by name.
#[derive(Debug)]
pub struct SecurableSelector {
    /// `warehouse` | `namespace` | `table` | `view` | `asset`.
    pub securable_type: String,
    /// Warehouse name (required for every type except `asset`).
    pub warehouse: Option<String>,
    /// Namespace levels (required for `namespace`, `table`, and `view`).
    pub namespace: Option<Vec<String>>,
    /// Table name (required for `table`).
    pub table: Option<String>,
    /// View name (required for `view`).
    pub view: Option<String>,
    /// Generic-asset id (required for `asset`).
    pub asset: Option<String>,
}

/// What the store has answered so far about a selector: the ids of the rows
/// that the selector's names stand for.
#[derive(Debug)]
pub struct SecurableFacts {
    /// The asset of the selector's asset id.
    pub asset: Found<String>,
    /// The warehouse of the selector's warehouse name.
    pub warehouse: Found<String>,
    /// The namespace of the selector's levels, in that warehouse.
    pub namespace: Found<String>,
    /// The view of the selector's view name, in that namespace.
    pub view: Found<String>,
    /// The table of the selector's table name, in that namespace.
    pub table: Found<String>,
}

/// A row to look up by the selector's names.
#[derive(Clone, Copy, Debug, PartialEq, Eq, Structural)]
pub enum SecurableAsk {
    /// The asset.
    Asset,
    /// The warehouse.
    Warehouse,
    /// The namespace, in the warehouse that was found.
    Namespace,
    /// The view, in the namespace that was found.
    View,
    /// The table, in the namespace that was found.
    Table,
}

/// The next step of resolving a selector.
#[derive(Debug)]
pub enum SecurableStep {
    /// Look the row up, then go on.
    Ask(SecurableAsk),
    /// The selector stands for this securable.
    Done(SecurableType, String),
    /// The selector stands for nothing.
    Refuse(ApiError),
}

/// The model of the next step.
pub enum SecurableStepView {
    /// Look the row up, then go on.
    Ask(SecurableAsk),
    /// The selector stands for this securable.
    Done(SecurableType, Seq<char>),
    /// The selector stands for nothing.
    Refuse(error::ErrorView),
}

impl View for SecurableStep {
    type V = SecurableStepView;

    open spec fn view(&self) -> SecurableStepView {
        match *self {
            SecurableStep::Ask(ask) => SecurableStepView::Ask(ask),
            SecurableStep::Done(t, id) => SecurableStepView::Done(t, id@),
            SecurableStep::Refuse(e) => SecurableStepView::Refuse(e@),
        }
    }
}

/// A name that is given and not empty.
pub open spec fn given(name: Option<String>) -> Option<Seq<char>> {
    match name {
        Some(s) => if s@.len() > 0 { Some(s@) } else { None },
        None => None,
    }
}

/// The step once a row was asked for: ask, refuse a missing row, or go on.
pub open spec fn settled(
    found: Found<String>,
    ask: SecurableAsk,
    t: SecurableType,
    missing: error::ErrorView,
) -> SecurableStepView {
    match found {
        Found::Unasked => SecurableStepView::Ask(ask),
        Found::Missing => SecurableStepView::Refuse(missing),
        Found::Is(id) => SecurableStepView::Done(t, id@),
    }
}

/// The step for a table or a view of the namespace that was found.
pub open spec fn leaf_step(selector: SecurableSelector, facts: SecurableFacts, t: SecurableType) -> SecurableStepView {
    if t == SecurableType::View {
        match given(selector.view) {
            None => SecurableStepView::Refuse(error::bad_request("securable.view is required for type \"view\""@)),
            Some(name) => settled(
                facts.view,
                SecurableAsk::View,
                t,
                error::error_of(ErrorKind::NoSuchView, "view "@ + text::quoted(name) + " does not exist"@),
            ),
        }
    } else {
        match given(selector.table) {
            None => SecurableStepView::Refuse(error::bad_request("securable.table is required for type \"table\""@)),
            Some(name) => settled(
                facts.table,
                SecurableAsk::Table,
                t,
                error::error_of(ErrorKind::NoSuchTable, "table "@ + text::quoted(name) + " does not exist"@),
            ),
        }
    }
}

/// The step for a namespace, or something in it, of the warehouse that was
/// found.
pub open spec fn namespace_step(
    selector: SecurableSelector,
    facts: SecurableFacts,
    t: SecurableType,
) -> SecurableStepView {
    match selector.namespace {
        Some(levels) if levels@.len() > 0 => match facts.namespace {
            Found::Unasked => SecurableStepView::Ask(SecurableAsk::Namespace),
            Found::Missing => SecurableStepView::Refuse(
                error::error_of(
                    ErrorKind::NoSuchNamespace,
                    "namespace "@ + text::quoted(text::join_with(text::texts(levels@), "."@)) + " does not exist"@,
                ),
            ),
            Found::Is(id) => if t == SecurableType::Namespace {
                SecurableStepView::Done(t, id@)
            } else {
                leaf_step(selector, facts, t)
            },
        },
        _ => SecurableStepView::Refuse(error::bad_request("securable.namespace is required for this type"@)),
    }
}

/// The step of resolving a selector: an asset by its id alone, anything else
/// from its warehouse downwards.
pub open spec fn securable_step(selector: SecurableSelector, facts: SecurableFacts) -> SecurableStepView {
    match securable_type_of(selector.securable_type@) {
        None => SecurableStepView::Refuse(
            error::bad_request(
                "invalid securable type "@ + text::quoted(selector.securable_type@)
                    + ": expected warehouse, namespace, table, view, or asset"@,
            ),
        ),
        Some(SecurableType::Asset) => match given(selector.asset) {
            None => SecurableStepView::Refuse(
                error::bad_request("securable.asset (an asset id) is required for type \"asset\""@),
            ),
            Some(id) => settled(
                facts.asset,
                SecurableAsk::Asset,
                SecurableType::Asset,
                error::not_found("no asset "@ + id),
            ),
        },
        Some(t) => match selector.warehouse {
            None => SecurableStepView::Refuse(
                error::bad_request("securable.warehouse is required for this securable type"@),
            ),
            Some(name) => match facts.warehouse {
                Found::Unasked => SecurableStepView::Ask(SecurableAsk::Warehouse),
                Found::Missing => SecurableStepView::Refuse(error::error_of(ErrorKind::NoSuchWarehouse, name@)),
                Found::Is(id) => if t == SecurableType::Warehouse {
                    SecurableStepView::Done(t, id@)
                } else {
                    namespace_step(selector, facts, t)
                },
            },
        },
    }
}

fn settle(
    found: &Found<String>,
    ask: SecurableAsk,
    t: SecurableType,
    missing: ApiError,
) -> (r: SecurableStep)
    ensures
        r@ == settled(*found, ask, t, missing@),
{
    match found {
        Found::Unasked => SecurableStep::Ask(ask),
        Found::Missing => SecurableStep::Refuse(missing),
        Found::Is(id) => SecurableStep::Done(t, id.clone()),
    }
}

fn given_name(name: &Option<String>) -> (r: Option<&String>)
    ensures
        given(*name) == (match r {
            Some(s) => Some(s@),
            None => None,
        }),
{
    match name {
        Some(s) => if s.as_str().is_empty() { None } else { Some(s) },
        None => None,
    }
}

fn resolve_leaf(selector: &SecurableSelector, facts: &SecurableFacts, t: SecurableType) -> (r: SecurableStep)
    ensures
        r@ == leaf_step(*selector, *facts, t),
{
    if t == SecurableType::View {
        match given_name(&selector.view) {
            None => SecurableStep::Refuse(ApiError::bad_request("securable.view is required for type \"view\"")),
            Some(name) => {
                let message = cat3("view ", quote(name.as_str()).as_str(), " does not exist");
                settle(&facts.view, SecurableAsk::View, t, ApiError::new(ErrorKind::NoSuchView, message.as_str()))
            },
        }
    } else {
        match given_name(&selector.table) {
            None => SecurableStep::Refuse(ApiError::bad_request("securable.table is required for type \"table\"")),
            Some(name) => {
                let message = cat3("table ", quote(name.as_str()).as_str(), " does not exist");
                settle(&facts.table, SecurableAsk::Table, t, ApiError::new(ErrorKind::NoSuchTable, message.as_str()))
            },
        }
    }
}

/// Takes the next step of resolving a selector to its type and id.
pub fn resolve_securable(selector: &SecurableSelector, facts: &SecurableFacts) -> (r: SecurableStep)
    ensures
        r@ == securable_step(*selector, *facts),
{
    let t = match SecurableType::parse(selector.securable_type.as_str()) {
        None => {
            return SecurableStep::Refuse(ApiError::bad_request(
                cat3(
                    "invalid securable type ",
                    quote(selector.securable_type.as_str()).as_str(),
                    ": expected warehouse, namespace, table, view, or asset",
                ).as_str(),
            ));
        },
        Some(t) => t,
    };
    if t == SecurableType::Asset {
        return match given_name(&selector.asset) {
            None => SecurableStep::Refuse(
                ApiError::bad_request("securable.asset (an asset id) is required for type \"asset\""),
            ),
            Some(id) => settle(
                &facts.asset,
                SecurableAsk::Asset,
                t,
                ApiError::not_found(cat2("no asset ", id.as_str()).as_str()),
            ),
        };
    }
    let name = match &selector.warehouse {
        None => {
            return SecurableStep::Refuse(
                ApiError::bad_request("securable.warehouse is required for this securable type"),
            );
        },
        Some(name) => name,
    };
    match &facts.warehouse {
        Found::Unasked => { return SecurableStep::Ask(SecurableAsk::Warehouse); },
        Found::Missing => {
            return SecurableStep::Refuse(ApiError::new(ErrorKind::NoSuchWarehouse, name.as_str()));
        },
        Found::Is(id) => {
            if t == SecurableType::Warehouse {
                return SecurableStep::Done(t, id.clone());
            }
        },
    }
    match &selector.namespace {
        Some(levels) if levels.len() > 0 => match &facts.namespace {
            Found::Unasked => SecurableStep::Ask(SecurableAsk::Namespace),
            Found::Missing => {
                let path = join(levels, ".");
                SecurableStep::Refuse(ApiError::new(
                    ErrorKind::NoSuchNamespace,
                    cat3("namespace ", quote(path.as_str()).as_str(), " does not exist").as_str(),
                ))
            },
            Found::Is(id) => if t == SecurableType::Namespace {
                SecurableStep::Done(t, id.clone())
            } else {
                resolve_leaf(selector, facts, t)
            },
        },
        _ => SecurableStep::Refuse(ApiError::bad_request("securable.namespace is required for this type")),
    }
}

/// Resolving never asks for a row that was looked up already, so it ends.
pub proof fn securable_asks_once(selector: SecurableSelector, facts: SecurableFacts)
    ensures
        securable_step(selector, facts) matches SecurableStepView::Ask(ask) ==> match ask {
            SecurableAsk::Asset => facts.asset is Unasked,
            SecurableAsk::Warehouse => facts.warehouse is Unasked,
            SecurableAsk::Namespace => facts.namespace is Unasked && facts.warehouse is Is,
            SecurableAsk::View => facts.view is Unasked && facts.namespace is Is,
            SecurableAsk::Table => facts.table is Unasked && facts.namespace is Is,
        },
{
}

/// A selector only ever resolves to the type that it names.
pub proof fn securable_keeps_its_type(selector: SecurableSelector, facts: SecurableFacts)
    ensures
        securable_step(selector, facts) matches SecurableStepView::Done(t, _id) ==> securable_type_of(
            selector.securable_type@,
        ) == Some(t),
{
}

// ---------------------------------------------------------------------------
// Grants
// ---------------------------------------------------------------------------

/// Request body to create a grant. Exactly one of `role` and `principal_id`
/// selects the grantee.
#[derive(Debug)]
pub struct CreateGrantRequest {
    /// Privilege to grant (e.g. `READ`).
    pub privilege: String,
    /// Grantee role name.
    pub role: Option<String>,
    /// Grantee principal ULID.
    pub principal_id: Option<String>,
    /// What the grant attaches to.
    pub securable: SecurableSelector,
}

/// Who a grant goes to, as the request names it.
#[derive(Debug)]
pub enum GranteeRef {
    /// The role of this name.
    Role(String),
    /// The principal of this id.
    Principal(String),
}

/// What the request says of the grantee.
pub open spec fn grantee_of(request: CreateGrantRequest) -> Option<GranteeRef> {
    match (request.role, request.principal_id) {
        (Some(role), None) => Some(GranteeRef::Role(role)),
        (None, Some(id)) => Some(GranteeRef::Principal(id)),
        _ => None,
    }
}

/// The error of a request that does not name exactly one grantee.
pub open spec fn grantee_error() -> error::ErrorView {
    error::bad_request("exactly one of \"role\" and \"principal_id\" must be set"@)
}

/// Who the grant goes to: the role or the principal, exactly one of them.
pub fn resolve_grantee(request: &CreateGrantRequest) -> (r: Result<GranteeRef, ApiError>)
    ensures
        match grantee_of(*request) {
            Some(g) => r matches Ok(got) && got == g,
            None => error::fails_with(r, grantee_error()),
        },
{
    match (&request.role, &request.principal_id) {
        (Some(role), None) => Ok(GranteeRef::Role(role.clone())),
        (None, Some(id)) => Ok(GranteeRef::Principal(id.clone())),
        _ => Err(ApiError::bad_request("exactly one of \"role\" and \"principal_id\" must be set")),
    }
}

/// The error of a privilege that is not one of `known`.
pub open spec fn privilege_error(name: Seq<char>, known: Seq<Seq<char>>) -> error::ErrorView {
    error::bad_request(
        "unknown privilege "@ + text::quoted(name) + "; expected one of: "@ + text::join_with(known, ", "@),
    )
}

/// Admits a request to create a grant: the caller has management access, the
/// privilege is one of `known`, and exactly one grantee is named. What the
/// grant attaches to is resolved after this.
pub fn create_grant(access: &Access, request: &CreateGrantRequest, known: &Vec<String>) -> (r: Result<
    GranteeRef,
    ApiError,
>)
    ensures
        match access_error(*access) {
            Some(e) => error::fails_with(r, e),
            None => if !text::texts(known@).contains(request.privilege@) {
                error::fails_with(r, privilege_error(request.privilege@, text::texts(known@)))
            } else {
                match grantee_of(*request) {
                    Some(g) => r matches Ok(got) && got == g,
                    None => error::fails_with(r, grantee_error()),
                }
            },
        },
{
    match require(access) {
        Err(e) => { return Err(e); },
        Ok(()) => {},
    }
    if !text::holds(known, request.privilege.as_str()) {
        return Err(ApiError::bad_request(
            cat4(
                "unknown privilege ",
                quote(request.privilege.as_str()).as_str(),
                "; expected one of: ",
                join(known, ", ").as_str(),
            ).as_str(),
        ));
    }
    resolve_grantee(request)
}

// ---------------------------------------------------------------------------
// Effective permissions
// ---------------------------------------------------------------------------

/// Query parameters for the effective-permissions route.
#[derive(Debug)]
pub struct PermissionsQuery {
    /// ULID of the principal to inspect.
    pub principal: String,
}

/// One effective permission row.
#[derive(Debug)]
pub struct PermissionResponse {
    /// The privilege.
    pub privilege: String,
    /// Securable type of the grant.
    pub securable_type: String,
    /// Securable id of the grant.
    pub securable_id: String,
    /// `"direct"` or `"role:<name>"`.
    pub via: String,
}

/// Response body of the effective-permissions route.
#[derive(Debug)]
pub struct PermissionsResponse {
    /// The inspected principal.
    pub principal_id: String,
    /// Role memberships.
    pub roles: Vec<String>,
    /// Grants applying to the principal, directly or via roles.
    pub permissions: Vec<PermissionResponse>,
}

/// One grant that applies to a principal, as the store reports it.
#[derive(Debug)]
pub struct EffectivePermission {
    /// The privilege.
    pub privilege: String,
    /// Securable type of the grant.
    pub securable_type: String,
    /// Securable id of the grant.
    pub securable_id: String,
    /// The role that the grant comes through, if it does.
    pub via_role: Option<String>,
}

/// Whether `r` renders `p`.
pub open spec fn renders_permission(r: PermissionResponse, p: EffectivePermission) -> bool {
    &&& r.privilege == p.privilege
    &&& r.securable_type == p.securable_type
    &&& r.securable_id == p.securable_id
    &&& r.via@ == (match p.via_role {
        Some(role) => "role:"@ + role@,
        None => "direct"@,
    })
}

/// Renders a principal's effective permissions, in the store's order.
pub fn get_permissions(
    access: &Access,
    query: PermissionsQuery,
    roles: Vec<String>,
    permissions: Vec<EffectivePermission>,
) -> (r: Result<PermissionsResponse, ApiError>)
    ensures
        match access_error(*access) {
            Some(e) => error::fails_with(r, e),
            None => {
                &&& r matches Ok(body)
                &&& body.principal_id == query.principal
                &&& body.roles == roles
                &&& body.permissions@.len() == permissions@.len()
                &&& forall|i: int|
                    0 <= i < permissions@.len() ==> renders_permission(
                        #[trigger] body.permissions@[i],
                        permissions@[i],
                    )
            },
        },
{
    match require(access) {
        Err(e) => { return Err(e); },
        Ok(()) => {},
    }
    let mut out: Vec<PermissionResponse> = Vec::new();
    let ghost all = permissions@;
    for p in it: permissions
        invariant
            it.seq() == all,
            out@.len() == it.index(),
            forall|i: int| 0 <= i < out@.len() ==> renders_permission(#[trigger] out@[i], all[i]),
    {
        let via = match &p.via_role {
            Some(role) => cat2("role:", role.as_str()),
            None => "direct".to_owned(),
        };
        out.push(
            PermissionResponse {
                privilege: p.privilege,
                securable_type: p.securable_type,
                securable_id: p.securable_id,
                via,
            },
        );
    }
    Ok(PermissionsResponse { principal_id: query.principal, roles, permissions: out })
}

/// A securable is told by what its type takes: an asset by its own id, and
/// anything else from the warehouse down to it. It is settled under the id that
/// was found for the last of these, and only where all of them were found; one
/// that is not named is a bad request, and one that is not there is not found.
pub proof fn securables_are_settled(selector: SecurableSelector, facts: SecurableFacts)
    ensures
        ({
            let in_namespace = selector.warehouse is Some && facts.warehouse is Is && (selector.namespace matches Some(
                levels,
            ) && levels@.len() > 0) && facts.namespace is Is;
            match securable_step(selector, facts) {
                SecurableStepView::Ask(_) => true,
                SecurableStepView::Done(t, id) => match t {
                    SecurableType::Asset => selector.securable_type@ == "asset"@ && (selector.asset matches Some(a)
                        && a@.len() > 0) && (facts.asset matches Found::Is(found) && id == found@),
                    SecurableType::Warehouse => selector.securable_type@ == "warehouse"@ && selector.warehouse is Some && (
                    facts.warehouse matches Found::Is(found) && id == found@),
                    SecurableType::Namespace => selector.securable_type@ == "namespace"@ && in_namespace && (
                    facts.namespace matches Found::Is(found) && id == found@),
                    SecurableType::Table => selector.securable_type@ == "table"@ && in_namespace && (selector.table
                        matches Some(n) && n@.len() > 0) && (facts.table matches Found::Is(found) && id == found@),
                    SecurableType::View => selector.securable_type@ == "view"@ && in_namespace && (selector.view
                        matches Some(n) && n@.len() > 0) && (facts.view matches Found::Is(found) && id == found@),
                },
                SecurableStepView::Refuse(e) => {
                    ||| e.kind == ErrorKind::BadRequest
                    ||| e.kind == ErrorKind::NotFound && facts.asset is Missing
                    ||| e.kind == ErrorKind::NoSuchWarehouse && facts.warehouse is Missing
                    ||| e.kind == ErrorKind::NoSuchNamespace && facts.namespace is Missing
                    ||| e.kind == ErrorKind::NoSuchTable && facts.table is Missing
                    ||| e.kind == ErrorKind::NoSuchView && facts.view is Missing
                },
            }
        }),
{
    reveal_strlit("warehouse");
    reveal_strlit("namespace");
    reveal_strlit("table");
    reveal_strlit("view");
    reveal_strlit("asset");
    assert("warehouse"@.len() == 9 && "namespace"@.len() == 9 && "warehouse"@[0] == 'w' && "namespace"@[0] == 'n');
    assert("table"@.len() == 5 && "asset"@.len() == 5 && "table"@[0] == 't' && "asset"@[0] == 'a');
    assert("view"@.len() == 4);
}

/// A grant goes to a role or to a principal, whichever is named; a request that
/// names both or neither names no one.
pub proof fn grants_name_one_grantee(request: CreateGrantRequest)
    ensures
        match grantee_of(request) {
            Some(GranteeRef::Role(role)) => request.role == Some(role) && request.principal_id is None,
            Some(GranteeRef::Principal(id)) => request.principal_id == Some(id) && request.role is None,
            None => (request.role is Some) == (request.principal_id is Some),
        },
{
}

/// A role can be called anything of one to a hundred characters without a
/// control character.
pub proof fn role_names_are_judged(name: Seq<char>)
    ensures
        role_name_error(name) is None <==> 1 <= name.len() <= 100 && forall|i: int|
            0 <= i < name.len() ==> !text::is_control_char(#[trigger] name[i]),
        role_name_error(name) matches Some(e) ==> e.kind == ErrorKind::BadRequest,
{
}

/// Access that was not granted is an error: a refusal is forbidden, with what it
/// says, and a failure of the store is the store's.
pub proof fn refusals_are_told(access: Access)
    ensures
        access_error(access) is None <==> access is Granted,
        access matches Access::Forbidden(message) ==> (access_error(access) matches Some(e) && e.kind
            == ErrorKind::Forbidden && e.message == message@),
{
}

} // verus!
