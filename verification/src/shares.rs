//! Sharing with outside recipients: the shares and their grants, the
//! marketplace, and the read-only catalog that a share's token opens.

use vstd::prelude::*;

use crate::assets::AccessMode;
use crate::error;
use crate::error::{ApiError, ErrorKind};
use crate::grants;
use crate::grants::{require, Access, Found};
use crate::ids;
use crate::ids::fresh_uuid;
use crate::levels;
use crate::levels::sorted_paths;
use crate::limits;
use crate::limits::clamp;
use crate::metadata::{copy_opt, Schema, SchemaField};
use crate::namespaces;
use crate::namespaces::decode_namespace_param;
use crate::tables;
use crate::tables::{current_metadata_unreadable, no_such_table};
use crate::text;
use crate::text::{after_prefix, blank, cat2, lowercase, same, same_texts, trim};
use crate::textmap;
use crate::textmap::TextMap;

verus! {

// ---------------------------------------------------------------------------
// Shares
// ---------------------------------------------------------------------------

/// A share, as the store keeps it.
#[derive(Debug)]
pub struct ShareRecord {
    /// ULID of the share.
    pub id: String,
    /// The workspace it belongs to.
    pub workspace_id: String,
    /// Its name.
    pub name: String,
    /// Who it is for.
    pub recipient: String,
    /// The token that opens it.
    pub token: String,
    /// Who made it.
    pub created_by: String,
    /// Whether it was revoked.
    pub revoked: bool,
    /// When it was revoked, rendered.
    pub revoked_at: Option<String>,
    /// The terms that the recipient must accept.
    pub terms: Option<String>,
    /// When the recipient accepted them, rendered.
    pub terms_accepted_at: Option<String>,
    /// When it was made, rendered.
    pub created_at: String,
}

/// A share, as the management API renders it.
#[derive(Debug)]
pub struct ShareResponse {
    /// ULID of the share.
    pub id: String,
    /// Its name.
    pub name: String,
    /// Who it is for.
    pub recipient: String,
    /// Who made it.
    pub created_by: String,
    /// Whether it was revoked.
    pub revoked: bool,
    /// When it was revoked.
    pub revoked_at: Option<String>,
    /// Whether it has terms.
    pub has_terms: bool,
    /// Whether they were accepted.
    pub terms_accepted: bool,
    /// When they were accepted.
    pub terms_accepted_at: Option<String>,
    /// When it was made.
    pub created_at: String,
    /// The token; only in the answer to its creation.
    pub token: Option<String>,
}

/// Whether `r` renders `share`.
pub open spec fn renders_share(r: ShareResponse, share: ShareRecord, include_token: bool) -> bool {
    &&& r.id == share.id
    &&& r.name == share.name
    &&& r.recipient == share.recipient
    &&& r.created_by == share.created_by
    &&& r.revoked == share.revoked
    &&& r.revoked_at == share.revoked_at
    &&& r.has_terms == share.terms is Some
    &&& r.terms_accepted == share.terms_accepted_at is Some
    &&& r.terms_accepted_at == share.terms_accepted_at
    &&& r.created_at == share.created_at
    &&& r.token == (if include_token { Some(share.token) } else { None })
}

/// Renders a share. Its token is told only where that is asked for, which only
/// the answer to its creation does.
pub fn share_json(share: &ShareRecord, include_token: bool) -> (r: ShareResponse)
    ensures
        renders_share(r, *share, include_token),
{
    ShareResponse {
        id: share.id.clone(),
        name: share.name.clone(),
        recipient: share.recipient.clone(),
        created_by: share.created_by.clone(),
        revoked: share.revoked,
        revoked_at: copy_opt(&share.revoked_at),
        has_terms: share.terms.is_some(),
        terms_accepted: share.terms_accepted_at.is_some(),
        terms_accepted_at: copy_opt(&share.terms_accepted_at),
        created_at: share.created_at.clone(),
        token: if include_token { Some(share.token.clone()) } else { None },
    }
}

/// A fresh token: 64 lower-case hex digits.
pub fn generate_token() -> (r: String)
    ensures
        ids::is_hex_text(r@, 64),
{
    let a = fresh_uuid();
    let b = fresh_uuid();
    cat2(a.as_str(), b.as_str())
}

/// Request body to create a share.
#[derive(Debug)]
pub struct CreateShareRequest {
    /// Its name.
    pub name: String,
    /// Who it is for.
    pub recipient: String,
    /// The terms that the recipient must accept.
    pub terms: Option<String>,
}

/// A share to create.
#[derive(Debug)]
pub struct NewShare {
    /// Its name.
    pub name: String,
    /// Who it is for.
    pub recipient: String,
    /// The token that opens it.
    pub token: String,
    /// The terms that the recipient must accept.
    pub terms: Option<String>,
}

/// A text that is given and not blank, as it is given.
pub open spec fn unless_blank(s: Option<String>) -> Option<Seq<char>> {
    match s {
        Some(t) => if text::is_blank(t@) { None } else { Some(t@) },
        None => None,
    }
}

fn not_blank(s: &Option<String>) -> (r: Option<String>)
    ensures
        text::opt_text(r) == unless_blank(*s),
{
    match s {
        Some(t) => if blank(t.as_str()) { None } else { Some(t.clone()) },
        None => None,
    }
}

/// The refusal of a share.
pub open spec fn share_error(access: Access, body: CreateShareRequest) -> Option<error::ErrorView> {
    match grants::access_error(access) {
        Some(e) => Some(e),
        None => if text::is_blank(body.name@) {
            Some(error::bad_request("share name must not be empty"@))
        } else if text::is_blank(body.recipient@) {
            Some(error::bad_request("share recipient must not be empty"@))
        } else {
            None
        },
    }
}

/// Admits a new share, under a fresh token.
pub fn create_share(access: &Access, body: &CreateShareRequest) -> (r: Result<NewShare, ApiError>)
    ensures
        match share_error(*access, *body) {
            Some(e) => error::fails_with(r, e),
            None => {
                &&& r matches Ok(share)
                &&& share.name@ == text::trimmed(body.name@)
                &&& share.recipient@ == text::trimmed(body.recipient@)
                &&& ids::is_hex_text(share.token@, 64)
                &&& text::opt_text(share.terms) == unless_blank(body.terms)
            },
        },
{
    match require(access) {
        Err(e) => { return Err(e); },
        Ok(()) => {},
    }
    if blank(body.name.as_str()) {
        return Err(ApiError::bad_request("share name must not be empty"));
    }
    if blank(body.recipient.as_str()) {
        return Err(ApiError::bad_request("share recipient must not be empty"));
    }
    Ok(
        NewShare {
            name: trim(body.name.as_str()).to_owned(),
            recipient: trim(body.recipient.as_str()).to_owned(),
            token: generate_token(),
            terms: not_blank(&body.terms),
        },
    )
}

/// Query parameters of the share list.
#[derive(Debug)]
pub struct ListSharesQuery {
    /// Only shares after this one.
    pub after: Option<String>,
    /// How many.
    pub limit: Option<i64>,
}

/// How many shares to list: 100, or as many as are asked for from 1 to 500.
pub fn list_shares(access: &Access, query: &ListSharesQuery) -> (r: Result<i64, ApiError>)
    ensures
        match grants::access_error(*access) {
            Some(e) => error::fails_with(r, e),
            None => r matches Ok(n) && n == limits::clamped(query.limit, 100, 1, 500),
        },
{
    match require(access) {
        Err(e) => Err(e),
        Ok(()) => Ok(clamp(query.limit, 100, 1, 500)),
    }
}

/// Shows a manager the share of an id, where it belongs to the workspace.
pub fn get_share<'a>(access: &Access, workspace_id: &str, found: &'a Option<ShareRecord>) -> (r: Result<
    &'a ShareRecord,
    ApiError,
>)
    ensures
        match grants::access_error(*access) {
            Some(e) => error::fails_with(r, e),
            None => match found {
                Some(share) => if share.workspace_id@ == workspace_id@ {
                    r matches Ok(got) && *got == *share
                } else {
                    error::fails_with(r, error::not_found("share not found"@))
                },
                None => error::fails_with(r, error::not_found("share not found"@)),
            },
        },
{
    match require(access) {
        Err(e) => { return Err(e); },
        Ok(()) => {},
    }
    match found {
        Some(share) => if same(share.workspace_id.as_str(), workspace_id) {
            Ok(share)
        } else {
            Err(ApiError::not_found("share not found"))
        },
        None => Err(ApiError::not_found("share not found")),
    }
}

/// Request body to add a grant to a share.
#[derive(Debug)]
pub struct AddGrantRequest {
    /// `table`, `view`, or `data_product`.
    pub securable_kind: String,
    /// What is shared.
    pub securable_ref: String,
    /// The rows that the recipient is to keep to.
    pub row_filter: Option<String>,
    /// The columns that the recipient does not see.
    pub column_mask: Option<Vec<String>>,
}

/// Admits a new grant, and gives the row filter to record.
pub fn add_grant(access: &Access, body: &AddGrantRequest) -> (r: Result<Option<String>, ApiError>)
    ensures
        match grants::access_error(*access) {
            Some(e) => error::fails_with(r, e),
            None => if body.securable_kind@ == "table"@ || body.securable_kind@ == "view"@ || body.securable_kind@
                == "data_product"@ {
                r matches Ok(filter) && text::opt_text(filter) == unless_blank(body.row_filter)
            } else {
                error::fails_with(
                    r,
                    error::bad_request("securable_kind must be one of: table, view, data_product"@),
                )
            },
        },
{
    match require(access) {
        Err(e) => { return Err(e); },
        Ok(()) => {},
    }
    let kind = body.securable_kind.as_str();
    if !(same(kind, "table") || same(kind, "view") || same(kind, "data_product")) {
        return Err(ApiError::bad_request("securable_kind must be one of: table, view, data_product"));
    }
    Ok(not_blank(&body.row_filter))
}

// ---------------------------------------------------------------------------
// Marketplace
// ---------------------------------------------------------------------------

/// A data product of the gallery.
#[derive(Debug)]
pub struct GalleryProduct {
    /// ULID of the product.
    pub id: String,
    /// Its name.
    pub name: String,
    /// How far it is certified.
    pub certification: String,
    /// The rest of its entry, rendered.
    pub entry: String,
}

/// Whether a product is certified.
pub open spec fn is_certified(p: GalleryProduct) -> bool {
    p.certification@ == "certified"@
}

/// The gallery, for a manager: the certified products first, each block in the
/// order it had.
pub fn marketplace_products(access: &Access, products: Vec<GalleryProduct>) -> (r: Result<
    Vec<GalleryProduct>,
    ApiError,
>)
    ensures
        match grants::access_error(*access) {
            Some(e) => error::fails_with(r, e),
            None => r matches Ok(shown) && shown@ == products@.filter(|p: GalleryProduct| is_certified(p))
                + products@.filter(|p: GalleryProduct| !is_certified(p)),
        },
{
    match require(access) {
        Err(e) => { return Err(e); },
        Ok(()) => {},
    }
    let ghost yes = |p: GalleryProduct| is_certified(p);
    let ghost no = |p: GalleryProduct| !is_certified(p);
    let mut certified: Vec<GalleryProduct> = Vec::new();
    let mut others: Vec<GalleryProduct> = Vec::new();
    let ghost all = products@;
    proof {
        reveal(Seq::filter);
    }
    for p in it: products
        invariant
            it.seq() == all,
            yes == (|p: GalleryProduct| is_certified(p)),
            no == (|p: GalleryProduct| !is_certified(p)),
            certified@ == all.take(it.index()).filter(yes),
            others@ == all.take(it.index()).filter(no),
    {
        proof {
            reveal(Seq::filter);
        }
        assert(all.take(it.index() + 1).drop_last() =~= all.take(it.index()));
        if same(p.certification.as_str(), "certified") {
            certified.push(p);
        } else {
            others.push(p);
        }
    }
    assert(all.take(all.len() as int) =~= all);
    certified.append(&mut others);
    Ok(certified)
}

/// Request body to ask for access.
#[derive(Debug)]
pub struct RequestAccessRequest {
    /// `warehouse`, `namespace`, `table`, or `view`.
    pub securable_type: String,
    /// What access is asked for to.
    pub securable_id: String,
    /// The privilege that is asked for.
    pub privilege: String,
    /// What for.
    pub purpose: String,
    /// For how many seconds.
    pub ttl_seconds: Option<i64>,
}

/// The privilege that is asked for where none is named.
pub fn default_privilege() -> (r: String)
    ensures
        r@ == "READ"@,
{
    "READ".to_owned()
}

/// The refusal of a request for access.
pub open spec fn access_request_error(body: RequestAccessRequest) -> Option<error::ErrorView> {
    let kind = body.securable_type@;
    if !(kind == "warehouse"@ || kind == "namespace"@ || kind == "table"@ || kind == "view"@) {
        Some(error::bad_request("securable_type must be one of: warehouse, namespace, table, view"@))
    } else if text::is_blank(body.purpose@) {
        Some(error::bad_request("purpose must not be empty"@))
    } else if body.ttl_seconds matches Some(ttl) && ttl <= 0 {
        Some(error::bad_request("ttl_seconds must be positive"@))
    } else {
        None
    }
}

/// Admits a request for access, of any caller, and gives the purpose to
/// record.
pub fn request_access(body: &RequestAccessRequest) -> (r: Result<String, ApiError>)
    ensures
        match access_request_error(*body) {
            Some(e) => error::fails_with(r, e),
            None => r matches Ok(purpose) && purpose@ == text::trimmed(body.purpose@),
        },
{
    let kind = body.securable_type.as_str();
    if !(same(kind, "warehouse") || same(kind, "namespace") || same(kind, "table") || same(kind, "view")) {
        return Err(ApiError::bad_request("securable_type must be one of: warehouse, namespace, table, view"));
    }
    if blank(body.purpose.as_str()) {
        return Err(ApiError::bad_request("purpose must not be empty"));
    }
    let bad_ttl = match body.ttl_seconds {
        Some(ttl) => ttl <= 0,
        None => false,
    };
    if bad_ttl {
        return Err(ApiError::bad_request("ttl_seconds must be positive"));
    }
    Ok(trim(body.purpose.as_str()).to_owned())
}

/// Query parameters of the list of requests.
#[derive(Debug)]
pub struct ListRequestsQuery {
    /// Only those in this state.
    pub state: Option<String>,
    /// Only those before this one.
    pub before: Option<String>,
    /// How many.
    pub limit: Option<i64>,
}

/// Reads the query of the list of requests: the state, where one is named, and
/// the number.
pub fn list_requests(access: &Access, query: &ListRequestsQuery) -> (r: Result<(Option<String>, i64), ApiError>)
    ensures
        match grants::access_error(*access) {
            Some(e) => error::fails_with(r, e),
            None => r matches Ok(got) && text::opt_text(got.0) == grants::given(query.state) && got.1
                == limits::clamped(query.limit, 100, 1, 500),
        },
{
    match require(access) {
        Err(e) => { return Err(e); },
        Ok(()) => {},
    }
    let state = match &query.state {
        Some(s) => if s.as_str().is_empty() { None } else { Some(s.clone()) },
        None => None,
    };
    Ok((state, clamp(query.limit, 100, 1, 500)))
}

/// Request body to decide a request.
#[derive(Debug)]
pub struct DecideRequest {
    /// Whether it is granted.
    pub approve: bool,
    /// Why.
    pub reason: Option<String>,
}

/// Admits a decision, and gives the reason to record.
pub fn decide_request(access: &Access, body: &DecideRequest) -> (r: Result<Option<String>, ApiError>)
    ensures
        match grants::access_error(*access) {
            Some(e) => error::fails_with(r, e),
            None => r matches Ok(reason) && text::opt_text(reason) == unless_blank(body.reason),
        },
{
    match require(access) {
        Err(e) => Err(e),
        Ok(()) => Ok(not_blank(&body.reason)),
    }
}

// ---------------------------------------------------------------------------
// The recipient's catalog
// ---------------------------------------------------------------------------

/// Whether the recipient has still to accept the terms.
pub open spec fn terms_outstanding(share: ShareRecord) -> bool {
    share.terms is Some && share.terms_accepted_at is None
}

impl ShareRecord {
    /// Whether the recipient has still to accept the terms.
    pub fn needs_terms_acceptance(&self) -> (r: bool)
        ensures
            r == terms_outstanding(*self),
    {
        self.terms.is_some() && self.terms_accepted_at.is_none()
    }
}

/// The refusal of a token: nothing has it, or its share was revoked.
pub open spec fn token_error(found: Option<ShareRecord>) -> Option<error::ErrorView> {
    match found {
        None => Some(error::error_of(ErrorKind::NotAuthorized, "invalid share token"@)),
        Some(share) => if share.revoked {
            Some(error::error_of(ErrorKind::Forbidden, "this share has been revoked"@))
        } else {
            None
        },
    }
}

/// The answer to a token that no share has.
fn unknown_token() -> (r: ApiError)
    ensures
        Some(r@) == token_error(None),
{
    ApiError::new(ErrorKind::NotAuthorized, "invalid share token")
}

/// The answer to the token of a revoked share.
fn revoked() -> (r: ApiError)
    ensures
        r@ == error::error_of(ErrorKind::Forbidden, "this share has been revoked"@),
{
    ApiError::new(ErrorKind::Forbidden, "this share has been revoked")
}

/// The share that a token opens.
pub fn resolve_share_token<'a>(found: &'a Option<ShareRecord>) -> (r: Result<&'a ShareRecord, ApiError>)
    ensures
        match token_error(*found) {
            Some(e) => error::fails_with(r, e),
            None => r matches Ok(share) && *found == Some(*share),
        },
{
    match found {
        None => Err(unknown_token()),
        Some(share) => if share.revoked {
            Err(revoked())
        } else {
            Ok(share)
        },
    }
}

/// The refusal of a share whose terms are outstanding.
pub open spec fn terms_error() -> error::ErrorView {
    error::error_of(
        ErrorKind::Forbidden,
        "the terms of this share must be accepted before data is served; POST /share/{token}/terms/accept"@,
    )
}

/// Goes on only where no terms are outstanding.
pub fn require_servable(share: &ShareRecord) -> (r: Result<(), ApiError>)
    ensures
        if terms_outstanding(*share) {
            error::fails_with(r, terms_error())
        } else {
            r is Ok
        },
{
    if share.needs_terms_acceptance() {
        return Err(ApiError::new(
            ErrorKind::Forbidden,
            "the terms of this share must be accepted before data is served; POST /share/{token}/terms/accept",
        ));
    }
    Ok(())
}

/// The refusal of data: of the token, or because terms are outstanding.
pub open spec fn data_error(found: Option<ShareRecord>) -> Option<error::ErrorView> {
    match token_error(found) {
        Some(e) => Some(e),
        None => if terms_outstanding(found->0) {
            Some(terms_error())
        } else {
            None
        },
    }
}

/// Goes on only where the share serves data.
fn require_open(share: &ShareRecord) -> (r: Result<(), ApiError>)
    ensures
        match data_error(Some(*share)) {
            Some(e) => error::fails_with(r, e),
            None => r is Ok,
        },
{
    if share.revoked {
        return Err(revoked());
    }
    require_servable(share)
}

/// The recipient's name in the audit trail.
pub fn recipient_principal(share: &ShareRecord) -> (r: String)
    ensures
        r@ == "recipient:"@ + share.recipient@,
{
    cat2("recipient:", share.recipient.as_str())
}

/// What the audit trail keeps of an access of a recipient, beside its details.
#[derive(Debug)]
pub struct RecipientRecord {
    /// The share that was used.
    pub resource: String,
    /// Who used it.
    pub principal: String,
    /// What was done; the published event is of the same name.
    pub action: String,
}

/// The record of an access of a recipient.
pub fn audit_recipient_access(share: &ShareRecord, action: &str) -> (r: RecipientRecord)
    ensures
        r.resource@ == "share:"@ + share.id@,
        r.principal@ == "recipient:"@ + share.recipient@,
        r.action@ == "share.recipient."@ + action@,
{
    RecipientRecord {
        resource: cat2("share:", share.id.as_str()),
        principal: recipient_principal(share),
        action: cat2("share.recipient.", action),
    }
}

/// The subject under which the recipient's credentials are vended.
pub fn recipient_synthetic_principal(share: &ShareRecord) -> (r: String)
    ensures
        r@ == "share-recipient:"@ + share.recipient@,
{
    cat2("share-recipient:", share.recipient.as_str())
}

/// The overrides of a recipient's configuration: one catalog without a prefix,
/// and a note where terms are outstanding.
pub open spec fn recipient_overrides(share: ShareRecord) -> Map<Seq<char>, Seq<char>> {
    let base = Map::empty().insert("prefix"@, ""@);
    if terms_outstanding(share) {
        base.insert("terms-required"@, "true"@)
    } else {
        base
    }
}

/// The next step of a recipient's configuration.
#[derive(Debug)]
pub enum RecipientConfigStep {
    /// Look up the share of the token.
    AskShare,
    /// Record the access.
    Record,
    /// Answer with these overrides.
    Answer(TextMap<String>),
}

/// Takes the next step of a recipient's configuration. It is answered also
/// while terms are outstanding, so that the recipient learns of them.
pub fn recipient_config(share: &Found<ShareRecord>, recorded: bool) -> (r: Result<RecipientConfigStep, ApiError>)
    ensures
        if *share is Unasked {
            r == Ok::<RecipientConfigStep, ApiError>(RecipientConfigStep::AskShare)
        } else {
            match token_error(share_found(*share)) {
                Some(e) => error::fails_with(r, e),
                None => if !recorded {
                    r == Ok::<RecipientConfigStep, ApiError>(RecipientConfigStep::Record)
                } else {
                    r matches Ok(RecipientConfigStep::Answer(map)) && textmap::text_values(map@)
                        == recipient_overrides(share->Is_0)
                },
            }
        },
{
    let share = match share {
        Found::Unasked => { return Ok(RecipientConfigStep::AskShare); },
        Found::Missing => { return Err(unknown_token()); },
        Found::Is(share) => share,
    };
    if share.revoked {
        return Err(revoked());
    }
    if !recorded {
        return Ok(RecipientConfigStep::Record);
    }
    let base = TextMap::new().with("prefix", "".to_owned());
    assert(textmap::text_values(base@) =~= Map::<Seq<char>, Seq<char>>::empty().insert("prefix"@, ""@));
    if share.needs_terms_acceptance() {
        let ghost before = base@;
        let map = base.with("terms-required", "true".to_owned());
        assert(textmap::text_values(map@) =~= textmap::text_values(before).insert("terms-required"@, "true"@));
        Ok(RecipientConfigStep::Answer(map))
    } else {
        Ok(RecipientConfigStep::Answer(base))
    }
}

/// The terms of a share, as its recipient reads them.
#[derive(Debug)]
pub struct TermsResponse {
    /// The name of the share.
    pub name: String,
    /// The recipient.
    pub recipient: String,
    /// The terms, where there are some.
    pub terms: Option<String>,
    /// Whether they were accepted.
    pub terms_accepted: bool,
}

/// The next step of reading a share's terms.
#[derive(Debug)]
pub enum TermsStep {
    /// Look up the share of the token.
    AskShare,
    /// Record the access.
    Record,
    /// Answer with these.
    Answer(TermsResponse),
}

/// What is next of a request about a share's terms.
pub enum TermsAsk {
    /// The share.
    Share,
    /// The record of the access.
    Record,
    /// The terms.
    Terms,
}

/// What is next of a request about a share's terms. It is served also while
/// the terms are outstanding.
pub open spec fn terms_ask(share: Found<ShareRecord>, recorded: bool) -> Result<TermsAsk, error::ErrorView> {
    if share is Unasked {
        Ok(TermsAsk::Share)
    } else {
        match token_error(share_found(share)) {
            Some(e) => Err(e),
            None => if recorded {
                Ok(TermsAsk::Terms)
            } else {
                Ok(TermsAsk::Record)
            },
        }
    }
}

/// Takes the next step of reading a share's terms, which can be read before
/// they are accepted.
pub fn get_terms(share: &Found<ShareRecord>, recorded: bool) -> (r: Result<TermsStep, ApiError>)
    ensures
        match terms_ask(*share, recorded) {
            Err(e) => error::fails_with(r, e),
            Ok(TermsAsk::Share) => r == Ok::<TermsStep, ApiError>(TermsStep::AskShare),
            Ok(TermsAsk::Record) => r == Ok::<TermsStep, ApiError>(TermsStep::Record),
            Ok(TermsAsk::Terms) => r matches Ok(TermsStep::Answer(a)) && {
                &&& a.name@ == share->Is_0.name@
                &&& a.recipient@ == share->Is_0.recipient@
                &&& text::opt_text(a.terms) == text::opt_text(share->Is_0.terms)
                &&& a.terms_accepted == share->Is_0.terms_accepted_at is Some
            },
        },
{
    let share = match share {
        Found::Unasked => { return Ok(TermsStep::AskShare); },
        Found::Missing => { return Err(unknown_token()); },
        Found::Is(share) => share,
    };
    if share.revoked {
        return Err(revoked());
    }
    if !recorded {
        return Ok(TermsStep::Record);
    }
    Ok(
        TermsStep::Answer(
            TermsResponse {
                name: share.name.clone(),
                recipient: share.recipient.clone(),
                terms: copy_opt(&share.terms),
                terms_accepted: share.terms_accepted_at.is_some(),
            },
        ),
    )
}

/// What a recipient is told of terms that were accepted.
#[derive(Debug)]
pub struct AcceptedResponse {
    /// The name of the share.
    pub name: String,
    /// Whether its terms are accepted.
    pub terms_accepted: bool,
    /// Since when.
    pub terms_accepted_at: Option<String>,
}

/// The next step of accepting a share's terms.
#[derive(Debug)]
pub enum AcceptStep {
    /// Look up the share of the token.
    AskShare,
    /// Record the access.
    Record,
    /// Mark the terms of this share accepted; once they are, that changes
    /// nothing.
    Accept(String),
    /// Answer with this.
    Answer(AcceptedResponse),
}

/// Takes the next step of accepting a share's terms; `accepted` is the share
/// afterwards, once it was marked.
pub fn accept_terms(share: &Found<ShareRecord>, recorded: bool, accepted: &Option<ShareRecord>) -> (r: Result<
    AcceptStep,
    ApiError,
>)
    ensures
        match terms_ask(*share, recorded) {
            Err(e) => error::fails_with(r, e),
            Ok(TermsAsk::Share) => r == Ok::<AcceptStep, ApiError>(AcceptStep::AskShare),
            Ok(TermsAsk::Record) => r == Ok::<AcceptStep, ApiError>(AcceptStep::Record),
            Ok(TermsAsk::Terms) => match *accepted {
                None => r matches Ok(AcceptStep::Accept(id)) && id@ == share->Is_0.id@,
                Some(after) => r matches Ok(AcceptStep::Answer(a)) && {
                    &&& a.name@ == after.name@
                    &&& a.terms_accepted == after.terms_accepted_at is Some
                    &&& text::opt_text(a.terms_accepted_at) == text::opt_text(after.terms_accepted_at)
                },
            },
        },
{
    let share = match share {
        Found::Unasked => { return Ok(AcceptStep::AskShare); },
        Found::Missing => { return Err(unknown_token()); },
        Found::Is(share) => share,
    };
    if share.revoked {
        return Err(revoked());
    }
    if !recorded {
        return Ok(AcceptStep::Record);
    }
    match accepted {
        None => Ok(AcceptStep::Accept(share.id.clone())),
        Some(after) => Ok(
            AcceptStep::Answer(
                AcceptedResponse {
                    name: after.name.clone(),
                    terms_accepted: after.terms_accepted_at.is_some(),
                    terms_accepted_at: copy_opt(&after.terms_accepted_at),
                },
            ),
        ),
    }
}

/// The routes that a recipient's catalog offers: only those that read.
pub fn recipient_endpoints() -> (r: Vec<String>)
    ensures
        text::texts(r@) == recipient_routes(),
{
    let mut out: Vec<String> = Vec::new();
    out.push("GET /v1/{prefix}/namespaces".to_owned());
    out.push("GET /v1/{prefix}/namespaces/{namespace}".to_owned());
    out.push("HEAD /v1/{prefix}/namespaces/{namespace}".to_owned());
    out.push("GET /v1/{prefix}/namespaces/{namespace}/tables".to_owned());
    out.push("GET /v1/{prefix}/namespaces/{namespace}/tables/{table}".to_owned());
    out.push("HEAD /v1/{prefix}/namespaces/{namespace}/tables/{table}".to_owned());
    assert(text::texts(out@) =~= recipient_routes());
    out
}

/// The routes that a recipient's catalog offers.
pub open spec fn recipient_routes() -> Seq<Seq<char>> {
    seq![
        "GET /v1/{prefix}/namespaces"@,
        "GET /v1/{prefix}/namespaces/{namespace}"@,
        "HEAD /v1/{prefix}/namespaces/{namespace}"@,
        "GET /v1/{prefix}/namespaces/{namespace}/tables"@,
        "GET /v1/{prefix}/namespaces/{namespace}/tables/{table}"@,
        "HEAD /v1/{prefix}/namespaces/{namespace}/tables/{table}"@,
    ]
}

/// Every route that a recipient's catalog offers only reads.
pub proof fn recipients_only_read(i: int)
    requires
        0 <= i < recipient_routes().len(),
    ensures
        "GET "@.is_prefix_of(recipient_routes()[i]) || "HEAD "@.is_prefix_of(recipient_routes()[i]),
{
    reveal_strlit("GET ");
    reveal_strlit("HEAD ");
    reveal_strlit("GET /v1/{prefix}/namespaces");
    reveal_strlit("GET /v1/{prefix}/namespaces/{namespace}");
    reveal_strlit("HEAD /v1/{prefix}/namespaces/{namespace}");
    reveal_strlit("GET /v1/{prefix}/namespaces/{namespace}/tables");
    reveal_strlit("GET /v1/{prefix}/namespaces/{namespace}/tables/{table}");
    reveal_strlit("HEAD /v1/{prefix}/namespaces/{namespace}/tables/{table}");
    let route = recipient_routes()[i];
    if i == 0 || i == 1 || i == 3 || i == 4 {
        assert("GET "@ =~= route.subrange(0, 4));
    } else {
        assert("HEAD "@ =~= route.subrange(0, 5));
    }
}

/// The answer to any write on a share.
pub fn recipient_write_rejected() -> (r: ApiError)
    ensures
        r@ == error::error_of(
            ErrorKind::Forbidden,
            "shared assets are read-only; writes are not permitted on a share endpoint"@,
        ),
{
    ApiError::new(
        ErrorKind::Forbidden,
        "shared assets are read-only; writes are not permitted on a share endpoint",
    )
}

// ---------------------------------------------------------------------------
// What a share grants
// ---------------------------------------------------------------------------

/// A member of a data product.
#[derive(Debug)]
pub struct ProductMember {
    /// What it is.
    pub member_kind: String,
    /// Which one.
    pub member_ref: String,
}

/// A grant of a share.
#[derive(Debug)]
pub struct ShareGrant {
    /// What is shared: `table`, `view`, or `data_product`.
    pub securable_kind: String,
    /// Which one.
    pub securable_ref: String,
    /// The rows that the recipient is to keep to.
    pub row_filter: Option<String>,
    /// The columns that the recipient does not see.
    pub column_mask: Option<Vec<String>>,
    /// The members of the data product, where one is shared.
    pub members: Vec<ProductMember>,
}

/// The product whose members to look up for a grant.
pub fn product_of<'a>(grant: &'a ShareGrant) -> (r: Option<&'a str>)
    ensures
        r is Some == (grant.securable_kind@ == "data_product"@),
        r matches Some(id) ==> id@ == (if "data_product:"@.is_prefix_of(grant.securable_ref@) {
            grant.securable_ref@.skip("data_product:"@.len() as int)
        } else {
            grant.securable_ref@
        }),
{
    if same(grant.securable_kind.as_str(), "data_product") {
        match after_prefix(grant.securable_ref.as_str(), "data_product:") {
            Some(id) => Some(id),
            None => Some(grant.securable_ref.as_str()),
        }
    } else {
        None
    }
}

/// The table that a reference names.
pub open spec fn table_in(reference: Seq<char>) -> Option<Seq<char>> {
    if "table:"@.is_prefix_of(reference) {
        Some(reference.skip("table:"@.len() as int))
    } else {
        None
    }
}

/// The table that a member of a product is.
pub open spec fn member_table(m: ProductMember) -> Option<Seq<char>> {
    if m.member_kind@ == "table"@ {
        table_in(m.member_ref@)
    } else {
        None
    }
}

/// The table that a grant shares directly.
pub open spec fn direct_table(g: ShareGrant) -> Option<Seq<char>> {
    if g.securable_kind@ == "table"@ {
        table_in(g.securable_ref@)
    } else {
        None
    }
}

/// The granted tables once the members of a product were taken in: one that is
/// granted already keeps its grant.
pub open spec fn with_members(
    map: Map<Seq<char>, usize>,
    members: Seq<ProductMember>,
    grant: usize,
) -> Map<Seq<char>, usize>
    decreases members.len(),
{
    if members.len() == 0 {
        map
    } else {
        let earlier = with_members(map, members.drop_last(), grant);
        match member_table(members.last()) {
            Some(id) => if earlier.dom().contains(id) { earlier } else { earlier.insert(id, grant) },
            None => earlier,
        }
    }
}

/// The tables that the first grants share, each with the place of its grant.
pub open spec fn granted(all: Seq<ShareGrant>) -> Map<Seq<char>, usize>
    decreases all.len(),
{
    if all.len() == 0 {
        Map::empty()
    } else {
        let earlier = granted(all.drop_last());
        let g = all.last();
        let place = (all.len() - 1) as usize;
        if g.securable_kind@ == "table"@ {
            match direct_table(g) {
                Some(id) => earlier.insert(id, place),
                None => earlier,
            }
        } else if g.securable_kind@ == "data_product"@ {
            with_members(earlier, g.members@, place)
        } else {
            earlier
        }
    }
}

fn take_members(map: TextMap<usize>, members: &Vec<ProductMember>, grant: usize) -> (r: TextMap<usize>)
    ensures
        r@ == with_members(map@, members@, grant),
{
    let mut out = map;
    let mut i: usize = 0;
    assert(members@.take(0) =~= Seq::<ProductMember>::empty());
    while i < members.len()
        invariant
            i <= members@.len(),
            out@ == with_members(map@, members@.take(i as int), grant),
        decreases members@.len() - i,
    {
        assert(members@.take(i + 1).drop_last() =~= members@.take(i as int));
        let m = &members[i];
        if same(m.member_kind.as_str(), "table") {
            match after_prefix(m.member_ref.as_str(), "table:") {
                Some(id) => {
                    if !out.has(id) {
                        out = out.with(id, grant);
                    }
                },
                None => {},
            }
        }
        i = i + 1;
    }
    assert(members@.take(members@.len() as int) =~= members@);
    out
}

/// The tables that a share grants, each with the place of its grant. A grant
/// of the table itself goes before one of a product that it is in.
pub fn resolve_grants(all: &Vec<ShareGrant>) -> (r: TextMap<usize>)
    ensures
        r@ == granted(all@),
{
    let mut map: TextMap<usize> = TextMap::new();
    let mut i: usize = 0;
    assert(all@.take(0) =~= Seq::<ShareGrant>::empty());
    while i < all.len()
        invariant
            i <= all@.len(),
            map@ == granted(all@.take(i as int)),
        decreases all@.len() - i,
    {
        assert(all@.take(i + 1).drop_last() =~= all@.take(i as int));
        let g = &all[i];
        if same(g.securable_kind.as_str(), "table") {
            match after_prefix(g.securable_ref.as_str(), "table:") {
                Some(id) => {
                    map = map.with(id, i);
                },
                None => {},
            }
        } else if same(g.securable_kind.as_str(), "data_product") {
            map = take_members(map, &g.members, i);
        }
        i = i + 1;
    }
    assert(all@.take(all@.len() as int) =~= all@);
    map
}

/// Whether a grant shares a table: directly, or as a member of its product.
pub open spec fn shares_table(g: ShareGrant, id: Seq<char>) -> bool {
    ||| direct_table(g) == Some(id)
    ||| g.securable_kind@ == "data_product"@ && exists|j: int|
        0 <= j < g.members@.len() && #[trigger] member_table(g.members@[j]) == Some(id)
}

proof fn members_only_add(map: Map<Seq<char>, usize>, members: Seq<ProductMember>, grant: usize, id: Seq<char>)
    ensures
        map.dom().contains(id) ==> with_members(map, members, grant).dom().contains(id) && with_members(
            map,
            members,
            grant,
        )[id] == map[id],
        with_members(map, members, grant).dom().contains(id) && !map.dom().contains(id) ==> with_members(
            map,
            members,
            grant,
        )[id] == grant && exists|j: int|
            0 <= j < members.len() && #[trigger] member_table(members[j]) == Some(id),
    decreases members.len(),
{
    if members.len() > 0 {
        members_only_add(map, members.drop_last(), grant, id);
        let earlier = with_members(map, members.drop_last(), grant);
        if with_members(map, members, grant).dom().contains(id) && !map.dom().contains(id) {
            if earlier.dom().contains(id) {
                let j = choose|j: int|
                    0 <= j < members.drop_last().len() && #[trigger] member_table(members.drop_last()[j]) == Some(id);
                assert(member_table(members[j]) == Some(id));
            } else {
                assert(member_table(members[members.len() - 1]) == Some(id));
            }
        }
    }
}

/// A recipient sees only tables that one of the share's grants shares.
pub proof fn only_shared_tables_are_granted(all: Seq<ShareGrant>, id: Seq<char>)
    requires
        all.len() <= usize::MAX,
        granted(all).dom().contains(id),
    ensures
        granted(all)[id] < all.len(),
        shares_table(all[granted(all)[id] as int], id),
    decreases all.len(),
{
    if all.len() > 0 {
        let earlier = all.drop_last();
        let g = all.last();
        let place = (all.len() - 1) as usize;
        members_only_add(granted(earlier), g.members@, place, id);
        if granted(earlier).dom().contains(id) {
            only_shared_tables_are_granted(earlier, id);
            assert(earlier[granted(earlier)[id] as int] == all[granted(earlier)[id] as int]);
        }
    }
}

/// Where a table is shared directly, its grant is a direct one, whatever
/// products it is in.
pub proof fn direct_grants_win(all: Seq<ShareGrant>, i: int, id: Seq<char>)
    requires
        all.len() <= usize::MAX,
        0 <= i < all.len(),
        direct_table(all[i]) == Some(id),
    ensures
        granted(all).dom().contains(id),
        granted(all)[id] < all.len(),
        direct_table(all[granted(all)[id] as int]) == Some(id),
    decreases all.len(),
{
    let earlier = all.drop_last();
    let g = all.last();
    let place = (all.len() - 1) as usize;
    if i + 1 < all.len() {
        direct_grants_win(earlier, i, id);
        members_only_add(granted(earlier), g.members@, place, id);
        assert(earlier[granted(earlier)[id] as int] == all[granted(earlier)[id] as int]);
    }
}

proof fn members_are_all_added(
    map: Map<Seq<char>, usize>,
    members: Seq<ProductMember>,
    grant: usize,
    id: Seq<char>,
    j: int,
)
    requires
        0 <= j < members.len(),
        member_table(members[j]) == Some(id),
    ensures
        with_members(map, members, grant).dom().contains(id),
    decreases members.len(),
{
    if j + 1 < members.len() {
        members_are_all_added(map, members.drop_last(), grant, id, j);
    }
}

/// A recipient sees every table that one of the share's grants shares.
pub proof fn every_shared_table_is_granted(all: Seq<ShareGrant>, i: int, id: Seq<char>)
    requires
        0 <= i < all.len(),
        shares_table(all[i], id),
    ensures
        granted(all).dom().contains(id),
    decreases all.len(),
{
    let earlier = all.drop_last();
    let g = all.last();
    let place = (all.len() - 1) as usize;
    members_only_add(granted(earlier), g.members@, place, id);
    reveal_strlit("table");
    reveal_strlit("data_product");
    if i + 1 < all.len() {
        every_shared_table_is_granted(earlier, i, id);
    } else if direct_table(g) != Some(id) {
        let j = choose|j: int| 0 <= j < g.members@.len() && #[trigger] member_table(g.members@[j]) == Some(id);
        members_are_all_added(granted(earlier), g.members@, place, id, j);
        assert("table"@.len() != "data_product"@.len());
    }
}

/// Whether some grant shares the table directly.
pub open spec fn has_direct(all: Seq<ShareGrant>, id: Seq<char>) -> bool {
    exists|k: int| 0 <= k < all.len() && direct_table(#[trigger] all[k]) == Some(id)
}

/// Whether a grant may be the one that a table is shared by: a direct one,
/// where there is any; else any that shares it.
pub open spec fn is_candidate(all: Seq<ShareGrant>, g: ShareGrant, id: Seq<char>) -> bool {
    if has_direct(all, id) {
        direct_table(g) == Some(id)
    } else {
        shares_table(g, id)
    }
}

/// Whether there is only one grant that a table may be shared by.
pub open spec fn has_one_candidate(all: Seq<ShareGrant>, id: Seq<char>) -> bool {
    forall|i: int, j: int|
        0 <= i < all.len() && 0 <= j < all.len() && is_candidate(all, #[trigger] all[i], id) && is_candidate(
            all,
            #[trigger] all[j],
            id,
        ) ==> all[i] == all[j]
}

proof fn granted_is_a_candidate(all: Seq<ShareGrant>, id: Seq<char>)
    requires
        all.len() <= usize::MAX,
        granted(all).dom().contains(id),
    ensures
        granted(all)[id] < all.len(),
        is_candidate(all, all[granted(all)[id] as int], id),
{
    only_shared_tables_are_granted(all, id);
    if has_direct(all, id) {
        let k = choose|k: int| 0 <= k < all.len() && direct_table(#[trigger] all[k]) == Some(id);
        direct_grants_win(all, k, id);
    }
}

/// The order of a share's grants decides nothing of which tables it shares,
/// and nothing of the grant of a table that only one grant may share: its only
/// direct one, or the only one that shares it where none is direct.
pub proof fn order_decides_between_equals_only(a: Seq<ShareGrant>, b: Seq<ShareGrant>, id: Seq<char>)
    requires
        a.len() <= usize::MAX,
        a.to_multiset() == b.to_multiset(),
    ensures
        granted(a).dom().contains(id) == granted(b).dom().contains(id),
        granted(a).dom().contains(id) && has_one_candidate(a, id) ==> a[granted(a)[id] as int] == b[granted(b)[id] as int],
{
    a.to_multiset_ensures();
    b.to_multiset_ensures();
    assert forall|g: ShareGrant| #[trigger] a.contains(g) == b.contains(g) by {
        assert(a.contains(g) == (a.to_multiset().count(g) > 0));
        assert(b.contains(g) == (b.to_multiset().count(g) > 0));
    }
    if granted(a).dom().contains(id) {
        only_shared_tables_are_granted(a, id);
        let g = a[granted(a)[id] as int];
        assert(a.contains(g));
        let j = choose|j: int| 0 <= j < b.len() && b[j] == g;
        every_shared_table_is_granted(b, j, id);
    }
    if granted(b).dom().contains(id) {
        only_shared_tables_are_granted(b, id);
        let g = b[granted(b)[id] as int];
        assert(b.contains(g));
        assert(a.contains(g));
        let j = choose|j: int| 0 <= j < a.len() && a[j] == g;
        every_shared_table_is_granted(a, j, id);
    }
    if granted(a).dom().contains(id) && has_one_candidate(a, id) {
        granted_is_a_candidate(a, id);
        granted_is_a_candidate(b, id);
        let g = b[granted(b)[id] as int];
        assert(b.contains(g));
        assert(a.contains(g));
        let j = choose|j: int| 0 <= j < a.len() && a[j] == g;
        assert(has_direct(a, id) == has_direct(b, id)) by {
            if has_direct(a, id) {
                let k = choose|k: int| 0 <= k < a.len() && direct_table(#[trigger] a[k]) == Some(id);
                assert(a.contains(a[k]));
                let m = choose|m: int| 0 <= m < b.len() && b[m] == a[k];
                assert(direct_table(b[m]) == Some(id));
            }
            if has_direct(b, id) {
                let k = choose|k: int| 0 <= k < b.len() && direct_table(#[trigger] b[k]) == Some(id);
                assert(b.contains(b[k]));
                assert(a.contains(b[k]));
                let m = choose|m: int| 0 <= m < a.len() && a[m] == b[k];
                assert(direct_table(a[m]) == Some(id));
            }
        }
        assert(is_candidate(a, a[j], id));
        assert(is_candidate(a, a[granted(a)[id] as int], id));
    }
}

// ---------------------------------------------------------------------------
// What a recipient lists and loads
// ---------------------------------------------------------------------------

/// Where a granted table stands, as far as it exists.
#[derive(Debug)]
pub struct SharedRow {
    /// ULID of the table.
    pub table_id: String,
    /// The levels of its namespace.
    pub levels: Vec<String>,
    /// Its name.
    pub name: String,
    /// Where its current metadata is.
    pub metadata_location: Option<String>,
}

/// Whether the row's table is one that the grants show.
pub open spec fn is_shown(row: SharedRow, grants: Map<Seq<char>, usize>) -> bool {
    grants.dom().contains(row.table_id@)
}

/// The paths of the rows' namespaces.
pub open spec fn row_paths(rows: Seq<SharedRow>) -> Seq<Seq<Seq<char>>> {
    rows.map_values(|r: SharedRow| text::texts(r.levels@))
}

/// The namespaces that hold a shared table, each once, in order.
pub fn shown_namespaces(grants: &TextMap<usize>, rows: &Vec<SharedRow>) -> (r: Vec<Vec<String>>)
    ensures
        levels::lists_paths(r@, row_paths(rows@.filter(|row: SharedRow| is_shown(row, grants@))).to_set()),
{
    let ghost keep = |row: SharedRow| is_shown(row, grants@);
    let mut all: Vec<Vec<String>> = Vec::new();
    let mut i: usize = 0;
    proof {
        reveal(Seq::filter);
        assert(row_paths(rows@.take(0).filter(keep)) =~= levels::paths(all@));
    }
    while i < rows.len()
        invariant
            i <= rows@.len(),
            keep == (|row: SharedRow| is_shown(row, grants@)),
            levels::paths(all@) == row_paths(rows@.take(i as int).filter(keep)),
        decreases rows@.len() - i,
    {
        proof {
            reveal(Seq::filter);
        }
        assert(rows@.take(i + 1).drop_last() =~= rows@.take(i as int));
        let ghost before = all@;
        if grants.has(rows[i].table_id.as_str()) {
            all.push(text::copy_texts(&rows[i].levels));
            assert(levels::paths(all@) =~= levels::paths(before).push(text::texts(rows@[i as int].levels@)));
            assert(row_paths(rows@.take(i + 1).filter(keep)) =~= row_paths(rows@.take(i as int).filter(keep)).push(
                text::texts(rows@[i as int].levels@),
            ));
        }
        i = i + 1;
    }
    assert(rows@.take(rows@.len() as int) =~= rows@);
    sorted_paths(all)
}

/// Whether the row stands in the namespace.
pub open spec fn in_namespace(row: SharedRow, path: Seq<Seq<char>>) -> bool {
    text::texts(row.levels@) == path
}

/// The names of the shared tables of a namespace, in the order of the rows.
pub open spec fn table_names(
    grants: Map<Seq<char>, usize>,
    rows: Seq<SharedRow>,
    path: Seq<Seq<char>>,
) -> Seq<Seq<char>> {
    rows.filter(|row: SharedRow| is_shown(row, grants) && in_namespace(row, path)).map_values(
        |row: SharedRow| row.name@,
    )
}

/// The names of the shared tables of a namespace, in the order of the rows.
pub fn shown_tables(path: &Vec<String>, grants: &TextMap<usize>, rows: &Vec<SharedRow>) -> (r: Vec<String>)
    ensures
        text::texts(r@) == table_names(grants@, rows@, text::texts(path@)),
{
    let ghost keep = |row: SharedRow| is_shown(row, grants@) && in_namespace(row, text::texts(path@));
    let ghost name = |row: SharedRow| row.name@;
    let mut out: Vec<String> = Vec::new();
    let mut i: usize = 0;
    proof {
        reveal(Seq::filter);
        assert(rows@.take(0).filter(keep).map_values(name) =~= text::texts(out@));
    }
    while i < rows.len()
        invariant
            i <= rows@.len(),
            keep == (|row: SharedRow| is_shown(row, grants@) && in_namespace(row, text::texts(path@))),
            name == (|row: SharedRow| row.name@),
            text::texts(out@) == rows@.take(i as int).filter(keep).map_values(name),
        decreases rows@.len() - i,
    {
        proof {
            reveal(Seq::filter);
        }
        assert(rows@.take(i + 1).drop_last() =~= rows@.take(i as int));
        let ghost before = out@;
        if grants.has(rows[i].table_id.as_str()) && same_texts(&rows[i].levels, path) {
            out.push(rows[i].name.clone());
            assert(text::texts(out@) =~= text::texts(before).push(rows@[i as int].name@));
            assert(rows@.take(i + 1).filter(keep).map_values(name) =~= rows@.take(i as int).filter(keep).map_values(
                name,
            ).push(rows@[i as int].name@));
        }
        i = i + 1;
    }
    assert(rows@.take(rows@.len() as int) =~= rows@);
    out
}

/// What is known so far of what a recipient lists.
#[derive(Debug)]
pub struct ListingFacts {
    /// The share of the token.
    pub share: Found<ShareRecord>,
    /// The grants of the share.
    pub grants: Option<Vec<ShareGrant>>,
    /// The granted tables that exist, in the order of their ids.
    pub rows: Option<Vec<SharedRow>>,
    /// Whether the access was recorded.
    pub recorded: bool,
}

/// What is next of what a recipient lists.
pub enum ListingAsk {
    /// The share.
    Share,
    /// Its grants.
    Grants,
    /// The granted tables.
    Rows,
    /// The record of the access.
    Record,
    /// The answer.
    Answer,
}

/// The next step of what a recipient lists.
#[derive(Debug)]
pub enum ListingStep<T> {
    /// Look up the share of the token.
    AskShare,
    /// Look up the grants of the share.
    AskGrants,
    /// Look up the granted tables.
    AskRows,
    /// Record the access, which lists this.
    Record(T),
    /// Answer with this.
    Answer(T),
}

/// What is next of what a recipient lists; `bad_path` is the refusal of the
/// path that is asked for, where it is one.
pub open spec fn listing_ask(facts: ListingFacts, bad_path: Option<error::ErrorView>) -> Result<
    ListingAsk,
    error::ErrorView,
> {
    if facts.share is Unasked {
        Ok(ListingAsk::Share)
    } else if data_error(share_found(facts.share)) is Some {
        Err(data_error(share_found(facts.share))->0)
    } else if bad_path is Some {
        Err(bad_path->0)
    } else if facts.grants is None {
        Ok(ListingAsk::Grants)
    } else if facts.rows is None {
        Ok(ListingAsk::Rows)
    } else if !facts.recorded {
        Ok(ListingAsk::Record)
    } else {
        Ok(ListingAsk::Answer)
    }
}

/// Whether a step is what is next, with a listing for which `fits` holds.
pub open spec fn takes_listing<T>(
    r: Result<ListingStep<T>, ApiError>,
    ask: Result<ListingAsk, error::ErrorView>,
    fits: spec_fn(T) -> bool,
) -> bool {
    match ask {
        Err(e) => error::fails_with(r, e),
        Ok(ListingAsk::Share) => r matches Ok(ListingStep::AskShare),
        Ok(ListingAsk::Grants) => r matches Ok(ListingStep::AskGrants),
        Ok(ListingAsk::Rows) => r matches Ok(ListingStep::AskRows),
        Ok(ListingAsk::Record) => r matches Ok(ListingStep::Record(list)) && fits(list),
        Ok(ListingAsk::Answer) => r matches Ok(ListingStep::Answer(list)) && fits(list),
    }
}

/// Takes the next step of the list of the namespaces that hold a shared table.
pub fn recipient_list_namespaces(facts: &ListingFacts) -> (r: Result<ListingStep<Vec<Vec<String>>>, ApiError>)
    ensures
        takes_listing(
            r,
            listing_ask(*facts, None),
            |list: Vec<Vec<String>>|
                levels::lists_paths(
                    list@,
                    row_paths(facts.rows->0@.filter(|row: SharedRow| is_shown(row, granted(facts.grants->0@)))).to_set(),
                ),
        ),
{
    match &facts.share {
        Found::Unasked => { return Ok(ListingStep::AskShare); },
        Found::Missing => { return Err(unknown_token()); },
        Found::Is(share) => match require_open(share) {
            Err(e) => { return Err(e); },
            Ok(()) => {},
        },
    }
    let grants = match &facts.grants {
        None => { return Ok(ListingStep::AskGrants); },
        Some(grants) => resolve_grants(grants),
    };
    let rows = match &facts.rows {
        None => { return Ok(ListingStep::AskRows); },
        Some(rows) => rows,
    };
    let list = shown_namespaces(&grants, rows);
    if facts.recorded {
        Ok(ListingStep::Answer(list))
    } else {
        Ok(ListingStep::Record(list))
    }
}

/// Takes the next step of the list of the shared tables of a namespace.
pub fn recipient_list_tables(raw_namespace: &str, facts: &ListingFacts) -> (r: Result<
    ListingStep<Vec<String>>,
    ApiError,
>)
    ensures
        takes_listing(
            r,
            listing_ask(*facts, namespaces::levels_error(namespaces::param_levels(raw_namespace@))),
            |list: Vec<String>|
                text::texts(list@) == table_names(
                    granted(facts.grants->0@),
                    facts.rows->0@,
                    namespaces::param_levels(raw_namespace@),
                ),
        ),
{
    match &facts.share {
        Found::Unasked => { return Ok(ListingStep::AskShare); },
        Found::Missing => { return Err(unknown_token()); },
        Found::Is(share) => match require_open(share) {
            Err(e) => { return Err(e); },
            Ok(()) => {},
        },
    }
    let path = match decode_namespace_param(raw_namespace) {
        Err(e) => { return Err(e); },
        Ok(path) => path,
    };
    let grants = match &facts.grants {
        None => { return Ok(ListingStep::AskGrants); },
        Some(grants) => resolve_grants(grants),
    };
    let rows = match &facts.rows {
        None => { return Ok(ListingStep::AskRows); },
        Some(rows) => rows,
    };
    let list = shown_tables(&path, &grants, rows);
    if facts.recorded {
        Ok(ListingStep::Answer(list))
    } else {
        Ok(ListingStep::Record(list))
    }
}

/// The first shown row of a namespace and name, from place `from` on.
pub open spec fn shared_place(
    grants: Map<Seq<char>, usize>,
    rows: Seq<SharedRow>,
    path: Seq<Seq<char>>,
    name: Seq<char>,
    from: int,
) -> Option<int>
    decreases rows.len() - from,
{
    if from < 0 || from >= rows.len() {
        None
    } else if is_shown(rows[from], grants) && in_namespace(rows[from], path) && rows[from].name@ == name {
        Some(from)
    } else {
        shared_place(grants, rows, path, name, from + 1)
    }
}

/// The granted table of a namespace and name, by its place among the rows.
pub fn resolve_shared_table(grants: &TextMap<usize>, rows: &Vec<SharedRow>, path: &Vec<String>, name: &str) -> (r:
    Option<usize>)
    ensures
        shared_place(grants@, rows@, text::texts(path@), name@, 0) == (match r {
            Some(i) => Some(i as int),
            None => None,
        }),
        r matches Some(i) ==> i < rows@.len() && is_shown(rows@[i as int], grants@),
{
    let mut i: usize = 0;
    while i < rows.len()
        invariant
            i <= rows@.len(),
            shared_place(grants@, rows@, text::texts(path@), name@, 0) == shared_place(
                grants@,
                rows@,
                text::texts(path@),
                name@,
                i as int,
            ),
        decreases rows@.len() - i,
    {
        if grants.has(rows[i].table_id.as_str()) && same_texts(&rows[i].levels, path) && same(
            rows[i].name.as_str(),
            name,
        ) {
            return Some(i);
        }
        i = i + 1;
    }
    None
}

/// What is known so far of a table that a recipient loads.
#[derive(Debug)]
pub struct RecipientFacts {
    /// The share of the token.
    pub share: Found<ShareRecord>,
    /// The grants of the share.
    pub grants: Option<Vec<ShareGrant>>,
    /// The granted tables that exist, in the order of their ids.
    pub rows: Option<Vec<SharedRow>>,
    /// Whether the table's warehouse is there.
    pub warehouse: Found<()>,
    /// Whether its storage can be used, or why not.
    pub storage: Result<(), ApiError>,
    /// Whether its metadata was read, or why not.
    pub metadata: Option<Result<(), String>>,
    /// Whether credentials were asked for.
    pub vended: bool,
    /// Whether the access was recorded.
    pub recorded: bool,
}

/// The next step of a recipient's load.
#[derive(Debug)]
pub enum RecipientStep {
    /// Look up the share of the token.
    AskShare,
    /// Look up the grants of the share.
    AskGrants,
    /// Look up the granted tables.
    AskRows,
    /// Look up the warehouse of this row's table.
    AskWarehouse(usize),
    /// Read the metadata of this row's table.
    ReadMetadata(usize),
    /// Ask for credentials of this access to this row's table, which this grant
    /// shows; the warehouse may vend none.
    Vend(usize, usize, AccessMode),
    /// Record the access to this row's table, as this grant shows it.
    Record(usize, usize),
    /// Answer with this row's table, as this grant shows it.
    Serve(usize, usize),
}

/// The share that a lookup found.
pub open spec fn share_found(found: Found<ShareRecord>) -> Option<ShareRecord> {
    match found {
        Found::Is(share) => Some(share),
        _ => None,
    }
}

/// The step of a recipient's load.
pub open spec fn recipient_step(raw: Seq<char>, name: Seq<char>, facts: RecipientFacts) -> Result<
    RecipientStep,
    error::ErrorView,
> {
    if facts.share is Unasked {
        Ok(RecipientStep::AskShare)
    } else {
        match data_error(share_found(facts.share)) {
            Some(e) => Err(e),
            None => match namespaces::levels_error(namespaces::param_levels(raw)) {
                Some(e) => Err(e),
                None => match facts.grants {
                    None => Ok(RecipientStep::AskGrants),
                    Some(grants) => match facts.rows {
                        None => Ok(RecipientStep::AskRows),
                        Some(rows) => shared_step(granted(grants@), rows@, namespaces::param_levels(raw), name, facts),
                    },
                },
            },
        }
    }
}

/// The step of a recipient's load, once the granted tables are known.
pub open spec fn shared_step(
    grants: Map<Seq<char>, usize>,
    rows: Seq<SharedRow>,
    path: Seq<Seq<char>>,
    name: Seq<char>,
    facts: RecipientFacts,
) -> Result<RecipientStep, error::ErrorView> {
    let missing = tables::missing_table(path, name);
    match shared_place(grants, rows, path, name, 0) {
        None => Err(missing),
        Some(i) => match facts.warehouse {
            Found::Unasked => Ok(RecipientStep::AskWarehouse(i as usize)),
            Found::Missing => Err(missing),
            Found::Is(_) => match rows[i].metadata_location {
                None => Err(missing),
                Some(at) => match facts.storage {
                    Err(e) => Err(e@),
                    Ok(_) => match facts.metadata {
                        None => Ok(RecipientStep::ReadMetadata(i as usize)),
                        Some(Err(detail)) => Err(tables::unreadable_metadata(at@, detail@)),
                        Some(Ok(_)) => if !facts.vended {
                            Ok(RecipientStep::Vend(i as usize, grants[rows[i].table_id@], AccessMode::Read))
                        } else if facts.recorded {
                            Ok(RecipientStep::Serve(i as usize, grants[rows[i].table_id@]))
                        } else {
                            Ok(RecipientStep::Record(i as usize, grants[rows[i].table_id@]))
                        },
                    },
                },
            },
        },
    }
}

/// Takes the next step of a recipient's load of a table.
pub fn recipient_load_table(raw_namespace: &str, name: &str, facts: &RecipientFacts) -> (r: Result<
    RecipientStep,
    ApiError,
>)
    ensures
        error::outcome(r) == recipient_step(raw_namespace@, name@, *facts),
{
    match &facts.share {
        Found::Unasked => { return Ok(RecipientStep::AskShare); },
        Found::Missing => { return Err(unknown_token()); },
        Found::Is(share) => match require_open(share) {
            Err(e) => { return Err(e); },
            Ok(()) => {},
        },
    }
    let path = match decode_namespace_param(raw_namespace) {
        Err(e) => { return Err(e); },
        Ok(path) => path,
    };
    let grants = match &facts.grants {
        None => { return Ok(RecipientStep::AskGrants); },
        Some(grants) => resolve_grants(grants),
    };
    let rows = match &facts.rows {
        None => { return Ok(RecipientStep::AskRows); },
        Some(rows) => rows,
    };
    let place = match resolve_shared_table(&grants, rows, &path, name) {
        None => { return Err(no_such_table(&path, name)); },
        Some(i) => i,
    };
    match &facts.warehouse {
        Found::Unasked => { return Ok(RecipientStep::AskWarehouse(place)); },
        Found::Missing => { return Err(no_such_table(&path, name)); },
        Found::Is(_) => {},
    }
    let at = match &rows[place].metadata_location {
        None => { return Err(no_such_table(&path, name)); },
        Some(at) => at,
    };
    match &facts.storage {
        Err(e) => { return Err(ApiError::new(e.kind, e.message.as_str())); },
        Ok(_) => {},
    }
    match &facts.metadata {
        None => Ok(RecipientStep::ReadMetadata(place)),
        Some(Err(detail)) => Err(current_metadata_unreadable(at.as_str(), detail.as_str())),
        Some(Ok(_)) => match grants.get(rows[place].table_id.as_str()) {
            Some(grant) => if !facts.vended {
                Ok(RecipientStep::Vend(place, *grant, AccessMode::Read))
            } else if facts.recorded {
                Ok(RecipientStep::Serve(place, *grant))
            } else {
                Ok(RecipientStep::Record(place, *grant))
            },
            None => Err(no_such_table(&path, name)),
        },
    }
}

/// A recipient is served only under a token of a share that was not revoked
/// and whose terms are accepted, and only a table that a grant of the share
/// names, itself or as part of a product; the table is shown as that grant says.
pub proof fn recipients_are_guarded(raw: Seq<char>, name: Seq<char>, facts: RecipientFacts, row: usize, grant: usize)
    requires
        recipient_step(raw, name, facts) == Ok::<RecipientStep, error::ErrorView>(RecipientStep::Serve(row, grant)),
    ensures
        facts.share matches Found::Is(share) && !share.revoked && !terms_outstanding(share),
        facts.grants matches Some(grants) && (facts.rows matches Some(rows) && row < rows@.len() && grant
            < grants@.len() && shares_table(grants@[grant as int], rows@[row as int].table_id@)
            && in_namespace(rows@[row as int], namespaces::param_levels(raw)) && rows@[row as int].name@ == name),
{
    let grants = facts.grants->0;
    let rows = facts.rows->0;
    assert(grants.len() <= usize::MAX && rows.len() <= usize::MAX);
    place_is_shown(granted(grants@), rows@, namespaces::param_levels(raw), name, 0);
    only_shared_tables_are_granted(grants@, rows@[row as int].table_id@);
}

/// A recipient's credentials only read, whatever the grant.
pub proof fn recipients_get_read_credentials(raw: Seq<char>, name: Seq<char>, facts: RecipientFacts)
    ensures
        recipient_step(raw, name, facts) matches Ok(RecipientStep::Vend(_, _, access)) ==> access == AccessMode::Read,
{
}

proof fn place_is_shown(
    grants: Map<Seq<char>, usize>,
    rows: Seq<SharedRow>,
    path: Seq<Seq<char>>,
    name: Seq<char>,
    from: int,
)
    ensures
        shared_place(grants, rows, path, name, from) matches Some(i) ==> 0 <= i < rows.len() && is_shown(
            rows[i],
            grants,
        ) && in_namespace(rows[i], path) && rows[i].name@ == name,
    decreases rows.len() - from,
{
    if 0 <= from < rows.len() {
        place_is_shown(grants, rows, path, name, from + 1);
    }
}

/// A revoked share serves nothing: neither its configuration, nor its terms,
/// nor a listing, nor a table.
pub proof fn revoked_shares_serve_nothing(
    raw: Seq<char>,
    name: Seq<char>,
    bad_path: Option<error::ErrorView>,
    listing: ListingFacts,
    facts: RecipientFacts,
)
    requires
        facts.share matches Found::Is(share) && share.revoked,
        listing.share == facts.share,
    ensures
        token_error(share_found(facts.share)) matches Some(e) && e.kind == ErrorKind::Forbidden,
        terms_ask(facts.share, facts.recorded) matches Err(e) && e.kind == ErrorKind::Forbidden,
        listing_ask(listing, bad_path) matches Err(e) && e.kind == ErrorKind::Forbidden,
        recipient_step(raw, name, facts) matches Err(e) && e.kind == ErrorKind::Forbidden,
{
}

/// No listing and no table is answered, and no terms are shown or accepted,
/// before the access was recorded. That the configuration waits for its record
/// is part of its own contract.
pub proof fn accesses_are_recorded(
    raw: Seq<char>,
    name: Seq<char>,
    bad_path: Option<error::ErrorView>,
    listing: ListingFacts,
    facts: RecipientFacts,
)
    ensures
        terms_ask(facts.share, facts.recorded) matches Ok(TermsAsk::Terms) ==> facts.recorded,
        listing_ask(listing, bad_path) matches Ok(ListingAsk::Answer) ==> listing.recorded,
        recipient_step(raw, name, facts) matches Ok(RecipientStep::Serve(_, _)) ==> facts.recorded,
{
}

// ---------------------------------------------------------------------------
// What a recipient sees of a table
// ---------------------------------------------------------------------------

/// Whether a column is masked: its name is one of the mask's, whatever the
/// case.
pub open spec fn is_masked(name: Seq<char>, mask: Seq<String>) -> bool {
    exists|i: int| 0 <= i < mask.len() && text::lowercased(#[trigger] mask[i]@) == text::lowercased(name)
}

/// The columns that stay.
pub open spec fn unmasked(fields: Seq<SchemaField>, mask: Seq<String>) -> Seq<SchemaField> {
    fields.filter(|f: SchemaField| !is_masked(f.name@, mask))
}

fn masked(name: &str, mask: &Vec<String>) -> (r: bool)
    ensures
        r == is_masked(name@, mask@),
{
    let wanted = lowercase(name);
    let mut i: usize = 0;
    while i < mask.len()
        invariant
            i <= mask@.len(),
            wanted@ == text::lowercased(name@),
            forall|j: int| 0 <= j < i ==> text::lowercased(#[trigger] mask@[j]@) != text::lowercased(name@),
        decreases mask@.len() - i,
    {
        if same(lowercase(mask[i].as_str()).as_str(), wanted.as_str()) {
            return true;
        }
        i = i + 1;
    }
    false
}

fn keep_unmasked(fields: Vec<SchemaField>, mask: &Vec<String>) -> (r: Vec<SchemaField>)
    ensures
        r@ == unmasked(fields@, mask@),
{
    let ghost keep = |f: SchemaField| !is_masked(f.name@, mask@);
    let mut out: Vec<SchemaField> = Vec::new();
    let ghost all = fields@;
    proof {
        reveal(Seq::filter);
    }
    for f in it: fields
        invariant
            it.seq() == all,
            keep == (|f: SchemaField| !is_masked(f.name@, mask@)),
            out@ == all.take(it.index()).filter(keep),
    {
        proof {
            reveal(Seq::filter);
        }
        assert(all.take(it.index() + 1).drop_last() =~= all.take(it.index()));
        if !masked(f.name.as_str(), mask) {
            out.push(f);
        }
    }
    assert(all.take(all.len() as int) =~= all);
    out
}

/// Whether a schema is the one that the recipient reads with; every one, where
/// the metadata does not say which is current.
pub open spec fn is_read_with(schema: Schema, current: Option<i32>) -> bool {
    current is None || current == schema.schema_id
}

fn mask_schema(schema: Schema, mask: &Vec<String>) -> (r: Schema)
    ensures
        r.schema_id == schema.schema_id,
        r.fields@ == unmasked(schema.fields@, mask@),
{
    Schema { schema_id: schema.schema_id, fields: keep_unmasked(schema.fields, mask) }
}

/// Takes the masked columns out of the schema that the recipient reads with,
/// and out of `legacy`, the copy of it that metadata of the first format version
/// holds beside the list. The schemas of older snapshots stay as they are.
pub fn apply_column_mask(
    schemas: Vec<Schema>,
    current: Option<i32>,
    legacy: Option<Schema>,
    mask: &Vec<String>,
) -> (r: (Vec<Schema>, Option<Schema>))
    ensures
        r.0@.len() == schemas@.len(),
        forall|i: int|
            #![trigger r.0@[i]]
            0 <= i < r.0@.len() ==> r.0@[i].schema_id == schemas@[i].schema_id && (if is_read_with(schemas@[i], current) {
                r.0@[i].fields@ == unmasked(schemas@[i].fields@, mask@)
            } else {
                r.0@[i] == schemas@[i]
            }),
        match legacy {
            None => r.1 is None,
            Some(copy) => r.1 matches Some(shown) && shown.schema_id == copy.schema_id && shown.fields@ == unmasked(
                copy.fields@,
                mask@,
            ),
        },
{
    let mut out: Vec<Schema> = Vec::new();
    let ghost all = schemas@;
    for schema in it: schemas
        invariant
            it.seq() == all,
            out@.len() == it.index(),
            forall|i: int|
                #![trigger out@[i]]
                0 <= i < out@.len() ==> out@[i].schema_id == all[i].schema_id && (if is_read_with(all[i], current) {
                    out@[i].fields@ == unmasked(all[i].fields@, mask@)
                } else {
                    out@[i] == all[i]
                }),
    {
        let read_with = match current {
            None => true,
            Some(id) => match schema.schema_id {
                Some(own) => own == id,
                None => false,
            },
        };
        if read_with {
            out.push(mask_schema(schema, mask));
        } else {
            out.push(schema);
        }
    }
    let copy = match legacy {
        None => None,
        Some(copy) => Some(mask_schema(copy, mask)),
    };
    (out, copy)
}

/// No masked column is in the schema that the recipient reads with, nor in a
/// copy of it.
pub proof fn masked_columns_are_hidden(fields: Seq<SchemaField>, mask: Seq<String>, i: int)
    requires
        0 <= i < unmasked(fields, mask).len(),
    ensures
        !is_masked(unmasked(fields, mask)[i].name@, mask),
{
    broadcast use vstd::seq_lib::group_filter_ensures;
    assert(unmasked(fields, mask).contains(unmasked(fields, mask)[i]));
}

/// The configuration that a recipient gets with a table: the warehouse's, the
/// marks of the share, then what was vended.
pub open spec fn served_config(
    base: Map<Seq<char>, Seq<char>>,
    row_filter: Option<String>,
    vended: Option<Map<Seq<char>, Seq<char>>>,
) -> Map<Seq<char>, Seq<char>> {
    let marked = base.insert("meridian.share.read-only"@, "true"@);
    let filtered = match row_filter {
        Some(f) => marked.insert("meridian.share.row-filter"@, f@),
        None => marked,
    };
    match vended {
        Some(more) => filtered.union_prefer_right(more),
        None => filtered,
    }
}

/// The configuration that a recipient gets with a table.
pub fn recipient_table_config(
    base: TextMap<String>,
    row_filter: &Option<String>,
    vended: &Option<TextMap<String>>,
) -> (r: TextMap<String>)
    ensures
        textmap::text_values(r@) == served_config(
            textmap::text_values(base@),
            *row_filter,
            match *vended {
                Some(m) => Some(textmap::text_values(m@)),
                None => None,
            },
        ),
{
    let ghost start = base@;
    let marked = base.with("meridian.share.read-only", "true".to_owned());
    assert(textmap::text_values(marked@) =~= textmap::text_values(start).insert(
        "meridian.share.read-only"@,
        "true"@,
    ));
    let filtered = match row_filter {
        Some(f) => {
            let ghost before = marked@;
            let map = marked.with("meridian.share.row-filter", f.clone());
            assert(textmap::text_values(map@) =~= textmap::text_values(before).insert(
                "meridian.share.row-filter"@,
                f@,
            ));
            map
        },
        None => marked,
    };
    match vended {
        Some(more) => filtered.with_all(more),
        None => filtered,
    }
}

// ---------------------------------------------------------------------------
// What the share routes do
// ---------------------------------------------------------------------------

/// Data is served under a token exactly where the token names a share that is
/// not revoked and whose terms, where it has any, were accepted. A token that
/// names none is not authorized; anything else that stands against it is
/// forbidden.
pub proof fn tokens_are_judged(found: Option<ShareRecord>)
    ensures
        token_error(found) is None <==> (found matches Some(share) && !share.revoked),
        token_error(found) matches Some(e) ==> e.kind == (if found is None {
            ErrorKind::NotAuthorized
        } else {
            ErrorKind::Forbidden
        }),
        data_error(found) is None <==> (found matches Some(share) && !share.revoked && (share.terms is None
            || share.terms_accepted_at is Some)),
        data_error(found) matches Some(e) ==> e.kind == (if found is None {
            ErrorKind::NotAuthorized
        } else {
            ErrorKind::Forbidden
        }),
{
}

/// A listing under a share goes on as it should: the grants and the tables are
/// asked for only under a good token, and the list is recorded before it is
/// answered.
pub proof fn listings_go_on(facts: ListingFacts, bad_path: Option<error::ErrorView>)
    ensures
        ({
            let open = (facts.share matches Found::Is(share) && !share.revoked && (share.terms is None
                || share.terms_accepted_at is Some)) && bad_path is None;
            match listing_ask(facts, bad_path) {
                Ok(ListingAsk::Share) => facts.share is Unasked,
                Ok(ListingAsk::Grants) => open && facts.grants is None,
                Ok(ListingAsk::Rows) => open && facts.grants is Some && facts.rows is None,
                Ok(ListingAsk::Record) => open && facts.grants is Some && facts.rows is Some && !facts.recorded,
                Ok(ListingAsk::Answer) => open && facts.grants is Some && facts.rows is Some && facts.recorded,
                Err(e) => !(facts.share is Unasked) && !open && (bad_path == Some(e) || e.kind
                    == ErrorKind::NotAuthorized || e.kind == ErrorKind::Forbidden),
            }
        }),
{
}

/// The terms of a share are shown under any good token, accepted or not, and
/// only after the look at them was recorded.
pub proof fn terms_are_shown(share: Found<ShareRecord>, recorded: bool)
    ensures
        match terms_ask(share, recorded) {
            Ok(TermsAsk::Share) => share is Unasked,
            Ok(TermsAsk::Record) => (share matches Found::Is(s) && !s.revoked) && !recorded,
            Ok(TermsAsk::Terms) => (share matches Found::Is(s) && !s.revoked) && recorded,
            Err(e) => share is Missing && e.kind == ErrorKind::NotAuthorized || (share matches Found::Is(s) && s.revoked)
                && e.kind == ErrorKind::Forbidden,
        },
{
}

/// A table is listed under a share exactly where it is granted and lies in the
/// namespace that is asked for.
pub proof fn listed_tables_are_granted(
    grants: Map<Seq<char>, usize>,
    rows: Seq<SharedRow>,
    path: Seq<Seq<char>>,
    i: int,
)
    ensures
        0 <= i < rows.len() && grants.dom().contains(rows[i].table_id@) && text::texts(rows[i].levels@) == path
            ==> table_names(grants, rows, path).contains(rows[i].name@),
        0 <= i < table_names(grants, rows, path).len() ==> is_name_of_one(
            grants,
            rows,
            path,
            table_names(grants, rows, path)[i],
        ),
{
    let keep = |row: SharedRow| is_shown(row, grants) && in_namespace(row, path);
    let kept = rows.filter(keep);
    broadcast use vstd::seq_lib::group_filter_ensures;

    if 0 <= i < rows.len() && is_shown(rows[i], grants) && in_namespace(rows[i], path) {
        assert(keep(rows[i]));
        assert(kept.contains(rows[i]));
        let k = choose|k: int| 0 <= k < kept.len() && kept[k] == rows[i];
        assert(table_names(grants, rows, path)[k] == rows[i].name@);
    }
    if 0 <= i < table_names(grants, rows, path).len() {
        assert(keep(kept[i]));
        assert(kept.contains(kept[i]));
        rows.lemma_filter_contains_rev(keep, kept[i]);
        let k = choose|k: int| 0 <= k < rows.len() && rows[k] == kept[i];
        assert(rows[k].name@ == table_names(grants, rows, path)[i]);
    }
}

/// Whether one of the rows is a granted table of this name in this namespace.
pub open spec fn is_name_of_one(
    grants: Map<Seq<char>, usize>,
    rows: Seq<SharedRow>,
    path: Seq<Seq<char>>,
    name: Seq<char>,
) -> bool {
    exists|k: int| 0 <= k < rows.len() && is_shared_as(grants, #[trigger] rows[k], path, name)
}

/// Whether the row is a granted table of this name in this namespace.
pub open spec fn is_shared_as(
    grants: Map<Seq<char>, usize>,
    row: SharedRow,
    path: Seq<Seq<char>>,
    name: Seq<char>,
) -> bool {
    grants.dom().contains(row.table_id@) && text::texts(row.levels@) == path && row.name@ == name
}

proof fn shared_places_are_right(
    grants: Map<Seq<char>, usize>,
    rows: Seq<SharedRow>,
    path: Seq<Seq<char>>,
    name: Seq<char>,
    from: int,
)
    requires
        0 <= from,
    ensures
        match shared_place(grants, rows, path, name, from) {
            Some(i) => from <= i < rows.len() && is_shared_as(grants, rows[i], path, name),
            None => forall|i: int| from <= i < rows.len() ==> !is_shared_as(grants, #[trigger] rows[i], path, name),
        },
    decreases rows.len() - from,
{
    if from < rows.len() && !is_shared_as(grants, rows[from], path, name) {
        shared_places_are_right(grants, rows, path, name, from + 1);
    }
}

/// Loading a shared table goes on as it should. What is asked for, read, vended,
/// recorded and served is always a granted table of the name and the namespace
/// that were asked for, under the grant of that table. Credentials only read.
/// The access is recorded before the table is served. A table that is not shared
/// does not exist.
pub proof fn shared_loads_go_on(raw: Seq<char>, name: Seq<char>, facts: RecipientFacts)
    requires
        facts.rows matches Some(rows) ==> rows@.len() <= usize::MAX,
    ensures
        ({
            let path = namespaces::param_levels(raw);
            let grants = granted(facts.grants->0@);
            let rows = facts.rows->0@;
            let open = (facts.share matches Found::Is(share) && !share.revoked && (share.terms is None
                || share.terms_accepted_at is Some)) && namespaces::good_levels(path);
            let listed = open && facts.grants is Some && facts.rows is Some;
            match recipient_step(raw, name, facts) {
                Ok(RecipientStep::AskShare) => facts.share is Unasked,
                Ok(RecipientStep::AskGrants) => open && facts.grants is None,
                Ok(RecipientStep::AskRows) => open && facts.grants is Some && facts.rows is None,
                Ok(RecipientStep::AskWarehouse(row)) => listed && row < rows.len() && is_shared_as(
                    grants,
                    rows[row as int],
                    path,
                    name,
                ) && facts.warehouse is Unasked,
                Ok(RecipientStep::ReadMetadata(row)) => listed && row < rows.len() && is_shared_as(
                    grants,
                    rows[row as int],
                    path,
                    name,
                ) && facts.warehouse is Is && facts.metadata is None && rows[row as int].metadata_location is Some,
                Ok(RecipientStep::Vend(row, grant, access)) => listed && row < rows.len() && is_shared_as(
                    grants,
                    rows[row as int],
                    path,
                    name,
                ) && grant == grants[rows[row as int].table_id@] && access == AccessMode::Read && !facts.vended && (
                facts.metadata matches Some(Ok(_))),
                Ok(RecipientStep::Record(row, grant)) => listed && row < rows.len() && is_shared_as(
                    grants,
                    rows[row as int],
                    path,
                    name,
                ) && grant == grants[rows[row as int].table_id@] && facts.vended && !facts.recorded,
                Ok(RecipientStep::Serve(row, grant)) => listed && row < rows.len() && is_shared_as(
                    grants,
                    rows[row as int],
                    path,
                    name,
                ) && grant == grants[rows[row as int].table_id@] && facts.vended && facts.recorded,
                Err(e) => {
                    ||| !open && (e.kind == ErrorKind::NotAuthorized || e.kind == ErrorKind::Forbidden || e.kind
                        == ErrorKind::BadRequest)
                    ||| listed && e.kind == ErrorKind::NoSuchTable && (!is_name_of_one(grants, rows, path, name)
                        || facts.warehouse is Missing || is_without_metadata(grants, rows, path, name))
                    ||| listed && (facts.storage matches Err(cause) && e == cause@)
                    ||| listed && (facts.metadata matches Some(Err(_))) && e.kind == ErrorKind::InternalServer
                },
            }
        }),
{
    namespaces::bad_levels_are_refused(namespaces::param_levels(raw));
    if facts.grants is Some && facts.rows is Some {
        shared_places_are_right(
            granted(facts.grants->0@),
            facts.rows->0@,
            namespaces::param_levels(raw),
            name,
            0,
        );
    }
}

/// Whether a granted table of this name in this namespace has no metadata.
pub open spec fn is_without_metadata(
    grants: Map<Seq<char>, usize>,
    rows: Seq<SharedRow>,
    path: Seq<Seq<char>>,
    name: Seq<char>,
) -> bool {
    exists|k: int|
        0 <= k < rows.len() && is_shared_as(grants, #[trigger] rows[k], path, name)
            && rows[k].metadata_location is None
}

/// A column is shown exactly where the mask does not name it, whatever the case
/// of its letters, and the columns that are shown keep their order.
pub proof fn columns_are_masked(fields: Seq<SchemaField>, mask: Seq<String>, i: int)
    requires
        0 <= i < fields.len(),
    ensures
        (forall|k: int|
            0 <= k < mask.len() ==> text::lowercased((#[trigger] mask[k])@) != text::lowercased(fields[i].name@))
            ==> unmasked(fields, mask).contains(fields[i]),
        (exists|k: int|
            0 <= k < mask.len() && text::lowercased((#[trigger] mask[k])@) == text::lowercased(fields[i].name@))
            ==> !unmasked(fields, mask).contains(fields[i]),
        unmasked(fields, mask).len() <= fields.len(),
{
    let keep = |f: SchemaField| !is_masked(f.name@, mask);
    let kept = fields.filter(keep);
    broadcast use vstd::seq_lib::group_filter_ensures;

    if !is_masked(fields[i].name@, mask) {
        assert(keep(fields[i]));
        assert(kept.contains(fields[i]));
    } else if kept.contains(fields[i]) {
        let k = choose|k: int| 0 <= k < kept.len() && kept[k] == fields[i];
        assert(keep(kept[k]));
    }
}

/// What a recipient's table is configured with. It always says that it is
/// read-only and, where the grant filters rows, how, unless a credential of the
/// same name overrides it; every credential is in it, and every other option is
/// as it was.
pub proof fn served_configs_are_marked(
    base: Map<Seq<char>, Seq<char>>,
    row_filter: Option<String>,
    vended: Option<Map<Seq<char>, Seq<char>>>,
    key: Seq<char>,
)
    ensures
        ({
            let out = served_config(base, row_filter, vended);
            let vends = vended matches Some(more) && more.dom().contains(key);
            &&& vends ==> out.dom().contains(key) && out[key] == vended->0[key]
            &&& key == "meridian.share.read-only"@ && !vends ==> out.dom().contains(key) && out[key] == "true"@
            &&& key == "meridian.share.row-filter"@ && !vends ==> (row_filter matches Some(f) ==> out.dom().contains(key)
                && out[key] == f@)
            &&& key != "meridian.share.read-only"@ && key != "meridian.share.row-filter"@ && !vends ==> (
            out.dom().contains(key) <==> base.dom().contains(key)) && (base.dom().contains(key) ==> out[key] == base[key])
        }),
{
    reveal_strlit("meridian.share.read-only");
    reveal_strlit("meridian.share.row-filter");
    assert("meridian.share.read-only"@.len() == 24 && "meridian.share.row-filter"@.len() == 25);
}

/// A share is created exactly for a caller who was granted access, under a name
/// and for a recipient that are not blank.
pub proof fn shares_are_created_as_asked(access: Access, body: CreateShareRequest)
    ensures
        share_error(access, body) is None <==> access is Granted && !text::is_blank(body.name@) && !text::is_blank(
            body.recipient@,
        ),
        access is Granted ==> (share_error(access, body) matches Some(e) ==> e.kind == ErrorKind::BadRequest),
{
}

/// Access is asked for to a warehouse, a namespace, a table or a view, with a
/// purpose, and for a positive time where one is given; any other request is a
/// bad one.
pub proof fn access_is_asked_for_soundly(body: RequestAccessRequest)
    ensures
        access_request_error(body) is None <==> (body.securable_type@ == "warehouse"@ || body.securable_type@
            == "namespace"@ || body.securable_type@ == "table"@ || body.securable_type@ == "view"@) && !text::is_blank(
            body.purpose@,
        ) && (body.ttl_seconds matches Some(ttl) ==> ttl > 0),
        access_request_error(body) matches Some(e) ==> e.kind == ErrorKind::BadRequest,
{
}

/// Whatever is not blank is kept as it is; a blank text counts as none.
pub proof fn blanks_count_as_none(s: Option<String>)
    ensures
        match unless_blank(s) {
            Some(kept) => s matches Some(t) && t@ == kept && !text::is_blank(kept),
            None => s matches Some(t) ==> text::is_blank(t@),
        },
{
}

/// The marketplace shows every product once, the certified ones ahead of the
/// rest.
pub proof fn certified_products_come_first(products: Seq<GalleryProduct>, i: int, j: int)
    ensures
        ({
            let shown = products.filter(|p: GalleryProduct| is_certified(p)) + products.filter(
                |p: GalleryProduct| !is_certified(p),
            );
            &&& shown.len() == products.len()
            &&& 0 <= i < j < shown.len() && shown[j].certification@ == "certified"@ ==> shown[i].certification@
                == "certified"@
            &&& 0 <= i < products.len() ==> shown.contains(products[i])
        }),
{
    let yes = |p: GalleryProduct| is_certified(p);
    let no = |p: GalleryProduct| !is_certified(p);
    let first = products.filter(yes);
    let second = products.filter(no);
    let shown = first + second;
    broadcast use vstd::seq_lib::group_filter_ensures;

    parts_add_up(products);
    if 0 <= i < products.len() {
        if yes(products[i]) {
            assert(first.contains(products[i]));
            let k = choose|k: int| 0 <= k < first.len() && first[k] == products[i];
            assert(shown[k] == products[i]);
        } else {
            assert(no(products[i]));
            assert(second.contains(products[i]));
            let k = choose|k: int| 0 <= k < second.len() && second[k] == products[i];
            assert(shown[first.len() + k] == products[i]);
        }
    }
    if 0 <= i < j < shown.len() && shown[j].certification@ == "certified"@ {
        if j >= first.len() {
            assert(no(second[j - first.len()]));
        }
        assert(yes(first[i]));
    }
}

proof fn parts_add_up(products: Seq<GalleryProduct>)
    ensures
        products.filter(|p: GalleryProduct| is_certified(p)).len() + products.filter(
            |p: GalleryProduct| !is_certified(p),
        ).len() == products.len(),
    decreases products.len(),
{
    reveal(Seq::filter);
    if products.len() > 0 {
        parts_add_up(products.drop_last());
    }
}

/// A mask is put on the schema that the table is read with, and on every one
/// where it is not known which that is.
pub proof fn masks_reach_the_schema_in_use(schema: Schema, id: i32)
    ensures
        is_read_with(schema, Some(id)) <==> schema.schema_id == Some(id),
        is_read_with(schema, None),
{
}

} // verus!
