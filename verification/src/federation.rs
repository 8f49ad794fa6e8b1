//! Mirrors of other catalogs, what is shown of them, and how they are synced.

use vstd::prelude::*;

use crate::error;
use crate::error::{ApiError, ErrorKind, StoreError, StoreKind};
use crate::grants;
use crate::grants::{require, Access};
use crate::handles;
use crate::handles::{fits, plain};
use crate::limits;
use crate::limits::clamp;
use crate::text;
use crate::text::{blank, cat3, quote, same};
use crate::textmap;
use crate::textmap::TextMap;

verus! {

/// How long ago a mirror may have been synced, in seconds, before it counts as
/// stale: a day.
pub const DEFAULT_STALE_THRESHOLD_S: i64 = 86_400;

/// How many runs are given where no number is asked for.
pub const DEFAULT_HISTORY_LIMIT: i64 = 20;

/// The most runs that are given.
pub const MAX_HISTORY_LIMIT: i64 = 200;

/// Request body to register a mirror.
#[derive(Debug)]
pub struct CreateMirrorRequest {
    /// Its name.
    pub name: String,
    /// What it mirrors: `iceberg-rest` or `glue`.
    pub kind: String,
    /// Where that is.
    pub endpoint: String,
    /// The catalog there.
    pub remote_catalog: Option<String>,
    /// The options of the connection.
    pub config: TextMap<String>,
    /// Whether it is synced.
    pub enabled: bool,
    /// How often, in seconds.
    pub sync_interval_s: i32,
}

/// Whether a mirror is synced, where the request does not say.
pub fn default_enabled() -> (r: bool)
    ensures
        r,
{
    true
}

/// How often a mirror is synced, in seconds, where the request does not say.
pub fn default_sync_interval() -> (r: i32)
    ensures
        r == 3600,
{
    3600
}

/// Request body to change a mirror. What is absent stays as it is; the remote
/// catalog can also be cleared.
#[derive(Debug)]
pub struct UpdateMirrorRequest {
    /// Where the mirrored catalog is.
    pub endpoint: Option<String>,
    /// The catalog there.
    pub remote_catalog: Option<Option<String>>,
    /// The options of the connection.
    pub config: Option<TextMap<String>>,
    /// Whether it is synced.
    pub enabled: Option<bool>,
    /// How often, in seconds.
    pub sync_interval_s: Option<i32>,
}

/// A mirror: as it is stored, and, with its secrets redacted, as the API
/// renders it.
#[derive(Debug)]
pub struct MirrorResponse {
    /// ULID.
    pub id: String,
    /// Its name.
    pub name: String,
    /// What it mirrors.
    pub kind: String,
    /// Where that is.
    pub endpoint: String,
    /// The catalog there.
    pub remote_catalog: Option<String>,
    /// The options of the connection.
    pub config: TextMap<String>,
    /// Whether it is synced.
    pub enabled: bool,
    /// How often, in seconds.
    pub sync_interval_s: i32,
    /// When it was last synced.
    pub last_synced_at: Option<String>,
    /// How that went.
    pub last_sync_status: Option<String>,
    /// What that said.
    pub last_sync_detail: Option<String>,
    /// How many assets there are.
    pub asset_count: i64,
    /// When it was created.
    pub created_at: String,
    /// When it was last changed.
    pub updated_at: String,
}

// ---------------------------------------------------------------------------
// Secrets
// ---------------------------------------------------------------------------

/// Whether an option of that name is a secret.
pub open spec fn is_secret_key(key: Seq<char>) -> bool {
    key == "token"@ || key == "credential"@ || key == "access-key-id"@ || key == "secret-access-key"@ || key
        == "session-token"@ || key == "client-secret"@ || key == "password"@
}

/// Whether an option of that name is a secret.
pub fn secret_key(key: &str) -> (r: bool)
    ensures
        r == is_secret_key(key@),
{
    same(key, "token") || same(key, "credential") || same(key, "access-key-id") || same(key, "secret-access-key")
        || same(key, "session-token") || same(key, "client-secret") || same(key, "password")
}

/// What is shown of an option.
pub open spec fn shown_value(key: Seq<char>, value: Seq<char>) -> Seq<char> {
    if is_secret_key(key) {
        "***"@
    } else {
        value
    }
}

/// What is shown of the options: all of them, with stars for the secrets.
pub open spec fn redacted(config: Map<Seq<char>, Seq<char>>) -> Map<Seq<char>, Seq<char>> {
    config.map_entries(|key: Seq<char>, value: Seq<char>| shown_value(key, value))
}

/// What is shown of the options: all of them, with stars for the secrets.
pub fn redact(config: &TextMap<String>) -> (r: TextMap<String>)
    ensures
        textmap::text_values(r@) == redacted(textmap::text_values(config@)),
{
    let mut out: TextMap<String> = TextMap::new();
    let n: usize = config.len();
    let mut i: usize = 0;
    proof {
        assert(textmap::map_of(config.pairs().take(0)) =~= Map::<Seq<char>, String>::empty()) by {
            assert forall|k: Seq<char>| !textmap::map_of(config.pairs().take(0)).dom().contains(k) by {
                if textmap::map_of(config.pairs().take(0)).dom().contains(k) {
                    let a = choose|a: int| textmap::stands_at(config.pairs().take(0), k, a);
                }
            }
        }
        assert(textmap::text_values(out@) =~= redacted(
            textmap::text_values(textmap::map_of(config.pairs().take(0))),
        ));
    }
    while i < n
        invariant
            i <= n,
            n == config.pairs().len(),
            textmap::in_key_order(config.pairs()),
            textmap::text_values(out@) == redacted(
                textmap::text_values(textmap::map_of(config.pairs().take(i as int))),
            ),
        decreases n - i,
    {
        let ghost pair = config.pairs()[i as int];
        let ghost before = out@;
        let ghost taken = textmap::text_values(textmap::map_of(config.pairs().take(i as int)));
        proof {
            textmap::taken_one_more(config.pairs(), i as int);
        }
        let key = config.key_at(i);
        let value = if secret_key(key.as_str()) {
            "***".to_owned()
        } else {
            config.value_at(i).clone()
        };
        let ghost shown = value@;
        out = out.with(key.as_str(), value);
        proof {
            assert(shown == shown_value(pair.0, pair.1@));
            assert(textmap::text_values(out@) =~= textmap::text_values(before).insert(pair.0, shown));
            assert(textmap::text_values(textmap::map_of(config.pairs().take(i + 1))) =~= taken.insert(
                pair.0,
                pair.1@,
            ));
            assert(redacted(taken.insert(pair.0, pair.1@)) =~= redacted(taken).insert(pair.0, shown));
        }
        i = i + 1;
    }
    assert(config.pairs().take(n as int) == config.pairs());
    out
}

impl MirrorResponse {
    /// Renders a mirror: as it is, with its secrets redacted.
    pub fn from_record(record: MirrorResponse) -> (r: MirrorResponse)
        ensures
            textmap::text_values(r.config@) == redacted(textmap::text_values(record.config@)),
            r == (MirrorResponse { config: r.config, ..record }),
    {
        let config = redact(&record.config);
        MirrorResponse { config, ..record }
    }
}

/// No secret of a mirror is shown: what is shown does not depend on it.
pub proof fn mirror_secrets_are_not_shown(config: Map<Seq<char>, Seq<char>>, key: Seq<char>, other: Seq<char>)
    requires
        config.dom().contains(key),
        is_secret_key(key),
    ensures
        redacted(config)[key] == "***"@,
        redacted(config.insert(key, other)) == redacted(config),
{
    assert(redacted(config.insert(key, other)) =~= redacted(config));
}

/// Every option that is no secret is shown as it is, and none is left out.
pub proof fn other_options_are_shown(config: Map<Seq<char>, Seq<char>>, key: Seq<char>)
    ensures
        redacted(config).dom() == config.dom(),
        config.dom().contains(key) && !is_secret_key(key) ==> redacted(config)[key] == config[key],
{
    assert(redacted(config).dom() =~= config.dom());
}

// ---------------------------------------------------------------------------
// Registering and changing
// ---------------------------------------------------------------------------

/// The refusal of a mirror's name.
pub open spec fn mirror_name_error(name: Seq<char>) -> Option<error::ErrorView> {
    if !handles::has_handle_length(name) {
        Some(error::bad_request("mirror name must be 1–100 characters"@))
    } else if !handles::is_plain(name) {
        Some(error::bad_request("mirror name may only contain letters, digits, '.', '_' and '-'"@))
    } else {
        None
    }
}

/// Refuses what cannot be the name of a mirror.
pub fn validate_name(name: &str) -> (r: Result<(), ApiError>)
    ensures
        match mirror_name_error(name@) {
            Some(e) => error::fails_with(r, e),
            None => r is Ok,
        },
{
    if !fits(name) {
        return Err(ApiError::bad_request("mirror name must be 1–100 characters"));
    }
    if !plain(name) {
        return Err(ApiError::bad_request("mirror name may only contain letters, digits, '.', '_' and '-'"));
    }
    Ok(())
}

/// Whether catalogs of that kind can be mirrored.
pub open spec fn is_mirror_kind(kind: Seq<char>) -> bool {
    kind == "iceberg-rest"@ || kind == "glue"@
}

/// The refusal of a kind of catalog.
pub open spec fn mirror_kind_error() -> error::ErrorView {
    error::bad_request("mirror kind must be one of [\"iceberg-rest\", \"glue\"]"@)
}

/// Refuses a kind of catalog that cannot be mirrored.
pub fn validate_kind(kind: &str) -> (r: Result<(), ApiError>)
    ensures
        if is_mirror_kind(kind@) {
            r is Ok
        } else {
            error::fails_with(r, mirror_kind_error())
        },
{
    if same(kind, "iceberg-rest") || same(kind, "glue") {
        Ok(())
    } else {
        Err(ApiError::bad_request("mirror kind must be one of [\"iceberg-rest\", \"glue\"]"))
    }
}

/// The 404 of a mirror.
pub open spec fn no_such_mirror(name: Seq<char>) -> error::ErrorView {
    error::error_of(ErrorKind::NoSuchMirror, "mirror "@ + text::quoted(name) + " does not exist"@)
}

fn missing_mirror(name: &str) -> (r: ApiError)
    ensures
        r@ == no_such_mirror(name@),
{
    ApiError::new(
        ErrorKind::NoSuchMirror,
        cat3("mirror ", quote(name).as_str(), " does not exist").as_str(),
    )
}

/// A store failure on a mirror.
pub fn mirror_error(name: &str, error: &StoreError) -> (r: ApiError)
    ensures
        r@ == (match error.kind {
            StoreKind::Conflict => error::error_of(ErrorKind::AlreadyExists, error.message@),
            StoreKind::NotFound => no_such_mirror(name@),
            _ => error::store_failure(*error),
        }),
{
    match error.kind {
        StoreKind::Conflict => ApiError::new(ErrorKind::AlreadyExists, error.message.as_str()),
        StoreKind::NotFound => missing_mirror(name),
        _ => ApiError::from_store(error),
    }
}

/// The mirror of a name.
pub fn get_mirror<T>(access: &Access, name: &str, found: Option<T>) -> (r: Result<T, ApiError>)
    ensures
        match grants::access_error(*access) {
            Some(e) => error::fails_with(r, e),
            None => match found {
                Some(mirror) => r matches Ok(got) && got == mirror,
                None => error::fails_with(r, no_such_mirror(name@)),
            },
        },
{
    match require(access) {
        Err(e) => { return Err(e); },
        Ok(()) => {},
    }
    match found {
        Some(mirror) => Ok(mirror),
        None => Err(missing_mirror(name)),
    }
}

/// The refusal of a mirror.
pub open spec fn create_error(access: Access, req: CreateMirrorRequest) -> Option<error::ErrorView> {
    match grants::access_error(access) {
        Some(e) => Some(e),
        None => match mirror_name_error(req.name@) {
            Some(e) => Some(e),
            None => if !is_mirror_kind(req.kind@) {
                Some(mirror_kind_error())
            } else if text::is_blank(req.endpoint@) {
                Some(error::bad_request("endpoint must not be empty"@))
            } else if req.sync_interval_s <= 0 {
                Some(error::bad_request("sync_interval_s must be positive"@))
            } else {
                None
            },
        },
    }
}

/// Admits a mirror.
pub fn create_mirror(access: &Access, req: &CreateMirrorRequest) -> (r: Result<(), ApiError>)
    ensures
        match create_error(*access, *req) {
            Some(e) => error::fails_with(r, e),
            None => r is Ok,
        },
{
    match require(access) {
        Err(e) => { return Err(e); },
        Ok(()) => {},
    }
    match validate_name(req.name.as_str()) {
        Err(e) => { return Err(e); },
        Ok(()) => {},
    }
    match validate_kind(req.kind.as_str()) {
        Err(e) => { return Err(e); },
        Ok(()) => {},
    }
    if blank(req.endpoint.as_str()) {
        return Err(ApiError::bad_request("endpoint must not be empty"));
    }
    if req.sync_interval_s <= 0 {
        return Err(ApiError::bad_request("sync_interval_s must be positive"));
    }
    Ok(())
}

/// The refusal of a change to a mirror.
pub open spec fn update_error(access: Access, req: UpdateMirrorRequest) -> Option<error::ErrorView> {
    match grants::access_error(access) {
        Some(e) => Some(e),
        None => if req.endpoint is Some && text::is_blank(req.endpoint->0@) {
            Some(error::bad_request("endpoint must not be empty"@))
        } else if req.sync_interval_s is Some && req.sync_interval_s->0 <= 0 {
            Some(error::bad_request("sync_interval_s must be positive"@))
        } else if req.endpoint is None && req.remote_catalog is None && req.config is None && req.enabled is None
            && req.sync_interval_s is None {
            Some(error::bad_request("no fields to update"@))
        } else {
            None
        },
    }
}

/// Admits a change to a mirror.
pub fn update_mirror(access: &Access, req: &UpdateMirrorRequest) -> (r: Result<(), ApiError>)
    ensures
        match update_error(*access, *req) {
            Some(e) => error::fails_with(r, e),
            None => r is Ok,
        },
{
    match require(access) {
        Err(e) => { return Err(e); },
        Ok(()) => {},
    }
    match &req.endpoint {
        Some(endpoint) => if blank(endpoint.as_str()) {
            return Err(ApiError::bad_request("endpoint must not be empty"));
        },
        None => {},
    }
    match req.sync_interval_s {
        Some(interval) => if interval <= 0 {
            return Err(ApiError::bad_request("sync_interval_s must be positive"));
        },
        None => {},
    }
    if req.endpoint.is_none() && req.remote_catalog.is_none() && req.config.is_none() && req.enabled.is_none()
        && req.sync_interval_s.is_none() {
        return Err(ApiError::bad_request("no fields to update"));
    }
    Ok(())
}

// ---------------------------------------------------------------------------
// Syncing
// ---------------------------------------------------------------------------

/// Query parameters of a mirror's runs.
#[derive(Debug)]
pub struct SyncStatusQuery {
    /// How many.
    pub limit: Option<i64>,
}

/// Admits the runs of a mirror, and gives the number of rows.
pub fn get_sync_status<T>(access: &Access, name: &str, query: &SyncStatusQuery, found: &Option<T>) -> (r: Result<
    i64,
    ApiError,
>)
    ensures
        match grants::access_error(*access) {
            Some(e) => error::fails_with(r, e),
            None => match *found {
                None => error::fails_with(r, no_such_mirror(name@)),
                Some(_) => r matches Ok(limit) && limit == limits::clamped(
                    query.limit,
                    DEFAULT_HISTORY_LIMIT,
                    1,
                    MAX_HISTORY_LIMIT,
                ),
            },
        },
{
    match require(access) {
        Err(e) => { return Err(e); },
        Ok(()) => {},
    }
    match found {
        None => Err(missing_mirror(name)),
        Some(_) => Ok(clamp(query.limit, DEFAULT_HISTORY_LIMIT, 1, MAX_HISTORY_LIMIT)),
    }
}

/// A run that synced a mirror.
#[derive(Debug)]
pub struct SyncRunResponse {
    /// ULID.
    pub id: String,
    /// How it went.
    pub status: String,
    /// How many assets it saw.
    pub assets_seen: i64,
    /// What it said.
    pub detail: Option<String>,
    /// When it started.
    pub started_at: String,
    /// When it ended.
    pub finished_at: Option<String>,
}

/// Query parameters of the summary over all catalogs.
#[derive(Debug)]
pub struct SprawlQuery {
    /// How long ago a mirror may have been synced, in seconds.
    pub stale_threshold_s: Option<i64>,
}

/// Admits the summary over all catalogs, and gives how long ago a mirror may
/// have been synced: a day, or as long as is asked for, never less than
/// nothing.
pub fn get_sprawl(access: &Access, query: &SprawlQuery) -> (r: Result<i64, ApiError>)
    ensures
        match grants::access_error(*access) {
            Some(e) => error::fails_with(r, e),
            None => r matches Ok(threshold) && threshold == (match query.stale_threshold_s {
                None => DEFAULT_STALE_THRESHOLD_S,
                Some(asked) => if asked < 0 { 0i64 } else { asked },
            }),
        },
{
    match require(access) {
        Err(e) => { return Err(e); },
        Ok(()) => {},
    }
    match query.stale_threshold_s {
        None => Ok(DEFAULT_STALE_THRESHOLD_S),
        Some(asked) => if asked < 0 { Ok(0) } else { Ok(asked) },
    }
}

/// What a mirror's configuration holds of a secret is never shown: its tokens,
/// credentials, keys and passwords.
pub proof fn every_secret_is_hidden(value: Seq<char>)
    ensures
        shown_value("token"@, value) == "***"@,
        shown_value("credential"@, value) == "***"@,
        shown_value("access-key-id"@, value) == "***"@,
        shown_value("secret-access-key"@, value) == "***"@,
        shown_value("session-token"@, value) == "***"@,
        shown_value("client-secret"@, value) == "***"@,
        shown_value("password"@, value) == "***"@,
{
}

/// A mirror is taken exactly from a caller who was granted access, under a good
/// name, of a known kind, at an endpoint that is not blank, and with a positive
/// interval; any other is a bad request.
pub proof fn mirrors_are_judged(access: Access, req: CreateMirrorRequest)
    ensures
        create_error(access, req) is None <==> access is Granted && mirror_name_error(req.name@) is None && (req.kind@
            == "iceberg-rest"@ || req.kind@ == "glue"@) && !text::is_blank(req.endpoint@) && req.sync_interval_s > 0,
        access is Granted ==> (create_error(access, req) matches Some(e) ==> e.kind == ErrorKind::BadRequest),
{
}

/// An update is taken exactly where it changes something, and what it changes is
/// sound.
pub proof fn mirror_updates_are_judged(access: Access, req: UpdateMirrorRequest)
    ensures
        update_error(access, req) is None <==> access is Granted && (req.endpoint matches Some(at) ==> !text::is_blank(
            at@,
        )) && (req.sync_interval_s matches Some(n) ==> n > 0) && (req.endpoint is Some || req.remote_catalog is Some
            || req.config is Some || req.enabled is Some || req.sync_interval_s is Some),
        access is Granted ==> (update_error(access, req) matches Some(e) ==> e.kind == ErrorKind::BadRequest),
{
}

} // verus!
