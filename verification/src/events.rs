//! Webhooks, the feed of events, and the durable consumers of the feed.
//!
//! A cursor of the feed is the id of an event: a read gives the events after
//! it. Reading on behalf of a consumer does not move its cursor; committing
//! does.

use vstd::prelude::*;

use crate::error;
use crate::error::{management_error, ApiError, ErrorKind, StoreError, StoreKind};
use crate::grants;
use crate::grants::{require, Access, Found};
use crate::handles;
use crate::handles::{fits, plain};
use crate::limits;
use crate::limits::clamp;
use crate::text;
use crate::text::{after_prefix, cat3, quote, same, split, starts, trim};

verus! {

/// The shortest secret of a webhook, in bytes.
pub const MIN_SECRET_LEN: usize = 16;

/// How many rows are given where no number is asked for.
pub const DEFAULT_PAGE_SIZE: i64 = 100;

/// The most rows that are given.
pub const MAX_PAGE_SIZE: i64 = 1000;

/// How the type of every event starts.
pub const EVENT_TYPE_PREFIX: &'static str = "com.meridian.";

// ---------------------------------------------------------------------------
// Event types
// ---------------------------------------------------------------------------

/// The refusal of an event type.
pub open spec fn event_type_error(event_type: Seq<char>) -> error::ErrorView {
    error::bad_request(
        "unknown event type "@ + text::quoted(event_type)
            + ": event types are CloudEvents type strings and start with \"com.meridian.\" (e.g. \"com.meridian.table.committed\")"@,
    )
}

/// Whether a text is the type of an event.
pub open spec fn is_event_type(event_type: Seq<char>) -> bool {
    "com.meridian."@.is_prefix_of(event_type)
}

/// Refuses what is not the type of an event.
pub fn validate_event_type(event_type: &str) -> (r: Result<(), ApiError>)
    ensures
        if is_event_type(event_type@) {
            r is Ok
        } else {
            error::fails_with(r, event_type_error(event_type@))
        },
{
    if starts(event_type, "com.meridian.") {
        Ok(())
    } else {
        Err(ApiError::bad_request(
            cat3(
                "unknown event type ",
                quote(event_type).as_str(),
                ": event types are CloudEvents type strings and start with \"com.meridian.\" (e.g. \"com.meridian.table.committed\")",
            ).as_str(),
        ))
    }
}

/// The short forms of the types in a list: each without blanks around it and
/// without the prefix; the empty pieces are left out, and the first that is no
/// event type is refused.
pub open spec fn short_types(pieces: Seq<Seq<char>>) -> Result<Seq<Seq<char>>, error::ErrorView>
    decreases pieces.len(),
{
    if pieces.len() == 0 {
        Ok(Seq::empty())
    } else {
        match short_types(pieces.drop_last()) {
            Err(e) => Err(e),
            Ok(earlier) => {
                let entry = text::trimmed(pieces.last());
                if entry.len() == 0 {
                    Ok(earlier)
                } else if !is_event_type(entry) {
                    Err(event_type_error(entry))
                } else {
                    Ok(earlier.push(entry.skip("com.meridian."@.len() as int)))
                }
            },
        }
    }
}

/// The types that a filter names, in their short forms; nothing where it names
/// none.
pub open spec fn types_named(types: Option<Seq<char>>) -> Result<Option<Seq<Seq<char>>>, error::ErrorView> {
    match types {
        None => Ok(None),
        Some(list) => match short_types(text::split_on(list, ',')) {
            Err(e) => Err(e),
            Ok(short) => if short.len() == 0 { Ok(None) } else { Ok(Some(short)) },
        },
    }
}

/// The model of a list that may be absent.
pub open spec fn opt_texts(items: Option<Vec<String>>) -> Option<Seq<Seq<char>>> {
    match items {
        Some(list) => Some(text::texts(list@)),
        None => None,
    }
}

proof fn a_refusal_stays(pieces: Seq<Seq<char>>, i: int)
    requires
        0 <= i <= pieces.len(),
        short_types(pieces.take(i)) is Err,
    ensures
        short_types(pieces) == short_types(pieces.take(i)),
    decreases pieces.len(),
{
    if i == pieces.len() {
        assert(pieces.take(i) =~= pieces);
    } else {
        assert(pieces.drop_last().take(i) =~= pieces.take(i));
        a_refusal_stays(pieces.drop_last(), i);
    }
}

/// Parses a filter of event types into their short forms.
pub fn parse_types(types: Option<&str>) -> (r: Result<Option<Vec<String>>, ApiError>)
    ensures
        match types_named(text::opt_str(types)) {
            Err(e) => error::fails_with(r, e),
            Ok(named) => r matches Ok(got) && opt_texts(got) == named,
        },
{
    let list = match types {
        None => { return Ok(None); },
        Some(list) => list,
    };
    let pieces = split(list, ',');
    let ghost all = text::texts(pieces@);
    let mut short: Vec<String> = Vec::new();
    let mut i: usize = 0;
    assert(all.take(0) =~= Seq::<Seq<char>>::empty());
    assert(text::texts(short@) =~= Seq::<Seq<char>>::empty());
    while i < pieces.len()
        invariant
            i <= pieces@.len(),
            all == text::texts(pieces@),
            all == text::split_on(list@, ','),
            types == Some(list),
            short_types(all.take(i as int)) == Ok::<Seq<Seq<char>>, error::ErrorView>(text::texts(short@)),
        decreases pieces@.len() - i,
    {
        let ghost next = all.take(i + 1);
        assert(next.drop_last() =~= all.take(i as int));
        assert(next.last() == pieces@[i as int]@);
        let entry = trim(pieces[i].as_str());
        if !entry.is_empty() {
            match after_prefix(entry, "com.meridian.") {
                Some(name) => {
                    let ghost before = short@;
                    short.push(name.to_owned());
                    assert(text::texts(short@) =~= text::texts(before).push(name@));
                },
                None => {
                    proof {
                        a_refusal_stays(all, i + 1);
                    }
                    return match validate_event_type(entry) {
                        Err(e) => Err(e),
                        Ok(()) => Ok(None),
                    };
                },
            }
        }
        i = i + 1;
    }
    assert(all.take(all.len() as int) =~= all);
    assert(text::texts(short@).len() == short@.len());
    if short.len() == 0 {
        Ok(None)
    } else {
        Ok(Some(short))
    }
}

// ---------------------------------------------------------------------------
// Webhooks
// ---------------------------------------------------------------------------

/// Request body to create a webhook.
#[derive(Debug)]
pub struct CreateWebhookRequest {
    /// Where events are sent.
    pub url: String,
    /// The types of the events that are sent; all of them, where there is
    /// none.
    pub event_types: Vec<String>,
    /// What the events are signed with.
    pub secret: String,
}

/// A webhook, as it is stored.
#[derive(Debug)]
pub struct WebhookEndpointRecord {
    /// ULID.
    pub id: String,
    /// Where events are sent.
    pub url: String,
    /// The types of the events that are sent.
    pub event_types: Vec<String>,
    /// What the events are signed with.
    pub secret: String,
    /// When it was created.
    pub created_at: String,
    /// When it was last changed.
    pub updated_at: String,
}

/// A webhook, as the API renders it: without its secret.
#[derive(Debug)]
pub struct WebhookResponse {
    /// ULID.
    pub id: String,
    /// Where events are sent.
    pub url: String,
    /// The types of the events that are sent.
    pub event_types: Vec<String>,
    /// When it was created.
    pub created_at: String,
    /// When it was last changed.
    pub updated_at: String,
}

/// A webhook as the API renders it.
pub open spec fn webhook_shown(record: WebhookEndpointRecord) -> WebhookResponse {
    WebhookResponse {
        id: record.id,
        url: record.url,
        event_types: record.event_types,
        created_at: record.created_at,
        updated_at: record.updated_at,
    }
}

impl WebhookResponse {
    /// Renders a webhook.
    pub fn from_record(record: WebhookEndpointRecord) -> (r: WebhookResponse)
        ensures
            r == webhook_shown(record),
    {
        WebhookResponse {
            id: record.id,
            url: record.url,
            event_types: record.event_types,
            created_at: record.created_at,
            updated_at: record.updated_at,
        }
    }
}

/// What is shown of a webhook does not depend on its secret.
pub proof fn secrets_are_not_shown(a: WebhookEndpointRecord, secret: String)
    ensures
        webhook_shown(a) == webhook_shown(WebhookEndpointRecord { secret, ..a }),
{
}

/// The refusal of the first text from `from` on that is no event type.
pub open spec fn first_type_error(types: Seq<Seq<char>>, from: int) -> Option<error::ErrorView>
    decreases types.len() - from,
{
    if from < 0 || from >= types.len() {
        None
    } else if !is_event_type(types[from]) {
        Some(event_type_error(types[from]))
    } else {
        first_type_error(types, from + 1)
    }
}

/// The refusal of a webhook.
pub open spec fn webhook_error(access: Access, req: CreateWebhookRequest) -> Option<error::ErrorView> {
    match grants::access_error(access) {
        Some(e) => Some(e),
        None => if !("https://"@.is_prefix_of(req.url@) || "http://"@.is_prefix_of(req.url@)) {
            Some(error::bad_request("webhook url must start with https:// or http://"@))
        } else if text::byte_len(req.secret@) < MIN_SECRET_LEN {
            Some(error::bad_request("webhook secret must be at least 16 characters"@))
        } else {
            first_type_error(text::texts(req.event_types@), 0)
        },
    }
}

/// Admits a webhook.
pub fn create_webhook(access: &Access, req: &CreateWebhookRequest) -> (r: Result<(), ApiError>)
    ensures
        match webhook_error(*access, *req) {
            Some(e) => error::fails_with(r, e),
            None => r is Ok,
        },
{
    match require(access) {
        Err(e) => { return Err(e); },
        Ok(()) => {},
    }
    if !(starts(req.url.as_str(), "https://") || starts(req.url.as_str(), "http://")) {
        return Err(ApiError::bad_request("webhook url must start with https:// or http://"));
    }
    if req.secret.as_str().len() < MIN_SECRET_LEN {
        return Err(ApiError::bad_request("webhook secret must be at least 16 characters"));
    }
    let ghost types = text::texts(req.event_types@);
    let mut i: usize = 0;
    while i < req.event_types.len()
        invariant
            i <= req.event_types@.len(),
            types == text::texts(req.event_types@),
            webhook_error(*access, *req) == first_type_error(types, 0),
            first_type_error(types, 0) == first_type_error(types, i as int),
        decreases req.event_types@.len() - i,
    {
        assert(types[i as int] == req.event_types@[i as int]@);
        match validate_event_type(req.event_types[i].as_str()) {
            Err(e) => { return Err(e); },
            Ok(()) => {},
        }
        i = i + 1;
    }
    Ok(())
}

/// The 404 of a webhook.
pub open spec fn no_such_webhook(id: Seq<char>) -> error::ErrorView {
    error::not_found("webhook "@ + text::quoted(id) + " does not exist"@)
}

fn missing_webhook(id: &str) -> (r: ApiError)
    ensures
        r@ == no_such_webhook(id@),
{
    ApiError::not_found(cat3("webhook ", quote(id).as_str(), " does not exist").as_str())
}

/// The webhook of an id.
pub fn get_webhook<T>(access: &Access, id: &str, found: Option<T>) -> (r: Result<T, ApiError>)
    ensures
        match grants::access_error(*access) {
            Some(e) => error::fails_with(r, e),
            None => match found {
                Some(hook) => r matches Ok(got) && got == hook,
                None => error::fails_with(r, no_such_webhook(id@)),
            },
        },
{
    match require(access) {
        Err(e) => { return Err(e); },
        Ok(()) => {},
    }
    match found {
        Some(hook) => Ok(hook),
        None => Err(missing_webhook(id)),
    }
}

/// Query parameters of the deliveries of a webhook.
#[derive(Debug)]
pub struct ListDeliveriesQuery {
    /// Only deliveries of this status.
    pub status: Option<String>,
    /// How many.
    pub limit: Option<i64>,
}

/// A delivery of an event to a webhook.
#[derive(Debug)]
pub struct DeliveryResponse {
    /// The event.
    pub event_id: String,
    /// The type of the event.
    pub event_type: String,
    /// `pending`, `delivered` or `dead`.
    pub status: String,
    /// How often it was tried.
    pub attempts: i32,
    /// The HTTP status of the last attempt.
    pub last_status: Option<i16>,
    /// What went wrong in the last attempt.
    pub last_error: Option<String>,
    /// When it is tried next.
    pub next_attempt_at: String,
    /// When it last changed.
    pub updated_at: String,
}

/// Whether a delivery can have the status.
pub open spec fn is_delivery_status(status: Seq<char>) -> bool {
    status == "pending"@ || status == "delivered"@ || status == "dead"@
}

/// The next step of listing the deliveries of a webhook.
#[derive(Debug)]
pub enum DeliveriesStep {
    /// Look up the webhook.
    AskWebhook,
    /// List so many deliveries.
    List(i64),
}

/// Takes the next step of listing the deliveries of a webhook. An unknown
/// webhook is a 404, not an empty list.
pub fn list_webhook_deliveries(access: &Access, id: &str, query: &ListDeliveriesQuery, webhook: &Found<()>) -> (r: Result<
    DeliveriesStep,
    ApiError,
>)
    ensures
        match grants::access_error(*access) {
            Some(e) => error::fails_with(r, e),
            None => match query.status {
                Some(status) if !is_delivery_status(status@) => error::fails_with(
                    r,
                    error::bad_request("status must be one of pending, delivered, dead"@),
                ),
                _ => match *webhook {
                    Found::Unasked => r matches Ok(step) && step is AskWebhook,
                    Found::Missing => error::fails_with(r, no_such_webhook(id@)),
                    Found::Is(_) => r matches Ok(DeliveriesStep::List(limit)) && limit == limits::clamped(
                        query.limit,
                        DEFAULT_PAGE_SIZE,
                        1,
                        MAX_PAGE_SIZE,
                    ),
                },
            },
        },
{
    match require(access) {
        Err(e) => { return Err(e); },
        Ok(()) => {},
    }
    match &query.status {
        None => {},
        Some(status) => if !(same(status.as_str(), "pending") || same(status.as_str(), "delivered") || same(
            status.as_str(),
            "dead",
        )) {
            return Err(ApiError::bad_request("status must be one of pending, delivered, dead"));
        },
    }
    match webhook {
        Found::Unasked => Ok(DeliveriesStep::AskWebhook),
        Found::Missing => Err(missing_webhook(id)),
        Found::Is(_) => Ok(DeliveriesStep::List(clamp(query.limit, DEFAULT_PAGE_SIZE, 1, MAX_PAGE_SIZE))),
    }
}

// ---------------------------------------------------------------------------
// The feed
// ---------------------------------------------------------------------------

/// Query parameters of the feed.
#[derive(Debug)]
pub struct FeedQuery {
    /// Only events after this one; `latest` stands for the end of the feed.
    pub after: Option<String>,
    /// Only events of these types, with commas between.
    pub types: Option<String>,
    /// How many.
    pub limit: Option<i64>,
}

/// A read of the feed.
#[derive(Debug)]
pub struct FeedRead {
    /// Only events after this one.
    pub after: String,
    /// Only events of these types, in their short forms.
    pub types: Option<Vec<String>>,
    /// How many.
    pub limit: i64,
}

/// The next step of reading the feed.
#[derive(Debug)]
pub enum FeedStep {
    /// Look up the end of the feed.
    AskLatest,
    /// Look up the consumer.
    AskConsumer,
    /// Read.
    Read(FeedRead),
}

/// Whether the read is the one asked for.
pub open spec fn reads(
    r: Result<FeedStep, ApiError>,
    after: Seq<char>,
    types: Option<String>,
    limit: Option<i64>,
) -> bool {
    match types_named(text::opt_text(types)) {
        Err(e) => error::fails_with(r, e),
        Ok(named) => {
            &&& r matches Ok(FeedStep::Read(read))
            &&& read.after@ == after
            &&& opt_texts(read.types) == named
            &&& read.limit == limits::clamped(limit, DEFAULT_PAGE_SIZE, 1, MAX_PAGE_SIZE)
        },
    }
}

fn read_after(after: String, types: &Option<String>, limit: Option<i64>) -> (r: Result<FeedStep, ApiError>)
    ensures
        reads(r, after@, *types, limit),
{
    let parsed = match types {
        Some(list) => parse_types(Some(list.as_str())),
        None => parse_types(None),
    };
    match parsed {
        Err(e) => Err(e),
        Ok(types) => Ok(
            FeedStep::Read(FeedRead { after, types, limit: clamp(limit, DEFAULT_PAGE_SIZE, 1, MAX_PAGE_SIZE) }),
        ),
    }
}

/// Takes the next step of reading the feed: from the beginning, after an
/// event, or after the end of the feed.
pub fn list_events(access: &Access, query: &FeedQuery, latest: &Option<String>) -> (r: Result<FeedStep, ApiError>)
    ensures
        match grants::access_error(*access) {
            Some(e) => error::fails_with(r, e),
            None => match query.after {
                None => reads(r, ""@, query.types, query.limit),
                Some(after) => if after@ == "latest"@ {
                    match *latest {
                        None => r matches Ok(step) && step is AskLatest,
                        Some(end) => reads(r, end@, query.types, query.limit),
                    }
                } else {
                    reads(r, after@, query.types, query.limit)
                },
            },
        },
{
    match require(access) {
        Err(e) => { return Err(e); },
        Ok(()) => {},
    }
    let after = match &query.after {
        None => "".to_owned(),
        Some(after) => if same(after.as_str(), "latest") {
            match latest {
                None => { return Ok(FeedStep::AskLatest); },
                Some(end) => end.clone(),
            }
        } else {
            after.clone()
        },
    };
    read_after(after, &query.types, query.limit)
}

/// Where the next read of the feed starts: after the last event, or where this
/// one did, where it gave none.
pub open spec fn cursor_after(after: Seq<char>, ids: Seq<Seq<char>>) -> Seq<char> {
    if ids.len() == 0 {
        after
    } else {
        ids.last()
    }
}

/// Where the next read of the feed starts, after one that gave these events.
pub fn read_feed(after: &str, ids: &Vec<String>) -> (r: String)
    ensures
        r@ == cursor_after(after@, text::texts(ids@)),
{
    assert(text::texts(ids@).len() == ids@.len());
    if ids.len() == 0 {
        after.to_owned()
    } else {
        assert(text::texts(ids@).last() == ids@.last()@);
        ids[ids.len() - 1].clone()
    }
}

/// Reading on from where a page ended covers what one longer page would have
/// covered: the cursor after two pages is the cursor after both together.
pub proof fn pages_join(after: Seq<char>, first: Seq<Seq<char>>, second: Seq<Seq<char>>)
    ensures
        cursor_after(cursor_after(after, first), second) == cursor_after(after, first + second),
{
    if second.len() > 0 {
        assert((first + second).last() == second.last());
    } else {
        assert(first + second =~= first);
    }
}

// ---------------------------------------------------------------------------
// Consumers
// ---------------------------------------------------------------------------

/// Request body to create a consumer.
#[derive(Debug)]
pub struct CreateConsumerRequest {
    /// Its name.
    pub name: String,
}

/// A consumer.
#[derive(Debug)]
pub struct ConsumerResponse {
    /// Its name.
    pub name: String,
    /// The cursor it committed last.
    pub cursor: Option<String>,
    /// When it was created.
    pub created_at: String,
    /// When it last committed.
    pub updated_at: String,
}

/// The refusal of a consumer's name.
pub open spec fn consumer_name_error(name: Seq<char>) -> Option<error::ErrorView> {
    if !handles::has_handle_length(name) {
        Some(error::bad_request("consumer name must be 1–100 characters"@))
    } else if !handles::is_plain(name) {
        Some(error::bad_request("consumer name may only contain letters, digits, '.', '_' and '-'"@))
    } else {
        None
    }
}

/// Refuses what cannot be the name of a consumer.
pub fn validate_consumer_name(name: &str) -> (r: Result<(), ApiError>)
    ensures
        match consumer_name_error(name@) {
            Some(e) => error::fails_with(r, e),
            None => r is Ok,
        },
{
    if !fits(name) {
        return Err(ApiError::bad_request("consumer name must be 1–100 characters"));
    }
    if !plain(name) {
        return Err(ApiError::bad_request("consumer name may only contain letters, digits, '.', '_' and '-'"));
    }
    Ok(())
}

/// Admits a consumer.
pub fn create_consumer(access: &Access, req: &CreateConsumerRequest) -> (r: Result<(), ApiError>)
    ensures
        match grants::access_error(*access) {
            Some(e) => error::fails_with(r, e),
            None => match consumer_name_error(req.name@) {
                Some(e) => error::fails_with(r, e),
                None => r is Ok,
            },
        },
{
    match require(access) {
        Err(e) => Err(e),
        Ok(()) => validate_consumer_name(req.name.as_str()),
    }
}

/// Query parameters of a consumer's next batch.
#[derive(Debug)]
pub struct ConsumerNextQuery {
    /// Only events of these types, with commas between.
    pub types: Option<String>,
    /// How many.
    pub limit: Option<i64>,
}

/// The 404 of a consumer.
pub open spec fn no_such_consumer(name: Seq<char>) -> error::ErrorView {
    error::not_found("consumer "@ + text::quoted(name) + " does not exist"@)
}

/// Takes the next step of reading a consumer's next batch: the events after
/// its cursor, which stays where it is; from the beginning, where it has
/// committed none.
pub fn consumer_next(access: &Access, name: &str, query: &ConsumerNextQuery, cursor: &Found<Option<String>>) -> (r: Result<
    FeedStep,
    ApiError,
>)
    ensures
        match grants::access_error(*access) {
            Some(e) => error::fails_with(r, e),
            None => match *cursor {
                Found::Unasked => r matches Ok(step) && step is AskConsumer,
                Found::Missing => error::fails_with(r, no_such_consumer(name@)),
                Found::Is(Some(at)) => reads(r, at@, query.types, query.limit),
                Found::Is(None) => reads(r, ""@, query.types, query.limit),
            },
        },
{
    match require(access) {
        Err(e) => { return Err(e); },
        Ok(()) => {},
    }
    let after = match cursor {
        Found::Unasked => { return Ok(FeedStep::AskConsumer); },
        Found::Missing => {
            return Err(ApiError::not_found(cat3("consumer ", quote(name).as_str(), " does not exist").as_str()));
        },
        Found::Is(at) => match at {
            Some(at) => at.clone(),
            None => "".to_owned(),
        },
    };
    read_after(after, &query.types, query.limit)
}

/// Request body to commit a cursor.
#[derive(Debug)]
pub struct CommitCursorRequest {
    /// The cursor.
    pub cursor: String,
}

/// Admits the commit of a cursor.
pub fn consumer_commit(access: &Access, req: &CommitCursorRequest) -> (r: Result<(), ApiError>)
    ensures
        match grants::access_error(*access) {
            Some(e) => error::fails_with(r, e),
            None => if req.cursor@.len() == 0 {
                error::fails_with(r, error::bad_request("cursor must not be empty"@))
            } else {
                r is Ok
            },
        },
{
    match require(access) {
        Err(e) => { return Err(e); },
        Ok(()) => {},
    }
    if req.cursor.as_str().is_empty() {
        return Err(ApiError::bad_request("cursor must not be empty"));
    }
    Ok(())
}

/// A store failure of the commit of a cursor: a cursor that would move
/// backwards is a failed commit.
pub fn commit_cursor_error(error: &StoreError) -> (r: ApiError)
    ensures
        r@ == (match error.kind {
            StoreKind::Conflict => error::error_of(ErrorKind::CommitFailed, error.message@),
            _ => error::management_view(*error),
        }),
{
    match error.kind {
        StoreKind::Conflict => ApiError::new(ErrorKind::CommitFailed, error.message.as_str()),
        _ => management_error(error),
    }
}

/// Whether the piece at place `i` names the event type of this short name.
pub open spec fn names_type(pieces: Seq<Seq<char>>, i: int, short: Seq<char>) -> bool {
    0 <= i < pieces.len() && text::trimmed(pieces[i]) == "com.meridian."@ + short
}

/// Whether a piece that is not blank names no event type.
pub open spec fn some_unknown(pieces: Seq<Seq<char>>) -> bool {
    exists|i: int|
        0 <= i < pieces.len() && text::trimmed(#[trigger] pieces[i]).len() > 0 && !"com.meridian."@.is_prefix_of(
            text::trimmed(pieces[i]),
        )
}

/// Whether one of the pieces names the event type of this short name.
pub open spec fn is_named(pieces: Seq<Seq<char>>, short: Seq<char>) -> bool {
    exists|i: int| names_type(pieces, i, short)
}

/// A list of event types is taken exactly where every piece of it that is not
/// blank is an event type. An event type is then in the filter exactly where a
/// piece names it, without the prefix that they all have.
pub proof fn types_are_read_off_the_list(pieces: Seq<Seq<char>>, short: Seq<char>)
    ensures
        match short_types(pieces) {
            Ok(types) => !some_unknown(pieces) && (types.contains(short) <==> is_named(pieces, short)) && types.len()
                <= pieces.len(),
            Err(e) => some_unknown(pieces) && e.kind == ErrorKind::BadRequest,
        },
    decreases pieces.len(),
{
    if pieces.len() == 0 {
        assert(!Seq::<Seq<char>>::empty().contains(short));
    } else {
        let rest = pieces.drop_last();
        let last = pieces.len() - 1;
        let entry = text::trimmed(pieces.last());
        let front = "com.meridian."@;
        reveal_strlit("com.meridian.");
        types_are_read_off_the_list(rest, short);
        if some_unknown(rest) {
            let i = choose|i: int|
                0 <= i < rest.len() && text::trimmed(#[trigger] rest[i]).len() > 0 && !front.is_prefix_of(
                    text::trimmed(rest[i]),
                );
            assert(text::trimmed(pieces[i]).len() > 0 && !front.is_prefix_of(text::trimmed(pieces[i])));
        }
        if some_unknown(pieces) {
            let i = choose|i: int|
                0 <= i < pieces.len() && text::trimmed(#[trigger] pieces[i]).len() > 0 && !front.is_prefix_of(
                    text::trimmed(pieces[i]),
                );
            if i < last {
                assert(rest[i] == pieces[i]);
            }
        }
        if entry.len() > 0 && !front.is_prefix_of(entry) {
            assert(text::trimmed(pieces[last]).len() > 0);
        }
        if is_named(rest, short) {
            let i = choose|i: int| names_type(rest, i, short);
            assert(names_type(pieces, i, short));
        }
        if is_named(pieces, short) {
            let i = choose|i: int| names_type(pieces, i, short);
            if i < last {
                assert(names_type(rest, i, short));
            }
        }
        if let Ok(earlier) = short_types(rest) {
            if front.is_prefix_of(entry) {
                let own = entry.skip(front.len() as int);
                let all = earlier.push(own);
                assert(entry =~= front + own);
                assert((front + short).skip(front.len() as int) =~= short);
                if own == short {
                    assert(names_type(pieces, last, short));
                    assert(all[earlier.len() as int] == short);
                }
                if earlier.contains(short) {
                    let k = choose|k: int| 0 <= k < earlier.len() && earlier[k] == short;
                    assert(all[k] == short);
                }
                if all.contains(short) {
                    let k = choose|k: int| 0 <= k < all.len() && all[k] == short;
                    assert(k < earlier.len() ==> earlier[k] == short);
                }
            }
        }
    }
}

/// Without a list, or with one of blanks, every event is read; otherwise those
/// of the list.
pub proof fn filters_are_optional(types: Option<Seq<char>>)
    ensures
        match types_named(types) {
            Ok(None) => types matches Some(list) ==> short_types(text::split_on(list, ',')) matches Ok(short)
                && short.len() == 0,
            Ok(Some(named)) => named.len() > 0 && (types matches Some(list) && short_types(text::split_on(list, ','))
                == Ok::<Seq<Seq<char>>, error::ErrorView>(named)),
            Err(e) => types matches Some(list) && short_types(text::split_on(list, ',')) == Err::<
                Seq<Seq<char>>,
                error::ErrorView,
            >(e),
        },
{
}

proof fn type_errors_are_found(types: Seq<Seq<char>>, from: int)
    requires
        0 <= from,
    ensures
        first_type_error(types, from) is None <==> forall|i: int|
            from <= i < types.len() ==> "com.meridian."@.is_prefix_of(#[trigger] types[i]),
        first_type_error(types, from) matches Some(e) ==> e.kind == ErrorKind::BadRequest,
    decreases types.len() - from,
{
    if from < types.len() && is_event_type(types[from]) {
        type_errors_are_found(types, from + 1);
    }
}

/// A webhook is taken exactly from a caller who was granted access, at a web
/// address, with a secret of at least sixteen bytes, for event types that are
/// all known; any other is a bad request.
pub proof fn webhooks_are_judged(access: Access, req: CreateWebhookRequest)
    ensures
        webhook_error(access, req) is None <==> access is Granted && ("https://"@.is_prefix_of(req.url@)
            || "http://"@.is_prefix_of(req.url@)) && text::byte_len(req.secret@) >= 16 && forall|i: int|
            0 <= i < text::texts(req.event_types@).len() ==> "com.meridian."@.is_prefix_of(
                #[trigger] text::texts(req.event_types@)[i],
            ),
        access is Granted ==> (webhook_error(access, req) matches Some(e) ==> e.kind == ErrorKind::BadRequest),
{
    type_errors_are_found(text::texts(req.event_types@), 0);
}

} // verus!
