//! Queries of the audit log, and the check of its chain.

use vstd::prelude::*;

use crate::error;
use crate::error::ApiError;
use crate::grants;
use crate::grants::{require, Access};
use crate::limits;
use crate::limits::clamp;
use crate::metadata::copy_opt;
use crate::text;
use crate::text::{before_suffix, cat3, quote, same};

verus! {

/// How many entries are given where no number is asked for.
pub const DEFAULT_PAGE_SIZE: i64 = 100;

/// The most entries that are given.
pub const MAX_PAGE_SIZE: i64 = 1000;

/// Query parameters of the audit log.
#[derive(Debug)]
pub struct AuditQueryParams {
    /// Only entries of this principal.
    pub principal: Option<String>,
    /// Only entries of this action, or, where it ends in `.*`, of the actions
    /// that start like it.
    pub action: Option<String>,
    /// Only entries on this resource.
    pub resource: Option<String>,
    /// Only entries of this workspace.
    pub workspace: Option<String>,
    /// Only entries from this time on.
    pub from: Option<String>,
    /// Only entries up to this time.
    pub to: Option<String>,
    /// Only entries before this place in the chain.
    pub before: Option<i64>,
    /// How many.
    pub limit: Option<i64>,
}

/// An entry of the audit log: as it is stored, and as the API renders it.
#[derive(Debug)]
pub struct AuditEntryResponse {
    /// Its place in the chain.
    pub seq: i64,
    /// ULID.
    pub id: String,
    /// Its workspace.
    pub workspace_id: Option<String>,
    /// When it happened.
    pub occurred_at: String,
    /// Who acted.
    pub principal: String,
    /// What was done.
    pub action: String,
    /// To what.
    pub resource: String,
    /// The details, as JSON.
    pub details: String,
    /// The hash of the entry before it.
    pub prev_hash: Option<String>,
    /// Its hash.
    pub hash: String,
}

// ---------------------------------------------------------------------------
// Times
// ---------------------------------------------------------------------------

/// A point in time: seconds since the epoch, and nanoseconds on top of them.
#[derive(Clone, Copy, Debug, PartialEq, Eq, Structural)]
pub struct Instant {
    /// Seconds since the epoch.
    pub seconds: i64,
    /// Nanoseconds on top of them.
    pub nanos: u32,
}

/// The point in time that an RFC 3339 text stands for: seconds and
/// nanoseconds; nothing for any other text.
pub uninterp spec fn rfc3339_time(raw: Seq<char>) -> Option<(i64, u32)>;

/// `chrono::DateTime::parse_from_rfc3339`: the point in time that the text
/// stands for, as the seconds since the epoch and the nanoseconds on top of
/// them, or nothing, where it is not an RFC 3339 timestamp. Which texts are,
/// and of which times, is not said here.
#[verifier::external_body]
fn parse_rfc3339(raw: &str) -> (r: Option<(i64, u32)>)
    ensures
        r == rfc3339_time(raw@),
{
    match chrono::DateTime::parse_from_rfc3339(raw) {
        Ok(t) => Some((t.timestamp(), t.timestamp_subsec_nanos())),
        Err(_) => None,
    }
}

/// Whether one point in time is after another.
pub open spec fn is_later(a: Instant, b: Instant) -> bool {
    a.seconds > b.seconds || (a.seconds == b.seconds && a.nanos > b.nanos)
}

/// The refusal of a timestamp.
pub open spec fn timestamp_error(name: Seq<char>, raw: Seq<char>) -> error::ErrorView {
    error::bad_request(
        name + " must be an RFC 3339 timestamp (e.g. 2026-07-02T10:00:00Z), got "@ + text::quoted(raw),
    )
}

/// The point in time of a parameter that has been parsed.
pub open spec fn timestamp_of(name: Seq<char>, raw: Seq<char>, parsed: Option<(i64, u32)>) -> Result<
    Instant,
    error::ErrorView,
> {
    match parsed {
        Some((seconds, nanos)) => Ok(Instant { seconds, nanos }),
        None => Err(timestamp_error(name, raw)),
    }
}

/// The point in time of a parameter that has been parsed, or its refusal.
pub fn timestamp_parsed(name: &str, raw: &str, parsed: Option<(i64, u32)>) -> (r: Result<Instant, ApiError>)
    ensures
        error::outcome(r) == timestamp_of(name@, raw@, parsed),
{
    match parsed {
        Some((seconds, nanos)) => Ok(Instant { seconds, nanos }),
        None => {
            let message = cat3(
                name,
                " must be an RFC 3339 timestamp (e.g. 2026-07-02T10:00:00Z), got ",
                quote(raw).as_str(),
            );
            Err(ApiError::bad_request(message.as_str()))
        },
    }
}

/// The point in time of a parameter.
pub fn parse_timestamp(name: &str, raw: &str) -> (r: Result<Instant, ApiError>)
    ensures
        error::outcome(r) == timestamp_of(name@, raw@, rfc3339_time(raw@)),
{
    timestamp_parsed(name, raw, parse_rfc3339(raw))
}

/// The bound of a query, where it has one.
pub open spec fn bound_of(name: Seq<char>, raw: Option<String>) -> Result<Option<Instant>, error::ErrorView> {
    match raw {
        None => Ok(None),
        Some(s) => match timestamp_of(name, s@, rfc3339_time(s@)) {
            Ok(t) => Ok(Some(t)),
            Err(e) => Err(e),
        },
    }
}

fn parse_bound(name: &str, raw: &Option<String>) -> (r: Result<Option<Instant>, ApiError>)
    ensures
        error::outcome(r) == bound_of(name@, *raw),
{
    match raw {
        None => Ok(None),
        Some(s) => match parse_timestamp(name, s.as_str()) {
            Ok(t) => Ok(Some(t)),
            Err(e) => Err(e),
        },
    }
}

/// Whether the bounds of a query contradict each other.
pub open spec fn is_reversed(from: Option<Instant>, to: Option<Instant>) -> bool {
    from is Some && to is Some && is_later(from->0, to->0)
}

/// Refuses bounds that contradict each other.
pub fn check_bounds(from: &Option<Instant>, to: &Option<Instant>) -> (r: Result<(), ApiError>)
    ensures
        if is_reversed(*from, *to) {
            error::fails_with(r, error::bad_request("from must not be after to"@))
        } else {
            r is Ok
        },
{
    match from {
        None => Ok(()),
        Some(a) => match to {
            None => Ok(()),
            Some(b) => if a.seconds > b.seconds || (a.seconds == b.seconds && a.nanos > b.nanos) {
                Err(ApiError::bad_request("from must not be after to"))
            } else {
                Ok(())
            },
        },
    }
}

// ---------------------------------------------------------------------------
// The query
// ---------------------------------------------------------------------------

/// The two forms of an action filter: the exact action, and the prefix.
pub open spec fn action_filter(action: Option<Seq<char>>) -> (Option<Seq<char>>, Option<Seq<char>>) {
    match action {
        None => (None, None),
        Some(action) => if action == "*"@ {
            (None, None)
        } else if text::ends_in(action, ".*"@) {
            (None, Some(action.drop_last()))
        } else {
            (Some(action), None)
        },
    }
}

/// Splits the action filter into its exact and its prefix form. `table.*`
/// stands for every action that starts with `table.`, `*` for every action,
/// and anything else for itself.
pub fn parse_action_filter(action: Option<&str>) -> (r: (Option<String>, Option<String>))
    ensures
        (text::opt_text(r.0), text::opt_text(r.1)) == action_filter(text::opt_str(action)),
{
    match action {
        None => (None, None),
        Some(action) => {
            if same(action, "*") {
                return (None, None);
            }
            match before_suffix(action, ".*") {
                Some(_) => {
                    proof {
                        reveal_strlit(".*");
                    }
                    let prefix = action.substring_char(0, action.unicode_len() - 1);
                    assert(prefix@ =~= action@.drop_last());
                    (None, Some(prefix.to_owned()))
                },
                None => (Some(action.to_owned()), None),
            }
        },
    }
}

/// Whether a filter takes an action.
pub open spec fn filter_takes(filter: (Option<Seq<char>>, Option<Seq<char>>), action: Seq<char>) -> bool {
    &&& filter.0 matches Some(exact) ==> action == exact
    &&& filter.1 matches Some(prefix) ==> prefix.is_prefix_of(action)
}

/// A group filter such as `table.*` takes the actions of the group, and no
/// others.
pub proof fn groups_take_their_actions(group: Seq<char>, action: Seq<char>)
    requires
        group.len() > 0,
    ensures
        filter_takes(action_filter(Some(group + ".*"@)), action) == (group + "."@).is_prefix_of(action),
{
    reveal_strlit(".*");
    reveal_strlit(".");
    reveal_strlit("*");
    let filter = group + ".*"@;
    assert(filter.len() > "*"@.len());
    assert(text::stands_in(filter, ".*"@, group.len() as int)) by {
        assert(filter.subrange(group.len() as int, group.len() + 2int) =~= ".*"@);
    }
    assert(filter.drop_last() =~= group + "."@);
}

/// The filter `*` takes every action.
pub proof fn the_star_takes_everything(action: Seq<char>)
    ensures
        filter_takes(action_filter(Some("*"@)), action),
{
}

/// A query of the audit log.
#[derive(Debug)]
pub struct AuditQuery {
    /// The workspace.
    pub workspace_id: Option<String>,
    /// Whose actions.
    pub principal: Option<String>,
    /// What was acted on.
    pub resource: Option<String>,
    /// Only entries older than this one.
    pub before_seq: Option<i64>,
    /// The exact action.
    pub action_exact: Option<String>,
    /// How the action starts.
    pub action_prefix: Option<String>,
    /// The lower bound.
    pub from: Option<Instant>,
    /// The upper bound.
    pub to: Option<Instant>,
    /// How many entries a page holds.
    pub limit: i64,
    /// How many entries to look up: one more, which tells whether a page
    /// follows.
    pub fetch: i64,
}

/// Admits a query of the audit log: management access, then the bounds, each
/// of which must be a timestamp, and in order.
pub fn query_audit(access: &Access, params: &AuditQueryParams) -> (r: Result<AuditQuery, ApiError>)
    ensures
        match grants::access_error(*access) {
            Some(e) => error::fails_with(r, e),
            None => match bound_of("from"@, params.from) {
                Err(e) => error::fails_with(r, e),
                Ok(from) => match bound_of("to"@, params.to) {
                    Err(e) => error::fails_with(r, e),
                    Ok(to) => if is_reversed(from, to) {
                        error::fails_with(r, error::bad_request("from must not be after to"@))
                    } else {
                        &&& r matches Ok(q)
                        &&& q.workspace_id == params.workspace
                        &&& q.principal == params.principal
                        &&& q.resource == params.resource
                        &&& q.before_seq == params.before
                        &&& q.from == from
                        &&& q.to == to
                        &&& (text::opt_text(q.action_exact), text::opt_text(q.action_prefix)) == action_filter(
                            text::opt_text(params.action),
                        )
                        &&& q.limit == limits::clamped(params.limit, DEFAULT_PAGE_SIZE, 1, MAX_PAGE_SIZE)
                        &&& q.fetch == q.limit + 1
                    },
                },
            },
        },
{
    match require(access) {
        Err(e) => { return Err(e); },
        Ok(()) => {},
    }
    let from = match parse_bound("from", &params.from) {
        Err(e) => { return Err(e); },
        Ok(t) => t,
    };
    let to = match parse_bound("to", &params.to) {
        Err(e) => { return Err(e); },
        Ok(t) => t,
    };
    match check_bounds(&from, &to) {
        Err(e) => { return Err(e); },
        Ok(()) => {},
    }
    let (action_exact, action_prefix) = match &params.action {
        Some(action) => parse_action_filter(Some(action.as_str())),
        None => parse_action_filter(None),
    };
    let limit = clamp(params.limit, DEFAULT_PAGE_SIZE, 1, MAX_PAGE_SIZE);
    Ok(
        AuditQuery {
            workspace_id: copy_opt(&params.workspace),
            principal: copy_opt(&params.principal),
            resource: copy_opt(&params.resource),
            before_seq: params.before,
            action_exact,
            action_prefix,
            from,
            to,
            limit,
            fetch: limit + 1,
        },
    )
}

/// The page of the entries that were looked up.
pub open spec fn audit_page(entries: Seq<AuditEntryResponse>, limit: int) -> Seq<AuditEntryResponse> {
    if 1 <= limit < entries.len() {
        entries.take(limit)
    } else {
        entries
    }
}

/// The cursor of the page after it: the place of its last entry, where entries
/// were left out.
pub open spec fn audit_cursor(entries: Seq<AuditEntryResponse>, limit: int) -> Option<i64> {
    if 1 <= limit < entries.len() {
        Some(entries[limit - 1].seq)
    } else {
        None
    }
}

/// Cuts the entries that were looked up to a page of `limit`, and gives the
/// cursor of the next page. The last page has none.
pub fn next_cursor(entries: &mut Vec<AuditEntryResponse>, limit: i64) -> (r: Option<i64>)
    ensures
        final(entries)@ == audit_page(old(entries)@, limit as int),
        r == audit_cursor(old(entries)@, limit as int),
{
    if limit < 1 || entries.len() as u64 <= limit as u64 {
        return None;
    }
    let size: usize = limit as usize;
    entries.truncate(size);
    Some(entries[size - 1].seq)
}

/// Of all entries, newest first, one more is looked up than the page holds. The
/// page has a cursor exactly where entries are left, and those that come after
/// the cursor are those that the page does not hold: none is skipped, and none
/// comes twice.
pub proof fn audit_pages_meet(all: Seq<AuditEntryResponse>, limit: int, i: int)
    requires
        1 <= limit,
        0 <= i < all.len(),
        forall|a: int, b: int| 0 <= a < b < all.len() ==> (#[trigger] all[a]).seq > (#[trigger] all[b]).seq,
    ensures
        ({
            let fetched = if all.len() > limit + 1 {
                all.take(limit + 1)
            } else {
                all
            };
            &&& audit_cursor(fetched, limit) is Some <==> all.len() > limit
            &&& audit_cursor(fetched, limit) matches Some(cursor) ==> (all[i].seq < cursor <==> i >= limit)
            &&& i < limit <==> i < audit_page(fetched, limit).len()
            &&& i < limit ==> audit_page(fetched, limit)[i] == all[i]
        }),
{
}

// ---------------------------------------------------------------------------
// The chain
// ---------------------------------------------------------------------------

/// What a walk along the chain found.
#[derive(Debug)]
pub struct ChainReport {
    /// How many entries are right.
    pub entries_checked: u64,
    /// The first one that is not.
    pub broken_at: Option<i64>,
    /// What is wrong with it.
    pub error: Option<String>,
    /// Whether the whole chain is right.
    pub valid: bool,
}

/// The answer to a check of the chain.
#[derive(Debug)]
pub struct VerifyChainResponse {
    /// How many entries are right.
    pub entries_checked: u64,
    /// Whether the whole chain is right.
    pub valid: bool,
    /// The first entry that is not.
    pub broken_at: Option<i64>,
    /// What is wrong with it.
    pub error: Option<String>,
}

/// What is known so far of a check of the chain.
#[derive(Debug)]
pub struct ChainFacts {
    /// What the walk found.
    pub report: Option<ChainReport>,
    /// Whether the check itself is in the log.
    pub recorded: bool,
}

/// The next step of a check of the chain.
#[derive(Debug)]
pub enum ChainStep {
    /// Walk along the chain.
    Walk,
    /// Put the check into the log: how many entries are right, and whether all
    /// are.
    Record(u64, bool),
    /// Answer.
    Answer,
}

/// The action under which a check of the chain is recorded.
pub const VERIFY_ACTION: &'static str = "audit.verify";

/// The resource under which a check of the chain is recorded.
pub const VERIFY_RESOURCE: &'static str = "audit:chain";

/// The step of a check of the chain.
pub open spec fn chain_step(access: Access, facts: ChainFacts) -> Result<ChainStep, error::ErrorView> {
    match grants::access_error(access) {
        Some(e) => Err(e),
        None => match facts.report {
            None => Ok(ChainStep::Walk),
            Some(report) => if facts.recorded {
                Ok(ChainStep::Answer)
            } else {
                Ok(ChainStep::Record(report.entries_checked, report.valid))
            },
        },
    }
}

/// Takes the next step of a check of the chain. The check is recorded after
/// the walk, so that it is not among the entries walked.
pub fn verify_audit_chain(access: &Access, facts: &ChainFacts) -> (r: Result<ChainStep, ApiError>)
    ensures
        error::outcome(r) == chain_step(*access, *facts),
{
    match require(access) {
        Err(e) => { return Err(e); },
        Ok(()) => {},
    }
    match &facts.report {
        None => Ok(ChainStep::Walk),
        Some(report) => if facts.recorded {
            Ok(ChainStep::Answer)
        } else {
            Ok(ChainStep::Record(report.entries_checked, report.valid))
        },
    }
}

/// Nobody sees what a check of the chain found before the check is recorded.
pub proof fn checks_are_recorded(access: Access, facts: ChainFacts)
    ensures
        chain_step(access, facts) matches Ok(ChainStep::Answer) ==> facts.recorded && access is Granted,
        chain_step(access, facts) matches Ok(ChainStep::Record(..)) ==> facts.report is Some,
{
}

impl VerifyChainResponse {
    /// The answer that says what the walk found.
    pub fn from_report(report: ChainReport) -> (r: VerifyChainResponse)
        ensures
            r.entries_checked == report.entries_checked,
            r.valid == report.valid,
            r.broken_at == report.broken_at,
            r.error == report.error,
    {
        VerifyChainResponse {
            entries_checked: report.entries_checked,
            valid: report.valid,
            broken_at: report.broken_at,
            error: report.error,
        }
    }
}

/// A filter takes what it names: without one, every action; with an exact name,
/// that action alone.
pub proof fn filters_take_what_they_name(action: Seq<char>, other: Seq<char>)
    ensures
        filter_takes(action_filter(None), other),
        action != "*"@ && !text::ends_in(action, ".*"@) ==> (filter_takes(action_filter(Some(action)), other) <==> other
            == action),
{
}

/// Bounds are reversed exactly where the first is later than the second, by the
/// second or, within it, by the nanosecond; open bounds never are.
pub proof fn bounds_are_compared(from: Option<Instant>, to: Option<Instant>)
    ensures
        is_reversed(from, to) <==> (from matches Some(a) && (to matches Some(b) && (a.seconds > b.seconds || a.seconds
            == b.seconds && a.nanos > b.nanos))),
        from == to ==> !is_reversed(from, to),
        is_reversed(from, to) ==> !is_reversed(to, from),
{
}

/// The chain is walked for a caller who was granted access, what was found is
/// recorded as it was found, and only then answered.
pub proof fn checks_go_on(access: Access, facts: ChainFacts)
    ensures
        match chain_step(access, facts) {
            Ok(ChainStep::Walk) => access is Granted && facts.report is None,
            Ok(ChainStep::Record(checked, valid)) => access is Granted && !facts.recorded && (facts.report matches Some(
                report,
            ) && checked == report.entries_checked && valid == report.valid),
            Ok(ChainStep::Answer) => access is Granted && facts.recorded && facts.report is Some,
            Err(_) => !(access is Granted),
        },
{
}

} // verus!
