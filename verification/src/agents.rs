//! The registry of agents, the kill switch, and the ledger of tool calls.

use vstd::prelude::*;

use crate::error;
use crate::error::{ApiError, ErrorKind};
use crate::grants;
use crate::grants::{require, Access};
use crate::limits;
use crate::limits::{clamp, is_full};
use crate::text;
use crate::text::{cat3, cat5, quote, same};

verus! {

/// How many tool calls are given where no number is asked for.
pub const DEFAULT_ACTIVITY_LIMIT: i64 = 50;

/// The most tool calls that are given.
pub const MAX_ACTIVITY_LIMIT: i64 = 200;

/// Request body to register an agent.
#[derive(Debug)]
pub struct RegisterAgentRequest {
    /// The issuer of the agent's tokens.
    pub issuer: String,
    /// The subject of the agent's tokens.
    pub subject: String,
    /// What people call it.
    pub display_name: Option<String>,
    /// Who answers for it.
    pub owner: String,
    /// What it is for.
    pub purpose: String,
    /// Where it runs: `dev` or `prod`.
    pub environment: String,
    /// When it is refused from.
    pub expires_at: Option<String>,
    /// When it is to be looked at again.
    pub review_at: Option<String>,
    /// Queries per hour at most.
    pub queries_per_hour: Option<i64>,
    /// Bytes scanned per day at most.
    pub scanned_bytes_per_day: Option<i64>,
    /// Cost per day at most, in millionths of a dollar.
    pub dollar_cap_micros: Option<i64>,
}

/// Where an agent runs, where the request does not say.
pub fn default_environment() -> (r: String)
    ensures
        r@ == "dev"@,
{
    "dev".to_owned()
}

/// An agent, as it is stored.
#[derive(Debug)]
pub struct AgentPrincipal {
    /// The id of its principal.
    pub principal_id: String,
    /// Who answers for it.
    pub owner: String,
    /// What it is for.
    pub purpose: String,
    /// Where it runs.
    pub environment: String,
    /// When it is refused from.
    pub expires_at: Option<String>,
    /// When it is to be looked at again.
    pub review_at: Option<String>,
    /// Whether it is live.
    pub enabled: bool,
    /// When it was registered.
    pub created_at: String,
}

/// An agent, as the API renders it.
#[derive(Debug)]
pub struct AgentResponse {
    /// The id of its principal.
    pub id: String,
    /// Who answers for it.
    pub owner: String,
    /// What it is for.
    pub purpose: String,
    /// Where it runs.
    pub environment: String,
    /// When it is refused from.
    pub expires_at: Option<String>,
    /// When it is to be looked at again.
    pub review_at: Option<String>,
    /// Whether it is live.
    pub enabled: bool,
    /// When it was registered.
    pub created_at: String,
}

impl AgentResponse {
    /// Renders an agent.
    pub fn from_record(a: AgentPrincipal) -> (r: AgentResponse)
        ensures
            r.id == a.principal_id,
            r.owner == a.owner,
            r.purpose == a.purpose,
            r.environment == a.environment,
            r.expires_at == a.expires_at,
            r.review_at == a.review_at,
            r.enabled == a.enabled,
            r.created_at == a.created_at,
    {
        AgentResponse {
            id: a.principal_id,
            owner: a.owner,
            purpose: a.purpose,
            environment: a.environment,
            expires_at: a.expires_at,
            review_at: a.review_at,
            enabled: a.enabled,
            created_at: a.created_at,
        }
    }
}

/// The next step of registering an agent.
#[derive(Debug)]
pub enum RegisterStep {
    /// Provision the principal of the issuer and the subject, as an agent.
    Provision,
    /// Attach the agent's envelope and budget to the principal.
    Register,
}

/// The refusal of an identity that is not an agent's.
pub open spec fn not_an_agent(issuer: Seq<char>, subject: Seq<char>, kind: Seq<char>) -> error::ErrorView {
    error::error_of(
        ErrorKind::AlreadyExists,
        "identity "@ + issuer + "::"@ + subject + " already exists as a "@ + kind
            + " principal and cannot be registered as an agent"@,
    )
}

/// The step of registering an agent; `kind` is that of the principal which has
/// been provisioned.
pub open spec fn register_step(access: Access, req: RegisterAgentRequest, kind: Option<Seq<char>>) -> Result<
    RegisterStep,
    error::ErrorView,
> {
    match grants::access_error(access) {
        Some(e) => Err(e),
        None => if req.environment@ != "dev"@ && req.environment@ != "prod"@ {
            Err(error::bad_request("environment must be \"dev\" or \"prod\""@))
        } else if req.issuer@.len() == 0 || req.subject@.len() == 0 {
            Err(error::bad_request("issuer and subject are required"@))
        } else {
            match kind {
                None => Ok(RegisterStep::Provision),
                Some(kind) => if kind == "agent"@ {
                    Ok(RegisterStep::Register)
                } else {
                    Err(not_an_agent(req.issuer@, req.subject@, kind))
                },
            }
        },
    }
}

/// Takes the next step of registering an agent. An identity that is already
/// known as a user or a service is not made an agent.
pub fn register_agent(access: &Access, req: &RegisterAgentRequest, kind: Option<&str>) -> (r: Result<
    RegisterStep,
    ApiError,
>)
    ensures
        error::outcome(r) == register_step(*access, *req, text::opt_str(kind)),
{
    match require(access) {
        Err(e) => { return Err(e); },
        Ok(()) => {},
    }
    let environment = req.environment.as_str();
    if !same(environment, "dev") && !same(environment, "prod") {
        return Err(ApiError::bad_request("environment must be \"dev\" or \"prod\""));
    }
    if req.issuer.as_str().is_empty() || req.subject.as_str().is_empty() {
        return Err(ApiError::bad_request("issuer and subject are required"));
    }
    match kind {
        None => Ok(RegisterStep::Provision),
        Some(kind) => if same(kind, "agent") {
            Ok(RegisterStep::Register)
        } else {
            let identity = cat5("identity ", req.issuer.as_str(), "::", req.subject.as_str(), " already exists as a ");
            Err(ApiError::new(
                ErrorKind::AlreadyExists,
                cat3(identity.as_str(), kind, " principal and cannot be registered as an agent").as_str(),
            ))
        },
    }
}

/// Only a principal of the agent kind is ever governed as an agent.
pub proof fn only_agents_are_registered(access: Access, req: RegisterAgentRequest, kind: Option<Seq<char>>)
    ensures
        register_step(access, req, kind) matches Ok(RegisterStep::Register) ==> {
            &&& access is Granted
            &&& kind == Some("agent"@)
        },
{
}

/// The 404 of an agent.
pub open spec fn no_such_agent(id: Seq<char>) -> error::ErrorView {
    error::not_found("agent "@ + text::quoted(id) + " is not registered"@)
}

/// The agent of an id.
pub fn get_agent<T>(access: &Access, id: &str, found: Option<T>) -> (r: Result<T, ApiError>)
    ensures
        match grants::access_error(*access) {
            Some(e) => error::fails_with(r, e),
            None => match found {
                Some(agent) => r matches Ok(got) && got == agent,
                None => error::fails_with(r, no_such_agent(id@)),
            },
        },
{
    match require(access) {
        Err(e) => { return Err(e); },
        Ok(()) => {},
    }
    match found {
        Some(agent) => Ok(agent),
        None => Err(ApiError::not_found(cat3("agent ", quote(id).as_str(), " is not registered").as_str())),
    }
}

/// Request body of the kill switch.
#[derive(Debug)]
pub struct KillSwitchRequest {
    /// Why it is flipped.
    pub reason: Option<String>,
}

/// The reason that is recorded for a flip of the kill switch.
pub open spec fn reason_of(body: Option<KillSwitchRequest>) -> Seq<char> {
    match body {
        Some(KillSwitchRequest { reason: Some(reason) }) => reason@,
        _ => "no reason given"@,
    }
}

/// A flip of the kill switch.
#[derive(Debug)]
pub struct Flip {
    /// Whether the agent is live from then on.
    pub enabled: bool,
    /// Why, as it is recorded.
    pub reason: String,
}

fn set_enabled(access: &Access, enabled: bool, body: &Option<KillSwitchRequest>) -> (r: Result<Flip, ApiError>)
    ensures
        match grants::access_error(*access) {
            Some(e) => error::fails_with(r, e),
            None => r matches Ok(flip) && flip.enabled == enabled && flip.reason@ == reason_of(*body),
        },
{
    match require(access) {
        Err(e) => { return Err(e); },
        Ok(()) => {},
    }
    let reason = match body {
        Some(b) => match &b.reason {
            Some(reason) => reason.clone(),
            None => "no reason given".to_owned(),
        },
        None => "no reason given".to_owned(),
    };
    Ok(Flip { enabled, reason })
}

/// Admits the suspension of an agent.
pub fn suspend_agent(access: &Access, body: &Option<KillSwitchRequest>) -> (r: Result<Flip, ApiError>)
    ensures
        match grants::access_error(*access) {
            Some(e) => error::fails_with(r, e),
            None => r matches Ok(flip) && !flip.enabled && flip.reason@ == reason_of(*body),
        },
{
    set_enabled(access, false, body)
}

/// Admits the return of an agent.
pub fn enable_agent(access: &Access, body: &Option<KillSwitchRequest>) -> (r: Result<Flip, ApiError>)
    ensures
        match grants::access_error(*access) {
            Some(e) => error::fails_with(r, e),
            None => r matches Ok(flip) && flip.enabled && flip.reason@ == reason_of(*body),
        },
{
    set_enabled(access, true, body)
}

/// Query parameters of the ledger of tool calls.
#[derive(Debug)]
pub struct ActivityParams {
    /// Only calls of this agent.
    pub agent_id: Option<String>,
    /// Only calls of this tool.
    pub tool: Option<String>,
    /// Only calls with this decision.
    pub decision: Option<String>,
    /// Only calls before this one.
    pub before: Option<String>,
    /// How many.
    pub limit: Option<i64>,
}

/// Admits the ledger of tool calls, and gives the number of rows.
pub fn list_activity(access: &Access, params: &ActivityParams) -> (r: Result<i64, ApiError>)
    ensures
        match grants::access_error(*access) {
            Some(e) => error::fails_with(r, e),
            None => r matches Ok(limit) && limit == limits::clamped(
                params.limit,
                DEFAULT_ACTIVITY_LIMIT,
                1,
                MAX_ACTIVITY_LIMIT,
            ),
        },
{
    match require(access) {
        Err(e) => Err(e),
        Ok(()) => Ok(clamp(params.limit, DEFAULT_ACTIVITY_LIMIT, 1, MAX_ACTIVITY_LIMIT)),
    }
}

/// Where the next page of the ledger starts: at the last row, where the page
/// is full.
pub fn activity_cursor(ids: &Vec<String>, limit: i64) -> (r: Option<String>)
    ensures
        r == (if ids@.len() == limit && ids@.len() > 0 { Some(ids@.last()) } else { None }),
{
    if ids.len() > 0 && is_full(ids.len(), limit) {
        Some(ids[ids.len() - 1].clone())
    } else {
        None
    }
}

/// An agent is registered exactly by a caller who was granted access, for one of
/// the two environments, under an issuer and a subject. An identity that is new
/// is provisioned first, and one that is something else stays that.
pub proof fn agents_are_registered_as_asked(access: Access, req: RegisterAgentRequest, kind: Option<Seq<char>>)
    ensures
        ({
            let sound = (req.environment@ == "dev"@ || req.environment@ == "prod"@) && req.issuer@.len() > 0
                && req.subject@.len() > 0;
            match register_step(access, req, kind) {
                Ok(RegisterStep::Provision) => access is Granted && sound && kind is None,
                Ok(RegisterStep::Register) => access is Granted && sound && kind == Some("agent"@),
                Err(e) => {
                    ||| !(access is Granted)
                    ||| !sound && e.kind == ErrorKind::BadRequest
                    ||| (kind matches Some(k) && k != "agent"@) && e.kind == ErrorKind::AlreadyExists
                },
            }
        }),
{
}

} // verus!
