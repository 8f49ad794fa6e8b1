//! The agent gateway: one JSON-RPC route that turns tool calls over to the
//! governance chain.

use vstd::prelude::*;

use crate::ids::fresh_ulid;
use crate::namespaces;
use crate::planning;
use crate::planning::purpose_from_headers;
use crate::tables::Header;
use crate::text;
use crate::text::{cat2, cat3, holds, quote, same};

verus! {

/// The version of the protocol that the gateway speaks.
pub const PROTOCOL_VERSION: &'static str = "2025-06-18";

/// What a client is told of how to use the gateway.
pub const INSTRUCTIONS: &'static str = "Meridian is a governed data catalog. Use the context tools to discover and understand governed assets, and the query tools to read them within your grants and budget. Restricted columns are absent from schemas by design.";

/// The message could not be parsed.
pub const PARSE_ERROR: i64 = -32700;

/// The message is no request that is accepted here.
pub const INVALID_REQUEST: i64 = -32600;

/// There is no such method, or no such tool.
pub const METHOD_NOT_FOUND: i64 = -32601;

/// The parameters are not those of the method.
pub const INVALID_PARAMS: i64 = -32602;

/// The server failed.
pub const INTERNAL_ERROR: i64 = -32603;

/// A JSON-RPC error. Its HTTP status is 200: the error is in the body.
#[derive(Debug)]
pub struct RpcError {
    /// Its code.
    pub code: i64,
    /// Its message.
    pub message: String,
}

/// The model of a JSON-RPC error.
#[verifier::ext_equal]
pub struct RpcErrorView {
    /// Its code.
    pub code: i64,
    /// Its message.
    pub message: Seq<char>,
}

impl View for RpcError {
    type V = RpcErrorView;

    open spec fn view(&self) -> RpcErrorView {
        RpcErrorView { code: self.code, message: self.message@ }
    }
}

/// The error of a code and a message.
pub open spec fn rpc_error(code: i64, message: Seq<char>) -> RpcErrorView {
    RpcErrorView { code, message }
}

/// The model of a result: its value as it is, its error by its view.
pub open spec fn rpc_outcome<T>(r: Result<T, RpcError>) -> Result<T, RpcErrorView> {
    match r {
        Ok(v) => Ok(v),
        Err(e) => Err(e@),
    }
}

/// A JSON-RPC error of a code and a message.
pub fn json_rpc_error(code: i64, message: &str) -> (r: RpcError)
    ensures
        r@ == rpc_error(code, message@),
{
    RpcError { code, message: message.to_owned() }
}

// ---------------------------------------------------------------------------
// The request
// ---------------------------------------------------------------------------

/// Whether an origin is turned away: it is there, and neither every origin nor
/// this one is allowed.
pub open spec fn is_origin_rejected(origin: Header, allowed: Seq<String>) -> bool {
    match origin {
        Header::Absent => false,
        Header::Opaque => !text::texts(allowed).contains("*"@),
        Header::Text(o) => !text::texts(allowed).contains("*"@) && !text::texts(allowed).contains(o@),
    }
}

/// Whether an origin is turned away. Clients that are no browsers send none,
/// which is accepted.
pub fn origin_rejection(origin: &Header, allowed: &Vec<String>) -> (r: bool)
    ensures
        r == is_origin_rejected(*origin, allowed@),
{
    match origin {
        Header::Absent => false,
        Header::Opaque => !holds(allowed, "*"),
        Header::Text(o) => !holds(allowed, "*") && !holds(allowed, o.as_str()),
    }
}

/// A JSON-RPC message.
#[derive(Debug)]
pub struct JsonRpcRequest {
    /// The version of the protocol.
    pub jsonrpc: String,
    /// Its id, rendered; a notification has none.
    pub id: Option<String>,
    /// The method.
    pub method: String,
}

/// What a message asks for.
#[derive(Clone, Copy, Debug, PartialEq, Eq, Structural)]
pub enum McpStep {
    /// Its origin is turned away, with a 403.
    RejectOrigin,
    /// It is a notification: answer with a 202 and no body.
    Accept,
    /// Agree on the protocol.
    Initialize,
    /// Answer with an empty result.
    Pong,
    /// Answer with the list of tools.
    ListTools,
    /// Call a tool.
    CallTool,
}

/// What a message asks for.
pub open spec fn mcp_step(origin: Header, allowed: Seq<String>, message: Result<JsonRpcRequest, String>) -> Result<
    McpStep,
    RpcErrorView,
> {
    if is_origin_rejected(origin, allowed) {
        Ok(McpStep::RejectOrigin)
    } else {
        match message {
            Err(detail) => Err(rpc_error(PARSE_ERROR, "invalid JSON-RPC request: "@ + detail@)),
            Ok(request) => if request.jsonrpc@ != "2.0"@ {
                Err(rpc_error(INVALID_REQUEST, "jsonrpc must be \"2.0\""@))
            } else if request.id is None {
                Ok(McpStep::Accept)
            } else if request.method@ == "initialize"@ {
                Ok(McpStep::Initialize)
            } else if request.method@ == "ping"@ {
                Ok(McpStep::Pong)
            } else if request.method@ == "tools/list"@ {
                Ok(McpStep::ListTools)
            } else if request.method@ == "tools/call"@ {
                Ok(McpStep::CallTool)
            } else {
                Err(
                    rpc_error(
                        METHOD_NOT_FOUND,
                        "method "@ + text::quoted(request.method@) + " is not supported"@,
                    ),
                )
            },
        }
    }
}

/// Says what a message asks for.
pub fn mcp_post(origin: &Header, allowed: &Vec<String>, message: &Result<JsonRpcRequest, String>) -> (r: Result<
    McpStep,
    RpcError,
>)
    ensures
        rpc_outcome(r) == mcp_step(*origin, allowed@, *message),
{
    if origin_rejection(origin, allowed) {
        return Ok(McpStep::RejectOrigin);
    }
    let request = match message {
        Err(detail) => {
            return Err(json_rpc_error(
                PARSE_ERROR,
                cat2("invalid JSON-RPC request: ", detail.as_str()).as_str(),
            ));
        },
        Ok(request) => request,
    };
    if !same(request.jsonrpc.as_str(), "2.0") {
        return Err(json_rpc_error(INVALID_REQUEST, "jsonrpc must be \"2.0\""));
    }
    if request.id.is_none() {
        return Ok(McpStep::Accept);
    }
    let method = request.method.as_str();
    if same(method, "initialize") {
        Ok(McpStep::Initialize)
    } else if same(method, "ping") {
        Ok(McpStep::Pong)
    } else if same(method, "tools/list") {
        Ok(McpStep::ListTools)
    } else if same(method, "tools/call") {
        Ok(McpStep::CallTool)
    } else {
        Err(json_rpc_error(
            METHOD_NOT_FOUND,
            cat3("method ", quote(method).as_str(), " is not supported").as_str(),
        ))
    }
}

/// The id of an answer: that of the message, or null where it could not be
/// read or has none.
pub fn reply_id(message: &Result<JsonRpcRequest, String>) -> (r: String)
    ensures
        r@ == (match *message {
            Ok(request) => match request.id {
                Some(id) => id@,
                None => "null"@,
            },
            Err(_) => "null"@,
        }),
{
    match message {
        Ok(request) => match &request.id {
            Some(id) => id.clone(),
            None => "null".to_owned(),
        },
        Err(_) => "null".to_owned(),
    }
}

/// A request whose origin is not allowed does nothing, whatever it asks for.
pub proof fn strange_origins_do_nothing(origin: Header, allowed: Seq<String>, message: Result<JsonRpcRequest, String>)
    requires
        is_origin_rejected(origin, allowed),
    ensures
        mcp_step(origin, allowed, message) == Ok::<McpStep, RpcErrorView>(McpStep::RejectOrigin),
{
}

/// The answer to `initialize`.
#[derive(Debug)]
pub struct InitializeResult {
    /// The version of the protocol that is spoken.
    pub protocol_version: String,
    /// Whether clients are told of changes of the tool list.
    pub list_changed: bool,
    /// The name of the server.
    pub name: String,
    /// Its title.
    pub title: String,
    /// How to use it.
    pub instructions: String,
    /// The id of the new session.
    pub session_id: String,
}

/// Answers `initialize`. One version of the protocol is spoken, whichever the
/// client asks for: it decides whether to go on. The session is a fresh ULID.
pub fn handle_initialize() -> (r: InitializeResult)
    ensures
        r.protocol_version@ == PROTOCOL_VERSION@,
        !r.list_changed,
        r.name@ == "meridian"@,
        r.title@ == "Meridian Agent Gateway"@,
        r.instructions@ == INSTRUCTIONS@,
        namespaces::is_ulid_text(r.session_id@),
{
    InitializeResult {
        protocol_version: PROTOCOL_VERSION.to_owned(),
        list_changed: false,
        name: "meridian".to_owned(),
        title: "Meridian Agent Gateway".to_owned(),
        instructions: INSTRUCTIONS.to_owned(),
        session_id: fresh_ulid(),
    }
}

// ---------------------------------------------------------------------------
// Tool calls
// ---------------------------------------------------------------------------

/// Why a caller may not use the gateway.
#[derive(Debug)]
pub enum AgentGateError {
    /// It is no agent.
    NotAnAgent(String),
    /// It is an agent that was never registered.
    NotRegistered,
    /// The store failed.
    Store(String),
}

/// A call of a tool.
#[derive(Debug)]
pub struct ToolCall {
    /// Which tool.
    pub name: String,
    /// What it is called with, rendered.
    pub arguments: String,
}

/// What is known so far of a tool call.
#[derive(Debug)]
pub struct ToolCallFacts {
    /// The call, or why its parameters could not be parsed.
    pub tool: Option<Result<ToolCall, String>>,
    /// The header that narrows the purpose of this call.
    pub purpose: Header,
    /// Whether there is such a tool.
    pub known: bool,
    /// Whether the caller is a registered agent, or why not.
    pub agent: Option<Result<(), AgentGateError>>,
}

/// The next step of a tool call.
#[derive(Debug)]
pub enum ToolCallStep {
    /// Resolve the calling agent.
    ResolveAgent,
    /// Run this call through the governance chain.
    Dispatch(ToolDispatch),
}

/// What the governance chain is handed, beside the agent.
#[derive(Debug)]
pub struct ToolDispatch {
    /// Which tool.
    pub name: String,
    /// What it is called with, rendered.
    pub arguments: String,
    /// The purpose of this call, where it declares one.
    pub purpose: Option<String>,
}

/// A step of a tool call, with texts as sequences.
pub enum ToolCallStepView {
    /// Resolve the calling agent.
    ResolveAgent,
    /// Run this tool, with these arguments, for this purpose.
    Dispatch(Seq<char>, Seq<char>, Option<Seq<char>>),
}

impl View for ToolCallStep {
    type V = ToolCallStepView;

    open spec fn view(&self) -> ToolCallStepView {
        match *self {
            ToolCallStep::ResolveAgent => ToolCallStepView::ResolveAgent,
            ToolCallStep::Dispatch(d) => ToolCallStepView::Dispatch(
                d.name@,
                d.arguments@,
                text::opt_text(d.purpose),
            ),
        }
    }
}

/// The outcome of a tool call's step, with texts as sequences.
pub open spec fn tool_outcome(r: Result<ToolCallStep, RpcError>) -> Result<ToolCallStepView, RpcErrorView> {
    match r {
        Ok(step) => Ok(step@),
        Err(e) => Err(e@),
    }
}

/// The step of a tool call.
pub open spec fn tool_call_step(facts: ToolCallFacts) -> Result<ToolCallStepView, RpcErrorView> {
    match facts.tool {
        None => Err(rpc_error(INVALID_PARAMS, "tools/call requires params"@)),
        Some(Err(detail)) => Err(rpc_error(INVALID_PARAMS, "invalid tools/call params: "@ + detail@)),
        Some(Ok(call)) => if !facts.known {
            Err(rpc_error(METHOD_NOT_FOUND, "unknown tool: "@ + call.name@))
        } else {
            match facts.agent {
                None => Ok(ToolCallStepView::ResolveAgent),
                Some(Err(AgentGateError::NotAnAgent(message))) => Err(rpc_error(INVALID_REQUEST, message@)),
                Some(Err(AgentGateError::NotRegistered)) => Err(
                    rpc_error(
                        INVALID_REQUEST,
                        "this agent is not registered with the gateway; register it (POST /api/v2/agents) before calling tools"@,
                    ),
                ),
                Some(Err(AgentGateError::Store(message))) => Err(
                    rpc_error(INTERNAL_ERROR, "failed to resolve agent: "@ + message@),
                ),
                Some(Ok(_)) => Ok(
                    ToolCallStepView::Dispatch(call.name@, call.arguments@, planning::purpose_of(facts.purpose)),
                ),
            }
        },
    }
}

/// Takes the next step of a tool call.
pub fn handle_tools_call(facts: &ToolCallFacts) -> (r: Result<ToolCallStep, RpcError>)
    ensures
        tool_outcome(r) == tool_call_step(*facts),
{
    let call = match &facts.tool {
        None => { return Err(json_rpc_error(INVALID_PARAMS, "tools/call requires params")); },
        Some(Err(detail)) => {
            return Err(json_rpc_error(
                INVALID_PARAMS,
                cat2("invalid tools/call params: ", detail.as_str()).as_str(),
            ));
        },
        Some(Ok(call)) => call,
    };
    if !facts.known {
        return Err(json_rpc_error(METHOD_NOT_FOUND, cat2("unknown tool: ", call.name.as_str()).as_str()));
    }
    match &facts.agent {
        None => Ok(ToolCallStep::ResolveAgent),
        Some(Err(AgentGateError::NotAnAgent(message))) => Err(json_rpc_error(INVALID_REQUEST, message.as_str())),
        Some(Err(AgentGateError::NotRegistered)) => Err(json_rpc_error(
            INVALID_REQUEST,
            "this agent is not registered with the gateway; register it (POST /api/v2/agents) before calling tools",
        )),
        Some(Err(AgentGateError::Store(message))) => Err(json_rpc_error(
            INTERNAL_ERROR,
            cat2("failed to resolve agent: ", message.as_str()).as_str(),
        )),
        Some(Ok(_)) => Ok(
            ToolCallStep::Dispatch(
                ToolDispatch {
                    name: call.name.clone(),
                    arguments: call.arguments.clone(),
                    purpose: header_str(&facts.purpose),
                },
            ),
        ),
    }
}

/// Only a registered agent gets a tool run.
pub proof fn only_agents_call_tools(facts: ToolCallFacts)
    requires
        tool_call_step(facts) matches Ok(step) && step is Dispatch,
    ensures
        facts.agent matches Some(Ok(_)),
        facts.known,
{
}

/// A header, without the blanks around it; nothing where that is nothing.
pub fn header_str(header: &Header) -> (r: Option<String>)
    ensures
        text::opt_text(r) == planning::purpose_of(*header),
{
    purpose_from_headers(header)
}

/// The answers to the verbs that the gateway does not offer.
#[derive(Clone, Copy, Debug, PartialEq, Eq, Structural)]
pub enum RefusedVerb {
    /// To open a stream of events.
    Get,
    /// To end a session.
    Delete,
}

/// The text of the 405 of a verb that the gateway does not offer.
pub fn refused_verb(verb: RefusedVerb) -> (r: &'static str)
    ensures
        r@ == (match verb {
            RefusedVerb::Get =>
                "the Meridian MCP endpoint does not offer a server-initiated event stream; POST JSON-RPC requests instead"@,
            RefusedVerb::Delete => "sessions are stateless; nothing to terminate"@,
        }),
{
    match verb {
        RefusedVerb::Get =>
            "the Meridian MCP endpoint does not offer a server-initiated event stream; POST JSON-RPC requests instead",
        RefusedVerb::Delete => "sessions are stateless; nothing to terminate",
    }
}

/// A message is taken as its method says, and only where its origin is allowed:
/// one without an origin always is, and any other where it, or everything, is on
/// the list. A message without an id is only accepted. What cannot be read, is
/// of another version or names another method is answered with the error of its
/// own code.
pub proof fn messages_are_taken(origin: Header, allowed: Seq<String>, message: Result<JsonRpcRequest, String>)
    ensures
        ({
            let welcome = match origin {
                Header::Absent => true,
                Header::Opaque => text::texts(allowed).contains("*"@),
                Header::Text(o) => text::texts(allowed).contains("*"@) || text::texts(allowed).contains(o@),
            };
            match mcp_step(origin, allowed, message) {
                Ok(McpStep::RejectOrigin) => !welcome,
                Ok(McpStep::Accept) => welcome && (message matches Ok(m) && m.jsonrpc@ == "2.0"@ && m.id is None),
                Ok(McpStep::Initialize) => welcome && (message matches Ok(m) && m.id is Some && m.method@
                    == "initialize"@),
                Ok(McpStep::Pong) => welcome && (message matches Ok(m) && m.id is Some && m.method@ == "ping"@),
                Ok(McpStep::ListTools) => welcome && (message matches Ok(m) && m.id is Some && m.method@
                    == "tools/list"@),
                Ok(McpStep::CallTool) => welcome && (message matches Ok(m) && m.id is Some && m.method@
                    == "tools/call"@),
                Err(e) => welcome && match message {
                    Err(_) => e.code == -32700,
                    Ok(m) => if m.jsonrpc@ != "2.0"@ {
                        e.code == -32600
                    } else {
                        e.code == -32601 && m.id is Some && m.method@ != "initialize"@ && m.method@ != "ping"@ && m.method@
                            != "tools/list"@ && m.method@ != "tools/call"@
                    },
                },
            }
        }),
{
}

/// A tool is called as it was asked for, with its own arguments and the purpose
/// that the request states, and only for a tool that is known and an agent that
/// is registered.
pub proof fn tools_are_called_as_asked(facts: ToolCallFacts)
    ensures
        match tool_call_step(facts) {
            Ok(ToolCallStepView::ResolveAgent) => facts.known && facts.agent is None && (facts.tool matches Some(Ok(_))),
            Ok(ToolCallStepView::Dispatch(name, arguments, purpose)) => facts.known && (facts.agent matches Some(Ok(_)))
                && (facts.tool matches Some(Ok(call)) && name == call.name@ && arguments == call.arguments@) && purpose
                == planning::purpose_of(facts.purpose),
            Err(e) => {
                ||| e.code == -32602 && !(facts.tool matches Some(Ok(_)))
                ||| e.code == -32601 && (facts.tool matches Some(Ok(_))) && !facts.known
                ||| e.code == -32600 && (facts.agent matches Some(Err(cause)) && !(cause is Store))
                ||| e.code == -32603 && (facts.agent matches Some(Err(cause)) && cause is Store)
            },
        },
{
}

} // verus!
