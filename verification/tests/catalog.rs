//! Configuration, probes, search, lineage, and the tool gateway.

use meridian_routes::error::ErrorKind;
use meridian_routes::grants::{Access, Found};
use meridian_routes::health::{healthz, readyz};
use meridian_routes::iceberg::{get_config, ConfigQuery, ConfigStep};
use meridian_routes::lineage::{
    clamp_depth, get_impact, get_lineage, parse_change, parse_direction, Change, Direction, Endpoint, GraphParams,
    ImpactParams, ImpactStep, WalkStep,
};
use meridian_routes::mcp::{
    handle_initialize, handle_tools_call, header_str, mcp_post, origin_rejection, refused_verb, reply_id, AgentGateError, JsonRpcRequest, McpStep,
    RefusedVerb, ToolCall, ToolCallFacts, ToolCallStep, INVALID_PARAMS, METHOD_NOT_FOUND, PARSE_ERROR,
};
use meridian_routes::principals::{list_principals, PrincipalRecord};
use meridian_routes::search::{parse_kinds, result_scores, search, SearchAssetKind, SearchParams, SearchStep};
use meridian_routes::tables::Header;

fn texts(items: &[&str]) -> Vec<String> {
    items.iter().map(|s| s.to_string()).collect()
}

#[test]
fn clients_are_told_the_prefix_of_their_warehouse() {
    let plain = ConfigQuery { warehouse: None };
    match get_config(&plain, &Found::Unasked) {
        Ok(ConfigStep::Answer(config)) => {
            assert_eq!(config.overrides.len(), 0);
            assert_eq!(config.endpoints.len(), 24);
            assert_eq!(config.endpoints[0], "GET /v1/{prefix}/namespaces");
            assert_eq!(config.idempotency_key_lifetime, Some("PT24H".to_string()));
        }
        other => panic!("{other:?}"),
    }
    let named = ConfigQuery { warehouse: Some("wh1".to_string()) };
    assert!(matches!(get_config(&named, &Found::Unasked), Ok(ConfigStep::AskWarehouse)));
    match get_config(&named, &Found::Is("wh1".to_string())) {
        Ok(ConfigStep::Answer(config)) => assert_eq!(config.overrides.get("prefix").unwrap(), "wh1"),
        other => panic!("{other:?}"),
    }
    assert_eq!(get_config(&named, &Found::Missing).unwrap_err().kind, ErrorKind::NoSuchWarehouse);
    let empty = ConfigQuery { warehouse: Some(String::new()) };
    assert!(matches!(get_config(&empty, &Found::Unasked), Ok(ConfigStep::Answer(_))));
}

#[test]
fn servers_live_without_a_database_but_are_not_ready() {
    let (code, body) = healthz(false);
    assert_eq!(code, 200);
    assert_eq!(body.status, "ok");
    assert_eq!(body.checks.database, "error");
    let (code, body) = readyz(false);
    assert_eq!(code, 503);
    assert_eq!(body.status, "unavailable");
    let (code, body) = readyz(true);
    assert_eq!(code, 200);
    assert_eq!(body.checks.database, "ok");
}

#[test]
fn walks_are_held_between_one_and_twenty() {
    assert_eq!(clamp_depth(None), 3);
    assert_eq!(clamp_depth(Some(0)), 1);
    assert_eq!(clamp_depth(Some(99)), 20);
    assert_eq!(parse_direction(&None), Direction::Both);
    assert_eq!(parse_direction(&Some("upstream".to_string())), Direction::Upstream);
}

#[test]
fn changes_are_parsed() {
    assert!(matches!(parse_change("drop_table"), Ok(Change::DropTable)));
    assert!(matches!(parse_change("drop_column:id"), Ok(Change::DropColumn(c)) if c == "id"));
    let e = parse_change("rename").unwrap_err();
    assert_eq!(e.message, "unrecognized change \"rename\"; expected `drop_table` or `drop_column:<name>`");
}

#[test]
fn walks_start_at_tables_of_the_catalog() {
    let graph = GraphParams { asset: "wh.a.t".to_string(), depth: None, direction: None };
    assert!(matches!(get_lineage(&Access::Granted, &graph, &None), Ok(WalkStep::AskAsset)));
    let table = Some(Endpoint::Table("01T".to_string()));
    assert!(matches!(
        get_lineage(&Access::Granted, &graph, &table),
        Ok(WalkStep::Walk(id, Direction::Both, 3)) if id == "01T"
    ));
    let e = get_lineage(&Access::Granted, &graph, &Some(Endpoint::External)).unwrap_err();
    assert_eq!(e.kind, ErrorKind::NoSuchTable);
    assert_eq!(e.message, "no table \"wh.a.t\" in this catalog");
    let impact = ImpactParams { asset: "wh.a.t".to_string(), change: "?".to_string(), depth: Some(2) };
    assert_eq!(get_impact(&Access::Granted, &impact, &Some(Endpoint::External)).unwrap_err().kind, ErrorKind::NoSuchTable);
    assert_eq!(get_impact(&Access::Granted, &impact, &table).unwrap_err().kind, ErrorKind::BadRequest);
    let impact = ImpactParams { asset: "wh.a.t".to_string(), change: "drop_table".to_string(), depth: Some(2) };
    assert!(matches!(get_impact(&Access::Granted, &impact, &table), Ok(ImpactStep::Walk(_, Change::DropTable, 2))));
}

fn params(kinds: Option<&str>, warehouse: Option<&str>) -> SearchParams {
    SearchParams {
        q: "orders".to_string(),
        kinds: kinds.map(|s| s.to_string()),
        warehouse: warehouse.map(|s| s.to_string()),
        namespace: None,
        limit: Some(100),
        page_token: Some("after-3".to_string()),
    }
}

#[test]
fn searches_name_their_kinds() {
    assert_eq!(
        parse_kinds("table, view,table").unwrap(),
        vec![SearchAssetKind::Table, SearchAssetKind::View]
    );
    assert!(parse_kinds("planet").is_err());
    assert!(matches!(search(&params(None, Some("wh1")), &Found::Unasked), Ok(SearchStep::AskWarehouse)));
    match search(&params(Some("namespace"), Some("wh1")), &Found::Is("01W".to_string())) {
        Ok(SearchStep::Search(request)) => {
            assert_eq!(request.kinds, Some(vec![SearchAssetKind::Namespace]));
            assert_eq!(request.warehouse_id, Some("01W".to_string()));
            assert_eq!(request.limit, 100);
            assert_eq!(request.text, "orders");
            assert_eq!(request.page_token, Some("after-3".to_string()));
        }
        other => panic!("{other:?}"),
    }
    let mut wide = params(None, None);
    wide.limit = Some(101);
    assert_eq!(search(&wide, &Found::Unasked).unwrap_err().message, "limit must be between 1 and 100");
    wide.limit = None;
    wide.namespace = Some("a..b".to_string());
    assert_eq!(
        search(&wide, &Found::Unasked).unwrap_err().message,
        "namespace must be dot-separated non-empty levels"
    );
    wide.q = " ".to_string();
    assert_eq!(search(&wide, &Found::Unasked).unwrap_err().message, "q must not be empty");
    assert_eq!(
        result_scores(&vec![SearchAssetKind::View, SearchAssetKind::Table], &vec![Some(1), Some(80)]),
        vec![None, Some(80)]
    );
}

fn call(method: &str, id: Option<&str>) -> Result<JsonRpcRequest, String> {
    Ok(JsonRpcRequest { jsonrpc: "2.0".to_string(), id: id.map(|s| s.to_string()), method: method.to_string() })
}

#[test]
fn strange_origins_are_turned_away() {
    let allowed = texts(&["https://app.example"]);
    assert!(!origin_rejection(&Header::Absent, &allowed));
    assert!(!origin_rejection(&Header::Text("https://app.example".to_string()), &allowed));
    assert!(origin_rejection(&Header::Text("https://other.example".to_string()), &allowed));
    assert!(origin_rejection(&Header::Opaque, &allowed));
    assert!(!origin_rejection(&Header::Opaque, &texts(&["*"])));
    let step = mcp_post(&Header::Text("https://other.example".to_string()), &allowed, &call("tools/call", Some("1")));
    assert!(matches!(step, Ok(McpStep::RejectOrigin)));
}

#[test]
fn messages_are_answered_by_their_method() {
    let none = Vec::new();
    assert!(matches!(mcp_post(&Header::Absent, &none, &call("initialize", Some("1"))), Ok(McpStep::Initialize)));
    assert!(matches!(mcp_post(&Header::Absent, &none, &call("tools/list", Some("1"))), Ok(McpStep::ListTools)));
    assert!(matches!(mcp_post(&Header::Absent, &none, &call("tools/call", Some("1"))), Ok(McpStep::CallTool)));
    assert!(matches!(mcp_post(&Header::Absent, &none, &call("anything", None)), Ok(McpStep::Accept)));
    assert_eq!(mcp_post(&Header::Absent, &none, &call("nope", Some("1"))).unwrap_err().code, METHOD_NOT_FOUND);
    assert_eq!(mcp_post(&Header::Absent, &none, &Err("eof".to_string())).unwrap_err().code, PARSE_ERROR);
    assert_eq!(reply_id(&Err("eof".to_string())), "null");
    assert_eq!(reply_id(&call("ping", Some("7"))), "7");
    assert!(!refused_verb(RefusedVerb::Get).is_empty());
    let answer = handle_initialize();
    assert_eq!(answer.protocol_version, "2025-06-18");
    assert!(!answer.list_changed);
    assert_eq!(answer.name, "meridian");
    assert!(answer.instructions.starts_with("Meridian is a governed data catalog."));
    assert_eq!(answer.session_id.len(), 26);
    assert_ne!(answer.session_id, handle_initialize().session_id);
    assert_eq!(header_str(&Header::Text("x".to_string())), Some("x".to_string()));
    assert_eq!(header_str(&Header::Opaque), None);
}

#[test]
fn tools_are_called_by_agents_only() {
    let call = ToolCall { name: "query".to_string(), arguments: "{\"sql\":\"SELECT 1\"}".to_string() };
    let purpose = Header::Text(" audit ".to_string());
    let mut facts = ToolCallFacts { tool: Some(Ok(call)), purpose, known: true, agent: None };
    assert!(matches!(handle_tools_call(&facts), Ok(ToolCallStep::ResolveAgent)));
    facts.agent = Some(Ok(()));
    match handle_tools_call(&facts) {
        Ok(ToolCallStep::Dispatch(call)) => {
            assert_eq!(call.name, "query");
            assert_eq!(call.arguments, "{\"sql\":\"SELECT 1\"}");
            assert_eq!(call.purpose, Some("audit".to_string()));
        }
        other => panic!("{other:?}"),
    }
    facts.agent = Some(Err(AgentGateError::NotRegistered));
    assert!(handle_tools_call(&facts).is_err());
    facts.tool = None;
    assert_eq!(handle_tools_call(&facts).unwrap_err().code, INVALID_PARAMS);
}

#[test]
fn principals_are_shown_in_order() {
    let record = |id: &str| PrincipalRecord {
        id: id.to_string(),
        workspace_id: "ws".to_string(),
        kind: "user".to_string(),
        subject: "ada".to_string(),
        issuer: "https://idp".to_string(),
        display_name: None,
        created_at: "2026-01-01T00:00:00Z".to_string(),
    };
    let refused = list_principals(&Access::Forbidden("no".to_string()), vec![record("1")]);
    assert_eq!(refused.unwrap_err().kind, ErrorKind::Forbidden);
    let shown = list_principals(&Access::Granted, vec![record("1"), record("2")]).unwrap();
    assert_eq!(shown.len(), 2);
    assert_eq!(shown[1].id, "2");
    assert_eq!(shown[1].subject, "ada");
}
