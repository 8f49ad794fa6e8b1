//! Agents, the audit log, events, mirrors, maintenance, and meaning.

use meridian_routes::agents::{
    activity_cursor, default_environment, enable_agent, get_agent, list_activity, register_agent, suspend_agent,
    ActivityParams, AgentPrincipal, AgentResponse, KillSwitchRequest, RegisterAgentRequest, RegisterStep,
};
use meridian_routes::audit::{
    check_bounds, next_cursor, parse_action_filter, parse_timestamp, query_audit, timestamp_parsed, verify_audit_chain,
    AuditEntryResponse, AuditQueryParams, ChainFacts, ChainReport, ChainStep, Instant, VerifyChainResponse,
};
use meridian_routes::error::{ErrorKind, StoreError, StoreKind};
use meridian_routes::events::{
    commit_cursor_error, consumer_commit, consumer_next, create_consumer, create_webhook, get_webhook, list_events,
    list_webhook_deliveries, parse_types, read_feed, validate_consumer_name, validate_event_type, CommitCursorRequest,
    ConsumerNextQuery, CreateConsumerRequest, CreateWebhookRequest, DeliveriesStep, FeedQuery, FeedStep,
    ListDeliveriesQuery, WebhookEndpointRecord, WebhookResponse,
};
use meridian_routes::federation::{
    create_mirror, default_enabled, default_sync_interval, get_mirror, get_sprawl, get_sync_status, mirror_error, redact,
    update_mirror, validate_kind, validate_name, CreateMirrorRequest, SprawlQuery, SyncStatusQuery, UpdateMirrorRequest,
};
use meridian_routes::grants::{Access, Found};
use meridian_routes::maintenance::{
    cancel_job, create_policy_error, delete_policy, display_ident, get_job, health_metadata, history_limit, job_of_row,
    list_jobs, list_savings, parse_dotted_namespace, policy_scope_label, resolve_scope, resolve_table_for_read,
    savings_rollup, scope_label, trigger_job, update_policy_error, CancelFacts, CancelStep, HealthFacts, HealthStep,
    HistoryQuery, JobListQuery, JobState, JobType, PolicyRequest, PolicyScopeSelector, RollupQuery, SavingsQuery, Scope,
    ScopeFacts, ScopeNames, ScopeNamespace, ScopeStep, TriggerFacts, TriggerRequest, TriggerStep,
};
use meridian_routes::semantics::{
    add_product_member, clamp_limit, compile_metric, create_metric, create_product, create_term, get_metric, link_term,
    list_page, member_counts, member_table_id, next_after, parse_certification, product_status,
    resolve_table_member_status, update_metric, validate_asset_kind, validate_member_kind, AddMemberRequest,
    Certification, CompileFacts, CompileQuery, CompileStep, CreateMetricRequest, CreateProductRequest,
    CreateTermRequest, Health, LinkTermRequest, ListQuery, Rollup, UpdateMetricRequest,
};
use meridian_routes::shares::ProductMember;
use meridian_routes::tables::TableRecord;
use meridian_routes::textmap::TextMap;

fn texts(items: &[&str]) -> Vec<String> {
    items.iter().map(|s| s.to_string()).collect()
}

fn some(s: &str) -> Option<String> {
    Some(s.to_string())
}

fn store(kind: StoreKind) -> StoreError {
    StoreError { kind, message: "m".to_string() }
}

fn forbidden() -> Access {
    Access::Forbidden("no".to_string())
}

// Agents ---------------------------------------------------------------------

fn agent(environment: &str) -> RegisterAgentRequest {
    RegisterAgentRequest {
        issuer: "https://idp".to_string(),
        subject: "bot".to_string(),
        display_name: None,
        owner: "user:ada".to_string(),
        purpose: "reports".to_string(),
        environment: environment.to_string(),
        expires_at: None,
        review_at: None,
        queries_per_hour: None,
        scanned_bytes_per_day: None,
        dollar_cap_micros: None,
    }
}

#[test]
fn only_agents_are_made_agents() {
    let a = Access::Granted;
    assert!(matches!(register_agent(&a, &agent("dev"), None), Ok(RegisterStep::Provision)));
    assert!(matches!(register_agent(&a, &agent("prod"), Some("agent")), Ok(RegisterStep::Register)));
    let e = register_agent(&a, &agent("dev"), Some("user")).unwrap_err();
    assert_eq!(e.kind, ErrorKind::AlreadyExists);
    assert_eq!(
        e.message,
        "identity https://idp::bot already exists as a user principal and cannot be registered as an agent"
    );
    assert_eq!(
        register_agent(&a, &agent("moon"), None).unwrap_err().message,
        "environment must be \"dev\" or \"prod\""
    );
    let mut nameless = agent("dev");
    nameless.subject = String::new();
    assert_eq!(register_agent(&a, &nameless, None).unwrap_err().message, "issuer and subject are required");
    assert_eq!(register_agent(&forbidden(), &agent("dev"), None).unwrap_err().kind, ErrorKind::Forbidden);
    assert_eq!(default_environment(), "dev");
}

#[test]
fn kill_switches_record_a_reason() {
    let off = suspend_agent(&Access::Granted, &Some(KillSwitchRequest { reason: some("leak") })).unwrap();
    assert!(!off.enabled);
    assert_eq!(off.reason, "leak");
    let on = enable_agent(&Access::Granted, &None).unwrap();
    assert!(on.enabled);
    assert_eq!(on.reason, "no reason given");
    assert!(suspend_agent(&forbidden(), &None).is_err());
}

#[test]
fn agents_are_shown_and_missed() {
    let record = AgentPrincipal {
        principal_id: "01A".to_string(),
        owner: "user:ada".to_string(),
        purpose: "reports".to_string(),
        environment: "dev".to_string(),
        expires_at: None,
        review_at: None,
        enabled: true,
        created_at: "2026-01-01T00:00:00Z".to_string(),
    };
    assert_eq!(AgentResponse::from_record(record).id, "01A");
    assert_eq!(get_agent(&Access::Granted, "01A", Some(3)).unwrap(), 3);
    assert_eq!(
        get_agent::<u8>(&Access::Granted, "01A", None).unwrap_err().message,
        "agent \"01A\" is not registered"
    );
}

#[test]
fn ledgers_go_on_only_from_full_pages() {
    let params = ActivityParams { agent_id: None, tool: None, decision: None, before: None, limit: Some(9999) };
    assert_eq!(list_activity(&Access::Granted, &params).unwrap(), 200);
    assert_eq!(activity_cursor(&texts(&["b", "a"]), 2), some("a"));
    assert_eq!(activity_cursor(&texts(&["b"]), 2), None);
}

// Audit ----------------------------------------------------------------------

fn query(from: Option<&str>, to: Option<&str>) -> AuditQueryParams {
    AuditQueryParams {
        principal: some("user:ada"),
        action: some("table.*"),
        resource: some("table:01T"),
        workspace: some("ws"),
        from: from.map(|s| s.to_string()),
        to: to.map(|s| s.to_string()),
        before: Some(7),
        limit: None,
    }
}

#[test]
fn timestamps_are_read() {
    let t = parse_timestamp("from", "2026-07-02T10:00:00Z").unwrap();
    assert_eq!(t.seconds, 1_782_986_400);
    assert_eq!(t.nanos, 0);
    let zoned = parse_timestamp("from", "2026-07-02T12:00:00.5+02:00").unwrap();
    assert_eq!(zoned.seconds, t.seconds);
    assert_eq!(zoned.nanos, 500_000_000);
    assert_eq!(
        parse_timestamp("to", "yesterday").unwrap_err().message,
        "to must be an RFC 3339 timestamp (e.g. 2026-07-02T10:00:00Z), got \"yesterday\""
    );
    assert!(timestamp_parsed("to", "x", None).is_err());
    assert_eq!(timestamp_parsed("to", "x", Some((1, 2))).unwrap(), Instant { seconds: 1, nanos: 2 });
}

#[test]
fn bounds_are_in_order() {
    let early = Some(Instant { seconds: 1, nanos: 0 });
    let late = Some(Instant { seconds: 1, nanos: 5 });
    assert!(check_bounds(&early, &late).is_ok());
    assert!(check_bounds(&early, &early).is_ok());
    assert!(check_bounds(&late, &None).is_ok());
    assert_eq!(check_bounds(&late, &early).unwrap_err().message, "from must not be after to");
    let q = query_audit(&Access::Granted, &query(Some("2026-07-02T10:00:00Z"), None)).unwrap();
    assert_eq!(q.fetch, q.limit + 1);
    assert_eq!(q.principal, some("user:ada"));
    assert_eq!(q.resource, some("table:01T"));
    assert_eq!(q.workspace_id, some("ws"));
    assert_eq!(q.before_seq, Some(7));
    assert_eq!(q.action_prefix, some("table."));
    assert_eq!(q.action_exact, None);
    assert_eq!(q.limit, 100);
    let reversed = query(Some("2026-07-02T10:00:01Z"), Some("2026-07-02T12:00:00+02:00"));
    assert_eq!(query_audit(&Access::Granted, &reversed).unwrap_err().message, "from must not be after to");
}

#[test]
fn action_filters_are_exact_or_groups() {
    assert_eq!(parse_action_filter(None), (None, None));
    assert_eq!(parse_action_filter(Some("*")), (None, None));
    assert_eq!(parse_action_filter(Some("table.*")), (None, some("table.")));
    assert_eq!(parse_action_filter(Some("table.commit")), (some("table.commit"), None));
    assert_eq!(parse_action_filter(Some("tab*")), (some("tab*"), None));
}

fn entry(seq: i64) -> AuditEntryResponse {
    AuditEntryResponse {
        seq,
        id: format!("e{seq}"),
        workspace_id: None,
        occurred_at: "2026-01-01T00:00:00Z".to_string(),
        principal: "user:ada".to_string(),
        action: "table.commit".to_string(),
        resource: "table:01T".to_string(),
        details: "{}".to_string(),
        prev_hash: None,
        hash: "h".to_string(),
    }
}

#[test]
fn the_last_audit_page_has_no_cursor() {
    let mut more = vec![entry(9), entry(8), entry(7)];
    assert_eq!(next_cursor(&mut more, 2), Some(8));
    assert_eq!(more.iter().map(|e| e.seq).collect::<Vec<_>>(), [9, 8]);
    let mut full = vec![entry(9), entry(8)];
    assert_eq!(next_cursor(&mut full, 2), None);
    assert_eq!(full.len(), 2);
    assert_eq!(next_cursor(&mut vec![entry(9)], 2), None);
    assert_eq!(next_cursor(&mut Vec::new(), 2), None);
}

#[test]
fn chain_checks_are_recorded_before_they_are_told() {
    let report = || ChainReport { entries_checked: 4, broken_at: Some(5), error: some("hash"), valid: false };
    let mut facts = ChainFacts { report: None, recorded: false };
    assert!(matches!(verify_audit_chain(&Access::Granted, &facts), Ok(ChainStep::Walk)));
    facts.report = Some(report());
    assert!(matches!(verify_audit_chain(&Access::Granted, &facts), Ok(ChainStep::Record(4, false))));
    facts.recorded = true;
    assert!(matches!(verify_audit_chain(&Access::Granted, &facts), Ok(ChainStep::Answer)));
    let shown = VerifyChainResponse::from_report(report());
    assert_eq!(shown.broken_at, Some(5));
    assert!(!shown.valid);
}

// Events ---------------------------------------------------------------------

fn webhook(url: &str, secret: &str, types: &[&str]) -> CreateWebhookRequest {
    CreateWebhookRequest { url: url.to_string(), event_types: texts(types), secret: secret.to_string() }
}

#[test]
fn webhooks_are_checked() {
    let long = "0123456789abcdef";
    let a = Access::Granted;
    assert!(create_webhook(&a, &webhook("https://h", long, &["com.meridian.table.committed"])).is_ok());
    assert_eq!(
        create_webhook(&a, &webhook("ftp://h", long, &[])).unwrap_err().message,
        "webhook url must start with https:// or http://"
    );
    assert_eq!(
        create_webhook(&a, &webhook("http://h", "short", &[])).unwrap_err().message,
        "webhook secret must be at least 16 characters"
    );
    assert!(create_webhook(&a, &webhook("http://h", &"é".repeat(7), &[])).is_err());
    assert!(create_webhook(&a, &webhook("http://h", &"é".repeat(8), &[])).is_ok());
    let e = create_webhook(&a, &webhook("http://h", long, &["table.committed"])).unwrap_err();
    assert_eq!(
        e.message,
        "unknown event type \"table.committed\": event types are CloudEvents type strings and start with \
         \"com.meridian.\" (e.g. \"com.meridian.table.committed\")"
    );
    assert!(validate_event_type("com.meridian.x").is_ok());
}

#[test]
fn webhooks_are_shown_without_their_secret() {
    let record = WebhookEndpointRecord {
        id: "01H".to_string(),
        url: "https://h".to_string(),
        event_types: Vec::new(),
        secret: "swordfish".to_string(),
        created_at: "c".to_string(),
        updated_at: "u".to_string(),
    };
    let shown = WebhookResponse::from_record(record);
    assert!(!format!("{shown:?}").contains("swordfish"));
    assert_eq!(
        get_webhook::<u8>(&Access::Granted, "01H", None).unwrap_err().message,
        "webhook \"01H\" does not exist"
    );
}

#[test]
fn deliveries_are_listed_by_status() {
    let with = |status: Option<&str>| ListDeliveriesQuery { status: status.map(|s| s.to_string()), limit: None };
    let a = Access::Granted;
    assert!(matches!(
        list_webhook_deliveries(&a, "01H", &with(Some("dead")), &Found::Is(())),
        Ok(DeliveriesStep::List(100))
    ));
    assert!(list_webhook_deliveries(&a, "01H", &with(Some("lost")), &Found::Is(())).is_err());
    assert_eq!(
        list_webhook_deliveries(&a, "01H", &with(None), &Found::Missing).unwrap_err().kind,
        ErrorKind::NotFound
    );
}

#[test]
fn type_filters_are_shortened() {
    assert_eq!(parse_types(None).unwrap(), None);
    assert_eq!(parse_types(Some(" , ")).unwrap(), None);
    assert_eq!(
        parse_types(Some("com.meridian.a , com.meridian.b")).unwrap(),
        Some(texts(&["a", "b"]))
    );
    assert!(parse_types(Some("com.meridian.a,b")).is_err());
}

#[test]
fn feeds_start_at_the_beginning_after_an_event_or_at_the_end() {
    let a = Access::Granted;
    let with = |after: Option<&str>| FeedQuery { after: after.map(|s| s.to_string()), types: None, limit: Some(7) };
    assert!(matches!(list_events(&a, &with(None), &None), Ok(FeedStep::Read(r)) if r.after.is_empty() && r.limit == 7));
    assert!(matches!(list_events(&a, &with(Some("01E")), &None), Ok(FeedStep::Read(r)) if r.after == "01E"));
    assert!(matches!(list_events(&a, &with(Some("latest")), &None), Ok(FeedStep::AskLatest)));
    assert!(matches!(list_events(&a, &with(Some("latest")), &some("01Z")), Ok(FeedStep::Read(r)) if r.after == "01Z"));
    assert_eq!(read_feed("01E", &Vec::new()), "01E");
    assert_eq!(read_feed("01E", &texts(&["01F", "01G"])), "01G");
}

#[test]
fn consumers_read_from_where_they_committed() {
    let a = Access::Granted;
    let next = ConsumerNextQuery { types: None, limit: None };
    assert!(matches!(consumer_next(&a, "c", &next, &Found::Is(None)), Ok(FeedStep::Read(r)) if r.after.is_empty()));
    assert!(matches!(consumer_next(&a, "c", &next, &Found::Is(some("01E"))), Ok(FeedStep::Read(r)) if r.after == "01E"));
    assert_eq!(consumer_next(&a, "c", &next, &Found::Missing).unwrap_err().message, "consumer \"c\" does not exist");
    assert!(consumer_commit(&a, &CommitCursorRequest { cursor: "01E".to_string() }).is_ok());
    assert!(consumer_commit(&a, &CommitCursorRequest { cursor: String::new() }).is_err());
    assert_eq!(commit_cursor_error(&store(StoreKind::Conflict)).kind, ErrorKind::CommitFailed);
    assert_eq!(commit_cursor_error(&store(StoreKind::NotFound)).kind, ErrorKind::NotFound);
}

#[test]
fn consumer_names_are_handles() {
    assert!(validate_consumer_name("etl-1.prod_x").is_ok());
    assert_eq!(validate_consumer_name("").unwrap_err().message, "consumer name must be 1–100 characters");
    assert!(validate_consumer_name(&"c".repeat(101)).is_err());
    assert_eq!(
        create_consumer(&Access::Granted, &CreateConsumerRequest { name: "a b".to_string() }).unwrap_err().message,
        "consumer name may only contain letters, digits, '.', '_' and '-'"
    );
}

// Mirrors --------------------------------------------------------------------

fn mirror(kind: &str, endpoint: &str, interval: i32) -> CreateMirrorRequest {
    CreateMirrorRequest {
        name: "m1".to_string(),
        kind: kind.to_string(),
        endpoint: endpoint.to_string(),
        remote_catalog: None,
        config: TextMap::new(),
        enabled: default_enabled(),
        sync_interval_s: interval,
    }
}

#[test]
fn mirrors_are_checked() {
    let a = Access::Granted;
    assert!(create_mirror(&a, &mirror("glue", "eu-west-1", default_sync_interval())).is_ok());
    assert_eq!(
        create_mirror(&a, &mirror("hive", "x", 1)).unwrap_err().message,
        "mirror kind must be one of [\"iceberg-rest\", \"glue\"]"
    );
    assert_eq!(create_mirror(&a, &mirror("glue", " ", 1)).unwrap_err().message, "endpoint must not be empty");
    assert_eq!(create_mirror(&a, &mirror("glue", "x", 0)).unwrap_err().message, "sync_interval_s must be positive");
    assert!(validate_name("a/b").is_err());
    assert!(validate_kind("iceberg-rest").is_ok());
    let mut update = UpdateMirrorRequest {
        endpoint: None,
        remote_catalog: None,
        config: None,
        enabled: None,
        sync_interval_s: None,
    };
    assert_eq!(update_mirror(&a, &update).unwrap_err().message, "no fields to update");
    update.remote_catalog = Some(None);
    assert!(update_mirror(&a, &update).is_ok());
    update.sync_interval_s = Some(-1);
    assert!(update_mirror(&a, &update).is_err());
}

#[test]
fn secrets_of_mirrors_are_redacted() {
    let config = TextMap::new().with("token", "swordfish".to_string()).with("region", "eu".to_string());
    let shown = redact(&config);
    assert_eq!(shown.get("token"), Some(&"***".to_string()));
    assert_eq!(shown.get("region"), Some(&"eu".to_string()));
    assert_eq!(shown.len(), 2);
}

#[test]
fn mirrors_are_found_and_summed_up() {
    let a = Access::Granted;
    assert_eq!(get_mirror::<u8>(&a, "m1", None).unwrap_err().kind, ErrorKind::NoSuchMirror);
    assert_eq!(mirror_error("m1", &store(StoreKind::NotFound)).message, "mirror \"m1\" does not exist");
    assert_eq!(mirror_error("m1", &store(StoreKind::Conflict)).kind, ErrorKind::AlreadyExists);
    assert_eq!(get_sync_status(&a, "m1", &SyncStatusQuery { limit: Some(999) }, &Some(1)).unwrap(), 200);
    assert_eq!(get_sprawl(&a, &SprawlQuery { stale_threshold_s: None }).unwrap(), 86_400);
    assert_eq!(get_sprawl(&a, &SprawlQuery { stale_threshold_s: Some(-5) }).unwrap(), 0);
}

// Maintenance ----------------------------------------------------------------

fn selector(namespace: Option<&str>, table: Option<&str>) -> PolicyScopeSelector {
    PolicyScopeSelector {
        warehouse: "wh1".to_string(),
        namespace: namespace.map(|s| s.to_string()),
        table: table.map(|s| s.to_string()),
    }
}

#[test]
fn dotted_namespaces_are_parsed() {
    assert_eq!(parse_dotted_namespace(" a . b.").unwrap(), texts(&["a", "b"]));
    assert_eq!(parse_dotted_namespace(" . ").unwrap_err().message, "namespace must not be empty");
    assert_eq!(display_ident(&texts(&["a"]), "t"), "a.t");
}

#[test]
fn policies_have_defaults() {
    let mut request = PolicyRequest {
        scope: selector(None, None),
        target_file_size_bytes: None,
        min_input_files: None,
        snapshot_retention_count: None,
        snapshot_retention_age_ms: None,
        max_staleness_ms: None,
        schedule: None,
        window_start: None,
        window_end: None,
        exclusions: None,
        enabled: None,
    };
    let spec = request.to_spec();
    assert_eq!(spec.target_file_size_bytes, 512 * 1024 * 1024);
    assert_eq!(spec.min_input_files, 5);
    assert_eq!(spec.snapshot_retention_count, 100);
    assert_eq!(spec.snapshot_retention_age_ms, 5 * 24 * 60 * 60 * 1000);
    assert_eq!(spec.exclusions, "{}");
    assert!(spec.enabled);
    request.min_input_files = Some(9);
    request.enabled = Some(false);
    assert_eq!(request.to_spec().min_input_files, 9);
    assert!(!request.to_spec().enabled);
}

#[test]
fn policies_attach_where_the_caller_may_manage() {
    let mut facts = ScopeFacts {
        warehouse: Found::Is("01W".to_string()),
        namespace: Found::Is(ScopeNamespace { id: "01N".to_string(), chain: texts(&["01N"]) }),
        table: Found::Is("01T".to_string()),
        access: None,
    };
    assert!(matches!(resolve_scope(&selector(None, None), &facts), Ok(ScopeStep::AskManageWarehouse)));
    assert!(matches!(resolve_scope(&selector(Some("a"), None), &facts), Ok(ScopeStep::AskManageNamespace(l)) if l == texts(&["a"])));
    facts.access = Some(Access::Granted);
    assert!(matches!(
        resolve_scope(&selector(Some("a"), Some("t")), &facts),
        Ok(ScopeStep::Open(Scope::Table, id)) if id == "01T"
    ));
    assert_eq!(
        resolve_scope(&selector(None, Some("t")), &facts).unwrap_err().message,
        "a table-scoped policy must also name its namespace"
    );
    facts.table = Found::Missing;
    assert_eq!(
        resolve_scope(&selector(Some("a"), Some("t")), &facts).unwrap_err().message,
        "table \"a.t\" does not exist"
    );
    facts.access = Some(forbidden());
    assert_eq!(resolve_scope(&selector(None, None), &facts).unwrap_err().kind, ErrorKind::Forbidden);
    facts.namespace = Found::Unasked;
    let levels = texts(&["a", "b"]);
    assert!(matches!(
        resolve_scope(&selector(Some("a. b"), None), &facts),
        Ok(ScopeStep::AskNamespace(l)) if l == levels
    ));
}

#[test]
fn scopes_are_labelled() {
    assert_eq!(scope_label("wh1", &selector(None, None)), "warehouse:wh1");
    assert_eq!(scope_label("wh1", &selector(Some("a.b"), None)), "wh1/a.b");
    assert_eq!(scope_label("wh1", &selector(Some("a.b"), Some("t"))), "wh1/a.b.t");
    let names = Some(ScopeNames { warehouse: "wh1".to_string(), levels: texts(&["a", "b"]), table: "t".to_string() });
    assert_eq!(policy_scope_label(Scope::Table, "01T", &names), "wh1/a.b.t");
    assert_eq!(policy_scope_label(Scope::Namespace, "01N", &None), "namespace:01N");
    assert_eq!(Scope::of_row("galaxy"), Scope::Warehouse);
    assert_eq!(create_policy_error(&store(StoreKind::Conflict)).kind, ErrorKind::AlreadyExists);
    assert_eq!(update_policy_error(&store(StoreKind::NotFound)).kind, ErrorKind::NotFound);
    assert!(delete_policy(true).is_ok());
    assert_eq!(delete_policy(false).unwrap_err().message, "no policy exists for that scope");
}

fn table(metadata: Option<&str>) -> TableRecord {
    TableRecord {
        id: "01T".to_string(),
        name: "t".to_string(),
        table_uuid: "u".to_string(),
        mirror_id: None,
        metadata_location: metadata.map(|s| s.to_string()),
        pointer_version: 1,
    }
}

#[test]
fn health_is_shown_to_readers() {
    let mut facts = HealthFacts {
        warehouse: Found::Is(()),
        namespace: Found::Is(()),
        table: Found::Is(table(None)),
        access: Some(Access::Granted),
    };
    assert!(matches!(resolve_table_for_read("wh1", "a", "t", &facts), Ok(HealthStep::Open)));
    facts.access = Some(forbidden());
    assert!(resolve_table_for_read("wh1", "a", "t", &facts).is_err());
    facts.namespace = Found::Missing;
    assert_eq!(resolve_table_for_read("wh1", "a", "t", &facts).unwrap_err().kind, ErrorKind::NoSuchNamespace);
    assert_eq!(
        health_metadata(&texts(&["a"]), "t", &table(None)).unwrap_err().message,
        "table \"a.t\" has no metadata"
    );
    assert_eq!(health_metadata(&texts(&["a"]), "t", &table(Some("x"))).unwrap(), "x");
    assert_eq!(history_limit(&HistoryQuery { limit: None }), 50);
}

#[test]
fn jobs_are_listed_by_state() {
    let with = |state: Option<&str>| JobListQuery { state: state.map(|s| s.to_string()), table_id: None, limit: None };
    assert_eq!(list_jobs(&Access::Granted, &with(Some("running"))).unwrap(), 50);
    assert_eq!(
        list_jobs(&Access::Granted, &with(Some("asleep"))).unwrap_err().message,
        "unknown job state \"asleep\""
    );
    assert_eq!(job_of_row("compaction", "queued").unwrap(), (JobType::Compaction, JobState::Queued));
    assert_eq!(job_of_row("magic", "queued").unwrap_err().message, "job has an unknown type");
    assert_eq!(job_of_row("compaction", "odd").unwrap_err().message, "job has an unknown state");
    assert_eq!(get_job::<u8>(&Access::Granted, None).unwrap_err().message, "job not found");
    assert_eq!(list_savings(&Access::Granted, &SavingsQuery { table_id: None, limit: Some(0) }).unwrap(), 1);
    assert_eq!(savings_rollup(&Access::Granted, &RollupQuery { months: Some(999) }).unwrap(), 120);
}

#[test]
fn jobs_are_started_and_called_off_by_managers() {
    let request = |job_type: Option<&str>| TriggerRequest {
        warehouse: "wh1".to_string(),
        namespace: "a".to_string(),
        table: "t".to_string(),
        job_type: job_type.map(|s| s.to_string()),
        dry_run: true,
    };
    let facts = TriggerFacts {
        warehouse: Found::Is(()),
        namespace: Found::Is(()),
        table: Found::Is(()),
        access: Some(Access::Granted),
    };
    assert!(matches!(trigger_job(&request(None), &facts), Ok(TriggerStep::Enqueue(JobType::Compaction, true))));
    assert!(matches!(
        trigger_job(&request(Some("expire_snapshots")), &facts),
        Ok(TriggerStep::Enqueue(JobType::ExpireSnapshots, false))
    ));
    assert_eq!(
        trigger_job(&request(Some("remove_orphans")), &facts).unwrap_err().message,
        "unsupported job_type \"remove_orphans\": expected \"compaction\" or \"expire_snapshots\""
    );
    let mut cancel =
        CancelFacts { job: Found::Is(()), table: Found::Is(()), access: Some(Access::Granted), cancelled: None };
    assert!(matches!(cancel_job(&cancel), Ok(CancelStep::Cancel)));
    cancel.cancelled = Some(Err(store(StoreKind::Conflict)));
    assert_eq!(cancel_job(&cancel).unwrap_err().kind, ErrorKind::Conflict);
    cancel.access = Some(forbidden());
    assert_eq!(cancel_job(&cancel).unwrap_err().kind, ErrorKind::Forbidden);
    cancel.table = Found::Missing;
    assert_eq!(cancel_job(&cancel).unwrap_err().message, "the job's table no longer exists");
}

// Meaning --------------------------------------------------------------------

fn metric(name: &str, expression: &str, source: &str) -> CreateMetricRequest {
    CreateMetricRequest {
        name: name.to_string(),
        display_name: None,
        source: source.to_string(),
        expression: expression.to_string(),
        dialect: None,
        dimensions: Vec::new(),
        filters: Vec::new(),
        grain: None,
        description: None,
        owner: None,
        certification: None,
    }
}

#[test]
fn metrics_are_checked_and_filled_in() {
    let a = Access::Granted;
    let m = create_metric(&a, &metric(" revenue ", "sum(x)", "a.t"), "user:ada").unwrap();
    assert_eq!(m.name, "revenue");
    assert_eq!(m.dialect, "trino");
    assert_eq!(m.owner, "user:ada");
    assert_eq!(m.certification, Certification::Draft);
    assert_eq!(create_metric(&a, &metric(" ", "", ""), "u").unwrap_err().message, "metric name must not be empty");
    assert_eq!(create_metric(&a, &metric("m", "", ""), "u").unwrap_err().message, "metric expression must not be empty");
    assert_eq!(create_metric(&a, &metric("m", "x", ""), "u").unwrap_err().message, "metric source must not be empty");
    assert_eq!(get_metric::<u8>(&a, None).unwrap_err().message, "metric not found");
}

#[test]
fn certifications_have_names() {
    assert_eq!(parse_certification(&some("certified")).unwrap(), Certification::Certified);
    assert_eq!(
        parse_certification(&some("gold")).unwrap_err().message,
        "certification must be one of draft|certified|deprecated, got \"gold\""
    );
    let mut update = UpdateMetricRequest {
        display_name: None,
        source: None,
        expression: None,
        dialect: None,
        dimensions: None,
        filters: None,
        grain: None,
        description: None,
        owner: None,
        certification: None,
    };
    assert_eq!(update_metric(&Access::Granted, &update).unwrap(), None);
    update.certification = some("deprecated");
    assert_eq!(update_metric(&Access::Granted, &update).unwrap(), Some(Certification::Deprecated));
}

#[test]
fn metrics_are_compiled_by_the_sidecar() {
    let a = Access::Granted;
    let query = CompileQuery { engine: " Spark ".to_string() };
    let mut facts = CompileFacts { metric: Found::Is(()), sidecar: true, compiled: None };
    assert!(matches!(compile_metric(&a, &query, &facts), Ok(CompileStep::Compile(d)) if d == "spark"));
    facts.compiled = Some(Err("refused".to_string()));
    let e = compile_metric(&a, &query, &facts).unwrap_err();
    assert_eq!(e.status(), Some(503));
    assert_eq!(e.message, "transpilation sidecar is unavailable: refused");
    facts.sidecar = false;
    assert_eq!(
        compile_metric(&a, &query, &facts).unwrap_err().message,
        "the transpilation sidecar is not configured"
    );
    assert_eq!(
        compile_metric(&a, &CompileQuery { engine: "  ".to_string() }, &facts).unwrap_err().kind,
        ErrorKind::BadRequest
    );
}

#[test]
fn terms_are_checked_and_linked() {
    let a = Access::Granted;
    let term = |definition: &str| CreateTermRequest {
        name: "churn".to_string(),
        definition: definition.to_string(),
        steward: some("user:bob"),
        certification: None,
    };
    assert_eq!(create_term(&a, &term(" leaving "), "user:ada").unwrap().definition, "leaving");
    assert_eq!(create_term(&a, &term(" "), "user:ada").unwrap_err().message, "term definition must not be empty");
    let link = |kind: &str, to: &str| LinkTermRequest { asset_kind: kind.to_string(), asset_ref: to.to_string() };
    assert_eq!(link_term(&a, &link("view", " v ")).unwrap(), "v");
    assert_eq!(link_term(&a, &link("view", " ")).unwrap_err().message, "asset_ref must not be empty");
    assert_eq!(
        link_term(&a, &link("topic", "x")).unwrap_err().message,
        "asset_kind must be one of table|view|metric, got \"topic\""
    );
    assert!(validate_asset_kind("metric").is_ok());
}

#[test]
fn products_have_members() {
    let a = Access::Granted;
    let product = |name: &str| CreateProductRequest {
        name: name.to_string(),
        display_name: None,
        description: None,
        owner: None,
        sla: None,
        certification: None,
    };
    assert_eq!(create_product(&a, &product("p"), "user:ada").unwrap().owner, "user:ada");
    assert_eq!(create_product(&a, &product(" "), "u").unwrap_err().message, "product name must not be empty");
    let member = |kind: &str| AddMemberRequest { member_kind: kind.to_string(), member_ref: " r ".to_string() };
    assert_eq!(add_product_member(&a, &member("contract")).unwrap(), "r");
    assert!(add_product_member(&a, &member("topic")).is_err());
    assert!(validate_member_kind("glossary_term").is_ok());
}

#[test]
fn products_do_as_badly_as_their_worst_table() {
    assert_eq!(resolve_table_member_status(0), Health::Healthy);
    assert_eq!(resolve_table_member_status(2), Health::Degraded);
    assert_eq!(resolve_table_member_status(3), Health::Unhealthy);
    assert_eq!(
        product_status(&vec![Some(Health::Healthy), None, Some(Health::Degraded)]),
        Rollup::As(Health::Degraded)
    );
    assert_eq!(product_status(&vec![None]).as_str(), "no_signal");
    let member = |kind: &str, to: &str| ProductMember { member_kind: kind.to_string(), member_ref: to.to_string() };
    assert_eq!(member_table_id(&member("table", "table:01T")), Some("01T"));
    assert_eq!(member_table_id(&member("table", "01T")), Some("01T"));
    assert_eq!(member_table_id(&member("view", "01V")), None);
    let counts = member_counts(&vec![member("table", "1"), member("view", "2"), member("table", "3")]);
    assert_eq!(counts.get("table"), Some(&2));
    assert_eq!(counts.get("view"), Some(&1));
    assert_eq!(counts.len(), 2);
}

#[test]
fn lists_go_on_from_their_last_row() {
    assert_eq!(clamp_limit(None), 100);
    assert_eq!(clamp_limit(Some(9999)), 500);
    assert_eq!(list_page(&Access::Granted, &ListQuery { after: None, limit: Some(3) }).unwrap(), 3);
    assert_eq!(next_after(&texts(&["a", "b"])), some("b"));
    assert_eq!(next_after(&Vec::new()), None);
}
