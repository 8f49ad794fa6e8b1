//! Server-side scan planning.

use meridian_routes::error::{ApiError, ErrorKind};
use meridian_routes::grants::{Access, Found};
use meridian_routes::metadata::{
    derived_state, retain_referenced_snapshots, RefType, Schema, SchemaField, Snapshot, SnapshotRef, TableMetadata,
};
use meridian_routes::planning::{
    apply_enforcement, authorize_read, cancel_planning, column_ids, completed_answer, default_plan_request, enriched_summary, failed_answer,
    fetch_planning_result, fetch_scan_tasks, finish_job, inline_payload, is_sync, no_such_plan, no_such_plan_task,
    pages_for, parse_plan_request, plan_table_scan, plan_ttl, purpose_from_headers, recompute_inline_payload, referenced_deletes, resolve_scan,
    resolve_snapshot, respond_completed_inline, result_form, scan_target, tokens_answer, validate_scan_mode, AgainFacts,
    AgainStep, FetchFacts, FetchStep, Gate, JobEnd, Json, ManifestEntry, ManifestRead, MetadataRead, Payload,
    PlanFacts, PlanStatus, PlanStep, PlanTableScanRequest, PolicyAnswer, ReadFacts, ResultForm, ResultMode, ScanAnswers,
    ScanPlan, ScanPolicy, ScanWork, TaskFacts, TaskStep, unsupported,
};
use meridian_routes::tables::{Header, TableRecord};
use meridian_routes::textmap::TextMap;

fn texts(items: &[&str]) -> Vec<String> {
    items.iter().map(|s| s.to_string()).collect()
}

fn table() -> TableRecord {
    TableRecord {
        id: "01T".to_string(),
        name: "t".to_string(),
        table_uuid: "u1".to_string(),
        mirror_id: None,
        metadata_location: Some("s3://b/m/1.json".to_string()),
        pointer_version: 1,
    }
}

fn snapshot(id: i64, schema: Option<i32>) -> Snapshot {
    Snapshot {
        snapshot_id: id,
        parent_snapshot_id: None,
        sequence_number: Some(id),
        timestamp_ms: id,
        manifest_list: Some(format!("s3://b/m/{id}.avro")),
        schema_id: schema,
        summary: None,
    }
}

fn schema(id: i32, names: &[&str]) -> Schema {
    let mut fields = Vec::new();
    for (i, name) in names.iter().enumerate() {
        fields.push(SchemaField { id: i as i32 + 1, name: name.to_string(), field_type: "string".to_string() });
    }
    Schema { schema_id: Some(id), fields }
}

fn metadata() -> TableMetadata {
    let main = SnapshotRef {
        snapshot_id: 2,
        ref_type: RefType::Branch,
        min_snapshots_to_keep: None,
        max_snapshot_age_ms: None,
        max_ref_age_ms: None,
    };
    TableMetadata {
        table_uuid: "u1".to_string(),
        location: "s3://b/t".to_string(),
        format_version: 2,
        current_snapshot_id: Some(2),
        snapshots: Some(vec![snapshot(1, Some(0)), snapshot(2, Some(1))]),
        refs: Some(TextMap::new().with("main", main)),
        properties: None,
        current_schema_id: 1,
        schemas: vec![schema(0, &["id"]), schema(1, &["id", "email"])],
    }
}

fn request() -> PlanTableScanRequest {
    PlanTableScanRequest {
        snapshot_id: None,
        select: None,
        case_sensitive: None,
        use_snapshot_schema: None,
        start_snapshot_id: None,
        end_snapshot_id: None,
        stats_fields: None,
    }
}

fn read() -> ReadFacts {
    ReadFacts { warehouse: Found::Is(()), table: Found::Is(table()), access: Some(Access::Granted) }
}

fn fields() -> TextMap<i32> {
    TextMap::new().with("id", 1).with("email", 2)
}

fn policy(denied: bool, masked: &[&str]) -> ScanPolicy {
    ScanPolicy { denied, reason: "tagged pii".to_string(), row_filter: None, removed_columns: texts(masked) }
}

#[test]
fn every_plan_route_wants_a_reader() {
    let mut facts = read();
    assert!(matches!(authorize_read("wh1", "a", "t", &facts), Ok(Gate::Open(r)) if r.id == "01T"));
    facts.access = None;
    assert!(matches!(authorize_read("wh1", "a", "t", &facts), Ok(Gate::AskRead)));
    facts.access = Some(Access::Forbidden("no".to_string()));
    assert_eq!(authorize_read("wh1", "a", "t", &facts).unwrap_err().kind, ErrorKind::Forbidden);
    facts.table = Found::Missing;
    assert_eq!(authorize_read("wh1", "a", "t", &facts).unwrap_err().kind, ErrorKind::NoSuchTable);
}

#[test]
fn incremental_scans_are_not_offered() {
    let mut r = request();
    assert!(validate_scan_mode(&r).is_ok());
    r.start_snapshot_id = Some(1);
    assert_eq!(
        validate_scan_mode(&r).unwrap_err().message,
        "end-snapshot-id is required when start-snapshot-id is set"
    );
    r.end_snapshot_id = Some(2);
    assert_eq!(validate_scan_mode(&r).unwrap_err().status(), Some(406));
    r.snapshot_id = Some(1);
    assert_eq!(validate_scan_mode(&r).unwrap_err().status(), Some(400));
}

#[test]
fn scans_read_the_snapshot_that_is_asked_for() {
    let m = metadata();
    assert_eq!(resolve_snapshot(&m, &request()).unwrap(), Some(1));
    let mut r = request();
    r.snapshot_id = Some(1);
    assert_eq!(resolve_snapshot(&m, &r).unwrap(), Some(0));
    r.snapshot_id = Some(9);
    let e = resolve_snapshot(&m, &r).unwrap_err();
    assert_eq!(e.kind, ErrorKind::BadRequest);
    assert_eq!(e.message, "snapshot 9 does not exist");
    let mut empty = metadata();
    empty.current_snapshot_id = None;
    assert_eq!(resolve_snapshot(&empty, &request()).unwrap(), None);
}

#[test]
fn scans_bind_to_the_schema_that_is_asked_for() {
    let mut r = request();
    r.snapshot_id = Some(1);
    let target = scan_target(&metadata(), &r).unwrap().unwrap();
    assert_eq!(target.snapshot_id, 1);
    assert_eq!(target.manifest_list, "s3://b/m/1.avro");
    r.use_snapshot_schema = Some(true);
    let pinned = scan_target(&metadata(), &r).unwrap().unwrap();
    assert_eq!(pinned.schema, 0);
}

#[test]
fn a_schema_without_an_id_is_never_found() {
    let mut m = metadata();
    m.current_schema_id = 0;
    m.schemas = vec![Schema { schema_id: None, ..schema(0, &["id"]) }];
    let e = scan_target(&m, &request()).unwrap_err();
    assert_eq!(e.status(), Some(500));
    assert_eq!(e.message, "schema 0 is missing from table metadata");
}

#[test]
fn columns_are_looked_up_by_name() {
    assert_eq!(column_ids(&texts(&["email", "gone", "id"]), &fields()), vec![1, 2]);
    let mut r = request();
    r.stats_fields = Some(texts(&["email"]));
    let answers = ScanAnswers { fields: fields(), filter_error: None };
    assert_eq!(resolve_scan(&r, &answers).unwrap(), Some(vec![2]));
    let bad = ScanAnswers { fields: fields(), filter_error: Some("no such column".to_string()) };
    assert_eq!(resolve_scan(&request(), &bad).unwrap_err().kind, ErrorKind::BadRequest);
}

#[test]
fn policies_deny_filter_and_mask() {
    assert!(!policy(false, &[]).effective());
    assert!(policy(true, &[]).effective());
    assert_eq!(apply_enforcement(&policy(true, &[]), &fields()).unwrap_err().kind, ErrorKind::Forbidden);
    let masked = apply_enforcement(&policy(false, &["email", "gone"]), &fields()).unwrap();
    assert_eq!(masked.strip_fields, vec![2]);
    assert_eq!(masked.row_policy, None);
}

fn manifest(data: bool, added: i32) -> ManifestEntry {
    ManifestEntry { data, added_files_count: Some(added), existing_files_count: Some(0) }
}

#[test]
fn small_scans_are_planned_at_once() {
    assert!(is_sync(&vec![manifest(true, 2), manifest(false, 90)], 2));
    assert!(!is_sync(&vec![manifest(true, 2), manifest(true, 1)], 2));
    let unknown = ManifestEntry { data: true, added_files_count: None, existing_files_count: Some(1) };
    assert!(!is_sync(&vec![unknown], 1000));
}

fn answer(policy: ScanPolicy) -> PolicyAnswer {
    PolicyAnswer { policy, fields: fields() }
}

fn plan_facts() -> PlanFacts {
    PlanFacts {
        enabled: true,
        read: read(),
        body_len: 2,
        request: Ok(request()),
        metadata: MetadataRead::Read(metadata()),
        answers: Some(ScanAnswers { fields: fields(), filter_error: None }),
        policy: Some(answer(policy(false, &[]))),
        audited: true,
        manifests: ManifestRead::Read(vec![manifest(true, 2)]),
        sync_max_data_files: 10,
        worker: None,
    }
}

#[test]
fn plans_go_step_by_step() {
    let mut facts = plan_facts();
    assert!(matches!(plan_table_scan("wh1", "a", "t", &facts), Ok(PlanStep::PlanNow(_))));
    facts.sync_max_data_files = 1;
    assert!(matches!(plan_table_scan("wh1", "a", "t", &facts), Ok(PlanStep::TakeWorker)));
    facts.worker = Some(true);
    assert!(matches!(plan_table_scan("wh1", "a", "t", &facts), Ok(PlanStep::Submit(_))));
    facts.worker = Some(false);
    let e = plan_table_scan("wh1", "a", "t", &facts).unwrap_err();
    assert_eq!(e.status(), Some(503));
    assert_eq!(e.message, "scan-planning capacity is exhausted; retry shortly");
    facts.manifests = ManifestRead::Unread;
    assert!(matches!(plan_table_scan("wh1", "a", "t", &facts), Ok(PlanStep::ReadManifests(at)) if at == "s3://b/m/2.avro"));
    facts.policy = None;
    assert!(matches!(plan_table_scan("wh1", "a", "t", &facts), Ok(PlanStep::AskPolicy)));
    facts.metadata = MetadataRead::Unread;
    assert!(matches!(plan_table_scan("wh1", "a", "t", &facts), Ok(PlanStep::ReadMetadata(at)) if at == "s3://b/m/1.json"));
}

#[test]
fn planners_are_handed_what_policy_leaves() {
    let mut facts = plan_facts();
    let mut asked = request();
    asked.stats_fields = Some(texts(&["email", "id"]));
    facts.request = Ok(asked);
    let mut masked = policy(false, &["email", "gone"]);
    masked.row_filter = Some("region = 'eu'".to_string());
    facts.policy = Some(answer(masked));
    let check = |work: ScanWork| {
        assert_eq!(work.target.snapshot_id, 2);
        assert_eq!(work.target.manifest_list, "s3://b/m/2.avro");
        assert_eq!(work.stats, Some(vec![1, 2]));
        assert_eq!(work.enforcement.row_policy, Some("region = 'eu'".to_string()));
        assert_eq!(work.enforcement.strip_fields, vec![2]);
    };
    match plan_table_scan("wh1", "a", "t", &facts) {
        Ok(PlanStep::PlanNow(work)) => check(work),
        other => panic!("{other:?}"),
    }
    facts.sync_max_data_files = 1;
    facts.worker = Some(true);
    match plan_table_scan("wh1", "a", "t", &facts) {
        Ok(PlanStep::Submit(work)) => check(work),
        other => panic!("{other:?}"),
    }
}

#[test]
fn an_empty_body_asks_for_a_plain_scan() {
    let mut facts = plan_facts();
    facts.request = Err("EOF while parsing a value".to_string());
    assert_eq!(
        plan_table_scan("wh1", "a", "t", &facts).unwrap_err().message,
        "invalid planTableScan request body: EOF while parsing a value"
    );
    facts.body_len = 0;
    match plan_table_scan("wh1", "a", "t", &facts) {
        Ok(PlanStep::PlanNow(work)) => {
            assert_eq!(work.target.snapshot_id, 2);
            assert_eq!(work.stats, None);
        }
        other => panic!("{other:?}"),
    }
    let plain = default_plan_request();
    assert!(parse_plan_request(0, &facts.request, &plain).is_ok());
    assert!(parse_plan_request(1, &facts.request, &plain).is_err());
}

#[test]
fn plans_are_kept_for_their_time() {
    assert_eq!(plan_ttl(60), 60);
    assert_eq!(plan_ttl(9223372036854775807), 9223372036854775807);
    assert_eq!(plan_ttl(9223372036854775808), 3600);
}

#[test]
fn denied_scans_are_recorded_before_they_are_refused() {
    let mut facts = plan_facts();
    facts.policy = Some(answer(policy(true, &[])));
    facts.audited = false;
    assert!(matches!(plan_table_scan("wh1", "a", "t", &facts), Ok(PlanStep::Audit)));
    facts.audited = true;
    assert_eq!(plan_table_scan("wh1", "a", "t", &facts).unwrap_err().kind, ErrorKind::Forbidden);
}

#[test]
fn disabled_planning_is_said() {
    let mut facts = plan_facts();
    facts.enabled = false;
    assert!(plan_table_scan("wh1", "a", "t", &facts).is_err());
    facts.enabled = true;
    facts.request = Err("expected value".to_string());
    assert_eq!(plan_table_scan("wh1", "a", "t", &facts).unwrap_err().kind, ErrorKind::BadRequest);
    facts.request = Ok(request());
    facts.metadata = MetadataRead::NoStorage(ApiError::bad_request("no bucket"));
    assert!(plan_table_scan("wh1", "a", "t", &facts).is_err());
}

#[test]
fn purposes_come_in_a_header() {
    assert_eq!(purpose_from_headers(&Header::Text(" audit ".to_string())), Some("audit".to_string()));
    assert_eq!(purpose_from_headers(&Header::Text("  ".to_string())), None);
    assert_eq!(purpose_from_headers(&Header::Absent), None);
}

fn raw(s: &str) -> Payload {
    Payload::Other(Json::Raw(s.to_string()))
}

#[test]
fn pages_are_numbered_and_named() {
    let pages = pages_for(vec![raw("a"), raw("b")]);
    assert_eq!(pages[0].page_index, 0);
    assert_eq!(pages[1].page_index, 1);
    assert_ne!(pages[0].page_token, pages[1].page_token);
    assert_eq!(pages[0].page_token.len(), 26);
    assert!(pages_for(Vec::new()).is_empty());
}

#[test]
fn finished_jobs_complete_or_fail() {
    assert!(matches!(finish_job(Ok(vec![raw("a")])), JobEnd::Complete(pages) if pages.len() == 1));
    match finish_job(Err("manifest gone".to_string())) {
        JobEnd::Fail(failure) => {
            assert_eq!(failure.message, "manifest gone");
            assert_eq!(failure.code, 500);
        }
        other => panic!("{other:?}"),
    }
}

#[test]
fn inline_answers_hold_the_first_page() {
    let inline = inline_payload(vec![Payload::Object(TextMap::new().with("file-scan-tasks", Json::EmptyList))]);
    let answer = respond_completed_inline(inline, "01P".to_string());
    assert!(matches!(answer.get("plan-id"), Some(Json::Text(id)) if id == "01P"));
    assert!(matches!(answer.get("status"), Some(Json::Text(s)) if s == "completed"));
    assert!(answer.has("file-scan-tasks"));
    let empty = completed_answer(inline_payload(Vec::new()));
    assert!(matches!(empty.get("file-scan-tasks"), Some(Json::EmptyList)));
    let tokens = tokens_answer(texts(&["p1"]));
    assert!(matches!(tokens.get("plan-tasks"), Some(Json::Texts(t)) if t.len() == 1));
    assert!(failed_answer(None).has("status"));
}

#[test]
fn summaries_count_deletes_once() {
    assert_eq!(referenced_deletes(&vec![vec![0, 1], vec![1], vec![]]), 2);
    let summary = enriched_summary(TextMap::new(), "sync".to_string(), 12, None, Json::Raw("{}".to_string()));
    assert!(matches!(summary.get("mode"), Some(Json::Text(m)) if m == "sync"));
}

fn plan(status: PlanStatus, mode: ResultMode) -> ScanPlan {
    ScanPlan { id: "01P".to_string(), table_id: "01T".to_string(), snapshot_id: 2, status, result_mode: mode }
}

#[test]
fn plans_are_found_under_their_own_table_only() {
    let mut facts =
        FetchFacts { enabled: true, read: read(), plan: Found::Is(plan(PlanStatus::Completed, ResultMode::Paged)) };
    assert!(matches!(fetch_planning_result("wh1", "a", "t", "01P", &facts), Ok(FetchStep::Plan(_))));
    let mut other = plan(PlanStatus::Completed, ResultMode::Paged);
    other.table_id = "01U".to_string();
    facts.plan = Found::Is(other);
    let e = fetch_planning_result("wh1", "a", "t", "01P", &facts).unwrap_err();
    assert_eq!(e.kind, ErrorKind::NoSuchPlan);
    assert_eq!(e.message, no_such_plan("01P").message);
    assert!(cancel_planning("01P", true).is_ok());
    assert_eq!(cancel_planning("01P", false).unwrap_err().kind, ErrorKind::NoSuchPlan);
}

#[test]
fn pages_are_found_under_their_own_table_only() {
    let mut facts =
        TaskFacts { enabled: false, read: read(), request: Err("no plan-task".to_string()), page: Found::Unasked };
    assert_eq!(fetch_scan_tasks("wh1", "a", "t", &facts).unwrap_err().kind, unsupported("off").kind);
    facts.enabled = true;
    let e = fetch_scan_tasks("wh1", "a", "t", &facts).unwrap_err();
    assert_eq!(e.message, "invalid fetchScanTasks request body: no plan-task");
    facts.request = Ok("k1".to_string());
    assert!(matches!(fetch_scan_tasks("wh1", "a", "t", &facts), Ok(TaskStep::AskPage(t)) if t == "k1"));
    facts.page = Found::Missing;
    assert_eq!(fetch_scan_tasks("wh1", "a", "t", &facts).unwrap_err().kind, no_such_plan_task().kind);
    facts.page =
        Found::Is(ScanPlan { table_id: "01U".to_string(), ..plan(PlanStatus::Completed, ResultMode::Paged) });
    assert_eq!(fetch_scan_tasks("wh1", "a", "t", &facts).unwrap_err().kind, no_such_plan_task().kind);
    facts.page = Found::Is(plan(PlanStatus::Submitted, ResultMode::Paged));
    assert_eq!(fetch_scan_tasks("wh1", "a", "t", &facts).unwrap_err().kind, no_such_plan_task().kind);
    facts.page = Found::Is(plan(PlanStatus::Completed, ResultMode::Paged));
    assert!(matches!(fetch_scan_tasks("wh1", "a", "t", &facts), Ok(TaskStep::HandOut)));
}

#[test]
fn results_have_a_form() {
    assert!(matches!(result_form(&plan(PlanStatus::Submitted, ResultMode::Paged)), ResultForm::Submitted));
    assert!(matches!(result_form(&plan(PlanStatus::Cancelled, ResultMode::Paged)), ResultForm::Cancelled));
    assert!(matches!(result_form(&plan(PlanStatus::Failed, ResultMode::Paged)), ResultForm::Failed));
    assert!(matches!(result_form(&plan(PlanStatus::Completed, ResultMode::Inline)), ResultForm::Again));
    assert!(matches!(result_form(&plan(PlanStatus::Completed, ResultMode::Paged)), ResultForm::Tokens));
}

#[test]
fn inline_plans_are_planned_again_at_their_snapshot() {
    let mut facts = AgainFacts {
        request: Ok(request()),
        metadata: MetadataRead::Read(metadata()),
        answers: Some(ScanAnswers { fields: fields(), filter_error: None }),
        policy: Some(answer(policy(false, &["email"]))),
        planned: None,
    };
    let mut inline = plan(PlanStatus::Completed, ResultMode::Inline);
    inline.snapshot_id = 1;
    match recompute_inline_payload(&inline, &table(), &facts) {
        Ok(AgainStep::Plan(work)) => {
            assert_eq!(work.target.snapshot_id, 1);
            assert_eq!(work.enforcement.strip_fields, vec![2]);
            assert_eq!(work.stats, None);
        }
        other => panic!("{other:?}"),
    }
    facts.policy = Some(answer(policy(true, &[])));
    assert_eq!(recompute_inline_payload(&inline, &table(), &facts).unwrap_err().kind, ErrorKind::Forbidden);
    inline.snapshot_id = 77;
    let gone = recompute_inline_payload(&inline, &table(), &facts).unwrap_err();
    assert_eq!(gone.status(), Some(404));
}

#[test]
fn referenced_snapshots_are_kept() {
    let mut m = metadata();
    retain_referenced_snapshots(&mut m);
    let kept: Vec<i64> = m.snapshots.unwrap().iter().map(|s| s.snapshot_id).collect();
    assert_eq!(kept, vec![2]);
    let mut again = metadata();
    retain_referenced_snapshots(&mut again);
    retain_referenced_snapshots(&mut again);
    assert_eq!(again.snapshots.unwrap().len(), 1);
    let derived = derived_state(&metadata());
    assert_eq!(derived.snapshot_count, 2);
    assert_eq!(derived.current_snapshot_id, Some(2));
    assert!(derived.snapshots[1].is_current);
}
