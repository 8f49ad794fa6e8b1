//! Assets, quality, governance, branches and shares.

use meridian_routes::assets::{
    add_campaign_snapshots, build_provenance, campaign_of, collect_sources, create_asset, create_training_run, draw_up,
    get_asset, get_training_run, list_assets, list_campaigns, metadata_or_empty, model_provenance, parse_kind, search_assets, vend_fileset_credentials, AccessMode,
    AddSnapshotsBody, AssetKind, AssetRecord, CampaignSnapshotBody, CreateAssetBody, CreateAssetStep, ListAssetsQuery,
    SearchAssetsQuery, TrainingInputBody, TrainingRun, VendFacts, VendStep,
};
use meridian_routes::branches::{
    branch_gate, create_branch, create_tag, default_base, decode_dotted, diff_branch, evaluate_gate, gate_schemas, get_branch, head_snapshot_of, list_branches, load_branch,
    merge_branch, require_warehouse, schema_delta, scope_namespace, table_diff, validate_base_ref, validate_name, BranchRecord,
    BranchResponse, CreateBranchRequest, DivergedPointer, ForwardOutcome, GateTable, MergeAsk, MergeFacts, MergeRun, MergeStep,
};
use meridian_routes::branches::CreateTagRequest;
use meridian_routes::commit::CommitBackendError;
use meridian_routes::contracts::{EnforcementMode, EvaluatedContract, Violation};
use meridian_routes::error::{ApiError, ErrorKind};
use meridian_routes::governance::{
    assignment_in_force, assignment_source, assumed_tags, classification_coverage, coverage_scope, create_policy, cross_check_kind, drift, dry_run_one, dry_run_policy,
    evidence, get_policy, load_table_schema, principal_for_subject, rendered_tag, resolve_assignment_target, resolve_binding_target,
    update_policy, who_can_see, AssignmentSource, AssignmentTarget, BindRequest, BindStep, CoverageQuery, CoverageRow, DryStep, DrySubject,
    EvidenceQuery,
    PolicyKind, PolicyUpdateFacts, PolicyUpdateStep, PrincipalKind, ReachFacts, ReachStep, ResolvedTag, RuleShape,
    SchemaStep, TableCoverage, TagSecurable, TaggedColumn, TargetStep,
};
use meridian_routes::grants::{Access, EffectivePermission, Found};
use meridian_routes::metadata::{RefType, Schema, SchemaField, Snapshot, SnapshotRef, TableMetadata};
use meridian_routes::quality::{
    apply_quarantine_action, create_contract, create_monitor, find_quarantine, item_of, list_incidents, page_limit, parse_mode,
    parse_severity, quarantine_branch, resolve_binding, resolve_quarantine, resolve_table, table_ident, update_contract,
    update_monitor, BindingRequest, BindingStep, BoundTo, IncidentQueryParams, IncidentStatus, MonitorKind, QualityItem,
    QuarantineAction, QuarantineFacts, QuarantineStep, Severity, TableGate,
};
use meridian_routes::shares::{
    accept_terms, add_grant, apply_column_mask, audit_recipient_access, create_share, decide_request, default_privilege,
    generate_token, get_share, get_terms, list_requests, list_shares, marketplace_products, product_of, recipient_config,
    recipient_endpoints, recipient_list_namespaces, recipient_list_tables, recipient_load_table, recipient_principal,
    recipient_synthetic_principal, recipient_table_config, recipient_write_rejected,
    request_access, require_servable, resolve_grants, resolve_share_token, share_json, AcceptStep, AddGrantRequest,
    CreateShareRequest, DecideRequest, GalleryProduct, ListRequestsQuery, ListSharesQuery, ListingFacts, ListingStep,
    ProductMember, RecipientConfigStep, RecipientFacts, RecipientStep, RequestAccessRequest, ShareGrant, ShareRecord, SharedRow,
    TermsStep,
};
use meridian_routes::tables::TableRecord;
use meridian_routes::textmap::TextMap;

fn texts(items: &[&str]) -> Vec<String> {
    items.iter().map(|s| s.to_string()).collect()
}

fn some(s: &str) -> Option<String> {
    Some(s.to_string())
}

fn forbidden() -> Access {
    Access::Forbidden("no".to_string())
}

// Assets ---------------------------------------------------------------------

fn asset_body(kind: &str, prefix: Option<&str>) -> CreateAssetBody {
    CreateAssetBody {
        kind: kind.to_string(),
        name: "images".to_string(),
        description: None,
        owner: None,
        warehouse: some("wh1"),
        storage_prefix: prefix.map(|s| s.to_string()),
        metadata: None,
        tags: Vec::new(),
    }
}

#[test]
fn assets_are_created_in_a_warehouse() {
    let a = Access::Granted;
    assert!(matches!(
        create_asset(&a, &asset_body("fileset", Some("s3://b/images")), &Found::Unasked),
        Ok(CreateAssetStep::AskWarehouse)
    ));
    assert!(matches!(
        create_asset(&a, &asset_body("fileset", Some("s3://b/images")), &Found::Is("01W".to_string())),
        Ok(CreateAssetStep::Create(AssetKind::Fileset, Some(id))) if id == "01W"
    ));
    assert!(parse_kind("planet").is_err());
    assert!(create_asset(&a, &asset_body("planet", None), &Found::Unasked).is_err());
    assert_eq!(metadata_or_empty(&None), "{}");
    assert_eq!(get_asset::<u8>("01A", None).unwrap_err().status(), Some(404));
    let listed = list_assets(&ListAssetsQuery { kind: some("model"), after: None, limit: Some(0) }).unwrap();
    assert_eq!(listed.0, Some(AssetKind::Model));
    assert_eq!(listed.1, 1);
    assert!(search_assets(&SearchAssetsQuery { q: "x".to_string(), kind: some("odd"), limit: None }).is_err());
}

fn vend() -> VendFacts {
    VendFacts {
        asset: Found::Is(AssetRecord {
            id: "01A".to_string(),
            name: "images".to_string(),
            warehouse_id: some("01W"),
            storage_prefix: some("s3://b/images"),
        }),
        write: Some(forbidden()),
        commit: Some(forbidden()),
        drop: Some(forbidden()),
        read: Some(Access::Granted),
        warehouse: Found::Is(()),
        vended: None,
    }
}

#[test]
fn credentials_are_no_wider_than_access() {
    let mut facts = vend();
    match vend_fileset_credentials("01A", &facts) {
        Ok(VendStep::Vend(scope)) => {
            assert_eq!(scope.mode, AccessMode::Read);
            assert_eq!(scope.prefix, "s3://b/images");
            assert_eq!(scope.warehouse_id, "01W");
            assert_eq!((scope.asset_id.as_str(), scope.name.as_str()), ("01A", "images"));
        }
        other => panic!("{other:?}"),
    }
    facts.commit = Some(Access::Granted);
    assert!(matches!(vend_fileset_credentials("01A", &facts), Ok(VendStep::Vend(s)) if s.mode == AccessMode::ReadWrite));
    let mut nothing = vend();
    nothing.read = Some(forbidden());
    assert_eq!(vend_fileset_credentials("01A", &nothing).unwrap_err().kind, ErrorKind::Forbidden);
    nothing.asset = Found::Missing;
    assert_eq!(vend_fileset_credentials("01A", &nothing).unwrap_err().status(), Some(404));
}

fn input(table: &str, snapshot: i64) -> TrainingInputBody {
    TrainingInputBody { table_id: Some(format!("id-{table}")), table_ref: table.to_string(), snapshot_id: snapshot }
}

#[test]
fn provenance_names_every_pin_once() {
    let run = |id: &str, version: &str, inputs: Vec<TrainingInputBody>| TrainingRun {
        id: id.to_string(),
        model_version: version.to_string(),
        created_by: "user:ada".to_string(),
        created_at: "2026-01-01T00:00:00Z".to_string(),
        inputs,
    };
    let runs = vec![
        run("r1", "1", vec![input("b.t", 2), input("a.t", 7)]),
        run("r2", "2", vec![input("a.t", 3), input("a.t", 7)]),
    ];
    let sources = collect_sources(&runs);
    assert_eq!(sources.len(), 2);
    assert_eq!(sources.get("a.t").unwrap().snapshots, vec![7, 3]);
    let tags = TextMap::new().with("a.t", texts(&["pii:email", "pii:email"])).with("b.t", texts(&["license:mit"]));
    let provenance = draw_up("m", Some("1"), runs, &sources, &tags);
    assert_eq!(provenance.model, "m");
    assert_eq!(provenance.version, some("1"));
    let chain: Vec<(&str, &str)> =
        provenance.runs.iter().map(|r| (r.id.as_str(), r.model_version.as_str())).collect();
    assert_eq!(chain, [("r1", "1"), ("r2", "2")]);
    assert_eq!(provenance.runs[0].inputs[1].table_ref, "a.t");
    assert_eq!(provenance.runs[0].inputs[1].snapshot_id, 7);
    assert_eq!(provenance.dataset_cards[0].tags, texts(&["pii:email"]));
    assert_eq!(provenance.propagated_tags, texts(&["license:mit", "pii:email"]));
    assert_eq!(provenance.rights_tags, texts(&["license:mit"]));
    assert_eq!(provenance.dataset_cards.len(), 2);
    assert_eq!(provenance.dataset_cards[0].source, "a.t");
    assert_eq!(provenance.dataset_cards[0].pinned_snapshots, vec![7, 3]);
    assert_eq!(
        build_provenance("m", Some("1"), &Vec::new()).unwrap_err().message,
        "no training runs recorded for model \"m\" version \"1\""
    );
    let refused = model_provenance(&forbidden(), "m", None, &Vec::new());
    assert_eq!(refused.unwrap_err().kind, ErrorKind::Forbidden);
    assert_eq!(model_provenance(&Access::Granted, "m", None, &provenance.runs).unwrap().len(), 2);
    assert_eq!(
        model_provenance(&Access::Granted, "m", None, &Vec::new()).unwrap_err().message,
        "no training runs recorded for model \"m\""
    );
    assert!(create_training_run(&Access::Granted, &Vec::new()).is_err());
    assert!(create_training_run(&Access::Granted, &vec![input("a.t", 1)]).is_ok());
}

#[test]
fn campaigns_have_snapshots() {
    let one = CampaignSnapshotBody { table_id: None, table_ref: "a.t".to_string(), snapshot_id: 1, branch: None };
    assert!(add_campaign_snapshots(&Access::Granted, &AddSnapshotsBody { snapshots: vec![one] }).is_ok());
    assert!(add_campaign_snapshots(&Access::Granted, &AddSnapshotsBody { snapshots: Vec::new() }).is_err());
    let page = ListAssetsQuery { kind: None, after: None, limit: None };
    assert!(list_campaigns(&Access::Granted, &page).is_ok());
    assert!(list_campaigns(&forbidden(), &page).is_err());
    assert_eq!(get_training_run::<u8>("r1", None).unwrap_err().status(), Some(404));
    assert_eq!(campaign_of::<u8>(&Access::Granted, "c1", None).unwrap_err().message, "no deletion campaign c1");
}

// Quality --------------------------------------------------------------------

fn table() -> TableRecord {
    TableRecord {
        id: "01T".to_string(),
        name: "t".to_string(),
        table_uuid: "u".to_string(),
        mirror_id: None,
        metadata_location: some("s3://b/m/1.json"),
        pointer_version: 1,
    }
}

#[test]
fn quality_routes_resolve_their_table() {
    let a = Access::Granted;
    let found = Found::Is(table());
    assert!(matches!(resolve_table(&a, "wh1", "a", "t", &Found::Is(()), &found), Ok(TableGate::Open(_))));
    assert_eq!(
        resolve_table(&a, "wh1", "a", "t", &Found::Is(()), &Found::Missing).unwrap_err().message,
        "table wh1/a/t does not exist"
    );
    assert_eq!(table_ident("wh1", "a", "t"), "wh1.a.t");
    let levels = texts(&["a", "b"]);
    let dotted = resolve_table(&a, "wh1", "a.b", "t", &Found::Is(()), &Found::Unasked);
    assert!(matches!(dotted, Ok(TableGate::AskTable(l)) if l == levels));
    assert!(resolve_table(&a, "wh1", "a..b", "t", &Found::Is(()), &Found::Unasked).is_err());
}

#[test]
fn modes_kinds_and_severities_are_named() {
    assert_eq!(
        parse_mode(Some("loud")).unwrap_err().message,
        "invalid contract mode \"loud\": expected warn, quarantine, or block"
    );
    assert_eq!(quarantine_branch(&None), "meridian_quarantine");
    assert_eq!(create_contract(&Access::Granted, None).unwrap(), parse_mode(None).unwrap());
    assert!(create_contract(&forbidden(), None).is_err());
    assert_eq!(update_contract(&Access::Granted, None).unwrap(), None);
    assert_eq!(update_contract(&Access::Granted, Some("block")).unwrap(), Some(EnforcementMode::Block));
    assert_eq!(parse_severity(None).unwrap(), Severity::Medium);
    assert_eq!(update_monitor(&Access::Granted, Some("high")).unwrap(), Some(Severity::High));
    assert!(update_monitor(&Access::Granted, Some("dire")).is_err());
    assert_eq!(
        create_monitor(&Access::Granted, "freshness", None).unwrap(),
        (MonitorKind::Freshness, Severity::Medium)
    );
    assert!(create_monitor(&Access::Granted, "mood", None).is_err());
    assert_eq!(item_of::<u8>(&Access::Granted, QualityItem::Monitor, "01M", None).unwrap_err().status(), Some(404));
    assert_eq!(page_limit(&Access::Granted, Some(5000)).unwrap(), 1000);
    let params = IncidentQueryParams { table_id: None, status: some("open"), live: false, limit: None };
    assert_eq!(list_incidents(&Access::Granted, &params).unwrap().0, Some(IncidentStatus::Open));
}

#[test]
fn contracts_bind_to_tables_and_namespaces() {
    let mut req = BindingRequest {
        warehouse: "wh1".to_string(),
        bound_to: "table".to_string(),
        namespace: "a".to_string(),
        table: some("t"),
    };
    let row = Found::Is("01T".to_string());
    assert!(matches!(
        resolve_binding(&req, &Found::Is(()), &row),
        Ok(BindingStep::Bind(BoundTo::Table, id)) if id == "01T"
    ));
    req.namespace = "a.b".to_string();
    let levels = texts(&["a", "b"]);
    assert!(matches!(
        resolve_binding(&req, &Found::Is(()), &Found::Unasked),
        Ok(BindingStep::AskTable(l)) if l == levels
    ));
    req.table = None;
    assert!(resolve_binding(&req, &Found::Is(()), &row).is_err());
    req.bound_to = "namespace".to_string();
    assert!(matches!(
        resolve_binding(&req, &Found::Is(()), &Found::Unasked),
        Ok(BindingStep::AskNamespace(l)) if l == levels
    ));
    req.bound_to = "planet".to_string();
    assert!(resolve_binding(&req, &Found::Is(()), &row).is_err());
}

fn reference(id: i64) -> SnapshotRef {
    SnapshotRef {
        snapshot_id: id,
        ref_type: RefType::Branch,
        min_snapshots_to_keep: None,
        max_snapshot_age_ms: None,
        max_ref_age_ms: None,
    }
}

fn snapshot(id: i64, rows: &str) -> Snapshot {
    Snapshot {
        snapshot_id: id,
        parent_snapshot_id: None,
        sequence_number: None,
        timestamp_ms: id,
        manifest_list: None,
        schema_id: None,
        summary: Some(TextMap::new().with("total-records", rows.to_string())),
    }
}

fn field(id: i32, name: &str, kind: &str) -> SchemaField {
    SchemaField { id, name: name.to_string(), field_type: kind.to_string() }
}

fn metadata(current: i64, rows: &str) -> TableMetadata {
    TableMetadata {
        table_uuid: "u".to_string(),
        location: "s3://b/t".to_string(),
        format_version: 2,
        current_snapshot_id: Some(current),
        snapshots: Some(vec![snapshot(1, "5"), snapshot(current, rows), snapshot(9, "6")]),
        refs: Some(TextMap::new().with("main", reference(current)).with("q", reference(9))),
        properties: None,
        current_schema_id: 0,
        schemas: vec![Schema { schema_id: Some(0), fields: vec![field(1, "id", "int")] }],
    }
}

#[test]
fn quarantined_snapshots_are_published_or_discarded() {
    let mut m = metadata(2, "5");
    assert_eq!(find_quarantine(&m, "t", 9).unwrap(), "q");
    assert!(find_quarantine(&m, "t", 2).is_err());
    apply_quarantine_action(&mut m, 9, "q", QuarantineAction::Publish);
    assert_eq!(m.current_snapshot_id, Some(9));
    let mut m = metadata(2, "5");
    apply_quarantine_action(&mut m, 9, "q", QuarantineAction::Discard);
    assert_eq!(m.current_snapshot_id, Some(2));
    assert!(!m.refs.as_ref().unwrap().has("q"));
}

#[test]
fn lost_quarantine_resolutions_leave_no_file() {
    let mut facts = QuarantineFacts {
        pointer: Some(Ok(4)),
        metadata: Some(Ok(metadata(2, "5"))),
        staged: Some(Ok(())),
        committed: Some(Err("moved".to_string())),
        discarded: false,
    };
    assert!(matches!(resolve_quarantine("t", 9, &facts), Ok(QuarantineStep::DiscardStaged)));
    facts.discarded = true;
    assert!(resolve_quarantine("t", 9, &facts).is_err());
    facts.committed = None;
    assert!(matches!(resolve_quarantine("t", 9, &facts), Ok(QuarantineStep::Swap { expected: 4 })));
}

// Governance -----------------------------------------------------------------

#[test]
fn tags_are_put_on_tables_namespaces_and_columns() {
    let mut target = AssignmentTarget {
        securable_type: "column".to_string(),
        warehouse: "wh1".to_string(),
        namespace: "a".to_string(),
        table: some("t"),
        column: some("email"),
    };
    assert!(matches!(
        resolve_assignment_target(&target, &Found::Is(()), &Found::Is("01T".to_string())),
        Ok(TargetStep::Put(TagSecurable::Column, id, Some(c))) if id == "01T" && c == "email"
    ));
    target.namespace = "a.b".to_string();
    let levels = texts(&["a", "b"]);
    assert!(matches!(
        resolve_assignment_target(&target, &Found::Is(()), &Found::Unasked),
        Ok(TargetStep::AskTable(l)) if l == levels
    ));
    target.securable_type = "namespace".to_string();
    assert!(matches!(
        resolve_assignment_target(&target, &Found::Is(()), &Found::Unasked),
        Ok(TargetStep::AskNamespace(l)) if l == levels
    ));
    assert_eq!(assignment_source(&None).unwrap(), AssignmentSource::Manual);
    assert!(assignment_source(&some("guess")).is_err());
    assert!(assignment_in_force(None, AssignmentSource::Manual));
    assert!(!assignment_in_force(None, AssignmentSource::Classifier));
    assert!(assignment_in_force(Some(true), AssignmentSource::Classifier));
    assert_eq!(rendered_tag("pii", "email"), "pii:email");
}

#[test]
fn reports_are_for_managers() {
    assert_eq!(list_branches(&forbidden(), Vec::new()).unwrap_err().kind, ErrorKind::Forbidden);
    assert_eq!(marketplace_products(&forbidden(), Vec::new()).unwrap_err().kind, ErrorKind::Forbidden);
    assert_eq!(get_policy(&forbidden(), "p", Some(1)).unwrap_err().kind, ErrorKind::Forbidden);
    assert_eq!(get_share(&forbidden(), "ws", &None).unwrap_err().kind, ErrorKind::Forbidden);
    assert_eq!(item_of(&forbidden(), QualityItem::Contract, "c", Some(1)).unwrap_err().kind, ErrorKind::Forbidden);
    assert_eq!(campaign_of(&forbidden(), "c", Some(1)).unwrap_err().kind, ErrorKind::Forbidden);
    let refused = classification_coverage(&forbidden(), Vec::new(), &TextMap::new());
    assert_eq!(refused.unwrap_err().kind, ErrorKind::Forbidden);
    assert_eq!(drift(&forbidden(), Vec::new(), &Vec::new(), &Vec::new()).unwrap_err().kind, ErrorKind::Forbidden);
}

#[test]
fn coverage_counts_tagged_tables() {
    let row = |id: &str| CoverageRow { table_id: id.to_string(), levels: texts(&["a", "b"]), name: "t".to_string() };
    let counts = TextMap::new()
        .with("1", TableCoverage { table_tagged: false, tagged_columns: 2 })
        .with("2", TableCoverage { table_tagged: false, tagged_columns: 0 });
    let report = classification_coverage(&Access::Granted, vec![row("1"), row("2"), row("3")], &counts).unwrap();
    assert_eq!(report.total_tables, 3);
    assert_eq!(report.tables_with_any_tag, 1);
    assert_eq!(report.tables[0].namespace, "a.b");
    let scope = |ns: Option<&str>| CoverageQuery { warehouse: "wh1".to_string(), namespace: ns.map(str::to_string) };
    assert_eq!(coverage_scope(&scope(Some("a.b"))).unwrap(), texts(&["a", "b"]));
    assert!(coverage_scope(&scope(None)).unwrap().is_empty());
    assert!(coverage_scope(&scope(Some(""))).is_err());
}

#[test]
fn rules_fit_the_kind_of_their_policy() {
    assert!(cross_check_kind(PolicyKind::RowFilter, RuleShape::TagRowFilter).is_ok());
    assert!(cross_check_kind(PolicyKind::RowFilter, RuleShape::OwnerAllow).is_err());
    assert!(cross_check_kind(PolicyKind::Abac, RuleShape::GroupDeny).is_ok());
    assert_eq!(
        create_policy(&Access::Granted, "abac", &Ok(RuleShape::OwnerAllow), &Ok(())).unwrap(),
        PolicyKind::Abac
    );
    assert!(create_policy(&Access::Granted, "abac", &Err("not json".to_string()), &Ok(())).is_err());
    let mut facts =
        PolicyUpdateFacts { definition: Some((Ok(RuleShape::TagRowFilter), Ok(()))), kind: Found::Is(PolicyKind::Abac) };
    assert!(update_policy(&Access::Granted, "p", &facts).is_err());
    facts.kind = Found::Is(PolicyKind::RowFilter);
    assert!(matches!(update_policy(&Access::Granted, "p", &facts), Ok(PolicyUpdateStep::Update)));
    facts.kind = Found::Missing;
    assert_eq!(update_policy(&Access::Granted, "p", &facts).unwrap_err().message, "policy \"p\" does not exist");
}

#[test]
fn policies_bind_to_tags() {
    let mut req = BindRequest {
        target_type: "tag".to_string(),
        tag_id: some("01G"),
        warehouse: None,
        namespace: None,
        table: None,
    };
    assert!(matches!(
        resolve_binding_target(&req, &Found::Unasked, &Found::Unasked),
        Ok(BindStep::Tag(id)) if id == "01G"
    ));
    req.tag_id = None;
    assert_eq!(
        resolve_binding_target(&req, &Found::Unasked, &Found::Unasked).unwrap_err().message,
        "tag_id is required for a tag binding"
    );
    req.target_type = "table".to_string();
    req.warehouse = some("wh1");
    req.namespace = some("a.b");
    req.table = some("t");
    let levels = texts(&["a", "b"]);
    assert!(matches!(
        resolve_binding_target(&req, &Found::Is(()), &Found::Unasked),
        Ok(BindStep::AskTable(l)) if l == levels
    ));
}

#[test]
fn subjects_are_read_off_audit_strings() {
    assert!(matches!(principal_for_subject("agent:bot"), Ok((PrincipalKind::Agent, s)) if s == "bot"));
    assert!(principal_for_subject("bot").is_err());
    let mut facts = ReachFacts { issuer: None, principal: Found::Unasked, permissions: None, policies: None };
    assert!(matches!(who_can_see(&Access::Granted, "user:ada", &facts), Ok(ReachStep::Nothing)));
    facts.issuer = some("https://idp");
    assert!(matches!(who_can_see(&Access::Granted, "user:ada", &facts), Ok(ReachStep::AskPrincipal)));
    facts.principal = Found::Is("01P".to_string());
    assert!(matches!(who_can_see(&Access::Granted, "user:ada", &facts), Ok(ReachStep::AskPermissions(id)) if id == "01P"));
    let held = |privilege: &str, kind: &str, id: &str| EffectivePermission {
        privilege: privilege.to_string(),
        securable_type: kind.to_string(),
        securable_id: id.to_string(),
        via_role: None,
    };
    facts.permissions =
        Some(vec![held("READ", "table", "01T"), held("WRITE", "table", "01U"), held("READ", "namespace", "01N"), held("READ", "table", "01V")]);
    let tables = texts(&["01T", "01V"]);
    assert!(matches!(who_can_see(&Access::Granted, "user:ada", &facts), Ok(ReachStep::AskPolicies(t)) if t == tables));
    facts.policies = Some(TextMap::new().with("01T", 2));
    let counts = vec![Some(2), None, None, Some(0)];
    assert!(matches!(who_can_see(&Access::Granted, "user:ada", &facts), Ok(ReachStep::Answer(c)) if c == counts));
}

#[test]
fn dry_runs_see_the_tags_of_a_table() {
    let schema = Schema { schema_id: Some(0), fields: vec![field(1, "id", "int"), field(2, "email", "string")] };
    let tags = assumed_tags(
        vec![ResolvedTag { tag: "gold".to_string(), column_name: None }],
        &some("pii:email"),
        &some("email"),
    );
    let ada = DrySubject { kind: PrincipalKind::Agent, subject: "ada".to_string(), issuer: some("https://idp") };
    let purpose = some("audit");
    let step = |known: &Found<String>, roles: &Option<Vec<String>>| {
        dry_run_one(&ada, known, roles, "01T", &schema, &tags, &purpose)
    };
    assert!(matches!(step(&Found::Unasked, &None), DryStep::AskPrincipal));
    let known = Found::Is("01P".to_string());
    assert!(matches!(step(&known, &None), DryStep::AskRoles(id) if id == "01P"));
    let seen = match step(&known, &Some(texts(&["analyst"]))) {
        DryStep::Evaluate(input) => input,
        other => panic!("{other:?}"),
    };
    assert_eq!(seen.principal.name, "agent:ada");
    assert_eq!(seen.principal.kind, PrincipalKind::Agent);
    assert_eq!(seen.principal.roles, texts(&["analyst"]));
    assert_eq!(seen.principal.groups, texts(&["analyst"]));
    assert_eq!(seen.principal.purpose, some("audit"));
    assert_eq!(seen.purpose, some("audit"));
    assert_eq!(seen.table_id, "01T");
    assert_eq!(seen.table_tags, texts(&["gold"]));
    match step(&Found::Missing, &None) {
        DryStep::Evaluate(input) => assert!(input.principal.roles.is_empty()),
        other => panic!("{other:?}"),
    }
    let unvouched = DrySubject { kind: PrincipalKind::Service, subject: "etl".to_string(), issuer: None };
    match dry_run_one(&unvouched, &known, &Some(texts(&["analyst"])), "01T", &schema, &tags, &None) {
        DryStep::Evaluate(input) => {
            assert_eq!(input.principal.name, "service:etl");
            assert!(input.principal.roles.is_empty());
            assert_eq!(input.principal.purpose, None);
        }
        other => panic!("{other:?}"),
    }
    assert_eq!(seen.columns[1].tags, texts(&["pii:email"]));
    assert!(seen.columns[0].tags.is_empty());
    assert_eq!(
        dry_run_policy(&Access::Granted, "row_filter", &Ok(RuleShape::TagRowFilter), &Ok(())).unwrap(),
        PolicyKind::RowFilter
    );
    assert!(dry_run_policy(&Access::Granted, "magic", &Ok(RuleShape::TagRowFilter), &Ok(())).is_err());
    assert!(get_policy::<u8>(&Access::Granted, "p", None).is_err());
    assert!(matches!(load_table_schema(&some("x"), &None), Ok(SchemaStep::ReadMetadata(at)) if at == "x"));
    assert!(load_table_schema(&None, &None).is_err());
}

#[test]
fn drift_is_a_tagged_column_without_a_mask() {
    let column = |table: &str, value: &str| TaggedColumn {
        table_id: table.to_string(),
        column_name: "c".to_string(),
        key: "pii".to_string(),
        value: value.to_string(),
    };
    let columns = || vec![column("1", "email"), column("2", "phone"), column("3", "phone")];
    let alerts = drift(&Access::Granted, columns(), &texts(&["pii:email"]), &texts(&["3"])).unwrap();
    assert_eq!(alerts.len(), 1);
    assert_eq!(alerts[0].table_id, "2");
    assert_eq!(alerts[0].tag, "pii:phone");
    assert_eq!(evidence(&Access::Granted, &EvidenceQuery { limit: None }).unwrap(), 500);
}

// Branches -------------------------------------------------------------------

fn branch(kind: &str, state: &str) -> BranchRecord {
    BranchRecord {
        id: "01B".to_string(),
        name: "dev".to_string(),
        kind: kind.to_string(),
        base_ref: "main".to_string(),
        state: state.to_string(),
        scope_all: true,
        expires_at: None,
        created_by: "user:ada".to_string(),
        created_at: "c".to_string(),
    }
}

#[test]
fn branch_names_are_checked() {
    assert!(validate_name("dev-1").is_ok());
    assert!(validate_name("main").is_err());
    assert!(validate_name("a@b").is_err());
    assert!(validate_name("").is_err());
    assert!(validate_name(&"é".repeat(100)).is_ok());
    assert!(validate_name(&"é".repeat(101)).is_err());
    assert!(validate_base_ref("main", &None).is_ok());
    assert!(validate_base_ref("gone", &None).is_err());
    assert!(load_branch("dev", &Some(branch("branch", "open"))).is_ok());
    assert!(load_branch("dev", &None).is_err());
}

#[test]
fn branches_and_tags_are_created() {
    let request = CreateBranchRequest {
        name: "dev".to_string(),
        base_ref: "main".to_string(),
        warehouse: None,
        namespaces: Vec::new(),
        expires_in_s: None,
    };
    assert!(create_branch(&Access::Granted, &request, &None).unwrap().scope_all);
    let tag = CreateTagRequest { name: "v1".to_string(), from_ref: "main".to_string() };
    assert_eq!(create_tag(&Access::Granted, &tag, &None).unwrap().freeze, None);
    let tag = CreateTagRequest { name: "v1".to_string(), from_ref: "dev".to_string() };
    let source = Some(branch("branch", "open"));
    let id = source.as_ref().map(|b| b.id.clone());
    assert_eq!(create_tag(&Access::Granted, &tag, &source).unwrap().freeze, id);
    assert!(create_tag(&Access::Granted, &tag, &None).is_err());
    assert_eq!(
        require_warehouse(None).unwrap_err().message,
        "`warehouse` is required when `namespaces` are given"
    );
    assert_eq!(decode_dotted("a.b"), texts(&["a", "b"]));
    let (branches, tags) = list_branches(&Access::Granted, vec![branch("branch", "open"), branch("tag", "open")]).unwrap();
    assert_eq!(branches.len(), 1);
    assert_eq!(tags.len(), 1);
    assert_eq!(BranchResponse::from_record(branch("branch", "open"), 3).diverged_tables, 3);
}

fn diverged(main: i64, base: i64) -> DivergedPointer {
    DivergedPointer {
        table_id: "01T".to_string(),
        namespace_levels: texts(&["a"]),
        table_name: "t".to_string(),
        branch_metadata_location: "s3://b/m/2.json".to_string(),
        main_metadata_location: some("s3://b/m/1.json"),
        main_pointer_version: main,
        base_pointer_version: base,
    }
}

#[test]
fn diffs_show_columns_and_rows() {
    let base = Schema { schema_id: Some(0), fields: vec![field(1, "id", "int"), field(2, "old", "int")] };
    let next = Schema { schema_id: Some(1), fields: vec![field(1, "id", "long"), field(3, "new", "int")] };
    let delta = schema_delta(&base, &next);
    assert_eq!(delta.added, texts(&["new"]));
    assert_eq!(delta.dropped, texts(&["old"]));
    assert_eq!(delta.changed, texts(&["id"]));
    let back = schema_delta(&next, &base);
    assert_eq!(back.added, delta.dropped);
    assert_eq!(back.dropped, delta.added);
    assert_eq!(back.changed, delta.changed);
    assert!(schema_delta(&base, &base).added.is_empty());
    let diff = table_diff(&diverged(1, 1), &Some(metadata(2, "5")), &metadata(3, "12"));
    assert_eq!(diff.table, "a.t");
    assert_eq!(diff.row_delta, Some(7));
    let tag = Some(branch("tag", "open"));
    let open = Some(branch("branch", "open"));
    assert_eq!(diff_branch(&Access::Granted, "dev", &tag).unwrap_err().message, "diff applies to branches, not tags");
    assert!(branch_gate(&Access::Granted, "dev", &open).is_ok());
    assert_eq!(branch_gate(&Access::Granted, "dev", &tag).unwrap_err().message, "gate applies to branches, not tags");
    assert_eq!(get_branch(&Access::Granted, "dev", &tag).unwrap().kind, "tag");
    assert_eq!(
        get_branch(&Access::Granted, "dev", &Some(branch("branch", "deleted"))).unwrap_err().message,
        "branch or tag \"dev\" does not exist"
    );
    let refused = Access::Forbidden("no".to_string());
    assert_eq!(get_branch(&refused, "dev", &None).unwrap_err().kind, ErrorKind::Forbidden);
    let (fresh, base) = (metadata(3, "12"), metadata(2, "5"));
    assert_eq!(gate_schemas(&None, &fresh).unwrap().0.schema_id, Some(0));
    assert!(gate_schemas(&Some(base), &TableMetadata { current_schema_id: 7, ..fresh }).is_none());
    assert_eq!(default_base(), "main");
    assert_eq!(scope_namespace::<u8>("a.b", None).unwrap_err().message, "namespace \"a.b\"");
    assert_eq!(head_snapshot_of(&Some(metadata(2, "5"))), Some(2));
    assert_eq!(head_snapshot_of(&None), None);
}

fn gate_table(mode: EnforcementMode) -> GateTable {
    GateTable {
        table: "a.t".to_string(),
        judged: true,
        contracts: vec![EvaluatedContract {
            id: "01C".to_string(),
            name: "core".to_string(),
            mode,
            quarantine_branch: "q".to_string(),
            violations: vec![Violation { kind: "k".to_string(), detail: "d".to_string() }],
        }],
    }
}

#[test]
fn merges_are_clean_or_refused() {
    let a = Access::Granted;
    let open = Some(branch("branch", "open"));
    let (blocking, warnings) = evaluate_gate(&vec![gate_table(EnforcementMode::Warn)]);
    assert!(blocking.is_empty());
    assert_eq!(warnings.len(), 1);
    let facts = |main: i64, blocking| MergeFacts { diverged: Some(vec![diverged(main, 1)]), blocking };
    let nothing = MergeFacts { diverged: Some(Vec::new()), blocking: None };
    let unknown = MergeFacts { diverged: None, blocking: None };
    assert!(matches!(merge_branch(&a, "dev", &open, &unknown), Ok(MergeAsk::AskDiverged)));
    assert_eq!(
        merge_branch(&a, "dev", &open, &nothing).unwrap_err().message,
        "branch has no diverged tables to merge"
    );
    assert!(matches!(merge_branch(&a, "dev", &open, &facts(1, None)), Ok(MergeAsk::AskGate)));
    assert!(matches!(merge_branch(&a, "dev", &open, &facts(1, Some(blocking))), Ok(MergeAsk::Merge)));
    assert_eq!(
        merge_branch(&a, "dev", &open, &facts(2, Some(Vec::new()))).unwrap_err().message,
        "merge conflict: 1 table(s) changed on both main and the branch since divergence: a.t"
    );
    let (blocking, _) = evaluate_gate(&vec![gate_table(EnforcementMode::Block)]);
    assert_eq!(
        merge_branch(&a, "dev", &open, &facts(1, Some(blocking))).unwrap_err().message,
        "merge gate failed: 1 contract violation(s) block the merge; fix the branch and retry — first: core on a.t"
    );
    let tag = Some(branch("tag", "open"));
    assert_eq!(merge_branch(&a, "dev", &tag, &unknown).unwrap_err().message, "cannot merge a tag");
}

#[test]
fn merges_move_every_pointer_and_say_what_raced() {
    let all = vec![diverged(1, 1), diverged(4, 4)];
    let run = MergeRun::start();
    assert!(matches!(run.next(&all), MergeStep::Forward { table: 0, expected: 1 }));
    let run = run.took(&all, ForwardOutcome::Moved).unwrap();
    assert!(matches!(run.next(&all), MergeStep::Forward { table: 1, expected: 4 }));
    let run = run.took(&all, ForwardOutcome::Raced).unwrap();
    assert!(matches!(run.next(&all), MergeStep::Refuse(_)));
    let failed = MergeRun::start().took(&all, ForwardOutcome::Failed(CommitBackendError::Unavailable));
    assert_eq!(failed.unwrap_err().status(), Some(503));
}

#[test]
fn finished_merges_name_every_table_in_order() {
    let mut second = diverged(4, 4);
    second.table_name = "s".to_string();
    let all = vec![diverged(1, 1), second];
    let run = MergeRun::start().took(&all, ForwardOutcome::Moved).unwrap();
    let run = run.took(&all, ForwardOutcome::Moved).unwrap();
    assert!(matches!(run.next(&all), MergeStep::Finish(moved) if moved == texts(&["a.t", "a.s"])));
}

// Shares ---------------------------------------------------------------------

fn share(revoked: bool, terms: bool, accepted: bool) -> ShareRecord {
    ShareRecord {
        id: "01S".to_string(),
        workspace_id: "ws".to_string(),
        name: "partners".to_string(),
        recipient: "acme".to_string(),
        token: "swordfish".to_string(),
        created_by: "user:ada".to_string(),
        revoked,
        revoked_at: None,
        terms: if terms { some("be nice") } else { None },
        terms_accepted_at: if accepted { some("t") } else { None },
        created_at: "c".to_string(),
    }
}

#[test]
fn tokens_are_shown_once() {
    assert_eq!(share_json(&share(false, false, false), true).token, some("swordfish"));
    assert_eq!(share_json(&share(false, false, false), false).token, None);
    let a = generate_token();
    let b = generate_token();
    assert_ne!(a, b);
    assert!(a.len() >= 32);
}

#[test]
fn shares_are_checked() {
    let body = |name: &str| CreateShareRequest { name: name.to_string(), recipient: "acme".to_string(), terms: None };
    let made = create_share(&Access::Granted, &body("partners")).unwrap();
    assert_eq!(made.name, "partners");
    assert!(!made.token.is_empty());
    assert!(create_share(&Access::Granted, &body(" ")).is_err());
    assert!(create_share(&forbidden(), &body("partners")).is_err());
    assert!(list_shares(&Access::Granted, &ListSharesQuery { after: None, limit: Some(3) }).is_ok());
    assert!(get_share(&Access::Granted, "ws", &Some(share(false, false, false))).is_ok());
    assert!(get_share(&Access::Granted, "other", &Some(share(false, false, false))).is_err());
}

#[test]
fn revoked_shares_and_open_terms_serve_nothing() {
    assert!(resolve_share_token(&None).is_err());
    assert!(resolve_share_token(&Some(share(true, false, false))).is_err());
    assert!(require_servable(&share(false, true, false)).is_err());
    assert!(require_servable(&share(false, true, true)).is_ok());
    assert!(recipient_config(&Found::Is(share(true, false, false)), true).is_err());
    assert_eq!(recipient_config(&Found::Missing, true).unwrap_err().status(), Some(401));
    assert_eq!(recipient_principal(&share(false, false, false)), "recipient:acme");
    assert_eq!(recipient_synthetic_principal(&share(false, false, false)), "share-recipient:acme");
    assert!(recipient_endpoints().iter().all(|e| e.starts_with("GET ") || e.starts_with("HEAD ")));
    assert_eq!(recipient_write_rejected().status(), Some(403));
}

fn grants() -> (ShareGrant, ShareGrant) {
    let direct = ShareGrant {
        securable_kind: "table".to_string(),
        securable_ref: "table:01T".to_string(),
        row_filter: None,
        column_mask: None,
        members: Vec::new(),
    };
    let product = ShareGrant {
        securable_kind: "data_product".to_string(),
        securable_ref: "data_product:01P".to_string(),
        row_filter: None,
        column_mask: None,
        members: vec![
            ProductMember { member_kind: "table".to_string(), member_ref: "table:01T".to_string() },
            ProductMember { member_kind: "table".to_string(), member_ref: "table:01U".to_string() },
            ProductMember { member_kind: "view".to_string(), member_ref: "table:01V".to_string() },
        ],
    };
    (product, direct)
}

#[test]
fn grants_name_tables_and_products() {
    let body = |kind: &str, mask: Option<&[&str]>| AddGrantRequest {
        securable_kind: kind.to_string(),
        securable_ref: "01T".to_string(),
        row_filter: None,
        column_mask: mask.map(texts),
    };
    assert!(add_grant(&Access::Granted, &body("table", None)).is_ok());
    assert!(add_grant(&Access::Granted, &body("planet", None)).is_err());
    let (product, direct) = grants();
    assert_eq!(product_of(&product), Some("01P"));
    assert_eq!(product_of(&direct), None);
    let granted = resolve_grants(&vec![product, direct]);
    assert_eq!(granted.get("01T"), Some(&1));
    assert_eq!(granted.get("01U"), Some(&0));
    assert_eq!(granted.get("01V"), None);
    let (product, direct) = grants();
    let turned = resolve_grants(&vec![direct, product]);
    assert_eq!(turned.get("01T"), Some(&0));
    assert_eq!(turned.get("01U"), Some(&1));
    assert_eq!(turned.get("01V"), None);
}

fn shared_row(level: &str, name: &str) -> SharedRow {
    SharedRow {
        table_id: format!("id-{name}"),
        levels: texts(&[level]),
        name: name.to_string(),
        metadata_location: some("s3://b/m/1.json"),
    }
}

#[test]
fn recipients_see_what_is_shared() {
    let grant = |id: &str| ShareGrant {
        securable_kind: "table".to_string(),
        securable_ref: format!("table:{id}"),
        row_filter: None,
        column_mask: None,
        members: Vec::new(),
    };
    let grants = vec![grant("id-s"), grant("id-t"), grant("id-u")];
    let rows =
        vec![shared_row("b", "u"), shared_row("a", "t"), shared_row("a", "s"), shared_row("a", "x"), shared_row("c", "y")];
    let mut facts = RecipientFacts {
        share: Found::Is(share(false, false, false)),
        grants: None,
        rows: None,
        warehouse: Found::Is(()),
        storage: Ok(()),
        metadata: Some(Ok(())),
        vended: false,
        recorded: false,
    };
    assert!(matches!(recipient_load_table("a", "t", &facts), Ok(RecipientStep::AskGrants)));
    facts.grants = Some(grants);
    assert!(matches!(recipient_load_table("a", "t", &facts), Ok(RecipientStep::AskRows)));
    facts.rows = Some(rows);
    assert!(matches!(recipient_load_table("a", "t", &facts), Ok(RecipientStep::Vend(1, 1, AccessMode::Read))));
    facts.vended = true;
    assert!(matches!(recipient_load_table("a", "t", &facts), Ok(RecipientStep::Record(1, 1))));
    facts.recorded = true;
    assert!(matches!(recipient_load_table("a", "t", &facts), Ok(RecipientStep::Serve(1, 1))));
    assert_eq!(recipient_load_table("a", "u", &facts).unwrap_err().kind, ErrorKind::NoSuchTable);
    assert_eq!(recipient_load_table("a", "x", &facts).unwrap_err().kind, ErrorKind::NoSuchTable);
    facts.storage = Err(ApiError::bad_request("no bucket"));
    facts.metadata = None;
    assert!(recipient_load_table("a", "t", &facts).is_err());
    facts.share = Found::Is(share(true, false, false));
    assert!(recipient_load_table("a", "t", &facts).is_err());
}

#[test]
fn recipients_list_only_what_is_shared_and_recorded() {
    let grant = |id: &str| ShareGrant {
        securable_kind: "table".to_string(),
        securable_ref: format!("table:{id}"),
        row_filter: None,
        column_mask: None,
        members: Vec::new(),
    };
    let mut facts = ListingFacts { share: Found::Unasked, grants: None, rows: None, recorded: false };
    assert!(matches!(recipient_list_namespaces(&facts), Ok(ListingStep::AskShare)));
    facts.share = Found::Missing;
    assert_eq!(recipient_list_namespaces(&facts).unwrap_err().status(), Some(401));
    facts.share = Found::Is(share(false, true, false));
    assert_eq!(recipient_list_tables("a", &facts).unwrap_err().status(), Some(403));
    facts.share = Found::Is(share(false, false, false));
    assert_eq!(recipient_list_tables("", &facts).unwrap_err().status(), Some(400));
    assert!(matches!(recipient_list_tables("a", &facts), Ok(ListingStep::AskGrants)));
    facts.grants = Some(vec![grant("id-s"), grant("id-t"), grant("id-u")]);
    assert!(matches!(recipient_list_namespaces(&facts), Ok(ListingStep::AskRows)));
    facts.rows =
        Some(vec![shared_row("b", "u"), shared_row("a", "t"), shared_row("a", "s"), shared_row("a", "x"), shared_row("c", "y")]);
    assert!(matches!(recipient_list_tables("a", &facts), Ok(ListingStep::Record(list)) if list == texts(&["t", "s"])));
    facts.recorded = true;
    let namespaces = vec![texts(&["a"]), texts(&["b"])];
    assert!(matches!(recipient_list_namespaces(&facts), Ok(ListingStep::Answer(list)) if list == namespaces));
    assert!(matches!(recipient_list_tables("b", &facts), Ok(ListingStep::Answer(list)) if list == texts(&["u"])));
}

#[test]
fn recipients_are_configured_once_recorded() {
    assert!(matches!(recipient_config(&Found::Unasked, false), Ok(RecipientConfigStep::AskShare)));
    let waiting = Found::Is(share(false, true, false));
    assert!(matches!(recipient_config(&waiting, false), Ok(RecipientConfigStep::Record)));
    match recipient_config(&waiting, true) {
        Ok(RecipientConfigStep::Answer(map)) => {
            assert_eq!(map.get("prefix"), Some(&String::new()));
            assert_eq!(map.get("terms-required"), Some(&"true".to_string()));
        }
        other => panic!("{other:?}"),
    }
    let record = audit_recipient_access(&share(false, false, false), "load_table");
    assert_eq!(record.action, "share.recipient.load_table");
    assert_eq!(record.principal, "recipient:acme");
    assert!(record.resource.starts_with("share:"));
}

#[test]
fn terms_are_read_and_accepted_once_recorded() {
    assert!(matches!(get_terms(&Found::Unasked, false), Ok(TermsStep::AskShare)));
    assert_eq!(get_terms(&Found::Missing, false).unwrap_err().status(), Some(401));
    assert_eq!(get_terms(&Found::Is(share(true, true, false)), true).unwrap_err().status(), Some(403));
    let waiting = Found::Is(share(false, true, false));
    assert!(matches!(get_terms(&waiting, false), Ok(TermsStep::Record)));
    assert!(matches!(get_terms(&waiting, true), Ok(TermsStep::Answer(a)) if a.recipient == "acme" && !a.terms_accepted));
    assert!(matches!(accept_terms(&Found::Unasked, false, &None), Ok(AcceptStep::AskShare)));
    assert!(matches!(accept_terms(&waiting, false, &None), Ok(AcceptStep::Record)));
    let id = share(false, true, false).id;
    assert!(matches!(accept_terms(&waiting, true, &None), Ok(AcceptStep::Accept(i)) if i == id));
    match accept_terms(&waiting, true, &Some(share(false, true, true))) {
        Ok(AcceptStep::Answer(a)) => {
            assert!(a.terms_accepted);
            assert_eq!(a.terms_accepted_at, share(false, true, true).terms_accepted_at);
        }
        other => panic!("{other:?}"),
    }
    assert!(accept_terms(&Found::Is(share(true, true, false)), true, &None).is_err());
}

#[test]
fn masked_columns_are_left_out_whatever_their_case() {
    let schema = Schema { schema_id: Some(0), fields: vec![field(1, "id", "int"), field(2, "EMail", "string"), field(3, "ÉTÉ", "int")] };
    let (shown, legacy) = apply_column_mask(vec![schema], Some(0), None, &texts(&["email", "été"]));
    assert!(legacy.is_none());
    assert_eq!(shown[0].fields.len(), 1);
    assert_eq!(shown[0].fields[0].name, "id");
    let config = recipient_table_config(TextMap::new(), &some("region = 'eu'"), &None);
    assert!(config.len() > 0);
}

#[test]
fn no_copy_of_the_current_schema_names_a_masked_column() {
    let names = |schema: &Schema| schema.fields.iter().map(|f| f.name.clone()).collect::<Vec<_>>();
    let copy = |id: Option<i32>| Schema { schema_id: id, fields: vec![field(1, "id", "int"), field(2, "ssn", "int")] };
    let (shown, legacy) = apply_column_mask(vec![copy(Some(0))], Some(0), Some(copy(Some(0))), &texts(&["ssn"]));
    assert_eq!(names(&shown[0]), ["id"]);
    let legacy = legacy.unwrap();
    assert_eq!(names(&legacy), ["id"]);
    assert_eq!(legacy.schema_id, Some(0));
    let (others, bare) =
        apply_column_mask(vec![copy(Some(1)), copy(None)], Some(0), Some(copy(None)), &texts(&["ssn"]));
    assert_eq!(names(&others[0]), ["id", "ssn"]);
    assert_eq!(names(&others[1]), ["id", "ssn"]);
    assert_eq!(names(&bare.unwrap()), ["id"]);
}

#[test]
fn access_is_requested_and_decided() {
    let body = |purpose: &str, privilege: &str| RequestAccessRequest {
        securable_type: "table".to_string(),
        securable_id: "01T".to_string(),
        privilege: privilege.to_string(),
        purpose: purpose.to_string(),
        ttl_seconds: None,
    };
    assert!(request_access(&body("audit", &default_privilege())).is_ok());
    assert!(request_access(&body(" ", &default_privilege())).is_err());
    let query = ListRequestsQuery { state: None, before: None, limit: None };
    assert!(list_requests(&Access::Granted, &query).is_ok());
    assert!(decide_request(&Access::Granted, &DecideRequest { approve: true, reason: None }).is_ok());
    assert!(decide_request(&forbidden(), &DecideRequest { approve: true, reason: None }).is_err());
}

#[test]
fn galleries_show_certified_products_first() {
    let product = |id: &str, certification: &str| GalleryProduct {
        id: id.to_string(),
        name: id.to_string(),
        certification: certification.to_string(),
        entry: "{}".to_string(),
    };
    let shown = marketplace_products(&Access::Granted, vec![product("1", "draft"), product("2", "certified")]).unwrap();
    assert_eq!(shown.len(), 2);
    assert_eq!(shown[0].id, "2");
    assert_eq!(shown[1].id, "1");
}
