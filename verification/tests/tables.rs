//! Tables: names, locations, tags, bodies of commits, and the table routes.

use meridian_routes::error::{ApiError, ErrorKind, StoreError, StoreKind};
use meridian_routes::grants::{Access, Found};
use meridian_routes::namespaces::Pagination;
use meridian_routes::table_routes::{
    admit_new_table, attach_delegation, build_new_table_metadata, create_table, drop_table, drop_table_error,
    list_tables, load_table, map_build_error, materialize_new_table, new_table_plan, purge_on_drop, register_error, register_table,
    rename_error, rename_table, report_metrics, storage_to_api, table_exists, BuildStep, Collision, CreateStep,
    CreateTableRequest, DropStep, ExistsStep, ListFacts, ListTablesStep, LoadFacts, LoadStep, MaterializeError,
    MaterializeEvent, MaterializeStep, MetadataBuildError, NewTableFacts, NewTableStep, RenameFacts, RenameStep,
    ReportStep, RequestedDelegation, StorageError, TableFacts,
};
use meridian_routes::tables::{
    created_uuid, current_metadata_unreadable, default_table_location, display_ident, foreign_options, foreign_root, has_assert_create, idempotency_key,
    if_none_match_matches, key_reuse_error, lenient_query_bool, no_such_table, parse_commit_request, purge_prefix,
    reject_if_foreign, reject_if_foreign_warehouse, storage_config_error, table_etag, validate_table_name, CommitBody, DropTableQuery,
    Header, IdentifierField, ListField, ListTablesQuery, LoadTableQuery, ParsedCommit, RegisterTableRequest,
    RenameTableRequest, TableIdentifier, TableRecord, TableRequirement, TableUpdate, TaggedValue, WarehouseRecord,
};
use meridian_routes::textmap::TextMap;

fn texts(items: &[&str]) -> Vec<String> {
    items.iter().map(|s| s.to_string()).collect()
}

fn map(items: &[(&str, &str)]) -> TextMap<String> {
    let mut out = TextMap::new();
    for (k, v) in items {
        out = out.with(k, v.to_string());
    }
    out
}

fn tagged(tag: &str) -> Result<TaggedValue, String> {
    Ok(TaggedValue { tag: tag.to_string(), uuid: None })
}

/// An element that the table format's parser does not know.
fn unknown(tag: &str) -> Result<TaggedValue, String> {
    Err(format!("unknown variant `{tag}`"))
}

fn body(requirements: Vec<Result<TaggedValue, String>>, updates: Vec<Result<TaggedValue, String>>) -> CommitBody {
    CommitBody::Object {
        identifier: IdentifierField::Absent,
        requirements: ListField::Items(requirements),
        updates: ListField::Items(updates),
    }
}

fn warehouse(foreign: bool) -> WarehouseRecord {
    WarehouseRecord {
        id: "01W".to_string(),
        name: "wh1".to_string(),
        storage_root: "s3://bucket/root".to_string(),
        storage_config: TextMap::new(),
        foreign,
    }
}

fn table(mirror: Option<&str>) -> TableRecord {
    TableRecord {
        id: "01T".to_string(),
        name: "orders".to_string(),
        table_uuid: "u1".to_string(),
        mirror_id: mirror.map(|m| m.to_string()),
        metadata_location: Some("s3://bucket/root/a/orders/metadata/3.json".to_string()),
        pointer_version: 3,
    }
}

fn store(kind: StoreKind) -> StoreError {
    StoreError { kind, message: "said the store".to_string() }
}

fn is(e: &ApiError, kind: ErrorKind, message: &str) {
    assert_eq!(e.kind, kind);
    assert_eq!(e.message, message);
}

#[test]
fn default_location_is_uuid_suffixed_under_namespace_path() {
    let uuid = uuid::Uuid::nil().to_string();
    assert_eq!(
        default_table_location("s3://bucket/root/", &texts(&["a", "b"]), "t", &uuid),
        format!("s3://bucket/root/a/b/t-{uuid}")
    );
    assert_eq!(
        default_table_location("s3://bucket/root", &Vec::new(), "t", &uuid),
        format!("s3://bucket/root/t-{uuid}")
    );
}

#[test]
fn etag_distinguishes_versions_and_representations() {
    let full = table_etag("u1", 3, false);
    assert_ne!(full, table_etag("u1", 4, false));
    assert_ne!(full, table_etag("u1", 3, true));
    assert_ne!(full, table_etag("u2", 3, false));
}

#[test]
fn etag_has_the_uuid_and_the_version() {
    assert_eq!(table_etag("u1", 3, false), "\"u1-g3\"");
    assert_eq!(table_etag("u1", 3, true), "\"u1-g3-refs\"");
}

#[test]
fn if_none_match_handles_lists_weak_tags_and_star() {
    let etag = "\"u1-g3\"";
    let with = |value: &str| Header::Text(value.to_string());
    assert!(if_none_match_matches(&with("\"u1-g3\""), etag));
    assert!(if_none_match_matches(&with("W/\"u1-g3\""), etag));
    assert!(if_none_match_matches(&with("\"other\", \"u1-g3\""), etag));
    assert!(if_none_match_matches(&with("*"), etag));
    assert!(!if_none_match_matches(&with("\"u1-g2\""), etag));
    assert!(!if_none_match_matches(&Header::Absent, etag));
}

#[test]
fn if_none_match_ignores_unreadable_headers() {
    assert!(!if_none_match_matches(&Header::Opaque, "\"u1-g3\""));
    assert!(if_none_match_matches(&Header::Text("  \"u1-g3\"  ".to_string()), "\"u1-g3\""));
}

#[test]
fn commit_request_parsing_rejects_unknown_vocabulary() {
    let bad_update = body(Vec::new(), vec![unknown("definitely-not-an-action")]);
    assert_eq!(
        parse_commit_request(&bad_update).unwrap_err().message,
        "unknown or invalid update: unknown variant `definitely-not-an-action`"
    );
    assert!(parse_commit_request(&bad_update).is_err());

    let bad_requirement = body(vec![unknown("assert-nonsense")], Vec::new());
    assert!(parse_commit_request(&bad_requirement).is_err());

    let ok = CommitBody::Object {
        identifier: IdentifierField::Is(TableIdentifier { namespace: texts(&["a"]), name: "t".to_string() }),
        requirements: ListField::Items(vec![tagged("assert-create")]),
        updates: ListField::Items(Vec::new()),
    };
    let parsed = parse_commit_request(&ok).expect("valid request parses");
    assert_eq!(parsed.requirements.len(), 1);
    assert!(parsed.updates.is_empty());
}

#[test]
fn commit_request_parsing_wants_an_object_with_both_lists() {
    assert!(parse_commit_request(&CommitBody::NotObject).is_err());
    let missing = CommitBody::Object {
        identifier: IdentifierField::Absent,
        requirements: ListField::Items(Vec::new()),
        updates: ListField::Missing,
    };
    assert!(parse_commit_request(&missing).is_err());
    let wrong = CommitBody::Object {
        identifier: IdentifierField::Absent,
        requirements: ListField::NotArray,
        updates: ListField::Items(Vec::new()),
    };
    assert!(parse_commit_request(&wrong).is_err());
    let nameless = CommitBody::Object {
        identifier: IdentifierField::Invalid("no name".to_string()),
        requirements: ListField::Items(Vec::new()),
        updates: ListField::Items(Vec::new()),
    };
    assert!(parse_commit_request(&nameless).is_err());
}

#[test]
fn create_commits_are_told_apart() {
    let create = ParsedCommit {
        identifier: None,
        requirements: vec![TableRequirement::Other("assert-ref-snapshot-id".to_string()), TableRequirement::AssertCreate],
        updates: vec![TableUpdate::AssignUuid("u9".to_string())],
    };
    assert!(has_assert_create(&create));
    assert_eq!(created_uuid(&create, "fresh".to_string()), "u9");
    let change = ParsedCommit { identifier: None, requirements: Vec::new(), updates: Vec::new() };
    assert!(!has_assert_create(&change));
    assert_eq!(created_uuid(&change, "fresh".to_string()), "fresh");
}

#[test]
fn table_names_are_checked() {
    assert!(validate_table_name("orders").is_ok());
    assert!(validate_table_name("").is_err());
    assert!(validate_table_name("a\u{1f}b").is_err());
}

#[test]
fn identifiers_are_dotted() {
    assert_eq!(display_ident(&texts(&["a", "b"]), "t"), "a.b.t");
    assert_eq!(display_ident(&Vec::new(), "t"), "t");
    is(&no_such_table(&texts(&["a"]), "t"), ErrorKind::NoSuchTable, "table \"a.t\" does not exist");
}

#[test]
fn identifiers_in_messages_are_escaped() {
    is(
        &no_such_table(&texts(&["a\"b"]), "t\n"),
        ErrorKind::NoSuchTable,
        "table \"a\\\"b.t\\n\" does not exist",
    );
}

#[test]
fn roots_are_read_off_locations() {
    assert_eq!(foreign_root("s3://b/x/metadata/1.json"), "s3://b/x");
    assert_eq!(purge_prefix("s3://b/x/metadata/1.json"), Some("s3://b/x/metadata".to_string()));
    assert_eq!(purge_prefix("s3://b/x/1.json"), None);
    let config = map(&[
        ("endpoint", "http://minio"),
        ("meridian:foreign", "true"),
        ("secret-access-key", "k"),
        ("region", "eu"),
    ]);
    let options = foreign_options(&config);
    assert_eq!(options.len(), 2);
    assert_eq!(options.get("endpoint"), Some(&"http://minio".to_string()));
    assert_eq!(options.get("region"), Some(&"eu".to_string()));
}

#[test]
fn foreign_tables_and_warehouses_are_read_only() {
    assert!(reject_if_foreign(&table(None), &texts(&["a"]), "orders").is_ok());
    let e = reject_if_foreign(&table(Some("01M")), &texts(&["a"]), "orders").unwrap_err();
    assert_eq!(e.kind, ErrorKind::ForeignReadOnly);
    assert!(reject_if_foreign_warehouse(&warehouse(false)).is_ok());
    assert_eq!(reject_if_foreign_warehouse(&warehouse(true)).unwrap_err().kind, ErrorKind::ForeignReadOnly);
}

#[test]
fn idempotency_keys_are_bounded() {
    assert_eq!(idempotency_key(&Header::Absent).unwrap(), None);
    assert_eq!(idempotency_key(&Header::Text("k1".to_string())).unwrap(), Some("k1".to_string()));
    assert!(idempotency_key(&Header::Text("k".repeat(256))).is_err());
    assert!(idempotency_key(&Header::Text("k".repeat(255))).is_ok());
    assert!(idempotency_key(&Header::Opaque).is_err());
    assert_eq!(key_reuse_error("k1").kind, ErrorKind::Unprocessable);
}

#[test]
fn query_booleans_are_lenient() {
    assert_eq!(lenient_query_bool("true"), Ok(true));
    assert_eq!(lenient_query_bool("FALSE"), Ok(false));
    assert_eq!(lenient_query_bool("True"), Ok(true));
    for other in ["perhaps", "1", "0", "", "yes", "no", " true"] {
        assert!(lenient_query_bool(other).is_err());
    }
}

#[test]
fn storage_failures_have_their_answers() {
    let transient = storage_to_api(&StorageError::Transient);
    assert_eq!(transient.status(), Some(503));
    let gone = storage_to_api(&StorageError::NotFound("s3://b/x".to_string()));
    assert_eq!(gone.status(), Some(400));
    let config = storage_to_api(&StorageError::Config("no bucket".to_string()));
    assert_eq!(config.status(), Some(500));
    assert!(storage_config_error("wh1", "no bucket").message.contains("wh1"));
    assert!(current_metadata_unreadable("s3://b/m", "gone").message.contains("s3://b/m"));
    let twice = map_build_error(&MetadataBuildError::SnapshotAlreadyExists("twice".to_string()));
    assert_eq!(twice.kind, ErrorKind::CommitFailed);
    let other = map_build_error(&MetadataBuildError::Other("bad field".to_string()));
    assert_eq!(other.kind, ErrorKind::BadRequest);
}

#[test]
fn collisions_depend_on_who_collides() {
    let collision = MaterializeError::Store(store(StoreKind::Conflict));
    assert_eq!(collision.into_api(Collision::AlreadyExists).kind, ErrorKind::AlreadyExists);
    assert_eq!(collision.into_api(Collision::AssertCreateFailed).kind, ErrorKind::CommitFailed);
}

#[test]
fn files_of_tables_that_were_not_created_are_discarded() {
    assert!(matches!(materialize_new_table(MaterializeEvent::Start), MaterializeStep::WriteFile));
    assert!(matches!(materialize_new_table(MaterializeEvent::File(Ok(()))), MaterializeStep::InsertRow));
    assert!(matches!(
        materialize_new_table(MaterializeEvent::File(Err(StorageError::Transient))),
        MaterializeStep::Fail(_)
    ));
    assert!(matches!(materialize_new_table(MaterializeEvent::Row(Ok(()))), MaterializeStep::Done));
    assert!(matches!(
        materialize_new_table(MaterializeEvent::Row(Err(store(StoreKind::Conflict)))),
        MaterializeStep::DiscardAndFail(_)
    ));
}

fn create_request(stage: bool, properties: TextMap<String>) -> CreateTableRequest {
    CreateTableRequest {
        name: "orders".to_string(),
        location: None,
        has_partition_spec: true,
        has_write_order: false,
        stage_create: stage,
        properties,
    }
}

#[test]
fn new_metadata_is_planned() {
    let request = create_request(false, map(&[("format-version", "1"), ("owner", "ada")]));
    let plan = new_table_plan(request, "s3://bucket/root", &texts(&["a"]), "u7".to_string()).unwrap();
    assert_eq!(plan.format_version, 1);
    assert_eq!(plan.table_uuid, "u7");
    assert_eq!(plan.location, "s3://bucket/root/a/orders-u7");
    assert_eq!(
        plan.steps,
        vec![
            BuildStep::AssignUuid,
            BuildStep::AddSchema,
            BuildStep::SetCurrentSchema,
            BuildStep::AddSpec,
            BuildStep::SetDefaultSpec,
            BuildStep::SetProperties,
        ]
    );
    assert!(plan.properties.has("owner"));
    assert!(!plan.properties.has("format-version"));
}

#[test]
fn new_metadata_has_the_second_format_unless_asked_otherwise() {
    let plan = build_new_table_metadata(create_request(false, TextMap::new()), "s3://b", &Vec::new()).unwrap();
    assert_eq!(plan.table_uuid.len(), 36);
    assert_eq!(plan.table_uuid.matches('-').count(), 4);
    assert_eq!(plan.location, format!("s3://b/orders-{}", plan.table_uuid));
    assert_eq!(plan.format_version, 2);
    assert!(!plan.steps.contains(&BuildStep::SetProperties));
    let bad = create_request(false, map(&[("format-version", "new")]));
    assert_eq!(build_new_table_metadata(bad, "s3://b", &Vec::new()).unwrap_err().kind, ErrorKind::BadRequest);
}

fn free() -> NewTableFacts {
    NewTableFacts {
        warehouse: Found::Is(warehouse(false)),
        namespace: Found::Is("01N".to_string()),
        access: Some(Access::Granted),
        table: Found::Missing,
        view: Found::Missing,
    }
}

#[test]
fn new_tables_are_admitted_step_by_step() {
    let mut facts = NewTableFacts {
        warehouse: Found::Unasked,
        namespace: Found::Unasked,
        access: None,
        table: Found::Unasked,
        view: Found::Unasked,
    };
    let step = |facts: &NewTableFacts| admit_new_table("wh1@dev", "a\u{1f}b", "orders", false, facts);
    assert!(matches!(step(&facts), NewTableStep::AskWarehouse(name) if name == "wh1"));
    facts.warehouse = Found::Is(warehouse(false));
    assert!(matches!(step(&facts), NewTableStep::AskNamespace(levels) if levels == texts(&["a", "b"])));
    facts.namespace = Found::Is("01N".to_string());
    assert!(matches!(step(&facts), NewTableStep::AskCreateTable));
    facts.access = Some(Access::Granted);
    assert!(matches!(step(&facts), NewTableStep::AskTable));
    facts.table = Found::Missing;
    assert!(matches!(step(&facts), NewTableStep::AskView));
    facts.view = Found::Missing;
    assert!(matches!(step(&facts), NewTableStep::Admit(levels) if levels == texts(&["a", "b"])));
}

#[test]
fn taken_names_are_refused() {
    let mut facts = free();
    facts.table = Found::Is(());
    match admit_new_table("wh1", "a", "orders", false, &facts) {
        NewTableStep::Refuse(e) => is(&e, ErrorKind::AlreadyExists, "table \"a.orders\" already exists"),
        other => panic!("{other:?}"),
    }
    facts = free();
    facts.view = Found::Is(());
    match admit_new_table("wh1", "a", "orders", false, &facts) {
        NewTableStep::Refuse(e) => is(
            &e,
            ErrorKind::AlreadyExists,
            "the identifier \"a.orders\" already exists as a view (tables and views share a namespace)",
        ),
        other => panic!("{other:?}"),
    }
}

#[test]
fn callers_who_may_not_create_learn_nothing_of_names() {
    let mut facts = free();
    facts.access = Some(Access::Forbidden("no".to_string()));
    facts.table = Found::Is(());
    match admit_new_table("wh1", "a", "orders", false, &facts) {
        NewTableStep::Refuse(e) => is(&e, ErrorKind::Forbidden, "no"),
        other => panic!("{other:?}"),
    }
}

#[test]
fn nothing_is_created_in_a_foreign_warehouse() {
    let mut facts = free();
    facts.warehouse = Found::Is(warehouse(true));
    match admit_new_table("wh1", "a", "orders", false, &facts) {
        NewTableStep::Refuse(e) => assert_eq!(e.kind, ErrorKind::ForeignReadOnly),
        other => panic!("{other:?}"),
    }
}

#[test]
fn staged_creations_write_nothing() {
    let staged = create_request(true, TextMap::new());
    assert!(matches!(create_table("wh1", "a", &staged, &free()), CreateStep::Stage(_)));
    let plain = create_request(false, TextMap::new());
    assert!(matches!(create_table("wh1", "a", &plain, &free()), CreateStep::Write(_)));
    let mut facts = free();
    facts.access = None;
    assert!(matches!(create_table("wh1", "a", &plain, &facts), CreateStep::Admit(NewTableStep::AskCreateTable)));
}

#[test]
fn registrations_do_not_overwrite() {
    let request = RegisterTableRequest {
        name: "orders".to_string(),
        metadata_location: "s3://bucket/root/x/metadata/1.json".to_string(),
        overwrite: true,
    };
    match register_table("wh1", "a", &request, &free()) {
        NewTableStep::Refuse(e) => {
            is(&e, ErrorKind::BadRequest, "register with overwrite=true is not supported yet")
        }
        other => panic!("{other:?}"),
    }
    assert_eq!(register_error(&store(StoreKind::Conflict)).kind, ErrorKind::AlreadyExists);
    assert_eq!(register_error(&store(StoreKind::NotFound)).kind, ErrorKind::NoSuchNamespace);
}

#[test]
fn tables_are_listed_page_by_page() {
    let query = ListTablesQuery { page_token: None, page_size: Some(2) };
    let mut facts = ListFacts { namespace: Found::Unasked, access: None };
    assert!(matches!(list_tables("a", &query, &facts), Ok(ListTablesStep::AskNamespace(_))));
    facts.namespace = Found::Is(());
    assert!(matches!(list_tables("a", &query, &facts), Ok(ListTablesStep::AskListTables)));
    facts.access = Some(Access::Granted);
    match list_tables("a", &query, &facts) {
        Ok(ListTablesStep::Fetch(Pagination { limit, after_id })) => {
            assert_eq!(limit, Some(2));
            assert_eq!(after_id, None);
        }
        other => panic!("{other:?}"),
    }
    facts.namespace = Found::Missing;
    is(
        &list_tables("a", &query, &facts).unwrap_err(),
        ErrorKind::NoSuchNamespace,
        "namespace \"a\" does not exist",
    );
}

#[test]
fn existence_is_told_to_readers_only() {
    let mut facts = TableFacts { table: Found::Unasked, access: None };
    assert!(matches!(table_exists("a", "t", &facts), Ok(ExistsStep::AskTable)));
    facts.table = Found::Is(table(None));
    assert!(matches!(table_exists("a", "t", &facts), Ok(ExistsStep::AskRead)));
    facts.access = Some(Access::Granted);
    assert!(matches!(table_exists("a", "t", &facts), Ok(ExistsStep::Exists)));
    facts.access = Some(Access::Forbidden("no".to_string()));
    assert_eq!(table_exists("a", "t", &facts).unwrap_err().kind, ErrorKind::Forbidden);
    facts.table = Found::Missing;
    assert_eq!(table_exists("a", "t", &facts).unwrap_err().kind, ErrorKind::NoSuchTable);
}

#[test]
fn unchanged_tables_are_not_sent_again() {
    let query = LoadTableQuery { snapshots: None };
    let facts = LoadFacts {
        warehouse: Found::Is(warehouse(false)),
        table: Found::Is(table(None)),
        access: Some(Access::Granted),
        branch: Found::Unasked,
        pointer: Found::Unasked,
    };
    let known = Header::Text("\"u1-g3\"".to_string());
    assert!(matches!(load_table("wh1", "a", "orders", &query, &known, &facts), LoadStep::NotModified(t) if t == "\"u1-g3\""));
    match load_table("wh1", "a", "orders", &query, &Header::Absent, &facts) {
        LoadStep::Read { location, foreign, refs_only, etag } => {
            assert_eq!(location, "s3://bucket/root/a/orders/metadata/3.json");
            assert!(!foreign);
            assert!(!refs_only);
            assert_eq!(etag, "\"u1-g3\"");
        }
        other => panic!("{other:?}"),
    }
    let refs = LoadTableQuery { snapshots: Some("refs".to_string()) };
    assert!(matches!(
        load_table("wh1", "a", "orders", &refs, &Header::Absent, &facts),
        LoadStep::Read { refs_only: true, .. }
    ));
    let odd = LoadTableQuery { snapshots: Some("some".to_string()) };
    assert!(matches!(load_table("wh1", "a", "orders", &odd, &Header::Absent, &facts), LoadStep::Refuse(_)));
}

#[test]
fn delegations_add_to_the_configuration() {
    let vended = map(&[("s3.access-key-id", "k")]);
    let (config, with_credentials) = attach_delegation(
        map(&[("a", "1")]),
        RequestedDelegation::VendedCredentials,
        Some(vended),
        None,
    );
    assert!(with_credentials);
    assert_eq!(config.len(), 2);
    let (config, with_credentials) =
        attach_delegation(map(&[("a", "1")]), RequestedDelegation::Own, Some(map(&[("b", "2")])), None);
    assert!(!with_credentials);
    assert_eq!(config.len(), 1);
    let (config, with_credentials) =
        attach_delegation(map(&[("a", "1")]), RequestedDelegation::RemoteSigning, None, Some(map(&[("a", "2")])));
    assert!(!with_credentials);
    assert_eq!(config.get("a"), Some(&"2".to_string()));
}

#[test]
fn drops_spare_foreign_tables() {
    let levels = texts(&["a"]);
    let mut facts = TableFacts { table: Found::Unasked, access: None };
    assert!(matches!(drop_table("a", "orders", &facts), Ok(DropStep::AskTable)));
    facts.table = Found::Missing;
    assert!(matches!(drop_table("a", "orders", &facts), Ok(DropStep::AskDrop)));
    facts.access = Some(Access::Granted);
    assert!(matches!(drop_table("a", "orders", &facts), Ok(DropStep::Drop)));
    facts.table = Found::Is(table(Some("01M")));
    assert_eq!(drop_table("a", "orders", &facts).unwrap_err().kind, ErrorKind::ForeignReadOnly);
    facts.access = Some(Access::Forbidden("no".to_string()));
    assert_eq!(drop_table("a", "orders", &facts).unwrap_err().kind, ErrorKind::Forbidden);
    assert_eq!(drop_table_error(&levels, "orders", &store(StoreKind::NotFound)).kind, ErrorKind::NoSuchTable);
    let at = Some("s3://b/x/metadata/1.json".to_string());
    assert_eq!(purge_on_drop(&DropTableQuery { purge_requested: true }, &at), Some("s3://b/x/metadata".to_string()));
    assert_eq!(purge_on_drop(&DropTableQuery { purge_requested: false }, &at), None);
}

#[test]
fn renames_need_both_ends() {
    let request = RenameTableRequest {
        source: TableIdentifier { namespace: texts(&["a"]), name: "orders".to_string() },
        destination: TableIdentifier { namespace: texts(&["b"]), name: "sales".to_string() },
    };
    let mut facts = RenameFacts { source: Found::Unasked, source_access: None, destination_access: None };
    assert!(matches!(rename_table(&warehouse(false), &request, &facts), RenameStep::AskSource));
    facts.source = Found::Is(table(None));
    facts.source_access = Some(Access::Granted);
    facts.destination_access = Some(Access::Granted);
    assert!(matches!(rename_table(&warehouse(false), &request, &facts), RenameStep::Rename));
    facts.destination_access = Some(Access::Forbidden("no".to_string()));
    assert!(matches!(rename_table(&warehouse(false), &request, &facts), RenameStep::Refuse(_)));
    assert_eq!(rename_error(&store(StoreKind::Conflict)).kind, ErrorKind::AlreadyExists);
}

#[test]
fn metrics_are_objects() {
    let mut facts = TableFacts { table: Found::Is(table(None)), access: None };
    assert!(matches!(report_metrics("a", "t", true, &facts), Ok(ReportStep::AskWrite)));
    facts.access = Some(Access::Granted);
    assert!(matches!(report_metrics("a", "t", true, &facts), Ok(ReportStep::Keep)));
    is(
        &report_metrics("a", "t", false, &facts).unwrap_err(),
        ErrorKind::BadRequest,
        "metrics report must be a JSON object",
    );
    facts.table = Found::Missing;
    assert_eq!(report_metrics("a", "t", true, &facts).unwrap_err().kind, ErrorKind::NoSuchTable);
}
