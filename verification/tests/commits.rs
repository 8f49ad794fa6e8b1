//! Commits to one table and to several, and the contracts that judge them.

use meridian_routes::commit::{
    backend_to_api, check_requirements, requirements_hold, CommitAction, CommitAnswer, CommitBackendError, CommitEvent,
    CommitRun, SwapOutcome, Target,
};
use meridian_routes::commit_routes::{
    commit_create_table, commit_table, creation_plan, CommitFacts, CommitPrivilege, DispatchStep,
};
use meridian_routes::contracts::{
    blocked_commit_message, decide_contracts, degrade, BlockedCommit, ContractDecision, EnforcementMode,
    EvaluatedContract, Violation, ViolationOutcome, ViolationRecord,
};
use meridian_routes::error::ErrorKind;
use meridian_routes::grants::{Access, Found};
use meridian_routes::tables::{
    commit_table_identity, commit_transaction_identity, request_identity, table_commit_body, CommitBody, Header, IdentifierField, ListField, ParsedCommit, TableIdentifier, TableRecord, TableRequirement,
    TableUpdate, TaggedValue, WarehouseRecord,
};
use meridian_routes::textmap::TextMap;
use meridian_routes::transaction::{
    admit_tables, admit_transaction, commit_transaction, tables_exist, AdmissionStep, TableChange, TxnAction, TxnAnswer,
    TxnEvent, TxnFacts, TxnRun,
};

fn texts(items: &[&str]) -> Vec<String> {
    items.iter().map(|s| s.to_string()).collect()
}

fn loaded(version: u64) -> CommitEvent {
    CommitEvent::Loaded { version, violations: Vec::new() }
}

fn violation() -> Violation {
    Violation { kind: "column_missing".to_string(), detail: "id is gone".to_string() }
}

fn record() -> ViolationRecord {
    ViolationRecord {
        contract_id: "01C".to_string(),
        contract_name: "core".to_string(),
        table_id: "01T".to_string(),
        snapshot_id: Some(5),
        mode: EnforcementMode::Quarantine,
        outcome: ViolationOutcome::Quarantined,
        violations: vec![violation()],
    }
}

fn blocked() -> BlockedCommit {
    BlockedCommit {
        contract_id: "01C".to_string(),
        contract_name: "core".to_string(),
        mode: EnforcementMode::Block,
        violations: vec![violation()],
    }
}

fn warned() -> ViolationRecord {
    ViolationRecord {
        contract_id: "01W".to_string(),
        contract_name: "size".to_string(),
        mode: EnforcementMode::Warn,
        outcome: ViolationOutcome::Warned,
        ..record()
    }
}

fn quarantined() -> ContractDecision {
    ContractDecision::Quarantine(vec![record(), warned()], "q".to_string(), blocked())
}

fn staged_main() -> CommitRun {
    let (run, _) = CommitRun::start(Target::Main);
    let (run, actions) = run.step(loaded(3));
    assert!(matches!(actions[0], CommitAction::Stage { version: 4 }));
    let (run, actions) = run.step(CommitEvent::Staged("f1".to_string()));
    assert!(matches!(actions[0], CommitAction::Judge));
    run
}

#[test]
fn commits_land_after_judgement() {
    let (run, actions) = staged_main().step(CommitEvent::Judged(ContractDecision::Allow));
    assert!(matches!(&actions[0], CommitAction::Swap { staged, expected: 3, records } if staged == "f1" && records.is_empty()));
    let (_, actions) = run.step(CommitEvent::Swapped(SwapOutcome::Committed(None)));
    assert_eq!(actions.len(), 1);
    assert!(matches!(
        &actions[0],
        CommitAction::Answer(CommitAnswer::Committed { location, version: 4 }) if location == "f1"
    ));
}

#[test]
fn commits_to_a_branch_are_not_judged() {
    let (run, _) = CommitRun::start(Target::Branch);
    let (run, _) = run.step(loaded(3));
    let (run, actions) = run.step(CommitEvent::Staged("f1".to_string()));
    assert!(matches!(actions[0], CommitAction::Swap { expected: 3, .. }));
    let (_, actions) = run.step(CommitEvent::Swapped(SwapOutcome::Committed(Some(9))));
    assert!(matches!(actions[0], CommitAction::Answer(CommitAnswer::Committed { version: 9, .. })));
}

#[test]
fn blocked_commits_leave_no_file() {
    let decision = ContractDecision::Block(vec![record(), record()], blocked());
    let (_, actions) = staged_main().step(CommitEvent::Judged(decision));
    assert!(matches!(&actions[0], CommitAction::Discard(f) if f == "f1"));
    assert!(matches!(&actions[1], CommitAction::Answer(CommitAnswer::Blocked { records, .. }) if records.len() == 2));
    assert_eq!(actions.len(), 2);
}

#[test]
fn quarantined_commits_are_staged_again_for_their_branch() {
    let (run, actions) = staged_main().step(CommitEvent::Judged(quarantined()));
    assert!(matches!(&actions[0], CommitAction::Retarget { branch } if branch == "q"));
    let (run, actions) = run.step(CommitEvent::Restaged("f2".to_string()));
    assert!(matches!(&actions[0], CommitAction::Discard(f) if f == "f1"));
    assert!(matches!(&actions[1], CommitAction::Swap { staged, records, .. } if staged == "f2" && records.len() == 2));
    let (_, actions) = run.step(CommitEvent::Swapped(SwapOutcome::Replayed));
    assert!(matches!(&actions[0], CommitAction::Discard(f) if f == "f2"));
    assert!(matches!(&actions[1], CommitAction::Answer(CommitAnswer::Replay)));
}

#[test]
fn quarantine_without_a_snapshot_blocks() {
    let (run, _) = staged_main().step(CommitEvent::Judged(quarantined()));
    let (_, actions) = run.step(CommitEvent::NothingToRetarget);
    assert!(matches!(&actions[0], CommitAction::Discard(f) if f == "f1"));
    match &actions[1] {
        CommitAction::Answer(CommitAnswer::Blocked { blocked, records }) => {
            assert_eq!(blocked.contract_id, "01C");
            assert_eq!(records.len(), 2);
            assert_eq!(records[0].snapshot_id, Some(5));
            assert_eq!(records[0].outcome, ViolationOutcome::Blocked);
        }
        other => panic!("{other:?}"),
    }
}

#[test]
fn lost_races_are_tried_three_times() {
    let (mut run, _) = CommitRun::start(Target::Main);
    for attempt in 1..=3 {
        let (next, _) = run.step(loaded(3));
        let (next, _) = next.step(CommitEvent::Staged(format!("f{attempt}")));
        let (next, _) = next.step(CommitEvent::Judged(ContractDecision::Allow));
        let (next, actions) = next.step(CommitEvent::Swapped(SwapOutcome::VersionConflict));
        assert!(matches!(&actions[0], CommitAction::Discard(f) if *f == format!("f{attempt}")));
        if attempt < 3 {
            assert!(matches!(actions[1], CommitAction::Load));
        } else {
            match &actions[1] {
                CommitAction::Answer(CommitAnswer::Error(e)) => {
                    assert_eq!(e.kind, ErrorKind::CommitFailed);
                    assert_eq!(
                        e.message,
                        "commit lost the compare-and-set race 3 time(s); refresh table state and retry"
                    );
                }
                other => panic!("{other:?}"),
            }
        }
        run = next;
    }
}

#[test]
fn files_of_unknown_outcomes_are_kept() {
    let (run, _) = staged_main().step(CommitEvent::Judged(ContractDecision::Allow));
    let (_, actions) = run.step(CommitEvent::Swapped(SwapOutcome::StateUnknown));
    assert_eq!(actions.len(), 1);
    match &actions[0] {
        CommitAction::Answer(CommitAnswer::Error(e)) => assert_eq!(e.kind, ErrorKind::CommitStateUnknown),
        other => panic!("{other:?}"),
    }
}

#[test]
fn unmet_requirements_stage_nothing() {
    let (run, _) = CommitRun::start(Target::Main);
    let event = CommitEvent::Loaded { version: 3, violations: texts(&["a.t: moved"]) };
    let (_, actions) = run.step(event);
    assert_eq!(actions.len(), 1);
    match &actions[0] {
        CommitAction::Answer(CommitAnswer::Error(e)) => assert_eq!(e.kind, ErrorKind::CommitFailed),
        other => panic!("{other:?}"),
    }
}

#[test]
fn requirements_are_collected_per_table() {
    let mut violations = Vec::new();
    check_requirements("a.t", &texts(&["one", "two"]), &mut violations);
    assert_eq!(violations.len(), 2);
    assert!(requirements_hold(&violations).is_err());
    assert!(requirements_hold(&Vec::new()).is_ok());
    assert_eq!(backend_to_api(&CommitBackendError::Unavailable).status(), Some(503));
    assert_eq!(backend_to_api(&CommitBackendError::TableNotFound("a.t".to_string())).status(), Some(404));
}

fn contract(name: &str, mode: EnforcementMode, violated: bool) -> EvaluatedContract {
    EvaluatedContract {
        id: format!("id-{name}"),
        name: name.to_string(),
        mode,
        quarantine_branch: "q".to_string(),
        violations: if violated { vec![violation()] } else { Vec::new() },
    }
}

#[test]
fn the_strictest_violated_contract_decides() {
    let all = vec![
        contract("warn", EnforcementMode::Warn, true),
        contract("block", EnforcementMode::Block, true),
        contract("quarantine", EnforcementMode::Quarantine, true),
    ];
    match decide_contracts("01T", true, Some(5), all) {
        ContractDecision::Block(records, b) => {
            assert_eq!(b.contract_name, "block");
            let names: Vec<&str> = records.iter().map(|r| r.contract_name.as_str()).collect();
            assert_eq!(names, ["warn", "block", "quarantine"]);
            assert!(records.iter().all(|r| r.table_id == "01T" && r.violations.len() == 1));
        }
        other => panic!("{other:?}"),
    }
    let milder = vec![
        contract("block", EnforcementMode::Block, false),
        contract("warn", EnforcementMode::Warn, true),
    ];
    match decide_contracts("01T", true, Some(5), milder) {
        ContractDecision::Warn(records) => {
            assert_eq!(records.len(), 1);
            assert_eq!(records[0].contract_name, "warn");
            assert_eq!(records[0].snapshot_id, Some(5));
            assert_eq!(records[0].outcome, ViolationOutcome::Warned);
        }
        other => panic!("{other:?}"),
    }
    let two = vec![contract("one", EnforcementMode::Warn, true), contract("two", EnforcementMode::Warn, true)];
    match decide_contracts("01T", true, Some(5), two) {
        ContractDecision::Warn(records) => assert_eq!(records.len(), 2),
        other => panic!("{other:?}"),
    }
    let none = vec![contract("block", EnforcementMode::Block, false)];
    assert!(matches!(decide_contracts("01T", true, Some(5), none), ContractDecision::Allow));
}

#[test]
fn modes_have_names() {
    for (name, mode) in
        [("warn", EnforcementMode::Warn), ("quarantine", EnforcementMode::Quarantine), ("block", EnforcementMode::Block)]
    {
        assert_eq!(EnforcementMode::parse(name), Some(mode));
        assert_eq!(mode.as_str(), name);
    }
    assert_eq!(EnforcementMode::parse("shout"), None);
}

#[test]
fn degraded_quarantines_block() {
    let b = blocked();
    let records = degrade(vec![record(), warned()], &b);
    assert_eq!(records[0].contract_id, "01C");
    assert_eq!(records[0].outcome, ViolationOutcome::Blocked);
    assert_eq!(records[1].contract_id, "01W");
    assert!(blocked_commit_message(&b).contains("core"));
}

fn tagged(tag: &str) -> Result<TaggedValue, String> {
    Ok(TaggedValue { tag: tag.to_string(), uuid: None })
}

fn commit_body(create: bool) -> CommitBody {
    CommitBody::Object {
        identifier: IdentifierField::Absent,
        requirements: ListField::Items(if create { vec![tagged("assert-create")] } else { Vec::new() }),
        updates: ListField::Items(Vec::new()),
    }
}

fn table(mirror: Option<&str>) -> TableRecord {
    TableRecord {
        id: "01T".to_string(),
        name: "t".to_string(),
        table_uuid: "u1".to_string(),
        mirror_id: mirror.map(|s| s.to_string()),
        metadata_location: Some("s3://b/m/1.json".to_string()),
        pointer_version: 1,
    }
}

fn warehouse() -> WarehouseRecord {
    WarehouseRecord {
        id: "01W".to_string(),
        name: "wh1".to_string(),
        storage_root: "s3://b".to_string(),
        storage_config: TextMap::new(),
        foreign: false,
    }
}

fn known(mirror: Option<&str>) -> CommitFacts {
    CommitFacts {
        warehouse: Found::Is(warehouse()),
        branch: Found::Unasked,
        table: Found::Is(table(mirror)),
        access: Some(Access::Granted),
        receipt: Found::Missing,
    }
}

fn dispatch(body: &CommitBody, key: &Header, facts: &CommitFacts) -> DispatchStep {
    commit_table("wh1", "a", "t", body, key, "fp", facts)
}

#[test]
fn commits_are_dispatched() {
    let no_key = Header::Absent;
    assert!(matches!(dispatch(&commit_body(false), &no_key, &known(None)), DispatchStep::CommitMain));
    let mut fresh = known(None);
    fresh.table = Found::Missing;
    assert!(matches!(dispatch(&commit_body(true), &no_key, &fresh), DispatchStep::CommitCreate));
    assert!(matches!(
        dispatch(&commit_body(false), &no_key, &fresh),
        DispatchStep::Refuse(e) if e.kind == ErrorKind::NoSuchTable
    ));
    assert!(matches!(
        dispatch(&commit_body(false), &no_key, &known(Some("01M"))),
        DispatchStep::Refuse(e) if e.kind == ErrorKind::ForeignReadOnly
    ));
}

#[test]
fn commits_need_their_own_privilege() {
    let mut facts = known(None);
    facts.access = None;
    assert!(matches!(
        dispatch(&commit_body(false), &Header::Absent, &facts),
        DispatchStep::AskAccess(CommitPrivilege::Commit)
    ));
    facts.table = Found::Missing;
    assert!(matches!(
        dispatch(&commit_body(true), &Header::Absent, &facts),
        DispatchStep::AskAccess(CommitPrivilege::CreateTable)
    ));
}

#[test]
fn keyed_commits_are_replayed_or_refused() {
    let key = Header::Text("k1".to_string());
    let mut facts = known(None);
    facts.receipt = Found::Is("fp".to_string());
    assert!(matches!(dispatch(&commit_body(false), &key, &facts), DispatchStep::Replay));
    facts.receipt = Found::Is("other".to_string());
    assert!(matches!(
        dispatch(&commit_body(false), &key, &facts),
        DispatchStep::Refuse(e) if e.kind == ErrorKind::Unprocessable
    ));
    facts.receipt = Found::Unasked;
    assert!(matches!(dispatch(&commit_body(false), &key, &facts), DispatchStep::AskReceipt(k) if k == "k1"));
    facts.access = Some(Access::Forbidden("no".to_string()));
    facts.receipt = Found::Is("fp".to_string());
    assert!(matches!(
        dispatch(&commit_body(false), &key, &facts),
        DispatchStep::Refuse(e) if e.kind == ErrorKind::Forbidden
    ));
}

#[test]
fn creating_commits_start_from_nothing() {
    let parsed = ParsedCommit {
        identifier: None,
        requirements: vec![TableRequirement::AssertCreate],
        updates: vec![TableUpdate::AssignUuid("u9".to_string())],
    };
    let plan =
        creation_plan("s3://b", &texts(&["a"]), "t", &parsed, &Vec::new(), "fresh".to_string()).unwrap();
    assert_eq!(plan.table_uuid, "u9");
    assert_eq!(plan.location, "s3://b/a/t-u9");
    assert_eq!(plan.format_version, 1);
    let refused =
        creation_plan("s3://b", &texts(&["a"]), "t", &parsed, &texts(&["taken"]), "fresh".to_string());
    assert_eq!(refused.unwrap_err().kind, ErrorKind::CommitFailed);
    let unassigned = ParsedCommit { identifier: None, requirements: Vec::new(), updates: Vec::new() };
    let plan =
        creation_plan("s3://b", &texts(&["a"]), "t", &unassigned, &Vec::new(), "fresh".to_string()).unwrap();
    assert_eq!(plan.table_uuid, "fresh");
    assert_eq!(plan.location, "s3://b/a/t-fresh");
    let drawn = commit_create_table("s3://b", &texts(&["a"]), "t", &unassigned, &Vec::new()).unwrap();
    assert_eq!(drawn.table_uuid.len(), 36);
    assert_eq!(drawn.table_uuid.matches('-').count(), 4);
    assert_eq!(drawn.location, format!("s3://b/a/t-{}", drawn.table_uuid));
    let given = commit_create_table("s3://b", &texts(&["a"]), "t", &parsed, &Vec::new()).unwrap();
    assert_eq!(given.table_uuid, "u9");
}

#[test]
fn identities_hold_the_whole_request() {
    let one = request_identity("commit-table", "wh1", "{}");
    assert_eq!((one.endpoint.as_str(), one.prefix.as_str(), one.body.as_str()), ("commit-table", "wh1", "{}"));
    let body = table_commit_body(&texts(&["a", "b"]), "t", "{\"updates\":[]}");
    assert_eq!(body.namespace, texts(&["a", "b"]));
    assert_eq!(body.name, "t");
    assert_eq!(body.request, "{\"updates\":[]}");
    assert_eq!(commit_table_identity("wh1", "{}").endpoint, "commit-table");
    let several = commit_transaction_identity("wh1", "{}");
    assert_eq!(several.endpoint, "commit-transaction");
    assert_eq!(several.body, "{}");
}

fn change(name: &str) -> TableChange {
    TableChange {
        identifier: TableIdentifier { namespace: texts(&["a"]), name: name.to_string() },
        parsed: ParsedCommit { identifier: None, requirements: Vec::new(), updates: Vec::new() },
    }
}

fn named(name: &str) -> CommitBody {
    CommitBody::Object {
        identifier: IdentifierField::Is(TableIdentifier { namespace: texts(&["a"]), name: name.to_string() }),
        requirements: ListField::Items(Vec::new()),
        updates: ListField::Items(Vec::new()),
    }
}

#[test]
fn transactions_name_each_table_once() {
    assert_eq!(commit_transaction(&Some(vec![named("t"), named("u")])).unwrap().len(), 2);
    assert!(commit_transaction(&Some(vec![named("t"), named("t")])).is_err());
    assert!(commit_transaction(&Some(Vec::new())).is_err());
    assert!(commit_transaction(&None).is_err());
    assert!(commit_transaction(&Some(vec![commit_body(false)])).is_err());
}

#[test]
fn transactions_need_every_table() {
    let changes = vec![change("t"), change("u")];
    assert!(tables_exist(&changes, &vec![Some(table(None)), Some(table(None))]).is_ok());
    assert_eq!(
        tables_exist(&changes, &vec![Some(table(None)), None]).unwrap_err().kind,
        ErrorKind::NoSuchTable
    );
    let records = vec![Some(table(None)), Some(table(None))];
    assert!(admit_tables(&changes, &records, &vec![Access::Granted, Access::Granted]).is_ok());
    assert!(admit_tables(&changes, &records, &vec![Access::Granted, Access::Forbidden("no".to_string())]).is_err());
    let foreign = vec![Some(table(None)), Some(table(Some("01M")))];
    assert!(admit_tables(&changes, &foreign, &vec![Access::Granted, Access::Granted]).is_err());
}

#[test]
fn transactions_recall_a_receipt_only_for_the_admitted() {
    let changes = vec![change("t"), change("u")];
    let key = Header::Text("0190163a-86cb-7c4b-8a4b-1b6f3d9a2c11".to_string());
    let mut facts = TxnFacts { found: None, access: None, receipt: Found::Unasked };
    assert!(matches!(admit_transaction(&changes, &key, "f1", &facts), AdmissionStep::AskTables));
    facts.found = Some(vec![Some(table(None)), None]);
    assert!(matches!(
        admit_transaction(&changes, &key, "f1", &facts),
        AdmissionStep::Refuse(e) if e.kind == ErrorKind::NoSuchTable
    ));
    facts.found = Some(vec![Some(table(None)), Some(table(None))]);
    assert!(matches!(admit_transaction(&changes, &key, "f1", &facts), AdmissionStep::AskAccess));
    facts.access = Some(vec![Access::Granted, Access::Forbidden("no".to_string())]);
    assert!(matches!(
        admit_transaction(&changes, &key, "f1", &facts),
        AdmissionStep::Refuse(e) if e.kind == ErrorKind::Forbidden
    ));
    facts.access = Some(vec![Access::Granted, Access::Granted]);
    assert!(matches!(
        admit_transaction(&changes, &key, "f1", &facts),
        AdmissionStep::AskReceipt(k) if k == "0190163a-86cb-7c4b-8a4b-1b6f3d9a2c11"
    ));
    assert!(matches!(admit_transaction(&changes, &Header::Absent, "f1", &facts), AdmissionStep::Run));
    facts.receipt = Found::Missing;
    assert!(matches!(admit_transaction(&changes, &key, "f1", &facts), AdmissionStep::Run));
    facts.receipt = Found::Is("f1".to_string());
    assert!(matches!(admit_transaction(&changes, &key, "f1", &facts), AdmissionStep::Replay));
    assert!(matches!(admit_transaction(&changes, &key, "f2", &facts), AdmissionStep::Refuse(_)));
}

fn checked() -> TxnRun {
    let (run, actions) = TxnRun::start(2);
    assert!(matches!(actions[0], TxnAction::Load(0)));
    let (run, actions) = run.step(TxnEvent::Loaded { version: 3, violations: Vec::new() });
    assert!(matches!(actions[0], TxnAction::Load(1)));
    run
}

fn take(mut run: TxnRun, mut actions: Vec<TxnAction>, block_second: bool) -> (TxnRun, Vec<TxnAction>) {
    // Plays the outside world until the swap or the answer.
    loop {
        let event = match &actions[actions.len() - 1] {
            TxnAction::Build(_) => TxnEvent::Built,
            TxnAction::Judge(table) if block_second && *table == 1 => {
                TxnEvent::Judged(ContractDecision::Block(vec![record()], blocked()))
            }
            TxnAction::Judge(_) => TxnEvent::Judged(ContractDecision::Allow),
            TxnAction::Write { table, .. } => TxnEvent::Written(format!("f{table}")),
            _ => return (run, actions),
        };
        let (next, following) = run.step(event);
        run = next;
        actions = following;
    }
}

#[test]
fn transactions_swap_every_table_at_once() {
    let (run, actions) = checked().step(TxnEvent::Loaded { version: 7, violations: Vec::new() });
    let (run, actions) = take(run, actions, false);
    match &actions[0] {
        TxnAction::Swap { expected, staged, .. } => {
            assert_eq!(*expected, vec![3, 7]);
            assert_eq!(*staged, texts(&["f0", "f1"]));
        }
        other => panic!("{other:?}"),
    }
    let (_, actions) = run.step(TxnEvent::Swapped(SwapOutcome::Committed(None)));
    assert!(matches!(actions[0], TxnAction::Answer(TxnAnswer::Committed)));
}

#[test]
fn one_blocked_table_blocks_the_transaction() {
    let (run, actions) = checked().step(TxnEvent::Loaded { version: 7, violations: Vec::new() });
    let (_, actions) = take(run, actions, true);
    let last = &actions[actions.len() - 1];
    assert!(matches!(last, TxnAction::Answer(TxnAnswer::Blocked { table: 1, records, .. }) if records.len() == 1));
    assert!(actions[..actions.len() - 1].iter().all(|a| matches!(a, TxnAction::Discard(_))));
}

#[test]
fn one_unmet_requirement_refuses_the_transaction() {
    let (_, actions) = checked().step(TxnEvent::Loaded { version: 7, violations: texts(&["a.u: moved"]) });
    assert_eq!(actions.len(), 1);
    assert!(matches!(
        &actions[0],
        TxnAction::Answer(TxnAnswer::Error(e)) if e.kind == ErrorKind::CommitFailed
    ));
}

#[test]
fn warnings_land_with_the_swap() {
    let (run, _) = checked().step(TxnEvent::Loaded { version: 7, violations: Vec::new() });
    let (run, _) = run.step(TxnEvent::Built);
    let (run, _) = run.step(TxnEvent::Judged(ContractDecision::Warn(vec![record(), warned()])));
    let (run, _) = run.step(TxnEvent::Written("f0".to_string()));
    let (run, _) = run.step(TxnEvent::Built);
    let (run, _) = run.step(TxnEvent::Judged(ContractDecision::Allow));
    let (_, actions) = run.step(TxnEvent::Written("f1".to_string()));
    match &actions[0] {
        TxnAction::Swap { records, .. } => {
            let ids: Vec<&str> = records.iter().map(|r| r.contract_id.as_str()).collect();
            assert_eq!(ids, ["01C", "01W"]);
        }
        other => panic!("{other:?}"),
    }
}
