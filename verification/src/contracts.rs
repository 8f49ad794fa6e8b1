//! Data contracts: what a commit that violates one comes to.

use vstd::prelude::*;

use crate::error;
use crate::error::ErrorKind;
use crate::text;
use crate::text::{cat4, quote, same};

verus! {

/// What happens to a commit that violates a contract.
#[derive(Clone, Copy, Debug, PartialEq, Eq, Structural)]
pub enum EnforcementMode {
    /// It lands; the violation is recorded.
    Warn,
    /// It lands on a branch of its own; the main line stays where it is.
    Quarantine,
    /// It is refused.
    Block,
}

/// How strict a mode is.
pub open spec fn strictness(mode: EnforcementMode) -> int {
    match mode {
        EnforcementMode::Warn => 0,
        EnforcementMode::Quarantine => 1,
        EnforcementMode::Block => 2,
    }
}

/// The wire name of a mode.
pub open spec fn mode_name(mode: EnforcementMode) -> Seq<char> {
    match mode {
        EnforcementMode::Warn => "warn"@,
        EnforcementMode::Quarantine => "quarantine"@,
        EnforcementMode::Block => "block"@,
    }
}

/// The mode of a wire name.
pub open spec fn mode_of(name: Seq<char>) -> Option<EnforcementMode> {
    if name == "warn"@ {
        Some(EnforcementMode::Warn)
    } else if name == "quarantine"@ {
        Some(EnforcementMode::Quarantine)
    } else if name == "block"@ {
        Some(EnforcementMode::Block)
    } else {
        None
    }
}

impl EnforcementMode {
    /// The mode of a wire name.
    pub fn parse(name: &str) -> (r: Option<EnforcementMode>)
        ensures
            r == mode_of(name@),
    {
        if same(name, "warn") {
            Some(EnforcementMode::Warn)
        } else if same(name, "quarantine") {
            Some(EnforcementMode::Quarantine)
        } else if same(name, "block") {
            Some(EnforcementMode::Block)
        } else {
            None
        }
    }

    /// The wire name of a mode.
    pub fn as_str(self) -> (r: &'static str)
        ensures
            r@ == mode_name(self),
    {
        match self {
            EnforcementMode::Warn => "warn",
            EnforcementMode::Quarantine => "quarantine",
            EnforcementMode::Block => "block",
        }
    }

    fn rank(self) -> (r: u8)
        ensures
            r == strictness(self),
    {
        match self {
            EnforcementMode::Warn => 0,
            EnforcementMode::Quarantine => 1,
            EnforcementMode::Block => 2,
        }
    }
}

/// Every mode is read back from its wire name.
pub proof fn mode_names_round_trip(mode: EnforcementMode)
    ensures
        mode_of(mode_name(mode)) == Some(mode),
{
    reveal_strlit("warn");
    reveal_strlit("quarantine");
    reveal_strlit("block");
    assert("warn"@.len() == 4 && "quarantine"@.len() == 10 && "block"@.len() == 5);
}

/// A mode is read off its wire name, and off nothing else.
pub proof fn modes_are_read(name: Seq<char>)
    ensures
        mode_of(name) == Some(EnforcementMode::Warn) <==> name == "warn"@,
        mode_of(name) == Some(EnforcementMode::Quarantine) <==> name == "quarantine"@,
        mode_of(name) == Some(EnforcementMode::Block) <==> name == "block"@,
{
    reveal_strlit("warn");
    reveal_strlit("quarantine");
    reveal_strlit("block");
    assert("warn"@.len() == 4 && "quarantine"@.len() == 10 && "block"@.len() == 5);
}

/// One way in which a commit violates a contract.
#[derive(Debug)]
pub struct Violation {
    /// Which rule it violates.
    pub kind: String,
    /// How.
    pub detail: String,
}

/// A contract that is bound to a table, with what the staged candidate
/// violates of it.
#[derive(Debug)]
pub struct EvaluatedContract {
    /// ULID of the contract.
    pub id: String,
    /// Its name.
    pub name: String,
    /// Its mode.
    pub mode: EnforcementMode,
    /// The branch that a quarantined commit lands on.
    pub quarantine_branch: String,
    /// What the candidate violates of it.
    pub violations: Vec<Violation>,
}

/// What became of a commit that violated a contract.
#[derive(Clone, Copy, Debug, PartialEq, Eq, Structural)]
pub enum ViolationOutcome {
    /// It landed.
    Warned,
    /// It landed on the quarantine branch.
    Quarantined,
    /// It was refused.
    Blocked,
}

/// The record of a violation.
#[derive(Debug)]
pub struct ViolationRecord {
    /// The contract.
    pub contract_id: String,
    /// Its name.
    pub contract_name: String,
    /// The table.
    pub table_id: String,
    /// The snapshot that the commit would make current.
    pub snapshot_id: Option<i64>,
    /// The contract's mode.
    pub mode: EnforcementMode,
    /// What became of the commit.
    pub outcome: ViolationOutcome,
    /// The violations.
    pub violations: Vec<Violation>,
}

/// What the answer to a blocked commit says.
#[derive(Debug)]
pub struct BlockedCommit {
    /// The contract.
    pub contract_id: String,
    /// Its name.
    pub contract_name: String,
    /// The mode that decided.
    pub mode: EnforcementMode,
    /// The violations.
    pub violations: Vec<Violation>,
}

/// What the contracts of a table make of a commit. Every violated contract has
/// a record, whichever of them decides.
#[derive(Debug)]
pub enum ContractDecision {
    /// No contract is violated.
    Allow,
    /// The commit lands; the records are written with it.
    Warn(Vec<ViolationRecord>),
    /// The commit lands on the named branch; the records are written with it.
    /// Where it cannot be moved there, it is refused with the answer given here.
    Quarantine(Vec<ViolationRecord>, String, BlockedCommit),
    /// The commit is refused; the records are written for themselves.
    Block(Vec<ViolationRecord>, BlockedCommit),
}

/// What violations say.
pub open spec fn told(violations: Seq<Violation>) -> Seq<(Seq<char>, Seq<char>)> {
    violations.map_values(|v: Violation| (v.kind@, v.detail@))
}

fn copy_violations(violations: &Vec<Violation>) -> (r: Vec<Violation>)
    ensures
        told(r@) == told(violations@),
{
    let mut out: Vec<Violation> = Vec::new();
    let mut i: usize = 0;
    while i < violations.len()
        invariant
            i <= violations@.len(),
            told(out@) == told(violations@.take(i as int)),
        decreases violations@.len() - i,
    {
        let ghost before = out@;
        let v = &violations[i];
        out.push(Violation { kind: v.kind.clone(), detail: v.detail.clone() });
        assert(told(out@) =~= told(before).push((v.kind@, v.detail@)));
        assert(told(violations@.take(i + 1)) =~= told(violations@.take(i as int)).push((v.kind@, v.detail@)));
        i = i + 1;
    }
    assert(violations@.take(violations@.len() as int) =~= violations@);
    out
}

/// Whether the candidate violates the contract at place `i`.
pub open spec fn violated(contracts: Seq<EvaluatedContract>, i: int) -> bool {
    0 <= i < contracts.len() && contracts[i].violations@.len() > 0
}

/// Whether the contract at place `i` decides: it is violated, no violated one
/// is stricter, and no earlier violated one is as strict.
pub open spec fn decides(contracts: Seq<EvaluatedContract>, i: int) -> bool {
    &&& violated(contracts, i)
    &&& forall|j: int|
        #[trigger] violated(contracts, j) ==> if j < i {
            strictness(contracts[j].mode) < strictness(contracts[i].mode)
        } else {
            strictness(contracts[j].mode) <= strictness(contracts[i].mode)
        }
}

/// What becomes of a commit that a contract of this mode decides on.
pub open spec fn outcome_of(mode: EnforcementMode) -> ViolationOutcome {
    match mode {
        EnforcementMode::Warn => ViolationOutcome::Warned,
        EnforcementMode::Quarantine => ViolationOutcome::Quarantined,
        EnforcementMode::Block => ViolationOutcome::Blocked,
    }
}

/// Whether `blocked` is the refusal that names this contract.
pub open spec fn is_refusal_by(blocked: BlockedCommit, contract: EvaluatedContract) -> bool {
    &&& blocked.contract_id@ == contract.id@
    &&& blocked.contract_name@ == contract.name@
    &&& blocked.mode == EnforcementMode::Block
    &&& told(blocked.violations@) == told(contract.violations@)
}

/// The violated contracts, in their order.
pub open spec fn violated_ones(contracts: Seq<EvaluatedContract>) -> Seq<EvaluatedContract> {
    contracts.filter(|c: EvaluatedContract| c.violations@.len() > 0)
}

/// Whether there is one record for each violated contract, in their order.
pub open spec fn are_records_of(
    records: Seq<ViolationRecord>,
    contracts: Seq<EvaluatedContract>,
    table_id: Seq<char>,
    head: Option<i64>,
    outcome: ViolationOutcome,
) -> bool {
    &&& records.len() == violated_ones(contracts).len()
    &&& forall|i: int|
        0 <= i < records.len() ==> is_record_of(
            #[trigger] records[i],
            violated_ones(contracts)[i],
            table_id,
            head,
            outcome,
        )
}

/// The records that a decision holds.
pub open spec fn records_in(decision: ContractDecision) -> Seq<ViolationRecord> {
    match decision {
        ContractDecision::Allow => seq![],
        ContractDecision::Warn(records) => records@,
        ContractDecision::Quarantine(records, _branch, _blocked) => records@,
        ContractDecision::Block(records, _blocked) => records@,
    }
}

/// Whether `decision` is what the contract at place `i`, which decides, makes
/// of the commit.
pub open spec fn follows_from(
    decision: ContractDecision,
    contracts: Seq<EvaluatedContract>,
    i: int,
    table_id: Seq<char>,
    head: Option<i64>,
) -> bool {
    let contract = contracts[i];
    &&& are_records_of(records_in(decision), contracts, table_id, head, outcome_of(contract.mode))
    &&& match contract.mode {
        EnforcementMode::Warn => decision is Warn,
        EnforcementMode::Quarantine => decision matches ContractDecision::Quarantine(_records, branch, blocked)
            && branch@ == contract.quarantine_branch@ && is_refusal_by(blocked, contract),
        EnforcementMode::Block => decision matches ContractDecision::Block(_records, blocked) && is_refusal_by(
            blocked,
            contract,
        ),
    }
}

/// Whether `record` is the record of the contract's violations.
pub open spec fn is_record_of(
    record: ViolationRecord,
    contract: EvaluatedContract,
    table_id: Seq<char>,
    head: Option<i64>,
    outcome: ViolationOutcome,
) -> bool {
    &&& record.contract_id == contract.id
    &&& record.contract_name == contract.name
    &&& record.table_id@ == table_id
    &&& record.snapshot_id == head
    &&& record.mode == contract.mode
    &&& record.outcome == outcome
    &&& record.violations == contract.violations
}

/// Decides what the contracts of a table make of a commit. `comparable` says
/// whether both the base and the candidate have a current schema; without one
/// there is nothing to compare. The strictest violated mode decides, and among
/// equally strict contracts the first; every violated contract is recorded.
pub fn decide_contracts(
    table_id: &str,
    comparable: bool,
    head_snapshot: Option<i64>,
    contracts: Vec<EvaluatedContract>,
) -> (r: ContractDecision)
    ensures
        if !comparable || forall|i: int| !#[trigger] violated(contracts@, i) {
            r is Allow
        } else {
            exists|i: int| #[trigger] decides(contracts@, i) && follows_from(
                r,
                contracts@,
                i,
                table_id@,
                head_snapshot,
            )
        },
{
    if !comparable {
        return ContractDecision::Allow;
    }
    let ghost all = contracts@;
    let mut fate: Option<usize> = None;
    let mut i: usize = 0;
    while i < contracts.len()
        invariant
            i <= contracts@.len(),
            all == contracts@,
            match fate {
                None => forall|j: int| 0 <= j < i ==> !#[trigger] violated(all, j),
                Some(k) => {
                    &&& k < i
                    &&& violated(all, k as int)
                    &&& forall|j: int|
                        0 <= j < i && #[trigger] violated(all, j) ==> if j < k {
                            strictness(all[j].mode) < strictness(all[k as int].mode)
                        } else {
                            strictness(all[j].mode) <= strictness(all[k as int].mode)
                        }
                },
            },
        decreases contracts@.len() - i,
    {
        if contracts[i].violations.len() > 0 {
            assert(violated(all, i as int));
            match fate {
                None => {
                    fate = Some(i);
                },
                Some(k) => {
                    if contracts[i].mode.rank() > contracts[k].mode.rank() {
                        fate = Some(i);
                    }
                },
            }
        } else {
            assert(!violated(all, i as int));
        }
        i = i + 1;
    }
    let k = match fate {
        None => {
            assert forall|j: int| !#[trigger] violated(all, j) by {
                assert(j < 0 || j >= all.len() || !violated(all, j));
            }
            return ContractDecision::Allow;
        },
        Some(k) => k,
    };
    assert(decides(all, k as int));
    assert(violated(all, k as int));
    let mode = contracts[k].mode;
    let branch = contracts[k].quarantine_branch.clone();
    let blocked = BlockedCommit {
        contract_id: contracts[k].id.clone(),
        contract_name: contracts[k].name.clone(),
        mode: EnforcementMode::Block,
        violations: copy_violations(&contracts[k].violations),
    };
    let outcome = match mode {
        EnforcementMode::Warn => ViolationOutcome::Warned,
        EnforcementMode::Quarantine => ViolationOutcome::Quarantined,
        EnforcementMode::Block => ViolationOutcome::Blocked,
    };
    let records = record_all(table_id, head_snapshot, outcome, contracts);
    match mode {
        EnforcementMode::Warn => ContractDecision::Warn(records),
        EnforcementMode::Quarantine => ContractDecision::Quarantine(records, branch, blocked),
        EnforcementMode::Block => ContractDecision::Block(records, blocked),
    }
}

fn record_all(
    table_id: &str,
    head_snapshot: Option<i64>,
    outcome: ViolationOutcome,
    contracts: Vec<EvaluatedContract>,
) -> (r: Vec<ViolationRecord>)
    ensures
        are_records_of(r@, contracts@, table_id@, head_snapshot, outcome),
{
    let ghost all = contracts@;
    let mut out: Vec<ViolationRecord> = Vec::new();
    proof {
        reveal(Seq::filter);
    }
    for contract in it: contracts
        invariant
            it.seq() == all,
            are_records_of(out@, all.take(it.index()), table_id@, head_snapshot, outcome),
    {
        let ghost before = out@;
        let ghost earlier = violated_ones(all.take(it.index()));
        proof {
            reveal(Seq::filter);
            assert(all.take(it.index() + 1).drop_last() =~= all.take(it.index()));
            assert(violated_ones(all.take(it.index() + 1)) =~= if contract.violations@.len() > 0 {
                earlier.push(contract)
            } else {
                earlier
            });
        }
        if contract.violations.len() > 0 {
            out.push(
                ViolationRecord {
                    contract_id: contract.id,
                    contract_name: contract.name,
                    table_id: table_id.to_owned(),
                    snapshot_id: head_snapshot,
                    mode: contract.mode,
                    outcome,
                    violations: contract.violations,
                },
            );
            assert forall|i: int| 0 <= i < out@.len() implies is_record_of(
                #[trigger] out@[i],
                violated_ones(all.take(it.index() + 1))[i],
                table_id@,
                head_snapshot,
                outcome,
            ) by {
                if i < before.len() {
                    assert(out@[i] == before[i]);
                }
            }
        }
    }
    assert(all.take(all.len() as int) =~= all);
    out
}

/// Exactly one contract decides.
pub proof fn one_contract_decides(contracts: Seq<EvaluatedContract>, i: int, j: int)
    requires
        decides(contracts, i),
        decides(contracts, j),
    ensures
        i == j,
{
    assert(violated(contracts, i) && violated(contracts, j));
}

/// Block wins over quarantine, and quarantine over warn: where a violated
/// contract blocks, the commit is refused, whatever the others say.
pub proof fn strictest_mode_decides(
    contracts: Seq<EvaluatedContract>,
    i: int,
    j: int,
    decision: ContractDecision,
    table_id: Seq<char>,
    head: Option<i64>,
)
    requires
        decides(contracts, i),
        follows_from(decision, contracts, i, table_id, head),
        violated(contracts, j),
    ensures
        contracts[j].mode == EnforcementMode::Block ==> decision is Block,
        contracts[j].mode == EnforcementMode::Quarantine ==> decision is Block || decision is Quarantine,
{
}

/// What a decision is. A commit is blocked exactly where a violated contract is
/// in block mode; it is quarantined exactly where one is in quarantine mode and
/// none in block mode; it is warned of exactly where only contracts in warn mode
/// are violated. A quarantine goes to the branch of the first violated contract
/// in quarantine mode, and a refusal names the first violated one of the deciding
/// mode. The records say what became of the commit.
pub proof fn decisions_follow_the_modes(
    contracts: Seq<EvaluatedContract>,
    i: int,
    decision: ContractDecision,
    table_id: Seq<char>,
    head: Option<i64>,
)
    requires
        decides(contracts, i),
        follows_from(decision, contracts, i, table_id, head),
    ensures
        decision is Block <==> some_violated(contracts, EnforcementMode::Block),
        decision is Quarantine <==> !some_violated(contracts, EnforcementMode::Block) && some_violated(
            contracts,
            EnforcementMode::Quarantine,
        ),
        decision is Warn <==> !some_violated(contracts, EnforcementMode::Block) && !some_violated(
            contracts,
            EnforcementMode::Quarantine,
        ),
        !(decision is Allow),
        match decision {
            ContractDecision::Allow => false,
            ContractDecision::Warn(records) => all_end_as(records@, ViolationOutcome::Warned),
            ContractDecision::Quarantine(records, branch, blocked) => {
                &&& all_end_as(records@, ViolationOutcome::Quarantined)
                &&& is_first_violated(contracts, i, EnforcementMode::Quarantine)
                &&& branch@ == contracts[i].quarantine_branch@
                &&& blocked.contract_id@ == contracts[i].id@
                &&& blocked.mode == EnforcementMode::Block
            },
            ContractDecision::Block(records, blocked) => {
                &&& all_end_as(records@, ViolationOutcome::Blocked)
                &&& is_first_violated(contracts, i, EnforcementMode::Block)
                &&& blocked.contract_id@ == contracts[i].id@
                &&& blocked.contract_name@ == contracts[i].name@
                &&& blocked.mode == EnforcementMode::Block
            },
        },
{
    assert(violated(contracts, i));
    if some_violated(contracts, EnforcementMode::Block) {
        let j = choose|j: int| #[trigger] violated(contracts, j) && contracts[j].mode == EnforcementMode::Block;
        assert(violated(contracts, j));
    }
    if some_violated(contracts, EnforcementMode::Quarantine) {
        let j = choose|j: int| #[trigger] violated(contracts, j) && contracts[j].mode == EnforcementMode::Quarantine;
        assert(violated(contracts, j));
    }
    let records = records_in(decision);
    assert forall|k: int| 0 <= k < records.len() implies (#[trigger] records[k]).outcome == outcome_of(
        contracts[i].mode,
    ) by {
        assert(is_record_of(records[k], violated_ones(contracts)[k], table_id, head, outcome_of(contracts[i].mode)));
    }
}

/// Whether a contract of this mode is violated.
pub open spec fn some_violated(contracts: Seq<EvaluatedContract>, mode: EnforcementMode) -> bool {
    exists|j: int| #[trigger] violated(contracts, j) && contracts[j].mode == mode
}

/// Whether the contract at place `i` is the first violated one of this mode.
pub open spec fn is_first_violated(contracts: Seq<EvaluatedContract>, i: int, mode: EnforcementMode) -> bool {
    &&& violated(contracts, i)
    &&& contracts[i].mode == mode
    &&& forall|j: int| #[trigger] violated(contracts, j) && contracts[j].mode == mode ==> i <= j
}

/// Whether the records all say that this became of the commit.
pub open spec fn all_end_as(records: Seq<ViolationRecord>, outcome: ViolationOutcome) -> bool {
    forall|k: int| 0 <= k < records.len() ==> (#[trigger] records[k]).outcome == outcome
}

/// Every violated contract gets a record, whichever contract decides: precedence
/// only picks what becomes of the commit and what the answer says.
pub proof fn every_violation_is_recorded(
    contracts: Seq<EvaluatedContract>,
    i: int,
    j: int,
    decision: ContractDecision,
    table_id: Seq<char>,
    head: Option<i64>,
)
    requires
        decides(contracts, i),
        follows_from(decision, contracts, i, table_id, head),
        violated(contracts, j),
    ensures
        exists|k: int|
            0 <= k < records_in(decision).len() && is_record_of(
                #[trigger] records_in(decision)[k],
                contracts[j],
                table_id,
                head,
                outcome_of(contracts[i].mode),
            ),
{
    let keep = |c: EvaluatedContract| c.violations@.len() > 0;
    broadcast use vstd::seq_lib::group_filter_ensures;

    assert(keep(contracts[j]));
    assert(contracts.filter(keep).contains(contracts[j]));
    let k = choose|k: int| 0 <= k < violated_ones(contracts).len() && violated_ones(contracts)[k] == contracts[j];
    assert(is_record_of(
        records_in(decision)[k],
        violated_ones(contracts)[k],
        table_id,
        head,
        outcome_of(contracts[i].mode),
    ));
}

/// The record of a commit that was refused in the end: the contract that the
/// refusal names is recorded with the refusal's mode.
pub open spec fn refused_record(record: ViolationRecord, blocked: BlockedCommit) -> ViolationRecord {
    ViolationRecord {
        mode: if record.contract_id@ == blocked.contract_id@ {
            blocked.mode
        } else {
            record.mode
        },
        outcome: ViolationOutcome::Blocked,
        ..record
    }
}

/// The records of a commit that was refused in the end.
pub open spec fn all_refused(records: Seq<ViolationRecord>, blocked: BlockedCommit) -> Seq<ViolationRecord> {
    records.map_values(|record: ViolationRecord| refused_record(record, blocked))
}

/// Turns the records of a quarantine into those of a refusal.
pub fn degrade(records: Vec<ViolationRecord>, blocked: &BlockedCommit) -> (r: Vec<ViolationRecord>)
    ensures
        r@ == all_refused(records@, *blocked),
{
    let ghost all = records@;
    let mut out: Vec<ViolationRecord> = Vec::new();
    for record in it: records
        invariant
            it.seq() == all,
            out@ == all_refused(all.take(it.index()), *blocked),
    {
        let mode = if same(record.contract_id.as_str(), blocked.contract_id.as_str()) {
            blocked.mode
        } else {
            record.mode
        };
        out.push(ViolationRecord { mode, outcome: ViolationOutcome::Blocked, ..record });
        assert(all_refused(all.take(it.index() + 1), *blocked) =~= all_refused(all.take(it.index()), *blocked).push(
            refused_record(record, *blocked),
        ));
    }
    assert(all.take(all.len() as int) =~= all);
    out
}

/// The message of a blocked commit: the contract, and the first violation.
pub open spec fn blocked_message(blocked: BlockedCommit) -> Seq<char> {
    "commit blocked by data contract "@ + text::quoted(blocked.contract_name@) + ": "@
        + (if blocked.violations@.len() > 0 {
        blocked.violations@[0].detail@
    } else {
        "contract violated"@
    })
}

/// The message of a blocked commit's 409.
pub fn blocked_commit_message(blocked: &BlockedCommit) -> (r: String)
    ensures
        r@ == blocked_message(*blocked),
{
    let first = if blocked.violations.len() > 0 {
        blocked.violations[0].detail.as_str()
    } else {
        "contract violated"
    };
    cat4("commit blocked by data contract ", quote(blocked.contract_name.as_str()).as_str(), ": ", first)
}

} // verus!
