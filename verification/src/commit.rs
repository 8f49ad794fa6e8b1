//! The commit of one table.
//!
//! A commit loads the table's pointer and metadata, checks the requirements,
//! stages a candidate file, lets the table's data contracts judge it, and then
//! swaps the pointer. A lost swap starts over, a bounded number of times.
//! [`CommitRun`] holds where a commit stands; [`CommitRun::step`] says, for
//! what just happened, what to do next.

use vstd::prelude::*;

use crate::contracts;
use crate::contracts::{degrade, BlockedCommit, ContractDecision, ViolationRecord};
use crate::error;
use crate::error::{ApiError, ErrorKind, StoreError};
use crate::table_routes;
use crate::table_routes::{map_build_error, storage_to_api, MetadataBuildError, StorageError};
use crate::tables;
use crate::tables::key_reuse_error;
use crate::text;
use crate::text::{cat3, join};

verus! {

/// How often a commit that lost the swap is tried in all.
pub const MAX_COMMIT_ATTEMPTS: u32 = 3;

// ---------------------------------------------------------------------------
// Failures of the commit backend
// ---------------------------------------------------------------------------

/// Why the backend did not commit.
#[derive(Debug)]
pub enum CommitBackendError {
    /// There is no such table.
    TableNotFound(String),
    /// The pointer moved since it was loaded; the text says how.
    VersionConflict(String),
    /// The idempotency key was used for another request.
    IdempotencyKeyReuse(String),
    /// A table is in the commit twice.
    DuplicateTable(String),
    /// The commit changes nothing.
    EmptyCommit,
    /// The store did not answer; nothing was applied.
    Unavailable,
    /// Whether the commit was applied is unknown.
    StateUnknown,
}

/// A backend failure as the commit routes answer it.
pub open spec fn backend_failure(error: CommitBackendError) -> error::ErrorView {
    match error {
        CommitBackendError::TableNotFound(table) => error::error_of(
            ErrorKind::NoSuchTable,
            "table "@ + table@ + " does not exist"@,
        ),
        CommitBackendError::VersionConflict(m) => error::error_of(ErrorKind::CommitFailed, m@),
        CommitBackendError::IdempotencyKeyReuse(key) => tables::key_reuse(key@),
        CommitBackendError::DuplicateTable(table) => error::bad_request(
            "table "@ + table@ + " appears more than once in the transaction"@,
        ),
        CommitBackendError::EmptyCommit => error::bad_request("a commit must contain at least one table change"@),
        CommitBackendError::Unavailable => error::error_of(
            ErrorKind::ServiceUnavailable,
            "the catalog store is temporarily unavailable; nothing was applied"@,
        ),
        CommitBackendError::StateUnknown => error::error_of(
            ErrorKind::CommitStateUnknown,
            "the commit outcome could not be determined; retry with the same Idempotency-Key"@,
        ),
    }
}

/// Maps a backend failure onto the answer.
pub fn backend_to_api(error: &CommitBackendError) -> (r: ApiError)
    ensures
        r@ == backend_failure(*error),
{
    match error {
        CommitBackendError::TableNotFound(table) => ApiError::new(
            ErrorKind::NoSuchTable,
            cat3("table ", table.as_str(), " does not exist").as_str(),
        ),
        CommitBackendError::VersionConflict(m) => ApiError::new(ErrorKind::CommitFailed, m.as_str()),
        CommitBackendError::IdempotencyKeyReuse(key) => key_reuse_error(key.as_str()),
        CommitBackendError::DuplicateTable(table) => ApiError::bad_request(
            cat3("table ", table.as_str(), " appears more than once in the transaction").as_str(),
        ),
        CommitBackendError::EmptyCommit => ApiError::bad_request("a commit must contain at least one table change"),
        CommitBackendError::Unavailable => ApiError::new(
            ErrorKind::ServiceUnavailable,
            "the catalog store is temporarily unavailable; nothing was applied",
        ),
        CommitBackendError::StateUnknown => ApiError::new(
            ErrorKind::CommitStateUnknown,
            "the commit outcome could not be determined; retry with the same Idempotency-Key",
        ),
    }
}

/// A backend failure is answered by its kind: a missing table as missing, a
/// moved pointer as a failed commit, a commit that cannot be as a bad request,
/// an unknown outcome as unknown, and a store that does not answer as
/// unavailable.
pub proof fn backend_failures_are_told(error: CommitBackendError)
    ensures
        match error {
            CommitBackendError::TableNotFound(_) => backend_failure(error).kind == ErrorKind::NoSuchTable,
            CommitBackendError::VersionConflict(m) => backend_failure(error).kind == ErrorKind::CommitFailed
                && backend_failure(error).message == m@,
            CommitBackendError::IdempotencyKeyReuse(key) => backend_failure(error) == tables::key_reuse(key@),
            CommitBackendError::DuplicateTable(_) => backend_failure(error).kind == ErrorKind::BadRequest,
            CommitBackendError::EmptyCommit => backend_failure(error).kind == ErrorKind::BadRequest,
            CommitBackendError::Unavailable => backend_failure(error).kind == ErrorKind::ServiceUnavailable,
            CommitBackendError::StateUnknown => backend_failure(error).kind == ErrorKind::CommitStateUnknown,
        },
{
}

// ---------------------------------------------------------------------------
// Requirements
// ---------------------------------------------------------------------------

/// The violations of a table's requirements, each with the table's name ahead.
pub open spec fn named_faults(ident: Seq<char>, faults: Seq<Seq<char>>) -> Seq<Seq<char>> {
    faults.map_values(|f: Seq<char>| ident + ": "@ + f)
}

/// Adds the violations of a table's requirements to those collected so far.
/// `faults` holds, for each requirement that does not hold, what is violated.
pub fn check_requirements(ident: &str, faults: &Vec<String>, violations: &mut Vec<String>)
    ensures
        text::texts(final(violations)@) == text::texts(old(violations)@) + named_faults(
            ident@,
            text::texts(faults@),
        ),
{
    let ghost before = text::texts(violations@);
    let ghost added = named_faults(ident@, text::texts(faults@));
    let mut i: usize = 0;
    while i < faults.len()
        invariant
            i <= faults@.len(),
            added == named_faults(ident@, text::texts(faults@)),
            text::texts(violations@) == before + added.take(i as int),
        decreases faults@.len() - i,
    {
        let ghost so_far = violations@;
        violations.push(cat3(ident, ": ", faults[i].as_str()));
        assert(text::texts(violations@) =~= text::texts(so_far).push(added[i as int]));
        assert(added.take(i + 1) =~= added.take(i as int).push(added[i as int]));
        i = i + 1;
    }
    assert(added.take(faults@.len() as int) =~= added);
}

/// The refusal of a commit whose requirements do not hold: every violation is
/// named.
pub open spec fn requirements_error(violations: Seq<Seq<char>>) -> error::ErrorView {
    error::error_of(ErrorKind::CommitFailed, text::join_with(violations, "; "@))
}

/// The refusal names every violation: that of a longer list is that of the
/// shorter one with the next violation behind it.
pub proof fn every_violation_is_named(violations: Seq<Seq<char>>, next: Seq<char>)
    ensures
        requirements_error(seq![next]).message == next,
        violations.len() > 0 ==> requirements_error(violations.push(next)).message == requirements_error(
            violations,
        ).message + "; "@ + next,
        requirements_error(violations).kind == ErrorKind::CommitFailed,
{
    assert(violations.push(next).drop_last() =~= violations);
}

/// Refuses a commit with violations.
pub fn requirements_hold(violations: &Vec<String>) -> (r: Result<(), ApiError>)
    ensures
        r is Ok == (violations@.len() == 0),
        r matches Err(e) ==> e@ == requirements_error(text::texts(violations@)),
{
    if violations.len() == 0 {
        Ok(())
    } else {
        Err(ApiError::new(ErrorKind::CommitFailed, join(violations, "; ").as_str()))
    }
}

// ---------------------------------------------------------------------------
// The state machine
// ---------------------------------------------------------------------------

/// Which pointer the commit moves.
#[derive(Clone, Copy, Debug, PartialEq, Eq, Structural)]
pub enum Target {
    /// The table's own.
    Main,
    /// The table's pointer on a branch. Contracts gate the merge of a branch,
    /// not the commits to it.
    Branch,
}

/// Where a commit stands.
#[derive(Debug)]
pub enum Phase {
    /// The pointer and the base metadata are being loaded.
    Loading,
    /// The candidate is being built on the base of this version, and staged.
    Staging {
        /// The version of the pointer that the candidate builds on.
        version: u64,
    },
    /// The contracts are judging the staged candidate.
    Judging {
        /// The version of the pointer that the candidate builds on.
        version: u64,
        /// The staged file.
        staged: String,
    },
    /// The candidate is being retargeted onto a quarantine branch.
    Retargeting {
        /// The version of the pointer that the candidate builds on.
        version: u64,
        /// The staged file.
        staged: String,
        /// The records to write with the swap.
        records: Vec<ViolationRecord>,
        /// The refusal, where the candidate cannot be retargeted.
        blocked: BlockedCommit,
    },
    /// The pointer is being swapped to the staged file.
    Swapping {
        /// The version that the pointer must still have.
        version: u64,
        /// The staged file.
        staged: String,
    },
    /// The answer was given.
    Finished,
}

/// A commit of one table.
#[derive(Debug)]
pub struct CommitRun {
    /// Which pointer it moves.
    pub target: Target,
    /// Which attempt this is, from 1 on.
    pub attempt: u32,
    /// Where it stands.
    pub phase: Phase,
}

/// What came of a swap.
#[derive(Debug)]
pub enum SwapOutcome {
    /// The pointer was moved; the version that the receipt names, if it names
    /// one.
    Committed(Option<u64>),
    /// The same request was committed already; its receipt was found.
    Replayed,
    /// The pointer was moved by another commit.
    VersionConflict,
    /// Whether the pointer was moved is unknown.
    StateUnknown,
    /// The backend failed; nothing was applied.
    Failed(CommitBackendError),
}

/// What just happened.
#[derive(Debug)]
pub enum CommitEvent {
    /// The base was loaded: its version, and the requirements that do not hold
    /// of it, each with the table's name ahead.
    Loaded {
        /// The version of the pointer.
        version: u64,
        /// The violated requirements.
        violations: Vec<String>,
    },
    /// The base could not be loaded.
    LoadFailed(ApiError),
    /// The candidate was staged at this location.
    Staged(String),
    /// The update list was refused; nothing was staged.
    BuildRefused(MetadataBuildError),
    /// The candidate could not be written; nothing was staged.
    StageFailed(StorageError),
    /// What the contracts make of the candidate.
    Judged(ContractDecision),
    /// The contracts could not be read.
    JudgeFailed(StoreError),
    /// The candidate adds no snapshot, so there is nothing to retarget.
    NothingToRetarget,
    /// The retargeted candidate was staged at this location.
    Restaged(String),
    /// The retargeted candidate could not be written.
    RestageFailed(StorageError),
    /// What came of the swap.
    Swapped(SwapOutcome),
}

/// The answer to a commit.
#[derive(Debug)]
pub enum CommitAnswer {
    /// The staged file is current, at this version.
    Committed {
        /// The file.
        location: String,
        /// The version that the entity tag names.
        version: i64,
    },
    /// The answer of the request that was committed already.
    Replay,
    /// A contract blocks the commit; the violations are recorded first.
    Blocked {
        /// What the answer says.
        blocked: BlockedCommit,
        /// The records to write.
        records: Vec<ViolationRecord>,
    },
    /// An error.
    Error(ApiError),
}

/// What to do next.
#[derive(Debug)]
pub enum CommitAction {
    /// Load the pointer and the base metadata.
    Load,
    /// Build the candidate and stage it for this version.
    Stage {
        /// The version that the candidate would have.
        version: u64,
    },
    /// Let the contracts judge the candidate.
    Judge,
    /// Retarget the candidate onto this branch, and stage it anew.
    Retarget {
        /// The branch.
        branch: String,
    },
    /// Swap the pointer from this version to the staged file.
    Swap {
        /// The file.
        staged: String,
        /// The version that the pointer must still have.
        expected: u64,
        /// The records to write with the swap.
        records: Vec<ViolationRecord>,
    },
    /// Delete the staged file.
    Discard(String),
    /// Give the answer.
    Answer(CommitAnswer),
}

/// The model of an answer.
pub enum AnswerView {
    /// The staged file is current, at this version.
    Committed(Seq<char>, i64),
    /// The answer of the request that was committed already.
    Replay,
    /// A contract blocks the commit.
    Blocked(BlockedCommit, Seq<ViolationRecord>),
    /// An error.
    Error(error::ErrorView),
}

impl View for CommitAnswer {
    type V = AnswerView;

    open spec fn view(&self) -> AnswerView {
        match *self {
            CommitAnswer::Committed { location, version } => AnswerView::Committed(location@, version),
            CommitAnswer::Replay => AnswerView::Replay,
            CommitAnswer::Blocked { blocked, records } => AnswerView::Blocked(blocked, records@),
            CommitAnswer::Error(e) => AnswerView::Error(e@),
        }
    }
}

/// The model of an action.
pub enum ActionView {
    /// Load the pointer and the base metadata.
    Load,
    /// Build the candidate and stage it for this version.
    Stage(int),
    /// Let the contracts judge the candidate.
    Judge,
    /// Retarget the candidate onto this branch.
    Retarget(Seq<char>),
    /// Swap the pointer from this version to the staged file.
    Swap(Seq<char>, u64, Seq<ViolationRecord>),
    /// Delete the staged file.
    Discard(Seq<char>),
    /// Give the answer.
    Answer(AnswerView),
}

impl View for CommitAction {
    type V = ActionView;

    open spec fn view(&self) -> ActionView {
        match *self {
            CommitAction::Load => ActionView::Load,
            CommitAction::Stage { version } => ActionView::Stage(version as int),
            CommitAction::Judge => ActionView::Judge,
            CommitAction::Retarget { branch } => ActionView::Retarget(branch@),
            CommitAction::Swap { staged, expected, records } => ActionView::Swap(staged@, expected, records@),
            CommitAction::Discard(staged) => ActionView::Discard(staged@),
            CommitAction::Answer(answer) => ActionView::Answer(answer@),
        }
    }
}

/// The models of actions.
pub open spec fn views(actions: Seq<CommitAction>) -> Seq<ActionView> {
    actions.map_values(|a: CommitAction| a@)
}

/// The version that a number of the store's type stands for in an entity tag.
pub open spec fn tag_version(version: int) -> i64 {
    if version <= i64::MAX {
        version as i64
    } else {
        i64::MAX
    }
}

/// The answer where every attempt lost the swap.
pub open spec fn race_lost(target: Target) -> error::ErrorView {
    match target {
        Target::Main => error::error_of(
            ErrorKind::CommitFailed,
            "commit lost the compare-and-set race 3 time(s); refresh table state and retry"@,
        ),
        Target::Branch => error::error_of(
            ErrorKind::CommitFailed,
            "branch commit lost the compare-and-set race 3 time(s); refresh and retry"@,
        ),
    }
}

/// The answer where it is unknown whether the swap was applied.
pub open spec fn outcome_unknown(target: Target) -> error::ErrorView {
    match target {
        Target::Main => error::error_of(
            ErrorKind::CommitStateUnknown,
            "the commit outcome could not be determined; retry with the same Idempotency-Key to resolve"@,
        ),
        Target::Branch => error::error_of(
            ErrorKind::CommitStateUnknown,
            "the branch commit outcome could not be determined; retry with the same Idempotency-Key to resolve"@,
        ),
    }
}

/// A commit with its answer given.
pub open spec fn finished(run: CommitRun) -> CommitRun {
    CommitRun { target: run.target, attempt: run.attempt, phase: Phase::Finished }
}

/// A commit in another phase of the same attempt.
pub open spec fn in_phase(run: CommitRun, phase: Phase) -> CommitRun {
    CommitRun { target: run.target, attempt: run.attempt, phase }
}

/// What follows a judgement of the staged candidate.
pub open spec fn judged_step(
    run: CommitRun,
    version: u64,
    staged: String,
    decision: ContractDecision,
) -> (CommitRun, Seq<ActionView>) {
    match decision {
        ContractDecision::Allow => (
            in_phase(run, Phase::Swapping { version, staged }),
            seq![ActionView::Swap(staged@, version, seq![])],
        ),
        ContractDecision::Warn(records) => (
            in_phase(run, Phase::Swapping { version, staged }),
            seq![ActionView::Swap(staged@, version, records@)],
        ),
        ContractDecision::Quarantine(records, branch, blocked) => (
            in_phase(run, Phase::Retargeting { version, staged, records, blocked }),
            seq![ActionView::Retarget(branch@)],
        ),
        ContractDecision::Block(records, blocked) => (
            finished(run),
            seq![ActionView::Discard(staged@), ActionView::Answer(AnswerView::Blocked(blocked, records@))],
        ),
    }
}

/// What follows a swap.
pub open spec fn swapped_step(
    run: CommitRun,
    version: u64,
    staged: String,
    outcome: SwapOutcome,
) -> (CommitRun, Seq<ActionView>) {
    match outcome {
        SwapOutcome::Committed(receipt) => {
            let at = match run.target {
                Target::Main => tag_version(version + 1),
                Target::Branch => match receipt {
                    Some(v) => tag_version(v as int),
                    None => 0i64,
                },
            };
            (finished(run), seq![ActionView::Answer(AnswerView::Committed(staged@, at))])
        },
        SwapOutcome::Replayed => (
            finished(run),
            seq![ActionView::Discard(staged@), ActionView::Answer(AnswerView::Replay)],
        ),
        SwapOutcome::VersionConflict => if run.attempt < MAX_COMMIT_ATTEMPTS {
            (
                CommitRun { target: run.target, attempt: (run.attempt + 1) as u32, phase: Phase::Loading },
                seq![ActionView::Discard(staged@), ActionView::Load],
            )
        } else {
            (
                finished(run),
                seq![ActionView::Discard(staged@), ActionView::Answer(AnswerView::Error(race_lost(run.target)))],
            )
        },
        SwapOutcome::StateUnknown => (
            finished(run),
            seq![ActionView::Answer(AnswerView::Error(outcome_unknown(run.target)))],
        ),
        SwapOutcome::Failed(e) => (
            finished(run),
            seq![ActionView::Discard(staged@), ActionView::Answer(AnswerView::Error(backend_failure(e)))],
        ),
    }
}

/// What follows an event. An event that does not belong to the phase changes
/// nothing.
pub open spec fn commit_step(run: CommitRun, event: CommitEvent) -> (CommitRun, Seq<ActionView>) {
    match run.phase {
        Phase::Loading => match event {
            CommitEvent::Loaded { version, violations } => if violations@.len() > 0 {
                (
                    finished(run),
                    seq![ActionView::Answer(AnswerView::Error(requirements_error(text::texts(violations@))))],
                )
            } else {
                (in_phase(run, Phase::Staging { version }), seq![ActionView::Stage(version + 1)])
            },
            CommitEvent::LoadFailed(e) => (finished(run), seq![ActionView::Answer(AnswerView::Error(e@))]),
            _ => (run, seq![]),
        },
        Phase::Staging { version } => match event {
            CommitEvent::Staged(staged) => match run.target {
                Target::Main => (in_phase(run, Phase::Judging { version, staged }), seq![ActionView::Judge]),
                Target::Branch => (
                    in_phase(run, Phase::Swapping { version, staged }),
                    seq![ActionView::Swap(staged@, version, seq![])],
                ),
            },
            CommitEvent::BuildRefused(e) => (
                finished(run),
                seq![ActionView::Answer(AnswerView::Error(table_routes::build_failure(e)))],
            ),
            CommitEvent::StageFailed(e) => (
                finished(run),
                seq![ActionView::Answer(AnswerView::Error(table_routes::storage_failure(e)))],
            ),
            _ => (run, seq![]),
        },
        Phase::Judging { version, staged } => match event {
            CommitEvent::Judged(decision) => judged_step(run, version, staged, decision),
            CommitEvent::JudgeFailed(e) => (
                finished(run),
                seq![
                    ActionView::Discard(staged@),
                    ActionView::Answer(AnswerView::Error(error::store_failure(e))),
                ],
            ),
            _ => (run, seq![]),
        },
        Phase::Retargeting { version, staged, records, blocked } => match event {
            CommitEvent::NothingToRetarget => (
                finished(run),
                seq![
                    ActionView::Discard(staged@),
                    ActionView::Answer(AnswerView::Blocked(blocked, contracts::all_refused(records@, blocked))),
                ],
            ),
            CommitEvent::Restaged(restaged) => (
                in_phase(run, Phase::Swapping { version, staged: restaged }),
                seq![ActionView::Discard(staged@), ActionView::Swap(restaged@, version, records@)],
            ),
            CommitEvent::RestageFailed(e) => (
                finished(run),
                seq![
                    ActionView::Discard(staged@),
                    ActionView::Answer(AnswerView::Error(table_routes::storage_failure(e))),
                ],
            ),
            _ => (run, seq![]),
        },
        Phase::Swapping { version, staged } => match event {
            CommitEvent::Swapped(outcome) => swapped_step(run, version, staged, outcome),
            _ => (run, seq![]),
        },
        Phase::Finished => (run, seq![]),
    }
}

/// Whether the commit is in order: its attempt is one of those allowed, and
/// the version it builds on has a next one.
pub open spec fn in_order(run: CommitRun) -> bool {
    &&& 1 <= run.attempt <= MAX_COMMIT_ATTEMPTS
    &&& match run.phase {
        Phase::Staging { version } => version < u64::MAX,
        Phase::Judging { version, staged: _ } => version < u64::MAX,
        Phase::Retargeting { version, staged: _, records: _, blocked: _ } => version < u64::MAX,
        Phase::Swapping { version, staged: _ } => version < u64::MAX,
        _ => true,
    }
}

fn as_tag_version(version: u64) -> (r: i64)
    ensures
        r == tag_version(version as int),
{
    if version <= 0x7fff_ffff_ffff_ffff {
        version as i64
    } else {
        i64::MAX
    }
}

fn race_lost_error(target: Target) -> (r: ApiError)
    ensures
        r@ == race_lost(target),
{
    match target {
        Target::Main => ApiError::new(
            ErrorKind::CommitFailed,
            "commit lost the compare-and-set race 3 time(s); refresh table state and retry",
        ),
        Target::Branch => ApiError::new(
            ErrorKind::CommitFailed,
            "branch commit lost the compare-and-set race 3 time(s); refresh and retry",
        ),
    }
}

fn outcome_unknown_error(target: Target) -> (r: ApiError)
    ensures
        r@ == outcome_unknown(target),
{
    match target {
        Target::Main => ApiError::new(
            ErrorKind::CommitStateUnknown,
            "the commit outcome could not be determined; retry with the same Idempotency-Key to resolve",
        ),
        Target::Branch => ApiError::new(
            ErrorKind::CommitStateUnknown,
            "the branch commit outcome could not be determined; retry with the same Idempotency-Key to resolve",
        ),
    }
}

fn one(action: CommitAction) -> (r: Vec<CommitAction>)
    ensures
        views(r@) == seq![action@],
{
    let mut out: Vec<CommitAction> = Vec::new();
    out.push(action);
    assert(views(out@) =~= seq![action@]);
    out
}

fn two(first: CommitAction, second: CommitAction) -> (r: Vec<CommitAction>)
    ensures
        views(r@) == seq![first@, second@],
{
    let mut out: Vec<CommitAction> = Vec::new();
    out.push(first);
    out.push(second);
    assert(views(out@) =~= seq![first@, second@]);
    out
}

fn none() -> (r: Vec<CommitAction>)
    ensures
        views(r@) == Seq::<ActionView>::empty(),
{
    let out: Vec<CommitAction> = Vec::new();
    assert(views(out@) =~= Seq::<ActionView>::empty());
    out
}

fn no_records() -> (r: Vec<ViolationRecord>)
    ensures
        r@ == Seq::<ViolationRecord>::empty(),
{
    Vec::new()
}

fn fail(e: ApiError) -> (r: CommitAction)
    ensures
        r@ == ActionView::Answer(AnswerView::Error(e@)),
{
    CommitAction::Answer(CommitAnswer::Error(e))
}

impl CommitRun {
    /// A commit that starts by loading the base.
    pub fn start(target: Target) -> (r: (CommitRun, Vec<CommitAction>))
        ensures
            r.0 == (CommitRun { target, attempt: 1, phase: Phase::Loading }),
            views(r.1@) == seq![ActionView::Load],
            in_order(r.0),
    {
        (CommitRun { target, attempt: 1, phase: Phase::Loading }, one(CommitAction::Load))
    }

    fn to(target: Target, attempt: u32, phase: Phase) -> (r: CommitRun)
        ensures
            r == (CommitRun { target, attempt, phase }),
    {
        CommitRun { target, attempt, phase }
    }

    /// Takes the step that follows an event.
    pub fn step(self, event: CommitEvent) -> (r: (CommitRun, Vec<CommitAction>))
        requires
            in_order(self),
            event matches CommitEvent::Loaded { version, violations } ==> version < u64::MAX,
        ensures
            r.0 == commit_step(self, event).0,
            views(r.1@) == commit_step(self, event).1,
            in_order(r.0),
    {
        let target = self.target;
        let attempt = self.attempt;
        match self.phase {
            Phase::Loading => match event {
                CommitEvent::Loaded { version, violations } => match requirements_hold(&violations) {
                    Err(e) => (CommitRun::to(target, attempt, Phase::Finished), one(fail(e))),
                    Ok(()) => (
                        CommitRun::to(target, attempt, Phase::Staging { version }),
                        one(CommitAction::Stage { version: version + 1 }),
                    ),
                },
                CommitEvent::LoadFailed(e) => (CommitRun::to(target, attempt, Phase::Finished), one(fail(e))),
                _ => (CommitRun::to(target, attempt, Phase::Loading), none()),
            },
            Phase::Staging { version } => match event {
                CommitEvent::Staged(staged) => match target {
                    Target::Main => (
                        CommitRun::to(target, attempt, Phase::Judging { version, staged }),
                        one(CommitAction::Judge),
                    ),
                    Target::Branch => {
                        let swap = CommitAction::Swap { staged: staged.clone(), expected: version, records: no_records() };
                        (CommitRun::to(target, attempt, Phase::Swapping { version, staged }), one(swap))
                    },
                },
                CommitEvent::BuildRefused(e) => (
                    CommitRun::to(target, attempt, Phase::Finished),
                    one(fail(map_build_error(&e))),
                ),
                CommitEvent::StageFailed(e) => (
                    CommitRun::to(target, attempt, Phase::Finished),
                    one(fail(storage_to_api(&e))),
                ),
                _ => (CommitRun::to(target, attempt, Phase::Staging { version }), none()),
            },
            Phase::Judging { version, staged } => match event {
                CommitEvent::Judged(decision) => match decision {
                    ContractDecision::Allow => {
                        let swap = CommitAction::Swap { staged: staged.clone(), expected: version, records: no_records() };
                        (CommitRun::to(target, attempt, Phase::Swapping { version, staged }), one(swap))
                    },
                    ContractDecision::Warn(records) => {
                        let swap = CommitAction::Swap { staged: staged.clone(), expected: version, records };
                        (CommitRun::to(target, attempt, Phase::Swapping { version, staged }), one(swap))
                    },
                    ContractDecision::Quarantine(records, branch, blocked) => (
                        CommitRun::to(target, attempt, Phase::Retargeting { version, staged, records, blocked }),
                        one(CommitAction::Retarget { branch }),
                    ),
                    ContractDecision::Block(records, blocked) => (
                        CommitRun::to(target, attempt, Phase::Finished),
                        two(
                            CommitAction::Discard(staged),
                            CommitAction::Answer(CommitAnswer::Blocked { blocked, records }),
                        ),
                    ),
                },
                CommitEvent::JudgeFailed(e) => (
                    CommitRun::to(target, attempt, Phase::Finished),
                    two(CommitAction::Discard(staged), fail(ApiError::from_store(&e))),
                ),
                _ => (CommitRun::to(target, attempt, Phase::Judging { version, staged }), none()),
            },
            Phase::Retargeting { version, staged, records, blocked } => match event {
                CommitEvent::NothingToRetarget => {
                    let records = degrade(records, &blocked);
                    (
                        CommitRun::to(target, attempt, Phase::Finished),
                        two(
                            CommitAction::Discard(staged),
                            CommitAction::Answer(CommitAnswer::Blocked { blocked, records }),
                        ),
                    )
                },
                CommitEvent::Restaged(restaged) => {
                    let swap = CommitAction::Swap { staged: restaged.clone(), expected: version, records };
                    (
                        CommitRun::to(target, attempt, Phase::Swapping { version, staged: restaged }),
                        two(CommitAction::Discard(staged), swap),
                    )
                },
                CommitEvent::RestageFailed(e) => (
                    CommitRun::to(target, attempt, Phase::Finished),
                    two(CommitAction::Discard(staged), fail(storage_to_api(&e))),
                ),
                _ => (
                    CommitRun::to(target, attempt, Phase::Retargeting { version, staged, records, blocked }),
                    none(),
                ),
            },
            Phase::Swapping { version, staged } => match event {
                CommitEvent::Swapped(outcome) => match outcome {
                    SwapOutcome::Committed(receipt) => {
                        let at: i64 = match target {
                            Target::Main => as_tag_version(version + 1),
                            Target::Branch => match receipt {
                                Some(v) => as_tag_version(v),
                                None => 0,
                            },
                        };
                        (
                            CommitRun::to(target, attempt, Phase::Finished),
                            one(CommitAction::Answer(CommitAnswer::Committed { location: staged, version: at })),
                        )
                    },
                    SwapOutcome::Replayed => (
                        CommitRun::to(target, attempt, Phase::Finished),
                        two(CommitAction::Discard(staged), CommitAction::Answer(CommitAnswer::Replay)),
                    ),
                    SwapOutcome::VersionConflict => if attempt < MAX_COMMIT_ATTEMPTS {
                        (
                            CommitRun::to(target, attempt + 1, Phase::Loading),
                            two(CommitAction::Discard(staged), CommitAction::Load),
                        )
                    } else {
                        (
                            CommitRun::to(target, attempt, Phase::Finished),
                            two(CommitAction::Discard(staged), fail(race_lost_error(target))),
                        )
                    },
                    SwapOutcome::StateUnknown => (
                        CommitRun::to(target, attempt, Phase::Finished),
                        one(fail(outcome_unknown_error(target))),
                    ),
                    SwapOutcome::Failed(e) => (
                        CommitRun::to(target, attempt, Phase::Finished),
                        two(CommitAction::Discard(staged), fail(backend_to_api(&e))),
                    ),
                },
                _ => (CommitRun::to(target, attempt, Phase::Swapping { version, staged }), none()),
            },
            Phase::Finished => (CommitRun::to(target, attempt, Phase::Finished), none()),
        }
    }
}

// ---------------------------------------------------------------------------
// What holds of every commit
// ---------------------------------------------------------------------------

/// The staged file that a commit holds.
pub open spec fn held(run: CommitRun) -> Option<Seq<char>> {
    match run.phase {
        Phase::Judging { version: _, staged } => Some(staged@),
        Phase::Retargeting { version: _, staged, records: _, blocked: _ } => Some(staged@),
        Phase::Swapping { version: _, staged } => Some(staged@),
        _ => None,
    }
}

/// The file that an event reports as newly staged.
pub open spec fn newly_staged(run: CommitRun, event: CommitEvent) -> Option<Seq<char>> {
    match run.phase {
        Phase::Staging { .. } => match event {
            CommitEvent::Staged(at) => Some(at@),
            _ => None,
        },
        Phase::Retargeting { .. } => match event {
            CommitEvent::Restaged(at) => Some(at@),
            _ => None,
        },
        _ => None,
    }
}

/// Whether the swap landed, or may have.
pub open spec fn may_have_landed(run: CommitRun, event: CommitEvent) -> bool {
    run.phase is Swapping && (event matches CommitEvent::Swapped(outcome) && (outcome is Committed
        || outcome is StateUnknown))
}

/// Whether the actions delete the file.
pub open spec fn discards(actions: Seq<ActionView>, file: Seq<char>) -> bool {
    actions.contains(ActionView::Discard(file))
}

/// Whether the actions swap the pointer.
pub open spec fn swaps(actions: Seq<ActionView>) -> bool {
    exists|i: int| 0 <= i < actions.len() && (#[trigger] actions[i]) is Swap
}

/// Whether the actions stage a candidate.
pub open spec fn stages(actions: Seq<ActionView>) -> bool {
    exists|i: int| 0 <= i < actions.len() && (#[trigger] actions[i]) is Stage
}

/// No staged file is forgotten: after every step, a file that was staged is
/// still held, or it is deleted, or the swap to it landed or may have.
pub proof fn no_staged_file_is_forgotten(run: CommitRun, event: CommitEvent, file: Seq<char>)
    requires
        held(run) == Some(file) || newly_staged(run, event) == Some(file),
    ensures
        ({
            let (next, actions) = commit_step(run, event);
            held(next) == Some(file) || discards(actions, file) || may_have_landed(run, event)
        }),
{
    let (next, actions) = commit_step(run, event);
    if held(next) != Some(file) && !may_have_landed(run, event) {
        assert(actions[0] == ActionView::Discard(file));
    }
}

/// A file that may be the current metadata is never deleted: neither after a
/// swap that landed nor after one whose outcome is unknown.
pub proof fn published_files_are_kept(run: CommitRun, event: CommitEvent, file: Seq<char>)
    requires
        may_have_landed(run, event),
    ensures
        !discards(commit_step(run, event).1, file),
{
    let actions = commit_step(run, event).1;
    assert(actions.len() == 1);
    assert(actions[0] is Answer);
}

/// A commit with a violated requirement stages nothing; it is refused with
/// every violation named.
pub proof fn requirements_come_first(run: CommitRun, version: u64, violations: Vec<String>)
    requires
        run.phase is Loading,
        violations@.len() > 0,
    ensures
        commit_step(run, CommitEvent::Loaded { version, violations }).1 == seq![
            ActionView::Answer(AnswerView::Error(requirements_error(text::texts(violations@)))),
        ],
        !stages(commit_step(run, CommitEvent::Loaded { version, violations }).1),
{
}

/// Every attempt checks the requirements again: nothing is staged but in
/// answer to a fresh load of the base on which all of them hold.
pub proof fn every_attempt_checks_requirements(run: CommitRun, event: CommitEvent)
    requires
        stages(commit_step(run, event).1),
    ensures
        run.phase is Loading,
        event matches CommitEvent::Loaded { version, violations } && violations@.len() == 0,
{
}

/// The pointer of a table's main line is swapped only to a candidate that the
/// contracts let through: allowed, allowed with a warning, or retargeted.
pub proof fn main_is_guarded_by_contracts(run: CommitRun, event: CommitEvent)
    requires
        run.target == Target::Main,
        swaps(commit_step(run, event).1),
    ensures
        event matches CommitEvent::Judged(decision) && (decision is Allow || decision is Warn) || event is Restaged,
{
}

/// A blocked commit is answered as blocked with every record to write, its file
/// is deleted, and the pointer stays.
pub proof fn blocked_commits_do_not_land(run: CommitRun, records: Vec<ViolationRecord>, blocked: BlockedCommit)
    requires
        run.phase is Judging,
    ensures
        ({
            let (next, actions) = commit_step(run, CommitEvent::Judged(ContractDecision::Block(records, blocked)));
            &&& next.phase is Finished
            &&& !swaps(actions)
            &&& held(run) matches Some(file) && discards(actions, file)
            &&& actions.contains(ActionView::Answer(AnswerView::Blocked(blocked, records@)))
        }),
{
    let actions = commit_step(run, CommitEvent::Judged(ContractDecision::Block(records, blocked))).1;
    assert(actions[0] == ActionView::Discard(held(run)->0));
    assert(actions[1] == ActionView::Answer(AnswerView::Blocked(blocked, records@)));
}

/// What the contracts record of a candidate is written with the swap to it, or
/// goes with the refusal: no record is lost on the way.
pub proof fn records_go_with_the_outcome(run: CommitRun, decision: ContractDecision)
    requires
        run.phase is Judging,
    ensures
        ({
            let (next, actions) = commit_step(run, CommitEvent::Judged(decision));
            match decision {
                ContractDecision::Allow => actions.last() matches ActionView::Swap(_file, _version, records)
                    && records.len() == 0,
                ContractDecision::Warn(records) => actions.last() matches ActionView::Swap(_file, _version, written)
                    && written == records@,
                ContractDecision::Quarantine(records, _branch, blocked) => {
                    &&& forall|at: String|
                        (#[trigger] commit_step(next, CommitEvent::Restaged(at))).1.last()
                            matches ActionView::Swap(_file, _version, written) && written == records@
                    &&& commit_step(next, CommitEvent::NothingToRetarget).1.last() == ActionView::Answer(
                        AnswerView::Blocked(blocked, contracts::all_refused(records@, blocked)),
                    )
                },
                ContractDecision::Block(records, blocked) => actions.last() == ActionView::Answer(
                    AnswerView::Blocked(blocked, records@),
                ),
            }
        }),
{
}

/// The actions of a commit over a sequence of events.
pub open spec fn trace(run: CommitRun, events: Seq<CommitEvent>) -> Seq<ActionView>
    decreases events.len(),
{
    if events.len() == 0 {
        seq![]
    } else {
        let (next, actions) = commit_step(run, events[0]);
        actions + trace(next, events.drop_first())
    }
}

/// How many candidates a sequence of actions stages.
pub open spec fn staged_count(actions: Seq<ActionView>) -> nat
    decreases actions.len(),
{
    if actions.len() == 0 {
        0
    } else {
        staged_count(actions.drop_last()) + (if actions.last() is Stage { 1nat } else { 0nat })
    }
}

/// How many candidates a commit can still stage.
pub open spec fn attempts_left(run: CommitRun) -> int {
    MAX_COMMIT_ATTEMPTS - run.attempt + (if run.phase is Loading { 1int } else { 0int })
}

proof fn staged_count_adds(a: Seq<ActionView>, b: Seq<ActionView>)
    ensures
        staged_count(a + b) == staged_count(a) + staged_count(b),
    decreases b.len(),
{
    if b.len() == 0 {
        assert(a + b =~= a);
    } else {
        staged_count_adds(a, b.drop_last());
        assert((a + b).drop_last() =~= a + b.drop_last());
        assert((a + b).last() == b.last());
    }
}

/// A commit stages at most as many candidates as it has attempts left,
/// whatever happens.
pub proof fn retries_are_bounded(run: CommitRun, events: Seq<CommitEvent>)
    requires
        in_order(run),
        forall|i: int|
            0 <= i < events.len() ==> (#[trigger] events[i] matches CommitEvent::Loaded { version, violations }
                ==> version < u64::MAX),
    ensures
        staged_count(trace(run, events)) <= attempts_left(run),
    decreases events.len(),
{
    if events.len() > 0 {
        let (next, actions) = commit_step(run, events[0]);
        assert(events[0] matches CommitEvent::Loaded { version, violations } ==> version < u64::MAX);
        assert(in_order(next));
        let rest = events.drop_first();
        assert forall|i: int| 0 <= i < rest.len() implies (#[trigger] rest[i] matches CommitEvent::Loaded {
            version,
            violations,
        } ==> version < u64::MAX) by {
            assert(rest[i] == events[i + 1]);
        }
        retries_are_bounded(next, rest);
        staged_count_adds(actions, trace(next, rest));
        reveal_with_fuel(staged_count, 3);
        if actions.len() == 1 {
            assert(actions.drop_last() =~= Seq::<ActionView>::empty());
        } else if actions.len() == 2 {
            assert(actions.drop_last().drop_last() =~= Seq::<ActionView>::empty());
        }
        assert(staged_count(actions) + attempts_left(next) <= attempts_left(run));
    }
}

/// A commit is tried at most three times.
pub proof fn at_most_three_attempts(target: Target, events: Seq<CommitEvent>)
    requires
        forall|i: int|
            0 <= i < events.len() ==> (#[trigger] events[i] matches CommitEvent::Loaded { version, violations }
                ==> version < u64::MAX),
    ensures
        staged_count(trace(CommitRun { target, attempt: 1, phase: Phase::Loading }, events)) <= 3,
{
    retries_are_bounded(CommitRun { target, attempt: 1, phase: Phase::Loading }, events);
}

// ---------------------------------------------------------------------------
// What holds over the whole history of a commit
// ---------------------------------------------------------------------------

/// Something that a commit asked for, and the event that came in reply.
pub type Exchange = (ActionView, CommitEvent);

/// A commit with its history: where it stands, what the next event is the reply
/// to, and what was asked and replied so far.
pub struct History {
    /// Where the commit stands.
    pub run: CommitRun,
    /// The last thing that was asked for.
    pub awaited: ActionView,
    /// What was asked and replied so far, oldest first.
    pub exchanges: Seq<Exchange>,
}

/// The history of a commit after a sequence of events.
pub open spec fn history(target: Target, events: Seq<CommitEvent>) -> History
    decreases events.len(),
{
    if events.len() == 0 {
        History {
            run: CommitRun { target, attempt: 1, phase: Phase::Loading },
            awaited: ActionView::Load,
            exchanges: seq![],
        }
    } else {
        followed(history(target, events.drop_last()), events.last())
    }
}

/// A history with one event more.
pub open spec fn followed(h: History, event: CommitEvent) -> History {
    let (next, actions) = commit_step(h.run, event);
    History {
        run: next,
        awaited: if actions.len() > 0 {
            actions.last()
        } else {
            h.awaited
        },
        exchanges: h.exchanges.push((h.awaited, event)),
    }
}

/// Whether the exchange at `l` is the last load of the base, and reported this
/// version with every requirement met.
pub open spec fn last_load(exchanges: Seq<Exchange>, l: int, version: u64) -> bool {
    &&& 0 <= l < exchanges.len()
    &&& exchanges[l].0 is Load
    &&& exchanges[l].1 matches CommitEvent::Loaded { version: reported, violations } && reported == version
        && violations@.len() == 0
    &&& forall|k: int| l < k < exchanges.len() ==> !((#[trigger] exchanges[k]).0 is Load)
}

/// Whether the exchange at `s` reported this file, staged for the version after
/// the one loaded.
pub open spec fn staged_as(exchanges: Seq<Exchange>, s: int, version: u64, file: Seq<char>) -> bool {
    &&& 0 <= s < exchanges.len()
    &&& exchanges[s].0 == ActionView::Stage(version + 1)
    &&& exchanges[s].1 matches CommitEvent::Staged(at) && at@ == file
}

/// Whether the exchange at `j` is this judgement of the candidate.
pub open spec fn judged_as(exchanges: Seq<Exchange>, j: int, decision: ContractDecision) -> bool {
    &&& 0 <= j < exchanges.len()
    &&& exchanges[j].0 is Judge
    &&& exchanges[j].1 == CommitEvent::Judged(decision)
}

/// How many swaps were lost to another commit.
pub open spec fn lost_swaps(exchanges: Seq<Exchange>) -> nat
    decreases exchanges.len(),
{
    if exchanges.len() == 0 {
        0
    } else {
        lost_swaps(exchanges.drop_last()) + (if exchanges.last().0 is Swap && (exchanges.last().1
            matches CommitEvent::Swapped(outcome) && outcome is VersionConflict) {
            1nat
        } else {
            0nat
        })
    }
}

spec fn from_staging(h: History, l: int, s: int, version: u64, staged: Seq<char>) -> bool {
    last_load(h.exchanges, l, version) && l < s && staged_as(h.exchanges, s, version, staged)
}

spec fn from_judging(h: History, s: int, j: int, decision: ContractDecision) -> bool {
    s < j && judged_as(h.exchanges, j, decision)
}

spec fn has_loaded(h: History, version: u64) -> bool {
    exists|l: int| last_load(h.exchanges, l, version)
}

spec fn has_staged(h: History, version: u64, staged: Seq<char>) -> bool {
    exists|l: int, s: int| from_staging(h, l, s, version, staged)
}

spec fn has_quarantined(
    h: History,
    version: u64,
    staged: Seq<char>,
    records: Vec<ViolationRecord>,
    blocked: BlockedCommit,
) -> bool {
    exists|l: int, s: int, j: int, branch: String|
        {
            &&& #[trigger] from_staging(h, l, s, version, staged)
            &&& #[trigger] from_judging(h, s, j, ContractDecision::Quarantine(records, branch, blocked))
            &&& h.awaited == ActionView::Retarget(branch@)
        }
}

/// Where a commit stands is what the events said.
spec fn told(h: History, target: Target) -> bool {
    &&& h.run.target == target
    &&& 1 <= h.run.attempt <= MAX_COMMIT_ATTEMPTS
    &&& h.run.phase !is Finished ==> h.run.attempt == 1 + lost_swaps(h.exchanges)
    &&& match h.run.phase {
        Phase::Loading => h.awaited is Load,
        Phase::Staging { version } => {
            &&& h.awaited == ActionView::Stage(version + 1)
            &&& has_loaded(h, version)
        },
        Phase::Judging { version, staged } => {
            &&& target == Target::Main
            &&& h.awaited is Judge
            &&& has_staged(h, version, staged@)
        },
        Phase::Retargeting { version, staged, records, blocked } => {
            &&& target == Target::Main
            &&& has_quarantined(h, version, staged@, records, blocked)
        },
        Phase::Swapping { version, staged } => h.awaited matches ActionView::Swap(file, expected, _records) && file
            == staged@ && expected == version,
        Phase::Finished => h.awaited is Answer,
    }
}

proof fn load_stays_last(h: History, event: CommitEvent, l: int, version: u64)
    requires
        last_load(h.exchanges, l, version),
        !(h.awaited is Load),
    ensures
        last_load(followed(h, event).exchanges, l, version),
{
}

proof fn next_is_told(h: History, target: Target, event: CommitEvent)
    requires
        told(h, target),
    ensures
        told(followed(h, event), target),
{
    let after = followed(h, event);
    let last = h.exchanges.len() as int;
    assert(after.exchanges.drop_last() =~= h.exchanges);
    match h.run.phase {
        Phase::Loading => {
            if let CommitEvent::Loaded { version, violations } = event {
                if violations@.len() == 0 {
                    assert(last_load(after.exchanges, last, version));
                }
            }
        },
        Phase::Staging { version } => {
            let l = choose|l: int| last_load(h.exchanges, l, version);
            load_stays_last(h, event, l, version);
            if let CommitEvent::Staged(at) = event {
                assert(from_staging(after, l, last, version, at@));
            }
        },
        Phase::Judging { version, staged } => {
            let (l, s) = choose|l: int, s: int| from_staging(h, l, s, version, staged@);
            load_stays_last(h, event, l, version);
            assert(from_staging(after, l, s, version, staged@));
            if let CommitEvent::Judged(decision) = event {
                assert(from_judging(after, s, last, decision));
            }
        },
        Phase::Retargeting { version, staged, records, blocked } => {
            let (l, s, j, branch) = choose|l: int, s: int, j: int, branch: String|
                {
                    &&& #[trigger] from_staging(h, l, s, version, staged@)
                    &&& #[trigger] from_judging(h, s, j, ContractDecision::Quarantine(records, branch, blocked))
                    &&& h.awaited == ActionView::Retarget(branch@)
                };
            load_stays_last(h, event, l, version);
            assert(from_staging(after, l, s, version, staged@));
            assert(from_judging(after, s, j, ContractDecision::Quarantine(records, branch, blocked)));
        },
        _ => {},
    }
}

proof fn history_is_told(target: Target, events: Seq<CommitEvent>)
    ensures
        told(history(target, events), target),
    decreases events.len(),
{
    if events.len() > 0 {
        history_is_told(target, events.drop_last());
        next_is_told(history(target, events.drop_last()), target, events.last());
    }
}

/// Every swap expects exactly the version that the last load of the base
/// reported, and moves the pointer to the file that was staged for the version
/// after it. On a branch that file goes in as it is. On the main line the
/// contracts judged it in between: what they allow goes in as it is, with the
/// records of a warning; what they quarantine goes in only as it was retargeted
/// onto the branch that they named, with their records; what they block does
/// not go in.
pub proof fn swaps_expect_what_was_loaded(
    target: Target,
    events: Seq<CommitEvent>,
    event: CommitEvent,
    i: int,
    file: Seq<char>,
    expected: u64,
    records: Seq<ViolationRecord>,
)
    requires
        ({
            let actions = commit_step(history(target, events).run, event).1;
            0 <= i < actions.len() && actions[i] == ActionView::Swap(file, expected, records)
        }),
    ensures
        ({
            let before = history(target, events);
            match target {
                Target::Branch => {
                    &&& records.len() == 0
                    &&& before.awaited == ActionView::Stage(expected + 1)
                    &&& event matches CommitEvent::Staged(at) && at@ == file
                    &&& exists|l: int| last_load(before.exchanges, l, expected)
                },
                Target::Main => exists|l: int, s: int, staged: Seq<char>|
                    {
                        &&& #[trigger] last_load(before.exchanges, l, expected)
                        &&& l < s
                        &&& #[trigger] staged_as(before.exchanges, s, expected, staged)
                        &&& {
                            ||| before.awaited is Judge && event == CommitEvent::Judged(ContractDecision::Allow) && file
                                == staged && records.len() == 0
                            ||| before.awaited is Judge && (event matches CommitEvent::Judged(
                                ContractDecision::Warn(recorded),
                            ) && file == staged && records == recorded@)
                            ||| event matches CommitEvent::Restaged(at) && at@ == file && exists|
                                j: int,
                                recorded: Vec<ViolationRecord>,
                                branch: String,
                                blocked: BlockedCommit,
                            |
                                {
                                    &&& s < j
                                    &&& #[trigger] judged_as(
                                        before.exchanges,
                                        j,
                                        ContractDecision::Quarantine(recorded, branch, blocked),
                                    )
                                    &&& before.awaited == ActionView::Retarget(branch@)
                                    &&& records == recorded@
                                }
                        }
                    },
            }
        }),
{
    let h = history(target, events);
    history_is_told(target, events);
    match h.run.phase {
        Phase::Staging { version } => {
            let l = choose|l: int| last_load(h.exchanges, l, version);
            assert(last_load(h.exchanges, l, expected));
        },
        Phase::Judging { version, staged } => {
            let (l, s) = choose|l: int, s: int| from_staging(h, l, s, version, staged@);
            assert(last_load(h.exchanges, l, expected));
            assert(staged_as(h.exchanges, s, expected, staged@));
        },
        Phase::Retargeting { version, staged, records: recorded, blocked } => {
            let (l, s, j, branch) = choose|l: int, s: int, j: int, branch: String|
                {
                    &&& #[trigger] from_staging(h, l, s, version, staged@)
                    &&& #[trigger] from_judging(h, s, j, ContractDecision::Quarantine(recorded, branch, blocked))
                    &&& h.awaited == ActionView::Retarget(branch@)
                };
            assert(last_load(h.exchanges, l, expected));
            assert(staged_as(h.exchanges, s, expected, staged@));
            assert(judged_as(h.exchanges, j, ContractDecision::Quarantine(recorded, branch, blocked)));
        },
        _ => {},
    }
}

/// What follows each reply ahead of the swap. A base on which every requirement
/// holds is built on, for the version after it. A staged candidate is judged on
/// the main line, and swapped in at once on a branch. A quarantined one is
/// retargeted onto the branch that the contracts named; where there is nothing
/// to retarget it is deleted and refused as the contracts refused it, with every
/// record marked as refused. Whatever fails ends the commit with an error, and
/// deletes the file where there is one.
pub proof fn replies_are_followed_up(target: Target, events: Seq<CommitEvent>, event: CommitEvent)
    ensures
        ({
            let before = history(target, events);
            let (next, actions) = commit_step(before.run, event);
            match before.awaited {
                ActionView::Load => match event {
                    CommitEvent::Loaded { version, violations } => if violations@.len() == 0 {
                        actions == seq![ActionView::Stage(version + 1)]
                    } else {
                        next.phase is Finished && actions.len() == 1 && (actions[0] matches ActionView::Answer(
                            AnswerView::Error(e),
                        ) && e.kind == ErrorKind::CommitFailed)
                    },
                    CommitEvent::LoadFailed(e) => next.phase is Finished && actions == seq![
                        ActionView::Answer(AnswerView::Error(e@)),
                    ],
                    _ => actions.len() == 0,
                },
                ActionView::Stage(_version) => match event {
                    CommitEvent::Staged(at) => actions.len() == 1 && match target {
                        Target::Main => actions[0] is Judge,
                        Target::Branch => actions[0] matches ActionView::Swap(file, _expected, _records) && file == at@,
                    },
                    CommitEvent::BuildRefused(_) | CommitEvent::StageFailed(_) => next.phase is Finished && actions.len()
                        == 1 && (actions[0] matches ActionView::Answer(answer) && answer is Error),
                    _ => actions.len() == 0,
                },
                ActionView::Judge => match event {
                    CommitEvent::Judged(decision) => match decision {
                        ContractDecision::Allow | ContractDecision::Warn(_) => actions.len() == 1 && actions[0] is Swap,
                        ContractDecision::Quarantine(_records, branch, _blocked) => actions == seq![
                            ActionView::Retarget(branch@),
                        ],
                        ContractDecision::Block(_records, _blocked) => next.phase is Finished,
                    },
                    CommitEvent::JudgeFailed(_) => next.phase is Finished && actions.len() == 2 && actions[0] is Discard
                        && (actions[1] matches ActionView::Answer(answer) && answer is Error),
                    _ => actions.len() == 0,
                },
                ActionView::Retarget(_branch) => match event {
                    CommitEvent::NothingToRetarget => {
                        &&& next.phase is Finished
                        &&& actions.len() == 2
                        &&& actions[0] is Discard
                        &&& exists|j: int, records: Vec<ViolationRecord>, branch: String, blocked: BlockedCommit|
                            {
                                &&& #[trigger] judged_as(
                                    before.exchanges,
                                    j,
                                    ContractDecision::Quarantine(records, branch, blocked),
                                )
                                &&& actions[1] matches ActionView::Answer(AnswerView::Blocked(answered, written))
                                    && answered == blocked && written.len() == records@.len() && forall|k: int|
                                    0 <= k < written.len() ==> {
                                        &&& (#[trigger] written[k]).outcome == contracts::ViolationOutcome::Blocked
                                        &&& written[k].contract_id == records@[k].contract_id
                                        &&& written[k].table_id == records@[k].table_id
                                        &&& written[k].violations == records@[k].violations
                                    }
                            }
                    },
                    CommitEvent::Restaged(at) => actions.len() == 2 && actions[0] is Discard && (actions[1]
                        matches ActionView::Swap(file, _expected, _records) && file == at@),
                    CommitEvent::RestageFailed(_) => next.phase is Finished && actions.len() == 2 && actions[0] is Discard
                        && (actions[1] matches ActionView::Answer(answer) && answer is Error),
                    _ => actions.len() == 0,
                },
                ActionView::Swap(_file, _expected, _records) => !(event is Swapped) ==> actions.len() == 0,
                ActionView::Discard(_file) => false,
                ActionView::Answer(_answer) => actions.len() == 0,
            }
        }),
{
    let h = history(target, events);
    history_is_told(target, events);
    if let Phase::Retargeting { version, staged, records, blocked } = h.run.phase {
        let (l, s, j, branch) = choose|l: int, s: int, j: int, branch: String|
            {
                &&& #[trigger] from_staging(h, l, s, version, staged@)
                &&& #[trigger] from_judging(h, s, j, ContractDecision::Quarantine(records, branch, blocked))
                &&& h.awaited == ActionView::Retarget(branch@)
            };
        assert(judged_as(h.exchanges, j, ContractDecision::Quarantine(records, branch, blocked)));
    }
}

/// What follows the reply to a swap. A swap that landed is answered with the
/// file that was swapped in, at the version after the expected one (on a
/// branch, at the one that the receipt names), and nothing is deleted. A lost
/// one deletes the file and loads the base again, but the third is refused. A
/// replay or a failure deletes the file; an unknown outcome deletes nothing.
pub proof fn swaps_are_answered(
    target: Target,
    events: Seq<CommitEvent>,
    outcome: SwapOutcome,
    file: Seq<char>,
    expected: u64,
    records: Seq<ViolationRecord>,
)
    requires
        history(target, events).awaited == ActionView::Swap(file, expected, records),
    ensures
        ({
            let before = history(target, events);
            let actions = commit_step(before.run, CommitEvent::Swapped(outcome)).1;
            match outcome {
                SwapOutcome::Committed(receipt) => {
                    &&& actions.len() == 1
                    &&& actions[0] matches ActionView::Answer(AnswerView::Committed(location, version)) && location == file
                        && match target {
                        Target::Main => version == (if expected + 1 <= i64::MAX {
                            expected + 1
                        } else {
                            i64::MAX as int
                        }),
                        Target::Branch => match receipt {
                            Some(v) => version == (if v <= i64::MAX {
                                v as int
                            } else {
                                i64::MAX as int
                            }),
                            None => version == 0,
                        },
                    }
                },
                SwapOutcome::Replayed => actions == seq![
                    ActionView::Discard(file),
                    ActionView::Answer(AnswerView::Replay),
                ],
                SwapOutcome::VersionConflict => {
                    &&& actions.len() == 2
                    &&& actions[0] == ActionView::Discard(file)
                    &&& lost_swaps(before.exchanges) < 2 ==> actions[1] is Load
                    &&& lost_swaps(before.exchanges) >= 2 ==> (actions[1] matches ActionView::Answer(
                        AnswerView::Error(e),
                    ) && e.kind == ErrorKind::CommitFailed)
                },
                SwapOutcome::StateUnknown => {
                    &&& actions.len() == 1
                    &&& actions[0] matches ActionView::Answer(AnswerView::Error(e)) && e.kind
                        == ErrorKind::CommitStateUnknown
                },
                SwapOutcome::Failed(_e) => {
                    &&& actions.len() == 2
                    &&& actions[0] == ActionView::Discard(file)
                    &&& actions[1] matches ActionView::Answer(answer) && answer is Error
                },
            }
        }),
{
    history_is_told(target, events);
}

} // verus!
