//! The commit of several tables as one.
//!
//! Every table's requirements are checked before anything is staged, every
//! candidate is staged before anything is swapped, and one swap moves all
//! pointers or none.

use vstd::prelude::*;

use crate::commit;
use crate::commit::{backend_to_api, requirements_hold, SwapOutcome};
use crate::contracts;
use crate::contracts::{degrade, BlockedCommit, ContractDecision, ViolationRecord};
use crate::error;
use crate::error::{ApiError, ErrorKind};
use crate::grants;
use crate::grants::{require, Access, Found};
use crate::table_routes;
use crate::table_routes::{map_build_error, storage_to_api, MetadataBuildError, StorageError};
use crate::tables;
use crate::tables::{
    display_ident, has_assert_create, idempotency_key, key_reuse_error, no_such_table, parse_commit_request,
    reject_if_foreign, CommitBody, Header, ParsedCommit, TableIdentifier, TableRecord,
};
use crate::text;
use crate::text::{cat3, copy_texts, quote, same, same_texts};

verus! {

// ---------------------------------------------------------------------------
// The request
// ---------------------------------------------------------------------------

/// One table of a transaction.
#[derive(Debug)]
pub struct TableChange {
    /// The table.
    pub identifier: TableIdentifier,
    /// What to commit to it.
    pub parsed: ParsedCommit,
}

/// The identifier that a sound change names.
pub open spec fn named_table(body: CommitBody) -> Option<(Seq<Seq<char>>, Seq<char>)> {
    crate::commit_routes::body_identifier(body)
}

/// The error of one change of a transaction.
pub open spec fn change_error(body: CommitBody) -> Option<error::ErrorView> {
    match tables::commit_body_error(body) {
        Some(e) => Some(e),
        None => if named_table(body) is None {
            Some(error::bad_request("every table change in a transaction must carry an 'identifier'"@))
        } else if crate::commit_routes::body_asserts_create(body) {
            Some(error::bad_request("assert-create is not supported in multi-table transactions"@))
        } else {
            None
        },
    }
}

/// The error of the first bad change, from place `from` on.
pub open spec fn first_change_error(changes: Seq<CommitBody>, from: int) -> Option<error::ErrorView>
    decreases changes.len() - from,
{
    if from < 0 || from >= changes.len() {
        None
    } else {
        match change_error(changes[from]) {
            Some(e) => Some(e),
            None => first_change_error(changes, from + 1),
        }
    }
}

/// Whether an earlier change names the same table.
pub open spec fn repeats(names: Seq<(Seq<Seq<char>>, Seq<char>)>, i: int) -> bool {
    0 <= i < names.len() && exists|j: int| 0 <= j < i && #[trigger] names[j] == names[i]
}

/// The error of the first table that is named twice, from place `from` on.
pub open spec fn first_repeat(names: Seq<(Seq<Seq<char>>, Seq<char>)>, from: int) -> Option<error::ErrorView>
    decreases names.len() - from,
{
    if from < 0 || from >= names.len() {
        None
    } else if repeats(names, from) {
        Some(
            error::bad_request(
                "table "@ + text::quoted(tables::ident_text(names[from].0, names[from].1))
                    + " appears more than once in the transaction"@,
            ),
        )
    } else {
        first_repeat(names, from + 1)
    }
}

/// The tables that sound changes name.
pub open spec fn named_tables(changes: Seq<CommitBody>) -> Seq<(Seq<Seq<char>>, Seq<char>)> {
    changes.map_values(|b: CommitBody| named_table(b)->0)
}

/// The error of a transaction request.
pub open spec fn transaction_error(changes: Option<Vec<CommitBody>>) -> Option<error::ErrorView> {
    match changes {
        None => Some(error::bad_request("'table-changes' must be a non-empty array"@)),
        Some(all) => if all@.len() == 0 {
            Some(error::bad_request("'table-changes' must be a non-empty array"@))
        } else {
            match first_change_error(all@, 0) {
                Some(e) => Some(e),
                None => first_repeat(named_tables(all@), 0),
            }
        },
    }
}

/// Whether `change` is what a sound body states.
pub open spec fn states_change(body: CommitBody, change: TableChange) -> bool {
    &&& tables::states_commit(body, change.parsed)
    &&& named_table(body) == Some(tables::identifier_text(change.identifier))
}

fn read_change(body: &CommitBody) -> (r: Result<TableChange, ApiError>)
    ensures
        match change_error(*body) {
            Some(e) => error::fails_with(r, e),
            None => r matches Ok(change) && states_change(*body, change),
        },
{
    let parsed = match parse_commit_request(body) {
        Ok(parsed) => parsed,
        Err(e) => { return Err(e); },
    };
    proof {
        crate::commit_routes::create_is_read_off_the_body(*body, parsed);
        assert(tables::opt_identifier(parsed.identifier) == named_table(*body));
    }
    let identifier = match &parsed.identifier {
        Some(id) => id.copy(),
        None => {
            return Err(ApiError::bad_request("every table change in a transaction must carry an 'identifier'"));
        },
    };
    if has_assert_create(&parsed) {
        return Err(ApiError::bad_request("assert-create is not supported in multi-table transactions"));
    }
    Ok(TableChange { identifier, parsed })
}

fn repeated(changes: &Vec<TableChange>, i: usize) -> (r: bool)
    requires
        i < changes@.len(),
    ensures
        r == repeats(changes@.map_values(|c: TableChange| tables::identifier_text(c.identifier)), i as int),
{
    let ghost names = changes@.map_values(|c: TableChange| tables::identifier_text(c.identifier));
    let mut j: usize = 0;
    while j < i
        invariant
            j <= i < changes@.len(),
            names == changes@.map_values(|c: TableChange| tables::identifier_text(c.identifier)),
            forall|k: int| 0 <= k < j ==> #[trigger] names[k] != names[i as int],
        decreases i - j,
    {
        let a = &changes[j].identifier;
        let b = &changes[i].identifier;
        assert(names[j as int] == tables::identifier_text(*a));
        assert(names[i as int] == tables::identifier_text(*b));
        if same_texts(&a.namespace, &b.namespace) && same(a.name.as_str(), b.name.as_str()) {
            assert(names[j as int] == names[i as int]);
            return true;
        }
        j = j + 1;
    }
    false
}

/// Reads a transaction request: a non-empty list of changes, each of a table
/// that it names, none of which creates one, and no table twice.
pub fn commit_transaction(changes: &Option<Vec<CommitBody>>) -> (r: Result<Vec<TableChange>, ApiError>)
    ensures
        match transaction_error(*changes) {
            Some(e) => error::fails_with(r, e),
            None => {
                &&& r matches Ok(out)
                &&& out@.len() == changes->0@.len()
                &&& forall|i: int| 0 <= i < out@.len() ==> states_change(changes->0@[i], #[trigger] out@[i])
            },
        },
{
    let all = match changes {
        None => { return Err(ApiError::bad_request("'table-changes' must be a non-empty array")); },
        Some(all) => all,
    };
    if all.len() == 0 {
        return Err(ApiError::bad_request("'table-changes' must be a non-empty array"));
    }
    let mut out: Vec<TableChange> = Vec::new();
    let mut i: usize = 0;
    while i < all.len()
        invariant
            i <= all@.len(),
            0 < all@.len(),
            *changes == Some(*all),
            out@.len() == i,
            first_change_error(all@, 0) == first_change_error(all@, i as int),
            forall|j: int| 0 <= j < i ==> states_change(all@[j], #[trigger] out@[j]),
        decreases all@.len() - i,
    {
        match read_change(&all[i]) {
            Ok(change) => out.push(change),
            Err(e) => { return Err(e); },
        }
        i = i + 1;
    }
    let ghost names = out@.map_values(|c: TableChange| tables::identifier_text(c.identifier));
    assert(names =~= named_tables(all@)) by {
        assert forall|k: int| 0 <= k < names.len() implies names[k] == named_tables(all@)[k] by {
            assert(states_change(all@[k], out@[k]));
        }
    }
    let mut k: usize = 0;
    while k < out.len()
        invariant
            k <= out@.len(),
            0 < all@.len(),
            *changes == Some(*all),
            out@.len() == all@.len(),
            first_change_error(all@, 0) is None,
            names == out@.map_values(|c: TableChange| tables::identifier_text(c.identifier)),
            names == named_tables(all@),
            first_repeat(names, 0) == first_repeat(names, k as int),
        decreases out@.len() - k,
    {
        if repeated(&out, k) {
            let id = &out[k].identifier;
            assert(names[k as int] == tables::identifier_text(*id));
            let ident = display_ident(&id.namespace, id.name.as_str());
            return Err(ApiError::bad_request(
                cat3(
                    "table ",
                    quote(ident.as_str()).as_str(),
                    " appears more than once in the transaction",
                ).as_str(),
            ));
        }
        k = k + 1;
    }
    Ok(out)
}

/// The error of the first table that does not exist, from place `from` on.
pub open spec fn first_missing(changes: Seq<TableChange>, found: Seq<Option<TableRecord>>, from: int) -> Option<
    error::ErrorView,
>
    decreases changes.len() - from,
{
    if from < 0 || from >= changes.len() || from >= found.len() {
        None
    } else if found[from] is None {
        let id = tables::identifier_text(changes[from].identifier);
        Some(tables::missing_table(id.0, id.1))
    } else {
        first_missing(changes, found, from + 1)
    }
}

/// Refuses a transaction that names a table that does not exist. `found` holds
/// the row of each change's table, in order.
pub fn tables_exist(changes: &Vec<TableChange>, found: &Vec<Option<TableRecord>>) -> (r: Result<(), ApiError>)
    requires
        changes@.len() == found@.len(),
    ensures
        match first_missing(changes@, found@, 0) {
            Some(e) => error::fails_with(r, e),
            None => r is Ok,
        },
{
    let mut i: usize = 0;
    while i < found.len()
        invariant
            i <= found@.len(),
            changes@.len() == found@.len(),
            first_missing(changes@, found@, 0) == first_missing(changes@, found@, i as int),
        decreases found@.len() - i,
    {
        if found[i].is_none() {
            let id = &changes[i].identifier;
            return Err(no_such_table(&id.namespace, id.name.as_str()));
        }
        i = i + 1;
    }
    Ok(())
}

/// The refusal of one table of a transaction: the caller may not commit to it,
/// or it is foreign.
pub open spec fn table_refusal(change: TableChange, row: Option<TableRecord>, access: Access) -> Option<
    error::ErrorView,
> {
    match grants::access_error(access) {
        Some(e) => Some(e),
        None => match row {
            None => None,
            Some(record) => tables::foreign_table_error(
                record,
                tables::ident_text(text::texts(change.identifier.namespace@), change.identifier.name@),
            ),
        },
    }
}

/// The first refusal, from place `from` on.
pub open spec fn first_refusal(
    changes: Seq<TableChange>,
    found: Seq<Option<TableRecord>>,
    access: Seq<Access>,
    from: int,
) -> Option<error::ErrorView>
    decreases changes.len() - from,
{
    if from < 0 || from >= changes.len() || from >= found.len() || from >= access.len() {
        None
    } else {
        match table_refusal(changes[from], found[from], access[from]) {
            Some(e) => Some(e),
            None => first_refusal(changes, found, access, from + 1),
        }
    }
}

/// Admits the tables of a transaction: the caller may commit to every one of
/// them, and none of them is foreign.
pub fn admit_tables(changes: &Vec<TableChange>, found: &Vec<Option<TableRecord>>, access: &Vec<Access>) -> (r: Result<
    (),
    ApiError,
>)
    requires
        changes@.len() == found@.len() == access@.len(),
    ensures
        match first_refusal(changes@, found@, access@, 0) {
            Some(e) => error::fails_with(r, e),
            None => r is Ok,
        },
{
    let mut i: usize = 0;
    while i < changes.len()
        invariant
            i <= changes@.len(),
            changes@.len() == found@.len() == access@.len(),
            first_refusal(changes@, found@, access@, 0) == first_refusal(changes@, found@, access@, i as int),
        decreases changes@.len() - i,
    {
        match require(&access[i]) {
            Err(e) => { return Err(e); },
            Ok(()) => {},
        }
        let id = &changes[i].identifier;
        match &found[i] {
            None => {},
            Some(record) => match reject_if_foreign(record, &id.namespace, id.name.as_str()) {
                Err(e) => { return Err(e); },
                Ok(()) => {},
            },
        }
        i = i + 1;
    }
    Ok(())
}

// ---------------------------------------------------------------------------
// Admission
// ---------------------------------------------------------------------------

/// What the store has answered so far about a transaction.
#[derive(Debug)]
pub struct TxnFacts {
    /// The row of each change's table, in order.
    pub found: Option<Vec<Option<TableRecord>>>,
    /// Whether the caller may commit to each table, in order.
    pub access: Option<Vec<Access>>,
    /// The fingerprint that was recorded under the idempotency key.
    pub receipt: Found<String>,
}

/// The next step of a transaction request.
#[derive(Debug)]
pub enum AdmissionStep {
    /// Look up every table.
    AskTables,
    /// Ask whether the caller may commit to every table.
    AskAccess,
    /// Recall the receipt recorded under this key.
    AskReceipt(String),
    /// Answer that the transaction has been committed.
    Replay,
    /// Run the transaction.
    Run,
    /// Answer with the error.
    Refuse(ApiError),
}

/// The model of the next step.
pub enum AdmissionView {
    /// Look up every table.
    AskTables,
    /// Ask whether the caller may commit to every table.
    AskAccess,
    /// Recall the receipt recorded under this key.
    AskReceipt(Seq<char>),
    /// Answer that the transaction has been committed.
    Replay,
    /// Run the transaction.
    Run,
    /// Answer with the error.
    Refuse(error::ErrorView),
}

impl View for AdmissionStep {
    type V = AdmissionView;

    open spec fn view(&self) -> AdmissionView {
        match *self {
            AdmissionStep::AskTables => AdmissionView::AskTables,
            AdmissionStep::AskAccess => AdmissionView::AskAccess,
            AdmissionStep::AskReceipt(key) => AdmissionView::AskReceipt(key@),
            AdmissionStep::Replay => AdmissionView::Replay,
            AdmissionStep::Run => AdmissionView::Run,
            AdmissionStep::Refuse(e) => AdmissionView::Refuse(e@),
        }
    }
}

/// Whether the answers are about these changes, one for each.
pub open spec fn answers_fit(changes: Seq<TableChange>, facts: TxnFacts) -> bool {
    &&& facts.found matches Some(found) ==> found@.len() == changes.len()
    &&& facts.access matches Some(access) ==> access@.len() == changes.len()
}

/// The step of a transaction request: every table exists, the caller may commit
/// to each, none is foreign; only then is a receipt recalled.
pub open spec fn admission_step(
    changes: Seq<TableChange>,
    header: Header,
    fingerprint: Seq<char>,
    facts: TxnFacts,
) -> AdmissionView {
    match facts.found {
        None => AdmissionView::AskTables,
        Some(found) => match first_missing(changes, found@, 0) {
            Some(e) => AdmissionView::Refuse(e),
            None => match facts.access {
                None => AdmissionView::AskAccess,
                Some(access) => match first_refusal(changes, found@, access@, 0) {
                    Some(e) => AdmissionView::Refuse(e),
                    None => match tables::key_of(header) {
                        Err(e) => AdmissionView::Refuse(e),
                        Ok(None) => AdmissionView::Run,
                        Ok(Some(key)) => match facts.receipt {
                            Found::Unasked => AdmissionView::AskReceipt(key),
                            Found::Missing => AdmissionView::Run,
                            Found::Is(recorded) => if recorded@ == fingerprint {
                                AdmissionView::Replay
                            } else {
                                AdmissionView::Refuse(tables::key_reuse(key))
                            },
                        },
                    },
                },
            },
        },
    }
}

/// Takes the next step of a transaction request that has been read.
pub fn admit_transaction(changes: &Vec<TableChange>, idempotency: &Header, fingerprint: &str, facts: &TxnFacts) -> (r:
    AdmissionStep)
    requires
        answers_fit(changes@, *facts),
    ensures
        r@ == admission_step(changes@, *idempotency, fingerprint@, *facts),
{
    let found = match &facts.found {
        None => { return AdmissionStep::AskTables; },
        Some(found) => found,
    };
    match tables_exist(changes, found) {
        Err(e) => { return AdmissionStep::Refuse(e); },
        Ok(()) => {},
    }
    let access = match &facts.access {
        None => { return AdmissionStep::AskAccess; },
        Some(access) => access,
    };
    match admit_tables(changes, found, access) {
        Err(e) => { return AdmissionStep::Refuse(e); },
        Ok(()) => {},
    }
    match idempotency_key(idempotency) {
        Err(e) => AdmissionStep::Refuse(e),
        Ok(None) => AdmissionStep::Run,
        Ok(Some(key)) => match &facts.receipt {
            Found::Unasked => AdmissionStep::AskReceipt(key),
            Found::Missing => AdmissionStep::Run,
            Found::Is(recorded) => if same(recorded.as_str(), fingerprint) {
                AdmissionStep::Replay
            } else {
                AdmissionStep::Refuse(key_reuse_error(key.as_str()))
            },
        },
    }
}

proof fn no_table_is_missing(changes: Seq<TableChange>, found: Seq<Option<TableRecord>>, from: int, i: int)
    requires
        changes.len() == found.len(),
        0 <= from <= i < changes.len(),
        first_missing(changes, found, from) is None,
    ensures
        found[i] is Some,
    decreases i - from,
{
    if from < i {
        no_table_is_missing(changes, found, from + 1, i);
    }
}

proof fn no_table_is_refused(
    changes: Seq<TableChange>,
    found: Seq<Option<TableRecord>>,
    access: Seq<Access>,
    from: int,
    i: int,
)
    requires
        changes.len() == found.len() == access.len(),
        0 <= from <= i < changes.len(),
        first_refusal(changes, found, access, from) is None,
    ensures
        table_refusal(changes[i], found[i], access[i]) is None,
    decreases i - from,
{
    if from < i {
        no_table_is_refused(changes, found, access, from + 1, i);
    }
}

/// A transaction runs, and a receipt of one is recalled or replayed, only where
/// every one of its tables exists and is native, and the caller may commit to
/// it.
pub proof fn transactions_are_guarded(
    changes: Seq<TableChange>,
    header: Header,
    fingerprint: Seq<char>,
    facts: TxnFacts,
    i: int,
)
    requires
        answers_fit(changes, facts),
        0 <= i < changes.len(),
    ensures
        ({
            let step = admission_step(changes, header, fingerprint, facts);
            step is AskReceipt || step is Replay || step is Run ==> {
                &&& facts.access matches Some(access) && access@[i] is Granted
                &&& facts.found matches Some(found) && found@[i] matches Some(record) && record.mirror_id is None
            }
        }),
{
    let step = admission_step(changes, header, fingerprint, facts);
    if step is AskReceipt || step is Replay || step is Run {
        no_table_is_missing(changes, facts.found->0@, 0, i);
        no_table_is_refused(changes, facts.found->0@, facts.access->0@, 0, i);
    }
}

proof fn missing_tables_are_found(changes: Seq<TableChange>, found: Seq<Option<TableRecord>>, from: int)
    requires
        changes.len() == found.len(),
        0 <= from,
    ensures
        first_missing(changes, found, from) matches Some(e) ==> e.kind == ErrorKind::NoSuchTable && exists|i: int|
            from <= i < found.len() && (#[trigger] found[i]) is None,
    decreases changes.len() - from,
{
    if from < changes.len() && found[from] is Some {
        missing_tables_are_found(changes, found, from + 1);
    }
}

proof fn refused_tables_are_found(
    changes: Seq<TableChange>,
    found: Seq<Option<TableRecord>>,
    access: Seq<Access>,
    from: int,
)
    requires
        changes.len() == found.len() == access.len(),
        0 <= from,
    ensures
        first_refusal(changes, found, access, from) matches Some(e) ==> exists|i: int|
            from <= i < access.len() && speaks_against(found[i], #[trigger] access[i], e),
    decreases changes.len() - from,
{
    if from < changes.len() {
        if let Some(e) = table_refusal(changes[from], found[from], access[from]) {
            assert(speaks_against(found[from], access[from], e));
        } else {
            refused_tables_are_found(changes, found, access, from + 1);
        }
    }
}

/// Whether the error is what stands against a commit to the table: the caller
/// may not commit to it, or it is foreign.
pub open spec fn speaks_against(row: Option<TableRecord>, access: Access, e: error::ErrorView) -> bool {
    ||| !(access is Granted)
    ||| access is Granted && (row matches Some(record) && record.mirror_id is Some) && e.kind
        == ErrorKind::ForeignReadOnly
}

/// A transaction runs exactly where every table is there and native and the
/// caller may commit to all of them, and under a key only where no receipt is
/// recorded. A receipt is replayed only to the same transaction. Anything else
/// is refused for what stands against it.
pub proof fn transactions_are_admitted_as_asked(
    changes: Seq<TableChange>,
    header: Header,
    fingerprint: Seq<char>,
    facts: TxnFacts,
)
    requires
        answers_fit(changes, facts),
    ensures
        ({
            let key = tables::key_of(header);
            match admission_step(changes, header, fingerprint, facts) {
                AdmissionView::AskTables => facts.found is None,
                AdmissionView::AskAccess => facts.found is Some && facts.access is None,
                AdmissionView::AskReceipt(k) => facts.receipt is Unasked && key == Ok::<
                    Option<Seq<char>>,
                    error::ErrorView,
                >(Some(k)),
                AdmissionView::Replay => (key matches Ok(Some(_))) && (facts.receipt matches Found::Is(recorded)
                    && recorded@ == fingerprint),
                AdmissionView::Run => facts.access is Some && (key == Ok::<Option<Seq<char>>, error::ErrorView>(None) || (
                key matches Ok(Some(_))) && facts.receipt is Missing),
                AdmissionView::Refuse(e) => {
                    ||| e.kind == ErrorKind::NoSuchTable && (facts.found matches Some(found) && exists|i: int|
                        0 <= i < found@.len() && (#[trigger] found@[i]) is None)
                    ||| facts.found matches Some(found) && (facts.access matches Some(access) && exists|i: int|
                        0 <= i < access@.len() && speaks_against(found@[i], #[trigger] access@[i], e))
                    ||| key == Err::<Option<Seq<char>>, error::ErrorView>(e)
                    ||| e.kind == ErrorKind::Unprocessable && (facts.receipt matches Found::Is(recorded) && recorded@
                        != fingerprint)
                },
            }
        }),
{
    if let Some(found) = facts.found {
        missing_tables_are_found(changes, found@, 0);
        if let Some(access) = facts.access {
            refused_tables_are_found(changes, found@, access@, 0);
        }
    }
}

/// Whether the changes name their tables, create none, and name each once.
pub open spec fn is_sound_set(changes: Seq<CommitBody>) -> bool {
    &&& changes.len() > 0
    &&& forall|i: int|
        0 <= i < changes.len() ==> tables::commit_body_error(#[trigger] changes[i]) is None && named_table(
            changes[i],
        ) is Some && !crate::commit_routes::body_asserts_create(changes[i])
    &&& forall|i: int, j: int|
        0 <= i < j < changes.len() ==> named_table(#[trigger] changes[i]) != named_table(#[trigger] changes[j])
}

proof fn change_errors_are_found(changes: Seq<CommitBody>, from: int)
    requires
        0 <= from,
    ensures
        first_change_error(changes, from) is None <==> forall|i: int|
            from <= i < changes.len() ==> change_error(#[trigger] changes[i]) is None,
        first_change_error(changes, from) matches Some(e) ==> e.kind == ErrorKind::BadRequest,
    decreases changes.len() - from,
{
    if from < changes.len() {
        tables::commit_bodies_are_judged(changes[from]);
        if change_error(changes[from]) is None {
            change_errors_are_found(changes, from + 1);
        }
    }
}

proof fn repeats_are_found(names: Seq<(Seq<Seq<char>>, Seq<char>)>, from: int)
    requires
        0 <= from,
    ensures
        first_repeat(names, from) is None <==> forall|i: int| from <= i < names.len() ==> !#[trigger] repeats(names, i),
        first_repeat(names, from) matches Some(e) ==> e.kind == ErrorKind::BadRequest,
    decreases names.len() - from,
{
    if from < names.len() {
        if repeats(names, from) {
            assert(repeats(names, from));
        } else {
            repeats_are_found(names, from + 1);
        }
    }
}

/// A transaction is taken exactly where it has changes, every one of them is a
/// sound commit that names its table and does not create it, and no table is
/// named twice; any other is a bad request.
pub proof fn transactions_are_judged(changes: Option<Vec<CommitBody>>)
    ensures
        transaction_error(changes) is None <==> (changes matches Some(all) && is_sound_set(all@)),
        transaction_error(changes) matches Some(e) ==> e.kind == ErrorKind::BadRequest,
{
    if let Some(all) = changes {
        let names = named_tables(all@);
        change_errors_are_found(all@, 0);
        repeats_are_found(names, 0);
        if transaction_error(changes) is None {
            assert forall|i: int| 0 <= i < all@.len() implies tables::commit_body_error(#[trigger] all@[i]) is None
                && named_table(all@[i]) is Some && !crate::commit_routes::body_asserts_create(all@[i]) by {
                assert(change_error(all@[i]) is None);
            }
            assert forall|i: int, j: int| 0 <= i < j < all@.len() implies named_table(#[trigger] all@[i])
                != named_table(#[trigger] all@[j]) by {
                assert(!repeats(names, j));
                assert(names[i] == named_table(all@[i])->0 && names[j] == named_table(all@[j])->0);
                assert(change_error(all@[i]) is None && change_error(all@[j]) is None);
            }
        }
        if is_sound_set(all@) {
            assert forall|i: int| 0 <= i < all@.len() implies change_error(#[trigger] all@[i]) is None by {
            }
            assert forall|j: int| 0 <= j < names.len() implies !#[trigger] repeats(names, j) by {
                if repeats(names, j) {
                    let i = choose|i: int| 0 <= i < j && #[trigger] names[i] == names[j];
                    assert(names[i] == named_table(all@[i])->0 && names[j] == named_table(all@[j])->0);
                    assert(named_table(all@[i]) != named_table(all@[j]));
                }
            }
        }
    }
}

/// A transaction that was committed under its key is answered again and does
/// not run twice; the same key with another transaction is refused.
pub proof fn transactions_run_once(
    changes: Seq<TableChange>,
    header: Header,
    fingerprint: Seq<char>,
    before: TxnFacts,
    after: TxnFacts,
    recorded: String,
)
    requires
        admission_step(changes, header, fingerprint, before) is AskReceipt,
        after.found == before.found,
        after.access == before.access,
        after.receipt == Found::Is(recorded),
    ensures
        recorded@ == fingerprint ==> admission_step(changes, header, fingerprint, after) is Replay,
        recorded@ != fingerprint ==> admission_step(changes, header, fingerprint, after) == AdmissionView::Refuse(
            tables::key_reuse(admission_step(changes, header, fingerprint, before)->AskReceipt_0),
        ),
{
}

// ---------------------------------------------------------------------------
// The state machine
// ---------------------------------------------------------------------------

/// Where a transaction stands. The tables are taken in the order of the
/// request.
#[derive(Debug)]
pub enum TxnPhase {
    /// The bases are being loaded and their requirements checked.
    Checking {
        /// The versions loaded so far.
        versions: Vec<u64>,
        /// The violations found so far.
        violations: Vec<String>,
    },
    /// The next candidate is being built.
    Building {
        /// The versions of the bases.
        versions: Vec<u64>,
        /// The files staged so far.
        staged: Vec<String>,
        /// What the contracts recorded of the judged candidates.
        records: Vec<ViolationRecord>,
    },
    /// The contracts are judging the next candidate.
    Judging {
        /// The versions of the bases.
        versions: Vec<u64>,
        /// The files staged so far.
        staged: Vec<String>,
        /// What the contracts recorded of the judged candidates.
        records: Vec<ViolationRecord>,
    },
    /// The next candidate is being written.
    Writing {
        /// The versions of the bases.
        versions: Vec<u64>,
        /// The files staged so far.
        staged: Vec<String>,
        /// What the contracts recorded of the judged candidates.
        records: Vec<ViolationRecord>,
    },
    /// The pointers are being swapped.
    Swapping {
        /// The staged files.
        staged: Vec<String>,
    },
    /// The answer was given.
    Finished,
}

/// A commit of several tables.
#[derive(Debug)]
pub struct TxnRun {
    /// How many tables there are.
    pub tables: usize,
    /// Which attempt this is, from 1 on.
    pub attempt: u32,
    /// Where it stands.
    pub phase: TxnPhase,
}

/// What just happened.
#[derive(Debug)]
pub enum TxnEvent {
    /// The next base was loaded.
    Loaded {
        /// The version of its pointer.
        version: u64,
        /// Its violated requirements, each with the table's name ahead.
        violations: Vec<String>,
    },
    /// The next base could not be loaded.
    LoadFailed(ApiError),
    /// The next candidate was built.
    Built,
    /// The next update list was refused.
    BuildRefused(MetadataBuildError),
    /// What the contracts make of the next candidate.
    Judged(ContractDecision),
    /// The contracts could not be read.
    JudgeFailed(ApiError),
    /// The next candidate was staged at this location.
    Written(String),
    /// The next candidate could not be written.
    WriteFailed(StorageError),
    /// What came of the swap.
    Swapped(SwapOutcome),
}

/// The answer to a transaction.
#[derive(Debug)]
pub enum TxnAnswer {
    /// Every table was committed.
    Committed,
    /// A contract of one table blocks the transaction.
    Blocked {
        /// The table, by its place in the request.
        table: usize,
        /// What the answer says.
        blocked: BlockedCommit,
        /// The records of that table to write.
        records: Vec<ViolationRecord>,
    },
    /// An error.
    Error(ApiError),
}

/// What to do next.
#[derive(Debug)]
pub enum TxnAction {
    /// Load the base of this table.
    Load(usize),
    /// Build the candidate of this table.
    Build(usize),
    /// Let the contracts judge the candidate of this table.
    Judge(usize),
    /// Write the candidate of this table for this version.
    Write {
        /// The table.
        table: usize,
        /// The version that the candidate would have.
        version: u64,
    },
    /// Swap every pointer from its version to its staged file, or none. What
    /// the contracts recorded lands with it.
    Swap {
        /// The versions that the pointers must still have.
        expected: Vec<u64>,
        /// The staged files.
        staged: Vec<String>,
        /// What the contracts recorded of the tables.
        records: Vec<ViolationRecord>,
    },
    /// Delete the staged file.
    Discard(String),
    /// Give the answer.
    Answer(TxnAnswer),
}

/// The model of a phase.
pub enum TxnPhaseView {
    /// The bases are being loaded.
    Checking(Seq<u64>, Seq<Seq<char>>),
    /// The next candidate is being built.
    Building(Seq<u64>, Seq<Seq<char>>, Seq<ViolationRecord>),
    /// The contracts are judging the next candidate.
    Judging(Seq<u64>, Seq<Seq<char>>, Seq<ViolationRecord>),
    /// The next candidate is being written.
    Writing(Seq<u64>, Seq<Seq<char>>, Seq<ViolationRecord>),
    /// The pointers are being swapped.
    Swapping(Seq<Seq<char>>),
    /// The answer was given.
    Finished,
}

/// The model of a transaction.
pub struct TxnView {
    /// How many tables there are.
    pub tables: int,
    /// Which attempt this is.
    pub attempt: int,
    /// Where it stands.
    pub phase: TxnPhaseView,
}

/// The model of an answer.
pub enum TxnAnswerView {
    /// Every table was committed.
    Committed,
    /// A contract of one table blocks the transaction.
    Blocked(int, BlockedCommit, Seq<ViolationRecord>),
    /// An error.
    Error(error::ErrorView),
}

/// The model of an action.
pub enum TxnActionView {
    /// Load the base of this table.
    Load(int),
    /// Build the candidate of this table.
    Build(int),
    /// Let the contracts judge the candidate of this table.
    Judge(int),
    /// Write the candidate of this table for this version.
    Write(int, int),
    /// Swap every pointer, or none.
    Swap(Seq<u64>, Seq<Seq<char>>, Seq<ViolationRecord>),
    /// Delete the staged file.
    Discard(Seq<char>),
    /// Give the answer.
    Answer(TxnAnswerView),
}

impl View for TxnRun {
    type V = TxnView;

    open spec fn view(&self) -> TxnView {
        TxnView {
            tables: self.tables as int,
            attempt: self.attempt as int,
            phase: match self.phase {
                TxnPhase::Checking { versions, violations } => TxnPhaseView::Checking(
                    versions@,
                    text::texts(violations@),
                ),
                TxnPhase::Building { versions, staged, records } => TxnPhaseView::Building(
                    versions@,
                    text::texts(staged@),
                    records@,
                ),
                TxnPhase::Judging { versions, staged, records } => TxnPhaseView::Judging(
                    versions@,
                    text::texts(staged@),
                    records@,
                ),
                TxnPhase::Writing { versions, staged, records } => TxnPhaseView::Writing(
                    versions@,
                    text::texts(staged@),
                    records@,
                ),
                TxnPhase::Swapping { staged } => TxnPhaseView::Swapping(text::texts(staged@)),
                TxnPhase::Finished => TxnPhaseView::Finished,
            },
        }
    }
}

impl View for TxnAction {
    type V = TxnActionView;

    open spec fn view(&self) -> TxnActionView {
        match *self {
            TxnAction::Load(i) => TxnActionView::Load(i as int),
            TxnAction::Build(i) => TxnActionView::Build(i as int),
            TxnAction::Judge(i) => TxnActionView::Judge(i as int),
            TxnAction::Write { table, version } => TxnActionView::Write(table as int, version as int),
            TxnAction::Swap { expected, staged, records } => TxnActionView::Swap(
                expected@,
                text::texts(staged@),
                records@,
            ),
            TxnAction::Discard(file) => TxnActionView::Discard(file@),
            TxnAction::Answer(answer) => TxnActionView::Answer(
                match answer {
                    TxnAnswer::Committed => TxnAnswerView::Committed,
                    TxnAnswer::Blocked { table, blocked, records } => TxnAnswerView::Blocked(
                        table as int,
                        blocked,
                        records@,
                    ),
                    TxnAnswer::Error(e) => TxnAnswerView::Error(e@),
                },
            ),
        }
    }
}

/// The models of actions.
pub open spec fn views(actions: Seq<TxnAction>) -> Seq<TxnActionView> {
    actions.map_values(|a: TxnAction| a@)
}

/// The deletion of every staged file.
pub open spec fn discard_all(staged: Seq<Seq<char>>) -> Seq<TxnActionView> {
    staged.map_values(|f: Seq<char>| TxnActionView::Discard(f))
}

/// A transaction in another phase of the same attempt.
pub open spec fn in_phase(run: TxnView, phase: TxnPhaseView) -> TxnView {
    TxnView { tables: run.tables, attempt: run.attempt, phase }
}

/// The end of a transaction: every staged file is deleted, then the answer is
/// given.
pub open spec fn unwound(run: TxnView, staged: Seq<Seq<char>>, answer: TxnAnswerView) -> (
    TxnView,
    Seq<TxnActionView>,
) {
    (in_phase(run, TxnPhaseView::Finished), discard_all(staged).push(TxnActionView::Answer(answer)))
}

/// The answer where every attempt lost the swap.
pub open spec fn race_lost() -> error::ErrorView {
    error::error_of(
        ErrorKind::CommitFailed,
        "transaction lost the compare-and-set race 3 time(s); refresh table state and retry"@,
    )
}

/// The answer where it is unknown whether the swap was applied.
pub open spec fn outcome_unknown() -> error::ErrorView {
    error::error_of(
        ErrorKind::CommitStateUnknown,
        "the transaction outcome could not be determined; retry with the same Idempotency-Key to resolve"@,
    )
}

/// What follows the load of a base. Nothing is staged before every base was
/// loaded and no requirement of any table is violated.
pub open spec fn loaded_step(
    run: TxnView,
    versions: Seq<u64>,
    violations: Seq<Seq<char>>,
) -> (TxnView, Seq<TxnActionView>) {
    if versions.len() < run.tables {
        (
            in_phase(run, TxnPhaseView::Checking(versions, violations)),
            seq![TxnActionView::Load(versions.len() as int)],
        )
    } else if violations.len() > 0 {
        (
            in_phase(run, TxnPhaseView::Finished),
            seq![TxnActionView::Answer(TxnAnswerView::Error(commit::requirements_error(violations)))],
        )
    } else {
        (in_phase(run, TxnPhaseView::Building(versions, seq![], seq![])), seq![TxnActionView::Build(0)])
    }
}

/// What follows a judgement. A quarantine comes to a block: to retarget one
/// table of a set would break the set apart.
pub open spec fn judged_step(
    run: TxnView,
    versions: Seq<u64>,
    staged: Seq<Seq<char>>,
    records: Seq<ViolationRecord>,
    decision: ContractDecision,
) -> (TxnView, Seq<TxnActionView>) {
    let i = staged.len() as int;
    match decision {
        ContractDecision::Allow => (
            in_phase(run, TxnPhaseView::Writing(versions, staged, records)),
            seq![TxnActionView::Write(i, versions[i] + 1)],
        ),
        ContractDecision::Warn(more) => (
            in_phase(run, TxnPhaseView::Writing(versions, staged, records + more@)),
            seq![TxnActionView::Write(i, versions[i] + 1)],
        ),
        ContractDecision::Quarantine(own, _branch, blocked) => unwound(
            run,
            staged,
            TxnAnswerView::Blocked(i, blocked, contracts::all_refused(own@, blocked)),
        ),
        ContractDecision::Block(own, blocked) => unwound(run, staged, TxnAnswerView::Blocked(i, blocked, own@)),
    }
}

/// What follows a staged candidate.
pub open spec fn written_step(
    run: TxnView,
    versions: Seq<u64>,
    staged: Seq<Seq<char>>,
    records: Seq<ViolationRecord>,
) -> (TxnView, Seq<TxnActionView>) {
    if staged.len() < run.tables {
        (
            in_phase(run, TxnPhaseView::Building(versions, staged, records)),
            seq![TxnActionView::Build(staged.len() as int)],
        )
    } else {
        (in_phase(run, TxnPhaseView::Swapping(staged)), seq![TxnActionView::Swap(versions, staged, records)])
    }
}

/// What follows a swap.
pub open spec fn swapped_step(run: TxnView, staged: Seq<Seq<char>>, outcome: SwapOutcome) -> (
    TxnView,
    Seq<TxnActionView>,
) {
    match outcome {
        SwapOutcome::Committed(_) => (
            in_phase(run, TxnPhaseView::Finished),
            seq![TxnActionView::Answer(TxnAnswerView::Committed)],
        ),
        SwapOutcome::Replayed => unwound(run, staged, TxnAnswerView::Committed),
        SwapOutcome::VersionConflict => if run.attempt < commit::MAX_COMMIT_ATTEMPTS {
            (
                TxnView {
                    tables: run.tables,
                    attempt: run.attempt + 1,
                    phase: TxnPhaseView::Checking(seq![], seq![]),
                },
                discard_all(staged).push(TxnActionView::Load(0)),
            )
        } else {
            unwound(run, staged, TxnAnswerView::Error(race_lost()))
        },
        SwapOutcome::StateUnknown => (
            in_phase(run, TxnPhaseView::Finished),
            seq![TxnActionView::Answer(TxnAnswerView::Error(outcome_unknown()))],
        ),
        SwapOutcome::Failed(e) => unwound(run, staged, TxnAnswerView::Error(commit::backend_failure(e))),
    }
}

/// What follows an event. An event that does not belong to the phase changes
/// nothing.
pub open spec fn txn_step(run: TxnView, event: TxnEvent) -> (TxnView, Seq<TxnActionView>) {
    let nothing = (run, Seq::<TxnActionView>::empty());
    match run.phase {
        TxnPhaseView::Checking(versions, violations) => match event {
            TxnEvent::Loaded { version, violations: more } => loaded_step(
                run,
                versions.push(version),
                violations + text::texts(more@),
            ),
            TxnEvent::LoadFailed(e) => (
                in_phase(run, TxnPhaseView::Finished),
                seq![TxnActionView::Answer(TxnAnswerView::Error(e@))],
            ),
            _ => nothing,
        },
        TxnPhaseView::Building(versions, staged, records) => match event {
            TxnEvent::Built => (
                in_phase(run, TxnPhaseView::Judging(versions, staged, records)),
                seq![TxnActionView::Judge(staged.len() as int)],
            ),
            TxnEvent::BuildRefused(e) => unwound(run, staged, TxnAnswerView::Error(table_routes::build_failure(e))),
            _ => nothing,
        },
        TxnPhaseView::Judging(versions, staged, records) => match event {
            TxnEvent::Judged(decision) => judged_step(run, versions, staged, records, decision),
            TxnEvent::JudgeFailed(e) => unwound(run, staged, TxnAnswerView::Error(e@)),
            _ => nothing,
        },
        TxnPhaseView::Writing(versions, staged, records) => match event {
            TxnEvent::Written(at) => written_step(run, versions, staged.push(at@), records),
            TxnEvent::WriteFailed(e) => unwound(run, staged, TxnAnswerView::Error(table_routes::storage_failure(e))),
            _ => nothing,
        },
        TxnPhaseView::Swapping(staged) => match event {
            TxnEvent::Swapped(outcome) => swapped_step(run, staged, outcome),
            _ => nothing,
        },
        TxnPhaseView::Finished => nothing,
    }
}

/// Whether every version has a next one.
pub open spec fn have_next(versions: Seq<u64>) -> bool {
    forall|i: int| 0 <= i < versions.len() ==> #[trigger] versions[i] < u64::MAX
}

/// Whether the transaction is in order: it has tables, its attempt is one of
/// those allowed, and it has taken no more tables than there are.
pub open spec fn in_order(run: TxnView) -> bool {
    &&& 1 <= run.tables
    &&& 1 <= run.attempt <= commit::MAX_COMMIT_ATTEMPTS
    &&& match run.phase {
        TxnPhaseView::Checking(versions, _violations) => versions.len() < run.tables && have_next(versions),
        TxnPhaseView::Building(versions, staged, _records) => {
            versions.len() == run.tables && staged.len() < run.tables && have_next(versions)
        },
        TxnPhaseView::Judging(versions, staged, _records) => {
            versions.len() == run.tables && staged.len() < run.tables && have_next(versions)
        },
        TxnPhaseView::Writing(versions, staged, _records) => {
            versions.len() == run.tables && staged.len() < run.tables && have_next(versions)
        },
        TxnPhaseView::Swapping(staged) => staged.len() == run.tables,
        TxnPhaseView::Finished => true,
    }
}

fn one(action: TxnAction) -> (r: Vec<TxnAction>)
    ensures
        views(r@) == seq![action@],
{
    let mut out: Vec<TxnAction> = Vec::new();
    out.push(action);
    assert(views(out@) =~= seq![action@]);
    out
}

fn nothing() -> (r: Vec<TxnAction>)
    ensures
        views(r@) == Seq::<TxnActionView>::empty(),
{
    let out: Vec<TxnAction> = Vec::new();
    assert(views(out@) =~= Seq::<TxnActionView>::empty());
    out
}

fn discard_then(staged: Vec<String>, last: TxnAction) -> (r: Vec<TxnAction>)
    ensures
        views(r@) == discard_all(text::texts(staged@)).push(last@),
{
    let mut out: Vec<TxnAction> = Vec::new();
    let ghost all = staged@;
    assert(views(out@) =~= discard_all(text::texts(all.take(0))));
    for file in it: staged
        invariant
            it.seq() == all,
            views(out@) == discard_all(text::texts(all.take(it.index()))),
    {
        let ghost before = out@;
        out.push(TxnAction::Discard(file));
        assert(views(out@) =~= views(before).push(TxnActionView::Discard(file@)));
        assert(discard_all(text::texts(all.take(it.index() + 1))) =~= discard_all(
            text::texts(all.take(it.index())),
        ).push(TxnActionView::Discard(file@)));
    }
    assert(all.take(all.len() as int) =~= all);
    let ghost before = out@;
    out.push(last);
    assert(views(out@) =~= views(before).push(last@));
    out
}

fn fail(e: ApiError) -> (r: TxnAction)
    ensures
        r@ == TxnActionView::Answer(TxnAnswerView::Error(e@)),
{
    TxnAction::Answer(TxnAnswer::Error(e))
}

fn copy_versions(versions: &Vec<u64>) -> (r: Vec<u64>)
    ensures
        r@ == versions@,
{
    let mut out: Vec<u64> = Vec::new();
    let mut i: usize = 0;
    while i < versions.len()
        invariant
            i <= versions@.len(),
            out@ == versions@.take(i as int),
        decreases versions@.len() - i,
    {
        out.push(versions[i]);
        assert(versions@.take(i as int).push(versions@[i as int]) =~= versions@.take(i + 1));
        i = i + 1;
    }
    assert(versions@.take(versions@.len() as int) =~= versions@);
    out
}

impl TxnRun {
    /// A transaction of so many tables, that starts by loading the first base.
    pub fn start(tables: usize) -> (r: (TxnRun, Vec<TxnAction>))
        requires
            1 <= tables,
        ensures
            r.0@ == (TxnView { tables: tables as int, attempt: 1, phase: TxnPhaseView::Checking(seq![], seq![]) }),
            views(r.1@) == seq![TxnActionView::Load(0)],
            in_order(r.0@),
    {
        let run = TxnRun::fresh(tables, 1);
        (run, one(TxnAction::Load(0)))
    }

    fn fresh(tables: usize, attempt: u32) -> (r: TxnRun)
        ensures
            r@ == (TxnView {
                tables: tables as int,
                attempt: attempt as int,
                phase: TxnPhaseView::Checking(seq![], seq![]),
            }),
    {
        let versions: Vec<u64> = Vec::new();
        let violations: Vec<String> = Vec::new();
        assert(versions@ =~= Seq::<u64>::empty());
        assert(text::texts(violations@) =~= Seq::<Seq<char>>::empty());
        TxnRun { tables, attempt, phase: TxnPhase::Checking { versions, violations } }
    }

    fn finished(tables: usize, attempt: u32) -> (r: TxnRun)
        ensures
            r@ == (TxnView { tables: tables as int, attempt: attempt as int, phase: TxnPhaseView::Finished }),
    {
        TxnRun { tables, attempt, phase: TxnPhase::Finished }
    }

    fn unwind(tables: usize, attempt: u32, staged: Vec<String>, answer: TxnAnswer) -> (r: (TxnRun, Vec<TxnAction>))
        ensures
            r.0@ == (TxnView { tables: tables as int, attempt: attempt as int, phase: TxnPhaseView::Finished }),
            views(r.1@) == discard_all(text::texts(staged@)).push(TxnAction::Answer(answer)@),
    {
        (TxnRun::finished(tables, attempt), discard_then(staged, TxnAction::Answer(answer)))
    }

    fn on_loaded(
        tables: usize,
        attempt: u32,
        mut versions: Vec<u64>,
        mut violations: Vec<String>,
        version: u64,
        mut more: Vec<String>,
    ) -> (r: (TxnRun, Vec<TxnAction>))
        requires
            versions@.len() < tables,
            1 <= attempt <= commit::MAX_COMMIT_ATTEMPTS,
            have_next(versions@),
            version < u64::MAX,
        ensures
            ({
                let run = TxnView {
                    tables: tables as int,
                    attempt: attempt as int,
                    phase: TxnPhaseView::Checking(versions@, text::texts(violations@)),
                };
                let next = loaded_step(
                    run,
                    versions@.push(version),
                    text::texts(violations@) + text::texts(more@),
                );
                r.0@ == next.0 && views(r.1@) == next.1 && in_order(r.0@)
            }),
    {
        let ghost all = text::texts(violations@) + text::texts(more@);
        let ghost old_versions = versions@;
        versions.push(version);
        violations.append(&mut more);
        assert(text::texts(violations@) =~= all);
        assert(violations@.len() == all.len());
        assert(have_next(versions@)) by {
            assert forall|i: int| 0 <= i < versions@.len() implies #[trigger] versions@[i] < u64::MAX by {
                if i < old_versions.len() {
                    assert(versions@[i] == old_versions[i]);
                }
            }
        }
        let taken = versions.len();
        if taken < tables {
            return (
                TxnRun { tables, attempt, phase: TxnPhase::Checking { versions, violations } },
                one(TxnAction::Load(taken)),
            );
        }
        match requirements_hold(&violations) {
            Err(e) => (TxnRun::finished(tables, attempt), one(fail(e))),
            Ok(()) => {
                let staged: Vec<String> = Vec::new();
                assert(text::texts(staged@) =~= Seq::<Seq<char>>::empty());
                let records: Vec<ViolationRecord> = Vec::new();
                assert(records@ =~= Seq::<ViolationRecord>::empty());
                (
                    TxnRun { tables, attempt, phase: TxnPhase::Building { versions, staged, records } },
                    one(TxnAction::Build(0)),
                )
            },
        }
    }

    fn on_judged(
        tables: usize,
        attempt: u32,
        versions: Vec<u64>,
        staged: Vec<String>,
        mut records: Vec<ViolationRecord>,
        decision: ContractDecision,
    ) -> (r: (TxnRun, Vec<TxnAction>))
        requires
            versions@.len() == tables,
            staged@.len() < tables,
            1 <= attempt <= commit::MAX_COMMIT_ATTEMPTS,
            have_next(versions@),
        ensures
            ({
                let run = TxnView {
                    tables: tables as int,
                    attempt: attempt as int,
                    phase: TxnPhaseView::Judging(versions@, text::texts(staged@), records@),
                };
                let next = judged_step(run, versions@, text::texts(staged@), records@, decision);
                r.0@ == next.0 && views(r.1@) == next.1 && in_order(r.0@)
            }),
    {
        let table = staged.len();
        let expected: u64 = versions[table];
        assert(versions@[table as int] < u64::MAX);
        let version: u64 = expected + 1;
        match decision {
            ContractDecision::Allow => (
                TxnRun { tables, attempt, phase: TxnPhase::Writing { versions, staged, records } },
                one(TxnAction::Write { table, version }),
            ),
            ContractDecision::Warn(mut more) => {
                records.append(&mut more);
                (
                    TxnRun { tables, attempt, phase: TxnPhase::Writing { versions, staged, records } },
                    one(TxnAction::Write { table, version }),
                )
            },
            ContractDecision::Quarantine(own, _branch, blocked) => {
                let own = degrade(own, &blocked);
                TxnRun::unwind(tables, attempt, staged, TxnAnswer::Blocked { table, blocked, records: own })
            },
            ContractDecision::Block(own, blocked) => TxnRun::unwind(
                tables,
                attempt,
                staged,
                TxnAnswer::Blocked { table, blocked, records: own },
            ),
        }
    }

    fn on_written(
        tables: usize,
        attempt: u32,
        versions: Vec<u64>,
        mut staged: Vec<String>,
        records: Vec<ViolationRecord>,
        at: String,
    ) -> (r: (TxnRun, Vec<TxnAction>))
        requires
            versions@.len() == tables,
            staged@.len() < tables,
            1 <= attempt <= commit::MAX_COMMIT_ATTEMPTS,
            have_next(versions@),
        ensures
            ({
                let run = TxnView {
                    tables: tables as int,
                    attempt: attempt as int,
                    phase: TxnPhaseView::Writing(versions@, text::texts(staged@), records@),
                };
                let next = written_step(run, versions@, text::texts(staged@).push(at@), records@);
                r.0@ == next.0 && views(r.1@) == next.1 && in_order(r.0@)
            }),
    {
        let ghost before = staged@;
        staged.push(at);
        assert(text::texts(staged@) =~= text::texts(before).push(at@));
        let count = staged.len();
        if count < tables {
            (
                TxnRun { tables, attempt, phase: TxnPhase::Building { versions, staged, records } },
                one(TxnAction::Build(count)),
            )
        } else {
            let swap = TxnAction::Swap { expected: copy_versions(&versions), staged: copy_texts(&staged), records };
            (TxnRun { tables, attempt, phase: TxnPhase::Swapping { staged } }, one(swap))
        }
    }

    fn on_swapped(tables: usize, attempt: u32, staged: Vec<String>, outcome: SwapOutcome) -> (r: (
        TxnRun,
        Vec<TxnAction>,
    ))
        requires
            1 <= tables,
            1 <= attempt <= commit::MAX_COMMIT_ATTEMPTS,
        ensures
            ({
                let run = TxnView {
                    tables: tables as int,
                    attempt: attempt as int,
                    phase: TxnPhaseView::Swapping(text::texts(staged@)),
                };
                let next = swapped_step(run, text::texts(staged@), outcome);
                r.0@ == next.0 && views(r.1@) == next.1 && in_order(r.0@)
            }),
    {
        match outcome {
            SwapOutcome::Committed(_) => (
                TxnRun::finished(tables, attempt),
                one(TxnAction::Answer(TxnAnswer::Committed)),
            ),
            SwapOutcome::Replayed => TxnRun::unwind(tables, attempt, staged, TxnAnswer::Committed),
            SwapOutcome::VersionConflict => if attempt < commit::MAX_COMMIT_ATTEMPTS {
                (TxnRun::fresh(tables, attempt + 1), discard_then(staged, TxnAction::Load(0)))
            } else {
                let e = ApiError::new(
                    ErrorKind::CommitFailed,
                    "transaction lost the compare-and-set race 3 time(s); refresh table state and retry",
                );
                TxnRun::unwind(tables, attempt, staged, TxnAnswer::Error(e))
            },
            SwapOutcome::StateUnknown => {
                let e = ApiError::new(
                    ErrorKind::CommitStateUnknown,
                    "the transaction outcome could not be determined; retry with the same Idempotency-Key to resolve",
                );
                (TxnRun::finished(tables, attempt), one(fail(e)))
            },
            SwapOutcome::Failed(e) => TxnRun::unwind(
                tables,
                attempt,
                staged,
                TxnAnswer::Error(backend_to_api(&e)),
            ),
        }
    }

    /// Takes the step that follows an event.
    pub fn step(self, event: TxnEvent) -> (r: (TxnRun, Vec<TxnAction>))
        requires
            in_order(self@),
            event matches TxnEvent::Loaded { version, violations } ==> version < u64::MAX,
        ensures
            r.0@ == txn_step(self@, event).0,
            views(r.1@) == txn_step(self@, event).1,
            in_order(r.0@),
    {
        let tables = self.tables;
        let attempt = self.attempt;
        match self.phase {
            TxnPhase::Checking { versions, violations } => match event {
                TxnEvent::Loaded { version, violations: more } => TxnRun::on_loaded(
                    tables,
                    attempt,
                    versions,
                    violations,
                    version,
                    more,
                ),
                TxnEvent::LoadFailed(e) => (TxnRun::finished(tables, attempt), one(fail(e))),
                _ => (TxnRun { tables, attempt, phase: TxnPhase::Checking { versions, violations } }, nothing()),
            },
            TxnPhase::Building { versions, staged, records } => match event {
                TxnEvent::Built => {
                    let table = staged.len();
                    (
                        TxnRun { tables, attempt, phase: TxnPhase::Judging { versions, staged, records } },
                        one(TxnAction::Judge(table)),
                    )
                },
                TxnEvent::BuildRefused(e) => TxnRun::unwind(
                    tables,
                    attempt,
                    staged,
                    TxnAnswer::Error(map_build_error(&e)),
                ),
                _ => (TxnRun { tables, attempt, phase: TxnPhase::Building { versions, staged, records } }, nothing()),
            },
            TxnPhase::Judging { versions, staged, records } => match event {
                TxnEvent::Judged(decision) => TxnRun::on_judged(tables, attempt, versions, staged, records, decision),
                TxnEvent::JudgeFailed(e) => TxnRun::unwind(tables, attempt, staged, TxnAnswer::Error(e)),
                _ => (TxnRun { tables, attempt, phase: TxnPhase::Judging { versions, staged, records } }, nothing()),
            },
            TxnPhase::Writing { versions, staged, records } => match event {
                TxnEvent::Written(at) => TxnRun::on_written(tables, attempt, versions, staged, records, at),
                TxnEvent::WriteFailed(e) => TxnRun::unwind(
                    tables,
                    attempt,
                    staged,
                    TxnAnswer::Error(storage_to_api(&e)),
                ),
                _ => (TxnRun { tables, attempt, phase: TxnPhase::Writing { versions, staged, records } }, nothing()),
            },
            TxnPhase::Swapping { staged } => match event {
                TxnEvent::Swapped(outcome) => TxnRun::on_swapped(tables, attempt, staged, outcome),
                _ => (TxnRun { tables, attempt, phase: TxnPhase::Swapping { staged } }, nothing()),
            },
            TxnPhase::Finished => (TxnRun::finished(tables, attempt), nothing()),
        }
    }
}

// ---------------------------------------------------------------------------
// Laws
// ---------------------------------------------------------------------------

/// The files that a transaction has staged and not yet accounted for.
pub open spec fn staged_of(run: TxnView) -> Seq<Seq<char>> {
    match run.phase {
        TxnPhaseView::Checking(_versions, _violations) => seq![],
        TxnPhaseView::Building(_versions, staged, _records) => staged,
        TxnPhaseView::Judging(_versions, staged, _records) => staged,
        TxnPhaseView::Writing(_versions, staged, _records) => staged,
        TxnPhaseView::Swapping(staged) => staged,
        TxnPhaseView::Finished => seq![],
    }
}

/// Whether the event leaves the staged files published, or perhaps published.
pub open spec fn may_have_landed(event: TxnEvent) -> bool {
    event matches TxnEvent::Swapped(outcome) && (outcome is Committed || outcome is StateUnknown)
}

/// A transaction swaps only once every one of its tables was staged, and the
/// swap covers all of them.
pub proof fn swaps_cover_every_table(run: TxnView, event: TxnEvent, i: int)
    requires
        in_order(run),
        0 <= i < txn_step(run, event).1.len(),
        txn_step(run, event).1[i] is Swap,
    ensures
        run.phase is Writing,
        txn_step(run, event).1[i] matches TxnActionView::Swap(expected, staged, _records) && expected.len()
            == run.tables && staged.len() == run.tables,
{
}

/// What the contracts record of a table that they let through is kept until the
/// swap, beside what they recorded of the tables before it, and lands with it.
pub proof fn warnings_land_with_the_swap(run: TxnView, event: TxnEvent)
    requires
        in_order(run),
    ensures
        run.phase matches TxnPhaseView::Judging(versions, staged, records) ==> (event matches TxnEvent::Judged(decision)
            ==> (decision is Allow || decision is Warn ==> txn_step(run, event).0.phase == TxnPhaseView::Writing(
            versions,
            staged,
            records + contracts::records_in(decision),
        ))),
        run.phase matches TxnPhaseView::Writing(versions, staged, records) ==> (event matches TxnEvent::Written(at)
            ==> txn_step(run, event).1 == seq![TxnActionView::Swap(versions, staged.push(at@), records)]
            || txn_step(run, event).0.phase == TxnPhaseView::Building(versions, staged.push(at@), records)),
        event is Built ==> (run.phase matches TxnPhaseView::Building(versions, staged, records)
            ==> txn_step(run, event).0.phase == TxnPhaseView::Judging(versions, staged, records)),
{
    if let TxnPhaseView::Judging(versions, staged, records) = run.phase {
        assert(records + Seq::<ViolationRecord>::empty() =~= records);
    }
}

/// Nothing is built or written while a base is still to be loaded or a
/// requirement of any table is violated.
pub proof fn all_requirements_come_first(run: TxnView, event: TxnEvent, i: int)
    requires
        run.phase is Checking,
        0 <= i < txn_step(run, event).1.len(),
        txn_step(run, event).1[i] is Build || txn_step(run, event).1[i] is Write
            || txn_step(run, event).1[i] is Swap,
    ensures
        txn_step(run, event).1[i] is Build,
        event matches TxnEvent::Loaded { version, violations } && violations@.len() == 0,
        run.phase->Checking_1.len() == 0,
        run.phase->Checking_0.len() + 1 >= run.tables,
{
    if let TxnEvent::Loaded { version, violations } = event {
        assert(text::texts(violations@).len() == violations@.len());
    }
}

/// A transaction that ends or starts over deletes every file it staged, except
/// where the swap was applied or may have been.
pub proof fn all_or_nothing(run: TxnView, event: TxnEvent)
    requires
        in_order(run),
        !may_have_landed(event),
        staged_of(txn_step(run, event).0).len() == 0,
    ensures
        forall|i: int|
            0 <= i < staged_of(run).len() ==> txn_step(run, event).1.contains(
                TxnActionView::Discard(#[trigger] staged_of(run)[i]),
            ),
{
    let staged = staged_of(run);
    let actions = txn_step(run, event).1;
    assert forall|i: int| 0 <= i < staged.len() implies actions.contains(
        TxnActionView::Discard(#[trigger] staged[i]),
    ) by {
        assert(discard_all(staged)[i] == TxnActionView::Discard(staged[i]));
        assert(actions.drop_last() =~= discard_all(staged));
        assert(actions[i] == TxnActionView::Discard(staged[i]));
    }
}

/// No file is deleted where the swap was applied or may have been.
pub proof fn landed_files_are_kept(run: TxnView, event: TxnEvent, i: int)
    requires
        may_have_landed(event),
        0 <= i < txn_step(run, event).1.len(),
    ensures
        !(txn_step(run, event).1[i] is Discard),
{
}

/// A blocked transaction swaps nothing, and neither does one whose answer is
/// an error.
pub proof fn refused_transactions_do_not_land(run: TxnView, event: TxnEvent, i: int, j: int)
    requires
        in_order(run),
        0 <= i < txn_step(run, event).1.len(),
        0 <= j < txn_step(run, event).1.len(),
        txn_step(run, event).1[i] is Answer,
    ensures
        !(txn_step(run, event).1[j] is Swap),
        txn_step(run, event).0.phase is Finished,
{
}

/// A lost swap is tried again from fresh bases, three times at most.
pub proof fn transaction_attempts_are_bounded(run: TxnView, event: TxnEvent)
    requires
        in_order(run),
    ensures
        1 <= txn_step(run, event).0.attempt <= 3,
        txn_step(run, event).0.attempt != run.attempt ==> {
            &&& event matches TxnEvent::Swapped(outcome)
            &&& outcome is VersionConflict
            &&& txn_step(run, event).0.attempt == run.attempt + 1
            &&& txn_step(run, event).0.phase == TxnPhaseView::Checking(seq![], seq![])
        },
{
}

// ---------------------------------------------------------------------------
// What holds over the whole history of a transaction
// ---------------------------------------------------------------------------

/// Something that a transaction asked for, and the event that came in reply.
pub type TxnExchange = (TxnActionView, TxnEvent);

/// A transaction with its history: where it stands, what the next event is the
/// reply to, and what was asked and replied so far.
pub struct TxnHistory {
    /// Where the transaction stands.
    pub run: TxnView,
    /// The last thing that was asked for.
    pub awaited: TxnActionView,
    /// What was asked and replied so far, oldest first.
    pub exchanges: Seq<TxnExchange>,
}

/// The history of a transaction of so many tables after a sequence of events.
pub open spec fn history(tables: int, events: Seq<TxnEvent>) -> TxnHistory
    decreases events.len(),
{
    if events.len() == 0 {
        TxnHistory {
            run: TxnView { tables, attempt: 1, phase: TxnPhaseView::Checking(seq![], seq![]) },
            awaited: TxnActionView::Load(0),
            exchanges: seq![],
        }
    } else {
        followed(history(tables, events.drop_last()), events.last())
    }
}

/// A history with one event more.
pub open spec fn followed(h: TxnHistory, event: TxnEvent) -> TxnHistory {
    let (next, actions) = txn_step(h.run, event);
    TxnHistory {
        run: next,
        awaited: if actions.len() > 0 {
            actions.last()
        } else {
            h.awaited
        },
        exchanges: h.exchanges.push((h.awaited, event)),
    }
}

/// Whether the exchange at `k` is the last load of this table, and reported this
/// version.
pub open spec fn last_load(exchanges: Seq<TxnExchange>, k: int, table: int, version: u64) -> bool {
    &&& 0 <= k < exchanges.len()
    &&& exchanges[k].0 == TxnActionView::Load(table)
    &&& exchanges[k].1 matches TxnEvent::Loaded { version: reported, violations } && reported == version
    &&& forall|m: int| k < m < exchanges.len() ==> (#[trigger] exchanges[m]).0 != TxnActionView::Load(table)
}

/// Whether the requirements of a table held at the load at `k`.
pub open spec fn load_is_clean(exchanges: Seq<TxnExchange>, k: int) -> bool {
    exchanges[k].1 matches TxnEvent::Loaded { version, violations } && violations@.len() == 0
}

/// Whether this table was last loaded at this version, with every requirement
/// met.
pub open spec fn loaded_clean(exchanges: Seq<TxnExchange>, table: int, version: u64) -> bool {
    exists|k: int| #[trigger] last_load(exchanges, k, table, version) && load_is_clean(exchanges, k)
}

/// Whether this table was last loaded with a requirement violated.
pub open spec fn loaded_dirty(exchanges: Seq<TxnExchange>, table: int) -> bool {
    exists|k: int, version: u64|
        #[trigger] last_load(exchanges, k, table, version) && !load_is_clean(exchanges, k)
}

/// Whether the exchange at `k` is the last judgement of this table's candidate.
pub open spec fn last_judgement(
    exchanges: Seq<TxnExchange>,
    k: int,
    table: int,
    decision: ContractDecision,
) -> bool {
    &&& 0 <= k < exchanges.len()
    &&& exchanges[k].0 == TxnActionView::Judge(table)
    &&& exchanges[k].1 == TxnEvent::Judged(decision)
    &&& forall|m: int| k < m < exchanges.len() ==> (#[trigger] exchanges[m]).0 != TxnActionView::Judge(table)
}

/// Whether the contracts last let this table's candidate through, with this
/// decision.
pub open spec fn let_through(exchanges: Seq<TxnExchange>, table: int, decision: ContractDecision) -> bool {
    &&& decision is Allow || decision is Warn
    &&& exists|k: int| last_judgement(exchanges, k, table, decision)
}

/// Whether the exchange at `k` wrote this table's candidate for the version
/// after this one, to this file, and no later one wrote it.
pub open spec fn last_write(
    exchanges: Seq<TxnExchange>,
    k: int,
    table: int,
    version: u64,
    file: Seq<char>,
) -> bool {
    &&& 0 <= k < exchanges.len()
    &&& exchanges[k].0 == TxnActionView::Write(table, version + 1)
    &&& exchanges[k].1 matches TxnEvent::Written(at) && at@ == file
    &&& forall|m: int|
        k < m < exchanges.len() ==> !((#[trigger] exchanges[m]).0 matches TxnActionView::Write(t, _version) && t
            == table)
}

/// Whether this table's candidate was last written to this file, for the version
/// after this one.
pub open spec fn written_to(exchanges: Seq<TxnExchange>, table: int, version: u64, file: Seq<char>) -> bool {
    exists|k: int| last_write(exchanges, k, table, version, file)
}

/// The records of the warnings among a sequence of judgements, in their order.
pub open spec fn warnings_of(decisions: Seq<ContractDecision>) -> Seq<ViolationRecord>
    decreases decisions.len(),
{
    if decisions.len() == 0 {
        seq![]
    } else {
        match decisions.last() {
            ContractDecision::Warn(records) => warnings_of(decisions.drop_last()) + records@,
            _ => warnings_of(decisions.drop_last()),
        }
    }
}

/// How many swaps were lost to another commit.
pub open spec fn lost_swaps(exchanges: Seq<TxnExchange>) -> nat
    decreases exchanges.len(),
{
    if exchanges.len() == 0 {
        0
    } else {
        lost_swaps(exchanges.drop_last()) + (if exchanges.last().0 is Swap && (exchanges.last().1
            matches TxnEvent::Swapped(outcome) && outcome is VersionConflict) {
            1nat
        } else {
            0nat
        })
    }
}

spec fn all_loaded(x: Seq<TxnExchange>, versions: Seq<u64>, clean: bool) -> bool {
    forall|j: int|
        0 <= j < versions.len() ==> #[trigger] was_loaded(x, j, versions[j], clean)
}

spec fn was_loaded(x: Seq<TxnExchange>, table: int, version: u64, clean: bool) -> bool {
    exists|k: int| #[trigger] last_load(x, k, table, version) && (clean ==> load_is_clean(x, k))
}

/// Whether one of the first tables was last loaded with a requirement violated.
pub open spec fn some_dirty(exchanges: Seq<TxnExchange>, count: int) -> bool {
    exists|j: int| 0 <= j < count && #[trigger] loaded_dirty(exchanges, j)
}

/// Whether the decisions let the first tables through, with these records.
pub open spec fn all_let_through(
    exchanges: Seq<TxnExchange>,
    decisions: Seq<ContractDecision>,
    records: Seq<ViolationRecord>,
) -> bool {
    &&& records == warnings_of(decisions)
    &&& forall|j: int| 0 <= j < decisions.len() ==> let_through(exchanges, j, #[trigger] decisions[j])
}

spec fn judged_so_far(x: Seq<TxnExchange>, count: int, records: Seq<ViolationRecord>) -> bool {
    exists|decisions: Seq<ContractDecision>|
        decisions.len() == count && #[trigger] all_let_through(x, decisions, records)
}

/// Whether the first tables were written to these files.
pub open spec fn all_written(exchanges: Seq<TxnExchange>, versions: Seq<u64>, staged: Seq<Seq<char>>) -> bool {
    forall|j: int| 0 <= j < staged.len() ==> written_to(exchanges, j, versions[j], #[trigger] staged[j])
}

/// Where a transaction stands is what the events said.
spec fn told(h: TxnHistory, tables: int) -> bool {
    &&& tables >= 1
    &&& h.run.tables == tables
    &&& 1 <= h.run.attempt <= commit::MAX_COMMIT_ATTEMPTS
    &&& h.run.phase !is Finished ==> h.run.attempt == 1 + lost_swaps(h.exchanges)
    &&& match h.run.phase {
        TxnPhaseView::Checking(versions, violations) => {
            &&& versions.len() < tables
            &&& h.awaited == TxnActionView::Load(versions.len() as int)
            &&& all_loaded(h.exchanges, versions, violations.len() == 0)
            &&& violations.len() > 0 ==> some_dirty(h.exchanges, versions.len() as int)
        },
        TxnPhaseView::Building(versions, staged, records) => {
            &&& versions.len() == tables
            &&& staged.len() < tables
            &&& h.awaited == TxnActionView::Build(staged.len() as int)
            &&& all_loaded(h.exchanges, versions, true)
            &&& all_written(h.exchanges, versions, staged)
            &&& judged_so_far(h.exchanges, staged.len() as int, records)
        },
        TxnPhaseView::Judging(versions, staged, records) => {
            &&& versions.len() == tables
            &&& staged.len() < tables
            &&& h.awaited == TxnActionView::Judge(staged.len() as int)
            &&& all_loaded(h.exchanges, versions, true)
            &&& all_written(h.exchanges, versions, staged)
            &&& judged_so_far(h.exchanges, staged.len() as int, records)
        },
        TxnPhaseView::Writing(versions, staged, records) => {
            &&& versions.len() == tables
            &&& staged.len() < tables
            &&& h.awaited == TxnActionView::Write(staged.len() as int, versions[staged.len() as int] + 1)
            &&& all_loaded(h.exchanges, versions, true)
            &&& all_written(h.exchanges, versions, staged)
            &&& judged_so_far(h.exchanges, staged.len() as int + 1, records)
        },
        TxnPhaseView::Swapping(staged) => staged.len() == tables && (h.awaited matches TxnActionView::Swap(
            expected,
            files,
            records,
        ) && files == staged && expected.len() == tables),
        TxnPhaseView::Finished => h.awaited is Answer,
    }
}

proof fn loads_stay(x: Seq<TxnExchange>, more: TxnExchange, versions: Seq<u64>, clean: bool)
    requires
        all_loaded(x, versions, clean),
        more.0 matches TxnActionView::Load(t) ==> t >= versions.len(),
    ensures
        all_loaded(x.push(more), versions, clean),
{
    assert forall|j: int| 0 <= j < versions.len() implies #[trigger] was_loaded(x.push(more), j, versions[j], clean) by {
        assert(was_loaded(x, j, versions[j], clean));
        let k = choose|k: int| #[trigger] last_load(x, k, j, versions[j]) && (clean ==> load_is_clean(x, k));
        assert(x.push(more)[k] == x[k]);
        assert(last_load(x.push(more), k, j, versions[j]));
    }
}

proof fn dirt_stays(x: Seq<TxnExchange>, more: TxnExchange, count: int)
    requires
        some_dirty(x, count),
        more.0 matches TxnActionView::Load(t) ==> t >= count,
    ensures
        some_dirty(x.push(more), count),
{
    let j = choose|j: int| 0 <= j < count && #[trigger] loaded_dirty(x, j);
    let (k, version) = choose|k: int, version: u64|
        #[trigger] last_load(x, k, j, version) && !load_is_clean(x, k);
    assert(x.push(more)[k] == x[k]);
    assert(last_load(x.push(more), k, j, version));
    assert(loaded_dirty(x.push(more), j));
}

proof fn writes_stay(x: Seq<TxnExchange>, more: TxnExchange, versions: Seq<u64>, staged: Seq<Seq<char>>)
    requires
        all_written(x, versions, staged),
        more.0 matches TxnActionView::Write(t, _version) ==> t >= staged.len(),
    ensures
        all_written(x.push(more), versions, staged),
{
    assert forall|j: int| 0 <= j < staged.len() implies written_to(
        x.push(more),
        j,
        versions[j],
        #[trigger] staged[j],
    ) by {
        let k = choose|k: int| last_write(x, k, j, versions[j], staged[j]);
        assert(x.push(more)[k] == x[k]);
        assert(last_write(x.push(more), k, j, versions[j], staged[j]));
    }
}

proof fn judgements_stay(x: Seq<TxnExchange>, more: TxnExchange, count: int, records: Seq<ViolationRecord>)
    requires
        judged_so_far(x, count, records),
        more.0 matches TxnActionView::Judge(t) ==> t >= count,
    ensures
        judged_so_far(x.push(more), count, records),
{
    let decisions = choose|decisions: Seq<ContractDecision>|
        decisions.len() == count && #[trigger] all_let_through(x, decisions, records);
    assert forall|j: int| 0 <= j < decisions.len() implies let_through(x.push(more), j, #[trigger] decisions[j]) by {
        let k = choose|k: int| last_judgement(x, k, j, decisions[j]);
        assert(x.push(more)[k] == x[k]);
        assert(last_judgement(x.push(more), k, j, decisions[j]));
    }
    assert(all_let_through(x.push(more), decisions, records));
}

proof fn judgement_adds(
    x: Seq<TxnExchange>,
    count: int,
    records: Seq<ViolationRecord>,
    decision: ContractDecision,
    all: Seq<ViolationRecord>,
)
    requires
        judged_so_far(x, count, records),
        count >= 0,
        decision is Allow || decision is Warn,
        all == (match decision {
            ContractDecision::Warn(more) => records + more@,
            _ => records,
        }),
    ensures
        judged_so_far(x.push((TxnActionView::Judge(count), TxnEvent::Judged(decision))), count + 1, all),
{
    let more = (TxnActionView::Judge(count), TxnEvent::Judged(decision));
    judgements_stay(x, more, count, records);
    let decisions = choose|decisions: Seq<ContractDecision>|
        decisions.len() == count && #[trigger] all_let_through(x.push(more), decisions, records);
    let longer = decisions.push(decision);
    assert(longer.drop_last() =~= decisions);
    assert forall|j: int| 0 <= j < longer.len() implies let_through(x.push(more), j, #[trigger] longer[j]) by {
        if j < count {
            assert(longer[j] == decisions[j]);
        } else {
            assert(last_judgement(x.push(more), x.len() as int, count, decision));
        }
    }
    assert(all_let_through(x.push(more), longer, all));
}

proof fn write_adds(x: Seq<TxnExchange>, versions: Seq<u64>, staged: Seq<Seq<char>>, at: String)
    requires
        all_written(x, versions, staged),
    ensures
        all_written(
            x.push(
                (
                    TxnActionView::Write(staged.len() as int, versions[staged.len() as int] + 1),
                    TxnEvent::Written(at),
                ),
            ),
            versions,
            staged.push(at@),
        ),
{
    let more = (
        TxnActionView::Write(staged.len() as int, versions[staged.len() as int] + 1),
        TxnEvent::Written(at),
    );
    let longer = staged.push(at@);
    writes_stay(x, more, versions, staged);
    assert forall|j: int| 0 <= j < longer.len() implies written_to(
        x.push(more),
        j,
        versions[j],
        #[trigger] longer[j],
    ) by {
        if j < staged.len() {
            assert(longer[j] == staged[j]);
        } else {
            assert(last_write(x.push(more), x.len() as int, j, versions[j], at@));
        }
    }
}

proof fn load_adds(
    x: Seq<TxnExchange>,
    versions: Seq<u64>,
    violations: Seq<Seq<char>>,
    version: u64,
    found: Vec<String>,
)
    requires
        all_loaded(x, versions, violations.len() == 0),
        violations.len() > 0 ==> some_dirty(x, versions.len() as int),
    ensures
        ({
            let more = (TxnActionView::Load(versions.len() as int), TxnEvent::Loaded { version, violations: found });
            let all = violations + text::texts(found@);
            &&& all_loaded(x.push(more), versions.push(version), all.len() == 0)
            &&& all.len() > 0 ==> some_dirty(x.push(more), versions.len() as int + 1)
        }),
{
    let more = (TxnActionView::Load(versions.len() as int), TxnEvent::Loaded { version, violations: found });
    let all = violations + text::texts(found@);
    let longer = versions.push(version);
    let clean = all.len() == 0;
    loads_stay(x, more, versions, violations.len() == 0);
    assert(text::texts(found@).len() == found@.len());
    assert(last_load(x.push(more), x.len() as int, versions.len() as int, version));
    assert forall|j: int| 0 <= j < longer.len() implies #[trigger] was_loaded(
        x.push(more),
        j,
        longer[j],
        clean,
    ) by {
        if j < versions.len() {
            assert(was_loaded(x.push(more), j, versions[j], violations.len() == 0));
        }
    }
    if violations.len() > 0 {
        dirt_stays(x, more, versions.len() as int);
        let j = choose|j: int| 0 <= j < versions.len() && #[trigger] loaded_dirty(x.push(more), j);
        assert(loaded_dirty(x.push(more), j));
    } else if found@.len() > 0 {
        assert(!load_is_clean(x.push(more), x.len() as int));
        assert(loaded_dirty(x.push(more), versions.len() as int));
    }
}

proof fn next_is_told(h: TxnHistory, tables: int, event: TxnEvent)
    requires
        told(h, tables),
    ensures
        told(followed(h, event), tables),
{
    let after = followed(h, event);
    let x = h.exchanges;
    let more = (h.awaited, event);
    assert(after.exchanges.drop_last() =~= x);
    match h.run.phase {
        TxnPhaseView::Checking(versions, violations) => {
            if let TxnEvent::Loaded { version, violations: found } = event {
                load_adds(x, versions, violations, version, found);
                assert(all_let_through(after.exchanges, Seq::<ContractDecision>::empty(), Seq::<ViolationRecord>::empty()));
            } else {
                loads_stay(x, more, versions, violations.len() == 0);
                if violations.len() > 0 {
                    dirt_stays(x, more, versions.len() as int);
                }
            }
        },
        TxnPhaseView::Building(versions, staged, records) => {
            loads_stay(x, more, versions, true);
            writes_stay(x, more, versions, staged);
            judgements_stay(x, more, staged.len() as int, records);
        },
        TxnPhaseView::Judging(versions, staged, records) => {
            loads_stay(x, more, versions, true);
            writes_stay(x, more, versions, staged);
            judgements_stay(x, more, staged.len() as int, records);
            if let TxnEvent::Judged(decision) = event {
                match decision {
                    ContractDecision::Allow => judgement_adds(x, staged.len() as int, records, decision, records),
                    ContractDecision::Warn(added) => judgement_adds(
                        x,
                        staged.len() as int,
                        records,
                        decision,
                        records + added@,
                    ),
                    _ => {},
                }
            }
        },
        TxnPhaseView::Writing(versions, staged, records) => {
            loads_stay(x, more, versions, true);
            writes_stay(x, more, versions, staged);
            judgements_stay(x, more, staged.len() as int + 1, records);
            if let TxnEvent::Written(at) = event {
                write_adds(x, versions, staged, at);
            }
        },
        _ => {},
    }
}

proof fn history_is_told(tables: int, events: Seq<TxnEvent>)
    requires
        tables >= 1,
    ensures
        told(history(tables, events), tables),
    decreases events.len(),
{
    if events.len() > 0 {
        history_is_told(tables, events.drop_last());
        next_is_told(history(tables, events.drop_last()), tables, events.last());
    }
}

proof fn clean_loads(x: Seq<TxnExchange>, versions: Seq<u64>)
    requires
        all_loaded(x, versions, true),
    ensures
        forall|j: int| 0 <= j < versions.len() ==> loaded_clean(x, j, #[trigger] versions[j]),
{
    assert forall|j: int| 0 <= j < versions.len() implies loaded_clean(x, j, #[trigger] versions[j]) by {
        assert(was_loaded(x, j, versions[j], true));
    }
}

/// A transaction swaps once, after the last of its tables was written, and all
/// of them together. For every table the swap expects the version that its last
/// load reported, on which every requirement held, and moves the pointer to the
/// file that its candidate was last written to, for the version after that one.
/// The contracts let every candidate through, and what they warned of lands with
/// the swap, in the order of the tables.
pub proof fn swaps_expect_what_was_loaded(
    tables: int,
    events: Seq<TxnEvent>,
    event: TxnEvent,
    i: int,
    expected: Seq<u64>,
    staged: Seq<Seq<char>>,
    records: Seq<ViolationRecord>,
)
    requires
        tables >= 1,
        ({
            let actions = txn_step(history(tables, events).run, event).1;
            0 <= i < actions.len() && actions[i] == TxnActionView::Swap(expected, staged, records)
        }),
    ensures
        ({
            let before = history(tables, events);
            let exchanges = followed(before, event).exchanges;
            &&& txn_step(before.run, event).1.len() == 1
            &&& before.awaited matches TxnActionView::Write(table, _version) && table == tables - 1
            &&& event is Written
            &&& expected.len() == tables
            &&& staged.len() == tables
            &&& forall|j: int| 0 <= j < tables ==> loaded_clean(exchanges, j, #[trigger] expected[j])
            &&& forall|j: int| 0 <= j < tables ==> written_to(exchanges, j, expected[j], #[trigger] staged[j])
            &&& exists|decisions: Seq<ContractDecision>|
                decisions.len() == tables && #[trigger] all_let_through(exchanges, decisions, records)
        }),
{
    let h = history(tables, events);
    history_is_told(tables, events);
    if let TxnPhaseView::Writing(versions, files, recorded) = h.run.phase {
        if let TxnEvent::Written(at) = event {
            loads_stay(h.exchanges, (h.awaited, event), versions, true);
            write_adds(h.exchanges, versions, files, at);
            judgements_stay(h.exchanges, (h.awaited, event), files.len() as int + 1, recorded);
            clean_loads(followed(h, event).exchanges, versions);
        }
    }
}

/// A judgement decides what becomes of the whole transaction. Where it allows or
/// warns, the candidate is written for the version after the loaded one. Where
/// it quarantines or blocks, the transaction is over: every file written in this
/// attempt is deleted, and the answer names that table and the judgement's own
/// refusal, with its records all marked as refused. Nothing is written, built or
/// swapped then.
pub proof fn judgements_decide(tables: int, events: Seq<TxnEvent>, table: int, decision: ContractDecision)
    requires
        tables >= 1,
        history(tables, events).awaited == TxnActionView::Judge(table),
    ensures
        ({
            let before = history(tables, events);
            let (next, actions) = txn_step(before.run, TxnEvent::Judged(decision));
            match decision {
                ContractDecision::Allow | ContractDecision::Warn(_) => exists|version: u64|
                    #[trigger] loaded_clean(before.exchanges, table, version) && actions == seq![
                        TxnActionView::Write(table, version + 1),
                    ],
                ContractDecision::Quarantine(own, _branch, blocked) => {
                    &&& next.phase is Finished
                    &&& refused_at(before.exchanges, actions, table, blocked, own@)
                    &&& actions.last() matches TxnActionView::Answer(TxnAnswerView::Blocked(_at, _blocked, written))
                        && forall|k: int|
                        0 <= k < written.len() ==> (#[trigger] written[k]).outcome
                            == contracts::ViolationOutcome::Blocked
                },
                ContractDecision::Block(own, blocked) => {
                    &&& next.phase is Finished
                    &&& refused_at(before.exchanges, actions, table, blocked, own@)
                    &&& actions.last() == TxnActionView::Answer(TxnAnswerView::Blocked(table, blocked, own@))
                },
            }
        }),
{
    let h = history(tables, events);
    history_is_told(tables, events);
    if let TxnPhaseView::Judging(versions, staged, records) = h.run.phase {
        clean_loads(h.exchanges, versions);
        assert(loaded_clean(h.exchanges, table, versions[table]));
        let actions = txn_step(h.run, TxnEvent::Judged(decision)).1;
        if !(decision is Allow) && !(decision is Warn) {
            assert forall|j: int, version: u64, file: Seq<char>|
                0 <= j < table && #[trigger] written_to(h.exchanges, j, version, file) implies actions.contains(
                TxnActionView::Discard(file),
            ) by {
                assert(written_to(h.exchanges, j, versions[j], staged[j]));
                one_last_write(h.exchanges, j, version, file, versions[j], staged[j]);
                assert(actions[j] == TxnActionView::Discard(staged[j]));
            }
        }
    }
}

/// Whether the actions refuse the transaction for this table: the files of the
/// tables before it are deleted, and the answer gives the refusal with the
/// records.
pub open spec fn refused_at(
    exchanges: Seq<TxnExchange>,
    actions: Seq<TxnActionView>,
    table: int,
    blocked: BlockedCommit,
    own: Seq<ViolationRecord>,
) -> bool {
    &&& actions.len() == table + 1
    &&& forall|i: int| 0 <= i < table ==> (#[trigger] actions[i]) is Discard
    &&& forall|j: int, version: u64, file: Seq<char>|
        0 <= j < table && #[trigger] written_to(exchanges, j, version, file) ==> actions.contains(
            TxnActionView::Discard(file),
        )
    &&& actions[table] matches TxnActionView::Answer(TxnAnswerView::Blocked(at, answered, written)) && at == table
        && answered == blocked && written.len() == own.len() && forall|k: int|
        0 <= k < own.len() ==> {
            &&& (#[trigger] written[k]).contract_id == own[k].contract_id
            &&& written[k].table_id == own[k].table_id
            &&& written[k].snapshot_id == own[k].snapshot_id
            &&& written[k].violations == own[k].violations
            &&& written[k].outcome == own[k].outcome || written[k].outcome == contracts::ViolationOutcome::Blocked
        }
}

proof fn one_last_write(
    x: Seq<TxnExchange>,
    table: int,
    version: u64,
    file: Seq<char>,
    other: u64,
    other_file: Seq<char>,
)
    requires
        written_to(x, table, version, file),
        written_to(x, table, other, other_file),
    ensures
        version == other,
        file == other_file,
{
    let k = choose|k: int| last_write(x, k, table, version, file);
    let m = choose|m: int| last_write(x, m, table, other, other_file);
    if k < m {
        assert(x[m].0 == TxnActionView::Write(table, other + 1));
    }
    if m < k {
        assert(x[k].0 == TxnActionView::Write(table, version + 1));
    }
}

/// What follows the replies ahead of the swap, beside the judgements. The tables
/// are loaded one after the other. Nothing is built unless every requirement of
/// every table held; otherwise the transaction is refused. Then the tables are
/// built, judged and written one after the other. Whatever fails ends the
/// transaction with an error, and deletes every file that it wrote.
pub proof fn replies_are_followed_up(tables: int, events: Seq<TxnEvent>, event: TxnEvent)
    requires
        tables >= 1,
    ensures
        ({
            let before = history(tables, events);
            let (next, actions) = txn_step(before.run, event);
            let exchanges = followed(before, event).exchanges;
            match before.awaited {
                TxnActionView::Load(table) => match event {
                    TxnEvent::Loaded { version, violations } => {
                        &&& 0 <= table < tables
                        &&& actions.len() == 1
                        &&& if table + 1 < tables {
                            actions[0] == TxnActionView::Load(table + 1)
                        } else {
                            ||| all_clean(exchanges, tables) && actions[0] == TxnActionView::Build(0)
                            ||| some_dirty(exchanges, tables) && next.phase is Finished && (actions[0]
                                matches TxnActionView::Answer(TxnAnswerView::Error(e)) && e.kind
                                == ErrorKind::CommitFailed)
                        }
                    },
                    TxnEvent::LoadFailed(e) => next.phase is Finished && actions == seq![
                        TxnActionView::Answer(TxnAnswerView::Error(e@)),
                    ],
                    _ => actions.len() == 0,
                },
                TxnActionView::Build(table) => match event {
                    TxnEvent::Built => actions == seq![TxnActionView::Judge(table)],
                    TxnEvent::BuildRefused(_) => next.phase is Finished && fails_at(before.exchanges, actions, table),
                    _ => actions.len() == 0,
                },
                TxnActionView::Judge(table) => match event {
                    TxnEvent::Judged(_) => actions.len() > 0,
                    TxnEvent::JudgeFailed(e) => next.phase is Finished && fails_at(before.exchanges, actions, table)
                        && actions.last() == TxnActionView::Answer(TxnAnswerView::Error(e@)),
                    _ => actions.len() == 0,
                },
                TxnActionView::Write(table, _version) => match event {
                    TxnEvent::Written(_) => {
                        &&& 0 <= table < tables
                        &&& actions.len() == 1
                        &&& if table + 1 < tables {
                            actions[0] == TxnActionView::Build(table + 1)
                        } else {
                            actions[0] is Swap
                        }
                    },
                    TxnEvent::WriteFailed(_) => next.phase is Finished && fails_at(before.exchanges, actions, table),
                    _ => actions.len() == 0,
                },
                TxnActionView::Swap(_expected, _staged, _records) => !(event is Swapped) ==> actions.len() == 0,
                TxnActionView::Discard(_file) => false,
                TxnActionView::Answer(_answer) => actions.len() == 0,
            }
        }),
{
    let h = history(tables, events);
    history_is_told(tables, events);
    next_is_told(h, tables, event);
    let x = followed(h, event).exchanges;
    let actions = txn_step(h.run, event).1;
    match h.run.phase {
        TxnPhaseView::Checking(versions, violations) => {
            if let TxnEvent::Loaded { version, violations: found } = event {
                load_adds(h.exchanges, versions, violations, version, found);
                let all = violations + text::texts(found@);
                let longer = versions.push(version);
                if longer.len() == tables {
                    if all.len() == 0 {
                        assert forall|j: int| 0 <= j < tables implies #[trigger] loaded_at_all(x, j) && !loaded_dirty(x, j) by {
                            assert(was_loaded(x, j, longer[j], true));
                            one_last_load(x, j, longer[j]);
                        }
                    } else {
                        assert(some_dirty(x, tables));
                    }
                }
            }
        },
        TxnPhaseView::Building(versions, staged, records) => {
            if event is BuildRefused {
                files_are_discarded(h.exchanges, actions, versions, staged);
            }
        },
        TxnPhaseView::Judging(versions, staged, records) => {
            if event is JudgeFailed {
                files_are_discarded(h.exchanges, actions, versions, staged);
            }
        },
        TxnPhaseView::Writing(versions, staged, records) => {
            if event is WriteFailed {
                files_are_discarded(h.exchanges, actions, versions, staged);
            }
        },
        _ => {},
    }
}

/// Whether every table was last loaded with all of its requirements met.
pub open spec fn all_clean(exchanges: Seq<TxnExchange>, tables: int) -> bool {
    forall|j: int|
        0 <= j < tables ==> #[trigger] loaded_at_all(exchanges, j) && !loaded_dirty(exchanges, j)
}

/// Whether this table was loaded.
pub open spec fn loaded_at_all(exchanges: Seq<TxnExchange>, table: int) -> bool {
    exists|k: int, version: u64| last_load(exchanges, k, table, version)
}

/// Whether the actions give up at this table: the files of the tables before it
/// are deleted, and the answer is an error.
pub open spec fn fails_at(exchanges: Seq<TxnExchange>, actions: Seq<TxnActionView>, table: int) -> bool {
    &&& actions.len() == table + 1
    &&& forall|i: int| 0 <= i < table ==> (#[trigger] actions[i]) is Discard
    &&& forall|j: int, version: u64, file: Seq<char>|
        0 <= j < table && #[trigger] written_to(exchanges, j, version, file) ==> actions.contains(
            TxnActionView::Discard(file),
        )
    &&& actions[table] matches TxnActionView::Answer(answer) && answer is Error
}

proof fn one_last_load(x: Seq<TxnExchange>, table: int, version: u64)
    requires
        was_loaded(x, table, version, true),
    ensures
        loaded_at_all(x, table),
        !loaded_dirty(x, table),
{
    let k = choose|k: int| #[trigger] last_load(x, k, table, version) && load_is_clean(x, k);
    assert(last_load(x, k, table, version));
    if loaded_dirty(x, table) {
        let (m, other) = choose|m: int, other: u64| #[trigger] last_load(x, m, table, other) && !load_is_clean(x, m);
        if k < m {
            assert(x[m].0 == TxnActionView::Load(table));
        }
        if m < k {
            assert(x[k].0 == TxnActionView::Load(table));
        }
    }
}

proof fn files_are_discarded(
    x: Seq<TxnExchange>,
    actions: Seq<TxnActionView>,
    versions: Seq<u64>,
    staged: Seq<Seq<char>>,
)
    requires
        all_written(x, versions, staged),
        actions.len() == staged.len() + 1,
        actions.drop_last() =~= discard_all(staged),
    ensures
        forall|j: int, version: u64, file: Seq<char>|
            0 <= j < staged.len() && #[trigger] written_to(x, j, version, file) ==> actions.contains(
                TxnActionView::Discard(file),
            ),
        forall|i: int| 0 <= i < staged.len() ==> (#[trigger] actions[i]) is Discard,
{
    assert forall|i: int| 0 <= i < staged.len() implies #[trigger] actions[i] == TxnActionView::Discard(staged[i]) by {
        assert(actions.drop_last()[i] == discard_all(staged)[i]);
    }
    assert forall|j: int, version: u64, file: Seq<char>|
        0 <= j < staged.len() && #[trigger] written_to(x, j, version, file) implies actions.contains(
        TxnActionView::Discard(file),
    ) by {
        assert(written_to(x, j, versions[j], staged[j]));
        one_last_write(x, j, version, file, versions[j], staged[j]);
        assert(actions[j] == TxnActionView::Discard(staged[j]));
    }
}

/// What follows the reply to a swap. One that landed is answered as committed,
/// and nothing is deleted; so is one whose outcome is unknown, with an error. A
/// lost one deletes every file and loads the first base again, but the third is
/// refused. A replay or a failure deletes every file.
pub proof fn swaps_are_answered(
    tables: int,
    events: Seq<TxnEvent>,
    outcome: SwapOutcome,
    expected: Seq<u64>,
    staged: Seq<Seq<char>>,
    records: Seq<ViolationRecord>,
)
    requires
        tables >= 1,
        history(tables, events).awaited == TxnActionView::Swap(expected, staged, records),
    ensures
        ({
            let before = history(tables, events);
            let (next, actions) = txn_step(before.run, TxnEvent::Swapped(outcome));
            match outcome {
                SwapOutcome::Committed(_) => next.phase is Finished && actions == seq![
                    TxnActionView::Answer(TxnAnswerView::Committed),
                ],
                SwapOutcome::StateUnknown => next.phase is Finished && actions.len() == 1 && (actions[0]
                    matches TxnActionView::Answer(TxnAnswerView::Error(e)) && e.kind == ErrorKind::CommitStateUnknown),
                _ => {
                    &&& actions.len() == tables + 1
                    &&& staged.len() == tables
                    &&& forall|i: int| 0 <= i < tables ==> actions[i] == TxnActionView::Discard(#[trigger] staged[i])
                    &&& match outcome {
                        SwapOutcome::Replayed => actions.last() == TxnActionView::Answer(TxnAnswerView::Committed),
                        SwapOutcome::VersionConflict => if lost_swaps(before.exchanges) < 2 {
                            actions.last() == TxnActionView::Load(0)
                        } else {
                            actions.last() matches TxnActionView::Answer(TxnAnswerView::Error(e)) && e.kind
                                == ErrorKind::CommitFailed
                        },
                        _ => actions.last() matches TxnActionView::Answer(answer) && answer is Error,
                    }
                },
            }
        }),
{
    let h = history(tables, events);
    history_is_told(tables, events);
    let actions = txn_step(h.run, TxnEvent::Swapped(outcome)).1;
    if !(outcome is Committed) && !(outcome is StateUnknown) {
        assert forall|i: int| 0 <= i < tables implies actions[i] == TxnActionView::Discard(#[trigger] staged[i]) by {
            assert(discard_all(staged)[i] == TxnActionView::Discard(staged[i]));
        }
    }
}

/// The violations of the tables pile up: each load adds its own behind those of
/// the tables before it, and where there are any at the last table, the refusal
/// names them all.
pub proof fn violations_pile_up(run: TxnView, version: u64, found: Vec<String>)
    requires
        in_order(run),
        run.phase is Checking,
    ensures
        ({
            let (next, actions) = txn_step(run, TxnEvent::Loaded { version, violations: found });
            let all = run.phase->Checking_1 + text::texts(found@);
            if run.phase->Checking_0.len() + 1 < run.tables {
                next.phase matches TxnPhaseView::Checking(versions, violations) && violations == all && versions
                    == run.phase->Checking_0.push(version)
            } else if all.len() > 0 {
                &&& next.phase is Finished
                &&& actions.len() == 1
                &&& actions[0] matches TxnActionView::Answer(TxnAnswerView::Error(e)) && e.kind
                    == ErrorKind::CommitFailed && e.message == text::join_with(all, "; "@)
            } else {
                next.phase matches TxnPhaseView::Building(versions, staged, records) && versions
                    == run.phase->Checking_0.push(version) && staged.len() == 0 && records.len() == 0
            }
        }),
{
}

} // verus!
