//! The commit routes: which commit a request comes to.
//!
//! A caller is authorized before a recorded receipt is recalled, so that one
//! who may not commit never sees another's answer.

use vstd::prelude::*;

use crate::branches;
use crate::branches::BranchRecord;
use crate::commit;
use crate::commit::{check_requirements, requirements_hold};
use crate::error;
use crate::error::{ApiError, ErrorKind};
use crate::grants;
use crate::grants::{require, Access, Found};
use crate::ids;
use crate::ids::fresh_table_uuid;
use crate::namespaces;
use crate::namespaces::{decode_namespace_param, split_prefix};
use crate::tables;
use crate::tables::{
    created_uuid, default_table_location, has_assert_create, idempotency_key, key_reuse_error, no_such_table,
    parse_commit_request, reject_if_foreign, reject_if_foreign_warehouse, validate_table_name, CommitBody, Header,
    ParsedCommit, TableRecord, TaggedValue, WarehouseRecord,
};
use crate::text;
use crate::text::{cat2, quote, same, same_texts};

verus! {

/// What a caller must hold to commit.
#[derive(Clone, Copy, Debug, PartialEq, Eq, Structural)]
pub enum CommitPrivilege {
    /// To commit to the table.
    Commit,
    /// To create a table in the namespace.
    CreateTable,
}

/// What the store has answered so far about a commit.
#[derive(Debug)]
pub struct CommitFacts {
    /// The warehouse of the prefix.
    pub warehouse: Found<WarehouseRecord>,
    /// The branch or tag of the prefix.
    pub branch: Found<BranchRecord>,
    /// The table of the path.
    pub table: Found<TableRecord>,
    /// Whether the caller holds the privilege that was asked for.
    pub access: Option<Access>,
    /// The fingerprint that was recorded under the idempotency key.
    pub receipt: Found<String>,
}

/// The next step of a commit request.
#[derive(Debug)]
pub enum DispatchStep {
    /// Look up the warehouse of this name.
    AskWarehouse(String),
    /// Look up the branch or tag of this name.
    AskBranch(String),
    /// Look up the table, in the namespace of these levels.
    AskTable(Vec<String>),
    /// Ask whether the caller holds the privilege.
    AskAccess(CommitPrivilege),
    /// Recall the receipt recorded under this key.
    AskReceipt(String),
    /// Answer as the recorded receipt says.
    Replay,
    /// Commit to the table's main line.
    CommitMain,
    /// Commit to the table's pointer on the branch.
    CommitBranch,
    /// Create the table.
    CommitCreate,
    /// Answer with the error.
    Refuse(ApiError),
}

/// The model of the next step.
pub enum DispatchView {
    /// Look up the warehouse of this name.
    AskWarehouse(Seq<char>),
    /// Look up the branch or tag of this name.
    AskBranch(Seq<char>),
    /// Look up the table, in the namespace of these levels.
    AskTable(Seq<Seq<char>>),
    /// Ask whether the caller holds the privilege.
    AskAccess(CommitPrivilege),
    /// Recall the receipt recorded under this key.
    AskReceipt(Seq<char>),
    /// Answer as the recorded receipt says.
    Replay,
    /// Commit to the table's main line.
    CommitMain,
    /// Commit to the table's pointer on the branch.
    CommitBranch,
    /// Create the table.
    CommitCreate,
    /// Answer with the error.
    Refuse(error::ErrorView),
}

/// Whether `step` is the modelled step.
pub open spec fn is_dispatch_step(step: DispatchStep, view: DispatchView) -> bool {
    match step {
        DispatchStep::AskWarehouse(name) => view == DispatchView::AskWarehouse(name@),
        DispatchStep::AskBranch(name) => view == DispatchView::AskBranch(name@),
        DispatchStep::AskTable(levels) => view == DispatchView::AskTable(text::texts(levels@)),
        DispatchStep::AskAccess(p) => view == DispatchView::AskAccess(p),
        DispatchStep::AskReceipt(key) => view == DispatchView::AskReceipt(key@),
        DispatchStep::Replay => view is Replay,
        DispatchStep::CommitMain => view is CommitMain,
        DispatchStep::CommitBranch => view is CommitBranch,
        DispatchStep::CommitCreate => view is CommitCreate,
        DispatchStep::Refuse(e) => view == DispatchView::Refuse(e@),
    }
}

/// The identifier that a sound body names.
pub open spec fn body_identifier(body: CommitBody) -> Option<(Seq<Seq<char>>, Seq<char>)> {
    match body {
        CommitBody::Object { identifier: tables::IdentifierField::Is(id), requirements: _, updates: _ } => Some(
            tables::identifier_text(id),
        ),
        _ => None,
    }
}

/// Whether an element of the requirements asserts that the table does not
/// exist.
pub open spec fn states_create(value: Result<TaggedValue, String>) -> bool {
    value matches Ok(v) && v.tag@ == "assert-create"@
}

/// Whether a sound body asserts that the table does not exist.
pub open spec fn body_asserts_create(body: CommitBody) -> bool {
    match body {
        CommitBody::Object { identifier: _, requirements: tables::ListField::Items(items), updates: _ } => exists|
            i: int,
        |
            0 <= i < items@.len() && states_create(#[trigger] items@[i]),
        _ => false,
    }
}

/// The step once the caller may commit: a recorded receipt is replayed, and a
/// key that was used for another request is refused.
pub open spec fn recalled_step(
    key: Option<Seq<char>>,
    fingerprint: Seq<char>,
    receipt: Found<String>,
    go: DispatchView,
) -> DispatchView {
    match key {
        None => go,
        Some(k) => match receipt {
            Found::Unasked => DispatchView::AskReceipt(k),
            Found::Missing => go,
            Found::Is(recorded) => if recorded@ == fingerprint {
                DispatchView::Replay
            } else {
                DispatchView::Refuse(tables::key_reuse(k))
            },
        },
    }
}

/// The refusal of a commit to a tag.
pub open spec fn tag_is_immutable(name: Seq<char>) -> error::ErrorView {
    error::error_of(
        ErrorKind::ForeignReadOnly,
        text::quoted(name)
            + " is a tag (an immutable ref) and cannot be committed to; commit to a branch or to main instead"@,
    )
}

/// The step of a commit to a branch: never to a tag, and only to a table that
/// exists and is native.
pub open spec fn branch_step(
    branch: BranchRecord,
    levels: Seq<Seq<char>>,
    name: Seq<char>,
    key: Option<Seq<char>>,
    fingerprint: Seq<char>,
    facts: CommitFacts,
) -> DispatchView {
    if branches::is_tag_record(branch) {
        DispatchView::Refuse(tag_is_immutable(branch.name@))
    } else {
        match facts.table {
            Found::Is(record) => match facts.access {
                None => DispatchView::AskAccess(CommitPrivilege::Commit),
                Some(access) => match grants::access_error(access) {
                    Some(e) => DispatchView::Refuse(e),
                    None => match tables::foreign_table_error(record, tables::ident_text(levels, name)) {
                        Some(e) => DispatchView::Refuse(e),
                        None => recalled_step(key, fingerprint, facts.receipt, DispatchView::CommitBranch),
                    },
                },
            },
            _ => DispatchView::Refuse(tables::missing_table(levels, name)),
        }
    }
}

/// The step of a commit to the main line: to a native table that exists, or as
/// the creation of one that does not.
pub open spec fn main_step(
    warehouse: WarehouseRecord,
    levels: Seq<Seq<char>>,
    name: Seq<char>,
    creates: bool,
    key: Option<Seq<char>>,
    fingerprint: Seq<char>,
    facts: CommitFacts,
) -> DispatchView {
    match facts.table {
        Found::Is(record) => match facts.access {
            None => DispatchView::AskAccess(CommitPrivilege::Commit),
            Some(access) => match grants::access_error(access) {
                Some(e) => DispatchView::Refuse(e),
                None => match tables::foreign_table_error(record, tables::ident_text(levels, name)) {
                    Some(e) => DispatchView::Refuse(e),
                    None => recalled_step(key, fingerprint, facts.receipt, DispatchView::CommitMain),
                },
            },
        },
        _ => match facts.access {
            None => DispatchView::AskAccess(CommitPrivilege::CreateTable),
            Some(access) => match grants::access_error(access) {
                Some(e) => DispatchView::Refuse(e),
                None => match tables::foreign_warehouse_error(warehouse) {
                    Some(e) => DispatchView::Refuse(e),
                    None => recalled_step(
                        key,
                        fingerprint,
                        facts.receipt,
                        if creates {
                            DispatchView::CommitCreate
                        } else {
                            DispatchView::Refuse(tables::missing_table(levels, name))
                        },
                    ),
                },
            },
        },
    }
}

/// The step once the path is known to be good: the body, its identifier, the
/// key, the table, then the ref that the prefix names.
pub open spec fn request_step(
    warehouse: WarehouseRecord,
    branch: Option<BranchRecord>,
    levels: Seq<Seq<char>>,
    name: Seq<char>,
    body: CommitBody,
    header: Header,
    fingerprint: Seq<char>,
    facts: CommitFacts,
) -> DispatchView {
    match tables::table_name_error(name) {
        Some(e) => DispatchView::Refuse(e),
        None => match tables::commit_body_error(body) {
            Some(e) => DispatchView::Refuse(e),
            None => if body_identifier(body) matches Some(id) && id != (levels, name) {
                DispatchView::Refuse(error::bad_request("body identifier does not match the request path"@))
            } else {
                match tables::key_of(header) {
                    Err(e) => DispatchView::Refuse(e),
                    Ok(key) => if facts.table is Unasked {
                        DispatchView::AskTable(levels)
                    } else {
                        match branch {
                            Some(b) => branch_step(b, levels, name, key, fingerprint, facts),
                            None => main_step(
                                warehouse,
                                levels,
                                name,
                                body_asserts_create(body),
                                key,
                                fingerprint,
                                facts,
                            ),
                        }
                    },
                }
            },
        },
    }
}

/// The step of a commit request: the warehouse and the ref of the prefix, the
/// levels of the path, then the request.
pub open spec fn dispatch_step(
    prefix: Seq<char>,
    raw: Seq<char>,
    name: Seq<char>,
    body: CommitBody,
    header: Header,
    fingerprint: Seq<char>,
    facts: CommitFacts,
) -> DispatchView {
    let unknown = DispatchView::Refuse(error::error_of(ErrorKind::NoSuchWarehouse, prefix));
    match facts.warehouse {
        Found::Unasked => DispatchView::AskWarehouse(namespaces::prefix_base(prefix)),
        Found::Missing => unknown,
        Found::Is(warehouse) => {
            let levels = namespaces::param_levels(raw);
            match namespaces::prefix_branch(prefix) {
                None => match namespaces::levels_error(levels) {
                    Some(e) => DispatchView::Refuse(e),
                    None => request_step(warehouse, None, levels, name, body, header, fingerprint, facts),
                },
                Some(wanted) => match facts.branch {
                    Found::Unasked => DispatchView::AskBranch(wanted),
                    Found::Missing => unknown,
                    Found::Is(branch) => if branches::is_deleted(branch) {
                        unknown
                    } else {
                        match namespaces::levels_error(levels) {
                            Some(e) => DispatchView::Refuse(e),
                            None => request_step(
                                warehouse,
                                Some(branch),
                                levels,
                                name,
                                body,
                                header,
                                fingerprint,
                                facts,
                            ),
                        }
                    },
                },
            }
        },
    }
}

fn recalled(key: Option<String>, fingerprint: &str, receipt: &Found<String>, go: DispatchStep, Ghost(view): Ghost<DispatchView>) -> (r: DispatchStep)
    requires
        is_dispatch_step(go, view),
    ensures
        is_dispatch_step(r, recalled_step(text::opt_text(key), fingerprint@, *receipt, view)),
{
    match key {
        None => go,
        Some(k) => match receipt {
            Found::Unasked => DispatchStep::AskReceipt(k),
            Found::Missing => go,
            Found::Is(recorded) => if same(recorded.as_str(), fingerprint) {
                DispatchStep::Replay
            } else {
                DispatchStep::Refuse(key_reuse_error(k.as_str()))
            },
        },
    }
}

/// Takes the next step of a commit whose prefix names a branch or a tag.
fn dispatch_branch_commit(
    branch: &BranchRecord,
    levels: &Vec<String>,
    name: &str,
    key: Option<String>,
    fingerprint: &str,
    facts: &CommitFacts,
) -> (r: DispatchStep)
    ensures
        is_dispatch_step(
            r,
            branch_step(*branch, text::texts(levels@), name@, text::opt_text(key), fingerprint@, *facts),
        ),
{
    if branch.is_tag() {
        return DispatchStep::Refuse(
            ApiError::new(
                ErrorKind::ForeignReadOnly,
                cat2(
                    quote(branch.name.as_str()).as_str(),
                    " is a tag (an immutable ref) and cannot be committed to; commit to a branch or to main instead",
                ).as_str(),
            ),
        );
    }
    let record = match &facts.table {
        Found::Is(record) => record,
        _ => { return DispatchStep::Refuse(no_such_table(levels, name)); },
    };
    match &facts.access {
        None => { return DispatchStep::AskAccess(CommitPrivilege::Commit); },
        Some(access) => match require(access) {
            Err(e) => { return DispatchStep::Refuse(e); },
            Ok(()) => {},
        },
    }
    match reject_if_foreign(record, levels, name) {
        Err(e) => { return DispatchStep::Refuse(e); },
        Ok(()) => {},
    }
    recalled(key, fingerprint, &facts.receipt, DispatchStep::CommitBranch, Ghost(DispatchView::CommitBranch))
}

fn dispatch_main_commit(
    warehouse: &WarehouseRecord,
    levels: &Vec<String>,
    name: &str,
    creates: bool,
    key: Option<String>,
    fingerprint: &str,
    facts: &CommitFacts,
) -> (r: DispatchStep)
    ensures
        is_dispatch_step(
            r,
            main_step(
                *warehouse,
                text::texts(levels@),
                name@,
                creates,
                text::opt_text(key),
                fingerprint@,
                *facts,
            ),
        ),
{
    match &facts.table {
        Found::Is(record) => {
            match &facts.access {
                None => { return DispatchStep::AskAccess(CommitPrivilege::Commit); },
                Some(access) => match require(access) {
                    Err(e) => { return DispatchStep::Refuse(e); },
                    Ok(()) => {},
                },
            }
            match reject_if_foreign(record, levels, name) {
                Err(e) => { return DispatchStep::Refuse(e); },
                Ok(()) => {},
            }
            recalled(key, fingerprint, &facts.receipt, DispatchStep::CommitMain, Ghost(DispatchView::CommitMain))
        },
        _ => {
            match &facts.access {
                None => { return DispatchStep::AskAccess(CommitPrivilege::CreateTable); },
                Some(access) => match require(access) {
                    Err(e) => { return DispatchStep::Refuse(e); },
                    Ok(()) => {},
                },
            }
            match reject_if_foreign_warehouse(warehouse) {
                Err(e) => { return DispatchStep::Refuse(e); },
                Ok(()) => {},
            }
            if creates {
                recalled(
                    key,
                    fingerprint,
                    &facts.receipt,
                    DispatchStep::CommitCreate,
                    Ghost(DispatchView::CommitCreate),
                )
            } else {
                let e = no_such_table(levels, name);
                let ghost view = DispatchView::Refuse(e@);
                recalled(key, fingerprint, &facts.receipt, DispatchStep::Refuse(e), Ghost(view))
            }
        },
    }
}

/// A commit that was read asserts that its table does not exist exactly where
/// its body does.
pub proof fn create_is_read_off_the_body(body: CommitBody, parsed: ParsedCommit)
    requires
        tables::states_commit(body, parsed),
        tables::commit_body_error(body) is None,
    ensures
        tables::asserts_create(parsed) == body_asserts_create(body),
{
    match body {
        CommitBody::Object { identifier, requirements, updates } => {
            match requirements {
                tables::ListField::Items(items) => {
                    if tables::asserts_create(parsed) {
                        let i = choose|i: int|
                            0 <= i < parsed.requirements@.len() && (#[trigger] parsed.requirements@[i]) is AssertCreate;
                        assert(tables::states_requirement(items@[i], parsed.requirements@[i]));
                        assert(states_create(items@[i]));
                    }
                    if body_asserts_create(body) {
                        let i = choose|i: int|
                            0 <= i < items@.len() && states_create(#[trigger] items@[i]);
                        assert(tables::states_requirement(items@[i], parsed.requirements@[i]));
                        assert(parsed.requirements@[i] is AssertCreate);
                    }
                },
                _ => {},
            }
        },
        CommitBody::NotObject => {},
    }
}

/// Takes the next step of a commit request. `fingerprint` identifies the
/// request: two requests share it only where they are the same.
pub fn commit_table(
    prefix: &str,
    raw_namespace: &str,
    name: &str,
    body: &CommitBody,
    idempotency: &Header,
    fingerprint: &str,
    facts: &CommitFacts,
) -> (r: DispatchStep)
    ensures
        is_dispatch_step(
            r,
            dispatch_step(prefix@, raw_namespace@, name@, *body, *idempotency, fingerprint@, *facts),
        ),
{
    let (base, branch_name) = split_prefix(prefix);
    let warehouse = match &facts.warehouse {
        Found::Unasked => { return DispatchStep::AskWarehouse(base); },
        Found::Missing => {
            return DispatchStep::Refuse(ApiError::new(ErrorKind::NoSuchWarehouse, prefix));
        },
        Found::Is(warehouse) => warehouse,
    };
    let branch = match branch_name {
        None => None,
        Some(wanted) => match &facts.branch {
            Found::Unasked => { return DispatchStep::AskBranch(wanted); },
            Found::Missing => {
                return DispatchStep::Refuse(ApiError::new(ErrorKind::NoSuchWarehouse, prefix));
            },
            Found::Is(branch) => {
                if branch.deleted() {
                    return DispatchStep::Refuse(ApiError::new(ErrorKind::NoSuchWarehouse, prefix));
                }
                Some(branch)
            },
        },
    };
    let levels = match decode_namespace_param(raw_namespace) {
        Ok(levels) => levels,
        Err(e) => { return DispatchStep::Refuse(e); },
    };
    match validate_table_name(name) {
        Err(e) => { return DispatchStep::Refuse(e); },
        Ok(()) => {},
    }
    let parsed = match parse_commit_request(body) {
        Ok(parsed) => parsed,
        Err(e) => { return DispatchStep::Refuse(e); },
    };
    proof {
        create_is_read_off_the_body(*body, parsed);
        assert(tables::opt_identifier(parsed.identifier) == body_identifier(*body));
    }
    match &parsed.identifier {
        Some(id) => {
            if !same_texts(&id.namespace, &levels) || !same(id.name.as_str(), name) {
                return DispatchStep::Refuse(
                    ApiError::bad_request("body identifier does not match the request path"),
                );
            }
        },
        None => {},
    }
    let key = match idempotency_key(idempotency) {
        Ok(key) => key,
        Err(e) => { return DispatchStep::Refuse(e); },
    };
    match &facts.table {
        Found::Unasked => { return DispatchStep::AskTable(levels); },
        _ => {},
    }
    match branch {
        Some(branch) => dispatch_branch_commit(branch, &levels, name, key, fingerprint, facts),
        None => dispatch_main_commit(
            warehouse,
            &levels,
            name,
            has_assert_create(&parsed),
            key,
            fingerprint,
            facts,
        ),
    }
}

/// A recorded receipt is recalled and replayed only for a caller who may
/// commit.
pub proof fn receipts_are_guarded(
    prefix: Seq<char>,
    raw: Seq<char>,
    name: Seq<char>,
    body: CommitBody,
    header: Header,
    fingerprint: Seq<char>,
    facts: CommitFacts,
)
    ensures
        ({
            let step = dispatch_step(prefix, raw, name, body, header, fingerprint, facts);
            step is AskReceipt || step is Replay || step is CommitMain || step is CommitBranch || step is CommitCreate
                ==> facts.access == Some(Access::Granted)
        }),
{
}

/// A foreign table is never committed to, and no table is created in a foreign
/// warehouse.
pub proof fn foreign_tables_are_read_only(
    prefix: Seq<char>,
    raw: Seq<char>,
    name: Seq<char>,
    body: CommitBody,
    header: Header,
    fingerprint: Seq<char>,
    facts: CommitFacts,
)
    ensures
        ({
            let step = dispatch_step(prefix, raw, name, body, header, fingerprint, facts);
            &&& step is CommitMain || step is CommitBranch ==> (facts.table matches Found::Is(record)
                && record.mirror_id is None)
            &&& step is CommitCreate ==> (facts.warehouse matches Found::Is(w) && !w.foreign)
        }),
{
}

/// A tag is never committed to; a branch commit never moves the main line.
pub proof fn refs_keep_apart(
    prefix: Seq<char>,
    raw: Seq<char>,
    name: Seq<char>,
    body: CommitBody,
    header: Header,
    fingerprint: Seq<char>,
    facts: CommitFacts,
)
    ensures
        ({
            let step = dispatch_step(prefix, raw, name, body, header, fingerprint, facts);
            &&& step is CommitBranch ==> (facts.branch matches Found::Is(b) && !branches::is_tag_record(b))
            &&& step is CommitMain ==> namespaces::prefix_branch(prefix) is None
        }),
{
}

/// Where a commit goes. Under a warehouse alone it goes to the main line of a
/// table that exists, and creates one that does not only where the body asserts
/// that. Under a branch it goes to the table's pointer on that branch, and never
/// creates one. It goes there only for a native table, for a caller who holds
/// the privilege, and where the body names no other table; and under a key only
/// where no receipt is recorded. A receipt is replayed only to the same request.
pub proof fn commits_go_where_they_say(
    warehouse: Seq<char>,
    branch: Option<Seq<char>>,
    raw: Seq<char>,
    name: Seq<char>,
    body: CommitBody,
    header: Header,
    fingerprint: Seq<char>,
    facts: CommitFacts,
)
    requires
        match branch {
            None => !warehouse.contains('@'),
            Some(b) => !b.contains('@'),
        },
    ensures
        ({
            let prefix = match branch {
                None => warehouse,
                Some(b) => warehouse + seq!['@'] + b,
            };
            let key = tables::key_of(header);
            let levels = namespaces::param_levels(raw);
            let named = body_identifier(body) is None || body_identifier(body) == Some((levels, name));
            let fresh = key == Ok::<Option<Seq<char>>, error::ErrorView>(None) || facts.receipt is Missing;
            let native = facts.table matches Found::Is(record) && record.mirror_id is None;
            let granted = facts.access matches Some(access) && access is Granted;
            match dispatch_step(prefix, raw, name, body, header, fingerprint, facts) {
                DispatchView::AskWarehouse(base) => base == warehouse && facts.warehouse is Unasked,
                DispatchView::AskBranch(asked) => branch == Some(asked) && facts.branch is Unasked,
                DispatchView::AskTable(asked) => asked == levels && facts.table is Unasked && named,
                DispatchView::AskAccess(privilege) => facts.access is None && named && (if facts.table is Is {
                    privilege == CommitPrivilege::Commit
                } else {
                    privilege == CommitPrivilege::CreateTable && branch is None && facts.table is Missing
                }),
                DispatchView::AskReceipt(k) => granted && named && facts.receipt is Unasked && key == Ok::<
                    Option<Seq<char>>,
                    error::ErrorView,
                >(Some(k)),
                DispatchView::Replay => granted && named && (key matches Ok(Some(_k))) && (facts.receipt
                    matches Found::Is(recorded) && recorded@ == fingerprint),
                DispatchView::CommitMain => branch is None && native && granted && named && fresh,
                DispatchView::CommitBranch => branch is Some && native && granted && named && fresh && (facts.branch
                    matches Found::Is(row) && row.kind@ != "tag"@ && row.state@ != "deleted"@),
                DispatchView::CommitCreate => branch is None && facts.table is Missing && granted && named && fresh
                    && body_asserts_create(body) && (facts.warehouse matches Found::Is(w) && !w.foreign),
                DispatchView::Refuse(_e) => true,
            }
        }),
{
    namespaces::prefixes_name_their_ref(
        warehouse,
        match branch {
            None => seq![],
            Some(b) => b,
        },
    );
}

/// A commit that nothing speaks against goes through: to the main line, to the
/// branch, or as a creation.
pub proof fn sound_commits_go_through(
    warehouse: Seq<char>,
    branch: Option<Seq<char>>,
    raw: Seq<char>,
    name: Seq<char>,
    body: CommitBody,
    header: Header,
    fingerprint: Seq<char>,
    facts: CommitFacts,
)
    requires
        match branch {
            None => !warehouse.contains('@'),
            Some(b) => !b.contains('@') && (facts.branch matches Found::Is(row) && row.kind@ != "tag"@ && row.state@
                != "deleted"@),
        },
        namespaces::good_levels(namespaces::param_levels(raw)),
        tables::table_name_error(name) is None,
        tables::commit_body_error(body) is None,
        body_identifier(body) is None || body_identifier(body) == Some((namespaces::param_levels(raw), name)),
        header is Absent || tables::key_of(header) is Ok && facts.receipt is Missing,
        facts.warehouse matches Found::Is(w) && !w.foreign,
        facts.access == Some(Access::Granted),
        facts.table matches Found::Is(record) ==> record.mirror_id is None,
        !(facts.table is Unasked),
    ensures
        ({
            let prefix = match branch {
                None => warehouse,
                Some(b) => warehouse + seq!['@'] + b,
            };
            let step = dispatch_step(prefix, raw, name, body, header, fingerprint, facts);
            if facts.table is Is {
                if branch is Some {
                    step is CommitBranch
                } else {
                    step is CommitMain
                }
            } else if branch is None && body_asserts_create(body) {
                step is CommitCreate
            } else {
                step matches DispatchView::Refuse(e) && e.kind == ErrorKind::NoSuchTable
            }
        }),
{
    namespaces::prefixes_name_their_ref(
        warehouse,
        match branch {
            None => seq![],
            Some(b) => b,
        },
    );
    namespaces::bad_levels_are_refused(namespaces::param_levels(raw));
}

/// The same key with another request is refused, and nothing is applied.
pub proof fn reused_keys_are_refused(key: Seq<char>, fingerprint: Seq<char>, recorded: String, go: DispatchView)
    requires
        recorded@ != fingerprint,
    ensures
        recalled_step(Some(key), fingerprint, Found::Is(recorded), go) == DispatchView::Refuse(tables::key_reuse(key)),
{
}

/// The same key with the same request gives the recorded answer again, and
/// nothing is applied twice.
pub proof fn retries_are_replayed(key: Seq<char>, fingerprint: Seq<char>, recorded: String, go: DispatchView)
    requires
        recorded@ == fingerprint,
    ensures
        recalled_step(Some(key), fingerprint, Found::Is(recorded), go) is Replay,
{
}

// ---------------------------------------------------------------------------
// Creating a table through a commit
// ---------------------------------------------------------------------------

/// How a table that a commit creates is built.
#[derive(Debug)]
pub struct CommitCreatePlan {
    /// The table's UUID.
    pub table_uuid: String,
    /// The location that the builder starts from.
    pub location: String,
    /// The format version that the builder starts from.
    pub format_version: u8,
}

/// The answer where the requirements of a commit do not hold of a table that
/// does not exist.
pub open spec fn unmet_creation(name: Seq<char>, faults: Seq<Seq<char>>) -> error::ErrorView {
    commit::requirements_error(commit::named_faults(name, faults))
}

/// Whether the plan is that of a table that a commit creates; `fresh` is its
/// UUID where the updates assign none.
pub open spec fn is_creation_plan(
    plan: CommitCreatePlan,
    root: Seq<char>,
    levels: Seq<Seq<char>>,
    name: Seq<char>,
    parsed: ParsedCommit,
    fresh: Seq<char>,
) -> bool {
    &&& plan.table_uuid@ == (match tables::first_assigned(parsed.updates@, 0) {
        Some(uuid) => uuid,
        None => fresh,
    })
    &&& plan.location@ == tables::default_location(root, levels, name, plan.table_uuid@)
    &&& plan.format_version == tables::CREATE_COMMIT_BASE_FORMAT_VERSION
}

/// Plans the creation of a table through a commit: the requirements must hold
/// of a table that does not exist; the UUID is the one that the updates
/// assign, else one of its own, which is left to chance.
pub fn commit_create_table(
    storage_root: &str,
    levels: &Vec<String>,
    name: &str,
    parsed: &ParsedCommit,
    faults: &Vec<String>,
) -> (r: Result<CommitCreatePlan, ApiError>)
    ensures
        if faults@.len() > 0 {
            error::fails_with(r, unmet_creation(name@, text::texts(faults@)))
        } else {
            r matches Ok(plan) && exists|fresh: Seq<char>| #[trigger]
                ids::is_uuid_text(fresh) && is_creation_plan(
                    plan,
                    storage_root@,
                    text::texts(levels@),
                    name@,
                    *parsed,
                    fresh,
                )
        },
{
    let fresh = fresh_table_uuid();
    let ghost drawn = fresh@;
    let r = creation_plan(storage_root, levels, name, parsed, faults, fresh);
    assert(ids::is_uuid_text(drawn));
    r
}

/// Plans the creation of a table through a commit, given a UUID for it.
pub fn creation_plan(
    storage_root: &str,
    levels: &Vec<String>,
    name: &str,
    parsed: &ParsedCommit,
    faults: &Vec<String>,
    fresh_uuid: String,
) -> (r: Result<CommitCreatePlan, ApiError>)
    ensures
        if faults@.len() > 0 {
            error::fails_with(r, unmet_creation(name@, text::texts(faults@)))
        } else {
            r matches Ok(plan) && is_creation_plan(
                plan,
                storage_root@,
                text::texts(levels@),
                name@,
                *parsed,
                fresh_uuid@,
            )
        },
{
    let mut violations: Vec<String> = Vec::new();
    check_requirements(name, faults, &mut violations);
    proof {
        let added = commit::named_faults(name@, text::texts(faults@));
        assert(text::texts(violations@) =~= added);
        assert(violations@.len() == text::texts(violations@).len());
        assert(added.len() == faults@.len());
    }
    match requirements_hold(&violations) {
        Err(e) => { return Err(e); },
        Ok(()) => {},
    }
    let table_uuid = created_uuid(parsed, fresh_uuid);
    let location = default_table_location(storage_root, levels, name, table_uuid.as_str());
    Ok(CommitCreatePlan { table_uuid, location, format_version: tables::CREATE_COMMIT_BASE_FORMAT_VERSION })
}

/// A table that a commit creates has the UUID that the first of its updates to
/// assign one assigns, else a fresh one; it lies at the default location of that
/// UUID.
pub proof fn created_tables_take_their_uuid(
    plan: CommitCreatePlan,
    root: Seq<char>,
    levels: Seq<Seq<char>>,
    name: Seq<char>,
    parsed: ParsedCommit,
    fresh: Seq<char>,
    i: int,
    uuid: String,
)
    requires
        is_creation_plan(plan, root, levels, name, parsed, fresh),
    ensures
        0 <= i < parsed.updates@.len() && parsed.updates@[i] == tables::TableUpdate::AssignUuid(uuid) && (forall|j: int|
            0 <= j < i ==> !((#[trigger] parsed.updates@[j]) is AssignUuid)) ==> plan.table_uuid@ == uuid@,
        (forall|j: int| 0 <= j < parsed.updates@.len() ==> !((#[trigger] parsed.updates@[j]) is AssignUuid))
            ==> plan.table_uuid@ == fresh,
        plan.location@ == tables::default_location(root, levels, name, plan.table_uuid@),
{
    tables::first_assignments_win(parsed.updates@, i, uuid);
}

} // verus!
