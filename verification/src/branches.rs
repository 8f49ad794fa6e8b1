//! Catalog branches and tags.

use vstd::prelude::*;

use crate::commit;
use crate::commit::{backend_to_api, CommitBackendError};
use crate::contracts;
use crate::contracts::{EnforcementMode, EvaluatedContract};
use crate::error;
use crate::error::{ApiError, ErrorKind};
use crate::grants;
use crate::grants::{require, Access};
use crate::metadata;
use crate::metadata::{Schema, SchemaField, TableMetadata};
use crate::text;
use crate::text::{cat2, cat3, cat4, cat5, decimal_u64, has_char, join, parse_i64, quote, same, split};
use crate::textmap;
use crate::textmap::TextMap;
use crate::textset;

verus! {

/// The ref that every catalog has.
pub const MAIN_REF: &'static str = "main";

/// A branch or tag row, as the routes read it.
#[derive(Debug)]
pub struct BranchRecord {
    /// ULID.
    pub id: String,
    /// Name.
    pub name: String,
    /// `branch` or `tag`.
    pub kind: String,
    /// The ref this diverged or froze from.
    pub base_ref: String,
    /// `open` | `merged` | `deleted`.
    pub state: String,
    /// Whether it spans all namespaces.
    pub scope_all: bool,
    /// Ephemeral expiry, when set.
    pub expires_at: Option<String>,
    /// Creator.
    pub created_by: String,
    /// Creation time.
    pub created_at: String,
}

/// Whether the row is a tag.
pub open spec fn is_tag_record(record: BranchRecord) -> bool {
    record.kind@ == "tag"@
}

/// Whether the row was deleted.
pub open spec fn is_deleted(record: BranchRecord) -> bool {
    record.state@ == "deleted"@
}

impl BranchRecord {
    /// Whether the row is a tag.
    pub fn is_tag(&self) -> (r: bool)
        ensures
            r == is_tag_record(*self),
    {
        same(self.kind.as_str(), "tag")
    }

    /// Whether the row was deleted.
    pub fn deleted(&self) -> (r: bool)
        ensures
            r == is_deleted(*self),
    {
        same(self.state.as_str(), "deleted")
    }
}

// ---------------------------------------------------------------------------
// Names
// ---------------------------------------------------------------------------

/// Longest accepted name, in characters.
pub const MAX_NAME_LEN: usize = 100;

/// The refusal of a name.
pub open spec fn name_error(name: Seq<char>) -> Option<error::ErrorView> {
    if name.len() == 0 || name.len() > MAX_NAME_LEN {
        Some(error::bad_request("name must be 1..=100 characters"@))
    } else if name == "main"@ {
        Some(error::bad_request("'main' is reserved"@))
    } else if name.contains('@') {
        Some(
            error::bad_request(
                "name must not contain '@' (it separates the warehouse from the branch in a prefix)"@,
            ),
        )
    } else {
        None
    }
}

/// Validates the name of a branch or tag: 1 to 100 characters, not `main`, no `@`.
pub fn validate_name(name: &str) -> (r: Result<(), ApiError>)
    ensures
        match name_error(name@) {
            Some(e) => error::fails_with(r, e),
            None => r is Ok,
        },
{
    let count = text::char_count(name);
    if count == 0 || count > MAX_NAME_LEN {
        return Err(ApiError::bad_request("name must be 1..=100 characters"));
    }
    if same(name, "main") {
        return Err(ApiError::bad_request("'main' is reserved"));
    }
    if has_char(name, '@') {
        return Err(ApiError::bad_request(
            "name must not contain '@' (it separates the warehouse from the branch in a prefix)",
        ));
    }
    Ok(())
}

/// A branch of an accepted name can be addressed: the prefix of its warehouse
/// and its name is taken apart into just these.
pub proof fn accepted_names_can_be_addressed(
    warehouse: Seq<char>,
    name: Seq<char>,
    base: Seq<char>,
    found: Option<Seq<char>>,
)
    requires
        name_error(name) is None,
        crate::namespaces::prefix_parts(warehouse + seq!['@'] + name, base, found),
    ensures
        base == warehouse,
        found == Some(name),
{
    crate::namespaces::prefix_round_trip(warehouse, name, base, found);
}

/// The ref that a new branch diverges from where none is named.
pub fn default_base() -> (r: String)
    ensures
        r@ == "main"@,
{
    "main".to_owned()
}

/// The refusal of a base ref: it is `main`, or a branch that is not deleted.
pub open spec fn base_ref_error(base_ref: Seq<char>, found: Option<BranchRecord>) -> Option<error::ErrorView> {
    if base_ref == "main"@ {
        None
    } else if found matches Some(b) && !is_tag_record(b) && !is_deleted(b) {
        None
    } else {
        Some(error::bad_request("base ref "@ + text::quoted(base_ref) + " is not a live branch"@))
    }
}

/// Refuses a base ref that is neither `main` nor a live branch.
pub fn validate_base_ref(base_ref: &str, found: &Option<BranchRecord>) -> (r: Result<(), ApiError>)
    ensures
        match base_ref_error(base_ref@, *found) {
            Some(e) => error::fails_with(r, e),
            None => r is Ok,
        },
{
    if same(base_ref, "main") {
        return Ok(());
    }
    let live = match found {
        Some(b) => !b.is_tag() && !b.deleted(),
        None => false,
    };
    if live {
        return Ok(());
    }
    Err(ApiError::bad_request(cat3("base ref ", quote(base_ref).as_str(), " is not a live branch").as_str()))
}

/// The 404 of a branch or tag.
pub open spec fn no_such_branch(name: Seq<char>) -> error::ErrorView {
    error::not_found("branch or tag "@ + text::quoted(name) + " does not exist"@)
}

/// The branch or tag of a name; one that was deleted is as good as none.
pub fn load_branch<'a>(name: &str, found: &'a Option<BranchRecord>) -> (r: Result<&'a BranchRecord, ApiError>)
    ensures
        match *found {
            Some(b) => if is_deleted(b) {
                error::fails_with(r, no_such_branch(name@))
            } else {
                r matches Ok(got) && *got == b
            },
            None => error::fails_with(r, no_such_branch(name@)),
        },
{
    match found {
        Some(b) => if !b.deleted() {
            return Ok(b);
        },
        None => {},
    }
    Err(ApiError::not_found(cat3("branch or tag ", quote(name).as_str(), " does not exist").as_str()))
}

/// The branch or tag that a route addresses: the caller has management access,
/// and there is one of the name that was not deleted.
pub open spec fn addressed(access: Access, name: Seq<char>, found: Option<BranchRecord>) -> Result<
    BranchRecord,
    error::ErrorView,
> {
    match grants::access_error(access) {
        Some(e) => Err(e),
        None => match found {
            Some(b) => if is_deleted(b) {
                Err(no_such_branch(name))
            } else {
                Ok(b)
            },
            None => Err(no_such_branch(name)),
        },
    }
}

/// The branch or tag that a route addresses.
pub fn get_branch<'a>(access: &Access, name: &str, found: &'a Option<BranchRecord>) -> (r: Result<
    &'a BranchRecord,
    ApiError,
>)
    ensures
        match addressed(*access, name@, *found) {
            Ok(b) => r matches Ok(got) && *got == b,
            Err(e) => error::fails_with(r, e),
        },
{
    match require(access) {
        Err(e) => Err(e),
        Ok(()) => load_branch(name, found),
    }
}

// ---------------------------------------------------------------------------
// Creating
// ---------------------------------------------------------------------------

/// Request body to create a branch.
#[derive(Debug)]
pub struct CreateBranchRequest {
    /// Its name.
    pub name: String,
    /// The ref to diverge from.
    pub base_ref: String,
    /// The warehouse of the namespaces.
    pub warehouse: Option<String>,
    /// The namespaces that it spans; all where none are named.
    pub namespaces: Vec<String>,
    /// In how many seconds it expires.
    pub expires_in_s: Option<i64>,
}

/// Request body to create a tag.
#[derive(Debug)]
pub struct CreateTagRequest {
    /// Its name.
    pub name: String,
    /// The ref to freeze.
    pub from_ref: String,
}

/// The branch that a ref names, of which a new one diverges or which it
/// freezes: none for `main`, which is no branch of its own.
pub open spec fn base_branch_of(base_ref: Seq<char>, found: Option<BranchRecord>) -> Option<Seq<char>> {
    if base_ref == MAIN_REF@ {
        None
    } else {
        match found {
            Some(b) => Some(b.id@),
            None => None,
        }
    }
}

fn base_branch_id(base_ref: &str, found: &Option<BranchRecord>) -> (r: Option<String>)
    ensures
        text::opt_text(r) == base_branch_of(base_ref@, *found),
{
    if same(base_ref, MAIN_REF) {
        return None;
    }
    match found {
        Some(b) => Some(b.id.clone()),
        None => None,
    }
}

/// A branch to create.
#[derive(Debug)]
pub struct NewBranchPlan {
    /// The branch it diverges from; `main`, where there is none.
    pub base_branch_id: Option<String>,
    /// Whether it spans all namespaces.
    pub scope_all: bool,
    /// In how many seconds it expires: at least one.
    pub expires_in_s: Option<i64>,
}

/// Admits a new branch: management access, its name, then its base.
pub fn create_branch(access: &Access, request: &CreateBranchRequest, base: &Option<BranchRecord>) -> (r: Result<
    NewBranchPlan,
    ApiError,
>)
    ensures
        match grants::access_error(*access) {
            Some(e) => error::fails_with(r, e),
            None => match name_error(request.name@) {
                Some(e) => error::fails_with(r, e),
                None => match base_ref_error(request.base_ref@, *base) {
                    Some(e) => error::fails_with(r, e),
                    None => r matches Ok(plan) && {
                        &&& text::opt_text(plan.base_branch_id) == base_branch_of(request.base_ref@, *base)
                        &&& plan.scope_all == (request.namespaces@.len() == 0)
                        &&& plan.expires_in_s == (match request.expires_in_s {
                            Some(s) => Some(if s < 1 { 1i64 } else { s }),
                            None => None,
                        })
                    },
                },
            },
        },
{
    match require(access) {
        Err(e) => { return Err(e); },
        Ok(()) => {},
    }
    match validate_name(request.name.as_str()) {
        Err(e) => { return Err(e); },
        Ok(()) => {},
    }
    match validate_base_ref(request.base_ref.as_str(), base) {
        Err(e) => { return Err(e); },
        Ok(()) => {},
    }
    let expires_in_s = match request.expires_in_s {
        Some(s) => Some(if s < 1 { 1i64 } else { s }),
        None => None,
    };
    let base_branch_id = base_branch_id(request.base_ref.as_str(), base);
    Ok(NewBranchPlan { base_branch_id, scope_all: request.namespaces.len() == 0, expires_in_s })
}

/// A tag to create.
#[derive(Debug)]
pub struct NewTagPlan {
    /// The branch whose diverged tables the tag freezes, each at its head. A
    /// tag of `main` freezes nothing: it resolves to what `main` is when it is
    /// read.
    pub freeze: Option<String>,
}

/// Admits a new tag: management access, its name, then what it freezes.
pub fn create_tag(access: &Access, request: &CreateTagRequest, source: &Option<BranchRecord>) -> (r: Result<
    NewTagPlan,
    ApiError,
>)
    ensures
        match grants::access_error(*access) {
            Some(e) => error::fails_with(r, e),
            None => match name_error(request.name@) {
                Some(e) => error::fails_with(r, e),
                None => match base_ref_error(request.from_ref@, *source) {
                    Some(e) => error::fails_with(r, e),
                    None => r matches Ok(plan) && text::opt_text(plan.freeze) == base_branch_of(
                        request.from_ref@,
                        *source,
                    ),
                },
            },
        },
{
    match require(access) {
        Err(e) => { return Err(e); },
        Ok(()) => {},
    }
    match validate_name(request.name.as_str()) {
        Err(e) => { return Err(e); },
        Ok(()) => {},
    }
    match validate_base_ref(request.from_ref.as_str(), source) {
        Err(e) => Err(e),
        Ok(()) => Ok(NewTagPlan { freeze: base_branch_id(request.from_ref.as_str(), source) }),
    }
}

/// The warehouse of a branch's namespaces, which must be named where they are.
pub fn require_warehouse<'a>(warehouse: Option<&'a str>) -> (r: Result<&'a str, ApiError>)
    ensures
        match warehouse {
            Some(w) => r matches Ok(got) && got@ == w@,
            None => error::fails_with(
                r,
                error::bad_request("`warehouse` is required when `namespaces` are given"@),
            ),
        },
{
    match warehouse {
        Some(w) => Ok(w),
        None => Err(ApiError::bad_request("`warehouse` is required when `namespaces` are given")),
    }
}

/// The levels of a dotted namespace.
pub fn decode_dotted(dotted: &str) -> (r: Vec<String>)
    ensures
        text::texts(r@) == text::split_on(dotted@, '.'),
{
    split(dotted, '.')
}

/// A namespace that a branch spans, or a 404.
pub fn scope_namespace<T>(dotted: &str, found: Option<T>) -> (r: Result<T, ApiError>)
    ensures
        match found {
            Some(v) => r matches Ok(got) && got == v,
            None => error::fails_with(
                r,
                error::error_of(ErrorKind::NoSuchNamespace, "namespace "@ + text::quoted(dotted@)),
            ),
        },
{
    match found {
        Some(v) => Ok(v),
        None => Err(ApiError::new(
            ErrorKind::NoSuchNamespace,
            cat2("namespace ", quote(dotted).as_str()).as_str(),
        )),
    }
}

// ---------------------------------------------------------------------------
// Rendering
// ---------------------------------------------------------------------------

/// A branch or tag, as the management API renders it.
#[derive(Debug)]
pub struct BranchResponse {
    /// ULID.
    pub id: String,
    /// Name.
    pub name: String,
    /// `branch` or `tag`.
    pub kind: String,
    /// The ref this diverged or froze from.
    pub base_ref: String,
    /// `open` | `merged` | `deleted`.
    pub state: String,
    /// Whether it spans all namespaces.
    pub scope_all: bool,
    /// Ephemeral expiry, when set.
    pub expires_at: Option<String>,
    /// How many tables diverged on it; none on a tag.
    pub diverged_tables: i64,
    /// Creator.
    pub created_by: String,
    /// Creation time.
    pub created_at: String,
}

/// Whether `r` renders `record`.
pub open spec fn renders_branch(r: BranchResponse, record: BranchRecord, diverged: i64) -> bool {
    &&& r.id == record.id
    &&& r.name == record.name
    &&& r.kind == record.kind
    &&& r.base_ref == record.base_ref
    &&& r.state == record.state
    &&& r.scope_all == record.scope_all
    &&& r.expires_at == record.expires_at
    &&& r.diverged_tables == (if is_tag_record(record) { 0 } else { diverged })
    &&& r.created_by == record.created_by
    &&& r.created_at == record.created_at
}

impl BranchResponse {
    /// Renders a branch or tag.
    pub fn from_record(record: BranchRecord, diverged: i64) -> (r: BranchResponse)
        ensures
            renders_branch(r, record, diverged),
    {
        let diverged_tables: i64 = if record.is_tag() { 0 } else { diverged };
        BranchResponse {
            id: record.id,
            name: record.name,
            kind: record.kind,
            base_ref: record.base_ref,
            state: record.state,
            scope_all: record.scope_all,
            expires_at: record.expires_at,
            diverged_tables,
            created_by: record.created_by,
            created_at: record.created_at,
        }
    }
}

/// Parts the rows into branches and tags for a manager, each in the order they
/// had.
pub fn list_branches(access: &Access, records: Vec<BranchRecord>) -> (r: Result<
    (Vec<BranchRecord>, Vec<BranchRecord>),
    ApiError,
>)
    ensures
        match grants::access_error(*access) {
            Some(e) => error::fails_with(r, e),
            None => r matches Ok(parts) && parts.0@ == records@.filter(|b: BranchRecord| !is_tag_record(b))
                && parts.1@ == records@.filter(|b: BranchRecord| is_tag_record(b)),
        },
{
    match require(access) {
        Err(e) => { return Err(e); },
        Ok(()) => {},
    }
    let ghost tag = |b: BranchRecord| is_tag_record(b);
    let ghost branch = |b: BranchRecord| !is_tag_record(b);
    let mut out: Vec<BranchRecord> = Vec::new();
    let mut tags: Vec<BranchRecord> = Vec::new();
    let ghost all = records@;
    proof {
        reveal(Seq::filter);
    }
    for record in it: records
        invariant
            it.seq() == all,
            tag == (|b: BranchRecord| is_tag_record(b)),
            branch == (|b: BranchRecord| !is_tag_record(b)),
            out@ == all.take(it.index()).filter(branch),
            tags@ == all.take(it.index()).filter(tag),
    {
        proof {
            reveal(Seq::filter);
        }
        assert(all.take(it.index() + 1).drop_last() =~= all.take(it.index()));
        if record.is_tag() {
            tags.push(record);
        } else {
            out.push(record);
        }
    }
    assert(all.take(all.len() as int) =~= all);
    Ok((out, tags))
}

// ---------------------------------------------------------------------------
// Diff
// ---------------------------------------------------------------------------

/// A table that diverged on a branch.
#[derive(Debug)]
pub struct DivergedPointer {
    /// ULID of the table.
    pub table_id: String,
    /// The levels of its namespace.
    pub namespace_levels: Vec<String>,
    /// Its name.
    pub table_name: String,
    /// Where its metadata on the branch is.
    pub branch_metadata_location: String,
    /// Where its metadata on `main` is, where it is there.
    pub main_metadata_location: Option<String>,
    /// The version of its pointer on `main`.
    pub main_pointer_version: i64,
    /// The version that it diverged from.
    pub base_pointer_version: i64,
}

/// How a diverged table is named: its levels and its name, with dots.
pub open spec fn diverged_ident(d: DivergedPointer) -> Seq<char> {
    text::join_with(text::texts(d.namespace_levels@), "."@) + "."@ + d.table_name@
}

/// How a diverged table is named.
pub fn ident_of(d: &DivergedPointer) -> (r: String)
    ensures
        r@ == diverged_ident(*d),
{
    cat3(join(&d.namespace_levels, ".").as_str(), ".", d.table_name.as_str())
}

/// The types of columns, by name; where a name occurs twice, the last.
pub open spec fn types_of(fields: Seq<SchemaField>) -> Map<Seq<char>, Seq<char>>
    decreases fields.len(),
{
    if fields.len() == 0 {
        Map::empty()
    } else {
        types_of(fields.drop_last()).insert(fields.last().name@, fields.last().field_type@)
    }
}

fn type_map(fields: &Vec<SchemaField>) -> (r: TextMap<String>)
    ensures
        textmap::text_values(r@) == types_of(fields@),
{
    let mut map: TextMap<String> = TextMap::new();
    let mut i: usize = 0;
    assert(fields@.take(0) =~= Seq::<SchemaField>::empty());
    assert(textmap::text_values(map@) =~= Map::<Seq<char>, Seq<char>>::empty());
    while i < fields.len()
        invariant
            i <= fields@.len(),
            textmap::text_values(map@) == types_of(fields@.take(i as int)),
        decreases fields@.len() - i,
    {
        assert(fields@.take(i + 1).drop_last() =~= fields@.take(i as int));
        let ghost before = map@;
        map = map.with(fields[i].name.as_str(), fields[i].field_type.clone());
        assert(textmap::text_values(map@) =~= textmap::text_values(before).insert(
            fields@[i as int].name@,
            fields@[i as int].field_type@,
        ));
        i = i + 1;
    }
    assert(fields@.take(fields@.len() as int) =~= fields@);
    map
}

/// The columns that one schema has and another has not.
pub open spec fn only_in(a: Map<Seq<char>, Seq<char>>, b: Map<Seq<char>, Seq<char>>) -> Set<Seq<char>> {
    a.dom().difference(b.dom())
}

/// The columns that both schemas have, with different types.
pub open spec fn retyped(a: Map<Seq<char>, Seq<char>>, b: Map<Seq<char>, Seq<char>>) -> Set<Seq<char>> {
    a.dom().intersect(b.dom()).filter(|n: Seq<char>| a[n] != b[n])
}

/// Whether a column of `a` is to be listed: it is missing from `b`, or has
/// another type there.
fn pick(a: &TextMap<String>, b: &TextMap<String>, missing: bool) -> (r: Vec<String>)
    ensures
        textset::lists_texts(
            r@,
            if missing {
                only_in(textmap::text_values(a@), textmap::text_values(b@))
            } else {
                retyped(textmap::text_values(a@), textmap::text_values(b@))
            },
        ),
{
    let ghost va = textmap::text_values(a@);
    let ghost vb = textmap::text_values(b@);
    let ghost set = if missing { only_in(va, vb) } else { retyped(va, vb) };
    let mut picked: TextMap<()> = TextMap::new();
    let n: usize = a.len();
    let mut i: usize = 0;
    while i < n
        invariant
            i <= n,
            n == a.pairs().len(),
            textmap::in_key_order(a.pairs()),
            va == textmap::text_values(a@),
            vb == textmap::text_values(b@),
            set == (if missing { only_in(va, vb) } else { retyped(va, vb) }),
            forall|t: Seq<char>|
                #![trigger picked@.dom().contains(t)]
                picked@.dom().contains(t) == (set.contains(t) && exists|j: int|
                    j < i && #[trigger] textmap::stands_at(a.pairs(), t, j)),
        decreases n - i,
    {
        let name = a.key_at(i);
        let ghost before = picked@.dom();
        proof {
            textmap::one_place(a.pairs(), i as int);
            assert(textmap::stands_at(a.pairs(), name@, i as int));
            assert(a@.dom().contains(name@));
            assert(a@[name@] == a.pairs()[i as int].1);
            assert(va.dom().contains(name@) && va[name@] == a.pairs()[i as int].1@);
            assert(vb.dom().contains(name@) == b@.dom().contains(name@));
        }
        let take = match b.get(name.as_str()) {
            None => missing,
            Some(t) => !missing && !same(t.as_str(), a.value_at(i).as_str()),
        };
        assert(take == set.contains(name@));
        if take {
            picked = picked.with(name.as_str(), ());
        }
        assert forall|t: Seq<char>| #![trigger picked@.dom().contains(t)]
            picked@.dom().contains(t) == (set.contains(t) && exists|j: int|
                j < i + 1 && #[trigger] textmap::stands_at(a.pairs(), t, j)) by {
            assert(before.contains(t) == (set.contains(t) && exists|j: int|
                j < i && #[trigger] textmap::stands_at(a.pairs(), t, j)));
            if t == name@ {
                assert(textmap::stands_at(a.pairs(), t, i as int));
            }
            if exists|j: int| j < i + 1 && #[trigger] textmap::stands_at(a.pairs(), t, j) {
                let j = choose|j: int| j < i + 1 && #[trigger] textmap::stands_at(a.pairs(), t, j);
                if j == i {
                    assert(t == name@);
                }
            }
        }
        i = i + 1;
    }
    assert(picked@.dom() =~= set) by {
        assert forall|t: Seq<char>| picked@.dom().contains(t) == set.contains(t) by {
            if set.contains(t) {
                assert(a@.dom().contains(t));
                let j = choose|j: int| textmap::stands_at(a.pairs(), t, j);
                assert(j < n && textmap::stands_at(a.pairs(), t, j));
            }
        }
    }
    textset::keys(&picked)
}

/// How a schema changed, by column names in order.
#[derive(Debug)]
pub struct SchemaDelta {
    /// The columns that came.
    pub added: Vec<String>,
    /// The columns that went.
    pub dropped: Vec<String>,
    /// The columns whose type changed.
    pub changed: Vec<String>,
}

/// Whether the delta is that between two schemas.
pub open spec fn is_delta(r: SchemaDelta, base: Seq<SchemaField>, branch: Seq<SchemaField>) -> bool {
    &&& textset::lists_texts(r.added@, only_in(types_of(branch), types_of(base)))
    &&& textset::lists_texts(r.dropped@, only_in(types_of(base), types_of(branch)))
    &&& textset::lists_texts(r.changed@, retyped(types_of(branch), types_of(base)))
}

/// How the top-level columns of a schema changed.
pub fn schema_delta(base: &Schema, branch: &Schema) -> (r: SchemaDelta)
    ensures
        is_delta(r, base.fields@, branch.fields@),
{
    let base_types = type_map(&base.fields);
    let branch_types = type_map(&branch.fields);
    SchemaDelta {
        added: pick(&branch_types, &base_types, true),
        dropped: pick(&base_types, &branch_types, true),
        changed: pick(&branch_types, &base_types, false),
    }
}

/// A schema that did not change has an empty delta.
pub proof fn same_schema_has_no_delta(r: SchemaDelta, fields: Seq<SchemaField>)
    requires
        is_delta(r, fields, fields),
    ensures
        r.added@.len() == 0,
        r.dropped@.len() == 0,
        r.changed@.len() == 0,
{
    let types = types_of(fields);
    assert(only_in(types, types) =~= Set::empty());
    assert(retyped(types, types) =~= Set::empty());
    if r.added@.len() > 0 {
        assert(text::texts(r.added@)[0] == r.added@[0]@);
        assert(text::texts(r.added@).contains(r.added@[0]@));
    }
    if r.dropped@.len() > 0 {
        assert(text::texts(r.dropped@)[0] == r.dropped@[0]@);
        assert(text::texts(r.dropped@).contains(r.dropped@[0]@));
    }
    if r.changed@.len() > 0 {
        assert(text::texts(r.changed@)[0] == r.changed@[0]@);
        assert(text::texts(r.changed@).contains(r.changed@[0]@));
    }
}

/// The delta between two schemas, taken the other way round, is the same with
/// what came and what went exchanged.
pub proof fn deltas_are_symmetric(r: SchemaDelta, base: Seq<SchemaField>, branch: Seq<SchemaField>)
    requires
        is_delta(r, base, branch),
    ensures
        is_delta(SchemaDelta { added: r.dropped, dropped: r.added, changed: r.changed }, branch, base),
{
    assert(retyped(types_of(branch), types_of(base)) =~= retyped(types_of(base), types_of(branch)));
}

/// What the current snapshot's summary says of the number of rows.
pub open spec fn rows_in(summary: Option<TextMap<String>>) -> Option<i64> {
    match summary {
        Some(map) => if map@.dom().contains("total-records"@) {
            match text::signed_value(map@["total-records"@]@) {
                Some(n) => if i64::MIN <= n <= i64::MAX { Some(n as i64) } else { None },
                None => None,
            }
        } else {
            None
        },
        None => None,
    }
}

/// How many rows a table has, where its current snapshot says.
pub open spec fn rows_of(metadata: TableMetadata) -> Option<i64> {
    match metadata.current_snapshot_id {
        None => None,
        Some(id) => match crate::planning::snapshot_place(metadata::snapshots_of(metadata), id, 0) {
            None => None,
            Some(i) => rows_in(metadata::snapshots_of(metadata)[i].summary),
        },
    }
}

/// How many rows a table has, where its current snapshot says.
pub fn total_records(metadata: &TableMetadata) -> (r: Option<i64>)
    ensures
        r == rows_of(*metadata),
{
    let place = match metadata.current_snapshot_id {
        None => { return None; },
        Some(id) => match crate::planning::find_snapshot(metadata, id) {
            None => { return None; },
            Some(i) => i,
        },
    };
    let snapshot = match &metadata.snapshots {
        None => { return None; },
        Some(all) => &all[place],
    };
    match &snapshot.summary {
        None => None,
        Some(map) => match map.get("total-records") {
            None => None,
            Some(n) => parse_i64(n.as_str()),
        },
    }
}

/// What changed in one table of a branch.
#[derive(Debug)]
pub struct TableDiff {
    /// The table.
    pub table: String,
    /// How its schema changed.
    pub schema: SchemaDelta,
    /// Its snapshot on `main`.
    pub base_snapshot_id: Option<i64>,
    /// Its snapshot on the branch.
    pub branch_snapshot_id: Option<i64>,
    /// Its rows on `main`, where they are known.
    pub base_rows: Option<i64>,
    /// Its rows on the branch, where they are known.
    pub branch_rows: Option<i64>,
    /// How many rows more the branch has, where both are known.
    pub row_delta: Option<i128>,
}

fn no_names() -> (r: Vec<String>)
    ensures
        r@.len() == 0,
{
    Vec::new()
}

fn all_names(fields: &Vec<SchemaField>) -> (r: Vec<String>)
    ensures
        r@ == fields@.map_values(|f: SchemaField| f.name),
{
    let mut out: Vec<String> = Vec::new();
    let mut i: usize = 0;
    while i < fields.len()
        invariant
            i <= fields@.len(),
            out@ == fields@.take(i as int).map_values(|f: SchemaField| f.name),
        decreases fields@.len() - i,
    {
        out.push(fields[i].name.clone());
        assert(fields@.take(i as int).map_values(|f: SchemaField| f.name).push(fields@[i as int].name)
            =~= fields@.take(i + 1).map_values(|f: SchemaField| f.name));
        i = i + 1;
    }
    assert(fields@.take(fields@.len() as int) =~= fields@);
    out
}

/// The current schema of a table, where it has one.
pub open spec fn schema_of(metadata: TableMetadata) -> Option<int> {
    crate::planning::schema_place(metadata.schemas@, metadata.current_schema_id, 0)
}

/// Whether the delta is that of a table: between the two schemas; all columns
/// where the table is new on the branch; nothing where the branch has no
/// schema.
pub open spec fn is_table_delta(r: SchemaDelta, base: Option<TableMetadata>, branch: TableMetadata) -> bool {
    let nothing = r.added@.len() == 0 && r.dropped@.len() == 0 && r.changed@.len() == 0;
    let base_place = match base {
        Some(m) => schema_of(m),
        None => None,
    };
    match schema_of(branch) {
        None => nothing,
        Some(k) => match base_place {
            Some(j) => is_delta(r, base->0.schemas@[j].fields@, branch.schemas@[k].fields@),
            None => r.added@ == branch.schemas@[k].fields@.map_values(|f: SchemaField| f.name)
                && r.dropped@.len() == 0 && r.changed@.len() == 0,
        },
    }
}

/// What changed in one table of a branch: its schema, its snapshot, and how
/// many rows it has.
pub fn table_diff(d: &DivergedPointer, base: &Option<TableMetadata>, branch: &TableMetadata) -> (r: TableDiff)
    ensures
        r.table@ == diverged_ident(*d),
        is_table_delta(r.schema, *base, *branch),
        r.base_snapshot_id == (match *base {
            Some(m) => metadata::current_of(m),
            None => None,
        }),
        r.branch_snapshot_id == metadata::current_of(*branch),
        r.base_rows == (match *base {
            Some(m) => rows_of(m),
            None => None,
        }),
        r.branch_rows == rows_of(*branch),
        r.row_delta == (match (r.base_rows, r.branch_rows) {
            (Some(b), Some(h)) => Some((h - b) as i128),
            _ => None,
        }),
        *base is None ==> r.base_snapshot_id is None && r.base_rows is None && r.row_delta is None,
        r.base_snapshot_id matches Some(id) ==> (*base matches Some(m) && m.current_snapshot_id == Some(id)),
        r.branch_snapshot_id matches Some(id) ==> branch.current_snapshot_id == Some(id),
        r.row_delta matches Some(more) ==> (r.base_rows matches Some(b) && (r.branch_rows matches Some(h) && h == b
            + more)),
{
    let base_place = match base {
        Some(m) => crate::planning::find_schema(&m.schemas, m.current_schema_id),
        None => None,
    };
    let schema = match crate::planning::find_schema(&branch.schemas, branch.current_schema_id) {
        None => SchemaDelta { added: no_names(), dropped: no_names(), changed: no_names() },
        Some(k) => match (base, base_place) {
            (Some(m), Some(j)) => schema_delta(&m.schemas[j], &branch.schemas[k]),
            _ => SchemaDelta {
                added: all_names(&branch.schemas[k].fields),
                dropped: no_names(),
                changed: no_names(),
            },
        },
    };
    let base_snapshot_id = match base {
        Some(m) => m.current_id(),
        None => None,
    };
    let base_rows = match base {
        Some(m) => total_records(m),
        None => None,
    };
    let branch_rows = total_records(branch);
    let row_delta = match (base_rows, branch_rows) {
        (Some(b), Some(h)) => Some(h as i128 - b as i128),
        _ => None,
    };
    TableDiff {
        table: ident_of(d),
        schema,
        base_snapshot_id,
        branch_snapshot_id: branch.current_id(),
        base_rows,
        branch_rows,
        row_delta,
    }
}

/// The branch that a route addresses which takes no tags, and says so in a
/// message of its own.
pub open spec fn addressed_branch(
    access: Access,
    name: Seq<char>,
    found: Option<BranchRecord>,
    no_tags: Seq<char>,
) -> Result<BranchRecord, error::ErrorView> {
    match addressed(access, name, found) {
        Err(e) => Err(e),
        Ok(b) => if is_tag_record(b) {
            Err(error::bad_request(no_tags))
        } else {
            Ok(b)
        },
    }
}

fn branches_only<'a>(access: &Access, name: &str, found: &'a Option<BranchRecord>, no_tags: &str) -> (r: Result<
    &'a BranchRecord,
    ApiError,
>)
    ensures
        match addressed_branch(*access, name@, *found, no_tags@) {
            Ok(b) => r matches Ok(got) && *got == b,
            Err(e) => error::fails_with(r, e),
        },
{
    match get_branch(access, name, found) {
        Err(e) => Err(e),
        Ok(b) => if b.is_tag() {
            Err(ApiError::bad_request(no_tags))
        } else {
            Ok(b)
        },
    }
}

/// Admits a diff: of branches, not of tags.
pub fn diff_branch<'a>(access: &Access, name: &str, found: &'a Option<BranchRecord>) -> (r: Result<
    &'a BranchRecord,
    ApiError,
>)
    ensures
        match addressed_branch(*access, name@, *found, "diff applies to branches, not tags"@) {
            Ok(b) => r matches Ok(got) && *got == b,
            Err(e) => error::fails_with(r, e),
        },
{
    branches_only(access, name, found, "diff applies to branches, not tags")
}

/// Admits a look at the merge gate: of branches, not of tags.
pub fn branch_gate<'a>(access: &Access, name: &str, found: &'a Option<BranchRecord>) -> (r: Result<
    &'a BranchRecord,
    ApiError,
>)
    ensures
        match addressed_branch(*access, name@, *found, "gate applies to branches, not tags"@) {
            Ok(b) => r matches Ok(got) && *got == b,
            Err(e) => error::fails_with(r, e),
        },
{
    branches_only(access, name, found, "gate applies to branches, not tags")
}

// ---------------------------------------------------------------------------
// The merge gate
// ---------------------------------------------------------------------------

/// The schemas that contracts compare before a merge: the base's and the head's. A
/// table without a schema on main is held against its own head, and a head
/// without a schema is not judged.
pub fn gate_schemas<'a>(base: &'a Option<TableMetadata>, branch: &'a TableMetadata) -> (r: Option<
    (&'a Schema, &'a Schema),
>)
    ensures
        match schema_of(*branch) {
            None => r is None,
            Some(k) => r matches Some(pair) && *pair.1 == branch.schemas@[k] && *pair.0 == (match *base {
                Some(m) => match schema_of(m) {
                    Some(j) => m.schemas@[j],
                    None => branch.schemas@[k],
                },
                None => branch.schemas@[k],
            }),
        },
        r matches Some(pair) ==> pair.1.schema_id == Some(branch.current_schema_id),
        r matches Some(pair) ==> (match *base {
            None => *pair.0 == *pair.1,
            Some(m) => pair.0.schema_id == Some(m.current_schema_id) || *pair.0 == *pair.1,
        }),
{
    let k = match crate::planning::find_schema(&branch.schemas, branch.current_schema_id) {
        None => { return None; },
        Some(k) => k,
    };
    let head = &branch.schemas[k];
    match base {
        Some(m) => match crate::planning::find_schema(&m.schemas, m.current_schema_id) {
            Some(j) => Some((&m.schemas[j], head)),
            None => Some((head, head)),
        },
        None => Some((head, head)),
    }
}

/// A diverged table, with what its head violates of each contract that is
/// bound to it.
#[derive(Debug)]
pub struct GateTable {
    /// The table.
    pub table: String,
    /// Whether the head has a schema to judge.
    pub judged: bool,
    /// The contracts.
    pub contracts: Vec<EvaluatedContract>,
}

/// One contract that a table violates.
#[derive(Debug)]
pub struct GateEntry {
    /// The table.
    pub table: String,
    /// The contract.
    pub contract: String,
    /// Its mode.
    pub mode: String,
    /// What is violated.
    pub violations: Vec<String>,
}

/// The contracts that the tables violate, each with its table, in order.
pub open spec fn violated(tables: Seq<GateTable>) -> Seq<(Seq<char>, EvaluatedContract)>
    decreases tables.len(),
{
    if tables.len() == 0 {
        seq![]
    } else {
        let t = tables.last();
        violated(tables.drop_last()) + (if t.judged { violated_in(t.table@, t.contracts@) } else { seq![] })
    }
}

/// The contracts that one table violates.
pub open spec fn violated_in(table: Seq<char>, all: Seq<EvaluatedContract>) -> Seq<(Seq<char>, EvaluatedContract)>
    decreases all.len(),
{
    if all.len() == 0 {
        seq![]
    } else {
        let earlier = violated_in(table, all.drop_last());
        if all.last().violations@.len() > 0 {
            earlier.push((table, all.last()))
        } else {
            earlier
        }
    }
}

/// Whether a violated contract blocks the merge.
pub open spec fn blocks(v: (Seq<char>, EvaluatedContract)) -> bool {
    v.1.mode == EnforcementMode::Block
}

/// The texts of violations.
pub open spec fn violation_texts(all: Seq<contracts::Violation>) -> Seq<Seq<char>> {
    all.map_values(|v: contracts::Violation| v.kind@ + ": "@ + v.detail@)
}

/// Whether the entry is that of the violated contract.
pub open spec fn is_entry(e: GateEntry, v: (Seq<char>, EvaluatedContract)) -> bool {
    &&& e.table@ == v.0
    &&& e.contract == v.1.name
    &&& e.mode@ == contracts::mode_name(v.1.mode)
    &&& text::texts(e.violations@) == violation_texts(v.1.violations@)
}

/// Whether the entries are those of the violated contracts, in order.
pub open spec fn are_entries(entries: Seq<GateEntry>, all: Seq<(Seq<char>, EvaluatedContract)>) -> bool {
    entries.len() == all.len() && forall|i: int|
        0 <= i < entries.len() ==> is_entry(#[trigger] entries[i], all[i])
}

fn render_violations(all: &Vec<contracts::Violation>) -> (r: Vec<String>)
    ensures
        text::texts(r@) == violation_texts(all@),
{
    let mut out: Vec<String> = Vec::new();
    let mut i: usize = 0;
    while i < all.len()
        invariant
            i <= all@.len(),
            text::texts(out@) == violation_texts(all@.take(i as int)),
        decreases all@.len() - i,
    {
        let ghost before = out@;
        out.push(cat3(all[i].kind.as_str(), ": ", all[i].detail.as_str()));
        let ghost one = all@[i as int].kind@ + ": "@ + all@[i as int].detail@;
        assert(text::texts(out@) =~= text::texts(before).push(one));
        assert(violation_texts(all@.take(i + 1)) =~= violation_texts(all@.take(i as int)).push(one));
        i = i + 1;
    }
    assert(all@.take(all@.len() as int) =~= all@);
    out
}

proof fn entry_added(
    entries: Seq<GateEntry>,
    all: Seq<(Seq<char>, EvaluatedContract)>,
    e: GateEntry,
    v: (Seq<char>, EvaluatedContract),
)
    requires
        are_entries(entries, all),
        is_entry(e, v),
    ensures
        are_entries(entries.push(e), all.push(v)),
{
}

fn judge_table(
    table: &GateTable,
    blocking: &mut Vec<GateEntry>,
    warnings: &mut Vec<GateEntry>,
    Ghost(so_far): Ghost<Seq<(Seq<char>, EvaluatedContract)>>,
)
    requires
        are_entries(old(blocking)@, so_far.filter(|v: (Seq<char>, EvaluatedContract)| blocks(v))),
        are_entries(old(warnings)@, so_far.filter(|v: (Seq<char>, EvaluatedContract)| !blocks(v))),
    ensures
        ({
            let now = so_far + (if table.judged { violated_in(table.table@, table.contracts@) } else { seq![] });
            &&& are_entries(final(blocking)@, now.filter(|v: (Seq<char>, EvaluatedContract)| blocks(v)))
            &&& are_entries(final(warnings)@, now.filter(|v: (Seq<char>, EvaluatedContract)| !blocks(v)))
        }),
{
    let ghost yes = |v: (Seq<char>, EvaluatedContract)| blocks(v);
    let ghost no = |v: (Seq<char>, EvaluatedContract)| !blocks(v);
    if !table.judged {
        assert(so_far + Seq::<(Seq<char>, EvaluatedContract)>::empty() =~= so_far);
        return;
    }
    let all = &table.contracts;
    let mut i: usize = 0;
    assert(all@.take(0) =~= Seq::<EvaluatedContract>::empty());
    assert(so_far + violated_in(table.table@, all@.take(0)) =~= so_far);
    while i < all.len()
        invariant
            i <= all@.len(),
            *all == table.contracts,
            yes == (|v: (Seq<char>, EvaluatedContract)| blocks(v)),
            no == (|v: (Seq<char>, EvaluatedContract)| !blocks(v)),
            are_entries(blocking@, (so_far + violated_in(table.table@, all@.take(i as int))).filter(yes)),
            are_entries(warnings@, (so_far + violated_in(table.table@, all@.take(i as int))).filter(no)),
        decreases all@.len() - i,
    {
        proof {
            reveal(Seq::filter);
        }
        assert(all@.take(i + 1).drop_last() =~= all@.take(i as int));
        let contract = &all[i];
        let ghost was = so_far + violated_in(table.table@, all@.take(i as int));
        let ghost now = so_far + violated_in(table.table@, all@.take(i + 1));
        if contract.violations.len() > 0 {
            let ghost v = (table.table@, *contract);
            assert(now =~= was.push(v));
            assert(now.drop_last() =~= was);
            let entry = GateEntry {
                table: table.table.clone(),
                contract: contract.name.clone(),
                mode: contract.mode.as_str().to_owned(),
                violations: render_violations(&contract.violations),
            };
            match contract.mode {
                EnforcementMode::Block => {
                    proof {
                        entry_added(blocking@, was.filter(yes), entry, v);
                    }
                    blocking.push(entry);
                },
                _ => {
                    proof {
                        entry_added(warnings@, was.filter(no), entry, v);
                    }
                    warnings.push(entry);
                },
            }
        } else {
            assert(now =~= was);
        }
        i = i + 1;
    }
    assert(all@.take(all@.len() as int) =~= all@);
}

/// Whether the contract at place `c` of the table at place `t` is violated by a
/// head that was judged.
pub open spec fn is_violated(tables: Seq<GateTable>, t: int, c: int) -> bool {
    &&& 0 <= t < tables.len()
    &&& tables[t].judged
    &&& 0 <= c < tables[t].contracts@.len()
    &&& tables[t].contracts@[c].violations@.len() > 0
}

/// Whether the entry tells of the contract at place `c` of the table at place
/// `t`: its table, its name, and its mode by its wire name.
pub open spec fn tells_of(e: GateEntry, tables: Seq<GateTable>, t: int, c: int) -> bool {
    &&& e.table@ == tables[t].table@
    &&& e.contract@ == tables[t].contracts@[c].name@
    &&& e.violations@.len() == tables[t].contracts@[c].violations@.len()
    &&& e.mode@ == (match tables[t].contracts@[c].mode {
        EnforcementMode::Warn => "warn"@,
        EnforcementMode::Quarantine => "quarantine"@,
        EnforcementMode::Block => "block"@,
    })
}

/// Whether the entry tells of a violated contract of the tables.
pub open spec fn comes_from(e: GateEntry, tables: Seq<GateTable>) -> bool {
    exists|t: int, c: int| #[trigger] is_violated(tables, t, c) && tells_of(e, tables, t, c)
}

/// Whether one of the entries tells of this contract.
pub open spec fn told_among(entries: Seq<GateEntry>, tables: Seq<GateTable>, t: int, c: int) -> bool {
    exists|i: int| 0 <= i < entries.len() && tells_of(#[trigger] entries[i], tables, t, c)
}

/// Whether the entries hold the violated contracts, those in block mode apart
/// from the rest.
pub open spec fn sorted_by_mode(tables: Seq<GateTable>, blocking: Seq<GateEntry>, warnings: Seq<GateEntry>) -> bool {
    &&& forall|i: int|
        0 <= i < blocking.len() ==> (#[trigger] blocking[i]).mode@ == "block"@ && comes_from(blocking[i], tables)
    &&& forall|i: int|
        0 <= i < warnings.len() ==> ((#[trigger] warnings[i]).mode@ == "warn"@ || warnings[i].mode@
            == "quarantine"@) && comes_from(warnings[i], tables)
    &&& forall|t: int, c: int|
        #[trigger] is_violated(tables, t, c) ==> told_among(
            if tables[t].contracts@[c].mode == EnforcementMode::Block {
                blocking
            } else {
                warnings
            },
            tables,
            t,
            c,
        )
}

proof fn violated_in_holds(table: Seq<char>, all: Seq<EvaluatedContract>, c: int)
    requires
        0 <= c < all.len(),
        all[c].violations@.len() > 0,
    ensures
        violated_in(table, all).contains((table, all[c])),
    decreases all.len(),
{
    let earlier = violated_in(table, all.drop_last());
    if c == all.len() - 1 {
        assert(violated_in(table, all).last() == (table, all[c]));
    } else {
        violated_in_holds(table, all.drop_last(), c);
        let k = choose|k: int| 0 <= k < earlier.len() && earlier[k] == (table, all[c]);
        assert(violated_in(table, all)[k] == (table, all[c]));
    }
}

proof fn violated_holds(tables: Seq<GateTable>, t: int, c: int)
    requires
        is_violated(tables, t, c),
    ensures
        violated(tables).contains((tables[t].table@, tables[t].contracts@[c])),
    decreases tables.len(),
{
    let v = (tables[t].table@, tables[t].contracts@[c]);
    let earlier = violated(tables.drop_last());
    if t == tables.len() - 1 {
        violated_in_holds(tables[t].table@, tables[t].contracts@, c);
        let own = violated_in(tables[t].table@, tables[t].contracts@);
        let k = choose|k: int| 0 <= k < own.len() && own[k] == v;
        assert(violated(tables)[earlier.len() + k] == v);
    } else {
        violated_holds(tables.drop_last(), t, c);
        let k = choose|k: int| 0 <= k < earlier.len() && earlier[k] == v;
        assert(violated(tables)[k] == v);
    }
}

proof fn violated_in_comes_from(table: Seq<char>, all: Seq<EvaluatedContract>, k: int) -> (c: int)
    requires
        0 <= k < violated_in(table, all).len(),
    ensures
        0 <= c < all.len(),
        all[c].violations@.len() > 0,
        violated_in(table, all)[k] == (table, all[c]),
    decreases all.len(),
{
    let earlier = violated_in(table, all.drop_last());
    if k < earlier.len() {
        violated_in_comes_from(table, all.drop_last(), k)
    } else {
        all.len() - 1
    }
}

proof fn violated_comes_from(tables: Seq<GateTable>, k: int) -> (tc: (int, int))
    requires
        0 <= k < violated(tables).len(),
    ensures
        is_violated(tables, tc.0, tc.1),
        violated(tables)[k] == (tables[tc.0].table@, tables[tc.0].contracts@[tc.1]),
    decreases tables.len(),
{
    let earlier = violated(tables.drop_last());
    let t = tables.len() - 1;
    if k < earlier.len() {
        violated_comes_from(tables.drop_last(), k)
    } else {
        let c = violated_in_comes_from(tables[t].table@, tables[t].contracts@, k - earlier.len());
        (t, c)
    }
}

/// A merge is blocked for the violated contracts in block mode, and for no
/// others: each of them is among the blocking entries, and every blocking entry
/// is one of them, under the mode name "block". Every other violated contract is
/// among the warnings, which hold nothing else, under the mode name "warn" or
/// "quarantine". Where no violated contract is in block mode, nothing blocks.
pub proof fn only_block_mode_blocks(tables: Seq<GateTable>, blocking: Seq<GateEntry>, warnings: Seq<GateEntry>)
    requires
        are_entries(blocking, violated(tables).filter(|v: (Seq<char>, EvaluatedContract)| blocks(v))),
        are_entries(warnings, violated(tables).filter(|v: (Seq<char>, EvaluatedContract)| !blocks(v))),
    ensures
        sorted_by_mode(tables, blocking, warnings),
        (forall|t: int, c: int|
            #[trigger] is_violated(tables, t, c) ==> tables[t].contracts@[c].mode != EnforcementMode::Block)
            ==> blocking.len() == 0,
{
    let all = violated(tables);
    let yes = |v: (Seq<char>, EvaluatedContract)| blocks(v);
    let no = |v: (Seq<char>, EvaluatedContract)| !blocks(v);
    broadcast use vstd::seq_lib::group_filter_ensures;

    assert forall|i: int| 0 <= i < blocking.len() implies (#[trigger] blocking[i]).mode@ == "block"@ && comes_from(
        blocking[i],
        tables,
    ) by {
        let v = all.filter(yes)[i];
        assert(is_entry(blocking[i], v));
        assert(all.filter(yes).contains(v));
        all.lemma_filter_contains_rev(yes, v);
        assert(yes(v));
        let k = choose|k: int| 0 <= k < all.len() && all[k] == v;
        let (t, c) = violated_comes_from(tables, k);
        assert(text::texts(blocking[i].violations@).len() == violation_texts(v.1.violations@).len());
        assert(is_violated(tables, t, c) && tells_of(blocking[i], tables, t, c));
    }
    assert forall|i: int| 0 <= i < warnings.len() implies ((#[trigger] warnings[i]).mode@ == "warn"@
        || warnings[i].mode@ == "quarantine"@) && comes_from(warnings[i], tables) by {
        let v = all.filter(no)[i];
        assert(is_entry(warnings[i], v));
        assert(all.filter(no).contains(v));
        all.lemma_filter_contains_rev(no, v);
        assert(no(v));
        let k = choose|k: int| 0 <= k < all.len() && all[k] == v;
        let (t, c) = violated_comes_from(tables, k);
        assert(text::texts(warnings[i].violations@).len() == violation_texts(v.1.violations@).len());
        assert(is_violated(tables, t, c) && tells_of(warnings[i], tables, t, c));
    }
    assert forall|t: int, c: int| #[trigger] is_violated(tables, t, c) implies told_among(
        if tables[t].contracts@[c].mode == EnforcementMode::Block {
            blocking
        } else {
            warnings
        },
        tables,
        t,
        c,
    ) by {
        let v = (tables[t].table@, tables[t].contracts@[c]);
        violated_holds(tables, t, c);
        let (entries, kept) = if tables[t].contracts@[c].mode == EnforcementMode::Block {
            (blocking, all.filter(yes))
        } else {
            (warnings, all.filter(no))
        };
        assert(yes(v) || no(v));
        assert(kept.contains(v));
        let i = choose|i: int| 0 <= i < kept.len() && kept[i] == v;
        assert(is_entry(entries[i], v));
        assert(text::texts(entries[i].violations@).len() == violation_texts(v.1.violations@).len());
        assert(tells_of(entries[i], tables, t, c));
    }
    if blocking.len() > 0 {
        assert(blocking[0].mode@ == "block"@);
        let (t, c) = choose|t: int, c: int|
            #[trigger] is_violated(tables, t, c) && tells_of(blocking[0], tables, t, c);
        reveal_strlit("warn");
        reveal_strlit("quarantine");
        reveal_strlit("block");
        assert("warn"@.len() == 4 && "quarantine"@.len() == 10 && "block"@.len() == 5);
        assert(is_violated(tables, t, c) && tables[t].contracts@[c].mode == EnforcementMode::Block);
    }
}

/// The merge gate: the violated contracts that block the merge, and those that
/// only warn.
pub fn evaluate_gate(tables: &Vec<GateTable>) -> (r: (Vec<GateEntry>, Vec<GateEntry>))
    ensures
        are_entries(r.0@, violated(tables@).filter(|v: (Seq<char>, EvaluatedContract)| blocks(v))),
        are_entries(r.1@, violated(tables@).filter(|v: (Seq<char>, EvaluatedContract)| !blocks(v))),
        sorted_by_mode(tables@, r.0@, r.1@),
{
    let mut blocking: Vec<GateEntry> = Vec::new();
    let mut warnings: Vec<GateEntry> = Vec::new();
    let mut i: usize = 0;
    proof {
        reveal(Seq::filter);
        assert(tables@.take(0) =~= Seq::<GateTable>::empty());
    }
    while i < tables.len()
        invariant
            i <= tables@.len(),
            are_entries(
                blocking@,
                violated(tables@.take(i as int)).filter(|v: (Seq<char>, EvaluatedContract)| blocks(v)),
            ),
            are_entries(
                warnings@,
                violated(tables@.take(i as int)).filter(|v: (Seq<char>, EvaluatedContract)| !blocks(v)),
            ),
        decreases tables@.len() - i,
    {
        assert(tables@.take(i + 1).drop_last() =~= tables@.take(i as int));
        let ghost so_far = violated(tables@.take(i as int));
        judge_table(&tables[i], &mut blocking, &mut warnings, Ghost(so_far));
        i = i + 1;
    }
    assert(tables@.take(tables@.len() as int) =~= tables@);
    proof {
        only_block_mode_blocks(tables@, blocking@, warnings@);
    }
    (blocking, warnings)
}

// ---------------------------------------------------------------------------
// Merging
// ---------------------------------------------------------------------------

/// Whether a table changed on both sides since it diverged.
pub open spec fn conflicts(d: DivergedPointer) -> bool {
    d.main_pointer_version != d.base_pointer_version
}

/// The names of tables.
pub open spec fn idents(all: Seq<DivergedPointer>) -> Seq<Seq<char>> {
    all.map_values(|d: DivergedPointer| diverged_ident(d))
}

/// The refusal of a merge with conflicts.
pub open spec fn conflict_error(all: Seq<DivergedPointer>) -> Option<error::ErrorView> {
    let found = idents(all.filter(|d: DivergedPointer| conflicts(d)));
    if found.len() == 0 {
        None
    } else {
        Some(
            error::error_of(
                ErrorKind::CommitFailed,
                "merge conflict: "@ + text::decimal(found.len() as int)
                    + " table(s) changed on both main and the branch since divergence: "@ + text::join_with(
                    found,
                    ", "@,
                ),
            ),
        )
    }
}

fn check_conflicts(all: &Vec<DivergedPointer>) -> (r: Result<(), ApiError>)
    ensures
        match conflict_error(all@) {
            Some(e) => error::fails_with(r, e),
            None => r is Ok,
        },
{
    let ghost bad = |d: DivergedPointer| conflicts(d);
    let mut found: Vec<String> = Vec::new();
    let mut i: usize = 0;
    proof {
        reveal(Seq::filter);
        assert(idents(all@.take(0).filter(bad)) =~= text::texts(found@));
    }
    while i < all.len()
        invariant
            i <= all@.len(),
            bad == (|d: DivergedPointer| conflicts(d)),
            text::texts(found@) == idents(all@.take(i as int).filter(bad)),
        decreases all@.len() - i,
    {
        proof {
            reveal(Seq::filter);
        }
        assert(all@.take(i + 1).drop_last() =~= all@.take(i as int));
        let d = &all[i];
        if d.main_pointer_version != d.base_pointer_version {
            let ghost before = found@;
            let ghost was = all@.take(i as int).filter(bad);
            found.push(ident_of(d));
            assert(text::texts(found@) =~= text::texts(before).push(diverged_ident(*d)));
            assert(idents(was.push(*d)) =~= idents(was).push(diverged_ident(*d)));
        }
        i = i + 1;
    }
    assert(all@.take(all@.len() as int) =~= all@);
    assert(found@.len() == text::texts(found@).len());
    if found.len() == 0 {
        return Ok(());
    }
    Err(ApiError::new(
        ErrorKind::CommitFailed,
        cat4(
            "merge conflict: ",
            decimal_u64(found.len() as u64).as_str(),
            " table(s) changed on both main and the branch since divergence: ",
            join(&found, ", ").as_str(),
        ).as_str(),
    ))
}

/// The refusal of a merge that a contract blocks.
pub open spec fn gate_error(blocking: Seq<GateEntry>) -> Option<error::ErrorView> {
    if blocking.len() == 0 {
        None
    } else {
        Some(
            error::error_of(
                ErrorKind::CommitFailed,
                "merge gate failed: "@ + text::decimal(blocking.len() as int)
                    + " contract violation(s) block the merge; fix the branch and retry — first: "@
                    + blocking[0].contract@ + " on "@ + blocking[0].table@,
            ),
        )
    }
}

/// What is known so far of a merge.
#[derive(Debug)]
pub struct MergeFacts {
    /// The tables that diverged on the branch.
    pub diverged: Option<Vec<DivergedPointer>>,
    /// What blocks the merge.
    pub blocking: Option<Vec<GateEntry>>,
}

/// The next step before a merge.
#[derive(Clone, Copy, Debug, PartialEq, Eq, Structural)]
pub enum MergeAsk {
    /// Look up the tables that diverged.
    AskDiverged,
    /// Hold their heads against the contracts.
    AskGate,
    /// Move the pointers of main.
    Merge,
}

/// The step before a merge. Whatever could refuse it is checked before any
/// pointer moves: the caller's access, that it is a branch of main, that
/// something diverged, that no contract blocks, and that no table changed on
/// both sides.
pub open spec fn merge_step(
    access: Access,
    name: Seq<char>,
    found: Option<BranchRecord>,
    facts: MergeFacts,
) -> Result<MergeAsk, error::ErrorView> {
    match addressed_branch(access, name, found, "cannot merge a tag"@) {
        Err(e) => Err(e),
        Ok(branch) => if branch.base_ref@ != "main"@ {
            Err(error::bad_request("only branches based on main can be merged in this milestone"@))
        } else {
            match facts.diverged {
                None => Ok(MergeAsk::AskDiverged),
                Some(diverged) => if diverged@.len() == 0 {
                    Err(error::bad_request("branch has no diverged tables to merge"@))
                } else {
                    match facts.blocking {
                        None => Ok(MergeAsk::AskGate),
                        Some(blocking) => match gate_error(blocking@) {
                            Some(e) => Err(e),
                            None => match conflict_error(diverged@) {
                                Some(e) => Err(e),
                                None => Ok(MergeAsk::Merge),
                            },
                        },
                    }
                },
            }
        },
    }
}

/// Takes the next step before a merge.
pub fn merge_branch(access: &Access, name: &str, found: &Option<BranchRecord>, facts: &MergeFacts) -> (r: Result<
    MergeAsk,
    ApiError,
>)
    ensures
        error::outcome(r) == merge_step(*access, name@, *found, *facts),
{
    let branch = match branches_only(access, name, found, "cannot merge a tag") {
        Err(e) => { return Err(e); },
        Ok(branch) => branch,
    };
    if !same(branch.base_ref.as_str(), "main") {
        return Err(ApiError::bad_request("only branches based on main can be merged in this milestone"));
    }
    let diverged = match &facts.diverged {
        None => { return Ok(MergeAsk::AskDiverged); },
        Some(diverged) => diverged,
    };
    if diverged.len() == 0 {
        return Err(ApiError::bad_request("branch has no diverged tables to merge"));
    }
    let blocking = match &facts.blocking {
        None => { return Ok(MergeAsk::AskGate); },
        Some(blocking) => blocking,
    };
    if blocking.len() > 0 {
        let head = cat3(
            "merge gate failed: ",
            decimal_u64(blocking.len() as u64).as_str(),
            " contract violation(s) block the merge; fix the branch and retry — first: ",
        );
        return Err(ApiError::new(
            ErrorKind::CommitFailed,
            cat4(head.as_str(), blocking[0].contract.as_str(), " on ", blocking[0].table.as_str()).as_str(),
        ));
    }
    match check_conflicts(diverged) {
        Err(e) => Err(e),
        Ok(()) => Ok(MergeAsk::Merge),
    }
}

/// Pointers move only for a caller with management access, only where no
/// contract blocks, and only where no table changed on both sides.
pub proof fn merges_are_clean(access: Access, name: Seq<char>, found: Option<BranchRecord>, facts: MergeFacts, i: int)
    requires
        merge_step(access, name, found, facts) == Ok::<MergeAsk, error::ErrorView>(MergeAsk::Merge),
    ensures
        access is Granted,
        found matches Some(branch) && !is_tag_record(branch) && branch.base_ref@ == "main"@,
        facts.blocking matches Some(blocking) && blocking@.len() == 0,
        facts.diverged matches Some(diverged) && (0 <= i < diverged@.len() ==> diverged@[i].main_pointer_version
            == diverged@[i].base_pointer_version),
{
    let diverged = facts.diverged->0@;
    if 0 <= i < diverged.len() {
        let bad = |d: DivergedPointer| conflicts(d);
        assert(idents(diverged.filter(bad)).len() == diverged.filter(bad).len());
        if bad(diverged[i]) {
            broadcast use vstd::seq_lib::group_filter_ensures;
            assert(diverged.contains(diverged[i]));
            assert(diverged.filter(bad).contains(diverged[i]));
        }
    }
}

/// A merge under way: which tables were moved, and which lost a race.
#[derive(Debug)]
pub struct MergeRun {
    /// How many tables were tried.
    pub tried: usize,
    /// The tables that were moved.
    pub merged: Vec<String>,
    /// The tables that lost a race against a commit to `main`.
    pub raced: Vec<String>,
}

/// What came of moving one table.
#[derive(Debug)]
pub enum ForwardOutcome {
    /// `main` points at the branch's metadata.
    Moved,
    /// Another commit to `main` came first.
    Raced,
    /// It failed.
    Failed(CommitBackendError),
}

/// The next step of a merge.
#[derive(Debug)]
pub enum MergeStep {
    /// Move this table, if its pointer on `main` still has this version.
    Forward {
        /// The table, by its place.
        table: usize,
        /// The version that the pointer must still have.
        expected: u64,
    },
    /// Mark the branch merged, and answer with the tables that were moved.
    Finish(Vec<String>),
    /// Answer with the error.
    Refuse(ApiError),
}

/// The version as the store counts it.
pub open spec fn as_version(v: i64) -> u64 {
    if v >= 0 {
        v as u64
    } else {
        u64::MAX
    }
}

/// The refusal of a merge that lost a race.
pub open spec fn raced_error(merged: Seq<Seq<char>>, raced: Seq<Seq<char>>) -> error::ErrorView {
    error::error_of(
        ErrorKind::CommitFailed,
        "merge raced a concurrent main commit on "@ + text::decimal(raced.len() as int) + " table(s): "@
            + text::join_with(raced, ", "@) + "; "@ + text::decimal(merged.len() as int)
            + " table(s) merged before the race — refresh and re-merge the rest"@,
    )
}

/// The names of the diverged tables, in order.
pub open spec fn diverged_idents(diverged: Seq<DivergedPointer>) -> Seq<Seq<char>> {
    diverged.map_values(|d: DivergedPointer| diverged_ident(d))
}

/// Whether each of `all` is in one of two lists, which both keep the order.
pub open spec fn is_shared_out(all: Seq<Seq<char>>, one: Seq<Seq<char>>, other: Seq<Seq<char>>) -> bool
    decreases all.len(),
{
    if all.len() == 0 {
        one.len() == 0 && other.len() == 0
    } else {
        ||| one.len() > 0 && one.last() == all.last() && is_shared_out(all.drop_last(), one.drop_last(), other)
        ||| other.len() > 0 && other.last() == all.last() && is_shared_out(all.drop_last(), one, other.drop_last())
    }
}

proof fn nothing_is_left(all: Seq<Seq<char>>, one: Seq<Seq<char>>, other: Seq<Seq<char>>)
    requires
        is_shared_out(all, one, other),
    ensures
        one.len() + other.len() == all.len(),
        other.len() == 0 ==> one == all,
        one.len() == 0 ==> other == all,
    decreases all.len(),
{
    if all.len() > 0 {
        if one.len() > 0 && one.last() == all.last() && is_shared_out(all.drop_last(), one.drop_last(), other) {
            nothing_is_left(all.drop_last(), one.drop_last(), other);
            assert(one =~= one.drop_last().push(one.last()));
        } else {
            nothing_is_left(all.drop_last(), one, other.drop_last());
            assert(other =~= other.drop_last().push(other.last()));
        }
        assert(all =~= all.drop_last().push(all.last()));
    } else {
        assert(one =~= all && other =~= all);
    }
}

/// Whether the run stands after the first tables: each of them was moved or
/// lost its race, and stands in its list, in order.
pub open spec fn stands_after(run: MergeRun, diverged: Seq<DivergedPointer>) -> bool {
    &&& run.tried <= diverged.len()
    &&& is_shared_out(
        diverged_idents(diverged.take(run.tried as int)),
        text::texts(run.merged@),
        text::texts(run.raced@),
    )
}

/// Whether the step is what comes next.
pub open spec fn is_next(step: MergeStep, run: MergeRun, diverged: Seq<DivergedPointer>) -> bool {
    if run.tried < diverged.len() {
        step matches MergeStep::Forward { table, expected } && table == run.tried && expected == as_version(
            diverged[run.tried as int].main_pointer_version,
        )
    } else if run.raced@.len() > 0 {
        step matches MergeStep::Refuse(e) && e@ == raced_error(text::texts(run.merged@), text::texts(run.raced@))
    } else {
        step matches MergeStep::Finish(out) && text::texts(out@) == text::texts(run.merged@)
    }
}

impl MergeRun {
    /// A merge that has moved nothing yet.
    pub fn start() -> (r: MergeRun)
        ensures
            r.tried == 0,
            r.merged@.len() == 0,
            r.raced@.len() == 0,
            forall|diverged: Seq<DivergedPointer>| #[trigger] stands_after(r, diverged),
    {
        MergeRun { tried: 0, merged: Vec::new(), raced: Vec::new() }
    }

    /// What comes next.
    pub fn next(&self, diverged: &Vec<DivergedPointer>) -> (r: MergeStep)
        requires
            stands_after(*self, diverged@),
        ensures
            is_next(r, *self, diverged@),
    {
        if self.tried < diverged.len() {
            let v: i64 = diverged[self.tried].main_pointer_version;
            let expected: u64 = if v >= 0 { v as u64 } else { u64::MAX };
            return MergeStep::Forward { table: self.tried, expected };
        }
        if self.raced.len() > 0 {
            let head = cat5(
                "merge raced a concurrent main commit on ",
                decimal_u64(self.raced.len() as u64).as_str(),
                " table(s): ",
                join(&self.raced, ", ").as_str(),
                "; ",
            );
            assert(text::texts(self.raced@).len() == self.raced@.len());
            assert(text::texts(self.merged@).len() == self.merged@.len());
            return MergeStep::Refuse(ApiError::new(
                ErrorKind::CommitFailed,
                cat3(
                    head.as_str(),
                    decimal_u64(self.merged.len() as u64).as_str(),
                    " table(s) merged before the race — refresh and re-merge the rest",
                ).as_str(),
            ));
        }
        MergeStep::Finish(text::copy_texts(&self.merged))
    }

    /// Takes in what came of moving the next table. A failure other than a
    /// lost race ends the merge.
    pub fn took(self, diverged: &Vec<DivergedPointer>, outcome: ForwardOutcome) -> (r: Result<MergeRun, ApiError>)
        requires
            stands_after(self, diverged@),
            self.tried < diverged@.len(),
        ensures
            match outcome {
                ForwardOutcome::Moved => {
                    &&& r matches Ok(run)
                    &&& stands_after(run, diverged@)
                    &&& run.tried == self.tried + 1
                    &&& text::texts(run.merged@) == text::texts(self.merged@).push(
                        diverged_ident(diverged@[self.tried as int]),
                    )
                    &&& run.raced == self.raced
                },
                ForwardOutcome::Raced => {
                    &&& r matches Ok(run)
                    &&& stands_after(run, diverged@)
                    &&& run.tried == self.tried + 1
                    &&& text::texts(run.raced@) == text::texts(self.raced@).push(
                        diverged_ident(diverged@[self.tried as int]),
                    )
                    &&& run.merged == self.merged
                },
                ForwardOutcome::Failed(e) => error::fails_with(r, commit::backend_failure(e)),
            },
    {
        let name = ident_of(&diverged[self.tried]);
        let all: usize = diverged.len();
        assert(self.tried < all);
        let tried: usize = self.tried + 1;
        let mut merged = self.merged;
        let mut raced = self.raced;
        proof {
            let names = diverged_idents(diverged@.take(tried as int));
            assert(names.drop_last() =~= diverged_idents(diverged@.take(self.tried as int)));
            assert(names.last() == name@);
        }
        match outcome {
            ForwardOutcome::Moved => {
                let ghost before = merged@;
                merged.push(name);
                assert(text::texts(merged@) =~= text::texts(before).push(name@));
                assert(text::texts(merged@).drop_last() =~= text::texts(before));
                Ok(MergeRun { tried, merged, raced })
            },
            ForwardOutcome::Raced => {
                let ghost before = raced@;
                raced.push(name);
                assert(text::texts(raced@) =~= text::texts(before).push(name@));
                assert(text::texts(raced@).drop_last() =~= text::texts(before));
                Ok(MergeRun { tried, merged, raced })
            },
            ForwardOutcome::Failed(e) => Err(backend_to_api(&e)),
        }
    }
}

/// A branch is marked merged only where every table of it was moved, and the
/// answer then names every diverged table, in order.
pub proof fn merges_are_complete(step: MergeStep, run: MergeRun, diverged: Seq<DivergedPointer>)
    requires
        stands_after(run, diverged),
        is_next(step, run, diverged),
        step is Finish,
    ensures
        run.raced@.len() == 0,
        step matches MergeStep::Finish(out) && text::texts(out@) == diverged_idents(diverged),
{
    let names = diverged_idents(diverged.take(run.tried as int));
    assert(diverged.take(run.tried as int) =~= diverged);
    nothing_is_left(names, text::texts(run.merged@), text::texts(run.raced@));
}

/// A merge that lost a race names every diverged table exactly once: among
/// those that were moved, or among those that were not.
pub proof fn races_are_told(step: MergeStep, run: MergeRun, diverged: Seq<DivergedPointer>)
    requires
        stands_after(run, diverged),
        is_next(step, run, diverged),
        step is Refuse,
    ensures
        is_shared_out(diverged_idents(diverged), text::texts(run.merged@), text::texts(run.raced@)),
        run.merged@.len() + run.raced@.len() == diverged.len(),
        run.raced@.len() > 0,
{
    assert(diverged.take(run.tried as int) =~= diverged);
    nothing_is_left(diverged_idents(diverged), text::texts(run.merged@), text::texts(run.raced@));
}

/// The snapshot that a tag pins for a table, where its metadata could be read.
pub fn head_snapshot_of(metadata: &Option<TableMetadata>) -> (r: Option<i64>)
    ensures
        r == (match *metadata {
            Some(m) => metadata::current_of(m),
            None => None,
        }),
{
    match metadata {
        Some(m) => m.current_id(),
        None => None,
    }
}

/// A branch or tag can be called anything of one to a hundred characters but
/// "main", and without an `@`.
pub proof fn names_are_judged(name: Seq<char>)
    ensures
        name_error(name) is None <==> 1 <= name.len() <= 100 && name != "main"@ && !name.contains('@'),
        name_error(name) matches Some(e) ==> e.kind == ErrorKind::BadRequest,
{
}

/// A ref can be built on main, and on a branch that is neither a tag nor
/// deleted; a ref on main has no base branch, and any other has the one it is
/// built on.
pub proof fn bases_are_judged(base_ref: Seq<char>, found: Option<BranchRecord>)
    ensures
        base_ref_error(base_ref, found) is None <==> base_ref == "main"@ || (found matches Some(b) && b.kind@ != "tag"@
            && b.state@ != "deleted"@),
        base_ref_error(base_ref, found) matches Some(e) ==> e.kind == ErrorKind::BadRequest,
        base_ref == "main"@ ==> base_branch_of(base_ref, found) is None,
        base_ref != "main"@ ==> (found matches Some(b) ==> base_branch_of(base_ref, found) == Some(b.id@)),
{
}

/// A branch is addressed only by a caller who was granted access, and only
/// while it is not deleted; where only branches are taken, never a tag.
pub proof fn refs_are_addressed(access: Access, name: Seq<char>, found: Option<BranchRecord>, no_tags: Seq<char>)
    ensures
        match addressed(access, name, found) {
            Ok(b) => access is Granted && found == Some(b) && b.state@ != "deleted"@,
            Err(e) => !(access is Granted) || e.kind == ErrorKind::NotFound && (found matches Some(b) ==> b.state@
                == "deleted"@),
        },
        match addressed_branch(access, name, found, no_tags) {
            Ok(b) => access is Granted && found == Some(b) && b.state@ != "deleted"@ && b.kind@ != "tag"@,
            Err(e) => !(access is Granted) || e.kind == ErrorKind::NotFound || (e.kind == ErrorKind::BadRequest && (found
                matches Some(b) && b.kind@ == "tag"@)),
        },
{
}

/// Whether a column of this name is among the fields.
pub open spec fn has_column(fields: Seq<SchemaField>, name: Seq<char>) -> bool {
    exists|i: int| 0 <= i < fields.len() && (#[trigger] fields[i]).name@ == name
}

/// Whether the last column of this name among the fields has this type.
pub open spec fn has_type(fields: Seq<SchemaField>, name: Seq<char>, field_type: Seq<char>) -> bool {
    exists|i: int|
        0 <= i < fields.len() && (#[trigger] fields[i]).name@ == name && fields[i].field_type@ == field_type
            && forall|j: int| i < j < fields.len() ==> (#[trigger] fields[j]).name@ != name
}

proof fn types_are_read(fields: Seq<SchemaField>, name: Seq<char>)
    ensures
        types_of(fields).dom().contains(name) <==> has_column(fields, name),
        types_of(fields).dom().contains(name) ==> has_type(fields, name, types_of(fields)[name]),
    decreases fields.len(),
{
    if fields.len() > 0 {
        let rest = fields.drop_last();
        let last = fields.len() - 1;
        types_are_read(rest, name);
        if fields.last().name@ == name {
            assert(fields[last].name@ == name);
        } else {
            if has_column(rest, name) {
                let i = choose|i: int| 0 <= i < rest.len() && (#[trigger] rest[i]).name@ == name;
                assert(fields[i].name@ == name);
                let t = types_of(rest)[name];
                let k = choose|k: int|
                    0 <= k < rest.len() && (#[trigger] rest[k]).name@ == name && rest[k].field_type@ == t && forall|
                        j: int,
                    | k < j < rest.len() ==> (#[trigger] rest[j]).name@ != name;
                assert(fields[k].name@ == name && fields[k].field_type@ == t);
                assert forall|j: int| k < j < fields.len() implies (#[trigger] fields[j]).name@ != name by {
                    if j < last {
                        assert(rest[j].name@ != name);
                    }
                }
            }
            if has_column(fields, name) {
                let i = choose|i: int| 0 <= i < fields.len() && (#[trigger] fields[i]).name@ == name;
                assert(rest[i].name@ == name);
            }
        }
    }
}

/// A schema delta tells of every column: one that only the branch has was added,
/// one that only the base has was dropped, and one that both have was changed
/// exactly where its types differ. No other column is told of.
pub proof fn deltas_tell_of_every_column(
    r: SchemaDelta,
    base: Seq<SchemaField>,
    branch: Seq<SchemaField>,
    name: Seq<char>,
    was: Seq<char>,
    now: Seq<char>,
)
    requires
        is_delta(r, base, branch),
    ensures
        text::texts(r.added@).contains(name) <==> has_column(branch, name) && !has_column(base, name),
        text::texts(r.dropped@).contains(name) <==> has_column(base, name) && !has_column(branch, name),
        has_type(base, name, was) && has_type(branch, name, now) ==> (text::texts(r.changed@).contains(name) <==> was
            != now),
        text::texts(r.changed@).contains(name) ==> has_column(base, name) && has_column(branch, name),
{
    types_are_read(base, name);
    types_are_read(branch, name);
    if has_type(base, name, was) {
        one_type(base, name, was, types_of(base)[name]);
    }
    if has_type(branch, name, now) {
        one_type(branch, name, now, types_of(branch)[name]);
    }
}

proof fn one_type(fields: Seq<SchemaField>, name: Seq<char>, a: Seq<char>, b: Seq<char>)
    requires
        has_type(fields, name, a),
        has_column(fields, name) ==> has_type(fields, name, b),
    ensures
        has_column(fields, name),
        a == b,
{
    let i = choose|i: int|
        0 <= i < fields.len() && (#[trigger] fields[i]).name@ == name && fields[i].field_type@ == a && forall|j: int|
            i < j < fields.len() ==> (#[trigger] fields[j]).name@ != name;
    assert(fields[i].name@ == name);
    let k = choose|k: int|
        0 <= k < fields.len() && (#[trigger] fields[k]).name@ == name && fields[k].field_type@ == b && forall|j: int|
            k < j < fields.len() ==> (#[trigger] fields[j]).name@ != name;
    assert(fields[k].name@ == name);
}

/// Whether one of the tables moved on main since it diverged.
pub open spec fn some_moved_on(diverged: Seq<DivergedPointer>) -> bool {
    exists|i: int|
        0 <= i < diverged.len() && (#[trigger] diverged[i]).main_pointer_version != diverged[i].base_pointer_version
}

/// A merge goes ahead exactly where the caller may manage branches, the ref is a
/// live branch of main, something diverged on it, no contract blocks, and no
/// table moved on main since it diverged. A conflict or a block refuses the
/// commit; what cannot be merged at all is a bad request.
pub proof fn merges_go_ahead_as_asked(access: Access, name: Seq<char>, found: Option<BranchRecord>, facts: MergeFacts)
    ensures
        ({
            let mergeable = access is Granted && (found matches Some(b) && b.state@ != "deleted"@ && b.kind@ != "tag"@
                && b.base_ref@ == "main"@);
            match merge_step(access, name, found, facts) {
                Ok(MergeAsk::AskDiverged) => mergeable && facts.diverged is None,
                Ok(MergeAsk::AskGate) => mergeable && facts.blocking is None && (facts.diverged matches Some(all)
                    && all@.len() > 0),
                Ok(MergeAsk::Merge) => mergeable && (facts.diverged matches Some(all) && all@.len() > 0 && !some_moved_on(
                    all@,
                )) && (facts.blocking matches Some(blocking) && blocking@.len() == 0),
                Err(e) => {
                    ||| !(access is Granted)
                    ||| e.kind == ErrorKind::NotFound && (found matches Some(b) ==> b.state@ == "deleted"@)
                    ||| e.kind == ErrorKind::BadRequest && (found matches Some(b) && (b.kind@ == "tag"@ || b.base_ref@
                        != "main"@))
                    ||| e.kind == ErrorKind::BadRequest && (facts.diverged matches Some(all) && all@.len() == 0)
                    ||| e.kind == ErrorKind::CommitFailed && (facts.blocking matches Some(blocking) && blocking@.len()
                        > 0)
                    ||| e.kind == ErrorKind::CommitFailed && (facts.diverged matches Some(all) && some_moved_on(all@))
                },
            }
        }),
{
    if let Some(all) = facts.diverged {
        let bad = |d: DivergedPointer| conflicts(d);
        let kept = all@.filter(bad);
        assert(idents(kept).len() == kept.len());
        broadcast use vstd::seq_lib::group_filter_ensures;

        if some_moved_on(all@) {
            let i = choose|i: int|
                0 <= i < all@.len() && (#[trigger] all@[i]).main_pointer_version != all@[i].base_pointer_version;
            assert(bad(all@[i]));
            assert(kept.contains(all@[i]));
        }
        if kept.len() > 0 {
            let d = kept[0];
            assert(bad(d));
            assert(kept.contains(d));
            all@.lemma_filter_contains_rev(bad, d);
            let i = choose|i: int| 0 <= i < all@.len() && all@[i] == d;
            assert(all@[i].main_pointer_version != all@[i].base_pointer_version);
        }
    }
}

/// A merge moves the diverged tables one after the other, each only while its
/// pointer on main has the version that was seen, and answers when none is left:
/// with every table where all were moved, with a failed commit where one lost a
/// race.
pub proof fn merges_move_every_table(step: MergeStep, run: MergeRun, diverged: Seq<DivergedPointer>)
    requires
        stands_after(run, diverged),
        is_next(step, run, diverged),
    ensures
        match step {
            MergeStep::Forward { table, expected } => table == run.tried && table < diverged.len() && (
            diverged[table as int].main_pointer_version >= 0 ==> expected
                == diverged[table as int].main_pointer_version),
            MergeStep::Finish(out) => run.tried == diverged.len() && run.raced@.len() == 0,
            MergeStep::Refuse(e) => run.tried == diverged.len() && run.raced@.len() > 0 && e@.kind
                == ErrorKind::CommitFailed,
        },
        run.tried < diverged.len() ==> step is Forward,
{
}

/// The rows of a table are those that its current snapshot says it has in all;
/// where it does not say so in a number, they are not known.
pub proof fn rows_are_those_of_the_current_snapshot(metadata: TableMetadata)
    ensures
        match rows_of(metadata) {
            Some(n) => exists|i: int|
                0 <= i < metadata::snapshots_of(metadata).len() && says_rows(
                    metadata,
                    #[trigger] metadata::snapshots_of(metadata)[i],
                    n,
                ),
            None => true,
        },
        metadata.current_snapshot_id is None ==> rows_of(metadata) is None,
{
    if let Some(id) = metadata.current_snapshot_id {
        crate::planning::place_is_right(metadata::snapshots_of(metadata), id, 0);
        if let Some(i) = crate::planning::snapshot_place(metadata::snapshots_of(metadata), id, 0) {
            if let Some(n) = rows_of(metadata) {
                assert(says_rows(metadata, metadata::snapshots_of(metadata)[i], n));
            }
        }
    }
}

/// Whether the snapshot is the current one and says that the table has so many
/// rows.
pub open spec fn says_rows(metadata: TableMetadata, snapshot: crate::metadata::Snapshot, n: i64) -> bool {
    &&& metadata.current_snapshot_id == Some(snapshot.snapshot_id)
    &&& snapshot.summary matches Some(summary) && summary@.dom().contains("total-records"@) && text::signed_value(
        summary@["total-records"@]@,
    ) == Some(n as int)
}

} // verus!
