//! Search over tables, views, and namespaces.

use vstd::prelude::*;

use crate::error;
use crate::error::{ApiError, ErrorKind};
use crate::grants::Found;
use crate::metadata;
use crate::text;
use crate::text::{blank, cat3, quote, same, split, trim};

verus! {

/// How many results there are where no number is asked for.
pub const DEFAULT_LIMIT: i64 = 20;

/// The most results that can be asked for.
pub const MAX_LIMIT: i64 = 100;

/// Query parameters of the search.
#[derive(Debug)]
pub struct SearchParams {
    /// What to search for.
    pub q: String,
    /// The kinds of asset to search, with commas between.
    pub kinds: Option<String>,
    /// Only in this warehouse.
    pub warehouse: Option<String>,
    /// Only at or below this namespace, with dots between the levels.
    pub namespace: Option<String>,
    /// How many results.
    pub limit: Option<i64>,
    /// Where the last page ended.
    pub page_token: Option<String>,
}

/// What a result is.
#[derive(Clone, Copy, Debug, PartialEq, Eq, Structural)]
pub enum SearchAssetKind {
    /// A table.
    Table,
    /// A view.
    View,
    /// A namespace.
    Namespace,
}

/// The kind of a wire name.
pub open spec fn search_kind_of(name: Seq<char>) -> Option<SearchAssetKind> {
    if name == "table"@ {
        Some(SearchAssetKind::Table)
    } else if name == "view"@ {
        Some(SearchAssetKind::View)
    } else if name == "namespace"@ {
        Some(SearchAssetKind::Namespace)
    } else {
        None
    }
}

/// The wire name of a kind.
pub open spec fn search_kind_name(kind: SearchAssetKind) -> Seq<char> {
    match kind {
        SearchAssetKind::Table => "table"@,
        SearchAssetKind::View => "view"@,
        SearchAssetKind::Namespace => "namespace"@,
    }
}

impl SearchAssetKind {
    /// The kind of a wire name.
    pub fn parse(name: &str) -> (r: Option<SearchAssetKind>)
        ensures
            r == search_kind_of(name@),
    {
        if same(name, "table") {
            Some(SearchAssetKind::Table)
        } else if same(name, "view") {
            Some(SearchAssetKind::View)
        } else if same(name, "namespace") {
            Some(SearchAssetKind::Namespace)
        } else {
            None
        }
    }

    /// The wire name of the kind.
    pub fn as_str(&self) -> (r: &'static str)
        ensures
            r@ == search_kind_name(*self),
    {
        match self {
            SearchAssetKind::Table => "table",
            SearchAssetKind::View => "view",
            SearchAssetKind::Namespace => "namespace",
        }
    }
}

/// The first part that is not blank and no kind, from place `from` on.
pub open spec fn first_strange(parts: Seq<Seq<char>>, from: int) -> Option<Seq<char>>
    decreases parts.len() - from,
{
    if from < 0 || from >= parts.len() {
        None
    } else {
        let part = text::trimmed(parts[from]);
        if part.len() > 0 && search_kind_of(part) is None {
            Some(part)
        } else {
            first_strange(parts, from + 1)
        }
    }
}

/// The kinds that the parts name, each once, in the order they first occur.
pub open spec fn kinds_named(parts: Seq<Seq<char>>) -> Seq<SearchAssetKind>
    decreases parts.len(),
{
    if parts.len() == 0 {
        seq![]
    } else {
        let earlier = kinds_named(parts.drop_last());
        match search_kind_of(text::trimmed(parts.last())) {
            Some(kind) => if earlier.contains(kind) { earlier } else { earlier.push(kind) },
            None => earlier,
        }
    }
}

/// The refusal of a list of kinds.
pub open spec fn kinds_error(raw: Seq<char>) -> Option<error::ErrorView> {
    let parts = text::split_on(raw, ',');
    match first_strange(parts, 0) {
        Some(part) => Some(
            error::bad_request(
                "unknown asset type "@ + text::quoted(part) + " (expected table, view, or namespace)"@,
            ),
        ),
        None => if kinds_named(parts).len() == 0 {
            Some(error::bad_request("type must name at least one of table, view, namespace"@))
        } else {
            None
        },
    }
}

fn has_kind(kinds: &Vec<SearchAssetKind>, kind: SearchAssetKind) -> (r: bool)
    ensures
        r == kinds@.contains(kind),
{
    let mut i: usize = 0;
    while i < kinds.len()
        invariant
            i <= kinds@.len(),
            forall|j: int| 0 <= j < i ==> #[trigger] kinds@[j] != kind,
        decreases kinds@.len() - i,
    {
        if kinds[i] == kind {
            return true;
        }
        i = i + 1;
    }
    false
}

/// The kinds that a list names, with commas between; blank parts are passed
/// over.
pub fn parse_kinds(raw: &str) -> (r: Result<Vec<SearchAssetKind>, ApiError>)
    ensures
        match kinds_error(raw@) {
            Some(e) => error::fails_with(r, e),
            None => r matches Ok(kinds) && kinds@ == kinds_named(text::split_on(raw@, ',')),
        },
{
    let parts = split(raw, ',');
    let ghost all = text::texts(parts@);
    let mut kinds: Vec<SearchAssetKind> = Vec::new();
    let mut i: usize = 0;
    proof {
        assert(all.take(0) =~= Seq::<Seq<char>>::empty());
        reveal_strlit("table");
        reveal_strlit("view");
        reveal_strlit("namespace");
    }
    while i < parts.len()
        invariant
            i <= parts@.len(),
            all == text::texts(parts@),
            all == text::split_on(raw@, ','),
            first_strange(all, 0) == first_strange(all, i as int),
            kinds@ == kinds_named(all.take(i as int)),
        decreases parts@.len() - i,
    {
        assert(all.take(i + 1).drop_last() =~= all.take(i as int));
        assert(all[i as int] == parts@[i as int]@);
        let part = trim(parts[i].as_str());
        match SearchAssetKind::parse(part) {
            Some(kind) => {
                if !has_kind(&kinds, kind) {
                    kinds.push(kind);
                }
            },
            None => {
                if !part.is_empty() {
                    return Err(ApiError::bad_request(
                        cat3(
                            "unknown asset type ",
                            quote(part).as_str(),
                            " (expected table, view, or namespace)",
                        ).as_str(),
                    ));
                }
            },
        }
        i = i + 1;
    }
    assert(all.take(all.len() as int) =~= all);
    if kinds.len() == 0 {
        return Err(ApiError::bad_request("type must name at least one of table, view, namespace"));
    }
    Ok(kinds)
}

/// No kind is searched twice.
pub proof fn kinds_are_distinct(parts: Seq<Seq<char>>)
    ensures
        kinds_named(parts).no_duplicates(),
    decreases parts.len(),
{
    if parts.len() > 0 {
        kinds_are_distinct(parts.drop_last());
    }
}

/// The levels of a dotted namespace, where none of them is empty.
pub open spec fn dotted_levels(raw: Seq<char>) -> Option<Seq<Seq<char>>> {
    let levels = text::split_on(raw, '.');
    if exists|i: int| 0 <= i < levels.len() && #[trigger] levels[i].len() == 0 {
        None
    } else {
        Some(levels)
    }
}

fn namespace_levels(raw: &str) -> (r: Option<Vec<String>>)
    ensures
        match dotted_levels(raw@) {
            Some(levels) => r matches Some(got) && text::texts(got@) == levels,
            None => r is None,
        },
{
    let levels = split(raw, '.');
    let ghost all = text::split_on(raw@, '.');
    let mut i: usize = 0;
    while i < levels.len()
        invariant
            i <= levels@.len(),
            text::texts(levels@) == all,
            all == text::split_on(raw@, '.'),
            forall|j: int| 0 <= j < i ==> #[trigger] all[j].len() > 0,
        decreases levels@.len() - i,
    {
        assert(all[i as int] == levels@[i as int]@);
        if levels[i].as_str().is_empty() {
            assert(all[i as int].len() == 0);
            return None;
        }
        i = i + 1;
    }
    Some(levels)
}

/// What a search asks for, once its query was accepted.
#[derive(Debug)]
pub struct SearchRequest {
    /// What to search for, as it was asked.
    pub text: String,
    /// The kinds to search; all where none are named.
    pub kinds: Option<Vec<SearchAssetKind>>,
    /// The warehouse to search; all where none is named.
    pub warehouse_id: Option<String>,
    /// The namespace to search; all where none is named.
    pub namespace: Option<Vec<String>>,
    /// How many results.
    pub limit: i64,
    /// Where to go on, as it was asked; at the start where it is absent.
    pub page_token: Option<String>,
}

/// The next step of a search.
#[derive(Debug)]
pub enum SearchStep {
    /// Look up the warehouse.
    AskWarehouse,
    /// Search, within what the caller may see.
    Search(SearchRequest),
}

/// How many results a search asks for.
pub open spec fn limit_asked(params: SearchParams) -> i64 {
    match params.limit {
        Some(n) => n,
        None => DEFAULT_LIMIT,
    }
}

/// The refusal of a search before its warehouse is looked up.
pub open spec fn search_error(params: SearchParams) -> Option<error::ErrorView> {
    if text::is_blank(params.q@) {
        Some(error::bad_request("q must not be empty"@))
    } else if !(1 <= limit_asked(params) <= MAX_LIMIT) {
        Some(error::bad_request("limit must be between 1 and 100"@))
    } else {
        match params.kinds {
            Some(raw) => kinds_error(raw@),
            None => None,
        }
    }
}

/// Whether the request is what the accepted query asks for.
pub open spec fn asks_for(request: SearchRequest, params: SearchParams, warehouse: Found<String>) -> bool {
    &&& match params.kinds {
        Some(raw) => request.kinds matches Some(kinds) && kinds@ == kinds_named(text::split_on(raw@, ',')),
        None => request.kinds is None,
    }
    &&& match (params.warehouse, warehouse) {
        (Some(_), Found::Is(id)) => request.warehouse_id == Some(id),
        _ => request.warehouse_id is None,
    }
    &&& match params.namespace {
        Some(raw) => request.namespace matches Some(levels) && text::texts(levels@) == text::split_on(raw@, '.'),
        None => request.namespace is None,
    }
    &&& request.limit == limit_asked(params)
    &&& request.text == params.q
    &&& request.page_token == params.page_token
}

/// Takes the next step of a search.
pub fn search(params: &SearchParams, warehouse: &Found<String>) -> (r: Result<SearchStep, ApiError>)
    ensures
        match search_error(*params) {
            Some(e) => error::fails_with(r, e),
            None => if params.warehouse is Some && *warehouse is Unasked {
                r matches Ok(step) && step is AskWarehouse
            } else if params.warehouse is Some && *warehouse is Missing {
                error::fails_with(r, error::error_of(ErrorKind::NoSuchWarehouse, params.warehouse->0@))
            } else if params.namespace is Some && dotted_levels(params.namespace->0@) is None {
                error::fails_with(r, error::bad_request("namespace must be dot-separated non-empty levels"@))
            } else {
                r matches Ok(SearchStep::Search(request)) && asks_for(request, *params, *warehouse)
            },
        },
{
    if blank(params.q.as_str()) {
        return Err(ApiError::bad_request("q must not be empty"));
    }
    let limit: i64 = match params.limit {
        Some(n) => n,
        None => DEFAULT_LIMIT,
    };
    if !(1 <= limit && limit <= MAX_LIMIT) {
        return Err(ApiError::bad_request("limit must be between 1 and 100"));
    }
    let kinds = match &params.kinds {
        Some(raw) => match parse_kinds(raw.as_str()) {
            Err(e) => { return Err(e); },
            Ok(kinds) => Some(kinds),
        },
        None => None,
    };
    let warehouse_id = match &params.warehouse {
        None => None,
        Some(name) => match warehouse {
            Found::Unasked => { return Ok(SearchStep::AskWarehouse); },
            Found::Missing => { return Err(ApiError::new(ErrorKind::NoSuchWarehouse, name.as_str())); },
            Found::Is(id) => Some(id.clone()),
        },
    };
    let namespace = match &params.namespace {
        None => None,
        Some(raw) => match namespace_levels(raw.as_str()) {
            Some(levels) => Some(levels),
            None => {
                return Err(ApiError::bad_request("namespace must be dot-separated non-empty levels"));
            },
        },
    };
    Ok(SearchStep::Search(SearchRequest {
                text: params.q.clone(),
                kinds,
                warehouse_id,
                namespace,
                limit,
                page_token: metadata::copy_opt(&params.page_token),
            }))
}

/// The score that a result carries: that of a table, where it could be made;
/// none for anything else.
pub open spec fn score_of(kind: SearchAssetKind, scored: Option<u8>) -> Option<u8> {
    if kind == SearchAssetKind::Table {
        scored
    } else {
        None
    }
}

/// The scores that the results carry, in their order: a table's own, where it
/// could be made. A score that could not be made is left out and fails
/// nothing.
pub fn result_scores(kinds: &Vec<SearchAssetKind>, scored: &Vec<Option<u8>>) -> (r: Vec<Option<u8>>)
    requires
        kinds@.len() == scored@.len(),
    ensures
        r@.len() == kinds@.len(),
        forall|i: int| 0 <= i < r@.len() ==> #[trigger] r@[i] == score_of(kinds@[i], scored@[i]),
{
    let mut out: Vec<Option<u8>> = Vec::new();
    let mut i: usize = 0;
    while i < kinds.len()
        invariant
            i <= kinds@.len(),
            kinds@.len() == scored@.len(),
            out@.len() == i,
            forall|j: int| 0 <= j < out@.len() ==> #[trigger] out@[j] == score_of(kinds@[j], scored@[j]),
        decreases kinds@.len() - i,
    {
        let score = match kinds[i] {
            SearchAssetKind::Table => scored[i],
            _ => None,
        };
        out.push(score);
        i = i + 1;
    }
    out
}

/// Whether the part at place `i` names this kind.
pub open spec fn names_kind(parts: Seq<Seq<char>>, i: int, kind: SearchAssetKind) -> bool {
    0 <= i < parts.len() && text::trimmed(parts[i]) == search_kind_name(kind)
}

/// Whether one of the parts names this kind.
pub open spec fn is_named(parts: Seq<Seq<char>>, kind: SearchAssetKind) -> bool {
    exists|i: int| names_kind(parts, i, kind)
}

proof fn kinds_are_read(name: Seq<char>, kind: SearchAssetKind)
    ensures
        search_kind_of(name) == Some(kind) <==> name == search_kind_name(kind),
{
    reveal_strlit("table");
    reveal_strlit("view");
    reveal_strlit("namespace");
    assert("table"@.len() == 5 && "view"@.len() == 4 && "namespace"@.len() == 9);
}

/// A search is for a kind exactly where one of the parts of the list names it.
pub proof fn kinds_are_those_named(parts: Seq<Seq<char>>, kind: SearchAssetKind)
    ensures
        kinds_named(parts).contains(kind) <==> is_named(parts, kind),
    decreases parts.len(),
{
    if parts.len() == 0 {
        assert(!kinds_named(parts).contains(kind));
    } else {
        let rest = parts.drop_last();
        let last = parts.len() - 1;
        let earlier = kinds_named(rest);
        let all = kinds_named(parts);
        kinds_are_those_named(rest, kind);
        kinds_are_read(text::trimmed(parts.last()), kind);
        if is_named(rest, kind) {
            let i = choose|i: int| names_kind(rest, i, kind);
            assert(names_kind(parts, i, kind));
            let k = choose|k: int| 0 <= k < earlier.len() && earlier[k] == kind;
            assert(all[k] == kind);
        }
        if names_kind(parts, last, kind) && !earlier.contains(kind) {
            assert(all[earlier.len() as int] == kind);
        }
        if is_named(parts, kind) {
            let i = choose|i: int| names_kind(parts, i, kind);
            if i < last {
                assert(names_kind(rest, i, kind));
            }
        }
        if all.contains(kind) {
            let k = choose|k: int| 0 <= k < all.len() && all[k] == kind;
            if k < earlier.len() {
                assert(earlier[k] == kind);
            } else {
                assert(names_kind(parts, last, kind));
            }
        }
    }
}

/// A search is taken exactly where it asks for something, its limit is between
/// one and a hundred, and its list of kinds, where it has one, is sound; any
/// other is a bad request.
pub proof fn searches_are_judged(params: SearchParams)
    ensures
        search_error(params) is None <==> !text::is_blank(params.q@) && (params.limit matches Some(n) ==> 1 <= n <= 100)
            && (params.kinds matches Some(raw) ==> kinds_error(raw@) is None),
        search_error(params) matches Some(e) ==> e.kind == ErrorKind::BadRequest,
{
}

} // verus!
