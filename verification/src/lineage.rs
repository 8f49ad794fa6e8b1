//! The lineage of a table, and what a change to it would touch.

use vstd::prelude::*;

use crate::error;
use crate::error::{ApiError, ErrorKind};
use crate::grants;
use crate::grants::{require, Access};
use crate::text;
use crate::text::{after_prefix, cat3, quote, same};

verus! {

/// The farthest that a walk goes.
pub const MAX_DEPTH: u32 = 20;

/// How far a walk goes where the query does not say.
pub const DEFAULT_DEPTH: u32 = 3;

/// The answer to an event that was taken in.
#[derive(Debug)]
pub struct IngestResponse {
    /// How many edges it gave.
    pub edges_recorded: usize,
}

/// Query parameters of the graph.
#[derive(Debug)]
pub struct GraphParams {
    /// The table, dotted.
    pub asset: String,
    /// How far the walk goes.
    pub depth: Option<u32>,
    /// `upstream`, `downstream` or `both`.
    pub direction: Option<String>,
}

/// Query parameters of the impact analysis.
#[derive(Debug)]
pub struct ImpactParams {
    /// The table, dotted.
    pub asset: String,
    /// The change: `drop_table` or `drop_column:<name>`.
    pub change: String,
    /// How far the walk goes.
    pub depth: Option<u32>,
}

/// How far a walk goes: three steps, or as far as is asked for, from one to
/// twenty.
pub open spec fn walked(depth: Option<u32>) -> u32 {
    match depth {
        None => DEFAULT_DEPTH,
        Some(n) => if n < 1 {
            1
        } else if n > MAX_DEPTH {
            MAX_DEPTH
        } else {
            n
        },
    }
}

/// How far a walk goes.
pub fn clamp_depth(depth: Option<u32>) -> (r: u32)
    ensures
        r == walked(depth),
        1 <= r <= MAX_DEPTH,
{
    match depth {
        None => DEFAULT_DEPTH,
        Some(n) => if n < 1 {
            1
        } else if n > MAX_DEPTH {
            MAX_DEPTH
        } else {
            n
        },
    }
}

/// Which way a walk goes.
#[derive(Clone, Copy, Debug, PartialEq, Eq, Structural)]
pub enum Direction {
    /// To what the table is made from.
    Upstream,
    /// To what is made from the table.
    Downstream,
    /// Both ways.
    Both,
}

/// The direction that a query names; both, where it names none.
pub open spec fn direction_of(name: Option<Seq<char>>) -> Direction {
    match name {
        Some(name) => if name == "upstream"@ {
            Direction::Upstream
        } else if name == "downstream"@ {
            Direction::Downstream
        } else {
            Direction::Both
        },
        None => Direction::Both,
    }
}

/// The direction that a query names; both, where it names none.
pub fn parse_direction(name: &Option<String>) -> (r: Direction)
    ensures
        r == direction_of(text::opt_text(*name)),
{
    match name {
        Some(name) => if same(name.as_str(), "upstream") {
            Direction::Upstream
        } else if same(name.as_str(), "downstream") {
            Direction::Downstream
        } else {
            Direction::Both
        },
        None => Direction::Both,
    }
}

/// A change to a table.
#[derive(Debug)]
pub enum Change {
    /// The table goes.
    DropTable,
    /// A column goes.
    DropColumn(String),
}

/// The model of a change: the column that goes, or nothing where the whole
/// table does.
pub open spec fn change_of(raw: Seq<char>) -> Option<Option<Seq<char>>> {
    if raw == "drop_table"@ {
        Some(None)
    } else if "drop_column:"@.is_prefix_of(raw) && raw.len() > "drop_column:"@.len() {
        Some(Some(raw.skip("drop_column:"@.len() as int)))
    } else {
        None
    }
}

/// Whether the change is the one that is meant.
pub open spec fn is_change(change: Change, meant: Option<Seq<char>>) -> bool {
    match change {
        Change::DropTable => meant is None,
        Change::DropColumn(column) => meant == Some(column@),
    }
}

/// The refusal of a change.
pub open spec fn change_error(raw: Seq<char>) -> error::ErrorView {
    error::bad_request(
        "unrecognized change "@ + text::quoted(raw) + "; expected `drop_table` or `drop_column:<name>`"@,
    )
}

/// The change that a query names.
pub fn parse_change(raw: &str) -> (r: Result<Change, ApiError>)
    ensures
        match change_of(raw@) {
            Some(meant) => r matches Ok(change) && is_change(change, meant),
            None => error::fails_with(r, change_error(raw@)),
        },
{
    if same(raw, "drop_table") {
        return Ok(Change::DropTable);
    }
    match after_prefix(raw, "drop_column:") {
        Some(column) => if !column.is_empty() {
            return Ok(Change::DropColumn(column.to_owned()));
        },
        None => {},
    }
    Err(ApiError::bad_request(
        cat3(
            "unrecognized change ",
            quote(raw).as_str(),
            "; expected `drop_table` or `drop_column:<name>`",
        ).as_str(),
    ))
}

/// What an asset of a query is.
#[derive(Debug)]
pub enum Endpoint {
    /// A table of this catalog.
    Table(String),
    /// Something outside it.
    External,
}

/// The 404 of an asset that is no table of this catalog.
pub open spec fn no_such_asset(asset: Seq<char>) -> error::ErrorView {
    error::error_of(ErrorKind::NoSuchTable, "no table "@ + text::quoted(asset) + " in this catalog"@)
}

/// The table that an asset is; a walk starts only at a table of this catalog.
pub fn resolve_asset<'a>(asset: &str, endpoint: &'a Endpoint) -> (r: Result<&'a String, ApiError>)
    ensures
        match *endpoint {
            Endpoint::Table(id) => r matches Ok(got) && *got == id,
            Endpoint::External => error::fails_with(r, no_such_asset(asset@)),
        },
{
    match endpoint {
        Endpoint::Table(id) => Ok(id),
        Endpoint::External => Err(ApiError::new(
            ErrorKind::NoSuchTable,
            cat3("no table ", quote(asset).as_str(), " in this catalog").as_str(),
        )),
    }
}

/// The next step of a walk.
#[derive(Debug)]
pub enum WalkStep {
    /// Resolve the asset.
    AskAsset,
    /// Walk from the table of this id, that way, that far.
    Walk(String, Direction, u32),
}

/// The step of the graph.
pub open spec fn graph_step(access: Access, params: GraphParams, asset: Option<Endpoint>) -> Result<
    WalkStep,
    error::ErrorView,
> {
    match grants::access_error(access) {
        Some(e) => Err(e),
        None => match asset {
            None => Ok(WalkStep::AskAsset),
            Some(Endpoint::External) => Err(no_such_asset(params.asset@)),
            Some(Endpoint::Table(id)) => Ok(
                WalkStep::Walk(id, direction_of(text::opt_text(params.direction)), walked(params.depth)),
            ),
        },
    }
}

/// Takes the next step of the graph.
pub fn get_lineage(access: &Access, params: &GraphParams, asset: &Option<Endpoint>) -> (r: Result<WalkStep, ApiError>)
    ensures
        error::outcome(r) == graph_step(*access, *params, *asset),
{
    match require(access) {
        Err(e) => { return Err(e); },
        Ok(()) => {},
    }
    let endpoint = match asset {
        None => { return Ok(WalkStep::AskAsset); },
        Some(endpoint) => endpoint,
    };
    match resolve_asset(params.asset.as_str(), endpoint) {
        Err(e) => Err(e),
        Ok(id) => Ok(
            WalkStep::Walk(id.clone(), parse_direction(&params.direction), clamp_depth(params.depth)),
        ),
    }
}

/// The next step of the impact analysis.
#[derive(Debug)]
pub enum ImpactStep {
    /// Resolve the asset.
    AskAsset,
    /// Walk down from the table of this id for this change, that far.
    Walk(String, Change, u32),
}

/// Takes the next step of the impact analysis: the table first, then the
/// change.
pub fn get_impact(access: &Access, params: &ImpactParams, asset: &Option<Endpoint>) -> (r: Result<ImpactStep, ApiError>)
    ensures
        match grants::access_error(*access) {
            Some(e) => error::fails_with(r, e),
            None => match *asset {
                None => r matches Ok(step) && step is AskAsset,
                Some(Endpoint::External) => error::fails_with(r, no_such_asset(params.asset@)),
                Some(Endpoint::Table(id)) => match change_of(params.change@) {
                    None => error::fails_with(r, change_error(params.change@)),
                    Some(meant) => r matches Ok(ImpactStep::Walk(from, change, depth)) && from == id && is_change(
                        change,
                        meant,
                    ) && depth == walked(params.depth),
                },
            },
        },
{
    match require(access) {
        Err(e) => { return Err(e); },
        Ok(()) => {},
    }
    let endpoint = match asset {
        None => { return Ok(ImpactStep::AskAsset); },
        Some(endpoint) => endpoint,
    };
    let id = match resolve_asset(params.asset.as_str(), endpoint) {
        Err(e) => { return Err(e); },
        Ok(id) => id,
    };
    match parse_change(params.change.as_str()) {
        Err(e) => Err(e),
        Ok(change) => Ok(ImpactStep::Walk(id.clone(), change, clamp_depth(params.depth))),
    }
}

/// No walk is longer than the farthest one, and each starts at a table of this
/// catalog.
pub proof fn walks_are_bounded(access: Access, params: GraphParams, asset: Option<Endpoint>)
    ensures
        graph_step(access, params, asset) matches Ok(WalkStep::Walk(id, _, depth)) ==> {
            &&& 1 <= depth <= MAX_DEPTH
            &&& asset == Some(Endpoint::Table(id))
            &&& access is Granted
        },
{
}

/// A walk starts at the table that was asked for and goes the way that was asked
/// for: upstream, downstream, or both where neither is named.
pub proof fn walks_go_the_way_asked(access: Access, params: GraphParams, asset: Option<Endpoint>)
    ensures
        match graph_step(access, params, asset) {
            Ok(WalkStep::AskAsset) => access is Granted && asset is None,
            Ok(WalkStep::Walk(id, direction, _depth)) => access is Granted && asset == Some(Endpoint::Table(id)) && (
            direction == Direction::Upstream <==> (params.direction matches Some(d) && d@ == "upstream"@)) && (direction
                == Direction::Downstream <==> (params.direction matches Some(d) && d@ == "downstream"@)),
            Err(e) => !(access is Granted) || asset == Some(Endpoint::External) && e.kind == ErrorKind::NoSuchTable,
        },
{
    reveal_strlit("upstream");
    reveal_strlit("downstream");
    assert("upstream"@.len() == 8 && "downstream"@.len() == 10);
}

/// A walk is as deep as it is asked to be, between one and twenty, and three
/// where nothing is asked.
pub proof fn depths_are_held(depth: Option<u32>)
    ensures
        depth is None ==> walked(depth) == 3,
        depth matches Some(n) ==> {
            &&& 1 <= n <= 20 ==> walked(depth) == n
            &&& n < 1 ==> walked(depth) == 1
            &&& n > 20 ==> walked(depth) == 20
        },
{
}

/// A change is read back: to drop the table, or the column that is named.
pub proof fn changes_are_read(column: Seq<char>)
    ensures
        change_of("drop_table"@) == Some(None::<Seq<char>>),
        column.len() > 0 ==> change_of("drop_column:"@ + column) == Some(Some(column)),
        column.len() == 0 ==> change_of("drop_column:"@ + column) is None,
{
    reveal_strlit("drop_table");
    reveal_strlit("drop_column:");
    let raw = "drop_column:"@ + column;
    assert(raw.take("drop_column:"@.len() as int) =~= "drop_column:"@);
    assert(raw.skip("drop_column:"@.len() as int) =~= column);
    assert(raw[5] == 'c' && "drop_table"@[5] == 't');
}

} // verus!
