//! Assets beside tables: filesets, models, vector datasets; the training runs
//! that pin a model to snapshots; and the deletion campaigns that ask which
//! models saw what.

use vstd::prelude::*;

use crate::error;
use crate::error::{ApiError, ErrorKind, StoreKind};
use crate::grants;
use crate::grants::{require, Access, Found};
use crate::limits;
use crate::limits::clamp;
use crate::metadata::copy_opt;
use crate::text;
use crate::text::{cat2, cat3, quote, same};
use crate::textmap;
use crate::textmap::TextMap;
use crate::textset;
use crate::textset::{keys, sorted_distinct, starting_with, with_keys};

verus! {

// ---------------------------------------------------------------------------
// Assets
// ---------------------------------------------------------------------------

/// What an asset is.
#[derive(Clone, Copy, Debug, PartialEq, Eq, Structural)]
pub enum AssetKind {
    /// Files under a storage prefix.
    Fileset,
    /// A model.
    Model,
    /// A dataset of vectors.
    VectorDataset,
}

/// The asset kind of a wire name.
pub open spec fn asset_kind_of(name: Seq<char>) -> Option<AssetKind> {
    if name == "fileset"@ {
        Some(AssetKind::Fileset)
    } else if name == "model"@ {
        Some(AssetKind::Model)
    } else if name == "vector_dataset"@ {
        Some(AssetKind::VectorDataset)
    } else {
        None
    }
}

/// The refusal of a name that no asset kind has.
pub open spec fn kind_error(name: Seq<char>) -> error::ErrorView {
    error::bad_request(
        "unknown asset kind "@ + text::quoted(name) + ": expected fileset, model, or vector_dataset"@,
    )
}

/// The asset kind of a wire name, or a 400.
pub fn parse_kind(raw: &str) -> (r: Result<AssetKind, ApiError>)
    ensures
        match asset_kind_of(raw@) {
            Some(kind) => r matches Ok(got) && got == kind,
            None => error::fails_with(r, kind_error(raw@)),
        },
{
    if same(raw, "fileset") {
        Ok(AssetKind::Fileset)
    } else if same(raw, "model") {
        Ok(AssetKind::Model)
    } else if same(raw, "vector_dataset") {
        Ok(AssetKind::VectorDataset)
    } else {
        Err(ApiError::bad_request(
            cat3("unknown asset kind ", quote(raw).as_str(), ": expected fileset, model, or vector_dataset").as_str(),
        ))
    }
}

/// Request body to create an asset.
#[derive(Debug)]
pub struct CreateAssetBody {
    /// What it is.
    pub kind: String,
    /// Its name.
    pub name: String,
    /// What it is for.
    pub description: Option<String>,
    /// Whose it is.
    pub owner: Option<String>,
    /// The warehouse, by name, that a fileset vends from.
    pub warehouse: Option<String>,
    /// Where the files of a fileset are.
    pub storage_prefix: Option<String>,
    /// Its metadata, rendered; absent where it is null.
    pub metadata: Option<String>,
    /// Its tags.
    pub tags: Vec<String>,
}

/// The next step of creating an asset.
#[derive(Debug)]
pub enum CreateAssetStep {
    /// Look up the fileset's warehouse.
    AskWarehouse,
    /// Create an asset of this kind, in this warehouse.
    Create(AssetKind, Option<String>),
}

/// The step of creating an asset. A fileset needs a warehouse that exists;
/// any other kind has none.
pub open spec fn create_asset_step(access: Access, body: CreateAssetBody, warehouse: Found<String>) -> Result<
    CreateAssetStep,
    error::ErrorView,
> {
    match grants::access_error(access) {
        Some(e) => Err(e),
        None => match asset_kind_of(body.kind@) {
            None => Err(kind_error(body.kind@)),
            Some(AssetKind::Fileset) => match body.warehouse {
                None => Err(error::bad_request("a fileset requires a warehouse (by name)"@)),
                Some(name) => match warehouse {
                    Found::Unasked => Ok(CreateAssetStep::AskWarehouse),
                    Found::Missing => Err(error::error_of(ErrorKind::NoSuchWarehouse, name@)),
                    Found::Is(id) => Ok(CreateAssetStep::Create(AssetKind::Fileset, Some(id))),
                },
            },
            Some(kind) => Ok(CreateAssetStep::Create(kind, None)),
        },
    }
}

/// Takes the next step of creating an asset.
pub fn create_asset(access: &Access, body: &CreateAssetBody, warehouse: &Found<String>) -> (r: Result<
    CreateAssetStep,
    ApiError,
>)
    ensures
        error::outcome(r) == create_asset_step(*access, *body, *warehouse),
{
    match require(access) {
        Err(e) => { return Err(e); },
        Ok(()) => {},
    }
    let kind = match parse_kind(body.kind.as_str()) {
        Err(e) => { return Err(e); },
        Ok(kind) => kind,
    };
    match kind {
        AssetKind::Fileset => match &body.warehouse {
            None => Err(ApiError::bad_request("a fileset requires a warehouse (by name)")),
            Some(name) => match warehouse {
                Found::Unasked => Ok(CreateAssetStep::AskWarehouse),
                Found::Missing => Err(ApiError::new(ErrorKind::NoSuchWarehouse, name.as_str())),
                Found::Is(id) => Ok(CreateAssetStep::Create(AssetKind::Fileset, Some(id.clone()))),
            },
        },
        other => Ok(CreateAssetStep::Create(other, None)),
    }
}

/// The metadata that is recorded: an empty object where none is given.
pub fn metadata_or_empty(metadata: &Option<String>) -> (r: String)
    ensures
        r@ == (match *metadata {
            Some(m) => m@,
            None => "{}"@,
        }),
{
    match metadata {
        Some(m) => m.clone(),
        None => "{}".to_owned(),
    }
}

/// Query parameters of the asset list.
#[derive(Debug)]
pub struct ListAssetsQuery {
    /// Only assets of this kind.
    pub kind: Option<String>,
    /// Only assets after this one.
    pub after: Option<String>,
    /// How many.
    pub limit: Option<i64>,
}

/// Query parameters of the asset search.
#[derive(Debug)]
pub struct SearchAssetsQuery {
    /// What to search for.
    pub q: String,
    /// Only assets of this kind.
    pub kind: Option<String>,
    /// How many.
    pub limit: Option<i64>,
}

/// What a list or a search of assets asks for: the kind, where one is named,
/// and the number.
pub open spec fn asset_page(kind: Option<String>, limit: i64) -> Result<(Option<AssetKind>, i64), error::ErrorView> {
    match kind {
        None => Ok((None, limit)),
        Some(name) => match asset_kind_of(name@) {
            Some(k) => Ok((Some(k), limit)),
            None => Err(kind_error(name@)),
        },
    }
}

fn page_of(kind: &Option<String>, limit: i64) -> (r: Result<(Option<AssetKind>, i64), ApiError>)
    ensures
        error::outcome(r) == asset_page(*kind, limit),
{
    match kind {
        None => Ok((None, limit)),
        Some(name) => match parse_kind(name.as_str()) {
            Ok(k) => Ok((Some(k), limit)),
            Err(e) => Err(e),
        },
    }
}

/// Reads the query of the asset list: 100 assets, or as many as are asked for
/// from 1 to 500.
pub fn list_assets(query: &ListAssetsQuery) -> (r: Result<(Option<AssetKind>, i64), ApiError>)
    ensures
        error::outcome(r) == asset_page(query.kind, limits::clamped(query.limit, 100, 1, 500)),
{
    page_of(&query.kind, clamp(query.limit, 100, 1, 500))
}

/// Reads the query of the asset search: 20 assets, or as many as are asked for
/// from 1 to 100.
pub fn search_assets(query: &SearchAssetsQuery) -> (r: Result<(Option<AssetKind>, i64), ApiError>)
    ensures
        error::outcome(r) == asset_page(query.kind, limits::clamped(query.limit, 20, 1, 100)),
{
    page_of(&query.kind, clamp(query.limit, 20, 1, 100))
}

/// The 404 of an asset.
pub open spec fn no_asset(id: Seq<char>) -> error::ErrorView {
    error::not_found("no asset "@ + id)
}

/// The asset of an id, or a 404.
pub fn get_asset<T>(id: &str, found: Option<T>) -> (r: Result<T, ApiError>)
    ensures
        match found {
            Some(v) => r matches Ok(got) && got == v,
            None => error::fails_with(r, no_asset(id@)),
        },
{
    match found {
        Some(v) => Ok(v),
        None => Err(ApiError::not_found(cat2("no asset ", id).as_str())),
    }
}

/// An asset, as the credential route reads it.
#[derive(Debug)]
pub struct AssetRecord {
    /// Its id.
    pub id: String,
    /// Its name.
    pub name: String,
    /// The warehouse it vends from.
    pub warehouse_id: Option<String>,
    /// Where its files are.
    pub storage_prefix: Option<String>,
}

/// What credentials allow.
#[derive(Clone, Copy, Debug, PartialEq, Eq, Structural)]
pub enum AccessMode {
    /// Reading.
    Read,
    /// Reading and writing.
    ReadWrite,
}

/// What is known so far of a request for a fileset's credentials.
#[derive(Debug)]
pub struct VendFacts {
    /// The asset.
    pub asset: Found<AssetRecord>,
    /// Whether the caller may write to it.
    pub write: Option<Access>,
    /// Whether the caller may commit to it.
    pub commit: Option<Access>,
    /// Whether the caller may drop it.
    pub drop: Option<Access>,
    /// Whether the caller may read it.
    pub read: Option<Access>,
    /// Whether its warehouse is there.
    pub warehouse: Found<()>,
    /// Whether the warehouse vends credentials.
    pub vended: Option<bool>,
}

/// What credentials are vended for.
#[derive(Debug)]
pub struct FilesetScope {
    /// The warehouse.
    pub warehouse_id: String,
    /// The asset.
    pub asset_id: String,
    /// The asset's name.
    pub name: String,
    /// Where its files are.
    pub prefix: String,
    /// What they allow.
    pub mode: AccessMode,
}

/// The next step of vending a fileset's credentials.
#[derive(Debug)]
pub enum VendStep {
    /// Look up the asset.
    AskAsset,
    /// Ask whether the caller may write to it.
    AskWrite,
    /// Ask whether the caller may commit to it.
    AskCommit,
    /// Ask whether the caller may drop it.
    AskDrop,
    /// Ask whether the caller may read it.
    AskRead,
    /// Look up its warehouse.
    AskWarehouse,
    /// Vend credentials, bound to the fileset's prefix.
    Vend(FilesetScope),
    /// Answer with the credentials.
    Done(AccessMode),
}

/// What a caller may do with a fileset: anyone who may write, commit, or drop
/// writes; anyone else must be allowed to read.
pub open spec fn fileset_mode(facts: VendFacts) -> Result<Result<AccessMode, VendStep>, error::ErrorView> {
    match facts.write {
        None => Ok(Err(VendStep::AskWrite)),
        Some(Access::Granted) => Ok(Ok(AccessMode::ReadWrite)),
        Some(_) => match facts.commit {
            None => Ok(Err(VendStep::AskCommit)),
            Some(Access::Granted) => Ok(Ok(AccessMode::ReadWrite)),
            Some(_) => match facts.drop {
                None => Ok(Err(VendStep::AskDrop)),
                Some(Access::Granted) => Ok(Ok(AccessMode::ReadWrite)),
                Some(_) => match facts.read {
                    None => Ok(Err(VendStep::AskRead)),
                    Some(access) => match grants::access_error(access) {
                        Some(e) => Err(e),
                        None => Ok(Ok(AccessMode::Read)),
                    },
                },
            },
        },
    }
}

/// What the credentials of a fileset are bound to.
pub open spec fn fileset_scope(asset: AssetRecord, mode: AccessMode) -> FilesetScope {
    FilesetScope {
        warehouse_id: asset.warehouse_id->0,
        asset_id: asset.id,
        name: asset.name,
        prefix: asset.storage_prefix->0,
        mode,
    }
}

/// The step of vending a fileset's credentials.
pub open spec fn vend_step(id: Seq<char>, facts: VendFacts) -> Result<VendStep, error::ErrorView> {
    match facts.asset {
        Found::Unasked => Ok(VendStep::AskAsset),
        Found::Missing => Err(no_asset(id)),
        Found::Is(asset) => if asset.storage_prefix is None || asset.warehouse_id is None {
            Err(
                error::bad_request(
                    "only filesets can vend credentials (this asset has no storage prefix)"@,
                ),
            )
        } else {
            match fileset_mode(facts) {
                Err(e) => Err(e),
                Ok(Err(step)) => Ok(step),
                Ok(Ok(mode)) => match facts.warehouse {
                    Found::Unasked => Ok(VendStep::AskWarehouse),
                    Found::Missing => Err(
                        error::error_of(ErrorKind::Store(StoreKind::Internal), "fileset warehouse vanished"@),
                    ),
                    Found::Is(_) => match facts.vended {
                        None => Ok(VendStep::Vend(fileset_scope(asset, mode))),
                        Some(true) => Ok(VendStep::Done(mode)),
                        Some(false) => Err(
                            error::bad_request(
                                "credential vending is disabled on this fileset's warehouse (storage option `vending` is `none`)"@,
                            ),
                        ),
                    },
                },
            }
        },
    }
}

fn granted(access: &Option<Access>) -> (r: Option<bool>)
    ensures
        r == (match *access {
            None => None,
            Some(Access::Granted) => Some(true),
            Some(_) => Some(false),
        }),
{
    match access {
        None => None,
        Some(Access::Granted) => Some(true),
        Some(_) => Some(false),
    }
}

fn mode_of(facts: &VendFacts) -> (r: Result<Result<AccessMode, VendStep>, ApiError>)
    ensures
        error::outcome(r) == fileset_mode(*facts),
{
    match granted(&facts.write) {
        None => { return Ok(Err(VendStep::AskWrite)); },
        Some(b) => {
            if b {
                return Ok(Ok(AccessMode::ReadWrite));
            }
        },
    }
    match granted(&facts.commit) {
        None => { return Ok(Err(VendStep::AskCommit)); },
        Some(b) => {
            if b {
                return Ok(Ok(AccessMode::ReadWrite));
            }
        },
    }
    match granted(&facts.drop) {
        None => { return Ok(Err(VendStep::AskDrop)); },
        Some(b) => {
            if b {
                return Ok(Ok(AccessMode::ReadWrite));
            }
        },
    }
    match &facts.read {
        None => Ok(Err(VendStep::AskRead)),
        Some(access) => match require(access) {
            Err(e) => Err(e),
            Ok(()) => Ok(Ok(AccessMode::Read)),
        },
    }
}

/// Takes the next step of vending a fileset's credentials.
pub fn vend_fileset_credentials(id: &str, facts: &VendFacts) -> (r: Result<VendStep, ApiError>)
    ensures
        error::outcome(r) == vend_step(id@, *facts),
{
    let asset = match &facts.asset {
        Found::Unasked => { return Ok(VendStep::AskAsset); },
        Found::Missing => { return Err(ApiError::not_found(cat2("no asset ", id).as_str())); },
        Found::Is(asset) => asset,
    };
    let (prefix, warehouse_id) = match (&asset.storage_prefix, &asset.warehouse_id) {
        (Some(prefix), Some(warehouse_id)) => (prefix, warehouse_id),
        _ => {
            return Err(ApiError::bad_request("only filesets can vend credentials (this asset has no storage prefix)"));
        },
    };
    let mode = match mode_of(facts) {
        Err(e) => { return Err(e); },
        Ok(Err(step)) => { return Ok(step); },
        Ok(Ok(mode)) => mode,
    };
    match &facts.warehouse {
        Found::Unasked => { return Ok(VendStep::AskWarehouse); },
        Found::Missing => {
            return Err(ApiError::new(ErrorKind::Store(StoreKind::Internal), "fileset warehouse vanished"));
        },
        Found::Is(_) => {},
    }
    match facts.vended {
        None => Ok(
            VendStep::Vend(
                FilesetScope {
                    warehouse_id: warehouse_id.clone(),
                    asset_id: asset.id.clone(),
                    name: asset.name.clone(),
                    prefix: prefix.clone(),
                    mode,
                },
            ),
        ),
        Some(b) => if b {
            Ok(VendStep::Done(mode))
        } else {
            Err(ApiError::bad_request(
                "credential vending is disabled on this fileset's warehouse (storage option `vending` is `none`)",
            ))
        },
    }
}

/// Credentials that write go only to a caller who may write, commit, or drop,
/// and credentials that read only to one who may read.
pub proof fn credentials_follow_access(id: Seq<char>, facts: VendFacts, mode: AccessMode)
    requires
        (vend_step(id, facts) matches Ok(VendStep::Vend(scope)) && scope.mode == mode) || vend_step(id, facts) == Ok::<
            VendStep,
            error::ErrorView,
        >(VendStep::Done(mode)),
    ensures
        mode == AccessMode::ReadWrite ==> {
            ||| facts.write matches Some(a) && a is Granted
            ||| facts.commit matches Some(a) && a is Granted
            ||| facts.drop matches Some(a) && a is Granted
        },
        mode == AccessMode::Read ==> (facts.read matches Some(a) && a is Granted),
{
}

// ---------------------------------------------------------------------------
// Training runs
// ---------------------------------------------------------------------------

/// One pinned input of a training run.
#[derive(Debug)]
pub struct TrainingInputBody {
    /// The table's id, where it is a table of this catalog.
    pub table_id: Option<String>,
    /// What the input is called.
    pub table_ref: String,
    /// The snapshot it is pinned to.
    pub snapshot_id: i64,
}

/// Admits a training run: it pins at least one input.
pub fn create_training_run(access: &Access, inputs: &Vec<TrainingInputBody>) -> (r: Result<(), ApiError>)
    ensures
        match grants::access_error(*access) {
            Some(e) => error::fails_with(r, e),
            None => if inputs@.len() == 0 {
                error::fails_with(r, error::bad_request("a training run must pin at least one input"@))
            } else {
                r is Ok
            },
        },
{
    match require(access) {
        Err(e) => { return Err(e); },
        Ok(()) => {},
    }
    if inputs.len() == 0 {
        return Err(ApiError::bad_request("a training run must pin at least one input"));
    }
    Ok(())
}

/// The training run of an id, or a 404.
pub fn get_training_run<T>(id: &str, found: Option<T>) -> (r: Result<T, ApiError>)
    ensures
        match found {
            Some(v) => r matches Ok(got) && got == v,
            None => error::fails_with(r, error::not_found("no training run "@ + id@)),
        },
{
    match found {
        Some(v) => Ok(v),
        None => Err(ApiError::not_found(cat2("no training run ", id).as_str())),
    }
}

// ---------------------------------------------------------------------------
// Provenance
// ---------------------------------------------------------------------------

/// Query parameters of the provenance routes.
#[derive(Debug)]
pub struct ModelProvenanceQuery {
    /// Only this version of the model.
    pub version: Option<String>,
}

/// One training run: what it saw, and which version of the model came of it.
#[derive(Debug)]
pub struct TrainingRun {
    /// The run.
    pub id: String,
    /// The version that it made.
    pub model_version: String,
    /// Who recorded it.
    pub created_by: String,
    /// When, as it is shown.
    pub created_at: String,
    /// Its inputs.
    pub inputs: Vec<TrainingInputBody>,
}

/// One source of a model: what it is, and what the model saw of it.
#[derive(Debug)]
pub struct DatasetCard {
    /// What the source is called.
    pub source: String,
    /// The table's id, where it is a table of this catalog.
    pub table_id: Option<String>,
    /// The snapshots that the model saw, in the order it first saw them.
    pub pinned_snapshots: Vec<i64>,
    /// The source's tags, each once, in order.
    pub tags: Vec<String>,
}

/// Where a model comes from.
#[derive(Debug)]
pub struct Provenance {
    /// The model.
    pub model: String,
    /// The version that was asked for; all where none is named.
    pub version: Option<String>,
    /// Its runs with their inputs, in the order they are recorded in.
    pub runs: Vec<TrainingRun>,
    /// One card per source, in the order of their names.
    pub dataset_cards: Vec<DatasetCard>,
    /// The tags of all sources, each once, in order.
    pub propagated_tags: Vec<String>,
    /// Those of them that speak of license or consent.
    pub rights_tags: Vec<String>,
    /// The agents that use the model: none is ever recorded.
    pub agents_using: Vec<String>,
}

/// A source, before its tags are known.
#[derive(Debug)]
pub struct SourceFacts {
    /// The table's id, where it is a table of this catalog.
    pub table_id: Option<String>,
    /// The snapshots that were seen, in the order they were first seen.
    pub snapshots: Vec<i64>,
}

/// The inputs of all runs, in order.
pub open spec fn all_inputs(runs: Seq<TrainingRun>) -> Seq<TrainingInputBody>
    decreases runs.len(),
{
    if runs.len() == 0 {
        seq![]
    } else {
        all_inputs(runs.drop_last()) + runs.last().inputs@
    }
}

/// What the first input of a name says its table is; nothing where no input
/// has the name.
pub open spec fn first_table(inputs: Seq<TrainingInputBody>, name: Seq<char>) -> Option<Option<String>>
    decreases inputs.len(),
{
    if inputs.len() == 0 {
        None
    } else {
        let earlier = first_table(inputs.drop_last(), name);
        if earlier is Some {
            earlier
        } else if inputs.last().table_ref@ == name {
            Some(inputs.last().table_id)
        } else {
            None
        }
    }
}

/// The snapshots that the inputs of a name pin, each once, in the order they
/// first occur.
pub open spec fn seen_snapshots(inputs: Seq<TrainingInputBody>, name: Seq<char>) -> Seq<i64>
    decreases inputs.len(),
{
    if inputs.len() == 0 {
        seq![]
    } else {
        let earlier = seen_snapshots(inputs.drop_last(), name);
        if inputs.last().table_ref@ == name && !earlier.contains(inputs.last().snapshot_id) {
            earlier.push(inputs.last().snapshot_id)
        } else {
            earlier
        }
    }
}

/// Whether the map holds the sources of the inputs.
pub open spec fn are_sources(map: Map<Seq<char>, SourceFacts>, inputs: Seq<TrainingInputBody>) -> bool {
    forall|name: Seq<char>| #![trigger map.dom().contains(name)]
        {
            &&& map.dom().contains(name) == (first_table(inputs, name) is Some)
            &&& map.dom().contains(name) ==> map[name].table_id == first_table(inputs, name)->0
                && map[name].snapshots@ == seen_snapshots(inputs, name)
        }
}

fn copy_ids(ids: &Vec<i64>) -> (r: Vec<i64>)
    ensures
        r@ == ids@,
{
    let mut out: Vec<i64> = Vec::new();
    let mut i: usize = 0;
    while i < ids.len()
        invariant
            i <= ids@.len(),
            out@ == ids@.take(i as int),
        decreases ids@.len() - i,
    {
        out.push(ids[i]);
        assert(ids@.take(i as int).push(ids@[i as int]) =~= ids@.take(i + 1));
        i = i + 1;
    }
    assert(ids@.take(ids@.len() as int) =~= ids@);
    out
}

proof fn unseen_has_no_snapshots(inputs: Seq<TrainingInputBody>, name: Seq<char>)
    requires
        first_table(inputs, name) is None,
    ensures
        seen_snapshots(inputs, name) == Seq::<i64>::empty(),
    decreases inputs.len(),
{
    if inputs.len() > 0 {
        unseen_has_no_snapshots(inputs.drop_last(), name);
    }
}

fn add_input(map: TextMap<SourceFacts>, input: &TrainingInputBody, Ghost(before): Ghost<Seq<TrainingInputBody>>) -> (r: TextMap<SourceFacts>)
    requires
        are_sources(map@, before),
    ensures
        are_sources(r@, before.push(*input)),
{
    let ghost now = before.push(*input);
    let ghost name = input.table_ref@;
    assert(now.drop_last() =~= before);
    let facts = match map.get(input.table_ref.as_str()) {
        None => {
            proof {
                unseen_has_no_snapshots(before, name);
            }
            let mut snapshots: Vec<i64> = Vec::new();
            snapshots.push(input.snapshot_id);
            SourceFacts { table_id: copy_opt(&input.table_id), snapshots }
        },
        Some(facts) => {
            let mut snapshots = copy_ids(&facts.snapshots);
            if !crate::metadata::holds_id(&snapshots, input.snapshot_id) {
                snapshots.push(input.snapshot_id);
            }
            SourceFacts { table_id: copy_opt(&facts.table_id), snapshots }
        },
    };
    assert(facts.snapshots@ =~= seen_snapshots(now, name));
    let r = map.with(input.table_ref.as_str(), facts);
    assert forall|n: Seq<char>| #![trigger r@.dom().contains(n)]
        {
            &&& r@.dom().contains(n) == (first_table(now, n) is Some)
            &&& r@.dom().contains(n) ==> r@[n].table_id == first_table(now, n)->0 && r@[n].snapshots@
                == seen_snapshots(now, n)
        } by {
        assert(map@.dom().contains(n) == (first_table(before, n) is Some));
        if n != name {
            assert(r@.dom().contains(n) == map@.dom().contains(n));
        }
    }
    r
}

/// The sources of a model's runs, by name.
pub fn collect_sources(runs: &Vec<TrainingRun>) -> (r: TextMap<SourceFacts>)
    ensures
        are_sources(r@, all_inputs(runs@)),
{
    let mut map: TextMap<SourceFacts> = TextMap::new();
    let mut i: usize = 0;
    assert(runs@.take(0) =~= Seq::<TrainingRun>::empty());
    while i < runs.len()
        invariant
            i <= runs@.len(),
            are_sources(map@, all_inputs(runs@.take(i as int))),
        decreases runs@.len() - i,
    {
        let inputs = &runs[i].inputs;
        let ghost before = all_inputs(runs@.take(i as int));
        let mut j: usize = 0;
        assert(before + inputs@.take(0) =~= before);
        while j < inputs.len()
            invariant
                j <= inputs@.len(),
                are_sources(map@, before + inputs@.take(j as int)),
            decreases inputs@.len() - j,
        {
            let ghost so_far = before + inputs@.take(j as int);
            map = add_input(map, &inputs[j], Ghost(so_far));
            assert(so_far.push(inputs@[j as int]) =~= before + inputs@.take(j + 1));
            j = j + 1;
        }
        assert(inputs@.take(inputs@.len() as int) =~= inputs@);
        assert(runs@.take(i + 1).drop_last() =~= runs@.take(i as int));
        i = i + 1;
    }
    assert(runs@.take(runs@.len() as int) =~= runs@);
    map
}

/// The tags that were resolved for a source; only a table of this catalog has
/// any.
pub open spec fn tags_of(facts: SourceFacts, resolved: Map<Seq<char>, Vec<String>>, name: Seq<char>) -> Seq<Seq<char>> {
    if facts.table_id is Some && resolved.dom().contains(name) {
        text::texts(resolved[name]@)
    } else {
        seq![]
    }
}

/// The tags of every source.
pub open spec fn propagated(sources: Map<Seq<char>, SourceFacts>, resolved: Map<Seq<char>, Vec<String>>) -> Set<
    Seq<char>,
> {
    Set::new(
        |t: Seq<char>|
            exists|name: Seq<char>|
                sources.dom().contains(name) && #[trigger] tags_of(sources[name], resolved, name).contains(t),
    )
}

/// Whether the card is that of the source.
pub open spec fn is_card(
    card: DatasetCard,
    pair: (Seq<char>, SourceFacts),
    resolved: Map<Seq<char>, Vec<String>>,
) -> bool {
    &&& card.source@ == pair.0
    &&& card.table_id == pair.1.table_id
    &&& card.pinned_snapshots@ == pair.1.snapshots@
    &&& textset::lists_texts(card.tags@, tags_of(pair.1, resolved, pair.0).to_set())
}

/// Whether a tag speaks of license or consent.
pub open spec fn is_rights_tag(t: Seq<char>) -> bool {
    "license:"@.is_prefix_of(t) || "consent:"@.is_prefix_of(t)
}

/// Draws the provenance up from the runs, their sources, and the tags that
/// were resolved for these.
pub fn draw_up(
    model: &str,
    version: Option<&str>,
    runs: Vec<TrainingRun>,
    sources: &TextMap<SourceFacts>,
    resolved: &TextMap<Vec<String>>,
) -> (r: Provenance)
    requires
        are_sources(sources@, all_inputs(runs@)),
    ensures
        r.model@ == model@,
        text::opt_text(r.version) == text::opt_str(version),
        r.runs == runs,
        r.dataset_cards@.len() == sources.pairs().len(),
        forall|i: int|
            0 <= i < r.dataset_cards@.len() ==> is_card(
                #[trigger] r.dataset_cards@[i],
                sources.pairs()[i],
                resolved@,
            ),
        textset::lists_texts(r.propagated_tags@, propagated(sources@, resolved@)),
        textset::lists_texts(
            r.rights_tags@,
            propagated(sources@, resolved@).filter(|t: Seq<char>| is_rights_tag(t)),
        ),
        r.agents_using@.len() == 0,
{
    let n: usize = sources.len();
    let mut cards: Vec<DatasetCard> = Vec::new();
    let mut all: TextMap<()> = TextMap::new();
    let mut i: usize = 0;
    while i < n
        invariant
            i <= n,
            n == sources.pairs().len(),
            textmap::in_key_order(sources.pairs()),
            cards@.len() == i,
            forall|j: int| 0 <= j < i ==> is_card(#[trigger] cards@[j], sources.pairs()[j], resolved@),
            forall|t: Seq<char>|
                #![trigger all@.dom().contains(t)]
                all@.dom().contains(t) == (exists|j: int|
                    0 <= j < i && #[trigger] tags_of(sources.pairs()[j].1, resolved@, sources.pairs()[j].0).contains(
                        t,
                    )),
        decreases n - i,
    {
        let source = sources.key_at(i);
        let facts = sources.value_at(i);
        let none: Vec<String> = Vec::new();
        let found = resolved.get(source.as_str());
        let list = match found {
            Some(list) => if facts.table_id.is_some() { list } else { &none },
            None => &none,
        };
        let ghost mine = tags_of(*facts, resolved@, source@);
        assert(text::texts(list@) =~= mine);
        let ghost before = all@.dom();
        all = with_keys(all, list);
        assert forall|t: Seq<char>| #![trigger all@.dom().contains(t)]
            all@.dom().contains(t) == (exists|j: int|
                0 <= j < i + 1 && #[trigger] tags_of(sources.pairs()[j].1, resolved@, sources.pairs()[j].0).contains(
                    t,
                )) by {
            assert(all@.dom().contains(t) == (before.contains(t) || mine.contains(t)));
            if before.contains(t) {
                let j = choose|j: int|
                    0 <= j < i && #[trigger] tags_of(sources.pairs()[j].1, resolved@, sources.pairs()[j].0).contains(
                        t,
                    );
                assert(tags_of(sources.pairs()[j].1, resolved@, sources.pairs()[j].0).contains(t));
            }
            if mine.contains(t) {
                assert(tags_of(sources.pairs()[i as int].1, resolved@, sources.pairs()[i as int].0).contains(t));
            }
        }
        cards.push(
            DatasetCard {
                source: source.clone(),
                table_id: copy_opt(&facts.table_id),
                pinned_snapshots: copy_ids(&facts.snapshots),
                tags: sorted_distinct(list),
            },
        );
        i = i + 1;
    }
    let ghost set = propagated(sources@, resolved@);
    assert(all@.dom() =~= set) by {
        assert forall|t: Seq<char>| all@.dom().contains(t) == set.contains(t) by {
            if all@.dom().contains(t) {
                let j = choose|j: int|
                    0 <= j < n && #[trigger] tags_of(sources.pairs()[j].1, resolved@, sources.pairs()[j].0).contains(
                        t,
                    );
                let name = sources.pairs()[j].0;
                textmap::one_place(sources.pairs(), j);
                assert(textmap::stands_at(sources.pairs(), name, j));
                assert(sources@[name] == sources.pairs()[j].1);
                assert(tags_of(sources@[name], resolved@, name).contains(t));
            }
            if set.contains(t) {
                let name = choose|name: Seq<char>|
                    sources@.dom().contains(name) && #[trigger] tags_of(sources@[name], resolved@, name).contains(t);
                let j = choose|j: int| textmap::stands_at(sources.pairs(), name, j);
                textmap::one_place(sources.pairs(), j);
                assert(tags_of(sources.pairs()[j].1, resolved@, sources.pairs()[j].0).contains(t));
            }
        }
    }
    let propagated_tags = keys(&all);
    let rights_tags = starting_with(&propagated_tags, "license:", "consent:", Ghost(set));
    assert(set.filter(|t: Seq<char>| "license:"@.is_prefix_of(t) || "consent:"@.is_prefix_of(t)) =~= set.filter(
        |t: Seq<char>| is_rights_tag(t),
    ));
    let version = match version {
        Some(v) => Some(v.to_owned()),
        None => None,
    };
    Provenance {
        model: model.to_owned(),
        version,
        runs,
        dataset_cards: cards,
        propagated_tags,
        rights_tags,
        agents_using: Vec::new(),
    }
}

/// The 404 of a model that no run names.
pub open spec fn no_runs(model: Seq<char>, version: Option<Seq<char>>) -> error::ErrorView {
    error::not_found(
        "no training runs recorded for model "@ + text::quoted(model) + (match version {
            Some(v) => " version "@ + text::quoted(v),
            None => ""@,
        }),
    )
}

/// The sources of a model's runs, or a 404 where it has no run. The tags of
/// each source that is a table of this catalog are resolved next.
pub fn build_provenance(model: &str, version: Option<&str>, runs: &Vec<TrainingRun>) -> (r: Result<
    TextMap<SourceFacts>,
    ApiError,
>)
    ensures
        if runs@.len() == 0 {
            error::fails_with(r, no_runs(model@, text::opt_str(version)))
        } else {
            r matches Ok(map) && are_sources(map@, all_inputs(runs@))
        },
{
    if runs.len() == 0 {
        let tail = match version {
            Some(v) => cat2(" version ", quote(v).as_str()),
            None => "".to_owned(),
        };
        return Err(ApiError::not_found(
            cat3("no training runs recorded for model ", quote(model).as_str(), tail.as_str()).as_str(),
        ));
    }
    Ok(collect_sources(runs))
}

/// Admits a manager to the provenance of a model: the sources of its runs, or a
/// 404 where it has no run.
pub fn model_provenance(access: &Access, model: &str, version: Option<&str>, runs: &Vec<TrainingRun>) -> (r: Result<
    TextMap<SourceFacts>,
    ApiError,
>)
    ensures
        match grants::access_error(*access) {
            Some(e) => error::fails_with(r, e),
            None => if runs@.len() == 0 {
                error::fails_with(r, no_runs(model@, text::opt_str(version)))
            } else {
                r matches Ok(map) && are_sources(map@, all_inputs(runs@))
            },
        },
{
    match require(access) {
        Err(e) => { return Err(e); },
        Ok(()) => {},
    }
    build_provenance(model, version, runs)
}

/// Every snapshot that a run pins is on the card of its source.
pub proof fn every_pin_is_reported(inputs: Seq<TrainingInputBody>, map: Map<Seq<char>, SourceFacts>, i: int)
    requires
        are_sources(map, inputs),
        0 <= i < inputs.len(),
    ensures
        map.dom().contains(inputs[i].table_ref@),
        map[inputs[i].table_ref@].snapshots@.contains(inputs[i].snapshot_id),
{
    pin_is_seen(inputs, i);
    assert(map.dom().contains(inputs[i].table_ref@) == (first_table(inputs, inputs[i].table_ref@) is Some));
}

proof fn pin_is_seen(inputs: Seq<TrainingInputBody>, i: int)
    requires
        0 <= i < inputs.len(),
    ensures
        first_table(inputs, inputs[i].table_ref@) is Some,
        seen_snapshots(inputs, inputs[i].table_ref@).contains(inputs[i].snapshot_id),
    decreases inputs.len(),
{
    let name = inputs[i].table_ref@;
    let earlier = seen_snapshots(inputs.drop_last(), name);
    if i + 1 < inputs.len() {
        pin_is_seen(inputs.drop_last(), i);
        if seen_snapshots(inputs, name) != earlier {
            let a = choose|a: int| 0 <= a < earlier.len() && earlier[a] == inputs[i].snapshot_id;
            assert(seen_snapshots(inputs, name)[a] == inputs[i].snapshot_id);
        }
    } else if !earlier.contains(inputs[i].snapshot_id) {
        assert(seen_snapshots(inputs, name)[earlier.len() as int] == inputs[i].snapshot_id);
    }
}

/// Every input of every run of a report is on a card of it: the one of its
/// source, with its snapshot.
pub proof fn every_run_is_covered(
    report: Provenance,
    sources: TextMap<SourceFacts>,
    resolved: Map<Seq<char>, Vec<String>>,
    run: int,
    input: int,
)
    requires
        are_sources(sources@, all_inputs(report.runs@)),
        textmap::in_key_order(sources.pairs()),
        report.dataset_cards@.len() == sources.pairs().len(),
        forall|i: int|
            0 <= i < report.dataset_cards@.len() ==> is_card(
                #[trigger] report.dataset_cards@[i],
                sources.pairs()[i],
                resolved,
            ),
        0 <= run < report.runs@.len(),
        0 <= input < report.runs@[run].inputs@.len(),
    ensures
        exists|i: int|
            0 <= i < report.dataset_cards@.len() && (#[trigger] report.dataset_cards@[i]).source@
                == report.runs@[run].inputs@[input].table_ref@ && report.dataset_cards@[i].pinned_snapshots@.contains(
                report.runs@[run].inputs@[input].snapshot_id,
            ),
{
    let all = all_inputs(report.runs@);
    let it = report.runs@[run].inputs@[input];
    let at = place_of_input(report.runs@, run, input);
    every_pin_is_reported(all, sources@, at);
    let name = it.table_ref@;
    let i = choose|i: int| textmap::stands_at(sources.pairs(), name, i);
    textmap::one_place(sources.pairs(), i);
    assert(is_card(report.dataset_cards@[i], sources.pairs()[i], resolved));
}

proof fn place_of_input(runs: Seq<TrainingRun>, run: int, input: int) -> (at: int)
    requires
        0 <= run < runs.len(),
        0 <= input < runs[run].inputs@.len(),
    ensures
        0 <= at < all_inputs(runs).len(),
        all_inputs(runs)[at] == runs[run].inputs@[input],
    decreases runs.len(),
{
    if run + 1 < runs.len() {
        place_of_input(runs.drop_last(), run, input)
    } else {
        all_inputs(runs.drop_last()).len() + input
    }
}

/// A card reports no snapshot twice.
pub proof fn pins_are_reported_once(inputs: Seq<TrainingInputBody>, name: Seq<char>)
    ensures
        seen_snapshots(inputs, name).no_duplicates(),
    decreases inputs.len(),
{
    if inputs.len() > 0 {
        pins_are_reported_once(inputs.drop_last(), name);
    }
}

// ---------------------------------------------------------------------------
// Deletion campaigns
// ---------------------------------------------------------------------------

/// Request body to open a deletion campaign.
#[derive(Debug)]
pub struct CreateCampaignBody {
    /// What it is called.
    pub name: String,
    /// Whose data is to go.
    pub subject: String,
    /// Why.
    pub reason: Option<String>,
}

/// One affected snapshot.
#[derive(Debug)]
pub struct CampaignSnapshotBody {
    /// The table's id, where it is a table of this catalog.
    pub table_id: Option<String>,
    /// What the source is called.
    pub table_ref: String,
    /// The snapshot.
    pub snapshot_id: i64,
    /// The branch it is on.
    pub branch: Option<String>,
}

/// Request body to add affected snapshots to a campaign.
#[derive(Debug)]
pub struct AddSnapshotsBody {
    /// The snapshots.
    pub snapshots: Vec<CampaignSnapshotBody>,
}

/// Request body to record that a snapshot is gone.
#[derive(Debug)]
pub struct ExpireSnapshotBody {
    /// The row of the affected snapshot.
    pub snapshot_row_id: String,
}

/// The number of campaigns to list: 100, or as many as are asked for from 1 to
/// 500.
pub fn list_campaigns(access: &Access, query: &ListAssetsQuery) -> (r: Result<i64, ApiError>)
    ensures
        match grants::access_error(*access) {
            Some(e) => error::fails_with(r, e),
            None => r matches Ok(n) && n == limits::clamped(query.limit, 100, 1, 500),
        },
{
    match require(access) {
        Err(e) => Err(e),
        Ok(()) => Ok(clamp(query.limit, 100, 1, 500)),
    }
}

/// Admits affected snapshots: there must be at least one.
pub fn add_campaign_snapshots(access: &Access, body: &AddSnapshotsBody) -> (r: Result<(), ApiError>)
    ensures
        match grants::access_error(*access) {
            Some(e) => error::fails_with(r, e),
            None => if body.snapshots@.len() == 0 {
                error::fails_with(r, error::bad_request("add at least one affected snapshot"@))
            } else {
                r is Ok
            },
        },
{
    match require(access) {
        Err(e) => { return Err(e); },
        Ok(()) => {},
    }
    if body.snapshots.len() == 0 {
        return Err(ApiError::bad_request("add at least one affected snapshot"));
    }
    Ok(())
}

/// Shows a manager the campaign of an id, or a 404.
pub fn campaign_of<T>(access: &Access, id: &str, found: Option<T>) -> (r: Result<T, ApiError>)
    ensures
        match grants::access_error(*access) {
            Some(e) => error::fails_with(r, e),
            None => match found {
                Some(v) => r matches Ok(got) && got == v,
                None => error::fails_with(r, error::not_found("no deletion campaign "@ + id@)),
            },
        },
{
    match require(access) {
        Err(e) => { return Err(e); },
        Ok(()) => {},
    }
    match found {
        Some(v) => Ok(v),
        None => Err(ApiError::not_found(cat2("no deletion campaign ", id).as_str())),
    }
}

/// An asset's kind is read off its name, and off nothing else.
pub proof fn asset_kinds_are_read(name: Seq<char>)
    ensures
        asset_kind_of(name) == Some(AssetKind::Fileset) <==> name == "fileset"@,
        asset_kind_of(name) == Some(AssetKind::Model) <==> name == "model"@,
        asset_kind_of(name) == Some(AssetKind::VectorDataset) <==> name == "vector_dataset"@,
{
    reveal_strlit("fileset");
    reveal_strlit("model");
    reveal_strlit("vector_dataset");
    assert("fileset"@.len() == 7 && "model"@.len() == 5 && "vector_dataset"@.len() == 14);
}

/// An asset is created exactly by a caller who was granted access, as the kind
/// that it names. A fileset lies in the warehouse that it names, which must be
/// there; no other kind lies in one.
pub proof fn assets_are_created_as_named(access: Access, body: CreateAssetBody, warehouse: Found<String>)
    ensures
        match create_asset_step(access, body, warehouse) {
            Ok(CreateAssetStep::AskWarehouse) => access is Granted && body.kind@ == "fileset"@ && body.warehouse is Some
                && warehouse is Unasked,
            Ok(CreateAssetStep::Create(kind, id)) => access is Granted && match kind {
                AssetKind::Fileset => body.kind@ == "fileset"@ && body.warehouse is Some && (id matches Some(w)
                    && warehouse == Found::Is(w)),
                AssetKind::Model => body.kind@ == "model"@ && id is None,
                AssetKind::VectorDataset => body.kind@ == "vector_dataset"@ && id is None,
            },
            Err(e) => {
                ||| !(access is Granted)
                ||| e.kind == ErrorKind::BadRequest && (asset_kind_of(body.kind@) is None || body.kind@ == "fileset"@
                    && body.warehouse is None)
                ||| e.kind == ErrorKind::NoSuchWarehouse && body.kind@ == "fileset"@ && warehouse is Missing
            },
        },
{
    asset_kinds_are_read(body.kind@);
}

/// Credentials are vended for a fileset's own prefix in its own warehouse. They
/// write exactly where the caller may write, commit or drop, and only read where
/// the caller may do no more than that; a caller who may not even read gets
/// none.
pub proof fn filesets_vend_their_own_prefix(id: Seq<char>, facts: VendFacts)
    ensures
        ({
            let writes = (facts.write matches Some(a) && a is Granted) || (facts.commit matches Some(a) && a is Granted)
                || (facts.drop matches Some(a) && a is Granted);
            let refused = (facts.write matches Some(a) && !(a is Granted)) && (facts.commit matches Some(a) && !(
            a is Granted)) && (facts.drop matches Some(a) && !(a is Granted));
            let reads = refused && (facts.read matches Some(a) && a is Granted);
            match vend_step(id, facts) {
                Ok(VendStep::AskAsset) => facts.asset is Unasked,
                Ok(VendStep::AskWrite) => facts.write is None,
                Ok(VendStep::AskCommit) => facts.commit is None && (facts.write matches Some(a) && !(a is Granted)),
                Ok(VendStep::AskDrop) => facts.drop is None && (facts.commit matches Some(a) && !(a is Granted)),
                Ok(VendStep::AskRead) => refused && facts.read is None,
                Ok(VendStep::AskWarehouse) => facts.warehouse is Unasked && (writes || reads),
                Ok(VendStep::Vend(scope)) => (facts.asset matches Found::Is(asset) && asset.warehouse_id == Some(
                    scope.warehouse_id,
                ) && asset.storage_prefix == Some(scope.prefix) && asset.id == scope.asset_id && asset.name
                    == scope.name) && facts.warehouse is Is && facts.vended is None && match scope.mode {
                    AccessMode::ReadWrite => writes,
                    AccessMode::Read => reads,
                },
                Ok(VendStep::Done(mode)) => facts.vended == Some(true) && match mode {
                    AccessMode::ReadWrite => writes,
                    AccessMode::Read => reads,
                },
                Err(e) => {
                    ||| facts.asset is Missing && e.kind == ErrorKind::NotFound
                    ||| (facts.asset matches Found::Is(asset) && (asset.storage_prefix is None
                        || asset.warehouse_id is None)) && e.kind == ErrorKind::BadRequest
                    ||| refused && (facts.read matches Some(a) && !(a is Granted))
                    ||| facts.warehouse is Missing
                    ||| facts.vended == Some(false) && e.kind == ErrorKind::BadRequest
                },
            }
        }),
{
}

/// A source is reported exactly where an input names it, with the pins of its
/// inputs and no others, and with the table of the first of them.
pub proof fn sources_are_those_of_the_inputs(
    inputs: Seq<TrainingInputBody>,
    map: Map<Seq<char>, SourceFacts>,
    name: Seq<char>,
    snapshot_id: i64,
)
    requires
        are_sources(map, inputs),
    ensures
        map.dom().contains(name) <==> exists|i: int| 0 <= i < inputs.len() && (#[trigger] inputs[i]).table_ref@ == name,
        map.dom().contains(name) ==> (map[name].snapshots@.contains(snapshot_id) <==> is_pinned(
            inputs,
            name,
            snapshot_id,
        )),
        map.dom().contains(name) ==> exists|i: int| is_first_of(inputs, name, i) && map[name].table_id
            == inputs[i].table_id,
{
    first_tables_are_right(inputs, name);
    pins_are_right(inputs, name, snapshot_id);
    if map.dom().contains(name) {
        let i = choose|i: int| is_first_of(inputs, name, i) && first_table(inputs, name) == Some(inputs[i].table_id);
        assert(inputs[i].table_ref@ == name);
        assert(is_first_of(inputs, name, i));
    }
}

/// Whether an input pins this snapshot of this source.
pub open spec fn is_pinned(inputs: Seq<TrainingInputBody>, name: Seq<char>, snapshot_id: i64) -> bool {
    exists|i: int|
        0 <= i < inputs.len() && (#[trigger] inputs[i]).table_ref@ == name && inputs[i].snapshot_id == snapshot_id
}

/// Whether the input at place `i` is the first that names this source.
pub open spec fn is_first_of(inputs: Seq<TrainingInputBody>, name: Seq<char>, i: int) -> bool {
    &&& 0 <= i < inputs.len()
    &&& inputs[i].table_ref@ == name
    &&& forall|j: int| 0 <= j < i ==> (#[trigger] inputs[j]).table_ref@ != name
}

proof fn first_tables_are_right(inputs: Seq<TrainingInputBody>, name: Seq<char>)
    ensures
        match first_table(inputs, name) {
            Some(id) => exists|i: int| is_first_of(inputs, name, i) && id == inputs[i].table_id,
            None => forall|i: int| 0 <= i < inputs.len() ==> (#[trigger] inputs[i]).table_ref@ != name,
        },
    decreases inputs.len(),
{
    if inputs.len() > 0 {
        let rest = inputs.drop_last();
        first_tables_are_right(rest, name);
        match first_table(rest, name) {
            Some(id) => {
                let i = choose|i: int| is_first_of(rest, name, i) && id == rest[i].table_id;
                assert(inputs[i] == rest[i]);
                assert forall|j: int| 0 <= j < i implies (#[trigger] inputs[j]).table_ref@ != name by {
                    assert(rest[j].table_ref@ != name);
                }
                assert(is_first_of(inputs, name, i));
            },
            None => {
                assert forall|j: int| 0 <= j < rest.len() implies (#[trigger] inputs[j]).table_ref@ != name by {
                    assert(rest[j].table_ref@ != name);
                }
                if inputs.last().table_ref@ == name {
                    assert(is_first_of(inputs, name, inputs.len() - 1));
                }
            },
        }
    }
}

proof fn pins_are_right(inputs: Seq<TrainingInputBody>, name: Seq<char>, snapshot_id: i64)
    ensures
        seen_snapshots(inputs, name).contains(snapshot_id) <==> is_pinned(inputs, name, snapshot_id),
    decreases inputs.len(),
{
    if inputs.len() > 0 {
        let rest = inputs.drop_last();
        let last = inputs.len() - 1;
        let earlier = seen_snapshots(rest, name);
        let all = seen_snapshots(inputs, name);
        pins_are_right(rest, name, snapshot_id);
        if is_pinned(rest, name, snapshot_id) {
            let i = choose|i: int|
                0 <= i < rest.len() && (#[trigger] rest[i]).table_ref@ == name && rest[i].snapshot_id == snapshot_id;
            assert(inputs[i].table_ref@ == name && inputs[i].snapshot_id == snapshot_id);
            let k = choose|k: int| 0 <= k < earlier.len() && earlier[k] == snapshot_id;
            assert(all[k] == snapshot_id);
        }
        if inputs[last].table_ref@ == name && inputs[last].snapshot_id == snapshot_id {
            assert(is_pinned(inputs, name, snapshot_id));
            if !earlier.contains(snapshot_id) {
                assert(all[all.len() - 1] == snapshot_id);
            }
        }
        if is_pinned(inputs, name, snapshot_id) {
            let i = choose|i: int|
                0 <= i < inputs.len() && (#[trigger] inputs[i]).table_ref@ == name && inputs[i].snapshot_id
                    == snapshot_id;
            if i < last {
                assert(rest[i].table_ref@ == name && rest[i].snapshot_id == snapshot_id);
            }
        }
        if all.contains(snapshot_id) {
            let k = choose|k: int| 0 <= k < all.len() && all[k] == snapshot_id;
            if k < earlier.len() {
                assert(earlier[k] == snapshot_id);
            }
        }
    } else {
        assert(!seen_snapshots(inputs, name).contains(snapshot_id));
    }
}

/// A tag of a source is propagated exactly where the source's table is known and
/// carries it; the rights tags among them are the licenses and the consents.
pub proof fn tags_are_propagated(
    sources: Map<Seq<char>, SourceFacts>,
    resolved: Map<Seq<char>, Vec<String>>,
    name: Seq<char>,
    tag: Seq<char>,
)
    ensures
        sources.dom().contains(name) && sources[name].table_id is Some && resolved.dom().contains(name) && text::texts(
            resolved[name]@,
        ).contains(tag) ==> propagated(sources, resolved).contains(tag),
        propagated(sources, resolved).contains(tag) ==> exists|source: Seq<char>|
            #![trigger sources.dom().contains(source)]
            sources.dom().contains(source) && sources[source].table_id is Some && resolved.dom().contains(source)
                && text::texts(resolved[source]@).contains(tag),
        is_rights_tag("license:"@ + tag),
        is_rights_tag("consent:"@ + tag),
{
    assert(("license:"@ + tag).take("license:"@.len() as int) =~= "license:"@);
    assert(("consent:"@ + tag).take("consent:"@.len() as int) =~= "consent:"@);
    if sources.dom().contains(name) && sources[name].table_id is Some && resolved.dom().contains(name) && text::texts(
        resolved[name]@,
    ).contains(tag) {
        assert(tags_of(sources[name], resolved, name).contains(tag));
    }
    if propagated(sources, resolved).contains(tag) {
        let source = choose|source: Seq<char>|
            sources.dom().contains(source) && #[trigger] tags_of(sources[source], resolved, source).contains(tag);
        assert(sources.dom().contains(source));
        assert(!Seq::<Seq<char>>::empty().contains(tag));
    }
}

} // verus!
