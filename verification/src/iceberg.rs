//! The configuration that a client of the catalog starts from.

use vstd::prelude::*;

use crate::error;
use crate::error::{ApiError, ErrorKind};
use crate::grants::Found;
use crate::text;
use crate::textmap;
use crate::textmap::TextMap;

verus! {

/// How long the answer to a keyed request can be had again.
pub const IDEMPOTENCY_KEY_LIFETIME: &'static str = "PT24H";

/// The configuration of a catalog.
#[derive(Debug)]
pub struct CatalogConfig {
    /// What clients start from.
    pub defaults: TextMap<String>,
    /// What clients must use.
    pub overrides: TextMap<String>,
    /// The endpoints that the server has.
    pub endpoints: Vec<String>,
    /// How long the answer to a keyed request can be had again.
    pub idempotency_key_lifetime: Option<String>,
}

/// Query parameters of the configuration.
#[derive(Debug)]
pub struct ConfigQuery {
    /// The warehouse.
    pub warehouse: Option<String>,
}

/// The endpoints that the server has.
pub open spec fn implemented() -> Seq<Seq<char>> {
    seq![
        "GET /v1/{prefix}/namespaces"@,
        "POST /v1/{prefix}/namespaces"@,
        "GET /v1/{prefix}/namespaces/{namespace}"@,
        "HEAD /v1/{prefix}/namespaces/{namespace}"@,
        "DELETE /v1/{prefix}/namespaces/{namespace}"@,
        "POST /v1/{prefix}/namespaces/{namespace}/properties"@,
        "GET /v1/{prefix}/namespaces/{namespace}/tables"@,
        "POST /v1/{prefix}/namespaces/{namespace}/tables"@,
        "GET /v1/{prefix}/namespaces/{namespace}/tables/{table}"@,
        "HEAD /v1/{prefix}/namespaces/{namespace}/tables/{table}"@,
        "POST /v1/{prefix}/namespaces/{namespace}/tables/{table}"@,
        "DELETE /v1/{prefix}/namespaces/{namespace}/tables/{table}"@,
        "POST /v1/{prefix}/namespaces/{namespace}/register"@,
        "POST /v1/{prefix}/namespaces/{namespace}/tables/{table}/metrics"@,
        "GET /v1/{prefix}/namespaces/{namespace}/tables/{table}/credentials"@,
        "POST /v1/{prefix}/tables/rename"@,
        "POST /v1/{prefix}/transactions/commit"@,
        "GET /v1/{prefix}/namespaces/{namespace}/views"@,
        "POST /v1/{prefix}/namespaces/{namespace}/views"@,
        "GET /v1/{prefix}/namespaces/{namespace}/views/{view}"@,
        "HEAD /v1/{prefix}/namespaces/{namespace}/views/{view}"@,
        "POST /v1/{prefix}/namespaces/{namespace}/views/{view}"@,
        "DELETE /v1/{prefix}/namespaces/{namespace}/views/{view}"@,
        "POST /v1/{prefix}/views/rename"@,
    ]
}

/// The endpoints that the server has.
pub fn implemented_endpoints() -> (r: Vec<String>)
    ensures
        text::texts(r@) == implemented(),
{
    let r: Vec<String> = vec![
        "GET /v1/{prefix}/namespaces".to_owned(),
        "POST /v1/{prefix}/namespaces".to_owned(),
        "GET /v1/{prefix}/namespaces/{namespace}".to_owned(),
        "HEAD /v1/{prefix}/namespaces/{namespace}".to_owned(),
        "DELETE /v1/{prefix}/namespaces/{namespace}".to_owned(),
        "POST /v1/{prefix}/namespaces/{namespace}/properties".to_owned(),
        "GET /v1/{prefix}/namespaces/{namespace}/tables".to_owned(),
        "POST /v1/{prefix}/namespaces/{namespace}/tables".to_owned(),
        "GET /v1/{prefix}/namespaces/{namespace}/tables/{table}".to_owned(),
        "HEAD /v1/{prefix}/namespaces/{namespace}/tables/{table}".to_owned(),
        "POST /v1/{prefix}/namespaces/{namespace}/tables/{table}".to_owned(),
        "DELETE /v1/{prefix}/namespaces/{namespace}/tables/{table}".to_owned(),
        "POST /v1/{prefix}/namespaces/{namespace}/register".to_owned(),
        "POST /v1/{prefix}/namespaces/{namespace}/tables/{table}/metrics".to_owned(),
        "GET /v1/{prefix}/namespaces/{namespace}/tables/{table}/credentials".to_owned(),
        "POST /v1/{prefix}/tables/rename".to_owned(),
        "POST /v1/{prefix}/transactions/commit".to_owned(),
        "GET /v1/{prefix}/namespaces/{namespace}/views".to_owned(),
        "POST /v1/{prefix}/namespaces/{namespace}/views".to_owned(),
        "GET /v1/{prefix}/namespaces/{namespace}/views/{view}".to_owned(),
        "HEAD /v1/{prefix}/namespaces/{namespace}/views/{view}".to_owned(),
        "POST /v1/{prefix}/namespaces/{namespace}/views/{view}".to_owned(),
        "DELETE /v1/{prefix}/namespaces/{namespace}/views/{view}".to_owned(),
        "POST /v1/{prefix}/views/rename".to_owned(),
    ];
    assert(text::texts(r@) =~= implemented());
    r
}

/// The next step of the configuration.
#[derive(Debug)]
pub enum ConfigStep {
    /// Look up the warehouse.
    AskWarehouse,
    /// Answer.
    Answer(CatalogConfig),
}

/// The warehouse that a query names.
pub open spec fn warehouse_named(query: ConfigQuery) -> Option<Seq<char>> {
    match query.warehouse {
        Some(name) => if name@.len() > 0 { Some(name@) } else { None },
        None => None,
    }
}

/// Whether the configuration is the one of the warehouse, or of none.
pub open spec fn is_config(config: CatalogConfig, prefix: Option<Seq<char>>) -> bool {
    &&& config.defaults@ == Map::<Seq<char>, String>::empty()
    &&& textmap::text_values(config.overrides@) == (match prefix {
        Some(name) => Map::<Seq<char>, Seq<char>>::empty().insert("prefix"@, name),
        None => Map::<Seq<char>, Seq<char>>::empty(),
    })
    &&& text::texts(config.endpoints@) == implemented()
    &&& text::opt_text(config.idempotency_key_lifetime) == Some(IDEMPOTENCY_KEY_LIFETIME@)
}

/// Takes the next step of the configuration. A client that names a warehouse
/// is told to use the warehouse's name as its prefix; `warehouse` is the name
/// that was looked up.
pub fn get_config(query: &ConfigQuery, warehouse: &Found<String>) -> (r: Result<ConfigStep, ApiError>)
    ensures
        match warehouse_named(*query) {
            None => r matches Ok(ConfigStep::Answer(config)) && is_config(config, None),
            Some(name) => match *warehouse {
                Found::Unasked => r matches Ok(step) && step is AskWarehouse,
                Found::Missing => error::fails_with(r, error::error_of(ErrorKind::NoSuchWarehouse, name)),
                Found::Is(known) => r matches Ok(ConfigStep::Answer(config)) && is_config(config, Some(known@)),
            },
        },
{
    let mut overrides: TextMap<String> = TextMap::new();
    assert(textmap::text_values(overrides@) =~= Map::<Seq<char>, Seq<char>>::empty());
    match &query.warehouse {
        None => {},
        Some(name) => if !name.as_str().is_empty() {
            match warehouse {
                Found::Unasked => { return Ok(ConfigStep::AskWarehouse); },
                Found::Missing => { return Err(ApiError::new(ErrorKind::NoSuchWarehouse, name.as_str())); },
                Found::Is(known) => {
                    overrides = overrides.with("prefix", known.clone());
                    assert(textmap::text_values(overrides@) =~= Map::<Seq<char>, Seq<char>>::empty().insert(
                        "prefix"@,
                        known@,
                    ));
                },
            }
        },
    }
    Ok(
        ConfigStep::Answer(
            CatalogConfig {
                defaults: TextMap::new(),
                overrides,
                endpoints: implemented_endpoints(),
                idempotency_key_lifetime: Some(IDEMPOTENCY_KEY_LIFETIME.to_owned()),
            },
        ),
    )
}

} // verus!
