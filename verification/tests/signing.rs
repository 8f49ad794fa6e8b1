//! Remote signing: the client configuration, the endpoints, and the decisions.

use meridian_routes::assets::AccessMode;
use meridian_routes::error::ErrorKind;
use meridian_routes::grants::Found;
use meridian_routes::signing::{
    authority_of, cache_control, endpoint_authorities, ident, record_sign_decision, remote_signing_config,
    segment, sign_request, signed_headers, signer_from_warehouse, table_location, LocationCache,
    LocationStep, RemoteSignRequestBody, SignDecision, SignFacts, SignStep, SigningMeans,
};
use meridian_routes::tables::{TableRecord, WarehouseRecord};
use meridian_routes::textmap::TextMap;

fn options(items: &[(&str, &str)]) -> TextMap<String> {
    let mut out = TextMap::new();
    for (k, v) in items {
        out = out.with(k, v.to_string());
    }
    out
}

fn test_warehouse(items: &[(&str, &str)]) -> WarehouseRecord {
    WarehouseRecord {
        id: "01TEST".to_owned(),
        name: "wh1".to_owned(),
        storage_root: "s3://bucket/wh1".to_owned(),
        storage_config: options(items),
        foreign: false,
    }
}

/// What the credential service says of these options and this location.
fn means(warehouse: &WarehouseRecord, location: &str) -> SigningMeans {
    let mode = warehouse.storage_config.get("vending").map(String::as_str);
    SigningMeans {
        vending: Ok(matches!(mode, Some("static") | Some("sts"))),
        signer: Ok(()),
        scope: if location.starts_with("s3://") { Ok(()) } else { Err("not an s3 location".to_owned()) },
    }
}

#[test]
fn endpoint_authorities_normalize_default_ports() {
    let both = options(&[
        ("endpoint", "http://localhost:9000"),
        ("endpoint.external", "https://minio.example:443/console"),
    ]);
    assert_eq!(endpoint_authorities(&both), vec!["localhost:9000".to_owned(), "minio.example".to_owned()]);
    assert!(endpoint_authorities(&TextMap::new()).is_empty());
    assert!(endpoint_authorities(&options(&[("endpoint", "not a url")])).is_empty());
}

#[test]
fn signer_endpoint_is_relative_and_encoded() {
    let warehouse = test_warehouse(&[("vending", "static"), ("access-key-id", "k"), ("secret-access-key", "s")]);
    let config = remote_signing_config(
        &warehouse,
        "wh1",
        &vec!["a b".to_owned(), "c".to_owned()],
        "orders",
        &means(&warehouse, "s3://bucket/wh1/ab/orders-x"),
    )
    .expect("signing config");
    assert_eq!(config.get("s3.remote-signing-enabled").unwrap(), "true");
    assert_eq!(config.get("s3.signer.endpoint").unwrap(), "v1/wh1/namespaces/a%20b%1Fc/tables/orders/sign");
    assert_eq!(config.get("s3.signer").unwrap(), "S3V4RestSigner");
}

#[test]
fn signing_config_is_none_without_opt_in_keys_or_s3() {
    // No vending opt-in.
    let warehouse = test_warehouse(&[("access-key-id", "k"), ("secret-access-key", "s")]);
    assert!(remote_signing_config(&warehouse, "w", &Vec::new(), "t", &means(&warehouse, "s3://bucket/p/t")).is_none());
    // No keys.
    let warehouse = test_warehouse(&[("vending", "static")]);
    assert!(remote_signing_config(&warehouse, "w", &Vec::new(), "t", &means(&warehouse, "s3://bucket/p/t")).is_none());
    // Non-S3 location.
    let warehouse = test_warehouse(&[("vending", "static"), ("access-key-id", "k"), ("secret-access-key", "s")]);
    assert!(remote_signing_config(&warehouse, "w", &Vec::new(), "t", &means(&warehouse, "file:///tmp/wh/t")).is_none());
    // Keys that make no signer, and options that cannot be read.
    let mut refused = means(&warehouse, "s3://bucket/p/t");
    refused.signer = Err("bad key".to_owned());
    assert!(remote_signing_config(&warehouse, "w", &Vec::new(), "t", &refused).is_none());
    refused = means(&warehouse, "s3://bucket/p/t");
    assert!(remote_signing_config(&warehouse, "w", &Vec::new(), "t", &refused).is_some());
    refused.vending = Err("unknown mode".to_owned());
    assert!(remote_signing_config(&warehouse, "w", &Vec::new(), "t", &refused).is_none());
}

#[test]
fn segments_are_percent_encoded() {
    assert_eq!(segment("a b/c"), "a%20b%2Fc");
    assert_eq!(segment("a-b_c.d~e"), "a-b_c.d~e");
    assert_eq!(segment("é"), "%C3%A9");
    assert_eq!(segment(""), "");
}

#[test]
fn authorities_leave_out_paths_and_default_ports() {
    assert_eq!(authority_of("https://h:443"), Some("h".to_owned()));
    assert_eq!(authority_of("http://h:80/x"), Some("h".to_owned()));
    assert_eq!(authority_of("http://h:443/x"), Some("h:443".to_owned()));
    assert_eq!(authority_of("h"), None);
}

fn record(version: i64) -> TableRecord {
    TableRecord {
        id: "01T".to_owned(),
        name: "orders".to_owned(),
        table_uuid: "u1".to_owned(),
        mirror_id: None,
        metadata_location: Some("s3://b/m/1.json".to_owned()),
        pointer_version: version,
    }
}

#[test]
fn kept_locations_hold_for_one_version() {
    let cache = LocationCache::new().keep("01T", 3, "s3://b/t".to_owned());
    assert_eq!(cache.find("01T", 3), Some("s3://b/t".to_owned()));
    assert_eq!(cache.find("01T", 4), None);
    assert!(matches!(table_location(&record(3), &cache), Ok(LocationStep::Known(at)) if at == "s3://b/t"));
    assert!(matches!(table_location(&record(4), &cache), Ok(LocationStep::Read(at)) if at == "s3://b/m/1.json"));
}

#[test]
fn decisions_are_recorded_with_a_bound_on_keys() {
    let keys: Vec<String> = (0..30).map(|i| format!("k{i}")).collect();
    let allowed = record_sign_decision(&SignDecision::Allow { action: "GetObject".to_owned(), keys, cacheable: true });
    assert_eq!(allowed.keys.len(), 25);
    assert_eq!(allowed.key_count, Some(30));
    assert_eq!(allowed.reason, None);
    let denied = record_sign_decision(&SignDecision::Deny { reason: "outside".to_owned(), detail: "x".to_owned() });
    assert!(denied.reason.is_some());
    assert_ne!(denied.decision, allowed.decision);
}

#[test]
fn signed_headers_are_grouped_by_name() {
    let headers = vec![
        ("x".to_owned(), "1".to_owned()),
        ("a".to_owned(), "2".to_owned()),
        ("x".to_owned(), "3".to_owned()),
    ];
    let grouped = signed_headers(&headers);
    assert_eq!(grouped.len(), 2);
    assert_eq!(grouped.get("x"), Some(&vec!["1".to_owned(), "3".to_owned()]));
    assert_eq!(cache_control(true), "private");
    assert_eq!(cache_control(false), "no-cache");
}

#[test]
fn idents_are_dotted_with_the_name() {
    assert_eq!(ident(&vec!["a".to_owned(), "b".to_owned()], "t"), "a.b.t");
}

#[test]
fn tables_without_metadata_have_no_location() {
    let mut bare = record(1);
    bare.metadata_location = None;
    let e = table_location(&bare, &LocationCache::new()).unwrap_err();
    assert_eq!(e.kind, ErrorKind::NoSuchTable);
}

fn sign_body(provider: Option<&str>) -> RemoteSignRequestBody {
    RemoteSignRequestBody {
        region: "eu-west-1".to_owned(),
        uri: "https://bucket.s3.amazonaws.com/wh1/t/f".to_owned(),
        method: "GET".to_owned(),
        headers: TextMap::new(),
        body: None,
        provider: provider.map(|s| s.to_owned()),
    }
}

fn sign_facts() -> SignFacts {
    SignFacts {
        warehouse: Found::Is(test_warehouse(&[
            ("vending", "static"),
            ("access-key-id", "k"),
            ("secret-access-key", "s"),
        ])),
        table: Found::Is(record(3)),
        access: Some(Ok(AccessMode::Read)),
        vending: Some(Ok(true)),
        signer: Some(Ok(())),
        location: Some(Ok("s3://bucket/wh1/t".to_owned())),
        scope: Some(Ok(())),
        decision: None,
        signed: None,
        recorded: false,
    }
}

#[test]
fn allowed_requests_are_signed_recorded_and_answered() {
    let step = |facts: &SignFacts| sign_request("wh1", "a", "orders", &sign_body(Some("S3")), facts);
    let mut facts = sign_facts();
    assert!(matches!(step(&facts), Ok(SignStep::Authorize)));
    facts.decision =
        Some(SignDecision::Allow { action: "GetObject".to_owned(), keys: vec!["f".to_owned()], cacheable: true });
    assert!(matches!(step(&facts), Ok(SignStep::Sign)));
    facts.signed = Some(Ok(()));
    assert!(matches!(step(&facts), Ok(SignStep::Record)));
    facts.recorded = true;
    assert!(matches!(step(&facts), Ok(SignStep::Respond { cacheable: true })));
}

#[test]
fn denied_requests_are_recorded_and_refused() {
    let step = |facts: &SignFacts| sign_request("wh1", "a", "orders", &sign_body(None), facts);
    let mut facts = sign_facts();
    facts.decision = Some(SignDecision::Deny { reason: "outside".to_owned(), detail: "not under the table".to_owned() });
    assert!(matches!(step(&facts), Ok(SignStep::Record)));
    facts.recorded = true;
    let e = step(&facts).unwrap_err();
    assert_eq!(e.status(), Some(403));
    assert_eq!(e.message, "request will not be signed: not under the table");
}

#[test]
fn signing_is_for_warehouses_with_keys_and_tables_in_s3() {
    let mut facts = sign_facts();
    let step = |facts: &SignFacts| sign_request("wh1", "a", "orders", &sign_body(None), facts);
    facts.scope = Some(Err("not an s3 location".to_owned()));
    assert_eq!(step(&facts).unwrap_err().message, "not an s3 location");
    facts.scope = None;
    assert!(matches!(step(&facts), Ok(SignStep::AskScope)));
    facts.signer = Some(Err("bad key".to_owned()));
    assert_eq!(step(&facts).unwrap_err().message, "bad key");
    facts.vending = Some(Err("unknown vending mode".to_owned()));
    assert_eq!(step(&facts).unwrap_err().message, "unknown vending mode");
    facts.vending = Some(Ok(false));
    assert!(step(&facts).unwrap_err().message.starts_with("remote signing is not enabled for warehouse \"wh1\""));
    facts.vending = None;
    assert!(matches!(step(&facts), Ok(SignStep::AskVending)));
    facts.vending = Some(Ok(true));
    facts.warehouse = Found::Is(test_warehouse(&[("vending", "static")]));
    assert!(sign_request("wh1", "a", "orders", &sign_body(None), &facts).is_err());
    assert!(signer_from_warehouse(&test_warehouse(&[("vending", "static")]), &Ok(())).is_err());
    assert_eq!(
        sign_request("wh1", "a", "orders", &sign_body(Some("gcs")), &facts).unwrap_err().message,
        "remote signing supports provider \"s3\" only, got \"gcs\""
    );
    facts.warehouse = Found::Missing;
    assert_eq!(
        sign_request("wh1", "a", "orders", &sign_body(None), &facts).unwrap_err().kind,
        ErrorKind::NoSuchWarehouse
    );
}
