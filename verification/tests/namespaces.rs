//! Namespaces, prefixes, page tokens, and the order of texts.

use meridian_routes::error::{ErrorKind, StoreError, StoreKind};
use meridian_routes::grants::{Access, Found};
use meridian_routes::levels::{comes_before, sorted_paths};
use meridian_routes::limits::{clamp, is_full};
use meridian_routes::namespaces::{
    create_namespace, create_namespace_error, decode_namespace_param, decode_page_token, drop_namespace,
    drop_namespace_error, encode_page_token, fetch_limit, list_namespaces, load_namespace, next_page_token,
    resolve_pagination, resolve_warehouse, split_prefix, update_namespace_properties, update_properties_error,
    validate_levels, CreateNamespaceRequest, ListNamespacesQuery, ListStep, NamespaceStep, PageRow, Pagination,
    UpdateNamespacePropertiesRequest, CreateNamespaceStep,
};
use meridian_routes::text::{
    before, before_last, blank, decimal_i64, lowered_ascii, parse_i64, split, split_once, trim,
};
use meridian_routes::textmap::TextMap;
use meridian_routes::textset::{keys, sorted_distinct};

const ULID: &str = "01ARZ3NDEKTSV4RRFFQ69G5FAV";

fn texts(items: &[&str]) -> Vec<String> {
    items.iter().map(|s| s.to_string()).collect()
}

#[test]
fn prefixes_name_a_warehouse_and_a_branch() {
    assert_eq!(split_prefix("wh1"), ("wh1".to_string(), None));
    assert_eq!(split_prefix("wh1@dev"), ("wh1".to_string(), Some("dev".to_string())));
    assert_eq!(resolve_warehouse("wh1", Some(7)).unwrap(), 7);
    let e = resolve_warehouse::<u8>("wh1@dev", None).unwrap_err();
    assert_eq!(e.kind, ErrorKind::NoSuchWarehouse);
    assert_eq!(e.message, "wh1@dev");
}

#[test]
fn levels_are_separated_by_the_unit_separator() {
    assert_eq!(decode_namespace_param("a\u{1f}b").unwrap(), texts(&["a", "b"]));
    assert!(decode_namespace_param("").is_err());
    assert!(decode_namespace_param("a\u{1f}").is_err());
    assert!(validate_levels(&Vec::new()).is_err());
    assert!(validate_levels(&texts(&["a\u{1f}b"])).is_err());
    assert!(validate_levels(&texts(&["a.b", "c d"])).is_ok());
}

#[test]
fn page_tokens_name_the_row_they_were_made_for() {
    let token = encode_page_token(ULID);
    assert_ne!(token, ULID);
    assert_eq!(token, "303141525a334e44454b54535634525246465136394735464156");
    assert_eq!(decode_page_token(&token).unwrap(), ULID);
}

#[test]
fn page_tokens_that_were_never_handed_out_are_refused() {
    for bad in ["zz", "303", "ff", "303132"] {
        let e = decode_page_token(bad).unwrap_err();
        assert_eq!(e.kind, ErrorKind::BadRequest);
        assert_eq!(e.message, "invalid pageToken");
    }
}

#[test]
fn pages_start_with_a_token_or_a_size() {
    let all = resolve_pagination(None, None).unwrap();
    assert_eq!(all.limit, None);
    assert_eq!(fetch_limit(&all), None);
    let first = resolve_pagination(Some(""), None).unwrap();
    assert_eq!(first.limit, Some(100));
    assert_eq!(first.after_id, None);
    let large = resolve_pagination(None, Some(5000)).unwrap();
    assert_eq!(large.limit, Some(1000));
    assert_eq!(fetch_limit(&large), Some(1001));
    let next = resolve_pagination(Some(&encode_page_token(ULID)), Some(2)).unwrap();
    assert_eq!(next.after_id, Some(ULID.to_string()));
    assert_eq!(resolve_pagination(None, Some(0)).unwrap_err().message, "pageSize must be at least 1");
}

fn row(id: &str) -> PageRow<u8> {
    PageRow { id: id.to_string(), row: 0 }
}

#[test]
fn cut_pages_hand_out_a_token() {
    let mut rows = vec![row(ULID), row("01BX5ZZKBKACTAV9WEVGEMMVRZ"), row("01BX5ZZKBKACTAV9WEVGEMMVS0")];
    let token = next_page_token(&mut rows, Some(2)).unwrap();
    assert_eq!(rows.len(), 2);
    assert_eq!(decode_page_token(&token).unwrap(), "01BX5ZZKBKACTAV9WEVGEMMVRZ");
    assert_eq!(next_page_token(&mut rows, Some(2)), None);
    assert_eq!(next_page_token(&mut rows, None), None);
    assert_eq!(rows.len(), 2);
}

#[test]
fn parents_must_exist() {
    let query = ListNamespacesQuery { parent: Some("a\u{1f}b".to_string()), page_token: None, page_size: Some(5) };
    let may = Some(Access::Granted);
    assert!(matches!(list_namespaces(&None, &query, &Found::Unasked), ListStep::AskList));
    assert!(matches!(list_namespaces(&may, &query, &Found::Unasked), ListStep::AskParent(l) if l == texts(&["a", "b"])));
    match list_namespaces(&may, &query, &Found::Missing) {
        ListStep::Refuse(e) => assert_eq!(e.message, "parent namespace \"a.b\" does not exist"),
        other => panic!("{other:?}"),
    }
    match list_namespaces(&may, &query, &Found::Is(())) {
        ListStep::Fetch(levels, Pagination { limit, after_id }) => {
            assert_eq!(levels, texts(&["a", "b"]));
            assert_eq!(limit, Some(5));
            assert_eq!(after_id, None);
        }
        other => panic!("{other:?}"),
    }
    let top = ListNamespacesQuery { parent: Some(String::new()), page_token: None, page_size: None };
    assert!(matches!(list_namespaces(&may, &top, &Found::Unasked), ListStep::Fetch(l, _) if l.is_empty()));
    assert!(matches!(
        list_namespaces(&Some(Access::Forbidden("no".to_string())), &top, &Found::Unasked),
        ListStep::Refuse(e) if e.kind == ErrorKind::Forbidden
    ));
}

#[test]
fn namespaces_are_created_loaded_and_dropped() {
    let good = CreateNamespaceRequest { namespace: texts(&["a"]), properties: TextMap::new() };
    let may = Some(Access::Granted);
    assert!(matches!(create_namespace(&may, &good), Ok(CreateNamespaceStep::Create)));
    let bad = CreateNamespaceRequest { namespace: texts(&["a", ""]), properties: TextMap::new() };
    assert_eq!(create_namespace(&may, &bad).unwrap_err().kind, ErrorKind::BadRequest);
    assert!(matches!(create_namespace(&None, &good), Ok(CreateNamespaceStep::AskCreate)));
    assert!(matches!(load_namespace(&None, "a", &Found::Unasked), Ok(NamespaceStep::AskList)));
    assert!(matches!(load_namespace(&may, "a", &Found::Unasked), Ok(NamespaceStep::AskNamespace(_))));
    assert!(matches!(load_namespace(&may, "a", &Found::Is(())), Ok(NamespaceStep::Open(_))));
    assert_eq!(
        load_namespace(&may, "a\u{1f}b", &Found::Missing).unwrap_err().message,
        "namespace \"a.b\" does not exist"
    );
    assert!(matches!(drop_namespace("a", &None), Ok(NamespaceStep::AskManage(_))));
    assert!(matches!(drop_namespace("a", &Some(Access::Granted)), Ok(NamespaceStep::Open(_))));
    assert!(drop_namespace("a", &Some(Access::Forbidden("no".to_string()))).is_err());
}

#[test]
fn store_failures_of_namespaces_have_their_answers() {
    let conflict = StoreError { kind: StoreKind::Conflict, message: "m".to_string() };
    let missing = StoreError { kind: StoreKind::NotFound, message: "m".to_string() };
    assert_eq!(create_namespace_error(&conflict).kind, ErrorKind::AlreadyExists);
    assert_eq!(drop_namespace_error(&conflict).kind, ErrorKind::NamespaceNotEmpty);
    assert_eq!(update_properties_error(&conflict).kind, ErrorKind::Store(StoreKind::Conflict));
    assert_eq!(drop_namespace_error(&missing).kind, ErrorKind::NoSuchNamespace);
}

#[test]
fn properties_are_not_both_set_and_removed() {
    let mut request = UpdateNamespacePropertiesRequest {
        removals: texts(&["x", "y"]),
        updates: TextMap::new().with("y", "1".to_string()),
    };
    let e = update_namespace_properties("a", &Some(Access::Granted), &request).unwrap_err();
    assert_eq!(e.status(), Some(422));
    assert_eq!(e.message, "property key \"y\" is present in both updates and removals");
    request.removals = texts(&["x"]);
    assert!(matches!(
        update_namespace_properties("a", &Some(Access::Granted), &request),
        Ok(NamespaceStep::Open(l)) if l == texts(&["a"])
    ));
    assert!(matches!(update_namespace_properties("a", &None, &request), Ok(NamespaceStep::AskManage(_))));
}

#[test]
fn texts_are_taken_apart() {
    assert_eq!(split("a,,b", ','), texts(&["a", "", "b"]));
    assert_eq!(trim(" \u{a0}a b\t"), "a b");
    assert!(blank(" \n"));
    assert!(!blank("x"));
    assert_eq!(lowered_ascii("AbÉ"), "abÉ");
    assert_eq!(decimal_i64(-9_223_372_036_854_775_808), "-9223372036854775808");
    assert_eq!(parse_i64("+12"), Some(12));
    assert_eq!(parse_i64("-9223372036854775809"), None);
    assert_eq!(split_once("a::b::c", "::"), Some(("a", "b::c")));
    assert_eq!(before_last("a/b/c", "/"), Some("a/b"));
}

#[test]
fn texts_and_paths_are_ordered() {
    assert!(before("a", "b"));
    assert!(before("a", "ab"));
    assert!(!before("b", "ab"));
    assert!(comes_before(&texts(&["a"]), &texts(&["a", "b"])));
    assert_eq!(
        sorted_paths(vec![texts(&["b"]), texts(&["a", "b"]), texts(&["a"]), texts(&["b"])]),
        vec![texts(&["a"]), texts(&["a", "b"]), texts(&["b"])]
    );
    assert_eq!(sorted_distinct(&texts(&["b", "a", "b"])), texts(&["a", "b"]));
}

#[test]
fn maps_keep_their_keys_in_order() {
    let map = TextMap::new().with("b", 2).with("a", 1).with("b", 3);
    assert_eq!(map.len(), 2);
    assert_eq!(keys(&map), texts(&["a", "b"]));
    assert_eq!(map.get("b"), Some(&3));
    assert_eq!(map.without("a").get("a"), None);
}

#[test]
fn limits_are_held_between_bounds() {
    assert_eq!(clamp(None, 50, 1, 200), 50);
    assert_eq!(clamp(Some(0), 50, 1, 200), 1);
    assert_eq!(clamp(Some(201), 50, 1, 200), 200);
    assert!(is_full(2, 2));
    assert!(!is_full(1, 2));
    assert!(!is_full(0, -1));
}
