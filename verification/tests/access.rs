//! Roles, grants, securables and error answers.

use meridian_routes::error::{management_error, ApiError, ErrorKind, StoreError, StoreKind};
use meridian_routes::grants::{
    create_grant, create_role, get_permissions, require, resolve_grantee, resolve_role, resolve_securable,
    validate_role_name, Access, CreateGrantRequest, CreateRoleRequest, EffectivePermission, Found, GranteeRef,
    PermissionsQuery, SecurableAsk, SecurableFacts, SecurableSelector, SecurableStep, SecurableType,
};

fn texts(items: &[&str]) -> Vec<String> {
    items.iter().map(|s| s.to_string()).collect()
}

fn selector(kind: &str) -> SecurableSelector {
    SecurableSelector {
        securable_type: kind.to_string(),
        warehouse: Some("wh1".to_string()),
        namespace: Some(texts(&["a"])),
        table: Some("t".to_string()),
        view: None,
        asset: None,
    }
}

fn unasked() -> SecurableFacts {
    SecurableFacts {
        asset: Found::Unasked,
        warehouse: Found::Unasked,
        namespace: Found::Unasked,
        view: Found::Unasked,
        table: Found::Unasked,
    }
}

#[test]
fn only_granted_access_goes_on() {
    assert!(require(&Access::Granted).is_ok());
    let e = require(&Access::Forbidden("not you".to_string())).unwrap_err();
    assert_eq!(e.status(), Some(403));
    assert_eq!(e.message, "not you");
    let failed = Access::Failed(StoreError { kind: StoreKind::Internal, message: "down".to_string() });
    assert_eq!(require(&failed).unwrap_err().kind, ErrorKind::Store(StoreKind::Internal));
}

#[test]
fn statuses_follow_the_kind() {
    let status = |kind| ApiError::new(kind, "m").status();
    assert_eq!(status(ErrorKind::BadRequest), Some(400));
    assert_eq!(status(ErrorKind::NoSuchMirror), Some(404));
    assert_eq!(status(ErrorKind::CommitFailed), Some(409));
    assert_eq!(status(ErrorKind::CommitStateUnknown), Some(500));
    assert_eq!(status(ErrorKind::UnsupportedOperation), Some(406));
    assert_eq!(status(ErrorKind::Store(StoreKind::NotFound)), None);
}

#[test]
fn store_failures_are_mapped_for_the_management_api() {
    let of = |kind| management_error(&StoreError { kind, message: "m".to_string() }).kind;
    assert_eq!(of(StoreKind::NotFound), ErrorKind::NotFound);
    assert_eq!(of(StoreKind::Conflict), ErrorKind::AlreadyExists);
    assert_eq!(of(StoreKind::Validation), ErrorKind::BadRequest);
    assert_eq!(of(StoreKind::Internal), ErrorKind::Store(StoreKind::Internal));
}

#[test]
fn role_names_are_checked() {
    assert!(validate_role_name("readers").is_ok());
    assert_eq!(validate_role_name("").unwrap_err().message, "role name must be 1–100 characters");
    assert!(validate_role_name(&"r".repeat(100)).is_ok());
    assert!(validate_role_name(&"r".repeat(101)).is_err());
    assert!(validate_role_name("a\u{7f}").is_err());
    assert!(validate_role_name(&"é".repeat(100)).is_ok());
    assert!(validate_role_name(&"é".repeat(101)).is_err());
    let request = CreateRoleRequest { name: "r".to_string(), description: None };
    assert!(create_role(&Access::Granted, &request).is_ok());
    assert_eq!(resolve_role("r", Some("01R".to_string())).unwrap(), "01R");
    assert!(resolve_role("r", None).is_err());
}

#[test]
fn securables_are_resolved_from_the_outside_in() {
    let mut facts = unasked();
    assert!(matches!(
        resolve_securable(&selector("table"), &facts),
        SecurableStep::Ask(SecurableAsk::Warehouse)
    ));
    facts.warehouse = Found::Is("01W".to_string());
    assert!(matches!(
        resolve_securable(&selector("table"), &facts),
        SecurableStep::Ask(SecurableAsk::Namespace)
    ));
    facts.namespace = Found::Is("01N".to_string());
    assert!(matches!(resolve_securable(&selector("table"), &facts), SecurableStep::Ask(SecurableAsk::Table)));
    facts.table = Found::Is("01T".to_string());
    assert!(matches!(
        resolve_securable(&selector("table"), &facts),
        SecurableStep::Done(SecurableType::Table, id) if id == "01T"
    ));
    assert!(matches!(
        resolve_securable(&selector("warehouse"), &facts),
        SecurableStep::Done(SecurableType::Warehouse, id) if id == "01W"
    ));
    assert!(matches!(resolve_securable(&selector("planet"), &facts), SecurableStep::Refuse(_)));
}

fn grant(role: Option<&str>, principal: Option<&str>) -> CreateGrantRequest {
    CreateGrantRequest {
        privilege: "READ".to_string(),
        role: role.map(|s| s.to_string()),
        principal_id: principal.map(|s| s.to_string()),
        securable: selector("table"),
    }
}

#[test]
fn grants_go_to_a_role_or_to_a_principal() {
    assert!(matches!(resolve_grantee(&grant(Some("r"), None)), Ok(GranteeRef::Role(r)) if r == "r"));
    assert!(matches!(resolve_grantee(&grant(None, Some("p"))), Ok(GranteeRef::Principal(p)) if p == "p"));
    assert!(resolve_grantee(&grant(None, None)).is_err());
    assert!(resolve_grantee(&grant(Some("r"), Some("p"))).is_err());
    let known = texts(&["READ", "WRITE"]);
    assert!(create_grant(&Access::Granted, &grant(Some("r"), None), &known).is_ok());
    assert!(create_grant(&Access::Granted, &grant(Some("r"), None), &texts(&["WRITE"])).is_err());
}

#[test]
fn permissions_say_where_they_come_from() {
    let permission = |via: Option<&str>| EffectivePermission {
        privilege: "READ".to_string(),
        securable_type: "table".to_string(),
        securable_id: "01T".to_string(),
        via_role: via.map(|s| s.to_string()),
    };
    let shown = get_permissions(
        &Access::Granted,
        PermissionsQuery { principal: "01P".to_string() },
        texts(&["readers"]),
        vec![permission(Some("readers")), permission(None)],
    )
    .unwrap();
    assert_eq!(shown.principal_id, "01P");
    assert_eq!(shown.permissions[0].via, "role:readers");
    assert_eq!(shown.permissions[1].via, "direct");
}
