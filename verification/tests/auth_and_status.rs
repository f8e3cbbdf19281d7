use expressing::auth::{
    bearer_token, claims_expired, has_role, issue_claims, require_role, resolve_restaurant_scope,
    Claims,
};
use expressing::errors::ApiError;
use expressing::status::{can_transition, Status};

#[test]
fn bearer_token_extraction() {
    assert_eq!(bearer_token("Bearer abc.def").as_deref(), Some("abc.def"));
    assert_eq!(bearer_token("Bearer ").as_deref(), Some(""));
    assert_eq!(bearer_token("bearer abc"), None);
    assert_eq!(bearer_token("Basic abc"), None);
    assert_eq!(bearer_token(""), None);
    assert_eq!(bearer_token("Bearer"), None);
}

#[test]
fn roles_compare_case_insensitively() {
    let c = Claims {
        sub: "u1".to_string(),
        email: "u1@example.com".to_string(),
        role: "Deliverer".to_string(),
        exp: 100,
        restaurant_id: None,
    };
    assert!(has_role(&c, "deliverer"));
    assert!(has_role(&c, "DELIVERER"));
    assert!(!has_role(&c, "customer"));
    assert!(require_role(&c, &["customer", "deliverer"]).is_ok());
    assert_eq!(require_role(&c, &["customer"]).unwrap_err(), ApiError::Forbidden);
    assert_eq!(require_role(&c, &[]).unwrap_err(), ApiError::Forbidden);
}

#[test]
fn issued_claims_carry_the_exact_expiry() {
    let c = issue_claims(
        "u1".to_string(),
        "u1@example.com".to_string(),
        "customer".to_string(),
        Some("shop-1".to_string()),
        1_700_000_000,
        24,
    );
    assert_eq!(c.exp, 1_700_000_000 + 24 * 3600);
    assert_eq!(c.sub, "u1");
    assert_eq!(c.restaurant_id.as_deref(), Some("shop-1"));
    assert!(!claims_expired(&c, 1_700_000_000));
    assert!(!claims_expired(&c, c.exp - 1));
    assert!(claims_expired(&c, c.exp));
    assert!(claims_expired(&c, c.exp + 1));
}

#[test]
fn transition_table_exact() {
    let all = [
        Status::Available,
        Status::Assigned,
        Status::EnRouteToPickup,
        Status::PickedUp,
        Status::Delivering,
        Status::Delivered,
        Status::Cancelled,
    ];
    let allowed = [
        (Status::Available, Status::Assigned),
        (Status::Assigned, Status::EnRouteToPickup),
        (Status::EnRouteToPickup, Status::PickedUp),
        (Status::PickedUp, Status::Delivering),
        (Status::Delivering, Status::Delivered),
    ];
    for &from in &all {
        for &to in &all {
            let expect = allowed.contains(&(from, to))
                || (to == Status::Cancelled && !matches!(from, Status::Delivered | Status::Cancelled));
            assert_eq!(from.can_transition_to(to), expect, "{:?} -> {:?}", from, to);
        }
    }
}

#[test]
fn string_level_transition_check() {
    assert!(can_transition("available", "assigned"));
    assert!(can_transition("assigned", "en_route_to_pickup"));
    assert!(can_transition("en_route_to_pickup", "picked_up"));
    assert!(can_transition("picked_up", "delivering"));
    assert!(can_transition("delivering", "delivered"));
    assert!(can_transition("available", "cancelled"));
    assert!(can_transition("delivering", "cancelled"));
    // an unknown current status may still be cancelled (lenient cancel)
    assert!(can_transition("mystery", "cancelled"));
    // but terminal states stay terminal
    assert!(!can_transition("delivered", "cancelled"));
    assert!(!can_transition("cancelled", "cancelled"));
    assert!(!can_transition("available", "picked_up"));
    assert!(!can_transition("available", "mystery"));
    assert!(!can_transition("delivered", "available"));
}

#[test]
fn status_names_round_trip() {
    for st in [
        Status::Available,
        Status::Assigned,
        Status::EnRouteToPickup,
        Status::PickedUp,
        Status::Delivering,
        Status::Delivered,
        Status::Cancelled,
    ] {
        assert_eq!(Status::parse(st.as_str()), Some(st));
    }
    assert_eq!(Status::parse("unknown"), None);
    assert_eq!(Status::parse(""), None);
}

#[test]
fn restaurant_scope_fallback_chain() {
    let scope = resolve_restaurant_scope(
        "Restaurant",
        Some("rest-7".to_string()),
        Some("shop-7".to_string()),
        "user-7".to_string(),
    );
    assert_eq!(scope.as_deref(), Some("rest-7"));
    let scope = resolve_restaurant_scope(
        "restaurant",
        None,
        Some("shop-7".to_string()),
        "user-7".to_string(),
    );
    assert_eq!(scope.as_deref(), Some("shop-7"));
    let scope = resolve_restaurant_scope("restaurant", None, None, "user-7".to_string());
    assert_eq!(scope.as_deref(), Some("user-7"));
    // non-restaurant subjects carry no scope
    let scope = resolve_restaurant_scope(
        "customer",
        Some("rest-7".to_string()),
        None,
        "user-7".to_string(),
    );
    assert_eq!(scope, None);
}

#[test]
fn error_wire_mapping() {
    assert_eq!(ApiError::Unauthenticated.http_status(), 401);
    assert_eq!(ApiError::Forbidden.http_status(), 403);
    assert_eq!(ApiError::NotFound.http_status(), 404);
    assert_eq!(ApiError::Conflict.http_status(), 409);
    assert_eq!(ApiError::Validation.http_status(), 400);
    assert_eq!(ApiError::Internal.http_status(), 500);
    assert_eq!(ApiError::Forbidden.code(), "auth.forbidden");
    assert_eq!(ApiError::NotFound.code(), "order.not_found");
    assert_eq!(ApiError::Conflict.code(), "order.conflict");
    assert_eq!(ApiError::Unauthenticated.code(), "auth.invalid");
    assert_eq!(ApiError::Validation.code(), "validation.failed");
    assert_eq!(ApiError::Internal.code(), "server.error");
}
