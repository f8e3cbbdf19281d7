use expressing::auth::Claims;
use expressing::engine::{
    accept_order, add_rating, build_line_item, cancel_order, create_order, get_delivery,
    get_order_for_customer, get_order_for_restaurant, resolve_contact, restaurant_update_status,
    update_location, update_status, CreateOrderRequest,
};
use expressing::errors::ApiError;
use expressing::order::{DeliveryLocation, LineItem};
use expressing::reaper::reaper_tick;
use expressing::status::Status;
use expressing::store::OrderStore;

fn claims(sub: &str, role: &str) -> Claims {
    Claims {
        sub: sub.to_string(),
        email: format!("{}@example.com", sub),
        role: role.to_string(),
        exp: 9_999_999_999,
        restaurant_id: None,
    }
}

fn item(id: &str, name: &str, qty: i64, price: i64) -> LineItem {
    LineItem {
        menu_item_id: id.to_string(),
        name: name.to_string(),
        size: "regular".to_string(),
        spiciness: "mild".to_string(),
        add_drink: false,
        quantity: qty,
        price,
    }
}

fn request(items: Vec<LineItem>, fee: i64, total: i64) -> CreateOrderRequest {
    CreateOrderRequest {
        restaurant_id: "shop-1".to_string(),
        restaurant_name: "Shop One".to_string(),
        items,
        location: DeliveryLocation { name: "Dorm 5".to_string(), lat_micro: None, lng_micro: None },
        delivery_fee: fee,
        total_amount: total,
        notes: None,
        requested_time: None,
    }
}

fn seeded_store() -> OrderStore {
    let mut store = OrderStore::new();
    let a = claims("cust-a", "customer");
    let req = request(vec![item("m1", "Burger", 1, 180), item("m2", "Fries", 2, 85)], 30, 350);
    let created =
        create_order(&mut store, &a, req, "ord-1".to_string(), "ABC123".to_string(), 1_000).unwrap();
    assert_eq!(created.id, "ord-1");
    assert_eq!(created.status, Status::Available);
    assert_eq!(created.eta_minutes, 20);
    store
}

#[test]
fn full_lifecycle_scenario() {
    // create as customer A, accept as deliverer B, lose the race as C,
    // reject the skip-ahead, walk to delivered, then cancel conflicts.
    let mut store = seeded_store();
    let a = claims("cust-a", "customer");
    let b = claims("rider-b", "deliverer");
    let c = claims("rider-c", "deliverer");

    let v = accept_order(&mut store, &b, "ord-1", "Bee".to_string(), "555-1".to_string(), 2_000)
        .unwrap();
    assert_eq!(v.status, Status::Assigned);
    assert_eq!(v.deliverer_id.as_deref(), Some("rider-b"));

    let lost = accept_order(&mut store, &c, "ord-1", "Cee".to_string(), "555-2".to_string(), 2_100);
    assert_eq!(lost.unwrap_err(), ApiError::Conflict);
    let still = get_delivery(&store, &b, "ord-1").unwrap();
    assert_eq!(still.deliverer_id.as_deref(), Some("rider-b"));

    // skipping en_route_to_pickup is an illegal transition
    let skip = update_status(&mut store, &b, "ord-1", Status::PickedUp, 3_000);
    assert_eq!(skip.unwrap_err(), ApiError::Conflict);

    for (st, ts) in [
        (Status::EnRouteToPickup, 3_100),
        (Status::PickedUp, 3_200),
        (Status::Delivering, 3_300),
        (Status::Delivered, 3_400),
    ] {
        let dv = update_status(&mut store, &b, "ord-1", st, ts).unwrap();
        assert_eq!(dv.status, st);
    }

    let view = get_order_for_customer(&store, &a, "ord-1").unwrap();
    assert_eq!(view.status, Status::Delivered);
    // the initial available entry plus one entry per transition
    assert_eq!(view.history.len(), 6);
    assert_eq!(view.history.last().unwrap().status, Status::Delivered);

    // cancel after delivery conflicts
    let cancel = cancel_order(&mut store, &a, "ord-1", 4_000);
    assert_eq!(cancel.unwrap_err(), ApiError::Conflict);
}

#[test]
fn status_always_matches_last_history_entry() {
    let mut store = seeded_store();
    let b = claims("rider-b", "deliverer");
    let a = claims("cust-a", "customer");

    let check = |store: &OrderStore, expected: Status| {
        let v = get_order_for_customer(store, &claims("cust-a", "customer"), "ord-1").unwrap();
        assert_eq!(v.status, expected);
        assert_eq!(v.history.last().unwrap().status, expected);
    };
    check(&store, Status::Available);
    accept_order(&mut store, &b, "ord-1", "Bee".to_string(), "555".to_string(), 2_000).unwrap();
    check(&store, Status::Assigned);
    cancel_order(&mut store, &a, "ord-1", 3_000).unwrap();
    check(&store, Status::Cancelled);
}

#[test]
fn accept_requires_deliverer_role_and_other_customer() {
    let mut store = seeded_store();
    // the order's own customer cannot take it, even with deliverer role
    let own = claims("cust-a", "deliverer");
    let r = accept_order(&mut store, &own, "ord-1", "X".to_string(), "Y".to_string(), 2_000);
    assert_eq!(r.unwrap_err(), ApiError::Forbidden);
    // a plain customer is stopped by the role gate
    let cust = claims("rider-b", "customer");
    let r = accept_order(&mut store, &cust, "ord-1", "X".to_string(), "Y".to_string(), 2_000);
    assert_eq!(r.unwrap_err(), ApiError::Forbidden);
    // an unknown id is not found
    let b = claims("rider-b", "deliverer");
    let r = accept_order(&mut store, &b, "nope", "X".to_string(), "Y".to_string(), 2_000);
    assert_eq!(r.unwrap_err(), ApiError::NotFound);
}

#[test]
fn invalid_transitions_leave_order_unmodified() {
    let mut store = seeded_store();
    let b = claims("rider-b", "deliverer");
    accept_order(&mut store, &b, "ord-1", "Bee".to_string(), "555".to_string(), 2_000).unwrap();
    let before = get_delivery(&store, &b, "ord-1").unwrap();

    for bad in [Status::Available, Status::PickedUp, Status::Delivering, Status::Delivered] {
        let r = update_status(&mut store, &b, "ord-1", bad, 3_000);
        assert_eq!(r.unwrap_err(), ApiError::Conflict);
        let after = get_delivery(&store, &b, "ord-1").unwrap();
        assert_eq!(after, before);
    }
}

#[test]
fn only_the_assigned_deliverer_may_move_the_order() {
    let mut store = seeded_store();
    let b = claims("rider-b", "deliverer");
    let c = claims("rider-c", "deliverer");
    accept_order(&mut store, &b, "ord-1", "Bee".to_string(), "555".to_string(), 2_000).unwrap();

    let r = update_status(&mut store, &c, "ord-1", Status::EnRouteToPickup, 3_000);
    assert_eq!(r.unwrap_err(), ApiError::Forbidden);

    // a customer can never drive the deliverer flow
    let cust = claims("cust-x", "customer");
    let r = update_status(&mut store, &cust, "ord-1", Status::EnRouteToPickup, 3_000);
    assert_eq!(r.unwrap_err(), ApiError::Forbidden);
}

#[test]
fn customers_cancel_only_their_own_orders() {
    let mut store = seeded_store();
    let other = claims("cust-z", "customer");
    let r = cancel_order(&mut store, &other, "ord-1", 2_000);
    assert_eq!(r.unwrap_err(), ApiError::Forbidden);
    let a = claims("cust-a", "customer");
    assert_eq!(cancel_order(&mut store, &a, "ord-1", 2_000).unwrap(), Status::Cancelled);
    // cancelling again conflicts: the order is terminal
    let r = cancel_order(&mut store, &a, "ord-1", 2_500);
    assert_eq!(r.unwrap_err(), ApiError::Conflict);
}

#[test]
fn reaper_cancels_only_stale_non_terminal_orders() {
    let mut store = OrderStore::new();
    let a = claims("cust-a", "customer");
    let hour = 3_600_000i64;
    let now = 10 * hour;
    // stale available order
    create_order(&mut store, &a, request(vec![item("m1", "Burger", 1, 100)], 10, 110),
        "stale".to_string(), "S".to_string(), now - 2 * hour).unwrap();
    // fresh available order
    create_order(&mut store, &a, request(vec![item("m1", "Burger", 1, 100)], 10, 110),
        "fresh".to_string(), "F".to_string(), now - hour / 2).unwrap();
    // stale but already delivered order
    create_order(&mut store, &a, request(vec![item("m1", "Burger", 1, 100)], 10, 110),
        "done".to_string(), "D".to_string(), now - 3 * hour).unwrap();
    let b = claims("rider-b", "deliverer");
    accept_order(&mut store, &b, "done", "Bee".to_string(), "5".to_string(), now - 2 * hour)
        .unwrap();
    for st in [Status::EnRouteToPickup, Status::PickedUp, Status::Delivering, Status::Delivered] {
        update_status(&mut store, &b, "done", st, now - hour).unwrap();
    }

    let count = reaper_tick(&mut store, now, hour);
    assert_eq!(count, 1);

    let stale = get_order_for_customer(&store, &a, "stale").unwrap();
    assert_eq!(stale.status, Status::Cancelled);
    assert_eq!(stale.history.len(), 2);
    assert_eq!(stale.history.last().unwrap().status, Status::Cancelled);
    assert_eq!(stale.history.last().unwrap().timestamp, now);

    let fresh = get_order_for_customer(&store, &a, "fresh").unwrap();
    assert_eq!(fresh.status, Status::Available);
    assert_eq!(fresh.history.len(), 1);

    let done = get_order_for_customer(&store, &a, "done").unwrap();
    assert_eq!(done.status, Status::Delivered);
    assert_eq!(done.history.len(), 6);

    // a second tick is a no-op: the stale order is now terminal
    let count = reaper_tick(&mut store, now, hour);
    assert_eq!(count, 0);
}

#[test]
fn create_and_read_back_items_round_trip() {
    let mut store = OrderStore::new();
    let a = claims("cust-a", "customer");
    let items = vec![
        item("m1", "Burger", 1, 180),
        item("m2", "Fries", 2, 85),
        item("m3", "Cola", 3, 25),
    ];
    let req = request(items.clone(), 30, 350);
    create_order(&mut store, &a, req, "ord-rt".to_string(), "RT".to_string(), 5_000).unwrap();
    let v = get_order_for_customer(&store, &a, "ord-rt").unwrap();
    assert_eq!(v.items.len(), items.len());
    for (got, want) in v.items.iter().zip(items.iter()) {
        assert_eq!(got.name, want.name);
        assert_eq!(got.size, want.size);
        assert_eq!(got.spiciness, want.spiciness);
        assert_eq!(got.quantity, want.quantity);
        assert_eq!(got.price, want.price);
        assert_eq!(got.menu_item_id, want.menu_item_id);
    }
}

#[test]
fn create_order_validation() {
    let mut store = OrderStore::new();
    let a = claims("cust-a", "customer");
    let r = create_order(&mut store, &a, request(vec![], 10, 10), "x".to_string(),
        "X".to_string(), 0);
    assert_eq!(r.unwrap_err(), ApiError::Validation);
    let r = create_order(&mut store, &a, request(vec![item("m", "N", 1, 5)], -1, 10),
        "x".to_string(), "X".to_string(), 0);
    assert_eq!(r.unwrap_err(), ApiError::Validation);
    let r = create_order(&mut store, &a, request(vec![item("m", "N", -2, 5)], 1, 10),
        "x".to_string(), "X".to_string(), 0);
    assert_eq!(r.unwrap_err(), ApiError::Validation);
    // the restaurant is a required party: an unnamed restaurant is malformed
    let mut nameless = request(vec![item("m", "N", 1, 5)], 1, 10);
    nameless.restaurant_id = String::new();
    let r = create_order(&mut store, &a, nameless, "x".to_string(), "X".to_string(), 0);
    assert_eq!(r.unwrap_err(), ApiError::Validation);
    let rest = claims("shop", "restaurant");
    let r = create_order(&mut store, &rest, request(vec![item("m", "N", 1, 5)], 1, 10),
        "x".to_string(), "X".to_string(), 0);
    assert_eq!(r.unwrap_err(), ApiError::Forbidden);
}

#[test]
fn rating_only_after_delivery_by_the_owner() {
    let mut store = seeded_store();
    let a = claims("cust-a", "customer");
    let r = add_rating(&mut store, &a, "ord-1", 5, None);
    assert_eq!(r.unwrap_err(), ApiError::Conflict);

    let b = claims("rider-b", "deliverer");
    accept_order(&mut store, &b, "ord-1", "Bee".to_string(), "5".to_string(), 2_000).unwrap();
    for st in [Status::EnRouteToPickup, Status::PickedUp, Status::Delivering, Status::Delivered] {
        update_status(&mut store, &b, "ord-1", st, 3_000).unwrap();
    }
    let other = claims("cust-z", "customer");
    assert_eq!(add_rating(&mut store, &other, "ord-1", 5, None).unwrap_err(), ApiError::Forbidden);
    add_rating(&mut store, &a, "ord-1", 5, Some("great".to_string())).unwrap();
    let v = get_order_for_customer(&store, &a, "ord-1").unwrap();
    let rating = v.rating.unwrap();
    assert_eq!(rating.score, 5);
    assert_eq!(rating.comment.as_deref(), Some("great"));
}

#[test]
fn restaurant_status_updates() {
    let mut store = seeded_store();
    let shop = Claims {
        sub: "shop-1".to_string(),
        email: "shop@example.com".to_string(),
        role: "restaurant".to_string(),
        exp: 9_999_999_999,
        restaurant_id: Some("shop-1".to_string()),
    };
    // the delivery path is not the restaurant's to drive: neither
    // assignment nor any courier-progress step
    for st in [
        Status::Assigned,
        Status::EnRouteToPickup,
        Status::PickedUp,
        Status::Delivering,
        Status::Delivered,
    ] {
        let r = restaurant_update_status(&mut store, &shop, "ord-1", st, 2_000);
        assert_eq!(r.unwrap_err(), ApiError::Conflict);
    }
    // but it may cancel a non-terminal order
    let st = restaurant_update_status(&mut store, &shop, "ord-1", Status::Cancelled, 2_000).unwrap();
    assert_eq!(st, Status::Cancelled);
    // once terminal, everything conflicts
    let r = restaurant_update_status(&mut store, &shop, "ord-1", Status::Cancelled, 2_100);
    assert_eq!(r.unwrap_err(), ApiError::Conflict);
}

#[test]
fn restaurant_ownership_checks() {
    let mut store = seeded_store();
    let other_shop = claims("shop-9", "restaurant");
    let r = restaurant_update_status(&mut store, &other_shop, "ord-1", Status::Cancelled, 2_000);
    assert_eq!(r.unwrap_err(), ApiError::Forbidden);
    assert_eq!(
        get_order_for_restaurant(&store, &other_shop, "ord-1").unwrap_err(),
        ApiError::Forbidden
    );
    let shop = claims("shop-1", "restaurant");
    let v = get_order_for_restaurant(&store, &shop, "ord-1").unwrap();
    assert_eq!(v.id, "ord-1");
    assert_eq!(v.items.len(), 2);
}

#[test]
fn courier_location_updates() {
    let mut store = seeded_store();
    let b = claims("rider-b", "deliverer");
    let r = update_location(&mut store, &b, "ord-1", None, Some(2), 2_000);
    assert_eq!(r.unwrap_err(), ApiError::Validation);
    update_location(&mut store, &b, "ord-1", Some(25_042_000), Some(121_614_000), 2_000).unwrap();
    accept_order(&mut store, &b, "ord-1", "Bee".to_string(), "5".to_string(), 2_100).unwrap();
    // another deliverer may not move the courier position of a held order
    let c = claims("rider-c", "deliverer");
    let r = update_location(&mut store, &c, "ord-1", Some(1), Some(2), 2_200);
    assert_eq!(r.unwrap_err(), ApiError::Forbidden);
}

#[test]
fn delivery_read_is_ownership_scoped() {
    let mut store = seeded_store();
    let b = claims("rider-b", "deliverer");
    let c = claims("rider-c", "deliverer");
    // while available, any deliverer may look
    assert!(get_delivery(&store, &c, "ord-1").is_ok());
    accept_order(&mut store, &b, "ord-1", "Bee".to_string(), "5".to_string(), 2_000).unwrap();
    // once taken, only the assignee
    assert_eq!(get_delivery(&store, &c, "ord-1").unwrap_err(), ApiError::Forbidden);
    let v = get_delivery(&store, &b, "ord-1").unwrap();
    assert_eq!(v.merchant_name, "Shop One");
    assert_eq!(v.fee, 30);
    assert_eq!(v.eta_minutes, 20);
    assert!(v.can_pickup);
}

#[test]
fn line_items_snapshot_the_menu() {
    let it = build_line_item(
        "m1".to_string(),
        "large".to_string(),
        "hot".to_string(),
        true,
        2,
        "Burger".to_string(),
        180,
        true,
    )
    .unwrap();
    assert_eq!(it.name, "Burger");
    assert_eq!(it.price, 180);
    assert_eq!(it.quantity, 2);
    assert!(it.add_drink);
    let r = build_line_item(
        "m1".to_string(),
        "large".to_string(),
        "hot".to_string(),
        false,
        1,
        "Burger".to_string(),
        180,
        false,
    );
    assert_eq!(r.unwrap_err(), ApiError::Validation);
}

#[test]
fn contact_resolution_prefers_supplied_values() {
    let c = resolve_contact(
        Some("Bee".to_string()),
        None,
        "Profile".to_string(),
        "555-0000".to_string(),
    );
    assert_eq!(c.name, "Bee");
    assert_eq!(c.phone, "555-0000");
    let c = resolve_contact(
        Some("".to_string()),
        Some("777".to_string()),
        "Profile".to_string(),
        "555-0000".to_string(),
    );
    assert_eq!(c.name, "Profile");
    assert_eq!(c.phone, "777");
}
