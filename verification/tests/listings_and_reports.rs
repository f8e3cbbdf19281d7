use expressing::auth::Claims;
use expressing::earnings::list_earnings;
use expressing::engine::{accept_order, create_order, update_status, CreateOrderRequest};
use expressing::errors::ApiError;
use expressing::listings::{
    list_active, list_available, list_history, list_orders_for_customer, list_orders_for_restaurant,
};
use expressing::order::{DeliveryLocation, LineItem};
use expressing::reports::reports;
use expressing::status::Status;
use expressing::store::OrderStore;

fn claims(sub: &str, role: &str) -> Claims {
    Claims {
        sub: sub.to_string(),
        email: format!("{}@example.com", sub),
        role: role.to_string(),
        exp: 9_999_999_999,
        restaurant_id: None,
    }
}

fn item(id: &str, name: &str, qty: i64, price: i64) -> LineItem {
    LineItem {
        menu_item_id: id.to_string(),
        name: name.to_string(),
        size: "regular".to_string(),
        spiciness: "mild".to_string(),
        add_drink: false,
        quantity: qty,
        price,
    }
}

fn request(shop: &str, items: Vec<LineItem>, fee: i64, total: i64) -> CreateOrderRequest {
    CreateOrderRequest {
        restaurant_id: shop.to_string(),
        restaurant_name: format!("Shop {}", shop),
        items,
        location: DeliveryLocation { name: "Dorm".to_string(), lat_micro: None, lng_micro: None },
        delivery_fee: fee,
        total_amount: total,
        notes: None,
        requested_time: None,
    }
}

const DAY: i64 = 86_400_000;

/// Three orders of customer A at shop-1, one of customer D at shop-2.
/// `o1` is delivered by B on day 0, `o2` delivered by B on day 1,
/// `o3` stays available, `o4` is accepted by B and still in flight.
fn seeded() -> OrderStore {
    let mut store = OrderStore::new();
    let a = claims("cust-a", "customer");
    let d = claims("cust-d", "customer");
    let b = claims("rider-b", "deliverer");
    create_order(&mut store, &a, request("shop-1", vec![item("m1", "Burger", 2, 100)], 30, 230),
        "o1".to_string(), "C1".to_string(), 10_000).unwrap();
    create_order(&mut store, &a, request("shop-1", vec![item("m2", "Fries", 1, 60)], 20, 80),
        "o2".to_string(), "C2".to_string(), DAY + 10_000).unwrap();
    create_order(&mut store, &a, request("shop-1", vec![item("m1", "Burger", 1, 100)], 25, 125),
        "o3".to_string(), "C3".to_string(), DAY + 20_000).unwrap();
    create_order(&mut store, &d, request("shop-2", vec![item("m9", "Pad Thai", 1, 150)], 35, 185),
        "o4".to_string(), "C4".to_string(), DAY + 30_000).unwrap();

    for id in ["o1", "o2"] {
        accept_order(&mut store, &b, id, "Bee".to_string(), "5".to_string(), DAY + 40_000).unwrap();
        for st in
            [Status::EnRouteToPickup, Status::PickedUp, Status::Delivering, Status::Delivered]
        {
            update_status(&mut store, &b, id, st, DAY + 50_000).unwrap();
        }
    }
    accept_order(&mut store, &b, "o4", "Bee".to_string(), "5".to_string(), DAY + 60_000).unwrap();
    store
}

#[test]
fn available_listing_excludes_own_and_taken_orders() {
    let store = seeded();
    let b = claims("rider-b", "deliverer");
    let avail = list_available(&store, &b).unwrap();
    assert_eq!(avail.len(), 1);
    assert_eq!(avail[0].id, "o3");
    // the customer who placed o3 does not see their own order offered
    let a_as_rider = claims("cust-a", "deliverer");
    let avail = list_available(&store, &a_as_rider).unwrap();
    assert_eq!(avail.len(), 0);
    // wrong role is rejected
    let cust = claims("x", "customer");
    assert_eq!(list_available(&store, &cust).unwrap_err(), ApiError::Forbidden);
}

#[test]
fn active_and_history_listings() {
    let store = seeded();
    let b = claims("rider-b", "deliverer");
    let active = list_active(&store, &b).unwrap();
    assert_eq!(active.len(), 1);
    assert_eq!(active[0].id, "o4");
    assert_eq!(active[0].status, Status::Assigned);

    let hist = list_history(&store, &b, None).unwrap();
    assert_eq!(hist.len(), 2);
    assert_eq!(hist[0].id, "o1");
    assert_eq!(hist[1].id, "o2");

    // restricted to day one only
    let hist = list_history(&store, &b, Some((DAY, 2 * DAY - 1))).unwrap();
    assert_eq!(hist.len(), 1);
    assert_eq!(hist[0].id, "o2");

    let c = claims("rider-c", "deliverer");
    assert_eq!(list_history(&store, &c, None).unwrap().len(), 0);
}

#[test]
fn customer_listing_with_selector() {
    let store = seeded();
    let a = claims("cust-a", "customer");
    let all = list_orders_for_customer(&store, &a, None).unwrap();
    assert_eq!(all.len(), 3);
    let active = list_orders_for_customer(&store, &a, Some("active")).unwrap();
    assert_eq!(active.len(), 1);
    assert_eq!(active[0].id, "o3");
    let hist = list_orders_for_customer(&store, &a, Some("history")).unwrap();
    assert_eq!(hist.len(), 2);
    assert_eq!(hist[0].restaurant_name, "Shop shop-1");
    let d = claims("cust-d", "customer");
    let all = list_orders_for_customer(&store, &d, None).unwrap();
    assert_eq!(all.len(), 1);
    assert_eq!(all[0].id, "o4");
}

#[test]
fn restaurant_listing_is_scoped_to_the_restaurant() {
    let store = seeded();
    let shop = claims("shop-1", "restaurant");
    let all = list_orders_for_restaurant(&store, &shop, None).unwrap();
    assert_eq!(all.len(), 3);
    let hist = list_orders_for_restaurant(&store, &shop, Some("history")).unwrap();
    assert_eq!(hist.len(), 2);
    let shop2 = claims("shop-2", "restaurant");
    let all = list_orders_for_restaurant(&store, &shop2, None).unwrap();
    assert_eq!(all.len(), 1);
    assert_eq!(all[0].id, "o4");
}

#[test]
fn earnings_aggregate_by_day() {
    let store = seeded();
    let b = claims("rider-b", "deliverer");
    let rep = list_earnings(&store, &b, "1970-01-01", "1970-01-05").unwrap();
    assert_eq!(rep.total_tasks, 2);
    assert_eq!(rep.total_earnings, 50);
    assert_eq!(rep.by_day.len(), 2);
    assert_eq!(rep.by_day[0].day, 0);
    assert_eq!(rep.by_day[0].total, 30);
    assert_eq!(rep.by_day[0].count, 1);
    assert_eq!(rep.by_day[1].day, 1);
    assert_eq!(rep.by_day[1].total, 20);
    assert_eq!(rep.by_day[1].count, 1);

    // only day zero
    let rep = list_earnings(&store, &b, "1970-01-01", "1970-01-01").unwrap();
    assert_eq!(rep.total_tasks, 1);
    assert_eq!(rep.total_earnings, 30);

    // bad range
    assert_eq!(
        list_earnings(&store, &b, "1970-01-01", "not-a-date").unwrap_err(),
        ApiError::Validation
    );
    let cust = claims("x", "customer");
    assert_eq!(
        list_earnings(&store, &cust, "1970-01-01", "1970-01-02").unwrap_err(),
        ApiError::Forbidden
    );
}

#[test]
fn sales_report_totals_and_top_items() {
    let store = seeded();
    let shop = claims("shop-1", "restaurant");
    let rep = reports(&store, &shop, "30d", 2 * DAY).unwrap();
    assert_eq!(rep.range_days, 30);
    assert_eq!(rep.order_count, 3);
    assert_eq!(rep.total_revenue, 230 + 80 + 125);
    assert_eq!(rep.top_items.len(), 2);
    // Burger: 2*100 + 1*100 = 300 revenue, 3 units; Fries: 60, 1 unit
    assert_eq!(rep.top_items[0].menu_item_id, "m1");
    assert_eq!(rep.top_items[0].name, "Burger");
    assert_eq!(rep.top_items[0].quantity, 3);
    assert_eq!(rep.top_items[0].revenue, 300);
    assert_eq!(rep.top_items[1].menu_item_id, "m2");
    assert_eq!(rep.top_items[1].revenue, 60);

    // a one-day window from day two sees nothing
    let rep = reports(&store, &shop, "today", 3 * DAY).unwrap();
    assert_eq!(rep.range_days, 1);
    assert_eq!(rep.order_count, 0);
    assert_eq!(rep.total_revenue, 0);
    assert_eq!(rep.top_items.len(), 0);

    let cust = claims("x", "customer");
    assert_eq!(reports(&store, &cust, "30d", 2 * DAY).unwrap_err(), ApiError::Forbidden);
}
