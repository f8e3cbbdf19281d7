//! Filtered, role-scoped order listings: the open marketplace list,
//! the deliverer's active and historical tasks, and the customer and
//! restaurant listings with their active/history selector. Each result
//! is exactly the store filtered by the documented predicate, in
//! stored order, projected to the caller's view.

use vstd::prelude::*;
use crate::auth::{has_role, Claims, ClaimsModel};
use crate::errors::ApiError;
use crate::order::{Order, OrderModel};
use crate::seqext::{lemma_filter_push, lemma_map_values_push, lemma_subrange_all, lemma_subrange_push};
use crate::status::Status;
use crate::store::OrderStore;
use crate::strutil::{opt_str_view, str_eq};
use crate::views::{
    customer_summary, delivery_view, restaurant_view, spec_customer_summary, spec_delivery_view,
    spec_restaurant_view, CustomerOrderSummary, CustomerOrderSummaryModel, DeliveryView,
    DeliveryViewModel, RestaurantOrderView, RestaurantOrderViewModel,
};

verus! {

/// The status subset a listing request asks for.
#[derive(Clone, Copy, Debug, PartialEq, Eq, Structural)]
pub enum StatusFilter {
    /// The non-terminal statuses.
    Active,
    /// The terminal statuses.
    History,
    /// No status restriction.
    All,
}

/// The filter a selector string names: `active`, `history`, or
/// everything for anything else.
pub open spec fn spec_selector(sel: Option<Seq<char>>) -> StatusFilter {
    if sel == Some("history"@) {
        StatusFilter::History
    } else if sel == Some("active"@) {
        StatusFilter::Active
    } else {
        StatusFilter::All
    }
}

pub open spec fn filter_admits(f: StatusFilter, st: Status) -> bool {
    match f {
        StatusFilter::Active => !st.spec_is_terminal(),
        StatusFilter::History => st.spec_is_terminal(),
        StatusFilter::All => true,
    }
}

pub fn parse_selector(sel: Option<&str>) -> (r: StatusFilter)
    ensures
        r == spec_selector(opt_str_view(sel)),
{
    match sel {
        Some(s) => {
            if str_eq(s, "history") {
                StatusFilter::History
            } else if str_eq(s, "active") {
                StatusFilter::Active
            } else {
                StatusFilter::All
            }
        },
        None => StatusFilter::All,
    }
}

fn admits(f: StatusFilter, st: Status) -> (r: bool)
    ensures
        r == filter_admits(f, st),
{
    match f {
        StatusFilter::Active => !st.is_terminal(),
        StatusFilter::History => st.is_terminal(),
        StatusFilter::All => true,
    }
}

/// An order on the open market for this subject: still `available`,
/// and not their own order.
pub open spec fn available_pred(sub: Seq<char>) -> spec_fn(OrderModel) -> bool {
    |m: OrderModel| m.status == Status::Available && m.customer_id != sub
}

/// The statuses of a delivery task in flight.
pub open spec fn is_in_delivery(st: Status) -> bool {
    st == Status::Assigned || st == Status::EnRouteToPickup || st == Status::PickedUp || st
        == Status::Delivering
}

/// A task this deliverer currently holds.
pub open spec fn active_pred(sub: Seq<char>) -> spec_fn(OrderModel) -> bool {
    |m: OrderModel| m.deliverer_id == Some(sub) && m.customer_id != sub && is_in_delivery(m.status)
}

pub open spec fn in_range(ts: i64, range: Option<(i64, i64)>) -> bool {
    match range {
        Some((a, b)) => a <= ts <= b,
        None => true,
    }
}

/// A finished task of this deliverer, optionally restricted to a
/// placed-at range.
pub open spec fn history_pred(sub: Seq<char>, range: Option<(i64, i64)>) -> spec_fn(
    OrderModel,
) -> bool {
    |m: OrderModel| m.deliverer_id == Some(sub) && m.customer_id != sub
        && m.status.spec_is_terminal() && in_range(m.placed_at, range)
}

/// An order of this customer in the selected status subset.
pub open spec fn customer_pred(sub: Seq<char>, f: StatusFilter) -> spec_fn(OrderModel) -> bool {
    |m: OrderModel| m.customer_id == sub && filter_admits(f, m.status)
}

/// An order of this restaurant in the selected status subset.
pub open spec fn restaurant_pred(sub: Seq<char>, f: StatusFilter) -> spec_fn(OrderModel) -> bool {
    |m: OrderModel| m.restaurant_id == sub && filter_admits(f, m.status)
}

pub open spec fn delivery_views_of(s: Seq<OrderModel>) -> Seq<DeliveryViewModel> {
    s.map_values(|m: OrderModel| spec_delivery_view(m))
}

pub open spec fn customer_summaries_of(s: Seq<OrderModel>) -> Seq<CustomerOrderSummaryModel> {
    s.map_values(|m: OrderModel| spec_customer_summary(m))
}

pub open spec fn restaurant_views_of(s: Seq<OrderModel>) -> Seq<RestaurantOrderViewModel> {
    s.map_values(|m: OrderModel| spec_restaurant_view(m))
}

/// The open marketplace list for a deliverer: every available order
/// other than their own, in stored order.
pub fn list_available(store: &OrderStore, claims: &Claims) -> (r: Result<Vec<DeliveryView>, ApiError>)
    requires
        store.wf(),
    ensures
        match r {
            Ok(v) => {
                &&& crate::engine::is_deliverer(claims@)
                &&& v@.map_values(|x: DeliveryView| x@) == delivery_views_of(
                    store@.filter(available_pred(claims@.sub)),
                )
            },
            Err(e) => !crate::engine::is_deliverer(claims@) && e == ApiError::Forbidden,
        },
{
    if !has_role(claims, "deliverer") {
        return Err(ApiError::Forbidden);
    }
    let ghost pred = available_pred(claims@.sub);
    let ghost vf = |x: DeliveryView| x@;
    let ghost sv = |m: OrderModel| spec_delivery_view(m);
    let n = store.len();
    let mut out: Vec<DeliveryView> = Vec::new();
    let mut i: usize = 0;
    proof {
        assert(out@.map_values(vf) =~= store@.subrange(0, 0).filter(pred).map_values(sv));
    }
    while i < n
        invariant
            i <= n,
            n == store@.len(),
            store.wf(),
            pred == available_pred(claims@.sub),
            vf == (|x: DeliveryView| x@),
            sv == (|m: OrderModel| spec_delivery_view(m)),
            out@.map_values(vf) == store@.subrange(0, i as int).filter(pred).map_values(sv),
        decreases n - i,
    {
        let o = store.nth(i);
        let keep = matches!(o.status, Status::Available) && !str_eq(
            o.customer_id.as_str(),
            claims.sub.as_str(),
        );
        if keep {
            out.push(delivery_view(o));
        }
        proof {
            lemma_subrange_push(store@, i as int);
            lemma_filter_push(store@.subrange(0, i as int), store@[i as int], pred);
            if pred(store@[i as int]) {
                lemma_map_values_push(
                    store@.subrange(0, i as int).filter(pred),
                    store@[i as int],
                    sv,
                );
                lemma_map_values_push(out@.drop_last(), out@.last(), vf);
                assert(out@.drop_last().push(out@.last()) =~= out@);
            }
        }
        i = i + 1;
    }
    proof {
        lemma_subrange_all(store@);
    }
    Ok(out)
}

/// The deliverer's active tasks: orders they hold, in flight.
pub fn list_active(store: &OrderStore, claims: &Claims) -> (r: Result<Vec<DeliveryView>, ApiError>)
    requires
        store.wf(),
    ensures
        match r {
            Ok(v) => {
                &&& crate::engine::is_deliverer(claims@)
                &&& v@.map_values(|x: DeliveryView| x@) == delivery_views_of(
                    store@.filter(active_pred(claims@.sub)),
                )
            },
            Err(e) => !crate::engine::is_deliverer(claims@) && e == ApiError::Forbidden,
        },
{
    if !has_role(claims, "deliverer") {
        return Err(ApiError::Forbidden);
    }
    let ghost pred = active_pred(claims@.sub);
    let ghost vf = |x: DeliveryView| x@;
    let ghost sv = |m: OrderModel| spec_delivery_view(m);
    let n = store.len();
    let mut out: Vec<DeliveryView> = Vec::new();
    let mut i: usize = 0;
    proof {
        assert(out@.map_values(vf) =~= store@.subrange(0, 0).filter(pred).map_values(sv));
    }
    while i < n
        invariant
            i <= n,
            n == store@.len(),
            store.wf(),
            pred == active_pred(claims@.sub),
            vf == (|x: DeliveryView| x@),
            sv == (|m: OrderModel| spec_delivery_view(m)),
            out@.map_values(vf) == store@.subrange(0, i as int).filter(pred).map_values(sv),
        decreases n - i,
    {
        let o = store.nth(i);
        let mine = match &o.deliverer_id {
            Some(d) => str_eq(d.as_str(), claims.sub.as_str()),
            None => false,
        };
        let in_delivery = matches!(
            o.status,
            Status::Assigned | Status::EnRouteToPickup | Status::PickedUp | Status::Delivering
        );
        let keep = mine && !str_eq(o.customer_id.as_str(), claims.sub.as_str()) && in_delivery;
        if keep {
            out.push(delivery_view(o));
        }
        proof {
            lemma_subrange_push(store@, i as int);
            lemma_filter_push(store@.subrange(0, i as int), store@[i as int], pred);
            if pred(store@[i as int]) {
                lemma_map_values_push(
                    store@.subrange(0, i as int).filter(pred),
                    store@[i as int],
                    sv,
                );
                lemma_map_values_push(out@.drop_last(), out@.last(), vf);
                assert(out@.drop_last().push(out@.last()) =~= out@);
            }
        }
        i = i + 1;
    }
    proof {
        lemma_subrange_all(store@);
    }
    Ok(out)
}

/// The deliverer's finished tasks, optionally restricted to a
/// placed-at range (both bounds in epoch milliseconds, inclusive).
pub fn list_history(store: &OrderStore, claims: &Claims, range: Option<(i64, i64)>) -> (r: Result<
    Vec<DeliveryView>,
    ApiError,
>)
    requires
        store.wf(),
    ensures
        match r {
            Ok(v) => {
                &&& crate::engine::is_deliverer(claims@)
                &&& v@.map_values(|x: DeliveryView| x@) == delivery_views_of(
                    store@.filter(history_pred(claims@.sub, range)),
                )
            },
            Err(e) => !crate::engine::is_deliverer(claims@) && e == ApiError::Forbidden,
        },
{
    if !has_role(claims, "deliverer") {
        return Err(ApiError::Forbidden);
    }
    let ghost pred = history_pred(claims@.sub, range);
    let ghost vf = |x: DeliveryView| x@;
    let ghost sv = |m: OrderModel| spec_delivery_view(m);
    let n = store.len();
    let mut out: Vec<DeliveryView> = Vec::new();
    let mut i: usize = 0;
    proof {
        assert(out@.map_values(vf) =~= store@.subrange(0, 0).filter(pred).map_values(sv));
    }
    while i < n
        invariant
            i <= n,
            n == store@.len(),
            store.wf(),
            pred == history_pred(claims@.sub, range),
            vf == (|x: DeliveryView| x@),
            sv == (|m: OrderModel| spec_delivery_view(m)),
            out@.map_values(vf) == store@.subrange(0, i as int).filter(pred).map_values(sv),
        decreases n - i,
    {
        let o = store.nth(i);
        let mine = match &o.deliverer_id {
            Some(d) => str_eq(d.as_str(), claims.sub.as_str()),
            None => false,
        };
        let within = match range {
            Some((a, b)) => a <= o.placed_at && o.placed_at <= b,
            None => true,
        };
        let keep = mine && !str_eq(o.customer_id.as_str(), claims.sub.as_str())
            && o.status.is_terminal() && within;
        if keep {
            out.push(delivery_view(o));
        }
        proof {
            lemma_subrange_push(store@, i as int);
            lemma_filter_push(store@.subrange(0, i as int), store@[i as int], pred);
            if pred(store@[i as int]) {
                lemma_map_values_push(
                    store@.subrange(0, i as int).filter(pred),
                    store@[i as int],
                    sv,
                );
                lemma_map_values_push(out@.drop_last(), out@.last(), vf);
                assert(out@.drop_last().push(out@.last()) =~= out@);
            }
        }
        i = i + 1;
    }
    proof {
        lemma_subrange_all(store@);
    }
    Ok(out)
}

/// The customer's own orders, restricted by the active/history
/// selector, as listing rows.
pub fn list_orders_for_customer(store: &OrderStore, claims: &Claims, selector: Option<&str>) -> (r:
    Result<Vec<CustomerOrderSummary>, ApiError>)
    requires
        store.wf(),
    ensures
        match r {
            Ok(v) => {
                &&& crate::engine::is_customer(claims@)
                &&& v@.map_values(|x: CustomerOrderSummary| x@) == customer_summaries_of(
                    store@.filter(
                        customer_pred(claims@.sub, spec_selector(opt_str_view(selector))),
                    ),
                )
            },
            Err(e) => !crate::engine::is_customer(claims@) && e == ApiError::Forbidden,
        },
{
    if !has_role(claims, "customer") {
        return Err(ApiError::Forbidden);
    }
    let f = parse_selector(selector);
    let ghost pred = customer_pred(claims@.sub, f);
    let ghost vf = |x: CustomerOrderSummary| x@;
    let ghost sv = |m: OrderModel| spec_customer_summary(m);
    let n = store.len();
    let mut out: Vec<CustomerOrderSummary> = Vec::new();
    let mut i: usize = 0;
    proof {
        assert(out@.map_values(vf) =~= store@.subrange(0, 0).filter(pred).map_values(sv));
    }
    while i < n
        invariant
            i <= n,
            n == store@.len(),
            store.wf(),
            f == spec_selector(opt_str_view(selector)),
            pred == customer_pred(claims@.sub, f),
            vf == (|x: CustomerOrderSummary| x@),
            sv == (|m: OrderModel| spec_customer_summary(m)),
            out@.map_values(vf) == store@.subrange(0, i as int).filter(pred).map_values(sv),
        decreases n - i,
    {
        let o = store.nth(i);
        let keep = str_eq(o.customer_id.as_str(), claims.sub.as_str()) && admits(f, o.status);
        if keep {
            out.push(customer_summary(o));
        }
        proof {
            lemma_subrange_push(store@, i as int);
            lemma_filter_push(store@.subrange(0, i as int), store@[i as int], pred);
            if pred(store@[i as int]) {
                lemma_map_values_push(
                    store@.subrange(0, i as int).filter(pred),
                    store@[i as int],
                    sv,
                );
                lemma_map_values_push(out@.drop_last(), out@.last(), vf);
                assert(out@.drop_last().push(out@.last()) =~= out@);
            }
        }
        i = i + 1;
    }
    proof {
        lemma_subrange_all(store@);
    }
    Ok(out)
}

/// The restaurant's own orders, restricted by the active/history
/// selector, in the restaurant-facing shape.
pub fn list_orders_for_restaurant(store: &OrderStore, claims: &Claims, selector: Option<&str>) -> (
    r: Result<Vec<RestaurantOrderView>, ApiError>)
    requires
        store.wf(),
    ensures
        match r {
            Ok(v) => {
                &&& crate::engine::is_restaurant(claims@)
                &&& v@.map_values(|x: RestaurantOrderView| x@) == restaurant_views_of(
                    store@.filter(
                        restaurant_pred(claims@.sub, spec_selector(opt_str_view(selector))),
                    ),
                )
            },
            Err(e) => !crate::engine::is_restaurant(claims@) && e == ApiError::Forbidden,
        },
{
    if !has_role(claims, "restaurant") {
        return Err(ApiError::Forbidden);
    }
    let f = parse_selector(selector);
    let ghost pred = restaurant_pred(claims@.sub, f);
    let ghost vf = |x: RestaurantOrderView| x@;
    let ghost sv = |m: OrderModel| spec_restaurant_view(m);
    let n = store.len();
    let mut out: Vec<RestaurantOrderView> = Vec::new();
    let mut i: usize = 0;
    proof {
        assert(out@.map_values(vf) =~= store@.subrange(0, 0).filter(pred).map_values(sv));
    }
    while i < n
        invariant
            i <= n,
            n == store@.len(),
            store.wf(),
            f == spec_selector(opt_str_view(selector)),
            pred == restaurant_pred(claims@.sub, f),
            vf == (|x: RestaurantOrderView| x@),
            sv == (|m: OrderModel| spec_restaurant_view(m)),
            out@.map_values(vf) == store@.subrange(0, i as int).filter(pred).map_values(sv),
        decreases n - i,
    {
        let o = store.nth(i);
        let keep = str_eq(o.restaurant_id.as_str(), claims.sub.as_str()) && admits(f, o.status);
        if keep {
            out.push(restaurant_view(o));
        }
        proof {
            lemma_subrange_push(store@, i as int);
            lemma_filter_push(store@.subrange(0, i as int), store@[i as int], pred);
            if pred(store@[i as int]) {
                lemma_map_values_push(
                    store@.subrange(0, i as int).filter(pred),
                    store@[i as int],
                    sv,
                );
                lemma_map_values_push(out@.drop_last(), out@.last(), vf);
                assert(out@.drop_last().push(out@.last()) =~= out@);
            }
        }
        i = i + 1;
    }
    proof {
        lemma_subrange_all(store@);
    }
    Ok(out)
}

} // verus!
