//! The order lifecycle engine: every mutation of an order goes through
//! one of these operations. Each operation authorizes the caller (role
//! and ownership), validates the requested change against the
//! transition table, and applies it through the store's atomic
//! conditional update. The outcome of every call — success or the
//! exact error — is pinned down by a spec function over the store
//! contents and the caller's claims.

use vstd::prelude::*;
use crate::auth::{has_role, Claims, ClaimsModel};
use crate::errors::ApiError;
use crate::order::{
    Contact, ContactModel, CourierPosition, DeliveryLocation, HistoryEntry, LineItem,
    LineItemModel, Order, OrderModel, Rating,
};
use crate::status::Status;
use crate::store::{contains_id, index_of, lemma_index_unique, order_of, OrderStore};
use crate::strutil::{eq_ignore_case, opt_string_view, str_eq};
use crate::views::{
    customer_view, delivery_view, restaurant_view, spec_customer_view, spec_delivery_view,
    spec_restaurant_view, CustomerOrderView, DeliveryView, RestaurantOrderView,
};
verus! {

/// Minutes quoted to the customer at creation time.
pub const DEFAULT_ETA_MINUTES: i64 = 20;

pub open spec fn is_customer(c: ClaimsModel) -> bool {
    eq_ignore_case(c.role, "customer"@)
}

pub open spec fn is_deliverer(c: ClaimsModel) -> bool {
    eq_ignore_case(c.role, "deliverer"@)
}

pub open spec fn is_restaurant(c: ClaimsModel) -> bool {
    eq_ignore_case(c.role, "restaurant"@)
}

/// The deliverer holds this order.
pub open spec fn assigned_to(m: OrderModel, sub: Seq<char>) -> bool {
    m.deliverer_id == Some(sub)
}

/// The fields of a create request, as the HTTP layer hands them over
/// (line items already resolved against the menu).
pub struct CreateOrderRequest {
    pub restaurant_id: String,
    pub restaurant_name: String,
    pub items: Vec<LineItem>,
    pub location: DeliveryLocation,
    pub delivery_fee: i64,
    pub total_amount: i64,
    pub notes: Option<String>,
    pub requested_time: Option<String>,
}

pub ghost struct CreateOrderRequestModel {
    pub restaurant_id: Seq<char>,
    pub restaurant_name: Seq<char>,
    pub items: Seq<LineItemModel>,
    pub location: crate::order::DeliveryLocationModel,
    pub delivery_fee: i64,
    pub total_amount: i64,
    pub notes: Option<Seq<char>>,
    pub requested_time: Option<Seq<char>>,
}

impl View for CreateOrderRequest {
    type V = CreateOrderRequestModel;

    open spec fn view(&self) -> CreateOrderRequestModel {
        CreateOrderRequestModel {
            restaurant_id: self.restaurant_id@,
            restaurant_name: self.restaurant_name@,
            items: self.items@.map_values(|it: LineItem| it@),
            location: self.location@,
            delivery_fee: self.delivery_fee,
            total_amount: self.total_amount,
            notes: opt_string_view(self.notes),
            requested_time: opt_string_view(self.requested_time),
        }
    }
}

/// The response of a successful create: id, initial status and eta.
#[derive(Clone, Debug, PartialEq, Eq)]
pub struct CreatedOrder {
    pub id: String,
    pub status: Status,
    pub eta_minutes: i64,
}

/// The order a create request gives rise to: status `available`, a
/// one-entry history stamped at creation time, no deliverer, no
/// rating, and the request's content snapshotted.
pub open spec fn spec_new_order(
    req: CreateOrderRequestModel,
    customer: Seq<char>,
    id: Seq<char>,
    code: Seq<char>,
    now: i64,
) -> OrderModel {
    OrderModel {
        id: id,
        code: code,
        customer_id: customer,
        deliverer_id: None,
        restaurant_id: req.restaurant_id,
        restaurant_name: req.restaurant_name,
        items: req.items,
        delivery_fee: req.delivery_fee,
        total_amount: req.total_amount,
        status: Status::Available,
        history: seq![HistoryEntry { status: Status::Available, timestamp: now }],
        placed_at: now,
        eta_minutes: DEFAULT_ETA_MINUTES as i64,
        distance_km: 0,
        can_pickup: true,
        location: req.location,
        notes: req.notes,
        requested_time: req.requested_time,
        rider: None,
        customer: None,
        courier: None,
        rating: None,
    }
}

/// A create request's content is billable: nonnegative fee and total,
/// and every line item with sane numbers.
pub open spec fn spec_billing_ok(req: CreateOrderRequestModel) -> bool {
    0 <= req.delivery_fee && 0 <= req.total_amount && crate::order::items_ok(req.items)
}

/// The decision a create request meets: customers only, at least one
/// line item, a named restaurant (the restaurant is a required party
/// of every order), sane billing numbers, and a fresh order id.
pub open spec fn spec_create_outcome(
    s: Seq<OrderModel>,
    c: ClaimsModel,
    req: CreateOrderRequestModel,
    id: Seq<char>,
) -> Result<(), ApiError> {
    if !is_customer(c) {
        Err(ApiError::Forbidden)
    } else if req.items.len() == 0 {
        Err(ApiError::Validation)
    } else if req.restaurant_id.len() == 0 {
        Err(ApiError::Validation)
    } else if !spec_billing_ok(req) {
        Err(ApiError::Validation)
    } else if contains_id(s, id) {
        Err(ApiError::Internal)
    } else {
        Ok(())
    }
}

/// Every line item has a nonnegative quantity and unit price, and a
/// line total that fits the integer money type.
fn items_billable(items: &Vec<LineItem>) -> (r: bool)
    ensures
        r == crate::order::items_ok(items@.map_values(|it: LineItem| it@)),
{
    let ghost im = items@.map_values(|it: LineItem| it@);
    let n = items.len();
    let mut i: usize = 0;
    while i < n
        invariant
            i <= n,
            n == items@.len(),
            im == items@.map_values(|it: LineItem| it@),
            forall|j: int| 0 <= j < i ==> crate::order::line_item_ok(#[trigger] im[j]),
        decreases n - i,
    {
        let it = &items[i];
        let q = it.quantity;
        let p = it.price;
        if q < 0 || p < 0 {
            proof {
                assert(!crate::order::line_item_ok(im[i as int]));
            }
            return false;
        }
        proof {
            assert(0 <= (q as int) * (p as int) <= 0x4000_0000_0000_0000_0000_0000_0000_0000int)
                by (nonlinear_arith)
                requires
                    0 <= q < 0x8000_0000_0000_0000,
                    0 <= p < 0x8000_0000_0000_0000,
            ;
        }
        let prod = (q as i128) * (p as i128);
        if prod > i64::MAX as i128 {
            proof {
                assert(!crate::order::line_item_ok(im[i as int]));
            }
            return false;
        }
        i = i + 1;
    }
    true
}

/// Create an order from an authorized customer request. On success the
/// store grows by exactly the new order and nothing else changes.
#[verifier::rlimit(100)]
pub fn create_order(
    store: &mut OrderStore,
    claims: &Claims,
    req: CreateOrderRequest,
    id: String,
    code: String,
    now: i64,
) -> (r: Result<CreatedOrder, ApiError>)
    requires
        old(store).wf(),
        0 <= now,
    ensures
        final(store).wf(),
        match r {
            Ok(v) => {
                &&& spec_create_outcome(old(store)@, claims@, req@, id@) == Ok::<(), ApiError>(())
                &&& final(store)@ == old(store)@.push(
                    spec_new_order(req@, claims@.sub, id@, code@, now),
                )
                &&& v.id@ == id@
                &&& v.status == Status::Available
                &&& v.eta_minutes == DEFAULT_ETA_MINUTES
            },
            Err(e) => {
                &&& spec_create_outcome(old(store)@, claims@, req@, id@) == Err::<(), ApiError>(e)
                &&& final(store)@ == old(store)@
            },
        },
{
    if !has_role(claims, "customer") {
        return Err(ApiError::Forbidden);
    }
    if req.items.is_empty() {
        return Err(ApiError::Validation);
    }
    if req.restaurant_id.as_str().is_empty() {
        return Err(ApiError::Validation);
    }
    if !(0 <= req.delivery_fee && 0 <= req.total_amount && items_billable(&req.items)) {
        return Err(ApiError::Validation);
    }
    let ghost m = spec_new_order(req@, claims@.sub, id@, code@, now);
    let mut history: Vec<HistoryEntry> = Vec::new();
    history.push(HistoryEntry { status: Status::Available, timestamp: now });
    let order = Order {
        id: id.clone(),
        code: code,
        customer_id: claims.sub.clone(),
        deliverer_id: None,
        restaurant_id: req.restaurant_id,
        restaurant_name: req.restaurant_name,
        items: req.items,
        delivery_fee: req.delivery_fee,
        total_amount: req.total_amount,
        status: Status::Available,
        history: history,
        placed_at: now,
        eta_minutes: DEFAULT_ETA_MINUTES,
        distance_km: 0,
        can_pickup: true,
        location: req.location,
        notes: req.notes,
        requested_time: req.requested_time,
        rider: None,
        customer: None,
        courier: None,
        rating: None,
    };
    proof {
        reveal(crate::order::OrderModel::wf);
        assert(order@.history =~= m.history);
        assert(order@ == m);
        assert(m.wf());
    }
    if store.insert_new(order) {
        Ok(CreatedOrder { id: id, status: Status::Available, eta_minutes: DEFAULT_ETA_MINUTES })
    } else {
        Err(ApiError::Internal)
    }
}

/// Resolve one requested line against the menu item it references, as
/// the create flow snapshots it: the name and unit price are copied
/// from the menu, and an unavailable menu item rejects the line.
pub fn build_line_item(
    menu_item_id: String,
    size: String,
    spiciness: String,
    add_drink: bool,
    quantity: i64,
    menu_name: String,
    menu_price: i64,
    menu_available: bool,
) -> (r: Result<LineItem, ApiError>)
    ensures
        match r {
            Ok(it) => menu_available && it@ == (LineItemModel {
                menu_item_id: menu_item_id@,
                name: menu_name@,
                size: size@,
                spiciness: spiciness@,
                add_drink: add_drink,
                quantity: quantity,
                price: menu_price,
            }),
            Err(e) => !menu_available && e == ApiError::Validation,
        },
{
    if !menu_available {
        return Err(ApiError::Validation);
    }
    Ok(
        LineItem {
            menu_item_id: menu_item_id,
            name: menu_name,
            size: size,
            spiciness: spiciness,
            add_drink: add_drink,
            quantity: quantity,
            price: menu_price,
        },
    )
}

/// The decision an accept request meets: deliverers only, the order
/// must resolve, a deliverer may not take their own order, and only an
/// order still exactly `available` can be taken — a lost race is
/// `Conflict`, never a crash.
pub open spec fn spec_accept_outcome(
    s: Seq<OrderModel>,
    c: ClaimsModel,
    id: Seq<char>,
) -> Result<(), ApiError> {
    if !is_deliverer(c) {
        Err(ApiError::Forbidden)
    } else if !contains_id(s, id) {
        Err(ApiError::NotFound)
    } else if order_of(s, id).customer_id == c.sub {
        Err(ApiError::Forbidden)
    } else if order_of(s, id).status != Status::Available {
        Err(ApiError::Conflict)
    } else {
        Ok(())
    }
}

/// Accept (available to assigned): at most one deliverer can win; the
/// store's conditional update on `available` is the serialization
/// point. On success the order is assigned to the caller with the
/// given contact snapshot; on any error the store is untouched.
#[verifier::rlimit(100)]
pub fn accept_order(
    store: &mut OrderStore,
    claims: &Claims,
    id: &str,
    rider_name: String,
    rider_phone: String,
    now: i64,
) -> (r: Result<DeliveryView, ApiError>)
    requires
        old(store).wf(),
        0 <= now,
    ensures
        final(store).wf(),
        match r {
            Ok(v) => {
                &&& spec_accept_outcome(old(store)@, claims@, id@) == Ok::<(), ApiError>(())
                &&& final(store)@ == old(store)@.update(
                    index_of(old(store)@, id@),
                    order_of(old(store)@, id@).accepted_by(
                        claims@.sub,
                        ContactModel { name: rider_name@, phone: rider_phone@ },
                        now,
                    ),
                )
                &&& v@ == spec_delivery_view(
                    order_of(old(store)@, id@).accepted_by(
                        claims@.sub,
                        ContactModel { name: rider_name@, phone: rider_phone@ },
                        now,
                    ),
                )
            },
            Err(e) => {
                &&& spec_accept_outcome(old(store)@, claims@, id@) == Err::<(), ApiError>(e)
                &&& final(store)@ == old(store)@
            },
        },
{
    if !has_role(claims, "deliverer") {
        return Err(ApiError::Forbidden);
    }
    let (is_own, is_avail) = match store.get(id) {
        None => {
            return Err(ApiError::NotFound);
        },
        Some(o) => (
            str_eq(o.customer_id.as_str(), claims.sub.as_str()),
            matches!(o.status, Status::Available),
        ),
    };
    if is_own {
        return Err(ApiError::Forbidden);
    }
    if !is_avail {
        return Err(ApiError::Conflict);
    }
    let rider = Contact { name: rider_name, phone: rider_phone };
    let taken = store.assign_if_available(id, claims.sub.clone(), rider, now);
    assert(taken);
    proof {
        let idx = index_of(old(store)@, id@);
        assert(store@[idx].id == id@);
        assert(contains_id(store@, id@));
        lemma_index_unique(store@, id@, idx);
    }
    match store.get(id) {
        Some(o) => Ok(delivery_view(o)),
        None => {
            proof {
                assert(false);
            }
            Err(ApiError::Internal)
        },
    }
}

/// The decision a deliverer status update meets: deliverers only, the
/// order must resolve, only its assigned deliverer may move it, and
/// the move must be one the transition table admits for the status the
/// order holds right now.
pub open spec fn spec_update_status_outcome(
    s: Seq<OrderModel>,
    c: ClaimsModel,
    id: Seq<char>,
    next: Status,
) -> Result<(), ApiError> {
    if !is_deliverer(c) {
        Err(ApiError::Forbidden)
    } else if !contains_id(s, id) {
        Err(ApiError::NotFound)
    } else if !assigned_to(order_of(s, id), c.sub) {
        Err(ApiError::Forbidden)
    } else if !order_of(s, id).status.spec_can_transition_to(next) {
        Err(ApiError::Conflict)
    } else {
        Ok(())
    }
}

/// Deliverer-side status update. On success exactly one history entry
/// is appended and the status moves; on any error the store is
/// untouched (rejection changes nothing, however often it is retried).
#[verifier::rlimit(100)]
pub fn update_status(
    store: &mut OrderStore,
    claims: &Claims,
    id: &str,
    next: Status,
    now: i64,
) -> (r: Result<DeliveryView, ApiError>)
    requires
        old(store).wf(),
        0 <= now,
    ensures
        final(store).wf(),
        match r {
            Ok(v) => {
                &&& spec_update_status_outcome(old(store)@, claims@, id@, next) == Ok::<(), ApiError>(())
                &&& final(store)@ == old(store)@.update(
                    index_of(old(store)@, id@),
                    order_of(old(store)@, id@).with_status(next, now),
                )
                &&& v@ == spec_delivery_view(order_of(old(store)@, id@).with_status(next, now))
            },
            Err(e) => {
                &&& spec_update_status_outcome(old(store)@, claims@, id@, next) == Err::<(), ApiError>(e)
                &&& final(store)@ == old(store)@
            },
        },
{
    if !has_role(claims, "deliverer") {
        return Err(ApiError::Forbidden);
    }
    let (is_mine, current) = match store.get(id) {
        None => {
            return Err(ApiError::NotFound);
        },
        Some(o) => (
            match &o.deliverer_id {
                Some(d) => str_eq(d.as_str(), claims.sub.as_str()),
                None => false,
            },
            o.status,
        ),
    };
    if !is_mine {
        return Err(ApiError::Forbidden);
    }
    if !current.can_transition_to(next) {
        return Err(ApiError::Conflict);
    }
    proof {
        let m = order_of(old(store)@, id@);
        assert(old(store)@[index_of(old(store)@, id@)].wf());
        if next == Status::Assigned {
            assert(m.status == Status::Available);
            crate::order::lemma_wf_facts(m);
            assert(false);
        }
    }
    let moved = store.update_status_if(id, current, next, now);
    assert(moved);
    proof {
        let idx = index_of(old(store)@, id@);
        assert(store@[idx].id == id@);
        assert(contains_id(store@, id@));
        lemma_index_unique(store@, id@, idx);
    }
    match store.get(id) {
        Some(o) => Ok(delivery_view(o)),
        None => {
            proof {
                assert(false);
            }
            Err(ApiError::Internal)
        },
    }
}

/// The restaurant-side transition subset: the table without the
/// delivery path. Assignment belongs to the accept operation and the
/// progress steps (en route, picked up, delivering, delivered) to the
/// assigned deliverer, so of the table's moves the restaurant keeps
/// only cancellation of a non-terminal order.
pub open spec fn spec_restaurant_can_move(cur: Status, next: Status) -> bool {
    cur.spec_can_transition_to(next) && next == Status::Cancelled
}

/// The decision a restaurant status update meets: restaurants only,
/// the order must resolve and belong to the caller — the ownership
/// check is unconditional — a finalized order is `Conflict`, and the
/// move must be in the restaurant subset of the transition table.
pub open spec fn spec_restaurant_update_outcome(
    s: Seq<OrderModel>,
    c: ClaimsModel,
    id: Seq<char>,
    next: Status,
) -> Result<(), ApiError> {
    if !is_restaurant(c) {
        Err(ApiError::Forbidden)
    } else if !contains_id(s, id) {
        Err(ApiError::NotFound)
    } else if order_of(s, id).restaurant_id != c.sub {
        Err(ApiError::Forbidden)
    } else if order_of(s, id).status.spec_is_terminal() {
        Err(ApiError::Conflict)
    } else if !spec_restaurant_can_move(order_of(s, id).status, next) {
        Err(ApiError::Conflict)
    } else {
        Ok(())
    }
}

/// Restaurant-side status update; on success returns the status that
/// was applied.
#[verifier::rlimit(100)]
pub fn restaurant_update_status(
    store: &mut OrderStore,
    claims: &Claims,
    id: &str,
    next: Status,
    now: i64,
) -> (r: Result<Status, ApiError>)
    requires
        old(store).wf(),
        0 <= now,
    ensures
        final(store).wf(),
        match r {
            Ok(st) => {
                &&& spec_restaurant_update_outcome(old(store)@, claims@, id@, next) == Ok::<(), ApiError>(())
                &&& st == next
                &&& final(store)@ == old(store)@.update(
                    index_of(old(store)@, id@),
                    order_of(old(store)@, id@).with_status(next, now),
                )
            },
            Err(e) => {
                &&& spec_restaurant_update_outcome(old(store)@, claims@, id@, next) == Err::<(), ApiError>(e)
                &&& final(store)@ == old(store)@
            },
        },
{
    if !has_role(claims, "restaurant") {
        return Err(ApiError::Forbidden);
    }
    let (owned_by_other, terminal, current) = match store.get(id) {
        None => {
            return Err(ApiError::NotFound);
        },
        Some(o) => (
            !str_eq(o.restaurant_id.as_str(), claims.sub.as_str()),
            o.status.is_terminal(),
            o.status,
        ),
    };
    if owned_by_other {
        return Err(ApiError::Forbidden);
    }
    if terminal {
        return Err(ApiError::Conflict);
    }
    if !current.can_transition_to(next) || !matches!(next, Status::Cancelled) {
        return Err(ApiError::Conflict);
    }
    let moved = store.update_status_if(id, current, next, now);
    assert(moved);
    Ok(next)
}

/// The decision a customer cancel meets: customers only, the order
/// must resolve and be theirs, and a terminal order can no longer be
/// cancelled.
pub open spec fn spec_cancel_outcome(
    s: Seq<OrderModel>,
    c: ClaimsModel,
    id: Seq<char>,
) -> Result<(), ApiError> {
    if !is_customer(c) {
        Err(ApiError::Forbidden)
    } else if !contains_id(s, id) {
        Err(ApiError::NotFound)
    } else if order_of(s, id).customer_id != c.sub {
        Err(ApiError::Forbidden)
    } else if order_of(s, id).status.spec_is_terminal() {
        Err(ApiError::Conflict)
    } else {
        Ok(())
    }
}

/// Customer-initiated cancel, permitted from any non-terminal status;
/// on success exactly one `cancelled` history entry is appended.
#[verifier::rlimit(100)]
pub fn cancel_order(store: &mut OrderStore, claims: &Claims, id: &str, now: i64) -> (r: Result<
    Status,
    ApiError,
>)
    requires
        old(store).wf(),
        0 <= now,
    ensures
        final(store).wf(),
        match r {
            Ok(st) => {
                &&& spec_cancel_outcome(old(store)@, claims@, id@) == Ok::<(), ApiError>(())
                &&& st == Status::Cancelled
                &&& final(store)@ == old(store)@.update(
                    index_of(old(store)@, id@),
                    order_of(old(store)@, id@).with_status(Status::Cancelled, now),
                )
            },
            Err(e) => {
                &&& spec_cancel_outcome(old(store)@, claims@, id@) == Err::<(), ApiError>(e)
                &&& final(store)@ == old(store)@
            },
        },
{
    if !has_role(claims, "customer") {
        return Err(ApiError::Forbidden);
    }
    let (is_mine, terminal) = match store.get(id) {
        None => {
            return Err(ApiError::NotFound);
        },
        Some(o) => (str_eq(o.customer_id.as_str(), claims.sub.as_str()), o.status.is_terminal()),
    };
    if !is_mine {
        return Err(ApiError::Forbidden);
    }
    if terminal {
        return Err(ApiError::Conflict);
    }
    let cancelled = store.cancel_if_active(id, now);
    assert(cancelled);
    Ok(Status::Cancelled)
}

/// The decision a rating attachment meets: customers only, on their
/// own order, and only once the order is `delivered`.
pub open spec fn spec_add_rating_outcome(
    s: Seq<OrderModel>,
    c: ClaimsModel,
    id: Seq<char>,
) -> Result<(), ApiError> {
    if !is_customer(c) {
        Err(ApiError::Forbidden)
    } else if !contains_id(s, id) {
        Err(ApiError::NotFound)
    } else if order_of(s, id).customer_id != c.sub {
        Err(ApiError::Forbidden)
    } else if order_of(s, id).status != Status::Delivered {
        Err(ApiError::Conflict)
    } else {
        Ok(())
    }
}

/// Attach a rating to a delivered order.
#[verifier::rlimit(100)]
pub fn add_rating(
    store: &mut OrderStore,
    claims: &Claims,
    id: &str,
    score: i64,
    comment: Option<String>,
) -> (r: Result<(), ApiError>)
    requires
        old(store).wf(),
    ensures
        final(store).wf(),
        match r {
            Ok(()) => {
                &&& spec_add_rating_outcome(old(store)@, claims@, id@) == Ok::<(), ApiError>(())
                &&& final(store)@ == old(store)@.update(
                    index_of(old(store)@, id@),
                    order_of(old(store)@, id@).with_rating(
                        crate::order::RatingModel { score: score, comment: opt_string_view(comment) },
                    ),
                )
            },
            Err(e) => {
                &&& spec_add_rating_outcome(old(store)@, claims@, id@) == Err::<(), ApiError>(e)
                &&& final(store)@ == old(store)@
            },
        },
{
    if !has_role(claims, "customer") {
        return Err(ApiError::Forbidden);
    }
    let (is_mine, delivered) = match store.get(id) {
        None => {
            return Err(ApiError::NotFound);
        },
        Some(o) => (
            str_eq(o.customer_id.as_str(), claims.sub.as_str()),
            matches!(o.status, Status::Delivered),
        ),
    };
    if !is_mine {
        return Err(ApiError::Forbidden);
    }
    if !delivered {
        return Err(ApiError::Conflict);
    }
    let attached = store.attach_rating_if_delivered(id, Rating { score: score, comment: comment });
    assert(attached);
    Ok(())
}

/// The decision a courier-position update meets: deliverers only, the
/// order must resolve, an order held by any other deliverer is
/// `Forbidden` (assignment is exclusive), and both coordinates are
/// required.
pub open spec fn spec_update_location_outcome(
    s: Seq<OrderModel>,
    c: ClaimsModel,
    id: Seq<char>,
    lat_micro: Option<i64>,
    lng_micro: Option<i64>,
) -> Result<(), ApiError> {
    if !is_deliverer(c) {
        Err(ApiError::Forbidden)
    } else if !contains_id(s, id) {
        Err(ApiError::NotFound)
    } else if match order_of(s, id).deliverer_id {
        Some(d) => d != c.sub,
        None => false,
    } {
        Err(ApiError::Forbidden)
    } else if lat_micro is None || lng_micro is None {
        Err(ApiError::Validation)
    } else {
        Ok(())
    }
}

/// Record the live courier coordinates of an order; they are mutable
/// separately from the status history.
#[verifier::rlimit(100)]
pub fn update_location(
    store: &mut OrderStore,
    claims: &Claims,
    id: &str,
    lat_micro: Option<i64>,
    lng_micro: Option<i64>,
    now: i64,
) -> (r: Result<(), ApiError>)
    requires
        old(store).wf(),
    ensures
        final(store).wf(),
        match r {
            Ok(()) => {
                &&& spec_update_location_outcome(old(store)@, claims@, id@, lat_micro, lng_micro)
                    == Ok::<(), ApiError>(())
                &&& lat_micro matches Some(lat) && lng_micro matches Some(lng) && final(store)@
                    == old(store)@.update(
                    index_of(old(store)@, id@),
                    order_of(old(store)@, id@).with_courier(
                        CourierPosition { lat_micro: lat, lng_micro: lng, updated_at: now },
                    ),
                )
            },
            Err(e) => {
                &&& spec_update_location_outcome(old(store)@, claims@, id@, lat_micro, lng_micro)
                    == Err::<(), ApiError>(e)
                &&& final(store)@ == old(store)@
            },
        },
{
    if !has_role(claims, "deliverer") {
        return Err(ApiError::Forbidden);
    }
    let held_by_other = match store.get(id) {
        None => {
            return Err(ApiError::NotFound);
        },
        Some(o) => match &o.deliverer_id {
            Some(d) => !str_eq(d.as_str(), claims.sub.as_str()),
            None => false,
        },
    };
    if held_by_other {
        return Err(ApiError::Forbidden);
    }
    let lat = match lat_micro {
        Some(v) => v,
        None => {
            return Err(ApiError::Validation);
        },
    };
    let lng = match lng_micro {
        Some(v) => v,
        None => {
            return Err(ApiError::Validation);
        },
    };
    let set = store.set_courier_position(
        id,
        CourierPosition { lat_micro: lat, lng_micro: lng, updated_at: now },
    );
    assert(set);
    Ok(())
}

/// The decision a deliverer-facing read meets: deliverers only, never
/// the order's own customer, and once an order is off the market only
/// its assigned deliverer may see it.
pub open spec fn spec_get_delivery_outcome(
    s: Seq<OrderModel>,
    c: ClaimsModel,
    id: Seq<char>,
) -> Result<(), ApiError> {
    if !is_deliverer(c) {
        Err(ApiError::Forbidden)
    } else if !contains_id(s, id) {
        Err(ApiError::NotFound)
    } else if order_of(s, id).customer_id == c.sub {
        Err(ApiError::Forbidden)
    } else if order_of(s, id).status != Status::Available && !assigned_to(order_of(s, id), c.sub) {
        Err(ApiError::Forbidden)
    } else {
        Ok(())
    }
}

/// The deliverer-facing read of one order.
pub fn get_delivery(store: &OrderStore, claims: &Claims, id: &str) -> (r: Result<
    DeliveryView,
    ApiError,
>)
    requires
        store.wf(),
    ensures
        match r {
            Ok(v) => {
                &&& spec_get_delivery_outcome(store@, claims@, id@) == Ok::<(), ApiError>(())
                &&& v@ == spec_delivery_view(order_of(store@, id@))
            },
            Err(e) => spec_get_delivery_outcome(store@, claims@, id@) == Err::<(), ApiError>(e),
        },
{
    if !has_role(claims, "deliverer") {
        return Err(ApiError::Forbidden);
    }
    let o = match store.get(id) {
        None => {
            return Err(ApiError::NotFound);
        },
        Some(o) => o,
    };
    if str_eq(o.customer_id.as_str(), claims.sub.as_str()) {
        return Err(ApiError::Forbidden);
    }
    let assigned_to_me = match &o.deliverer_id {
        Some(d) => str_eq(d.as_str(), claims.sub.as_str()),
        None => false,
    };
    if !matches!(o.status, Status::Available) && !assigned_to_me {
        return Err(ApiError::Forbidden);
    }
    Ok(delivery_view(o))
}

/// The decision a customer-facing read meets: customers only, and only
/// on their own order.
pub open spec fn spec_get_customer_order_outcome(
    s: Seq<OrderModel>,
    c: ClaimsModel,
    id: Seq<char>,
) -> Result<(), ApiError> {
    if !is_customer(c) {
        Err(ApiError::Forbidden)
    } else if !contains_id(s, id) {
        Err(ApiError::NotFound)
    } else if order_of(s, id).customer_id != c.sub {
        Err(ApiError::Forbidden)
    } else {
        Ok(())
    }
}

/// The customer-facing read of one order: items and history exactly as
/// stored, in order.
pub fn get_order_for_customer(store: &OrderStore, claims: &Claims, id: &str) -> (r: Result<
    CustomerOrderView,
    ApiError,
>)
    requires
        store.wf(),
    ensures
        match r {
            Ok(v) => {
                &&& spec_get_customer_order_outcome(store@, claims@, id@) == Ok::<(), ApiError>(())
                &&& v@ == spec_customer_view(order_of(store@, id@))
            },
            Err(e) => spec_get_customer_order_outcome(store@, claims@, id@) == Err::<(), ApiError>(
                e,
            ),
        },
{
    if !has_role(claims, "customer") {
        return Err(ApiError::Forbidden);
    }
    let o = match store.get(id) {
        None => {
            return Err(ApiError::NotFound);
        },
        Some(o) => o,
    };
    if !str_eq(o.customer_id.as_str(), claims.sub.as_str()) {
        return Err(ApiError::Forbidden);
    }
    Ok(customer_view(o))
}

/// The decision a restaurant-facing read meets: restaurants only, and
/// only on an order of that restaurant — the ownership check is
/// unconditional.
pub open spec fn spec_get_restaurant_order_outcome(
    s: Seq<OrderModel>,
    c: ClaimsModel,
    id: Seq<char>,
) -> Result<(), ApiError> {
    if !is_restaurant(c) {
        Err(ApiError::Forbidden)
    } else if !contains_id(s, id) {
        Err(ApiError::NotFound)
    } else if order_of(s, id).restaurant_id != c.sub {
        Err(ApiError::Forbidden)
    } else {
        Ok(())
    }
}

/// The restaurant-facing read of one order.
pub fn get_order_for_restaurant(store: &OrderStore, claims: &Claims, id: &str) -> (r: Result<
    RestaurantOrderView,
    ApiError,
>)
    requires
        store.wf(),
    ensures
        match r {
            Ok(v) => {
                &&& spec_get_restaurant_order_outcome(store@, claims@, id@) == Ok::<(), ApiError>(())
                &&& v@ == spec_restaurant_view(order_of(store@, id@))
            },
            Err(e) => spec_get_restaurant_order_outcome(store@, claims@, id@) == Err::<(), ApiError>(
                e,
            ),
        },
{
    if !has_role(claims, "restaurant") {
        return Err(ApiError::Forbidden);
    }
    let o = match store.get(id) {
        None => {
            return Err(ApiError::NotFound);
        },
        Some(o) => o,
    };
    if !str_eq(o.restaurant_id.as_str(), claims.sub.as_str()) {
        return Err(ApiError::Forbidden);
    }
    Ok(restaurant_view(o))
}

/// The contact field a supplied value or a profile fallback resolves
/// to: the supplied value wins unless it is absent or empty.
pub open spec fn spec_resolved(supplied: Option<Seq<char>>, fallback: Seq<char>) -> Seq<char> {
    match supplied {
        Some(s) => if s.len() > 0 {
            s
        } else {
            fallback
        },
        None => fallback,
    }
}

/// Resolve the deliverer contact snapshot for an accept: each supplied
/// field wins over the profile lookup unless absent or empty.
pub fn resolve_contact(
    supplied_name: Option<String>,
    supplied_phone: Option<String>,
    profile_name: String,
    profile_phone: String,
) -> (r: Contact)
    ensures
        r@.name == spec_resolved(opt_string_view(supplied_name), profile_name@),
        r@.phone == spec_resolved(opt_string_view(supplied_phone), profile_phone@),
{
    let name = match supplied_name {
        Some(s) => if s.as_str().is_empty() {
            profile_name
        } else {
            s
        },
        None => profile_name,
    };
    let phone = match supplied_phone {
        Some(s) => if s.as_str().is_empty() {
            profile_phone
        } else {
            s
        },
        None => profile_phone,
    };
    Contact { name: name, phone: phone }
}


} // verus!
