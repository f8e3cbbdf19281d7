//! Role-scoped read projections of one stored order. Each view omits
//! the fields that are not relevant or safe for its audience; the
//! ownership checks that gate them live in the lifecycle engine.

use vstd::prelude::*;
use crate::order::{
    opt_contact_view, opt_rating_view, Contact, ContactModel, DeliveryLocation,
    DeliveryLocationModel, HistoryEntry, LineItem, LineItemModel, Order, OrderModel, Rating,
    RatingModel,
};
use crate::status::Status;
use crate::strutil::opt_string_view;

verus! {

fn clone_opt_string(o: &Option<String>) -> (r: Option<String>)
    ensures
        opt_string_view(r) == opt_string_view(*o),
{
    match o {
        Some(s) => Some(s.clone()),
        None => None,
    }
}

fn clone_contact(c: &Contact) -> (r: Contact)
    ensures
        r@ == c@,
{
    Contact { name: c.name.clone(), phone: c.phone.clone() }
}

fn clone_opt_contact(o: &Option<Contact>) -> (r: Option<Contact>)
    ensures
        opt_contact_view(r) == opt_contact_view(*o),
{
    match o {
        Some(c) => Some(clone_contact(c)),
        None => None,
    }
}

fn clone_opt_rating(o: &Option<Rating>) -> (r: Option<Rating>)
    ensures
        opt_rating_view(r) == opt_rating_view(*o),
{
    match o {
        Some(rt) => Some(Rating { score: rt.score, comment: clone_opt_string(&rt.comment) }),
        None => None,
    }
}

fn clone_location(l: &DeliveryLocation) -> (r: DeliveryLocation)
    ensures
        r@ == l@,
{
    DeliveryLocation { name: l.name.clone(), lat_micro: l.lat_micro, lng_micro: l.lng_micro }
}

/// The item sequence exactly as stored, field for field and in order.
fn clone_items(items: &Vec<LineItem>) -> (r: Vec<LineItem>)
    ensures
        r@.map_values(|it: LineItem| it@) == items@.map_values(|it: LineItem| it@),
{
    let n = items.len();
    let mut out: Vec<LineItem> = Vec::new();
    let mut i: usize = 0;
    while i < n
        invariant
            i <= n,
            n == items@.len(),
            out@.len() == i,
            forall|j: int| 0 <= j < i ==> (#[trigger] out@[j])@ == items@[j]@,
        decreases n - i,
    {
        let it = &items[i];
        out.push(
            LineItem {
                menu_item_id: it.menu_item_id.clone(),
                name: it.name.clone(),
                size: it.size.clone(),
                spiciness: it.spiciness.clone(),
                add_drink: it.add_drink,
                quantity: it.quantity,
                price: it.price,
            },
        );
        i = i + 1;
    }
    proof {
        assert(out@.map_values(|it: LineItem| it@) =~= items@.map_values(|it: LineItem| it@));
    }
    out
}

/// The status history exactly as stored.
fn clone_history(history: &Vec<HistoryEntry>) -> (r: Vec<HistoryEntry>)
    ensures
        r@ == history@,
{
    let n = history.len();
    let mut out: Vec<HistoryEntry> = Vec::new();
    let mut i: usize = 0;
    while i < n
        invariant
            i <= n,
            n == history@.len(),
            out@.len() == i,
            forall|j: int| 0 <= j < i ==> out@[j] == history@[j],
        decreases n - i,
    {
        out.push(history[i]);
        i = i + 1;
    }
    proof {
        assert(out@ =~= history@);
    }
    out
}

/// The deliverer-facing shape: fee, distance, eta, pickup flag,
/// merchant summary and customer contact; no line items.
#[derive(Clone, Debug, PartialEq, Eq)]
pub struct DeliveryView {
    pub id: String,
    pub code: String,
    pub status: Status,
    pub deliverer_id: Option<String>,
    pub fee: i64,
    pub distance_km: i64,
    pub eta_minutes: i64,
    pub can_pickup: bool,
    pub dropoff: DeliveryLocation,
    pub merchant_name: String,
    pub customer: Option<Contact>,
}

pub ghost struct DeliveryViewModel {
    pub id: Seq<char>,
    pub code: Seq<char>,
    pub status: Status,
    pub deliverer_id: Option<Seq<char>>,
    pub fee: i64,
    pub distance_km: i64,
    pub eta_minutes: i64,
    pub can_pickup: bool,
    pub dropoff: DeliveryLocationModel,
    pub merchant_name: Seq<char>,
    pub customer: Option<ContactModel>,
}

impl View for DeliveryView {
    type V = DeliveryViewModel;

    open spec fn view(&self) -> DeliveryViewModel {
        DeliveryViewModel {
            id: self.id@,
            code: self.code@,
            status: self.status,
            deliverer_id: opt_string_view(self.deliverer_id),
            fee: self.fee,
            distance_km: self.distance_km,
            eta_minutes: self.eta_minutes,
            can_pickup: self.can_pickup,
            dropoff: self.dropoff@,
            merchant_name: self.merchant_name@,
            customer: opt_contact_view(self.customer),
        }
    }
}

/// What the deliverer-facing view shows of an order.
pub open spec fn spec_delivery_view(m: OrderModel) -> DeliveryViewModel {
    DeliveryViewModel {
        id: m.id,
        code: m.code,
        status: m.status,
        deliverer_id: m.deliverer_id,
        fee: m.delivery_fee,
        distance_km: m.distance_km,
        eta_minutes: m.eta_minutes,
        can_pickup: m.can_pickup,
        dropoff: m.location,
        merchant_name: m.restaurant_name,
        customer: m.customer,
    }
}

pub fn delivery_view(o: &Order) -> (r: DeliveryView)
    ensures
        r@ == spec_delivery_view(o@),
{
    DeliveryView {
        id: o.id.clone(),
        code: o.code.clone(),
        status: o.status,
        deliverer_id: clone_opt_string(&o.deliverer_id),
        fee: o.delivery_fee,
        distance_km: o.distance_km,
        eta_minutes: o.eta_minutes,
        can_pickup: o.can_pickup,
        dropoff: clone_location(&o.location),
        merchant_name: o.restaurant_name.clone(),
        customer: clone_opt_contact(&o.customer),
    }
}

/// The customer-facing shape: restaurant name, amounts, rider contact,
/// line items, history and rating.
#[derive(Clone, Debug, PartialEq, Eq)]
pub struct CustomerOrderView {
    pub id: String,
    pub restaurant_name: String,
    pub delivery_fee: i64,
    pub total_amount: i64,
    pub status: Status,
    pub eta_minutes: i64,
    pub rider: Option<Contact>,
    pub placed_at: i64,
    pub requested_time: Option<String>,
    pub location: DeliveryLocation,
    pub notes: Option<String>,
    pub rating: Option<Rating>,
    pub items: Vec<LineItem>,
    pub history: Vec<HistoryEntry>,
}

pub ghost struct CustomerOrderViewModel {
    pub id: Seq<char>,
    pub restaurant_name: Seq<char>,
    pub delivery_fee: i64,
    pub total_amount: i64,
    pub status: Status,
    pub eta_minutes: i64,
    pub rider: Option<ContactModel>,
    pub placed_at: i64,
    pub requested_time: Option<Seq<char>>,
    pub location: DeliveryLocationModel,
    pub notes: Option<Seq<char>>,
    pub rating: Option<RatingModel>,
    pub items: Seq<LineItemModel>,
    pub history: Seq<HistoryEntry>,
}

impl View for CustomerOrderView {
    type V = CustomerOrderViewModel;

    open spec fn view(&self) -> CustomerOrderViewModel {
        CustomerOrderViewModel {
            id: self.id@,
            restaurant_name: self.restaurant_name@,
            delivery_fee: self.delivery_fee,
            total_amount: self.total_amount,
            status: self.status,
            eta_minutes: self.eta_minutes,
            rider: opt_contact_view(self.rider),
            placed_at: self.placed_at,
            requested_time: opt_string_view(self.requested_time),
            location: self.location@,
            notes: opt_string_view(self.notes),
            rating: opt_rating_view(self.rating),
            items: self.items@.map_values(|it: LineItem| it@),
            history: self.history@,
        }
    }
}

/// What the customer-facing view shows of an order, line items and
/// history included, in stored order.
pub open spec fn spec_customer_view(m: OrderModel) -> CustomerOrderViewModel {
    CustomerOrderViewModel {
        id: m.id,
        restaurant_name: m.restaurant_name,
        delivery_fee: m.delivery_fee,
        total_amount: m.total_amount,
        status: m.status,
        eta_minutes: m.eta_minutes,
        rider: m.rider,
        placed_at: m.placed_at,
        requested_time: m.requested_time,
        location: m.location,
        notes: m.notes,
        rating: m.rating,
        items: m.items,
        history: m.history,
    }
}

pub fn customer_view(o: &Order) -> (r: CustomerOrderView)
    ensures
        r@ == spec_customer_view(o@),
{
    CustomerOrderView {
        id: o.id.clone(),
        restaurant_name: o.restaurant_name.clone(),
        delivery_fee: o.delivery_fee,
        total_amount: o.total_amount,
        status: o.status,
        eta_minutes: o.eta_minutes,
        rider: clone_opt_contact(&o.rider),
        placed_at: o.placed_at,
        requested_time: clone_opt_string(&o.requested_time),
        location: clone_location(&o.location),
        notes: clone_opt_string(&o.notes),
        rating: clone_opt_rating(&o.rating),
        items: clone_items(&o.items),
        history: clone_history(&o.history),
    }
}

/// The restaurant-facing shape: rider contact, customer contact, line
/// items and history.
#[derive(Clone, Debug, PartialEq, Eq)]
pub struct RestaurantOrderView {
    pub id: String,
    pub code: String,
    pub status: Status,
    pub rider: Option<Contact>,
    pub placed_at: i64,
    pub eta_minutes: i64,
    pub total_amount: i64,
    pub delivery_fee: i64,
    pub location: DeliveryLocation,
    pub notes: Option<String>,
    pub customer: Option<Contact>,
    pub items: Vec<LineItem>,
    pub history: Vec<HistoryEntry>,
}

pub ghost struct RestaurantOrderViewModel {
    pub id: Seq<char>,
    pub code: Seq<char>,
    pub status: Status,
    pub rider: Option<ContactModel>,
    pub placed_at: i64,
    pub eta_minutes: i64,
    pub total_amount: i64,
    pub delivery_fee: i64,
    pub location: DeliveryLocationModel,
    pub notes: Option<Seq<char>>,
    pub customer: Option<ContactModel>,
    pub items: Seq<LineItemModel>,
    pub history: Seq<HistoryEntry>,
}

impl View for RestaurantOrderView {
    type V = RestaurantOrderViewModel;

    open spec fn view(&self) -> RestaurantOrderViewModel {
        RestaurantOrderViewModel {
            id: self.id@,
            code: self.code@,
            status: self.status,
            rider: opt_contact_view(self.rider),
            placed_at: self.placed_at,
            eta_minutes: self.eta_minutes,
            total_amount: self.total_amount,
            delivery_fee: self.delivery_fee,
            location: self.location@,
            notes: opt_string_view(self.notes),
            customer: opt_contact_view(self.customer),
            items: self.items@.map_values(|it: LineItem| it@),
            history: self.history@,
        }
    }
}

/// What the restaurant-facing view shows of an order.
pub open spec fn spec_restaurant_view(m: OrderModel) -> RestaurantOrderViewModel {
    RestaurantOrderViewModel {
        id: m.id,
        code: m.code,
        status: m.status,
        rider: m.rider,
        placed_at: m.placed_at,
        eta_minutes: m.eta_minutes,
        total_amount: m.total_amount,
        delivery_fee: m.delivery_fee,
        location: m.location,
        notes: m.notes,
        customer: m.customer,
        items: m.items,
        history: m.history,
    }
}

pub fn restaurant_view(o: &Order) -> (r: RestaurantOrderView)
    ensures
        r@ == spec_restaurant_view(o@),
{
    RestaurantOrderView {
        id: o.id.clone(),
        code: o.code.clone(),
        status: o.status,
        rider: clone_opt_contact(&o.rider),
        placed_at: o.placed_at,
        eta_minutes: o.eta_minutes,
        total_amount: o.total_amount,
        delivery_fee: o.delivery_fee,
        location: clone_location(&o.location),
        notes: clone_opt_string(&o.notes),
        customer: clone_opt_contact(&o.customer),
        items: clone_items(&o.items),
        history: clone_history(&o.history),
    }
}

/// One row of the customer's order listing.
#[derive(Clone, Debug, PartialEq, Eq)]
pub struct CustomerOrderSummary {
    pub id: String,
    pub restaurant_name: String,
    pub status: Status,
    pub eta_minutes: i64,
    pub total_amount: i64,
    pub placed_at: i64,
}

pub ghost struct CustomerOrderSummaryModel {
    pub id: Seq<char>,
    pub restaurant_name: Seq<char>,
    pub status: Status,
    pub eta_minutes: i64,
    pub total_amount: i64,
    pub placed_at: i64,
}

impl View for CustomerOrderSummary {
    type V = CustomerOrderSummaryModel;

    open spec fn view(&self) -> CustomerOrderSummaryModel {
        CustomerOrderSummaryModel {
            id: self.id@,
            restaurant_name: self.restaurant_name@,
            status: self.status,
            eta_minutes: self.eta_minutes,
            total_amount: self.total_amount,
            placed_at: self.placed_at,
        }
    }
}

/// What one listing row shows of an order.
pub open spec fn spec_customer_summary(m: OrderModel) -> CustomerOrderSummaryModel {
    CustomerOrderSummaryModel {
        id: m.id,
        restaurant_name: m.restaurant_name,
        status: m.status,
        eta_minutes: m.eta_minutes,
        total_amount: m.total_amount,
        placed_at: m.placed_at,
    }
}

pub fn customer_summary(o: &Order) -> (r: CustomerOrderSummary)
    ensures
        r@ == spec_customer_summary(o@),
{
    CustomerOrderSummary {
        id: o.id.clone(),
        restaurant_name: o.restaurant_name.clone(),
        status: o.status,
        eta_minutes: o.eta_minutes,
        total_amount: o.total_amount,
        placed_at: o.placed_at,
    }
}

} // verus!
