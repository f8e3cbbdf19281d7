//! The order entity: line items, status history, parties, delivery
//! metadata, and the well-formedness invariant every stored order keeps.

use vstd::prelude::*;
use crate::status::Status;
use crate::strutil::opt_string_view;

verus! {

/// A name/phone pair: the deliverer contact snapshot or the customer
/// contact snapshot on an order.
#[derive(Clone, Debug, PartialEq, Eq)]
pub struct Contact {
    pub name: String,
    pub phone: String,
}

pub ghost struct ContactModel {
    pub name: Seq<char>,
    pub phone: Seq<char>,
}

impl View for Contact {
    type V = ContactModel;

    open spec fn view(&self) -> ContactModel {
        ContactModel { name: self.name@, phone: self.phone@ }
    }
}

/// One ordered line: a menu item reference with the name and unit price
/// snapshotted at order-creation time. Immutable after creation.
#[derive(Clone, Debug, PartialEq, Eq)]
pub struct LineItem {
    pub menu_item_id: String,
    pub name: String,
    pub size: String,
    pub spiciness: String,
    pub add_drink: bool,
    pub quantity: i64,
    pub price: i64,
}

pub ghost struct LineItemModel {
    pub menu_item_id: Seq<char>,
    pub name: Seq<char>,
    pub size: Seq<char>,
    pub spiciness: Seq<char>,
    pub add_drink: bool,
    pub quantity: i64,
    pub price: i64,
}

impl View for LineItem {
    type V = LineItemModel;

    open spec fn view(&self) -> LineItemModel {
        LineItemModel {
            menu_item_id: self.menu_item_id@,
            name: self.name@,
            size: self.size@,
            spiciness: self.spiciness@,
            add_drink: self.add_drink,
            quantity: self.quantity,
            price: self.price,
        }
    }
}

/// One entry of the append-only status history.
#[derive(Clone, Copy, Debug, PartialEq, Eq, Structural)]
pub struct HistoryEntry {
    pub status: Status,
    /// Milliseconds since the epoch.
    pub timestamp: i64,
}

/// The dropoff location: a name and optional coordinates in
/// micro-degrees (degrees times one million, kept as plain integers).
#[derive(Clone, Debug, PartialEq, Eq)]
pub struct DeliveryLocation {
    pub name: String,
    pub lat_micro: Option<i64>,
    pub lng_micro: Option<i64>,
}

pub ghost struct DeliveryLocationModel {
    pub name: Seq<char>,
    pub lat_micro: Option<i64>,
    pub lng_micro: Option<i64>,
}

impl View for DeliveryLocation {
    type V = DeliveryLocationModel;

    open spec fn view(&self) -> DeliveryLocationModel {
        DeliveryLocationModel {
            name: self.name@,
            lat_micro: self.lat_micro,
            lng_micro: self.lng_micro,
        }
    }
}

/// Live courier coordinates; separately mutable, never part of the
/// status history.
#[derive(Clone, Copy, Debug, PartialEq, Eq, Structural)]
pub struct CourierPosition {
    pub lat_micro: i64,
    pub lng_micro: i64,
    pub updated_at: i64,
}

/// A customer rating, attachable once the order is delivered.
#[derive(Clone, Debug, PartialEq, Eq)]
pub struct Rating {
    pub score: i64,
    pub comment: Option<String>,
}

pub ghost struct RatingModel {
    pub score: i64,
    pub comment: Option<Seq<char>>,
}

impl View for Rating {
    type V = RatingModel;

    open spec fn view(&self) -> RatingModel {
        RatingModel { score: self.score, comment: opt_string_view(self.comment) }
    }
}

pub open spec fn opt_contact_view(o: Option<Contact>) -> Option<ContactModel> {
    match o {
        Some(c) => Some(c@),
        None => None,
    }
}

pub open spec fn opt_rating_view(o: Option<Rating>) -> Option<RatingModel> {
    match o {
        Some(r) => Some(r@),
        None => None,
    }
}

/// The central entity. The order id is an opaque stable string, distinct
/// from any storage-internal id; `code` is the short human-facing code.
#[derive(Clone, Debug, PartialEq, Eq)]
pub struct Order {
    pub id: String,
    pub code: String,
    pub customer_id: String,
    pub deliverer_id: Option<String>,
    pub restaurant_id: String,
    pub restaurant_name: String,
    pub items: Vec<LineItem>,
    /// Integer minor-currency units.
    pub delivery_fee: i64,
    /// Integer minor-currency units.
    pub total_amount: i64,
    pub status: Status,
    pub history: Vec<HistoryEntry>,
    /// Creation time, milliseconds since the epoch; immutable.
    pub placed_at: i64,
    pub eta_minutes: i64,
    pub distance_km: i64,
    pub can_pickup: bool,
    pub location: DeliveryLocation,
    pub notes: Option<String>,
    pub requested_time: Option<String>,
    /// Deliverer contact snapshot, captured at accept time.
    pub rider: Option<Contact>,
    /// Customer contact snapshot, if enriched.
    pub customer: Option<Contact>,
    pub courier: Option<CourierPosition>,
    pub rating: Option<Rating>,
}

pub ghost struct OrderModel {
    pub id: Seq<char>,
    pub code: Seq<char>,
    pub customer_id: Seq<char>,
    pub deliverer_id: Option<Seq<char>>,
    pub restaurant_id: Seq<char>,
    pub restaurant_name: Seq<char>,
    pub items: Seq<LineItemModel>,
    pub delivery_fee: i64,
    pub total_amount: i64,
    pub status: Status,
    pub history: Seq<HistoryEntry>,
    pub placed_at: i64,
    pub eta_minutes: i64,
    pub distance_km: i64,
    pub can_pickup: bool,
    pub location: DeliveryLocationModel,
    pub notes: Option<Seq<char>>,
    pub requested_time: Option<Seq<char>>,
    pub rider: Option<ContactModel>,
    pub customer: Option<ContactModel>,
    pub courier: Option<CourierPosition>,
    pub rating: Option<RatingModel>,
}

impl View for Order {
    type V = OrderModel;

    open spec fn view(&self) -> OrderModel {
        OrderModel {
            id: self.id@,
            code: self.code@,
            customer_id: self.customer_id@,
            deliverer_id: opt_string_view(self.deliverer_id),
            restaurant_id: self.restaurant_id@,
            restaurant_name: self.restaurant_name@,
            items: self.items@.map_values(|it: LineItem| it@),
            delivery_fee: self.delivery_fee,
            total_amount: self.total_amount,
            status: self.status,
            history: self.history@,
            placed_at: self.placed_at,
            eta_minutes: self.eta_minutes,
            distance_km: self.distance_km,
            can_pickup: self.can_pickup,
            location: self.location@,
            notes: opt_string_view(self.notes),
            requested_time: opt_string_view(self.requested_time),
            rider: opt_contact_view(self.rider),
            customer: opt_contact_view(self.customer),
            courier: self.courier,
            rating: opt_rating_view(self.rating),
        }
    }
}

/// A line item carries sane billing numbers: nonnegative quantity and
/// unit price, and a line total that fits the store's integer money.
pub open spec fn line_item_ok(it: LineItemModel) -> bool {
    0 <= it.quantity && 0 <= it.price && it.quantity * it.price <= i64::MAX
}

pub open spec fn items_ok(items: Seq<LineItemModel>) -> bool {
    forall|i: int| 0 <= i < items.len() ==> line_item_ok(#[trigger] items[i])
}

/// Every status other than `Available` and `Cancelled` is held by
/// exactly one deliverer.
pub open spec fn status_needs_deliverer(s: Status) -> bool {
    !(s == Status::Available || s == Status::Cancelled)
}

impl OrderModel {
    /// Well-formedness, established at creation and preserved by every
    /// lifecycle operation:
    /// the history starts with the initial `available` entry, its last
    /// entry always carries the current status, adjacent entries follow
    /// the transition table, timestamps are epoch-nonnegative, an
    /// available order has no deliverer, and any order past `available`
    /// (other than a cancelled one) has exactly one.
    #[verifier::opaque]
    pub open spec fn wf(self) -> bool {
        &&& self.history.len() >= 1
        &&& self.history[0].status == Status::Available
        &&& self.history.last().status == self.status
        &&& forall|i: int|
            1 <= i < self.history.len() ==> self.history[i - 1].status.spec_can_transition_to(
                (#[trigger] self.history[i]).status,
            )
        &&& forall|i: int| 0 <= i < self.history.len() ==> 0 <= (#[trigger] self.history[i]).timestamp
        &&& 0 <= self.placed_at
        &&& (self.status == Status::Available ==> self.deliverer_id is None)
        &&& (status_needs_deliverer(self.status) ==> self.deliverer_id is Some)
        &&& 0 <= self.delivery_fee
        &&& 0 <= self.total_amount
        &&& items_ok(self.items)
    }

    /// The order after one ordinary transition: the status is replaced
    /// and exactly one history entry is appended. Nothing else changes.
    pub open spec fn with_status(self, next: Status, ts: i64) -> OrderModel {
        OrderModel {
            status: next,
            history: self.history.push(HistoryEntry { status: next, timestamp: ts }),
            ..self
        }
    }

    /// The order after a successful accept: assigned to the deliverer,
    /// with the contact snapshot captured and one history entry appended.
    pub open spec fn accepted_by(self, deliverer: Seq<char>, rider: ContactModel, ts: i64) -> OrderModel {
        OrderModel {
            status: Status::Assigned,
            deliverer_id: Some(deliverer),
            rider: Some(rider),
            history: self.history.push(HistoryEntry { status: Status::Assigned, timestamp: ts }),
            ..self
        }
    }

    /// The order with a rating attached.
    pub open spec fn with_rating(self, rating: RatingModel) -> OrderModel {
        OrderModel { rating: Some(rating), ..self }
    }

    /// The order with fresh live courier coordinates.
    pub open spec fn with_courier(self, pos: CourierPosition) -> OrderModel {
        OrderModel { courier: Some(pos), ..self }
    }
}

/// An ordinary transition (anything the table admits except the accept
/// step, which also records the deliverer) preserves well-formedness.
#[verifier::rlimit(50)]
pub proof fn lemma_with_status_wf(m: OrderModel, next: Status, ts: i64)
    requires
        m.wf(),
        m.status.spec_can_transition_to(next),
        next != Status::Assigned,
        0 <= ts,
    ensures
        m.with_status(next, ts).wf(),
{
    reveal(OrderModel::wf);
    let n = m.with_status(next, ts);
    assert(n.history.last() == HistoryEntry { status: next, timestamp: ts });
    assert forall|i: int| 1 <= i < n.history.len() implies n.history[i - 1].status.spec_can_transition_to(
        (#[trigger] n.history[i]).status,
    ) by {
        if i < n.history.len() - 1 {
            assert(n.history[i] == m.history[i]);
        } else {
            assert(n.history[i - 1] == m.history[m.history.len() - 1]);
        }
    }
}

/// Attaching a rating or moving the live courier position does not
/// touch the status, history or parties, so well-formedness is kept.
#[verifier::rlimit(100)]
pub proof fn lemma_metadata_update_wf(m: OrderModel, rating: RatingModel, pos: CourierPosition)
    requires
        m.wf(),
    ensures
        m.with_rating(rating).wf(),
        m.with_courier(pos).wf(),
{
    reveal(OrderModel::wf);
}

/// What well-formedness gives a reader of one order: the invariants of
/// the data model, usable without unfolding the definition.
pub proof fn lemma_wf_facts(m: OrderModel)
    requires
        m.wf(),
    ensures
        m.history.len() >= 1,
        m.history[0].status == Status::Available,
        m.history.last().status == m.status,
        0 <= m.placed_at,
        m.status == Status::Available ==> m.deliverer_id is None,
        status_needs_deliverer(m.status) ==> m.deliverer_id is Some,
        0 <= m.delivery_fee,
        0 <= m.total_amount,
        items_ok(m.items),
{
    reveal(OrderModel::wf);
}

/// A successful accept preserves well-formedness.
#[verifier::rlimit(50)]
pub proof fn lemma_accepted_by_wf(m: OrderModel, deliverer: Seq<char>, rider: ContactModel, ts: i64)
    requires
        m.wf(),
        m.status == Status::Available,
        0 <= ts,
    ensures
        m.accepted_by(deliverer, rider, ts).wf(),
{
    reveal(OrderModel::wf);
    let n = m.accepted_by(deliverer, rider, ts);
    assert forall|i: int| 1 <= i < n.history.len() implies n.history[i - 1].status.spec_can_transition_to(
        (#[trigger] n.history[i]).status,
    ) by {
        if i < n.history.len() - 1 {
            assert(n.history[i] == m.history[i]);
        } else {
            assert(n.history[i - 1] == m.history[m.history.len() - 1]);
        }
    }
}

} // verus!
