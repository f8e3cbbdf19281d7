//! The order store adapter: one logical collection of orders keyed by
//! the opaque order id. Every mutation is an atomic conditional update
//! (match on id and on the expected current state, or change nothing),
//! which is the sole concurrency-control primitive of the design.

use vstd::prelude::*;
use crate::order::{Contact, CourierPosition, HistoryEntry, Order, OrderModel, Rating};
use crate::status::Status;
use crate::strutil::str_eq;

verus! {

/// There is an order with this id.
pub open spec fn contains_id(s: Seq<OrderModel>, id: Seq<char>) -> bool {
    exists|i: int| 0 <= i < s.len() && s[i].id == id
}

/// The position of the order with this id (meaningful when ids are
/// unique and the id is present).
pub open spec fn index_of(s: Seq<OrderModel>, id: Seq<char>) -> int {
    choose|i: int| 0 <= i < s.len() && s[i].id == id
}

/// The order with this id.
pub open spec fn order_of(s: Seq<OrderModel>, id: Seq<char>) -> OrderModel {
    s[index_of(s, id)]
}

/// No two orders share an id.
pub open spec fn ids_unique(s: Seq<OrderModel>) -> bool {
    forall|i: int, j: int|
        #![trigger s[i].id, s[j].id]
        0 <= i < j < s.len() ==> s[i].id != s[j].id
}

/// Every stored order is well-formed.
pub open spec fn all_wf(s: Seq<OrderModel>) -> bool {
    forall|i: int| 0 <= i < s.len() ==> (#[trigger] s[i]).wf()
}

/// An order that matches by id sits at the index found, and is the one
/// `index_of` names.
pub proof fn lemma_index_unique(s: Seq<OrderModel>, id: Seq<char>, i: int)
    requires
        ids_unique(s),
        0 <= i < s.len(),
        s[i].id == id,
    ensures
        contains_id(s, id),
        index_of(s, id) == i,
        order_of(s, id) == s[i],
{
    assert(contains_id(s, id));
    let k = index_of(s, id);
    assert(0 <= k < s.len() && s[k].id == id);
    if k != i {
        assert(s[k].id != s[i].id);
    }
}

/// Replacing one order by a well-formed order with the same id keeps
/// the store invariant.
#[verifier::rlimit(100)]
pub proof fn lemma_update_keeps_invariant(s: Seq<OrderModel>, i: int, m: OrderModel)
    requires
        ids_unique(s),
        all_wf(s),
        0 <= i < s.len(),
        m.wf(),
        m.id == s[i].id,
    ensures
        ids_unique(s.update(i, m)),
        all_wf(s.update(i, m)),
{
    let t = s.update(i, m);
    assert forall|p: int, q: int|
        #![trigger t[p].id, t[q].id]
        0 <= p < q < t.len() implies t[p].id != t[q].id by {
        assert(s[p].id != s[q].id);
    }
    assert forall|p: int| 0 <= p < t.len() implies (#[trigger] t[p]).wf() by {
        if p != i {
            assert(t[p] == s[p]);
            assert(s[p].wf());
        }
    }
}

/// Appending an order with a fresh id keeps the store invariant.
pub proof fn lemma_push_keeps_invariant(s: Seq<OrderModel>, m: OrderModel)
    requires
        ids_unique(s),
        all_wf(s),
        m.wf(),
        !contains_id(s, m.id),
    ensures
        ids_unique(s.push(m)),
        all_wf(s.push(m)),
{
    let t = s.push(m);
    assert forall|p: int, q: int|
        #![trigger t[p].id, t[q].id]
        0 <= p < q < t.len() implies t[p].id != t[q].id by {
        if q < s.len() {
            assert(s[p].id != s[q].id);
        } else {
            assert(t[q] == m);
            assert(t[p] == s[p]);
            if s[p].id == m.id {
                assert(contains_id(s, m.id));
            }
        }
    }
    assert forall|p: int| 0 <= p < t.len() implies (#[trigger] t[p]).wf() by {
        if p < s.len() {
            assert(t[p] == s[p]);
            assert(s[p].wf());
        } else {
            assert(t[p] == m);
        }
    }
}

/// The orders collection.
pub struct OrderStore {
    orders: Vec<Order>,
}

impl View for OrderStore {
    type V = Seq<OrderModel>;

    closed spec fn view(&self) -> Seq<OrderModel> {
        self.orders@.map_values(|o: Order| o@)
    }
}

impl OrderStore {
    /// Ids are unique and every stored order is well-formed.
    pub open spec fn wf(&self) -> bool {
        ids_unique(self@) && all_wf(self@)
    }

    pub fn new() -> (r: OrderStore)
        ensures
            r.wf(),
            r@ == Seq::<OrderModel>::empty(),
    {
        let r = OrderStore { orders: Vec::new() };
        proof {
            assert(r@ =~= Seq::<OrderModel>::empty());
        }
        r
    }

    pub fn len(&self) -> (r: usize)
        ensures
            r == self@.len(),
    {
        self.orders.len()
    }

    /// Read access to the order at a position, for filtered listings.
    pub fn nth(&self, i: usize) -> (r: &Order)
        requires
            i < self@.len(),
        ensures
            r@ == self@[i as int],
    {
        &self.orders[i]
    }

    fn find_index(&self, id: &str) -> (r: Option<usize>)
        requires
            ids_unique(self@),
        ensures
            match r {
                Some(i) => {
                    &&& i < self@.len()
                    &&& self@[i as int].id == id@
                    &&& contains_id(self@, id@)
                    &&& index_of(self@, id@) == i
                    &&& order_of(self@, id@) == self@[i as int]
                },
                None => !contains_id(self@, id@),
            },
    {
        let n = self.orders.len();
        let mut i: usize = 0;
        while i < n
            invariant
                i <= n,
                n == self@.len(),
                ids_unique(self@),
                forall|j: int| 0 <= j < i ==> (#[trigger] self@[j]).id != id@,
            decreases n - i,
        {
            if str_eq(self.orders[i].id.as_str(), id) {
                proof {
                    assert(self@[i as int].id == id@);
                    lemma_index_unique(self@, id@, i as int);
                }
                return Some(i);
            }
            i = i + 1;
        }
        proof {
            if contains_id(self@, id@) {
                let k = choose|k: int| 0 <= k < self@.len() && self@[k].id == id@;
                assert(self@[k].id != id@);
            }
        }
        None
    }

    /// Find-by-id.
    pub fn get(&self, id: &str) -> (r: Option<&Order>)
        requires
            ids_unique(self@),
        ensures
            match r {
                Some(o) => contains_id(self@, id@) && o@ == order_of(self@, id@),
                None => !contains_id(self@, id@),
            },
    {
        match self.find_index(id) {
            Some(i) => Some(&self.orders[i]),
            None => None,
        }
    }

    /// Insert a new order; a no-op returning false when the id is
    /// already taken.
    pub fn insert_new(&mut self, order: Order) -> (r: bool)
        requires
            old(self).wf(),
            order@.wf(),
        ensures
            final(self).wf(),
            r == !contains_id(old(self)@, order@.id),
            r ==> final(self)@ == old(self)@.push(order@),
            !r ==> final(self)@ == old(self)@,
    {
        match self.find_index(order.id.as_str()) {
            Some(_) => false,
            None => {
                let ghost s = self@;
                let ghost m = order@;
                self.orders.push(order);
                proof {
                    assert(self@ =~= s.push(m));
                    lemma_push_keeps_invariant(s, m);
                }
                true
            },
        }
    }

    /// Atomic conditional update backing the accept operation: match on
    /// the id and on current status `available`; on a match, assign the
    /// deliverer, capture the contact snapshot and append the history
    /// entry. A lost race (status no longer available) changes nothing.
    #[verifier::rlimit(100)]
    pub fn assign_if_available(&mut self, id: &str, deliverer_id: String, rider: Contact, ts: i64) -> (r: bool)
        requires
            old(self).wf(),
            0 <= ts,
        ensures
            final(self).wf(),
            r == (contains_id(old(self)@, id@) && order_of(old(self)@, id@).status == Status::Available),
            r ==> final(self)@ == old(self)@.update(
                index_of(old(self)@, id@),
                order_of(old(self)@, id@).accepted_by(deliverer_id@, rider@, ts),
            ),
            !r ==> final(self)@ == old(self)@,
    {
        let idx = match self.find_index(id) {
            Some(i) => i,
            None => {
                return false;
            },
        };
        if !matches!(self.orders[idx].status, Status::Available) {
            return false;
        }
        let ghost s = self@;
        let ghost prev = self@[idx as int];
        let ghost upd = prev.accepted_by(deliverer_id@, rider@, ts);
        let mut o = self.orders.remove(idx);
        o.status = Status::Assigned;
        o.deliverer_id = Some(deliverer_id);
        o.rider = Some(rider);
        o.history.push(HistoryEntry { status: Status::Assigned, timestamp: ts });
        self.orders.insert(idx, o);
        proof {
            assert(o@ == upd);
            assert(self@ =~= s.update(idx as int, upd));
            assert(prev.wf());
            crate::order::lemma_accepted_by_wf(prev, deliverer_id@, rider@, ts);
            lemma_update_keeps_invariant(s, idx as int, upd);
        }
        true
    }

    /// Atomic conditional update backing the status-update operations:
    /// match on the id and on the expected current status; on a match,
    /// set the next status and append the history entry.
    #[verifier::rlimit(100)]
    pub fn update_status_if(&mut self, id: &str, expected: Status, next: Status, ts: i64) -> (r: bool)
        requires
            old(self).wf(),
            expected.spec_can_transition_to(next),
            next != Status::Assigned,
            0 <= ts,
        ensures
            final(self).wf(),
            r == (contains_id(old(self)@, id@) && order_of(old(self)@, id@).status == expected),
            r ==> final(self)@ == old(self)@.update(
                index_of(old(self)@, id@),
                order_of(old(self)@, id@).with_status(next, ts),
            ),
            !r ==> final(self)@ == old(self)@,
    {
        let idx = match self.find_index(id) {
            Some(i) => i,
            None => {
                return false;
            },
        };
        if !(self.orders[idx].status == expected) {
            return false;
        }
        let ghost s = self@;
        let ghost prev = self@[idx as int];
        let ghost upd = prev.with_status(next, ts);
        let mut o = self.orders.remove(idx);
        o.status = next;
        o.history.push(HistoryEntry { status: next, timestamp: ts });
        self.orders.insert(idx, o);
        proof {
            assert(o@ == upd);
            assert(self@ =~= s.update(idx as int, upd));
            assert(prev.wf());
            crate::order::lemma_with_status_wf(prev, next, ts);
            lemma_update_keeps_invariant(s, idx as int, upd);
        }
        true
    }

    /// Atomic conditional update backing cancellation (customer cancel
    /// and the reaper): match on the id and on a non-terminal status; on
    /// a match, cancel and append the history entry. A terminal order is
    /// left untouched, so a sweep racing a terminal transition is a
    /// silent no-op.
    #[verifier::rlimit(100)]
    pub fn cancel_if_active(&mut self, id: &str, ts: i64) -> (r: bool)
        requires
            old(self).wf(),
            0 <= ts,
        ensures
            final(self).wf(),
            r == (contains_id(old(self)@, id@) && !order_of(old(self)@, id@).status.spec_is_terminal()),
            r ==> final(self)@ == old(self)@.update(
                index_of(old(self)@, id@),
                order_of(old(self)@, id@).with_status(Status::Cancelled, ts),
            ),
            !r ==> final(self)@ == old(self)@,
    {
        let idx = match self.find_index(id) {
            Some(i) => i,
            None => {
                return false;
            },
        };
        if self.orders[idx].status.is_terminal() {
            return false;
        }
        let ghost s = self@;
        let ghost prev = self@[idx as int];
        let ghost upd = prev.with_status(Status::Cancelled, ts);
        let mut o = self.orders.remove(idx);
        o.status = Status::Cancelled;
        o.history.push(HistoryEntry { status: Status::Cancelled, timestamp: ts });
        self.orders.insert(idx, o);
        proof {
            assert(o@ == upd);
            assert(self@ =~= s.update(idx as int, upd));
            assert(prev.wf());
            crate::order::lemma_with_status_wf(prev, Status::Cancelled, ts);
            lemma_update_keeps_invariant(s, idx as int, upd);
        }
        true
    }

    /// Atomic conditional update backing rating attachment: match on
    /// the id and on terminal status `delivered`.
    #[verifier::rlimit(100)]
    pub fn attach_rating_if_delivered(&mut self, id: &str, rating: Rating) -> (r: bool)
        requires
            old(self).wf(),
        ensures
            final(self).wf(),
            r == (contains_id(old(self)@, id@) && order_of(old(self)@, id@).status == Status::Delivered),
            r ==> final(self)@ == old(self)@.update(
                index_of(old(self)@, id@),
                order_of(old(self)@, id@).with_rating(rating@),
            ),
            !r ==> final(self)@ == old(self)@,
    {
        let idx = match self.find_index(id) {
            Some(i) => i,
            None => {
                return false;
            },
        };
        if !matches!(self.orders[idx].status, Status::Delivered) {
            return false;
        }
        let ghost s = self@;
        let ghost prev = self@[idx as int];
        let ghost upd = prev.with_rating(rating@);
        let mut o = self.orders.remove(idx);
        o.rating = Some(rating);
        self.orders.insert(idx, o);
        proof {
            assert(o@ == upd);
            assert(self@ =~= s.update(idx as int, upd));
            assert(prev.wf());
            crate::order::lemma_metadata_update_wf(prev, rating@, crate::order::CourierPosition { lat_micro: 0, lng_micro: 0, updated_at: 0 });
            lemma_update_keeps_invariant(s, idx as int, upd);
        }
        true
    }

    /// Update of the live courier coordinates: match on the id; the
    /// position is not part of the status history.
    #[verifier::rlimit(100)]
    pub fn set_courier_position(&mut self, id: &str, pos: CourierPosition) -> (r: bool)
        requires
            old(self).wf(),
        ensures
            final(self).wf(),
            r == contains_id(old(self)@, id@),
            r ==> final(self)@ == old(self)@.update(
                index_of(old(self)@, id@),
                order_of(old(self)@, id@).with_courier(pos),
            ),
            !r ==> final(self)@ == old(self)@,
    {
        let idx = match self.find_index(id) {
            Some(i) => i,
            None => {
                return false;
            },
        };
        let ghost s = self@;
        let ghost prev = self@[idx as int];
        let ghost upd = prev.with_courier(pos);
        let mut o = self.orders.remove(idx);
        o.courier = Some(pos);
        self.orders.insert(idx, o);
        proof {
            assert(o@ == upd);
            assert(self@ =~= s.update(idx as int, upd));
            assert(prev.wf());
            crate::order::lemma_metadata_update_wf(prev, crate::order::RatingModel { score: 0, comment: None }, pos);
            lemma_update_keeps_invariant(s, idx as int, upd);
        }
        true
    }
}

} // verus!
