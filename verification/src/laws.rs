//! The crate-level laws of the lifecycle core, each proved from the
//! spec functions that the operations' own contracts are stated over.

use vstd::prelude::*;
use crate::auth::ClaimsModel;
use crate::engine::{
    assigned_to, is_deliverer, spec_accept_outcome, spec_cancel_outcome, spec_create_outcome,
    spec_get_customer_order_outcome, spec_new_order, spec_update_status_outcome,
    CreateOrderRequestModel,
};
use crate::errors::ApiError;
use crate::order::{lemma_wf_facts, OrderModel};
use crate::reaper::{is_stale, spec_reaped};
use crate::status::Status;
use crate::store::{contains_id, ids_unique, index_of, lemma_index_unique, order_of};
use crate::views::spec_customer_view;

verus! {

/// The status of a well-formed order always equals the status of the
/// last element of its status history, and the history is never empty.
pub proof fn law_status_matches_history(m: OrderModel)
    requires
        m.wf(),
    ensures
        m.history.len() >= 1,
        m.history.last().status == m.status,
{
    lemma_wf_facts(m);
}

/// After one reaper tick, every non-terminal order older than the
/// staleness window is `cancelled` and its history has grown by
/// exactly one entry; `reaper_tick` guarantees that each stored order
/// becomes `spec_reaped` of its old value.
pub proof fn law_reaper_cancels_stale(m: OrderModel, now: i64, window: i64)
    requires
        !m.status.spec_is_terminal(),
        m.placed_at < now - window,
    ensures
        spec_reaped(m, now, window).status == Status::Cancelled,
        spec_reaped(m, now, window).history.len() == m.history.len() + 1,
        spec_reaped(m, now, window).history.last() == (crate::order::HistoryEntry {
            status: Status::Cancelled,
            timestamp: now,
        }),
{
    assert(is_stale(m, now, window));
}

/// An order that is not stale at this tick is left exactly as it was.
pub proof fn law_reaper_spares_fresh(m: OrderModel, now: i64, window: i64)
    requires
        m.status.spec_is_terminal() || m.placed_at >= now - window,
    ensures
        spec_reaped(m, now, window) == m,
{
}

/// Accepting an already-`assigned` order always yields `Conflict` (and
/// `accept_order` then leaves the store unmodified). The caller here
/// is an authorized deliverer other than the order's customer; a
/// wrong-role caller or the order's own customer is rejected earlier,
/// with `Forbidden`.
pub proof fn law_accept_assigned_conflicts(s: Seq<OrderModel>, c: ClaimsModel, id: Seq<char>)
    requires
        is_deliverer(c),
        contains_id(s, id),
        order_of(s, id).status == Status::Assigned,
        order_of(s, id).customer_id != c.sub,
    ensures
        spec_accept_outcome(s, c, id) == Err::<(), ApiError>(ApiError::Conflict),
{
}

/// A transition the table of the lifecycle engine does not admit is
/// rejected with `Conflict`, whoever asks (and the rejecting
/// operations leave the store unmodified, so rejection is idempotent).
pub proof fn law_invalid_transition_rejected(
    s: Seq<OrderModel>,
    c: ClaimsModel,
    id: Seq<char>,
    next: Status,
)
    requires
        is_deliverer(c),
        contains_id(s, id),
        assigned_to(order_of(s, id), c.sub),
        !order_of(s, id).status.spec_can_transition_to(next),
    ensures
        spec_update_status_outcome(s, c, id, next) == Err::<(), ApiError>(ApiError::Conflict),
{
}

/// A terminal status admits no transition at all, so every update of a
/// delivered or cancelled order is rejected.
pub proof fn law_terminal_is_final(st: Status, next: Status)
    requires
        st.spec_is_terminal(),
    ensures
        !st.spec_can_transition_to(next),
{
}

/// A caller who is not the order's assigned deliverer can never move
/// its status through the deliverer flow: whatever the requested
/// status, the outcome is `Forbidden`.
pub proof fn law_update_status_requires_assignee(
    s: Seq<OrderModel>,
    c: ClaimsModel,
    id: Seq<char>,
    next: Status,
)
    requires
        contains_id(s, id),
        !assigned_to(order_of(s, id), c.sub),
    ensures
        spec_update_status_outcome(s, c, id, next) == Err::<(), ApiError>(ApiError::Forbidden),
{
}

/// A customer can never cancel an order they do not own: whatever the
/// order's state, the outcome is `Forbidden`.
pub proof fn law_cancel_requires_owner(s: Seq<OrderModel>, c: ClaimsModel, id: Seq<char>)
    requires
        contains_id(s, id),
        order_of(s, id).customer_id != c.sub,
    ensures
        spec_cancel_outcome(s, c, id) == Err::<(), ApiError>(ApiError::Forbidden),
{
}

/// A lost accept race: once one deliverer has taken an order, any
/// later accept by another deliverer is `Conflict`, the winner keeps
/// the order, and exactly one `assigned` entry was appended.
pub proof fn law_accept_race_single_winner(
    s: Seq<OrderModel>,
    b: ClaimsModel,
    c: ClaimsModel,
    id: Seq<char>,
    rider: crate::order::ContactModel,
    ts: i64,
)
    requires
        ids_unique(s),
        spec_accept_outcome(s, b, id) == Ok::<(), ApiError>(()),
        is_deliverer(c),
        c.sub != order_of(s, id).customer_id,
    ensures
        ({
            let won = order_of(s, id).accepted_by(b.sub, rider, ts);
            let s1 = s.update(index_of(s, id), won);
            &&& spec_accept_outcome(s1, c, id) == Err::<(), ApiError>(ApiError::Conflict)
            &&& order_of(s1, id).deliverer_id == Some(b.sub)
            &&& order_of(s1, id).history == order_of(s, id).history.push(
                crate::order::HistoryEntry { status: Status::Assigned, timestamp: ts },
            )
        }),
{
    let idx = index_of(s, id);
    assert(0 <= idx < s.len() && s[idx].id == id);
    let won = order_of(s, id).accepted_by(b.sub, rider, ts);
    let s1 = s.update(idx, won);
    assert forall|p: int, q: int|
        #![trigger s1[p].id, s1[q].id]
        0 <= p < q < s1.len() implies s1[p].id != s1[q].id by {
        assert(s[p].id != s[q].id);
    }
    lemma_index_unique(s1, id, idx);
    assert(order_of(s1, id) == won);
}

/// A read returns the history exactly as stored — same length, same
/// order, every entry intact — and its last entry carries the
/// returned status.
pub proof fn law_read_shows_history_exactly(m: OrderModel)
    requires
        m.wf(),
    ensures
        spec_customer_view(m).history == m.history,
        spec_customer_view(m).items == m.items,
        spec_customer_view(m).history.len() >= 1,
        spec_customer_view(m).history.last().status == spec_customer_view(m).status,
{
    lemma_wf_facts(m);
}

/// Round trip: an order created from a request and read back by its
/// customer shows exactly the request's line items — every field, in
/// the same order — and the one-entry history.
pub proof fn law_create_read_roundtrip(
    s: Seq<OrderModel>,
    c: ClaimsModel,
    req: CreateOrderRequestModel,
    id: Seq<char>,
    code: Seq<char>,
    now: i64,
)
    requires
        ids_unique(s),
        spec_create_outcome(s, c, req, id) == Ok::<(), ApiError>(()),
    ensures
        ({
            let s1 = s.push(spec_new_order(req, c.sub, id, code, now));
            &&& spec_get_customer_order_outcome(s1, c, id) == Ok::<(), ApiError>(())
            &&& spec_customer_view(order_of(s1, id)).items == req.items
            &&& spec_customer_view(order_of(s1, id)).history == seq![
                crate::order::HistoryEntry { status: Status::Available, timestamp: now },
            ]
        }),
{
    let m = spec_new_order(req, c.sub, id, code, now);
    let s1 = s.push(m);
    assert(s1[s.len() as int] == m);
    assert forall|p: int, q: int|
        #![trigger s1[p].id, s1[q].id]
        0 <= p < q < s1.len() implies s1[p].id != s1[q].id by {
        if q < s.len() {
            assert(s[p].id != s[q].id);
        } else {
            assert(s1[q] == m);
            assert(s1[p] == s[p]);
            if s[p].id == m.id {
                assert(contains_id(s, m.id));
            }
        }
    }
    lemma_index_unique(s1, id, s.len() as int);
    assert(order_of(s1, id) == m);
}

} // verus!
