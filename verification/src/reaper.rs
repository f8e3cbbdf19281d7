//! The stale-order reaper: a recurring sweep that force-cancels every
//! order stuck past the staleness window in a non-terminal state. It
//! acts with system authority (no per-request authorization) but
//! applies the exact same cancellation rule as the live flows, through
//! the same conditional update, so a sweep racing a legitimate
//! terminal transition is a silent no-op.

use vstd::prelude::*;
use crate::order::OrderModel;
use crate::seqext::{lemma_filter_push, lemma_subrange_all, lemma_subrange_push};
use crate::status::Status;
use crate::store::{lemma_index_unique, OrderStore};

verus! {

/// The observed staleness window: one hour, in milliseconds.
pub const STALE_AFTER_MILLIS: i64 = 3_600_000;

/// An order one tick must reap: non-terminal and placed before the
/// cutoff `now - window`.
pub open spec fn is_stale(m: OrderModel, now: i64, window: i64) -> bool {
    !m.status.spec_is_terminal() && m.placed_at < now - window
}

pub open spec fn stale_at(now: i64, window: i64) -> spec_fn(OrderModel) -> bool {
    |m: OrderModel| is_stale(m, now, window)
}

/// What one tick leaves of each order: a stale one is cancelled with a
/// history entry stamped `now`; every other order is untouched.
pub open spec fn spec_reaped(m: OrderModel, now: i64, window: i64) -> OrderModel {
    if is_stale(m, now, window) {
        m.with_status(Status::Cancelled, now)
    } else {
        m
    }
}

/// One reaper tick over the whole store. Returns how many orders were
/// cancelled.
#[verifier::rlimit(100)]
pub fn reaper_tick(store: &mut OrderStore, now: i64, window: i64) -> (count: usize)
    requires
        old(store).wf(),
        0 <= now,
        0 <= window,
    ensures
        final(store).wf(),
        final(store)@.len() == old(store)@.len(),
        forall|i: int|
            0 <= i < old(store)@.len() ==> final(store)@[i] == spec_reaped(
                #[trigger] old(store)@[i],
                now,
                window,
            ),
        count == old(store)@.filter(stale_at(now, window)).len(),
{
    let cutoff: i64 = now - window;
    let n = store.len();
    let mut i: usize = 0;
    let mut count: usize = 0;
    let ghost pred = stale_at(now, window);
    while i < n
        invariant
            i <= n,
            n == old(store)@.len(),
            store@.len() == n,
            store.wf(),
            0 <= now,
            0 <= window,
            cutoff == now - window,
            count <= i,
            forall|j: int|
                0 <= j < i ==> store@[j] == spec_reaped(#[trigger] old(store)@[j], now, window),
            forall|j: int| i <= j < n ==> store@[j] == (#[trigger] old(store)@[j]),
            pred == stale_at(now, window),
            count == old(store)@.subrange(0, i as int).filter(pred).len(),
        decreases n - i,
    {
        let ghost prefix = old(store)@.subrange(0, i as int);
        let (terminal, placed_at) = {
            let o = store.nth(i);
            (o.status.is_terminal(), o.placed_at)
        };
        if !terminal && placed_at < cutoff {
            let oid = {
                let o = store.nth(i);
                o.id.clone()
            };
            proof {
                lemma_index_unique(store@, oid@, i as int);
            }
            let reaped = store.cancel_if_active(oid.as_str(), now);
            assert(reaped);
            count = count + 1;
        }
        proof {
            lemma_subrange_push(old(store)@, i as int);
            lemma_filter_push(prefix, old(store)@[i as int], pred);
        }
        i = i + 1;
    }
    proof {
        lemma_subrange_all(old(store)@);
    }
    count
}

} // verus!
