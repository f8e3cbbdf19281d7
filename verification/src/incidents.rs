//! The append-only incident log: one record per reported delivery
//! incident, keyed by order id, never truncated or reordered.

use vstd::prelude::*;
use crate::auth::{has_role, Claims};
use crate::errors::ApiError;

verus! {

/// One reported incident.
#[derive(Clone, Debug, PartialEq, Eq)]
pub struct Incident {
    pub order_id: String,
    pub deliverer_id: String,
    pub note: String,
    /// Milliseconds since the epoch.
    pub created_at: i64,
}

pub ghost struct IncidentModel {
    pub order_id: Seq<char>,
    pub deliverer_id: Seq<char>,
    pub note: Seq<char>,
    pub created_at: i64,
}

impl View for Incident {
    type V = IncidentModel;

    open spec fn view(&self) -> IncidentModel {
        IncidentModel {
            order_id: self.order_id@,
            deliverer_id: self.deliverer_id@,
            note: self.note@,
            created_at: self.created_at,
        }
    }
}

/// The incident collection.
pub struct IncidentLog {
    entries: Vec<Incident>,
}

impl View for IncidentLog {
    type V = Seq<IncidentModel>;

    closed spec fn view(&self) -> Seq<IncidentModel> {
        self.entries@.map_values(|e: Incident| e@)
    }
}

impl IncidentLog {
    pub fn new() -> (r: IncidentLog)
        ensures
            r@ == Seq::<IncidentModel>::empty(),
    {
        let r = IncidentLog { entries: Vec::new() };
        proof {
            assert(r@ =~= Seq::<IncidentModel>::empty());
        }
        r
    }

    pub fn len(&self) -> (r: usize)
        ensures
            r == self@.len(),
    {
        self.entries.len()
    }

    pub fn nth(&self, i: usize) -> (r: &Incident)
        requires
            i < self@.len(),
        ensures
            r@ == self@[i as int],
    {
        &self.entries[i]
    }
}

/// Record an incident against an order: deliverers only; the log only
/// ever grows, by exactly this record.
pub fn report_incident(
    log: &mut IncidentLog,
    claims: &Claims,
    order_id: String,
    note: String,
    now: i64,
) -> (r: Result<(), ApiError>)
    ensures
        match r {
            Ok(()) => {
                &&& crate::engine::is_deliverer(claims@)
                &&& final(log)@ == old(log)@.push(
                    IncidentModel {
                        order_id: order_id@,
                        deliverer_id: claims@.sub,
                        note: note@,
                        created_at: now,
                    },
                )
            },
            Err(e) => {
                &&& !crate::engine::is_deliverer(claims@)
                &&& e == ApiError::Forbidden
                &&& final(log)@ == old(log)@
            },
        },
{
    if !has_role(claims, "deliverer") {
        return Err(ApiError::Forbidden);
    }
    let ghost s = log@;
    let entry = Incident {
        order_id: order_id,
        deliverer_id: claims.sub.clone(),
        note: note,
        created_at: now,
    };
    let ghost em = entry@;
    log.entries.push(entry);
    proof {
        assert(log@ =~= s.push(em));
    }
    Ok(())
}

} // verus!
