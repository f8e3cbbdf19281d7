//! Per-deliverer earnings reporting: a pure aggregation of the
//! deliverer's delivered orders in an inclusive date range into a
//! total and per-day buckets, exactly as stated over the store
//! contents.

use vstd::prelude::*;
use crate::auth::{has_role, Claims};
use crate::dates::{date_range_millis, spec_date_range, MILLIS_PER_DAY};
use crate::errors::ApiError;
use crate::order::{lemma_wf_facts, OrderModel};
use crate::seqext::{lemma_filter_push, lemma_map_values_push, lemma_subrange_all, lemma_subrange_push};
use crate::status::Status;
use crate::store::OrderStore;
use crate::strutil::str_eq;

verus! {

/// An order this earnings query counts: delivered by the subject,
/// placed within the inclusive range.
pub open spec fn earn_pred(sub: Seq<char>, start: i64, end: i64) -> spec_fn(OrderModel) -> bool {
    |m: OrderModel| m.deliverer_id == Some(sub) && m.status == Status::Delivered && start
        <= m.placed_at && m.placed_at <= end
}

/// The civil day index (days since the epoch) a nonnegative
/// epoch-millisecond stamp falls in.
pub open spec fn spec_day_of(ts: i64) -> int {
    ts as int / (MILLIS_PER_DAY as int)
}

/// What each counted order contributes: its day index and its fee.
pub open spec fn earn_entry_of() -> spec_fn(OrderModel) -> (i64, i64) {
    |m: OrderModel| ((spec_day_of(m.placed_at)) as i64, m.delivery_fee)
}

/// The (day, fee) contributions of a store to this query, in stored
/// order.
pub open spec fn earn_entries(s: Seq<OrderModel>, sub: Seq<char>, start: i64, end: i64) -> Seq<
    (i64, i64),
> {
    s.filter(earn_pred(sub, start, end)).map_values(earn_entry_of())
}

/// The sum of the fees of a run of (day, fee) entries.
pub open spec fn sum_fees(ps: Seq<(i64, i64)>) -> int
    decreases ps.len(),
{
    if ps.len() == 0 {
        0
    } else {
        sum_fees(ps.drop_last()) + ps.last().1
    }
}

pub proof fn lemma_sum_fees_push(ps: Seq<(i64, i64)>, p: (i64, i64))
    ensures
        sum_fees(ps.push(p)) == sum_fees(ps) + p.1,
{
    assert(ps.push(p).drop_last() =~= ps);
    assert(ps.push(p).last() == p);
}

/// A sum of fees is bounded by the number of entries times the fee
/// range, so it always fits the wide accumulator.
pub proof fn lemma_sum_fees_bound(ps: Seq<(i64, i64)>)
    ensures
        -(ps.len() as int) * 0x8000_0000_0000_0000 <= sum_fees(ps) <= (ps.len() as int)
            * 0x8000_0000_0000_0000,
    decreases ps.len(),
{
    if ps.len() == 0 {
    } else {
        lemma_sum_fees_bound(ps.drop_last());
        let n = ps.len() as int;
        assert((n - 1) * 0x8000_0000_0000_0000 + 0x8000_0000_0000_0000 == n
            * 0x8000_0000_0000_0000) by (nonlinear_arith);
        assert(-(n - 1) * 0x8000_0000_0000_0000 - 0x8000_0000_0000_0000 == -n
            * 0x8000_0000_0000_0000) by (nonlinear_arith);
    }
}

/// The entries of one day.
pub open spec fn day_eq(d: i64) -> spec_fn((i64, i64)) -> bool {
    |p: (i64, i64)| p.0 == d
}

/// One per-day bucket of the report.
#[derive(Clone, Copy, Debug, PartialEq, Eq, Structural)]
pub struct DayEarnings {
    /// Days since the epoch.
    pub day: i64,
    /// Sum of the delivery fees of that day's counted orders.
    pub total: i128,
    /// How many orders that day.
    pub count: usize,
}

/// One bucket is correct for a run of entries: its totals are exactly
/// those of the entries of its day, and the day occurs.
pub open spec fn bucket_ok(ps: Seq<(i64, i64)>, b: DayEarnings) -> bool {
    &&& b.total == sum_fees(ps.filter(day_eq(b.day)))
    &&& b.count == ps.filter(day_eq(b.day)).len()
    &&& b.count >= 1
}

/// Every entry's day has a bucket.
pub open spec fn buckets_complete(ps: Seq<(i64, i64)>, rows: Seq<DayEarnings>) -> bool {
    forall|j: int|
        0 <= j < ps.len() ==> exists|k: int|
            0 <= k < rows.len() && rows[k].day == (#[trigger] ps[j]).0
}

/// Strictly ascending by day (so days are unique).
pub open spec fn days_sorted(rows: Seq<DayEarnings>) -> bool {
    forall|a: int, b: int|
        #![trigger rows[a].day, rows[b].day]
        0 <= a < b < rows.len() ==> rows[a].day < rows[b].day
}

/// The whole earnings report.
#[derive(Clone, Debug, PartialEq, Eq)]
pub struct EarningsReport {
    /// Start of the range, epoch milliseconds.
    pub from_millis: i64,
    /// End of the range, epoch milliseconds (inclusive).
    pub to_millis: i64,
    /// Sum of the fees of all counted orders.
    pub total_earnings: i128,
    /// How many counted orders.
    pub total_tasks: usize,
    /// Per-day buckets, strictly ascending by day.
    pub by_day: Vec<DayEarnings>,
}

/// Group a run of (day, fee) entries into per-day buckets, kept
/// sorted ascending by day.
#[verifier::rlimit(100)]
fn group_by_day(ps: &Vec<(i64, i64)>) -> (rows: Vec<DayEarnings>)
    ensures
        forall|k: int| 0 <= k < rows@.len() ==> bucket_ok(ps@, #[trigger] rows@[k]),
        buckets_complete(ps@, rows@),
        days_sorted(rows@),
{
    let n = ps.len();
    let mut rows: Vec<DayEarnings> = Vec::new();
    let mut j: usize = 0;
    proof {
        assert(ps@.subrange(0, 0) =~= Seq::<(i64, i64)>::empty());
        assert forall|d: i64| (#[trigger] ps@.subrange(0, 0).filter(day_eq(d))).len() == 0 by {
            reveal(Seq::filter);
        }
    }
    while j < n
        invariant
            j <= n,
            n == ps@.len(),
            forall|k: int|
                0 <= k < rows@.len() ==> bucket_ok(ps@.subrange(0, j as int), #[trigger] rows@[k]),
            buckets_complete(ps@.subrange(0, j as int), rows@),
            days_sorted(rows@),
            forall|d: i64|
                (exists|k: int| 0 <= k < rows@.len() && (#[trigger] rows@[k]).day == d)
                    || (#[trigger] ps@.subrange(0, j as int).filter(day_eq(d))).len() == 0,
        decreases n - j,
    {
        let ghost prefix = ps@.subrange(0, j as int);
        let (d, fee) = ps[j];
        let rn = rows.len();
        let mut k: usize = 0;
        while k < rn && rows[k].day < d
            invariant
                k <= rn,
                rn == rows@.len(),
                forall|a: int| 0 <= a < k ==> (#[trigger] rows@[a]).day < d,
            decreases rn - k,
        {
            k = k + 1;
        }
        let is_hit = k < rn && rows[k].day == d;
        proof {
            lemma_subrange_push(ps@, j as int);
            assert(ps@[j as int] == (d, fee));
        }
        if is_hit {
            let row = rows[k];
            proof {
                let fs = prefix.filter(day_eq(d));
                lemma_sum_fees_bound(fs);
                assert(fs.len() <= prefix.len()) by {
                    prefix.lemma_filter_len(day_eq(d));
                }
                assert((fs.len() as int) * 0x8000_0000_0000_0000
                    <= 0x7FFF_FFFF_FFFF_FFFF_8000_0000_0000_0000int && -(fs.len() as int)
                    * 0x8000_0000_0000_0000 >= -0x7FFF_FFFF_FFFF_FFFF_8000_0000_0000_0000int)
                    by (nonlinear_arith)
                    requires
                        fs.len() as int <= 0xFFFF_FFFF_FFFF_FFFFint,
                ;
            }
            let updated = DayEarnings {
                day: row.day,
                total: row.total + fee as i128,
                count: row.count + 1,
            };
            let ghost rold = rows@;
            rows.remove(k);
            rows.insert(k, updated);
            proof {
                assert(rows@ =~= rold.update(k as int, updated));
                assert(rold[k as int].day == d);
                assert forall|k2: int| 0 <= k2 < rows@.len() implies bucket_ok(
                    ps@.subrange(0, j as int + 1),
                    #[trigger] rows@[k2],
                ) by {
                    let b = rows@[k2];
                    lemma_filter_push(prefix, ps@[j as int], day_eq(b.day));
                    if k2 == k as int {
                        lemma_sum_fees_push(prefix.filter(day_eq(b.day)), ps@[j as int]);
                        assert(bucket_ok(prefix, rold[k2]));
                    } else {
                        assert(rows@[k2] == rold[k2]);
                        assert(bucket_ok(prefix, rold[k2]));
                        if k2 < k as int {
                            assert(rold[k2].day != rold[k as int].day);
                        } else {
                            assert(rold[k as int].day != rold[k2].day);
                        }
                    }
                }
                assert forall|j2: int| 0 <= j2 < j + 1 implies exists|k2: int|
                    0 <= k2 < rows@.len() && rows@[k2].day == (#[trigger] ps@.subrange(
                    0,
                    j as int + 1,
                )[j2]).0 by {
                    if j2 < j {
                        let k2 = choose|k2: int|
                            0 <= k2 < rold.len() && rold[k2].day == prefix[j2].0;
                        if k2 == k as int {
                            assert(rows@[k2].day == prefix[j2].0);
                        } else {
                            assert(rows@[k2] == rold[k2]);
                        }
                    } else {
                        assert(rows@[k as int].day == d);
                    }
                }
                assert forall|a: int, b: int|
                    #![trigger rows@[a].day, rows@[b].day]
                    0 <= a < b < rows@.len() implies rows@[a].day < rows@[b].day by {
                    assert(rows@[a].day == rold[a].day);
                    assert(rows@[b].day == rold[b].day);
                }
                assert forall|d2: i64| !(exists|k2: int|
                    0 <= k2 < rows@.len() && (#[trigger] rows@[k2]).day == d2) implies (ps@.subrange(
                    0,
                    j as int + 1,
                ).filter(day_eq(d2))).len() == 0 by {
                    assert forall|k2: int| 0 <= k2 < rold.len() implies (#[trigger] rold[k2]).day
                        != d2 by {
                        if k2 == k as int {
                            assert(rows@[k2].day == rold[k2].day);
                        } else {
                            assert(rows@[k2] == rold[k2]);
                        }
                    }
                    assert(prefix.filter(day_eq(d2)).len() == 0);
                    lemma_filter_push(prefix, ps@[j as int], day_eq(d2));
                    assert(rows@[k as int].day == d);
                }
            }
        } else {
            let ghost rold = rows@;
            proof {
                assert(prefix.filter(day_eq(d)).len() == 0) by {
                    if exists|k2: int| 0 <= k2 < rold.len() && (#[trigger] rold[k2]).day == d {
                        let k2 = choose|k2: int|
                            0 <= k2 < rold.len() && (#[trigger] rold[k2]).day == d;
                        if k2 < k as int {
                            assert(rold[k2].day < d);
                        } else {
                            if k < rn {
                                if k2 > k as int {
                                    assert(rold[k as int].day < rold[k2].day);
                                }
                                assert(rold[k as int].day != d);
                                assert(rold[k as int].day >= d);
                            }
                        }
                    }
                }
            }
            rows.insert(k, DayEarnings { day: d, total: fee as i128, count: 1 });
            proof {
                assert(forall|k2: int|
                    0 <= k2 < k as int ==> #[trigger] rows@[k2] == rold[k2]);
                assert(forall|k2: int|
                    (k as int) < k2 < rows@.len() ==> #[trigger] rows@[k2] == rold[k2 - 1]);
                assert(rows@[k as int] == DayEarnings { day: d, total: fee as i128, count: 1 });
                assert forall|k2: int| 0 <= k2 < rows@.len() implies bucket_ok(
                    ps@.subrange(0, j as int + 1),
                    #[trigger] rows@[k2],
                ) by {
                    let b = rows@[k2];
                    lemma_filter_push(prefix, ps@[j as int], day_eq(b.day));
                    if k2 == k as int {
                        assert(b.day == d);
                        assert(prefix.filter(day_eq(d)) =~= Seq::<(i64, i64)>::empty());
                        lemma_sum_fees_push(prefix.filter(day_eq(d)), ps@[j as int]);
                    } else {
                        let b0: int = if k2 < k as int {
                            k2
                        } else {
                            k2 - 1
                        };
                        assert(rows@[k2] == rold[b0]);
                        assert(bucket_ok(prefix, rold[b0]));
                        assert(rold[b0].day != d);
                    }
                }
                assert forall|j2: int| 0 <= j2 < j + 1 implies exists|k2: int|
                    0 <= k2 < rows@.len() && rows@[k2].day == (#[trigger] ps@.subrange(
                    0,
                    j as int + 1,
                )[j2]).0 by {
                    if j2 < j {
                        let k0 = choose|k0: int|
                            0 <= k0 < rold.len() && rold[k0].day == prefix[j2].0;
                        if k0 < k as int {
                            assert(rows@[k0] == rold[k0]);
                        } else {
                            assert(rows@[k0 + 1] == rold[k0]);
                        }
                    } else {
                        assert(rows@[k as int].day == d);
                    }
                }
                assert forall|a: int, b: int|
                    #![trigger rows@[a].day, rows@[b].day]
                    0 <= a < b < rows@.len() implies rows@[a].day < rows@[b].day by {
                    if b < k as int {
                        assert(rows@[a] == rold[a] && rows@[b] == rold[b]);
                    } else if b == k as int {
                        assert(rows@[a] == rold[a]);
                        assert(rold[a].day < d);
                    } else if a == k as int {
                        assert(rows@[b] == rold[b - 1]);
                        assert(k as int <= b - 1 < rold.len());
                        assert(rold[k as int].day >= d);
                        assert(rold[k as int].day != d);
                        if b - 1 > k as int {
                            assert(rold[k as int].day < rold[b - 1].day);
                        }
                    } else if a < k as int {
                        assert(rows@[a] == rold[a] && rows@[b] == rold[b - 1]);
                        assert(rold[a].day < d);
                        assert(k as int <= b - 1);
                        assert(rold[k as int].day >= d);
                        assert(rold[k as int].day != d);
                        if b - 1 > k as int {
                            assert(rold[k as int].day < rold[b - 1].day);
                        }
                    } else {
                        assert(rows@[a] == rold[a - 1] && rows@[b] == rold[b - 1]);
                    }
                }
                assert forall|d2: i64| !(exists|k2: int|
                    0 <= k2 < rows@.len() && (#[trigger] rows@[k2]).day == d2) implies (ps@.subrange(
                    0,
                    j as int + 1,
                ).filter(day_eq(d2))).len() == 0 by {
                    assert forall|k0: int| 0 <= k0 < rold.len() implies (#[trigger] rold[k0]).day
                        != d2 by {
                        if k0 < k as int {
                            assert(rows@[k0] == rold[k0]);
                        } else {
                            assert(rows@[k0 + 1] == rold[k0]);
                        }
                    }
                    assert(prefix.filter(day_eq(d2)).len() == 0);
                    lemma_filter_push(prefix, ps@[j as int], day_eq(d2));
                    assert(rows@[k as int].day == d);
                }
            }
        }
        j = j + 1;
    }
    proof {
        lemma_subrange_all(ps@);
    }
    rows
}

/// Earnings of a deliverer over an inclusive date range: the total and
/// count of their delivered orders placed in the range, and the same
/// split into per-day buckets sorted by day — each bucket exact, no
/// bucket empty, no counted day missing.
#[verifier::rlimit(100)]
pub fn list_earnings(store: &OrderStore, claims: &Claims, from: &str, to: &str) -> (r: Result<
    EarningsReport,
    ApiError,
>)
    requires
        store.wf(),
    ensures
        match r {
            Ok(rep) => {
                let range = spec_date_range(Some(from@), Some(to@));
                let ps = earn_entries(store@, claims@.sub, rep.from_millis, rep.to_millis);
                &&& crate::engine::is_deliverer(claims@)
                &&& range == Some((rep.from_millis, rep.to_millis))
                &&& rep.total_tasks == ps.len()
                &&& rep.total_earnings == sum_fees(ps)
                &&& days_sorted(rep.by_day@)
                &&& forall|k: int|
                    0 <= k < rep.by_day@.len() ==> bucket_ok(ps, #[trigger] rep.by_day@[k])
                &&& buckets_complete(ps, rep.by_day@)
            },
            Err(e) => {
                ||| (!crate::engine::is_deliverer(claims@) && e == ApiError::Forbidden)
                ||| (crate::engine::is_deliverer(claims@) && spec_date_range(
                    Some(from@),
                    Some(to@),
                ) is None && e == ApiError::Validation)
            },
        },
{
    if !has_role(claims, "deliverer") {
        return Err(ApiError::Forbidden);
    }
    let (start, end) = match date_range_millis(Some(from), Some(to)) {
        Some(r) => r,
        None => {
            return Err(ApiError::Validation);
        },
    };
    let ghost pred = earn_pred(claims@.sub, start, end);
    let ghost ef = earn_entry_of();
    let n = store.len();
    let mut ps: Vec<(i64, i64)> = Vec::new();
    let mut i: usize = 0;
    proof {
        assert(ps@ =~= store@.subrange(0, 0).filter(pred).map_values(ef));
    }
    while i < n
        invariant
            i <= n,
            n == store@.len(),
            store.wf(),
            pred == earn_pred(claims@.sub, start, end),
            ef == earn_entry_of(),
            ps@ == store@.subrange(0, i as int).filter(pred).map_values(ef),
        decreases n - i,
    {
        let o = store.nth(i);
        let mine = match &o.deliverer_id {
            Some(d) => str_eq(d.as_str(), claims.sub.as_str()),
            None => false,
        };
        let keep = mine && matches!(o.status, Status::Delivered) && start <= o.placed_at
            && o.placed_at <= end;
        if keep {
            proof {
                lemma_wf_facts(store@[i as int]);
            }
            let day = o.placed_at / MILLIS_PER_DAY;
            ps.push((day, o.delivery_fee));
        }
        proof {
            lemma_subrange_push(store@, i as int);
            lemma_filter_push(store@.subrange(0, i as int), store@[i as int], pred);
            if pred(store@[i as int]) {
                lemma_map_values_push(
                    store@.subrange(0, i as int).filter(pred),
                    store@[i as int],
                    ef,
                );
            }
        }
        i = i + 1;
    }
    proof {
        lemma_subrange_all(store@);
    }
    let pn = ps.len();
    let mut total: i128 = 0;
    let mut j: usize = 0;
    proof {
        assert(ps@.subrange(0, 0) =~= Seq::<(i64, i64)>::empty());
    }
    while j < pn
        invariant
            j <= pn,
            pn == ps@.len(),
            total == sum_fees(ps@.subrange(0, j as int)),
        decreases pn - j,
    {
        let (_, fee) = ps[j];
        proof {
            lemma_subrange_push(ps@, j as int);
            lemma_sum_fees_push(ps@.subrange(0, j as int), ps@[j as int]);
            lemma_sum_fees_bound(ps@.subrange(0, j as int + 1));
            lemma_sum_fees_bound(ps@.subrange(0, j as int));
            assert((j as int + 1) * 0x8000_0000_0000_0000
                <= 0x7FFF_FFFF_FFFF_FFFF_8000_0000_0000_0000int && -(j as int + 1)
                * 0x8000_0000_0000_0000 >= -0x7FFF_FFFF_FFFF_FFFF_8000_0000_0000_0000int)
                by (nonlinear_arith)
                requires
                    j as int + 1 <= 0xFFFF_FFFF_FFFF_FFFFint,
            ;
        }
        total = total + fee as i128;
        j = j + 1;
    }
    proof {
        lemma_subrange_all(ps@);
    }
    let by_day = group_by_day(&ps);
    Ok(
        EarningsReport {
            from_millis: start,
            to_millis: end,
            total_earnings: total,
            total_tasks: pn,
            by_day: by_day,
        },
    )
}

} // verus!
