//! Restaurant sales reporting: revenue, order count and the
//! best-selling items over a trailing range of days, aggregated from
//! the restaurant's orders in the store.

use vstd::prelude::*;
use crate::auth::{has_role, Claims};
use crate::errors::ApiError;
use crate::order::{line_item_ok, lemma_wf_facts, LineItem, LineItemModel, OrderModel};
use crate::seqext::{
    lemma_filter_push, lemma_flatten_push, lemma_map_values_push, lemma_subrange_all,
    lemma_subrange_push,
};
use crate::store::OrderStore;
use crate::strutil::str_eq;

verus! {

/// An order this report counts: the restaurant's own, placed at or
/// after the range start.
pub open spec fn report_pred(sub: Seq<char>, start: i64) -> spec_fn(OrderModel) -> bool {
    |m: OrderModel| m.restaurant_id == sub && m.placed_at >= start
}

/// The item runs of a run of orders.
pub open spec fn items_of_orders() -> spec_fn(OrderModel) -> Seq<LineItemModel> {
    |m: OrderModel| m.items
}

/// The line items of all counted orders, flattened in stored order.
pub open spec fn item_entries(s: Seq<OrderModel>, sub: Seq<char>, start: i64) -> Seq<
    LineItemModel,
> {
    s.filter(report_pred(sub, start)).map_values(items_of_orders()).flatten()
}

/// The view of a run of owned line items.
pub open spec fn li_views(v: Seq<LineItem>) -> Seq<LineItemModel> {
    v.map_values(|it: LineItem| it@)
}

/// The sum of the order totals of a run of orders.
pub open spec fn sum_amounts(s: Seq<OrderModel>) -> int
    decreases s.len(),
{
    if s.len() == 0 {
        0
    } else {
        sum_amounts(s.drop_last()) + s.last().total_amount
    }
}

pub proof fn lemma_sum_amounts_push(s: Seq<OrderModel>, m: OrderModel)
    ensures
        sum_amounts(s.push(m)) == sum_amounts(s) + m.total_amount,
{
    assert(s.push(m).drop_last() =~= s);
    assert(s.push(m).last() == m);
}

pub proof fn lemma_sum_amounts_bound(s: Seq<OrderModel>)
    ensures
        -(s.len() as int) * 0x8000_0000_0000_0000 <= sum_amounts(s) <= (s.len() as int)
            * 0x8000_0000_0000_0000,
    decreases s.len(),
{
    if s.len() == 0 {
    } else {
        lemma_sum_amounts_bound(s.drop_last());
        let n = s.len() as int;
        assert((n - 1) * 0x8000_0000_0000_0000 + 0x8000_0000_0000_0000 == n
            * 0x8000_0000_0000_0000) by (nonlinear_arith);
        assert(-(n - 1) * 0x8000_0000_0000_0000 - 0x8000_0000_0000_0000 == -n
            * 0x8000_0000_0000_0000) by (nonlinear_arith);
    }
}

/// The line items of one menu item.
pub open spec fn item_eq(id: Seq<char>) -> spec_fn(LineItemModel) -> bool {
    |it: LineItemModel| it.menu_item_id == id
}

/// Units sold across a run of line items.
pub open spec fn sum_quantity(items: Seq<LineItemModel>) -> int
    decreases items.len(),
{
    if items.len() == 0 {
        0
    } else {
        sum_quantity(items.drop_last()) + items.last().quantity
    }
}

/// Revenue (units times unit price) across a run of line items.
pub open spec fn sum_revenue(items: Seq<LineItemModel>) -> int
    decreases items.len(),
{
    if items.len() == 0 {
        0
    } else {
        sum_revenue(items.drop_last()) + items.last().quantity * items.last().price
    }
}

pub proof fn lemma_sums_push(items: Seq<LineItemModel>, it: LineItemModel)
    ensures
        sum_quantity(items.push(it)) == sum_quantity(items) + it.quantity,
        sum_revenue(items.push(it)) == sum_revenue(items) + it.quantity * it.price,
{
    assert(items.push(it).drop_last() =~= items);
    assert(items.push(it).last() == it);
}

/// With sane billing numbers on every item, both sums are nonnegative
/// and bounded by the item count times the line-total range, so they
/// fit the wide accumulators.
pub proof fn lemma_sums_bound(items: Seq<LineItemModel>)
    requires
        forall|i: int| 0 <= i < items.len() ==> line_item_ok(#[trigger] items[i]),
    ensures
        0 <= sum_quantity(items) <= (items.len() as int) * 0x8000_0000_0000_0000,
        0 <= sum_revenue(items) <= (items.len() as int) * 0x8000_0000_0000_0000,
    decreases items.len(),
{
    if items.len() == 0 {
    } else {
        assert(forall|i: int|
            0 <= i < items.drop_last().len() ==> line_item_ok(#[trigger] items.drop_last()[i]));
        lemma_sums_bound(items.drop_last());
        let n = items.len() as int;
        assert(line_item_ok(items.last()));
        assert((n - 1) * 0x8000_0000_0000_0000 + 0x8000_0000_0000_0000 == n
            * 0x8000_0000_0000_0000) by (nonlinear_arith);
    }
}

/// One row of the best-sellers table.
#[derive(Clone, Debug, PartialEq, Eq)]
pub struct ItemSales {
    pub menu_item_id: String,
    /// Name snapshot of the first counted occurrence.
    pub name: String,
    /// Units sold.
    pub quantity: i128,
    /// Units times unit price, summed.
    pub revenue: i128,
}

pub ghost struct ItemSalesModel {
    pub menu_item_id: Seq<char>,
    pub name: Seq<char>,
    pub quantity: i128,
    pub revenue: i128,
}

impl View for ItemSales {
    type V = ItemSalesModel;

    open spec fn view(&self) -> ItemSalesModel {
        ItemSalesModel {
            menu_item_id: self.menu_item_id@,
            name: self.name@,
            quantity: self.quantity,
            revenue: self.revenue,
        }
    }
}

/// A row is correct for a run of line items: its menu item occurs, the
/// name is the first occurrence's snapshot, and the quantity and
/// revenue are exactly that item's sums.
pub open spec fn row_ok(items: Seq<LineItemModel>, r: ItemSalesModel) -> bool {
    let f = items.filter(item_eq(r.menu_item_id));
    &&& f.len() >= 1
    &&& r.name == f[0].name
    &&& r.quantity == sum_quantity(f)
    &&& r.revenue == sum_revenue(f)
}

/// Some row is for this menu item.
pub open spec fn has_id(rows: Seq<ItemSales>, d: Seq<char>) -> bool {
    exists|k: int| 0 <= k < rows.len() && (#[trigger] rows[k])@.menu_item_id == d
}

/// Every line item's menu item has a row.
pub open spec fn rows_complete(items: Seq<LineItemModel>, rows: Seq<ItemSales>) -> bool {
    forall|j: int|
        #![trigger items[j]]
        0 <= j < items.len() ==> has_id(rows, items[j].menu_item_id)
}

pub open spec fn row_ids_unique(rows: Seq<ItemSales>) -> bool {
    forall|a: int, b: int|
        #![trigger rows[a]@.menu_item_id, rows[b]@.menu_item_id]
        0 <= a < b < rows.len() ==> rows[a]@.menu_item_id != rows[b]@.menu_item_id
}

/// Best sellers first: non-increasing revenue.
pub open spec fn revenue_sorted(rows: Seq<ItemSales>) -> bool {
    forall|a: int, b: int|
        #![trigger rows[a]@.revenue, rows[b]@.revenue]
        0 <= a < b < rows.len() ==> rows[a]@.revenue >= rows[b]@.revenue
}

/// Menu items without a row contribute no entries.
pub open spec fn rows_cover(items: Seq<LineItemModel>, rows: Seq<ItemSales>) -> bool {
    forall|d: Seq<char>|
        has_id(rows, d) || (#[trigger] items.filter(item_eq(d))).len() == 0
}

/// The trailing window a range selector names, in days: `today` is one
/// day, `7d` seven, anything else thirty.
pub open spec fn spec_range_days(r: Seq<char>) -> i64 {
    if r == "today"@ {
        1
    } else if r == "7d"@ {
        7
    } else {
        30
    }
}

fn parse_range_days(range: &str) -> (r: i64)
    ensures
        r == spec_range_days(range@),
{
    if str_eq(range, "today") {
        1
    } else if str_eq(range, "7d") {
        7
    } else {
        30
    }
}

/// The whole sales report.
#[derive(Clone, Debug, PartialEq, Eq)]
pub struct SalesReport {
    /// The trailing window, in days.
    pub range_days: i64,
    /// Start of the window, epoch milliseconds.
    pub start_millis: i64,
    /// How many counted orders.
    pub order_count: usize,
    /// Sum of the counted orders' totals.
    pub total_revenue: i128,
    /// Per-menu-item sales, best revenue first.
    pub top_items: Vec<ItemSales>,
}

/// A filtered line item keeps the billing bound of its source run.
proof fn lemma_filter_elem_ok(items: Seq<LineItemModel>, id: Seq<char>, i: int)
    requires
        forall|j: int| 0 <= j < items.len() ==> line_item_ok(#[trigger] items[j]),
        0 <= i < items.filter(item_eq(id)).len(),
    ensures
        line_item_ok(items.filter(item_eq(id))[i]),
    decreases items.len(),
{
    reveal(Seq::filter);
    if items.len() > 0 {
        let rest = items.drop_last().filter(item_eq(id));
        assert(forall|j: int|
            0 <= j < items.drop_last().len() ==> line_item_ok(#[trigger] items.drop_last()[j]));
        if item_eq(id)(items.last()) {
            if i < rest.len() {
                lemma_filter_elem_ok(items.drop_last(), id, i);
            } else {
                assert(items.filter(item_eq(id))[i] == items.last());
            }
        } else {
            lemma_filter_elem_ok(items.drop_last(), id, i);
        }
    }
}

/// Walk the store once: count the restaurant's in-range orders, sum
/// their totals, and copy out their line items, flattened in stored
/// order.
#[verifier::rlimit(100)]
fn collect(store: &OrderStore, claims: &Claims, start: i64) -> (r: (usize, i128, Vec<LineItem>))
    requires
        store.wf(),
    ensures
        ({
            let filtered = store@.filter(report_pred(claims@.sub, start));
            &&& r.0 == filtered.len()
            &&& r.1 == sum_amounts(filtered)
            &&& li_views(r.2@) == item_entries(store@, claims@.sub, start)
            &&& forall|j: int| 0 <= j < r.2@.len() ==> line_item_ok((#[trigger] r.2@[j])@)
        }),
{
    let ghost pred = report_pred(claims@.sub, start);
    let ghost iof = items_of_orders();
    let n = store.len();
    let mut count: usize = 0;
    let mut total: i128 = 0;
    let mut flat: Vec<LineItem> = Vec::new();
    let mut i: usize = 0;
    proof {
        let f0 = store@.subrange(0, 0).filter(pred);
        assert(store@.subrange(0, 0) =~= Seq::<OrderModel>::empty());
        reveal(Seq::filter);
        assert(f0.map_values(iof) =~= Seq::<Seq<LineItemModel>>::empty());
        assert(li_views(flat@) =~= f0.map_values(iof).flatten());
    }
    while i < n
        invariant
            i <= n,
            n == store@.len(),
            store.wf(),
            pred == report_pred(claims@.sub, start),
            iof == items_of_orders(),
            count == store@.subrange(0, i as int).filter(pred).len(),
            total == sum_amounts(store@.subrange(0, i as int).filter(pred)),
            li_views(flat@) == store@.subrange(0, i as int).filter(pred).map_values(iof).flatten(),
            forall|j: int| 0 <= j < flat@.len() ==> line_item_ok((#[trigger] flat@[j])@),
        decreases n - i,
    {
        let ghost prefix = store@.subrange(0, i as int);
        let o = store.nth(i);
        let keep = str_eq(o.restaurant_id.as_str(), claims.sub.as_str()) && o.placed_at >= start;
        if keep {
            proof {
                lemma_wf_facts(store@[i as int]);
                let fs = prefix.filter(pred);
                lemma_sum_amounts_bound(fs);
                lemma_sum_amounts_bound(fs.push(store@[i as int]));
                lemma_sum_amounts_push(fs, store@[i as int]);
                assert(fs.len() <= prefix.len()) by {
                    prefix.lemma_filter_len(pred);
                }
                assert((fs.len() as int + 1) * 0x8000_0000_0000_0000
                    <= 0x7FFF_FFFF_FFFF_FFFF_8000_0000_0000_0000int && -(fs.len() as int + 1)
                    * 0x8000_0000_0000_0000 >= -0x7FFF_FFFF_FFFF_FFFF_8000_0000_0000_0000int)
                    by (nonlinear_arith)
                    requires
                        fs.len() as int + 1 <= 0xFFFF_FFFF_FFFF_FFFFint,
                ;
            }
            count = count + 1;
            total = total + o.total_amount as i128;
            let ghost base = li_views(flat@);
            let ghost m = store@[i as int];
            let items_n = o.items.len();
            let mut t: usize = 0;
            proof {
                assert(m.items.subrange(0, 0) =~= Seq::<LineItemModel>::empty());
                assert(li_views(flat@) =~= base + m.items.subrange(0, 0));
            }
            while t < items_n
                invariant
                    t <= items_n,
                    items_n == o.items@.len(),
                    o@ == m,
                    li_views(flat@) == base + m.items.subrange(0, t as int),
                    forall|j: int| 0 <= j < flat@.len() ==> line_item_ok((#[trigger] flat@[j])@),
                    crate::order::items_ok(m.items),
                decreases items_n - t,
            {
                let it = &o.items[t];
                let ghost fpre = flat@;
                flat.push(
                    LineItem {
                        menu_item_id: it.menu_item_id.clone(),
                        name: it.name.clone(),
                        size: it.size.clone(),
                        spiciness: it.spiciness.clone(),
                        add_drink: it.add_drink,
                        quantity: it.quantity,
                        price: it.price,
                    },
                );
                proof {
                    assert(line_item_ok(m.items[t as int]));
                    assert(flat@.last()@ == m.items[t as int]);
                    assert(li_views(flat@) =~= li_views(fpre).push(m.items[t as int]));
                    lemma_subrange_push(m.items, t as int);
                    assert(li_views(flat@) =~= base + m.items.subrange(0, t as int + 1));
                }
                t = t + 1;
            }
            proof {
                assert(m.items.subrange(0, m.items.len() as int) =~= m.items);
            }
        }
        proof {
            lemma_subrange_push(store@, i as int);
            lemma_filter_push(prefix, store@[i as int], pred);
            if pred(store@[i as int]) {
                lemma_map_values_push(prefix.filter(pred), store@[i as int], iof);
                lemma_flatten_push(prefix.filter(pred).map_values(iof), store@[i as int].items);
            }
        }
        i = i + 1;
    }
    proof {
        lemma_subrange_all(store@);
    }
    (count, total, flat)
}

/// One grouping step where the menu item already has a row.
#[verifier::rlimit(100)]
proof fn lemma_group_step_existing(
    items: Seq<LineItemModel>,
    prefix: Seq<LineItemModel>,
    j: int,
    rpre: Seq<ItemSales>,
    rows: Seq<ItemSales>,
    k: int,
)
    requires
        0 <= j < items.len(),
        prefix == items.subrange(0, j),
        0 <= k < rpre.len(),
        rows.len() == rpre.len(),
        forall|k2: int| 0 <= k2 < rows.len() && k2 != k ==> (#[trigger] rows[k2]) == rpre[k2],
        rows[k]@.menu_item_id == rpre[k]@.menu_item_id,
        rows[k]@.name == rpre[k]@.name,
        rpre[k]@.menu_item_id == items[j].menu_item_id,
        rows[k]@.quantity == rpre[k]@.quantity + items[j].quantity,
        rows[k]@.revenue == rpre[k]@.revenue + items[j].quantity * items[j].price,
        forall|k2: int| 0 <= k2 < rpre.len() ==> row_ok(prefix, (#[trigger] rpre[k2])@),
        row_ids_unique(rpre),
        rows_complete(prefix, rpre),
        rows_cover(prefix, rpre),
    ensures
        forall|k2: int| 0 <= k2 < rows.len() ==> row_ok(items.subrange(0, j + 1), (#[trigger] rows[k2])@),
        row_ids_unique(rows),
        rows_complete(items.subrange(0, j + 1), rows),
        rows_cover(items.subrange(0, j + 1), rows),
{
    lemma_subrange_push(items, j);
    let ext = items.subrange(0, j + 1);
    assert forall|k2: int| 0 <= k2 < rows.len() implies row_ok(ext, (#[trigger] rows[k2])@) by {
        let b = rows[k2]@;
        lemma_filter_push(prefix, items[j], item_eq(b.menu_item_id));
        if k2 == k {
            lemma_sums_push(prefix.filter(item_eq(b.menu_item_id)), items[j]);
            assert(row_ok(prefix, rpre[k]@));
        } else {
            assert(row_ok(prefix, rpre[k2]@));
            if k2 < k {
                assert(rpre[k2]@.menu_item_id != rpre[k]@.menu_item_id);
            } else {
                assert(rpre[k]@.menu_item_id != rpre[k2]@.menu_item_id);
            }
        }
    }
    assert forall|a: int, b: int|
        #![trigger rows[a]@.menu_item_id, rows[b]@.menu_item_id]
        0 <= a < b < rows.len() implies rows[a]@.menu_item_id != rows[b]@.menu_item_id by {
        assert(rows[a]@.menu_item_id == rpre[a]@.menu_item_id);
        assert(rows[b]@.menu_item_id == rpre[b]@.menu_item_id);
        assert(rpre[a]@.menu_item_id != rpre[b]@.menu_item_id);
    }
    assert forall|j2: int| #![trigger items[j2]] 0 <= j2 < ext.len() implies has_id(
        rows,
        items[j2].menu_item_id,
    ) by {
        if j2 < j {
            assert(prefix[j2] == items[j2]);
            let k2 = choose|k2: int|
                0 <= k2 < rpre.len() && (#[trigger] rpre[k2])@.menu_item_id
                    == items[j2].menu_item_id;
            assert(rows[k2]@.menu_item_id == rpre[k2]@.menu_item_id);
        } else {
            assert(rows[k]@.menu_item_id == items[j].menu_item_id);
        }
    }
    assert forall|j2: int| #![trigger ext[j2]] 0 <= j2 < ext.len() implies has_id(
        rows,
        ext[j2].menu_item_id,
    ) by {
        assert(ext[j2] == items[j2]);
        assert(has_id(rows, items[j2].menu_item_id));
    }
    assert forall|d: Seq<char>| !has_id(rows, d) implies (ext.filter(item_eq(d))).len() == 0 by {
        assert forall|k2: int| 0 <= k2 < rpre.len() implies (#[trigger] rpre[k2])@.menu_item_id
            != d by {
            assert(rows[k2]@.menu_item_id == rpre[k2]@.menu_item_id);
        }
        assert(!has_id(rpre, d));
        assert(prefix.filter(item_eq(d)).len() == 0);
        lemma_filter_push(prefix, items[j], item_eq(d));
        assert(rows[k]@.menu_item_id == items[j].menu_item_id);
    }
}

/// One grouping step where the menu item is new.
#[verifier::rlimit(100)]
proof fn lemma_group_step_new(
    items: Seq<LineItemModel>,
    prefix: Seq<LineItemModel>,
    j: int,
    rold: Seq<ItemSales>,
    rows: Seq<ItemSales>,
)
    requires
        0 <= j < items.len(),
        prefix == items.subrange(0, j),
        rows.len() == rold.len() + 1,
        forall|k2: int| 0 <= k2 < rold.len() ==> (#[trigger] rows[k2]) == rold[k2],
        rows[rows.len() - 1]@.menu_item_id == items[j].menu_item_id,
        rows[rows.len() - 1]@.name == items[j].name,
        rows[rows.len() - 1]@.quantity == items[j].quantity,
        rows[rows.len() - 1]@.revenue == items[j].quantity * items[j].price,
        prefix.filter(item_eq(items[j].menu_item_id)).len() == 0,
        forall|k2: int| 0 <= k2 < rold.len() ==> row_ok(prefix, (#[trigger] rold[k2])@),
        row_ids_unique(rold),
        rows_complete(prefix, rold),
        rows_cover(prefix, rold),
    ensures
        forall|k2: int| 0 <= k2 < rows.len() ==> row_ok(items.subrange(0, j + 1), (#[trigger] rows[k2])@),
        row_ids_unique(rows),
        rows_complete(items.subrange(0, j + 1), rows),
        rows_cover(items.subrange(0, j + 1), rows),
{
    lemma_subrange_push(items, j);
    let ext = items.subrange(0, j + 1);
    let id = items[j].menu_item_id;
    assert forall|k2: int| 0 <= k2 < rows.len() implies row_ok(ext, (#[trigger] rows[k2])@) by {
        let b = rows[k2]@;
        lemma_filter_push(prefix, items[j], item_eq(b.menu_item_id));
        if k2 == rows.len() - 1 {
            assert(prefix.filter(item_eq(id)) =~= Seq::<LineItemModel>::empty());
            lemma_sums_push(prefix.filter(item_eq(id)), items[j]);
        } else {
            assert(rows[k2] == rold[k2]);
            assert(row_ok(prefix, rold[k2]@));
            assert(b.menu_item_id != id) by {
                if b.menu_item_id == id {
                    assert(prefix.filter(item_eq(b.menu_item_id)).len() >= 1);
                }
            }
        }
    }
    assert forall|a: int, b: int|
        #![trigger rows[a]@.menu_item_id, rows[b]@.menu_item_id]
        0 <= a < b < rows.len() implies rows[a]@.menu_item_id != rows[b]@.menu_item_id by {
        if b < rows.len() - 1 {
            assert(rows[a] == rold[a] && rows[b] == rold[b]);
            assert(rold[a]@.menu_item_id != rold[b]@.menu_item_id);
        } else {
            assert(rows[a] == rold[a]);
            assert(rows[b]@.menu_item_id == id);
            if rold[a]@.menu_item_id == id {
                assert(row_ok(prefix, rold[a]@));
                assert(prefix.filter(item_eq(id)).len() >= 1);
            }
        }
    }
    assert forall|j2: int| #![trigger items[j2]] 0 <= j2 < ext.len() implies has_id(
        rows,
        items[j2].menu_item_id,
    ) by {
        if j2 < j {
            assert(prefix[j2] == items[j2]);
            let k2 = choose|k2: int|
                0 <= k2 < rold.len() && (#[trigger] rold[k2])@.menu_item_id
                    == items[j2].menu_item_id;
            assert(rows[k2]@.menu_item_id == rold[k2]@.menu_item_id);
        } else {
            assert(rows[rows.len() - 1]@.menu_item_id == items[j].menu_item_id);
        }
    }
    assert forall|j2: int| #![trigger ext[j2]] 0 <= j2 < ext.len() implies has_id(
        rows,
        ext[j2].menu_item_id,
    ) by {
        assert(ext[j2] == items[j2]);
        assert(has_id(rows, items[j2].menu_item_id));
    }
    assert forall|d: Seq<char>| !has_id(rows, d) implies (ext.filter(item_eq(d))).len() == 0 by {
        assert forall|k2: int| 0 <= k2 < rold.len() implies (#[trigger] rold[k2])@.menu_item_id
            != d by {
            assert(rows[k2] == rold[k2]);
        }
        assert(!has_id(rold, d));
        assert(prefix.filter(item_eq(d)).len() == 0);
        lemma_filter_push(prefix, items[j], item_eq(d));
        assert(rows[rows.len() - 1]@.menu_item_id == id);
    }
}

/// Group flattened line items into one row per menu item, in
/// first-appearance order, with exact totals.
#[verifier::rlimit(100)]
fn group_items(flat: Vec<LineItem>) -> (rows: Vec<ItemSales>)
    requires
        forall|j: int| 0 <= j < flat@.len() ==> line_item_ok((#[trigger] flat@[j])@),
    ensures
        forall|k: int| 0 <= k < rows@.len() ==> row_ok(li_views(flat@), (#[trigger] rows@[k])@),
        rows_complete(li_views(flat@), rows@),
        row_ids_unique(rows@),
{
    let ghost items = li_views(flat@);
    let n = flat.len();
    let mut rows: Vec<ItemSales> = Vec::new();
    let mut j: usize = 0;
    proof {
        assert(items.subrange(0, 0) =~= Seq::<LineItemModel>::empty());
        assert forall|d: Seq<char>| (#[trigger] items.subrange(0, 0).filter(item_eq(d))).len()
            == 0 by {
            reveal(Seq::filter);
        }
    }
    while j < n
        invariant
            j <= n,
            n == flat@.len(),
            items == li_views(flat@),
            forall|j2: int| 0 <= j2 < flat@.len() ==> line_item_ok((#[trigger] flat@[j2])@),
            forall|k: int|
                0 <= k < rows@.len() ==> row_ok(items.subrange(0, j as int), (#[trigger] rows@[k])@),
            rows_complete(items.subrange(0, j as int), rows@),
            row_ids_unique(rows@),
            rows_cover(items.subrange(0, j as int), rows@),
        decreases n - j,
    {
        let ghost prefix = items.subrange(0, j as int);
        let it = &flat[j];
        let ghost itm = items[j as int];
        proof {
            assert(itm == flat@[j as int]@);
        }
        let rn = rows.len();
        let mut k: usize = 0;
        while k < rn && !str_eq(rows[k].menu_item_id.as_str(), it.menu_item_id.as_str())
            invariant
                k <= rn,
                rn == rows@.len(),
                j < flat@.len(),
                itm == flat@[j as int]@,
                it@ == itm,
                forall|a: int|
                    0 <= a < k ==> (#[trigger] rows@[a])@.menu_item_id != itm.menu_item_id,
            decreases rn - k,
        {
            k = k + 1;
        }
        if k < rn {
            // existing row for this menu item
            let row_q = rows[k].quantity;
            let row_r = rows[k].revenue;
            proof {
                let rid = rows@[k as int]@.menu_item_id;
                let fs = prefix.filter(item_eq(rid));
                assert forall|i2: int| 0 <= i2 < prefix.len() implies line_item_ok(
                    #[trigger] prefix[i2],
                ) by {
                    assert(prefix[i2] == items[i2]);
                    assert(items[i2] == flat@[i2]@);
                }
                assert forall|i2: int| 0 <= i2 < fs.len() implies line_item_ok(
                    #[trigger] fs[i2],
                ) by {
                    lemma_filter_elem_ok(prefix, rid, i2);
                }
                lemma_sums_bound(fs);
                assert(fs.len() <= prefix.len()) by {
                    prefix.lemma_filter_len(item_eq(rid));
                }
                assert((fs.len() as int + 1) * 0x8000_0000_0000_0000
                    <= 0x7FFF_FFFF_FFFF_FFFF_8000_0000_0000_0000int) by (nonlinear_arith)
                    requires
                        fs.len() as int + 1 <= 0xFFFF_FFFF_FFFF_FFFFint,
                ;
                assert(line_item_ok(itm));
                assert(0 <= itm.quantity * itm.price) by (nonlinear_arith)
                    requires
                        0 <= itm.quantity,
                        0 <= itm.price,
                ;
            }
            let qp = (it.quantity as i128) * (it.price as i128);
            let ghost rpre = rows@;
            let old_row = rows.remove(k);
            let updated = ItemSales {
                menu_item_id: old_row.menu_item_id,
                name: old_row.name,
                quantity: row_q + it.quantity as i128,
                revenue: row_r + qp,
            };
            rows.insert(k, updated);
            proof {
                assert(rows@ =~= rpre.update(k as int, updated));
                assert(forall|k2: int|
                    0 <= k2 < rows@.len() && k2 != k as int ==> (#[trigger] rows@[k2]) == rpre[k2]);
                lemma_group_step_existing(items, prefix, j as int, rpre, rows@, k as int);
            }
        } else {
            let ghost rold = rows@;
            proof {
                assert(prefix.filter(item_eq(itm.menu_item_id)).len() == 0) by {
                    if has_id(rold, itm.menu_item_id) {
                        let k2 = choose|k2: int|
                            0 <= k2 < rold.len() && (#[trigger] rold[k2])@.menu_item_id
                                == itm.menu_item_id;
                        assert(rold[k2]@.menu_item_id != itm.menu_item_id);
                    }
                }
                assert(line_item_ok(itm));
                assert(0 <= itm.quantity * itm.price) by (nonlinear_arith)
                    requires
                        0 <= itm.quantity,
                        0 <= itm.price,
                ;
            }
            rows.push(
                ItemSales {
                    menu_item_id: it.menu_item_id.clone(),
                    name: it.name.clone(),
                    quantity: it.quantity as i128,
                    revenue: (it.quantity as i128) * (it.price as i128),
                },
            );
            proof {
                lemma_group_step_new(items, prefix, j as int, rold, rows@);
            }
        }
        j = j + 1;
    }
    proof {
        lemma_subrange_all(items);
    }
    rows
}

/// Sort the best-sellers table by revenue, best first. Rows move
/// wholesale: each stays exact for its menu item, ids stay unique, and
/// every menu item keeps its row.
#[verifier::rlimit(100)]
fn sort_rows(rows: Vec<ItemSales>, Ghost(items): Ghost<Seq<LineItemModel>>) -> (sorted: Vec<
    ItemSales,
>)
    requires
        forall|k: int| 0 <= k < rows@.len() ==> row_ok(items, (#[trigger] rows@[k])@),
        row_ids_unique(rows@),
        rows_complete(items, rows@),
    ensures
        sorted@.len() == rows@.len(),
        forall|k: int| 0 <= k < sorted@.len() ==> row_ok(items, (#[trigger] sorted@[k])@),
        row_ids_unique(sorted@),
        rows_complete(items, sorted@),
        revenue_sorted(sorted@),
{
    let mut rest = rows;
    let mut sorted: Vec<ItemSales> = Vec::new();
    proof {
        assert(rest@ == rows@);
    }
    while rest.len() > 0
        invariant
            sorted@.len() + rest@.len() == rows@.len(),
            forall|k: int| 0 <= k < sorted@.len() ==> row_ok(items, (#[trigger] sorted@[k])@),
            forall|k: int| 0 <= k < rest@.len() ==> row_ok(items, (#[trigger] rest@[k])@),
            row_ids_unique(sorted@),
            row_ids_unique(rest@),
            forall|a: int, b: int|
                #![trigger sorted@[a]@.menu_item_id, rest@[b]@.menu_item_id]
                0 <= a < sorted@.len() && 0 <= b < rest@.len() ==> sorted@[a]@.menu_item_id
                    != rest@[b]@.menu_item_id,
            revenue_sorted(sorted@),
            forall|a: int, b: int|
                #![trigger sorted@[a]@.revenue, rest@[b]@.revenue]
                0 <= a < sorted@.len() && 0 <= b < rest@.len() ==> sorted@[a]@.revenue
                    >= rest@[b]@.revenue,
            forall|j: int|
                #![trigger items[j]]
                0 <= j < items.len() ==> has_id(sorted@, items[j].menu_item_id) || has_id(
                    rest@,
                    items[j].menu_item_id,
                ),
        decreases rest.len(),
    {
        let rn = rest.len();
        let mut max_i: usize = 0;
        let mut k: usize = 1;
        while k < rn
            invariant
                max_i < k <= rn,
                rn == rest@.len(),
                forall|a: int|
                    0 <= a < k ==> (#[trigger] rest@[a])@.revenue <= rest@[max_i as int]@.revenue,
            decreases rn - k,
        {
            if rest[k].revenue > rest[max_i].revenue {
                max_i = k;
            }
            k = k + 1;
        }
        let ghost rest_old = rest@;
        let ghost mi = max_i as int;
        let picked = rest.remove(max_i);
        let ghost sorted_old = sorted@;
        sorted.push(picked);
        proof {
            assert(picked == rest_old[mi]);
            assert forall|a: int| 0 <= a < rest@.len() implies (#[trigger] rest@[a]) == rest_old[
                if a < mi {
                    a
                } else {
                    a + 1
                }
            ] by {}
            assert forall|j: int| #![trigger items[j]] 0 <= j < items.len() implies has_id(
                sorted@,
                items[j].menu_item_id,
            ) || has_id(rest@, items[j].menu_item_id) by {
                if has_id(sorted_old, items[j].menu_item_id) {
                    let k2 = choose|k2: int|
                        0 <= k2 < sorted_old.len() && (#[trigger] sorted_old[k2])@.menu_item_id
                            == items[j].menu_item_id;
                    assert(sorted@[k2]@.menu_item_id == items[j].menu_item_id);
                } else {
                    assert(has_id(rest_old, items[j].menu_item_id));
                    let k2 = choose|k2: int|
                        0 <= k2 < rest_old.len() && (#[trigger] rest_old[k2])@.menu_item_id
                            == items[j].menu_item_id;
                    if k2 == mi {
                        assert(sorted@[sorted@.len() - 1]@.menu_item_id == items[j].menu_item_id);
                    } else if k2 < mi {
                        assert(rest@[k2]@.menu_item_id == items[j].menu_item_id);
                    } else {
                        assert(rest@[k2 - 1]@.menu_item_id == items[j].menu_item_id);
                    }
                }
            }
        }
    }
    sorted
}

/// The sales report of a restaurant over a trailing range of days: how
/// many of its orders were placed in the window, their summed totals,
/// and per-menu-item sales sorted by revenue — each row exact, ids
/// unique, and no sold item missing.
pub fn reports(store: &OrderStore, claims: &Claims, range: &str, now: i64) -> (r: Result<
    SalesReport,
    ApiError,
>)
    requires
        store.wf(),
        0 <= now,
    ensures
        match r {
            Ok(rep) => {
                let filtered = store@.filter(report_pred(claims@.sub, rep.start_millis));
                let items = item_entries(store@, claims@.sub, rep.start_millis);
                &&& crate::engine::is_restaurant(claims@)
                &&& rep.range_days == spec_range_days(range@)
                &&& rep.start_millis == now - rep.range_days * 86_400_000
                &&& rep.order_count == filtered.len()
                &&& rep.total_revenue == sum_amounts(filtered)
                &&& forall|k: int|
                    0 <= k < rep.top_items@.len() ==> row_ok(items, (#[trigger] rep.top_items@[k])@)
                &&& row_ids_unique(rep.top_items@)
                &&& rows_complete(items, rep.top_items@)
                &&& revenue_sorted(rep.top_items@)
            },
            Err(e) => !crate::engine::is_restaurant(claims@) && e == ApiError::Forbidden,
        },
{
    if !has_role(claims, "restaurant") {
        return Err(ApiError::Forbidden);
    }
    let days = parse_range_days(range);
    let start = now - days * 86_400_000;
    let (count, total, flat) = collect(store, claims, start);
    let ghost items = li_views(flat@);
    let grouped = group_items(flat);
    let top_items = sort_rows(grouped, Ghost(items));
    Ok(
        SalesReport {
            range_days: days,
            start_millis: start,
            order_count: count,
            total_revenue: total,
            top_items: top_items,
        },
    )
}

} // verus!
