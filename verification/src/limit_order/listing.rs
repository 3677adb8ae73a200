//! Listing the orders of a book: which entries of an order index a page
//! shows, in which order, and the orders they lead to.
use vstd::prelude::*;
use crate::math::page_limit;
use super::types::OrderDirection;
use super::order::Order;
use super::book::{order_by_from, page_n, spec_order_by, OrderBy, DEFAULT_LIMIT, MAX_LIMIT};

verus! {

/// An entry of an order index, kept in ascending order of ids: the order's
/// id and its direction.
#[derive(PartialEq, Eq, Structural, Clone, Copy, Debug)]
pub struct IndexEntry {
    pub order_id: u64,
    pub direction: OrderDirection,
}

/// Whether an entry is on a page: after `start_after` in the listing's order,
/// and of the direction asked for, if any.
pub open spec fn entry_selected(e: IndexEntry, direction: Option<OrderDirection>, start_after: Option<u64>, ascending: bool) -> bool {
    (match start_after {
        None => true,
        Some(s) => if ascending {
            e.order_id > s
        } else {
            e.order_id < s
        },
    }) && (match direction {
        Some(d) => e.direction == d,
        None => true,
    })
}

/// The selected entries, in ascending order of ids.
pub open spec fn entries_selected(
    s: Seq<IndexEntry>,
    direction: Option<OrderDirection>,
    start_after: Option<u64>,
    ascending: bool,
) -> Seq<IndexEntry> {
    s.filter(|e: IndexEntry| entry_selected(e, direction, start_after, ascending))
}

/// A page of an order index: the selected entries, ascending when asked,
/// descending otherwise, at most the page size.
pub open spec fn spec_select_entries(
    entries: Seq<IndexEntry>,
    direction: Option<OrderDirection>,
    start_after: Option<u64>,
    limit: Option<u32>,
    order_by: Option<i32>,
) -> Seq<IndexEntry> {
    let ascending = spec_order_by(order_by) == Some(OrderBy::Ascending);
    let n = page_n(limit);
    let sel = entries_selected(entries, direction, start_after, ascending);
    let ordered = if ascending {
        sel
    } else {
        sel.reverse()
    };
    if ordered.len() <= n {
        ordered
    } else {
        ordered.take(n)
    }
}

/// The entries of an order index on a page.
pub fn select_entries(
    entries: &Vec<IndexEntry>,
    direction: Option<OrderDirection>,
    start_after: Option<u64>,
    limit: Option<u32>,
    order_by: Option<i32>,
) -> (r: Vec<IndexEntry>)
    ensures
        r@ == spec_select_entries(entries@, direction, start_after, limit, order_by),
{
    let ascending = match order_by_from(order_by) {
        Some(OrderBy::Ascending) => true,
        _ => false,
    };
    let n = page_limit(limit, DEFAULT_LIMIT, MAX_LIMIT) as usize;
    let ghost sel = entries_selected(entries@, direction, start_after, ascending);
    let mut all: Vec<IndexEntry> = Vec::new();
    let mut i: usize = 0;
    while i < entries.len()
        invariant
            i <= entries@.len(),
            all@ == entries_selected(entries@.subrange(0, i as int), direction, start_after, ascending),
        decreases entries@.len() - i,
    {
        proof {
            reveal(Seq::filter);
            assert(entries@.subrange(0, i + 1).drop_last() =~= entries@.subrange(0, i as int));
        }
        let e = entries[i];
        let in_range = match start_after {
            None => true,
            Some(s) => if ascending {
                e.order_id > s
            } else {
                e.order_id < s
            },
        };
        let same_direction = match direction {
            Some(d) => e.direction == d,
            None => true,
        };
        if in_range && same_direction {
            all.push(e);
        }
        i = i + 1;
    }
    proof {
        assert(entries@.subrange(0, entries@.len() as int) =~= entries@);
        assert(n == page_n(limit));
    }
    let mut r: Vec<IndexEntry> = Vec::new();
    let total = all.len();
    let mut k: usize = 0;
    let ghost ordered = if ascending {
        sel
    } else {
        sel.reverse()
    };
    while k < total && k < n
        invariant
            total == all@.len(),
            all@ == sel,
            ordered == (if ascending {
                sel
            } else {
                sel.reverse()
            }),
            k <= total,
            k <= n,
            r@ == ordered.take(k as int),
        decreases total - k,
    {
        let e = if ascending {
            all[k]
        } else {
            all[total - 1 - k]
        };
        proof {
            assert(ordered.take(k + 1) =~= ordered.take(k as int).push(e));
        }
        r.push(e);
        k = k + 1;
    }
    proof {
        assert(ordered.len() == total);
        if k == total {
            assert(ordered.take(k as int) =~= ordered);
        }
        let spec_r = spec_select_entries(entries@, direction, start_after, limit, order_by);
        if ordered.len() <= n {
            assert(r@ =~= spec_r);
        } else {
            assert(r@ =~= spec_r);
        }
    }
    r
}

/// The orders a page leads to: all of them when every one is found, and
/// none when some entry leads to no order.
pub fn orders_found(loaded: &Vec<Option<Order>>) -> (r: Vec<Order>)
    ensures
        (forall|i: int| 0 <= i < loaded@.len() ==> (#[trigger] loaded@[i]) is Some) ==> r@.len() == loaded@.len()
            && forall|i: int| 0 <= i < loaded@.len() ==> r@[i] == (#[trigger] loaded@[i])->Some_0,
        (exists|i: int| 0 <= i < loaded@.len() && (#[trigger] loaded@[i]) is None) ==> r@.len() == 0,
{
    let mut out: Vec<Order> = Vec::new();
    let mut i: usize = 0;
    while i < loaded.len()
        invariant
            i <= loaded@.len(),
            out@.len() == i,
            forall|k: int| 0 <= k < i ==> (#[trigger] loaded@[k]) is Some && out@[k] == loaded@[k]->Some_0,
        decreases loaded@.len() - i,
    {
        match &loaded[i] {
            Some(o) => {
                out.push(o.duplicate());
            },
            None => {
                return Vec::new();
            },
        }
        i = i + 1;
    }
    out
}

} // verus!
