//! A pair's book held in memory: its orders by id and, for each side, the
//! count of orders at each price. Storing and removing keep the counts
//! equal to the orders.
use vstd::prelude::*;
use std::collections::HashMap;
use super::types::OrderDirection;
use super::order::{Order, spec_price_defined};
use super::flows::{
    book_after_remove, book_after_store, tick_after_remove, tick_after_store, tick_count, tick_key,
    ticks_consistent, lemma_remove_keeps_ticks, lemma_store_keeps_ticks, spec_tick_after_remove, TickWrite,
};

verus! {

/// The orders of one pair and the tick counts of each side, keyed by price
/// in decimal atomics.
pub struct OrderStore {
    orders: HashMap<u64, Order>,
    buy_ticks: HashMap<u128, u64>,
    sell_ticks: HashMap<u128, u64>,
}

impl OrderStore {
    /// The stored orders, by id.
    pub closed spec fn orders(&self) -> Map<u64, Order> {
        self.orders@
    }

    closed spec fn side(&self, d: OrderDirection) -> Map<u128, u64> {
        match d {
            OrderDirection::Buy => self.buy_ticks@,
            OrderDirection::Sell => self.sell_ticks@,
        }
    }

    /// The tick counts, by side and price.
    pub closed spec fn ticks(&self) -> Map<(OrderDirection, int), u64> {
        Map::new(
            |k: (OrderDirection, int)| 0 <= k.1 <= u128::MAX && self.side(k.0).contains_key(k.1 as u128),
            |k: (OrderDirection, int)| self.side(k.0)[k.1 as u128],
        )
    }

    /// An empty book.
    pub fn new() -> (s: OrderStore)
        ensures
            s.orders() == Map::<u64, Order>::empty(),
            s.ticks() == Map::<(OrderDirection, int), u64>::empty(),
            ticks_consistent(s.orders(), s.ticks()),
    {
        let s = OrderStore { orders: HashMap::new(), buy_ticks: HashMap::new(), sell_ticks: HashMap::new() };
        assert(s.ticks() =~= Map::<(OrderDirection, int), u64>::empty());
        assert forall|k: (OrderDirection, int)| #[trigger] super::flows::orders_at(s.orders(), k).len() == tick_count(s.ticks(), k) by {
            assert(super::flows::orders_at(s.orders(), k) =~= Set::<u64>::empty());
        }
        s
    }

    /// The stored order with this id.
    pub fn get_order(&self, order_id: u64) -> (r: Option<&Order>)
        ensures
            match r {
                Some(o) => self.orders().contains_key(order_id) && self.orders()[order_id] == *o,
                None => !self.orders().contains_key(order_id),
            },
    {
        broadcast use vstd::std_specs::hash::group_hash_axioms;
        self.orders.get(&order_id)
    }

    /// The count kept at a side and price, if any.
    pub fn tick(&self, d: OrderDirection, price: u128) -> (r: Option<u64>)
        ensures
            r == (if self.ticks().contains_key((d, price as int)) { Some(self.ticks()[(d, price as int)]) } else { None }),
    {
        broadcast use vstd::std_specs::hash::group_hash_axioms;
        let r = match d {
            OrderDirection::Buy => self.buy_ticks.get(&price),
            OrderDirection::Sell => self.sell_ticks.get(&price),
        };
        match r {
            Some(n) => Some(*n),
            None => None,
        }
    }

    fn set_tick(&mut self, d: OrderDirection, price: u128, n: u64)
        ensures
            final(self).orders() == old(self).orders(),
            final(self).ticks() == old(self).ticks().insert((d, price as int), n),
    {
        broadcast use vstd::std_specs::hash::group_hash_axioms;
        match d {
            OrderDirection::Buy => {
                self.buy_ticks.insert(price, n);
            },
            OrderDirection::Sell => {
                self.sell_ticks.insert(price, n);
            },
        }
        assert(self.ticks() =~= old(self).ticks().insert((d, price as int), n));
    }

    fn drop_tick(&mut self, d: OrderDirection, price: u128)
        ensures
            final(self).orders() == old(self).orders(),
            final(self).ticks() == old(self).ticks().remove((d, price as int)),
    {
        broadcast use vstd::std_specs::hash::group_hash_axioms;
        match d {
            OrderDirection::Buy => {
                self.buy_ticks.remove(&price);
            },
            OrderDirection::Sell => {
                self.sell_ticks.remove(&price);
            },
        }
        assert(self.ticks() =~= old(self).ticks().remove((d, price as int)));
    }

    /// Stores a new order: the order under its id, and one more at its
    /// tick. Returns the new count at the tick. The counts stay equal to
    /// the stored orders.
    pub fn add_order(&mut self, o: Order) -> (r: u64)
        requires
            ticks_consistent(old(self).orders(), old(self).ticks()),
            !old(self).orders().contains_key(o.order_id),
            spec_price_defined(o.direction, o.offer_amount, o.ask_amount),
            tick_count(old(self).ticks(), tick_key(o)) < u64::MAX,
        ensures
            (final(self).orders(), final(self).ticks()) == book_after_store(old(self).orders(), old(self).ticks(), o),
            r == tick_count(old(self).ticks(), tick_key(o)) + 1,
            ticks_consistent(final(self).orders(), final(self).ticks()),
    {
        broadcast use vstd::std_specs::hash::group_hash_axioms;
        proof {
            lemma_store_keeps_ticks(self.orders(), self.ticks(), o);
        }
        let price = o.get_price();
        let d = o.direction;
        let stored = self.tick(d, price);
        let total = tick_after_store(stored, true);
        self.orders.insert(o.order_id, o);
        self.set_tick(d, price, total);
        total
    }

    /// Removes a stored order: the order goes, and its tick counts one
    /// less, going when none is left. Returns the count that remains. The
    /// counts stay equal to the stored orders.
    pub fn remove_order(&mut self, o: &Order) -> (r: u64)
        requires
            ticks_consistent(old(self).orders(), old(self).ticks()),
            old(self).orders().contains_key(o.order_id),
            old(self).orders()[o.order_id] == *o,
            spec_price_defined(o.direction, o.offer_amount, o.ask_amount),
        ensures
            (final(self).orders(), final(self).ticks()) == book_after_remove(old(self).orders(), old(self).ticks(), *o),
            r == tick_count(old(self).ticks(), tick_key(*o)) - 1,
            ticks_consistent(final(self).orders(), final(self).ticks()),
    {
        broadcast use vstd::std_specs::hash::group_hash_axioms;
        proof {
            lemma_remove_keeps_ticks(self.orders(), self.ticks(), *o);
        }
        let price = o.get_price();
        let d = o.direction;
        let stored = self.tick(d, price);
        self.orders.remove(&o.order_id);
        let (write, left) = tick_after_remove(stored);
        match write {
            TickWrite::Save(n) => self.set_tick(d, price, n),
            TickWrite::Remove => self.drop_tick(d, price),
            TickWrite::Keep => {},
        }
        proof {
            let (no, nt) = book_after_remove(old(self).orders(), old(self).ticks(), *o);
            assert(self.orders() == no && self.ticks() == nt);
        }
        left
    }
}

} // verus!
