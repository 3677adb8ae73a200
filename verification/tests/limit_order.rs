use oraiswap_contracts::asset::{Asset, AssetInfo};
use oraiswap_contracts::limit_order::book::{
    find_list_match_price, highest_price, lowest_price, mid_price, query_orderbook_is_matchable, query_ticks_with_end, Tick,
};
use oraiswap_contracts::limit_order::flows::{self, cancel_order, market_order_plan};
use oraiswap_contracts::limit_order::settle::{parse_commission_rate, update_orderbook_pair};
use oraiswap_contracts::limit_order::flows::get_paid_and_quote_assets;
use oraiswap_contracts::limit_order::listing::{orders_found, select_entries, IndexEntry};
use oraiswap_contracts::limit_order::matching::{matching_order, PriceLevel};
use oraiswap_contracts::limit_order::order::Order;
use oraiswap_contracts::limit_order::types::{ContractError, OrderDirection, OrderStatus};
use cosmwasm_std::Decimal;
use oraiswap_contracts::math::DECIMAL_FRACTIONAL;

const MIN_VOLUME: u128 = 10;
const ORAI_DENOM: &str = "orai";
const USDT_DENOM: &str = "usdt";

/// A decimal from its hundredths or thousandths: `dec(1234, 3)` is 1.234.
fn dec(units: u128, places: u32) -> u128 {
    units * (DECIMAL_FRACTIONAL / 10u128.pow(places))
}

fn new_order(id: u64, direction: OrderDirection, price: u128, ask: u128) -> Order {
    Order::new(id, "addr0000".to_string(), direction, price, ask)
}

fn abs_diff(a: u128, b: u128) -> u128 {
    if a > b {
        a - b
    } else {
        b - a
    }
}

fn native(denom: &str, amount: u128) -> Asset {
    Asset { info: AssetInfo::NativeToken { denom: denom.to_string() }, amount }
}

fn same_info(a: &AssetInfo, b: &AssetInfo) -> bool {
    a.same_as(b)
}

/// A decimal's atomics.
fn dec_from_ratio(numerator: u128, denominator: u128) -> u128 {
    Decimal::from_ratio(numerator, denominator).atomics().u128()
}

#[test]
fn test_matching_order_process() {
    // four sell orders of 10000 orai at 1, 1.1, 1.2 and 1.3
    let sells = vec![
        new_order(1, OrderDirection::Sell, dec(1, 0), 10000),
        new_order(2, OrderDirection::Sell, dec(11, 1), 11000),
        new_order(3, OrderDirection::Sell, dec(12, 1), 12000),
        new_order(4, OrderDirection::Sell, dec(13, 1), 13000),
    ];
    let levels = || -> Vec<PriceLevel> {
        sells
            .iter()
            .map(|o| PriceLevel { price: o.get_price(), orders: vec![o.duplicate()] })
            .collect()
    };

    // first: the buy price is below every sell price, nothing matches
    let buy_price = dec(9, 1);
    let buy_order = new_order(5, OrderDirection::Buy, buy_price, 25000);
    let (user, matched) = matching_order(&levels(), &buy_order, buy_price).unwrap();
    assert_eq!(user.filled_ask_amount, 0);
    assert_eq!(user.filled_offer_this_round, 0);
    assert_eq!(matched.len(), 0);

    // second: a buy at 1.15 for 25000 matches the sells at 1 and 1.1
    let buy_price = dec(115, 2);
    let buy_order = new_order(6, OrderDirection::Buy, buy_price, 25000);
    let (user, matched) = matching_order(&levels(), &buy_order, buy_price).unwrap();
    assert!(abs_diff(user.filled_ask_amount, 20000) < MIN_VOLUME);
    assert!(abs_diff(user.filled_offer_amount, 21000) < MIN_VOLUME);
    assert_eq!(matched.len(), 2);
    for order in matched {
        assert!(abs_diff(order.filled_ask_amount, order.ask_amount) < MIN_VOLUME);
        assert!(abs_diff(order.filled_offer_amount, order.offer_amount) < MIN_VOLUME);
    }

    // third: a buy at 1.5 takes all it asks
    let buy_price = dec(15, 1);
    let buy_order = new_order(7, OrderDirection::Buy, buy_price, 25000);
    let (user, matched) = matching_order(&levels(), &buy_order, buy_price).unwrap();
    assert!(abs_diff(user.filled_ask_amount, buy_order.ask_amount) < MIN_VOLUME);
    assert!(abs_diff(user.filled_offer_amount, 27000) < MIN_VOLUME);
    assert_eq!(matched.len(), 3);
    for i in 0..2 {
        assert!(abs_diff(matched[i].filled_ask_amount, matched[i].ask_amount) < MIN_VOLUME);
        assert!(abs_diff(matched[i].filled_offer_amount, matched[i].offer_amount) < MIN_VOLUME);
    }
    assert!(abs_diff(matched[2].filled_ask_amount, 6000) < MIN_VOLUME);

    // fourth: a market sell of 50000 with a minimum price of 1 against four buys
    let buys = vec![
        new_order(1, OrderDirection::Buy, dec(1, 0), 10000),
        new_order(2, OrderDirection::Buy, dec(11, 1), 10000),
        new_order(3, OrderDirection::Buy, dec(12, 1), 10000),
        new_order(4, OrderDirection::Buy, dec(13, 1), 10000),
    ];
    // best price first: the highest buy
    let buy_levels: Vec<PriceLevel> = buys
        .iter()
        .rev()
        .map(|o| PriceLevel { price: o.get_price(), orders: vec![o.duplicate()] })
        .collect();
    let mut sell_order = new_order(5, OrderDirection::Sell, dec(15, 1), 50000);
    sell_order.offer_amount = 50000;
    let (user, matched) = matching_order(&buy_levels, &sell_order, dec(1, 0)).unwrap();
    assert!(abs_diff(user.filled_offer_amount, 40000) < MIN_VOLUME);
    assert!(abs_diff(user.filled_ask_amount, 46000) < MIN_VOLUME);
    assert_eq!(matched.len(), 4);
    for order in matched {
        assert!(abs_diff(order.filled_ask_amount, order.ask_amount) < MIN_VOLUME);
        assert!(abs_diff(order.filled_offer_amount, order.offer_amount) < MIN_VOLUME);
    }
}

#[test]
fn test_matching_order_process_offer_amount_smaller_than_lef_match_ask() {
    let resting = Order {
        direction: OrderDirection::Buy,
        order_id: 1,
        bidder_addr: "addr0000".to_string(),
        offer_amount: 3502324000,
        ask_amount: 196000000,
        filled_offer_amount: 3499999968,
        filled_ask_amount: 195985264,
        status: OrderStatus::PartialFilled,
    };
    let ask_amount = 7526882u128;
    let offer_amount = 423021u128;
    let sell_price = dec_from_ratio(ask_amount, offer_amount);
    let sell_order = Order {
        direction: OrderDirection::Sell,
        order_id: 2,
        bidder_addr: "addr0000".to_string(),
        offer_amount,
        ask_amount,
        filled_offer_amount: 0,
        filled_ask_amount: 0,
        status: OrderStatus::PartialFilled,
    };
    let levels = vec![PriceLevel { price: resting.get_price(), orders: vec![resting.duplicate()] }];
    let (_, matched) = matching_order(&levels, &sell_order, sell_price).unwrap();
    assert_eq!(matched.len(), 1);
    let matched_price = dec_from_ratio(matched[0].filled_offer_this_round, matched[0].filled_ask_this_round);
    assert!(matched_price < dec_from_ratio(18, 1));
}

#[test]
fn initialize() {
    let buy_ticks = vec![
        Tick { price: dec(9998, 3), total_orders: 1 },
        Tick { price: dec(9999, 3), total_orders: 1 },
        Tick { price: dec(1000, 2), total_orders: 1 },
        Tick { price: dec(1001, 2), total_orders: 1 },
    ];
    let (highest, found, _) = highest_price(&buy_ticks);
    assert!(found);
    assert_eq!(highest, dec(1001, 2));
}

#[test]
fn highest_lowest_price() {
    let empty: Vec<Tick> = vec![];
    assert!(!highest_price(&empty).1);
    assert!(!lowest_price(&empty).1);

    let buys = vec![Tick { price: dec(10, 1), total_orders: 1 }, Tick { price: dec(11, 1), total_orders: 1 }];
    assert_eq!(highest_price(&buys).0, dec(11, 1));
    assert_eq!(lowest_price(&buys).0, dec(10, 1));

    let sells = vec![Tick { price: dec(10, 1), total_orders: 1 }, Tick { price: dec(11, 1), total_orders: 1 }];
    let both_buys = vec![Tick { price: dec(9, 1), total_orders: 1 }, Tick { price: dec(10, 1), total_orders: 1 }];
    let highest = std::cmp::max(highest_price(&both_buys).0, highest_price(&sells).0);
    let lowest = std::cmp::min(lowest_price(&both_buys).0, lowest_price(&sells).0);
    assert_eq!(highest, dec(11, 1));
    assert_eq!(lowest, dec(9, 1));
}

#[test]
fn buy_orders_at() {
    // the price index at 1.1: a sell (id 1) and two buys (ids 2 and 3)
    let at_price = vec![
        IndexEntry { order_id: 1, direction: OrderDirection::Sell },
        IndexEntry { order_id: 2, direction: OrderDirection::Buy },
        IndexEntry { order_id: 3, direction: OrderDirection::Buy },
    ];
    let page = select_entries(&at_price, Some(OrderDirection::Buy), None, None, Some(1));
    let ids: Vec<u64> = page.iter().map(|e| e.order_id).collect();
    assert_eq!(ids, vec![2, 3]);

    // nothing rests at 0.9
    let none_at_price: Vec<IndexEntry> = vec![];
    assert!(select_entries(&none_at_price, Some(OrderDirection::Buy), None, None, Some(1)).is_empty());
}

#[test]
fn sell_orders_at() {
    let at_price = vec![
        IndexEntry { order_id: 1, direction: OrderDirection::Buy },
        IndexEntry { order_id: 2, direction: OrderDirection::Sell },
        IndexEntry { order_id: 3, direction: OrderDirection::Sell },
    ];
    let page = select_entries(&at_price, Some(OrderDirection::Sell), None, None, Some(1));
    let ids: Vec<u64> = page.iter().map(|e| e.order_id).collect();
    assert_eq!(ids, vec![2, 3]);
    let none_at_price: Vec<IndexEntry> = vec![];
    assert!(select_entries(&none_at_price, Some(OrderDirection::Sell), None, None, Some(1)).is_empty());
}

#[test]
fn test_get_paid_and_quote_assets() {
    let assets = [native(ORAI_DENOM, 0), native(USDT_DENOM, 0)];
    let base = AssetInfo::NativeToken { denom: ORAI_DENOM.to_string() };

    // first: buy with base coin = assets[0]
    let (paid, quote) = get_paid_and_quote_assets(&base, &assets, OrderDirection::Buy);
    assert!(same_info(&paid[0].info, &assets[1].info));
    assert!(same_info(&paid[1].info, &assets[0].info));
    assert!(same_info(&quote.info, &assets[1].info));

    // second: sell with base coin = assets[0]
    let (paid, quote) = get_paid_and_quote_assets(&base, &assets, OrderDirection::Sell);
    assert!(same_info(&paid[0].info, &assets[0].info));
    assert!(same_info(&paid[1].info, &assets[1].info));
    assert!(same_info(&quote.info, &assets[1].info));

    // third: buy with the assets given quote first
    let reversed = [assets[1].duplicate(), assets[0].duplicate()];
    let (paid, quote) = get_paid_and_quote_assets(&base, &reversed, OrderDirection::Buy);
    assert!(same_info(&paid[0].info, &reversed[0].info));
    assert!(same_info(&paid[1].info, &reversed[1].info));
    assert!(same_info(&quote.info, &reversed[0].info));

    // fourth: sell with the assets given quote first
    let (paid, quote) = get_paid_and_quote_assets(&base, &reversed, OrderDirection::Sell);
    assert!(same_info(&paid[0].info, &reversed[1].info));
    assert!(same_info(&paid[1].info, &reversed[0].info));
    assert!(same_info(&quote.info, &reversed[0].info));
}

#[test]
fn mid_price_of_a_book() {
    let buys = vec![Tick { price: dec(9, 1), total_orders: 1 }, Tick { price: dec(10, 1), total_orders: 2 }];
    let sells = vec![Tick { price: dec(12, 1), total_orders: 1 }];
    assert_eq!(mid_price(&buys, &sells), dec(11, 1));
}

#[test]
fn orders_listing_descends_by_default() {
    let entries = vec![
        IndexEntry { order_id: 1, direction: OrderDirection::Buy },
        IndexEntry { order_id: 2, direction: OrderDirection::Sell },
        IndexEntry { order_id: 3, direction: OrderDirection::Buy },
        IndexEntry { order_id: 4, direction: OrderDirection::Buy },
    ];
    // descending, before id 4, buys only, two per page
    let page = select_entries(&entries, Some(OrderDirection::Buy), Some(4), Some(2), None);
    let ids: Vec<u64> = page.iter().map(|e| e.order_id).collect();
    assert_eq!(ids, vec![3, 1]);
    // ascending after id 1, any direction
    let page = select_entries(&entries, None, Some(1), None, Some(1));
    let ids: Vec<u64> = page.iter().map(|e| e.order_id).collect();
    assert_eq!(ids, vec![2, 3, 4]);
}

#[test]
fn orders_listing_is_empty_when_an_order_is_missing() {
    let o = new_order(1, OrderDirection::Buy, dec(1, 0), 100);
    let found = orders_found(&vec![Some(o.duplicate()), None]);
    assert!(found.is_empty());
    let found = orders_found(&vec![Some(o.duplicate())]);
    assert_eq!(found.len(), 1);
    assert_eq!(found[0].order_id, 1);
}

#[test]
fn spread_widens_the_buy_prices_that_match() {
    let buys = vec![Tick { price: dec(105, 2), total_orders: 1 }];
    let sells = vec![Tick { price: dec(1, 0), total_orders: 1 }];
    let spread = Some(dec(1, 1));
    let (b, s) = find_list_match_price(spread, &buys, &sells, None).unwrap();
    assert_eq!(b, vec![dec(105, 2)]);
    assert_eq!(s, vec![dec(1, 0)]);
    assert!(query_orderbook_is_matchable(spread, &buys, &sells));
    // a spread of 1% does not reach 1.05
    assert!(find_list_match_price(Some(dec(1, 2)), &buys, &sells, None).is_none());
}

#[test]
fn market_orders_accept_the_slippage() {
    let sells = vec![Tick { price: dec(1, 0), total_orders: 1 }];
    let plan = market_order_plan(OrderDirection::Buy, 1000, None, None, &sells).unwrap();
    assert_eq!(plan.best_price, dec(1, 0));
    assert_eq!(plan.price_threshold, dec(101, 2));
    assert_eq!(plan.max_ask_amount, 1000);
    let err = market_order_plan(OrderDirection::Buy, 1000, Some(dec(1, 0)), None, &sells).err();
    assert_eq!(err, Some(ContractError::SlippageMustLessThanOne { slippage: dec(1, 0) }));
}

#[test]
fn commission_rates_are_read_as_decimals() {
    assert_eq!(parse_commission_rate("0.001"), Ok(dec(1, 3)));
    assert!(parse_commission_rate("one").is_err());
}

/// Submits through the library as the contract does: the assets ordered
/// against the book's base, then the order to store.
fn submit(id: u64, direction: OrderDirection, assets: [Asset; 2]) -> Result<Order, ContractError> {
    let base = AssetInfo::NativeToken { denom: ORAI_DENOM.to_string() };
    let (paid, _quote) = get_paid_and_quote_assets(&base, &assets, direction);
    flows::submit_order(id, "addr0000".to_string(), direction, &paid, None, &vec![])
}

fn assert_open(o: &Order, id: u64, direction: OrderDirection, offer: u128, ask: u128) {
    assert_eq!(o.order_id, id);
    assert!(o.direction == direction);
    assert_eq!(o.bidder_addr, "addr0000");
    assert_eq!(o.offer_amount, offer);
    assert_eq!(o.ask_amount, ask);
    assert_eq!(o.filled_offer_amount, 0);
    assert_eq!(o.filled_ask_amount, 0);
    assert!(o.status == OrderStatus::Open);
}

#[test]
fn submit_order() {
    let o1 = submit(1, OrderDirection::Buy, [native(ORAI_DENOM, 150), native(USDT_DENOM, 150)]).unwrap();
    // an ask of zero is refused
    assert!(matches!(
        submit(2, OrderDirection::Buy, [native(ORAI_DENOM, 150), native(USDT_DENOM, 0)]),
        Err(ContractError::AssetMustNotBeZero)
    ));
    let o2 = submit(2, OrderDirection::Buy, [native(USDT_DENOM, 11111111), native(ORAI_DENOM, 12345678)]).unwrap();
    // a sell at 2/7 while buys rest at 1 and 0.9: it rests too, nothing trades
    let o3 = submit(3, OrderDirection::Sell, [native(USDT_DENOM, 20000), native(ORAI_DENOM, 70000)]).unwrap();
    assert_open(&o1, 1, OrderDirection::Buy, 150, 150);
    assert_open(&o2, 2, OrderDirection::Buy, 11111111, 12345678);
    assert_open(&o3, 3, OrderDirection::Sell, 70000, 20000);
}

/// The sell ticks after the two sells of the tick listing tests: 10000 orai
/// for 20000 usdt, then for 30000 usdt, at prices 2 and 3.
fn two_sell_ticks() -> Vec<Tick> {
    let o1 = submit(1, OrderDirection::Sell, [native(ORAI_DENOM, 10000), native(USDT_DENOM, 20000)]).unwrap();
    let o2 = submit(2, OrderDirection::Sell, [native(ORAI_DENOM, 10000), native(USDT_DENOM, 30000)]).unwrap();
    let p1 = o1.get_price();
    let p2 = o2.get_price();
    assert_eq!(p1, dec(2, 0));
    assert_eq!(p2, dec(3, 0));
    vec![
        Tick { price: p1, total_orders: flows::tick_after_store(None, true) },
        Tick { price: p2, total_orders: flows::tick_after_store(None, true) },
    ]
}

#[test]
fn test_query_ticks_start_after() {
    let ticks = two_sell_ticks();
    let r = query_ticks_with_end(&ticks, Some(dec(3, 0)), None, None, Some(2));
    assert_eq!(r.len(), 1);
    let r = query_ticks_with_end(&ticks, Some(dec(2, 0)), None, None, Some(1));
    assert_eq!(r.len(), 1);
}

#[test]
fn test_query_ticks_with_end() {
    let ticks = two_sell_ticks();
    let r = query_ticks_with_end(&ticks, Some(dec(3, 0)), Some(dec(2, 0)), None, Some(2));
    assert_eq!(r.len(), 1);
    assert_eq!(r[0].price, dec(2, 0));
    let r = query_ticks_with_end(&ticks, Some(dec(2, 0)), Some(dec(3, 0)), None, Some(1));
    assert_eq!(r.len(), 1);
    assert_eq!(r[0].price, dec(3, 0));
}

#[test]
fn buys_below_the_lowest_sell_are_not_listed() {
    // a buy one atomic below the lowest sell cannot match it
    let sells = vec![Tick { price: dec(1, 0), total_orders: 1 }];
    let buys = vec![Tick { price: dec(1, 0) - 1, total_orders: 1 }];
    assert!(find_list_match_price(None, &buys, &sells, None).is_none());
    let buys = vec![Tick { price: dec(1, 0) - 1, total_orders: 1 }, Tick { price: dec(1, 0), total_orders: 1 }];
    let (b, s) = find_list_match_price(None, &buys, &sells, None).unwrap();
    assert_eq!(b, vec![dec(1, 0)]);
    assert_eq!(s, vec![dec(1, 0)]);
}

#[test]
fn test_query_mid_price() {
    assert_eq!(mid_price(&vec![], &vec![]), 0);
    // paid 300 usdt to get 150 orai: 1 orai = 2 usdt
    let buy = submit(1, OrderDirection::Buy, [native(ORAI_DENOM, 150), native(USDT_DENOM, 300)]).unwrap();
    let buys = vec![Tick { price: buy.get_price(), total_orders: 1 }];
    assert_eq!(mid_price(&buys, &vec![]), dec(1, 0));
    // a sell at 10 gives a different mid price
    let sell = submit(2, OrderDirection::Sell, [native(ORAI_DENOM, 150), native(USDT_DENOM, 1500)]).unwrap();
    let sells = vec![Tick { price: sell.get_price(), total_orders: 1 }];
    assert_eq!(mid_price(&buys, &sells), dec(6, 0));
}

fn submit_by(bidder: &str, id: u64, direction: OrderDirection, assets: [Asset; 2]) -> Order {
    let base = AssetInfo::NativeToken { denom: ORAI_DENOM.to_string() };
    let (paid, _quote) = get_paid_and_quote_assets(&base, &assets, direction);
    flows::submit_order(id, bidder.to_string(), direction, &paid, None, &vec![]).unwrap()
}

#[test]
fn cancel_order_native_token() {
    let orai = AssetInfo::NativeToken { denom: ORAI_DENOM.to_string() };
    let usdt = AssetInfo::NativeToken { denom: USDT_DENOM.to_string() };
    let o1 = submit_by("addr0000", 1, OrderDirection::Buy, [native(ORAI_DENOM, 500000), native(USDT_DENOM, 6666666)]);
    let o2 = submit_by("addr0001", 2, OrderDirection::Sell, [native(ORAI_DENOM, 456789), native(USDT_DENOM, 6666666)]);
    // only the bidder cancels
    assert!(matches!(
        cancel_order(&o1, &"addr0001".to_string(), &orai, &usdt),
        Err(ContractError::Unauthorized)
    ));
    // the buy gets back the 6666666 usdt it paid
    let plan = cancel_order(&o1, &"addr0000".to_string(), &orai, &usdt).unwrap();
    assert_eq!(plan.refund.amount, 6666666);
    assert!(same_info(&plan.refund.info, &usdt));
    assert!(plan.send_refund);
    // the sell gets back its 456789 orai
    let plan = cancel_order(&o2, &"addr0001".to_string(), &orai, &usdt).unwrap();
    assert_eq!(plan.refund.amount, 456789);
    assert!(same_info(&plan.refund.info, &orai));
    let o3 = submit_by("addr0000", 3, OrderDirection::Sell, [native(ORAI_DENOM, 1234560), native(USDT_DENOM, 1000000)]);
    let plan = cancel_order(&o3, &"addr0000".to_string(), &orai, &usdt).unwrap();
    assert_eq!(plan.refund.amount, 1234560);
    assert!(same_info(&plan.refund.info, &orai));
}

/// The resting orders of a book, as the tick listings show them.
struct RestingBook {
    base: AssetInfo,
    spread: Option<u128>,
    buys: Vec<Order>,
    sells: Vec<Order>,
    next_id: u64,
}

impl RestingBook {
    fn new(spread: Option<u128>) -> Self {
        RestingBook { base: AssetInfo::NativeToken { denom: ORAI_DENOM.to_string() }, spread, buys: vec![], sells: vec![], next_id: 1 }
    }

    fn ticks(orders: &[Order]) -> Vec<Tick> {
        let mut counts: std::collections::BTreeMap<u128, u64> = std::collections::BTreeMap::new();
        for o in orders {
            let stored = counts.get(&o.get_price()).copied();
            counts.insert(o.get_price(), flows::tick_after_store(stored, true));
        }
        counts.into_iter().map(|(price, total_orders)| Tick { price, total_orders }).collect()
    }

    fn side(&self, direction: OrderDirection) -> Vec<Tick> {
        match direction {
            OrderDirection::Buy => Self::ticks(&self.buys),
            OrderDirection::Sell => Self::ticks(&self.sells),
        }
    }

    fn submit(&mut self, direction: OrderDirection, assets: [Asset; 2]) -> Order {
        let (paid, _quote) = get_paid_and_quote_assets(&self.base, &assets, direction);
        let opposite = self.side(direction.opposite());
        let o = flows::submit_order(self.next_id, "addr0000".to_string(), direction, &paid, self.spread, &opposite).unwrap();
        self.next_id += 1;
        match direction {
            OrderDirection::Buy => self.buys.push(o.duplicate()),
            OrderDirection::Sell => self.sells.push(o.duplicate()),
        }
        o
    }

    /// The tick prices of a side, ascending (1) or descending (2).
    fn prices(&self, direction: OrderDirection, order_by: i32) -> Vec<u128> {
        query_ticks_with_end(&self.side(direction), None, None, None, Some(order_by)).iter().map(|t| t.price).collect()
    }
}

/// A decimal cut to `places` decimal places.
fn cut(price: u128, places: u32) -> u128 {
    let unit = DECIMAL_FRACTIONAL / 10u128.pow(places);
    price / unit * unit
}

#[test]
fn submit_order_with_spread_native_token() {
    let mut book = RestingBook::new(Some(dec(10, 2)));
    let mut assets = [native(ORAI_DENOM, 100), native(USDT_DENOM, 500)];
    // first buy: nothing to hold it to, price 5
    book.submit(OrderDirection::Buy, assets.clone());
    assert_eq!(book.prices(OrderDirection::Buy, 1)[0], dec_from_ratio(500, 100));
    // first sell: price 6
    assets[1].amount = 600;
    book.submit(OrderDirection::Sell, assets.clone());
    assert_eq!(book.prices(OrderDirection::Sell, 2)[0], dec_from_ratio(600, 100));
    // a buy at 6.7 is beyond 6 * 1.1 and rests at about 6.6
    assets[1].amount = 670;
    book.submit(OrderDirection::Buy, assets.clone());
    let buys = book.prices(OrderDirection::Buy, 1);
    assert_eq!(buys.len(), 2);
    assert_eq!(cut(buys[1], 1), dec_from_ratio(66, 10));
    // a sell at 4.5 is below the highest buy * 0.9 and rests at about 5.97
    assets[1].amount = 450;
    book.submit(OrderDirection::Sell, assets.clone());
    let sells = book.prices(OrderDirection::Sell, 2);
    assert_eq!(sells.len(), 2);
    assert_eq!(cut(sells[1], 2), dec_from_ratio(597, 100));
    // a buy at 6.5 is within the spread
    assets[1].amount = 650;
    book.submit(OrderDirection::Buy, assets.clone());
    let buys = book.prices(OrderDirection::Buy, 1);
    assert_eq!(buys.len(), 3);
    assert_eq!(buys[0], dec_from_ratio(500, 100));
    assert_eq!(buys[1], dec_from_ratio(650, 100));
    assert_eq!(cut(buys[2], 1), dec_from_ratio(66, 10));
    // a sell at 6 is within the spread
    assets[1].amount = 600;
    book.submit(OrderDirection::Sell, assets.clone());
    let sells = book.prices(OrderDirection::Sell, 2);
    assert_eq!(sells.len(), 2);
    assert_eq!(sells[0], dec_from_ratio(600, 100));
    assert_eq!(cut(sells[1], 2), dec_from_ratio(597, 100));
}

#[test]
fn submit_order_with_spread_cw20_token() {
    let usdt = |amount: u128| Asset { info: AssetInfo::Token { contract_addr: "usdt_token".to_string() }, amount };
    let mut book = RestingBook::new(Some(dec(10, 2)));
    let o1 = book.submit(OrderDirection::Buy, [usdt(500), native(ORAI_DENOM, 100)]);
    assert_eq!((o1.offer_amount, o1.ask_amount), (500, 100));
    assert_eq!(book.prices(OrderDirection::Buy, 1)[0], dec_from_ratio(500, 100));
    let o2 = book.submit(OrderDirection::Sell, [usdt(600), native(ORAI_DENOM, 100)]);
    assert_eq!((o2.offer_amount, o2.ask_amount), (100, 600));
    assert_eq!(book.prices(OrderDirection::Sell, 2)[0], dec_from_ratio(600, 100));
    // beyond the spread: 67000 usdt now ask 10151 orai
    let o3 = book.submit(OrderDirection::Buy, [usdt(67000), native(ORAI_DENOM, 10000)]);
    assert_eq!((o3.offer_amount, o3.ask_amount), (67000, 10151));
    let buys = book.prices(OrderDirection::Buy, 1);
    assert_eq!(buys[0], dec_from_ratio(500, 100));
    assert_eq!(buys[1], dec_from_ratio(67000, 10151));
    // below the spread: 10000 orai now ask 59403 usdt
    let o4 = book.submit(OrderDirection::Sell, [usdt(45000), native(ORAI_DENOM, 10000)]);
    assert_eq!((o4.offer_amount, o4.ask_amount), (10000, 59403));
    let sells = book.prices(OrderDirection::Sell, 2);
    assert_eq!(sells[0], dec_from_ratio(600, 100));
    assert_eq!(sells[1], dec_from_ratio(59403, 10000));
    // within the spread
    let o5 = book.submit(OrderDirection::Buy, [usdt(650), native(ORAI_DENOM, 100)]);
    assert_eq!((o5.offer_amount, o5.ask_amount), (650, 100));
    let buys = book.prices(OrderDirection::Buy, 1);
    assert_eq!(buys, vec![dec_from_ratio(500, 100), dec_from_ratio(650, 100), dec_from_ratio(67000, 10151)]);
    let o6 = book.submit(OrderDirection::Sell, [usdt(600), native(ORAI_DENOM, 100)]);
    assert_eq!((o6.offer_amount, o6.ask_amount), (100, 600));
    let sells = book.side(OrderDirection::Sell);
    assert_eq!(sells.len(), 2);
    assert_eq!(sells.iter().find(|t| t.price == dec_from_ratio(600, 100)).unwrap().total_orders, 2);
}

#[test]
fn stored_orders_keep_their_tick_counts() {
    let mut store = oraiswap_contracts::limit_order::store::OrderStore::new();
    let a = new_order(1, OrderDirection::Buy, dec(11, 1), 100);
    let b = new_order(2, OrderDirection::Buy, dec(11, 1), 50);
    let c = new_order(3, OrderDirection::Sell, dec(12, 1), 100);
    let price = a.get_price();
    assert_eq!(store.add_order(a.duplicate()), 1);
    assert_eq!(store.add_order(b.duplicate()), 2);
    assert_eq!(store.add_order(c.duplicate()), 1);
    assert_eq!(store.tick(OrderDirection::Buy, price), Some(2));
    assert!(store.get_order(2).is_some());
    // removing brings the count down, and drops the tick with the last order
    assert_eq!(store.remove_order(&b), 1);
    assert!(store.get_order(2).is_none());
    assert_eq!(store.tick(OrderDirection::Buy, price), Some(1));
    assert_eq!(store.remove_order(&a), 0);
    assert_eq!(store.tick(OrderDirection::Buy, price), None);
    assert_eq!(store.tick(OrderDirection::Sell, c.get_price()), Some(1));
}

#[test]
fn matching_walks_the_best_price_first() {
    let ticks = vec![
        Tick { price: dec(1, 0), total_orders: 1 },
        Tick { price: dec(2, 0), total_orders: 3 },
        Tick { price: dec(3, 0), total_orders: 1 },
    ];
    assert_eq!(oraiswap_contracts::limit_order::book::walk_prices(OrderDirection::Buy, &ticks), vec![dec(3, 0), dec(2, 0), dec(1, 0)]);
    assert_eq!(oraiswap_contracts::limit_order::book::walk_prices(OrderDirection::Sell, &ticks), vec![dec(1, 0), dec(2, 0), dec(3, 0)]);
}

#[test]
fn commission_rates_read_as_decimals() {
    assert_eq!(parse_commission_rate("0.001").ok(), Some(dec(1, 3)));
    assert_eq!(parse_commission_rate("1").ok(), Some(dec(1, 0)));
    assert_eq!(parse_commission_rate("+1.5").ok(), Some(dec(15, 1)));
    assert_eq!(parse_commission_rate("000012").ok(), Some(dec(12, 0)));
    assert_eq!(parse_commission_rate("1.123000000000000000").ok(), Some(dec(1123, 3)));
    assert!(parse_commission_rate("1.1230000000000000000").is_err());
    assert!(parse_commission_rate("").is_err());
    assert!(parse_commission_rate(".23").is_err());
    assert!(parse_commission_rate("1.").is_err());
    assert!(parse_commission_rate("1.2.3").is_err());
    assert!(parse_commission_rate("-1").is_err());
    assert!(parse_commission_rate("340282366920938463464").is_err());
}

#[test]
fn test_update_orderbook_data() {
    let admin = "addr0000".to_string();
    // a sender that is not the admin is refused
    assert!(matches!(
        update_orderbook_pair(&admin, &"theft".to_string(), Some(dec(1, 1)), None, 10),
        Err(ContractError::Unauthorized)
    ));
    // the admin sets the spread; the minimum quote amount stays
    let (spread, min) = update_orderbook_pair(&admin, &admin, Some(dec(1, 1)), None, 10).unwrap();
    assert_eq!(spread, Some(dec(1, 1)));
    assert_eq!(min, 10);
}

#[test]
fn cancel_order_token() {
    let token = |addr: &str, amount: u128| Asset { info: AssetInfo::Token { contract_addr: addr.to_string() }, amount };
    // the book trades token1 (base) against token0 (quote)
    let base = AssetInfo::Token { contract_addr: "token1".to_string() };
    let quote = AssetInfo::Token { contract_addr: "token0".to_string() };
    let place = |id: u64, direction: OrderDirection, assets: [Asset; 2], sent: u128| {
        let (paid, q) = get_paid_and_quote_assets(&base, &assets, direction);
        flows::check_token_submit(&paid[0], &q, sent, 0)?;
        flows::submit_order(id, "addr0000".to_string(), direction, &paid, None, &vec![])
    };
    let o1 = place(1, OrderDirection::Buy, [token("token0", 1234567), token("token1", 4567890)], 1234567).unwrap();
    let o2 = place(2, OrderDirection::Sell, [token("token0", 1212121), token("token1", 3333335)], 3333335).unwrap();
    // the tokens sent must be the amount paid
    assert!(matches!(
        place(3, OrderDirection::Sell, [token("token0", 1212121), token("token1", 3333335)], 3333336),
        Err(ContractError::AssetMismatch)
    ));
    // only the bidder cancels
    assert!(matches!(cancel_order(&o1, &"addr0001".to_string(), &base, &quote), Err(ContractError::Unauthorized)));
    let plan = cancel_order(&o1, &"addr0000".to_string(), &base, &quote).unwrap();
    assert_eq!(plan.refund.amount, 1234567);
    assert!(same_info(&plan.refund.info, &quote));
    let plan = cancel_order(&o2, &"addr0000".to_string(), &base, &quote).unwrap();
    assert_eq!(plan.refund.amount, 3333335);
    assert!(same_info(&plan.refund.info, &base));
}
