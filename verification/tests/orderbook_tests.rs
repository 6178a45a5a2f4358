use perpbot::orderbook::{OrderBookImpl, Side, Update};

#[test]
fn test_best_bid_maintenance() {
    let mut ob = OrderBookImpl::with_range(0, 200_000);
    ob.apply_update(Update::SetLevel { price: 100, quantity: 10, side: Side::Bid });
    ob.apply_update(Update::SetLevel { price: 101, quantity: 10, side: Side::Bid });
    ob.apply_update(Update::SetLevel { price: 102, quantity: 10, side: Side::Bid });
    assert_eq!(ob.get_best_bid(), Some(102));

    ob.apply_update(Update::Remove { price: 102, side: Side::Bid });
    assert_eq!(ob.get_best_bid(), Some(101));

    ob.apply_update(Update::SetLevel { price: 101, quantity: 0, side: Side::Bid });
    assert_eq!(ob.get_best_bid(), Some(100));
}

#[test]
fn test_cleared_level_reads_empty() {
    let mut ob = OrderBookImpl::with_range(0, 1_000);
    ob.apply_update(Update::SetLevel { price: 500, quantity: 7, side: Side::Ask });
    ob.apply_update(Update::SetLevel { price: 600, quantity: 9, side: Side::Ask });
    assert_eq!(ob.get_quantity_at(500, Side::Ask), Some(7));
    assert_eq!(ob.get_best_ask(), Some(500));

    ob.apply_update(Update::SetLevel { price: 500, quantity: 0, side: Side::Ask });
    assert_eq!(ob.get_quantity_at(500, Side::Ask), None);
    assert_eq!(ob.get_best_ask(), Some(600));

    ob.apply_update(Update::Remove { price: 600, side: Side::Ask });
    assert_eq!(ob.get_quantity_at(600, Side::Ask), None);
    assert_eq!(ob.get_best_ask(), None);
}

#[test]
fn test_spread_and_out_of_range() {
    let mut ob = OrderBookImpl::with_range(1_000, 2_000);
    assert_eq!(ob.get_spread(), None);
    ob.apply_update(Update::SetLevel { price: 1_400, quantity: 5, side: Side::Bid });
    ob.apply_update(Update::SetLevel { price: 1_410, quantity: 5, side: Side::Ask });
    assert_eq!(ob.get_spread(), Some(10));

    // prices off the grid are ignored
    ob.apply_update(Update::SetLevel { price: 5_000, quantity: 50, side: Side::Ask });
    ob.apply_update(Update::SetLevel { price: 999, quantity: 50, side: Side::Bid });
    assert_eq!(ob.get_spread(), Some(10));
    assert_eq!(ob.get_quantity_at(5_000, Side::Ask), None);
}

#[test]
fn test_top_levels_and_totals() {
    let mut ob = OrderBookImpl::new();
    ob.apply_update(Update::SetLevel { price: 100, quantity: 1, side: Side::Bid });
    ob.apply_update(Update::SetLevel { price: 105, quantity: 2, side: Side::Bid });
    ob.apply_update(Update::SetLevel { price: 103, quantity: 3, side: Side::Bid });
    ob.apply_update(Update::SetLevel { price: 110, quantity: 4, side: Side::Ask });
    ob.apply_update(Update::SetLevel { price: 112, quantity: 5, side: Side::Ask });

    let bids = ob.get_top_levels(Side::Bid, 2);
    assert_eq!(bids, vec![(105, 2), (103, 3)]);
    let asks = ob.get_top_levels(Side::Ask, 10);
    assert_eq!(asks, vec![(110, 4), (112, 5)]);

    assert_eq!(ob.get_total_quantity(Side::Bid), 6);
    assert_eq!(ob.get_total_quantity(Side::Ask), 9);

    let copy = ob.clone();
    assert_eq!(copy.get_best_bid(), Some(105));
    assert_eq!(copy.get_best_ask(), Some(110));
}
