use marketplace::fraction::Fraction;
use marketplace::lot::{Bid, Lot, LotStatus};
use marketplace::Error;

fn to_yocto(value: &str) -> u128 {
    let yocto = 10u128.pow(24);
    match value.split_once('.') {
        None => value.parse::<u128>().unwrap() * yocto,
        Some((whole, frac)) => {
            let scale = 10u128.pow(24 - frac.len() as u32);
            whole.parse::<u128>().unwrap() * yocto + frac.parse::<u128>().unwrap() * scale
        },
    }
}

fn to_nanos(num_days: u64) -> u64 {
    num_days * 86_400_000_000_000
}

fn to_ts(num_days: u64) -> u64 {
    to_nanos(num_days)
}

fn create_lot_x_sells_y(seller_id: &str, lot_id: &str) -> Lot {
    Lot::new(
        lot_id.to_string(),
        seller_id.to_string(),
        to_yocto("2"),
        to_yocto("10"),
        to_ts(10),
        to_nanos(7),
    )
    .unwrap()
}

fn create_lot_alice() -> (Lot, u64) {
    let lot = create_lot_x_sells_y("bob", "alice");
    (lot, to_ts(16))
}

fn create_lot_alice_withdrawn() -> (Lot, u64) {
    let (mut lot, time_now) = create_lot_alice();
    lot.withdraw(&"bob".to_string()).unwrap();
    (lot, time_now)
}

fn create_lot_alice_sale_failure() -> (Lot, u64) {
    let (lot, _) = create_lot_alice();
    (lot, to_ts(18))
}

fn create_lot_alice_with_bids() -> (Lot, u64) {
    let (mut lot, time_now) = create_lot_alice();
    lot.place_bid(
        &Bid { bidder_id: "carol".to_string(), amount: to_yocto("3"), timestamp: to_ts(11) },
        Fraction::new(0, 1),
    )
    .unwrap();
    lot.place_bid(
        &Bid { bidder_id: "dan".to_string(), amount: to_yocto("6"), timestamp: to_ts(12) },
        Fraction::new(0, 1),
    )
    .unwrap();
    (lot, time_now)
}

fn create_lot_alice_with_bids_sale_success() -> (Lot, u64) {
    let (lot, _) = create_lot_alice_with_bids();
    (lot, to_ts(18))
}

fn create_lot_alice_buy_now_bid() -> (Lot, u64) {
    let (mut lot, time_now) = create_lot_alice_with_bids();
    lot.place_bid(
        &Bid { bidder_id: "carol".to_string(), amount: to_yocto("10"), timestamp: to_ts(13) },
        Fraction::new(0, 1),
    )
    .unwrap();
    (lot, time_now)
}

#[test]
fn test_lot_new() {
    let (lot, _) = create_lot_alice();
    assert_eq!(lot.lot_id, "alice".to_string(), "wrong lot_id");
    assert_eq!(lot.seller_id, "bob".to_string(), "wrong seller_id");
    assert_eq!(lot.reserve_price, to_yocto("2"), "wrong reserve_price");
    assert_eq!(lot.buy_now_price, to_yocto("10"), "wrong buy_now_price");
    assert_eq!(lot.start_timestamp, to_ts(10), "wrong start_timestamp");
    assert_eq!(lot.finish_timestamp, to_ts(17), "wrong finish_timestamp");
    assert_eq!(lot.is_withdrawn, false, "expected withdrawn false");
    assert!(lot.bids().is_empty(), "expected bids list is empty");
}

#[test]
fn test_lot_new_rejects_lot_seller_same() {
    let r = Lot::new(
        "alice".to_string(),
        "alice".to_string(),
        to_yocto("0"),
        to_yocto("0"),
        to_ts(0),
        to_nanos(0),
    );
    assert_eq!(r.err(), Some(Error::LotSellsSelf));
}

#[test]
fn test_lot_new_rejects_reserve_greater_than_buy_now() {
    let r = Lot::new(
        "alice".to_string(),
        "bob".to_string(),
        to_yocto("1"),
        to_yocto("0"),
        to_ts(0),
        to_nanos(0),
    );
    assert_eq!(r.err(), Some(Error::ReserveAboveBuyNow));
}

#[test]
fn test_lot_is_active_by_time_now() {
    let (lot, _) = create_lot_alice();
    assert_eq!(lot.is_active(to_ts(10) - 1), true);
    assert_eq!(lot.is_active(to_ts(10)), true);
    assert_eq!(lot.is_active(to_ts(17) - 1), true);
    assert_eq!(lot.is_active(to_ts(17)), false);
    assert_eq!(lot.is_active(to_ts(17) + 1), false);
}

#[test]
fn test_lot_is_active_by_is_withdrawn() {
    let (lot, time_now) = create_lot_alice_withdrawn();
    assert_eq!(lot.is_active(time_now), false);
}

#[test]
fn test_lot_is_active_by_buy_now_bid() {
    let (lot, time_now) = create_lot_alice_buy_now_bid();
    assert_eq!(lot.is_active(time_now), false, "expected lot inactive on buy now bid");
}

#[test]
fn test_lot_last_bid() {
    let (lot, _) = create_lot_alice();
    assert_eq!(lot.last_bid().map(|x| x.bidder_id.clone()), None);

    let (lot, _) = create_lot_alice_with_bids();
    assert_eq!(lot.last_bid().map(|x| x.bidder_id.clone()), Some("dan".to_string()));
}

#[test]
fn test_lot_last_bid_amount() {
    let (lot, _) = create_lot_alice();
    assert_eq!(lot.last_bid_amount(), None, "expected none bid amount");

    let (lot, _) = create_lot_alice_with_bids();
    assert_eq!(lot.last_bid_amount(), Some(to_yocto("6")), "wrong last_bid_amount");
}

#[test]
fn test_lot_next_bid_amount() {
    let (lot, time_now) = create_lot_alice();
    assert_eq!(
        lot.next_bid_amount(time_now, Fraction::new(0, 1)).unwrap(),
        to_yocto("2"),
        "expected reserve_price for new lot"
    );

    let (lot, time_now) = create_lot_alice_with_bids();
    assert_eq!(
        lot.next_bid_amount(time_now, Fraction::new(0, 1)),
        Some(to_yocto("6") + 1),
        "expected increase by 1 yocto for zero step",
    );
    assert_eq!(
        lot.next_bid_amount(time_now, Fraction::new(1, 4)),
        Some(to_yocto("7.5")),
        "expected increase by 1 yocto for zero step",
    );
    assert_eq!(
        lot.next_bid_amount(time_now, Fraction::new(1, 1)),
        Some(to_yocto("10")),
        "expected buy now price cap",
    );

    let (lot, time_now) = create_lot_alice_with_bids_sale_success();
    assert_eq!(
        lot.next_bid_amount(time_now, Fraction::new(0, 1)),
        None,
        "expected none for inactive lot",
    );

    let (lot, time_now) = create_lot_alice_buy_now_bid();
    assert_eq!(
        lot.next_bid_amount(time_now, Fraction::new(0, 1)),
        None,
        "expected none for buy now sold lot",
    );

    let (lot, time_now) = create_lot_alice_withdrawn();
    assert_eq!(
        lot.next_bid_amount(time_now, Fraction::new(0, 1)),
        None,
        "expected none for withdrawn lot",
    );
}

#[test]
fn test_lot_potential_claimer_id() {
    let (lot, _) = create_lot_alice();
    assert_eq!(lot.potential_claimer_id(), None);

    let (lot, _) = create_lot_alice_with_bids();
    assert_eq!(lot.potential_claimer_id(), Some("dan".to_string()));
}

#[test]
fn test_lot_status() {
    let (lot, time_now) = create_lot_alice();
    assert_eq!(lot.status(time_now), LotStatus::OnSale);
    let (lot, time_now) = create_lot_alice_sale_failure();
    assert_eq!(lot.status(time_now), LotStatus::SaleFailure);

    let (lot, time_now) = create_lot_alice_with_bids();
    assert_eq!(lot.status(time_now), LotStatus::OnSale);

    let (lot, time_now) = create_lot_alice_with_bids_sale_success();
    assert_eq!(lot.status(time_now), LotStatus::SaleSuccess);

    let (lot, time_now) = create_lot_alice_buy_now_bid();
    assert_eq!(lot.status(time_now), LotStatus::SaleSuccess);

    let (lot, time_now) = create_lot_alice_withdrawn();
    assert_eq!(lot.status(time_now), LotStatus::Withdrawn);
}

#[test]
fn test_lot_clean_up() {
    let (mut lot, _) = create_lot_alice_with_bids();
    lot.clean_up();
    assert!(lot.bids().is_empty(), "expected bids empty after clean up");
}

#[test]
fn test_lot_validate_claim_by_seller() {
    let (lot, time_now) = create_lot_alice_withdrawn();
    let seller_id = "bob".to_string();
    assert!(lot.validate_claim(&seller_id, time_now).is_ok());
}

#[test]
fn test_lot_validate_claim_by_seller_rejects_lot_active() {
    let (lot, time_now) = create_lot_alice();
    let seller_id = "bob".to_string();
    assert_eq!(lot.validate_claim(&seller_id, time_now), Err(Error::ClaimBySellerWrongStatus));
}

#[test]
fn test_lot_validate_claim_by_seller_rejects_lot_sale_success() {
    let (lot, time_now) = create_lot_alice_with_bids_sale_success();
    let seller_id = "bob".to_string();
    assert_eq!(lot.validate_claim(&seller_id, time_now), Err(Error::ClaimBySellerWrongStatus));
}

#[test]
fn test_lot_validate_claim_by_bidder() {
    // dan is the last bidder
    let (lot, time_now) = create_lot_alice_with_bids_sale_success();
    let bidder_id = "dan".to_string();
    assert!(lot.validate_claim(&bidder_id, time_now).is_ok());
}

#[test]
fn test_lot_validate_claim_by_bidder_rejects_active() {
    let (lot, time_now) = create_lot_alice_with_bids();
    let bidder_id = "dan".to_string();
    assert_eq!(lot.validate_claim(&bidder_id, time_now), Err(Error::ClaimByBidderWrongStatus));
}

#[test]
fn test_lot_validate_claim_by_bidder_rejects_wrong_bidder() {
    let (lot, time_now) = create_lot_alice_with_bids_sale_success();
    let bidder_id = "carol".to_string();
    assert_eq!(lot.validate_claim(&bidder_id, time_now), Err(Error::ClaimByBidderWrongClaimer));
}

#[test]
fn test_lot_withdraw() {
    let (mut lot, _) = create_lot_alice();
    let withdrawer_id = "bob".to_string();
    lot.withdraw(&withdrawer_id).unwrap();
    assert_eq!(lot.is_withdrawn, true, "expected lot to be withdrawn");
}

#[test]
fn test_lot_withdraw_rejects_already_withdrawn() {
    let (mut lot, _) = create_lot_alice_withdrawn();
    let withdrawer_id = "bob".to_string();
    assert_eq!(lot.withdraw(&withdrawer_id), Err(Error::WithdrawWrongStatus));
    assert_eq!(lot.is_withdrawn, true);
}

#[test]
fn test_lot_withdraw_rejects_has_bids() {
    let (mut lot, _) = create_lot_alice_with_bids();
    let withdrawer_id = "bob".to_string();
    assert_eq!(lot.withdraw(&withdrawer_id), Err(Error::WithdrawHasBid));
    assert_eq!(lot.is_withdrawn, false);
}

#[test]
fn test_lot_withdraw_rejects_wrong_withdrawer() {
    let (mut lot, _) = create_lot_alice();
    let not_withdrawer_id = "alice".to_string();
    assert_eq!(lot.withdraw(&not_withdrawer_id), Err(Error::WithdrawWrongWithdrawer));
}

#[test]
fn test_lot_place_bid() {
    let (mut lot, time_now) = create_lot_alice();
    let bid = Bid { bidder_id: "dan".to_string(), amount: to_yocto("3"), timestamp: time_now };
    lot.place_bid(&bid, Fraction::new(0, 1)).unwrap();
    assert_eq!(lot.bids().len(), 1, "expected bids size 1");
}

#[test]
fn test_lot_place_bid_rejects_inactive() {
    let (mut lot, time_now) = create_lot_alice_sale_failure();
    let bid = Bid { bidder_id: "dan".to_string(), amount: to_yocto("3"), timestamp: time_now };
    assert_eq!(lot.place_bid(&bid, Fraction::new(0, 1)), Err(Error::BidWrongStatus));
    assert_eq!(lot.bids().len(), 0);
}

#[test]
fn test_lot_place_bid_rejects_too_small() {
    let (mut lot, time_now) = create_lot_alice_with_bids();
    let bid = Bid { bidder_id: "dan".to_string(), amount: to_yocto("3"), timestamp: time_now };
    assert_eq!(lot.place_bid(&bid, Fraction::new(0, 1)), Err(Error::BidTooSmall));
    assert_eq!(lot.bids().len(), 2);
}

#[test]
fn test_lot_place_bid_rejects_bid_from_seller() {
    let (mut lot, time_now) = create_lot_alice();
    let bid = Bid { bidder_id: "bob".to_string(), amount: to_yocto("3"), timestamp: time_now };
    assert_eq!(lot.place_bid(&bid, Fraction::new(0, 1)), Err(Error::BidWrongBidder));
}

#[test]
fn test_lot_place_bid_rejects_bid_from_lot() {
    let (mut lot, time_now) = create_lot_alice();
    let bid = Bid { bidder_id: "alice".to_string(), amount: to_yocto("3"), timestamp: time_now };
    assert_eq!(lot.place_bid(&bid, Fraction::new(0, 1)), Err(Error::BidWrongBidder));
}

#[test]
fn test_lot_fresh_active_at_start_inactive_at_finish() {
    let (lot, _) = create_lot_alice();
    assert!(lot.is_active(lot.start_timestamp));
    assert!(!lot.is_active(lot.finish_timestamp));
    assert!(!lot.is_active(lot.finish_timestamp + to_nanos(1)));
}

#[test]
fn test_lot_bids_strictly_increase_and_reach_reserve() {
    let (mut lot, _) = create_lot_alice();
    let step = Fraction::new(1, 4);
    let mut amount = lot.next_bid_amount(to_ts(11), step).unwrap();
    assert_eq!(amount, to_yocto("2"));
    let mut last: Option<u128> = None;
    for i in 0..4u64 {
        let bid = Bid {
            bidder_id: "carol".to_string(),
            amount,
            timestamp: to_ts(11) + i,
        };
        lot.place_bid(&bid, step).unwrap();
        if let Some(prev) = last {
            assert!(amount > prev);
        }
        assert!(amount >= lot.reserve_price);
        last = Some(amount);
        match lot.next_bid_amount(to_ts(11) + i, step) {
            Some(next) => {
                assert!(next <= lot.buy_now_price);
                amount = next;
            },
            None => break,
        }
    }
}

#[test]
fn test_lot_reserve_equal_buy_now_first_bid_ends_sale() {
    let mut lot = Lot::new(
        "alice".to_string(),
        "bob".to_string(),
        to_yocto("5"),
        to_yocto("5"),
        to_ts(10),
        to_nanos(7),
    )
    .unwrap();
    assert_eq!(lot.next_bid_amount(to_ts(11), Fraction::new(1, 5)), Some(to_yocto("5")));
    let bid = Bid { bidder_id: "carol".to_string(), amount: to_yocto("5"), timestamp: to_ts(11) };
    lot.place_bid(&bid, Fraction::new(1, 5)).unwrap();
    assert_eq!(lot.status(to_ts(12)), LotStatus::SaleSuccess);
    assert!(!lot.is_active(to_ts(12)));
}

#[test]
fn test_lot_bid_equal_buy_now_ends_sale() {
    let (mut lot, time_now) = create_lot_alice();
    let bid = Bid { bidder_id: "dan".to_string(), amount: to_yocto("10"), timestamp: to_ts(11) };
    lot.place_bid(&bid, Fraction::new(0, 1)).unwrap();
    assert!(!lot.is_active(time_now));
    assert!(!lot.is_active(to_ts(11)));
    assert_eq!(lot.status(time_now), LotStatus::SaleSuccess);
    assert_eq!(lot.next_bid_amount(time_now, Fraction::new(0, 1)), None);
}
