use marketplace::economics::calc_lot_bid_rewards;
use marketplace::fraction::Fraction;

fn to_yocto(value: &str) -> u128 {
    let yocto = 10u128.pow(24);
    match value.split_once('.') {
        None => value.parse::<u128>().unwrap() * yocto,
        Some((whole, frac)) => {
            let scale = 10u128.pow(24 - frac.len() as u32);
            whole.parse::<u128>().unwrap() * yocto + frac.parse::<u128>().unwrap() * scale
        },
    }
}

#[test]
pub fn test_fractions_new() {
    {
        Fraction::new(0, 1);
        Fraction::new(1, 1);
        Fraction::new(7, 13);
        Fraction::new(13, 13);
    }
}

#[test]
pub fn test_fractions_mul() {
    assert_eq!(Fraction::new(0, 13).mul(10), 0, "expected zero mul for zero fraction");
    assert_eq!(Fraction::new(7, 13).mul(0), 0, "expected zero mul for zero balance");
    assert_eq!(Fraction::new(13, 13).mul(100), 100, "expected same mul one fraction");
    assert_eq!(Fraction::new(7, 13).mul(100), 53, "expected zero mul for zero balance");
    assert_eq!(Fraction::new(2, 3).mul(10), 6, "expected floor rounding");
}

#[test]
pub fn test_fractions_mul_large_balance() {
    // the widened intermediate: num * balance alone would overflow 128 bits
    let max = u128::MAX;
    assert_eq!(Fraction::new(1, 1).mul(max), max);
    assert_eq!(Fraction::new(1, 2).mul(max), max / 2);
    assert_eq!(Fraction::new(3, 4).mul(max), ((max / 4) * 3) + ((max % 4) * 3) / 4);
    assert_eq!(Fraction::new(0, 7).mul(max), 0);
}

#[test]
fn test_economics_calc_lot_bid_rewards_zero_commissions() {
    let z = Fraction::new(0, 1);

    let (to_prev_bidder, to_seller) = calc_lot_bid_rewards(None, to_yocto("10"), z, z);
    assert_eq!(to_prev_bidder, None);
    assert_eq!(to_seller, to_yocto("10"));

    let (to_prev_bidder, to_seller) =
        calc_lot_bid_rewards(Some(to_yocto("10")), to_yocto("15"), z, z);
    assert_eq!(to_prev_bidder, Some(to_yocto("10")));
    assert_eq!(to_seller, to_yocto("5"));
}

#[test]
fn test_economics_calc_lot_bid_rewards_nonzero_commissions() {
    let c = Fraction::new(1, 10);
    let cs = Fraction::new(4, 5);

    let (to_prev_bidder, to_seller) = calc_lot_bid_rewards(None, to_yocto("10"), c, cs);
    assert_eq!(to_prev_bidder, None);
    assert_eq!(to_seller, to_yocto("9"));

    let (to_prev_bidder, to_seller) =
        calc_lot_bid_rewards(Some(to_yocto("10")), to_yocto("15"), c, cs);
    assert_eq!(to_prev_bidder, Some(to_yocto("10.4")));
    assert_eq!(to_seller, to_yocto("4.5"));
}

#[test]
fn test_economics_split_conserves_value() {
    // to_seller + retained commission + rebate always add up to the increment
    let cases: [(u128, u128, (u32, u32), (u32, u32)); 4] = [
        (to_yocto("10"), to_yocto("15"), (1, 10), (4, 5)),
        (to_yocto("3"), to_yocto("10"), (1, 8), (1, 3)),
        (1, 2, (1, 7), (6, 7)),
        (999, 1000, (3, 10), (0, 1)),
    ];
    for (prev, amount, (cn, cd), (sn, sd)) in cases {
        let commission_fraction = Fraction::new(cn, cd);
        let share_fraction = Fraction::new(sn, sd);
        let (to_prev_bidder, to_seller) =
            calc_lot_bid_rewards(Some(prev), amount, commission_fraction, share_fraction);
        let delta = amount - prev;
        let commission = commission_fraction.mul(delta);
        let rebate = to_prev_bidder.unwrap() - prev;
        let retained = commission - rebate;
        assert_eq!(to_seller + retained + rebate, delta);
    }
}
