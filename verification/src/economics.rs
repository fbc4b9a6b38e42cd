//! The three-way split of an accepted bid.
//!
//! When a bid dislodges a previous one, the seller's gain is only the
//! increment above the previous bid; a commission is carved out of that gain,
//! and the dislodged bidder recovers their full locked amount plus a rebate
//! share of the commission. Rounding always floors, so rounding errors favor
//! the protocol, never a participant.

use vstd::arithmetic::div_mod::lemma_div_of0;
use vstd::prelude::*;

use crate::fraction::{lemma_fraction_mul_bounds, Fraction};
use crate::Balance;

verus! {

/// What the seller's ledger gains before commission: the whole amount on a
/// first bid, only the increment above the previous bid afterwards.
pub open spec fn spec_seller_gain(prev_amount: Option<Balance>, amount: Balance) -> int {
    match prev_amount {
        Option::Some(p) => amount - p,
        Option::None => amount as int,
    }
}

/// The protocol commission on the seller's gain.
pub open spec fn spec_commission(
    prev_amount: Option<Balance>,
    amount: Balance,
    seller_rewards_commission: Fraction,
) -> int {
    seller_rewards_commission.spec_mul_int(spec_seller_gain(prev_amount, amount))
}

/// What the seller is credited: the gain minus the commission.
pub open spec fn spec_to_seller(
    prev_amount: Option<Balance>,
    amount: Balance,
    seller_rewards_commission: Fraction,
) -> int {
    spec_seller_gain(prev_amount, amount)
        - spec_commission(prev_amount, amount, seller_rewards_commission)
}

/// The rebate carved out of the commission for the dislodged bidder.
pub open spec fn spec_prev_bidder_reward(
    prev_amount: Option<Balance>,
    amount: Balance,
    seller_rewards_commission: Fraction,
    prev_bidder_commission_share: Fraction,
) -> int {
    prev_bidder_commission_share.spec_mul_int(
        spec_commission(prev_amount, amount, seller_rewards_commission),
    )
}

/// What the dislodged bidder is credited: their full locked amount plus the
/// rebate.
pub open spec fn spec_to_prev_bidder(
    prev_amount: Balance,
    amount: Balance,
    seller_rewards_commission: Fraction,
    prev_bidder_commission_share: Fraction,
) -> int {
    prev_amount + spec_prev_bidder_reward(
        Some(prev_amount),
        amount,
        seller_rewards_commission,
        prev_bidder_commission_share,
    )
}

/// What the protocol keeps: the commission minus the rebate.
pub open spec fn spec_retained_commission(
    prev_amount: Option<Balance>,
    amount: Balance,
    seller_rewards_commission: Fraction,
    prev_bidder_commission_share: Fraction,
) -> int {
    spec_commission(prev_amount, amount, seller_rewards_commission)
        - spec_prev_bidder_reward(
        prev_amount,
        amount,
        seller_rewards_commission,
        prev_bidder_commission_share,
    )
}

/// Splits a newly accepted bid into the credit for the dislodged bidder (if
/// any) and the credit for the seller.
pub fn calc_lot_bid_rewards(
    prev_amount: Option<Balance>,
    amount: Balance,
    seller_rewards_commission: Fraction,
    prev_bidder_commission_share: Fraction,
) -> (r: (Option<Balance>, Balance))
    requires
        seller_rewards_commission.wf(),
        prev_bidder_commission_share.wf(),
        prev_amount matches Some(p) ==> p <= amount,
    ensures
        r.1 as int == spec_to_seller(prev_amount, amount, seller_rewards_commission),
        r.0 matches Some(b) <==> prev_amount matches Some(p),
        prev_amount matches Some(p) ==> r.0 matches Some(b) && b as int == spec_to_prev_bidder(
            p,
            amount,
            seller_rewards_commission,
            prev_bidder_commission_share,
        ),
{
    match prev_amount {
        Some(prev) => {
            let to_prev_bidder_bid = prev;
            let gain = amount - to_prev_bidder_bid;
            proof {
                lemma_fraction_mul_bounds(seller_rewards_commission, gain as int);
            }
            let commission = seller_rewards_commission.mul(gain);
            let to_seller = gain - commission;
            proof {
                lemma_fraction_mul_bounds(prev_bidder_commission_share, commission as int);
            }
            let to_prev_bidder_reward = prev_bidder_commission_share.mul(commission);
            let to_prev_bidder = to_prev_bidder_bid + to_prev_bidder_reward;
            (Some(to_prev_bidder), to_seller)
        },
        None => {
            proof {
                lemma_fraction_mul_bounds(seller_rewards_commission, amount as int);
            }
            let commission = seller_rewards_commission.mul(amount);
            let to_seller = amount - commission;
            (None, to_seller)
        },
    }
}

/// No value is created or destroyed by the split: on a dislodging bid the
/// seller's credit, the retained commission and the dislodged bidder's rebate
/// add up exactly to the increment above the previous bid, and each part is
/// nonnegative.
pub proof fn lemma_split_conserves_value(
    prev_amount: Balance,
    amount: Balance,
    seller_rewards_commission: Fraction,
    prev_bidder_commission_share: Fraction,
)
    requires
        seller_rewards_commission.wf(),
        prev_bidder_commission_share.wf(),
        prev_amount <= amount,
    ensures
        spec_to_seller(Some(prev_amount), amount, seller_rewards_commission)
            + spec_retained_commission(
            Some(prev_amount),
            amount,
            seller_rewards_commission,
            prev_bidder_commission_share,
        ) + spec_prev_bidder_reward(
            Some(prev_amount),
            amount,
            seller_rewards_commission,
            prev_bidder_commission_share,
        ) == amount - prev_amount,
        0 <= spec_to_seller(Some(prev_amount), amount, seller_rewards_commission),
        0 <= spec_retained_commission(
            Some(prev_amount),
            amount,
            seller_rewards_commission,
            prev_bidder_commission_share,
        ),
        0 <= spec_prev_bidder_reward(
            Some(prev_amount),
            amount,
            seller_rewards_commission,
            prev_bidder_commission_share,
        ),
{
    let gain = amount - prev_amount;
    lemma_fraction_mul_bounds(seller_rewards_commission, gain);
    lemma_fraction_mul_bounds(
        prev_bidder_commission_share,
        spec_commission(Some(prev_amount), amount, seller_rewards_commission),
    );
}

/// With a zero commission fraction the seller is credited the whole gain and
/// the dislodged bidder gets no rebate, whatever the rebate share is.
pub proof fn lemma_split_zero_commission(
    prev_amount: Option<Balance>,
    amount: Balance,
    seller_rewards_commission: Fraction,
    prev_bidder_commission_share: Fraction,
)
    requires
        seller_rewards_commission.wf(),
        prev_bidder_commission_share.wf(),
        seller_rewards_commission.num == 0,
        prev_amount matches Some(p) ==> p <= amount,
    ensures
        spec_to_seller(prev_amount, amount, seller_rewards_commission) == spec_seller_gain(
            prev_amount,
            amount,
        ),
        spec_prev_bidder_reward(
            prev_amount,
            amount,
            seller_rewards_commission,
            prev_bidder_commission_share,
        ) == 0,
{
    lemma_div_of0(seller_rewards_commission.denom as int);
    assert(spec_commission(prev_amount, amount, seller_rewards_commission) == 0);
    lemma_div_of0(prev_bidder_commission_share.denom as int);
}

} // verus!
