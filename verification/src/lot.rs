//! The auction state machine: one lot, its pricing, timing, bid ladder,
//! withdrawal flag, and all validation and transition logic.
//!
//! A lot's status is never stored; it is derived from the withdrawal flag,
//! the bid list and the finish time, so the two can never drift apart.

use vstd::prelude::*;

use crate::fraction::Fraction;
use crate::{Balance, Duration, Error, LotId, ProfileId, Timestamp};

verus! {

/// The derived lifecycle state of a lot. `Withdrawn`, `SaleSuccess` and
/// `SaleFailure` are terminal.
#[derive(Clone, Copy, Debug, PartialEq, Eq, Structural)]
pub enum LotStatus {
    OnSale,
    Withdrawn,
    SaleSuccess,
    SaleFailure,
}

/// One recorded bid. Immutable once recorded.
pub struct Bid {
    pub bidder_id: ProfileId,
    pub amount: Balance,
    pub timestamp: Timestamp,
}

/// The mathematical value of a [`Bid`].
#[verifier::ext_equal]
pub ghost struct BidV {
    pub bidder_id: Seq<char>,
    pub amount: Balance,
    pub timestamp: Timestamp,
}

impl View for Bid {
    type V = BidV;

    open spec fn view(&self) -> BidV {
        BidV { bidder_id: self.bidder_id@, amount: self.amount, timestamp: self.timestamp }
    }
}

impl DeepView for Bid {
    type V = BidV;

    open spec fn deep_view(&self) -> BidV {
        self.view()
    }
}

/// One auction: identity, terms, timing and the append-only bid list.
pub struct Lot {
    pub lot_id: LotId,
    pub seller_id: ProfileId,
    pub reserve_price: Balance,
    pub buy_now_price: Balance,
    pub start_timestamp: Timestamp,
    pub finish_timestamp: Timestamp,
    pub is_withdrawn: bool,
    pub bids: Vec<Bid>,
}

/// The mathematical value of a [`Lot`].
#[verifier::ext_equal]
pub ghost struct LotV {
    pub lot_id: Seq<char>,
    pub seller_id: Seq<char>,
    pub reserve_price: Balance,
    pub buy_now_price: Balance,
    pub start_timestamp: Timestamp,
    pub finish_timestamp: Timestamp,
    pub is_withdrawn: bool,
    pub bids: Seq<BidV>,
}

impl View for Lot {
    type V = LotV;

    open spec fn view(&self) -> LotV {
        LotV {
            lot_id: self.lot_id@,
            seller_id: self.seller_id@,
            reserve_price: self.reserve_price,
            buy_now_price: self.buy_now_price,
            start_timestamp: self.start_timestamp,
            finish_timestamp: self.finish_timestamp,
            is_withdrawn: self.is_withdrawn,
            bids: self.bids.deep_view(),
        }
    }
}

impl DeepView for Lot {
    type V = LotV;

    open spec fn deep_view(&self) -> LotV {
        self.view()
    }
}

impl LotV {
    pub open spec fn has_bids(self) -> bool {
        self.bids.len() > 0
    }

    pub open spec fn last_bid(self) -> BidV
        recommends
            self.has_bids(),
    {
        self.bids.last()
    }

    pub open spec fn last_bid_amount(self) -> Option<Balance> {
        if self.has_bids() {
            Some(self.bids.last().amount)
        } else {
            None
        }
    }

    pub open spec fn potential_claimer_id(self) -> Option<Seq<char>> {
        if self.has_bids() {
            Some(self.bids.last().bidder_id)
        } else {
            None
        }
    }

    /// A lot is on sale until its finish time passes, a bid reaches the
    /// buy-now price, or it is withdrawn.
    pub open spec fn is_active(self, time_now: Timestamp) -> bool {
        &&& time_now < self.finish_timestamp
        &&& (self.has_bids() ==> self.bids.last().amount < self.buy_now_price)
        &&& !self.is_withdrawn
    }

    pub open spec fn status(self, time_now: Timestamp) -> LotStatus {
        if self.is_active(time_now) {
            LotStatus::OnSale
        } else if self.is_withdrawn {
            LotStatus::Withdrawn
        } else if self.has_bids() {
            LotStatus::SaleSuccess
        } else {
            LotStatus::SaleFailure
        }
    }

    /// The bid ladder: no valid next bid while inactive; the reserve price
    /// while no bids exist; otherwise the last amount raised by `bid_step`,
    /// bumped by one unit when flooring would yield no increase, and capped
    /// at the buy-now price.
    pub open spec fn next_bid_amount(self, time_now: Timestamp, bid_step: Fraction) -> Option<
        Balance,
    > {
        if !self.is_active(time_now) {
            None
        } else if self.has_bids() {
            let last = self.bids.last().amount;
            let stepped = last + bid_step.spec_mul(last);
            let wanted = if stepped == last {
                last + 1
            } else {
                stepped
            };
            if self.buy_now_price as int <= wanted {
                Some(self.buy_now_price)
            } else {
                Some(wanted as Balance)
            }
        } else {
            Some(self.reserve_price)
        }
    }

    /// Everything the constructor establishes and every transition
    /// preserves: sane identities and prices, a strictly increasing bid
    /// ladder starting at or above the reserve, no self-dealing bids, and
    /// only the last bid possibly at or above the buy-now price.
    pub open spec fn wf(self) -> bool {
        &&& self.lot_id != self.seller_id
        &&& self.reserve_price <= self.buy_now_price
        &&& (forall|i: int|
            0 <= i < self.bids.len() ==> (#[trigger] self.bids[i]).bidder_id != self.seller_id
                && self.bids[i].bidder_id != self.lot_id)
        &&& (self.has_bids() ==> self.bids[0].amount >= self.reserve_price)
        &&& (forall|i: int|
            0 < i < self.bids.len() ==> self.bids[i - 1].amount < (#[trigger] self.bids[i]).amount)
        &&& (forall|i: int|
            0 <= i < self.bids.len() - 1 ==> (#[trigger] self.bids[i]).amount < self.buy_now_price)
    }

    /// Which error, if any, a claim by `claimer_id` at `time_now` hits.
    /// The seller may reclaim a withdrawn lot; the last bidder may claim a
    /// concluded sale; nobody else may claim anything.
    pub open spec fn spec_validate_claim(self, claimer_id: Seq<char>, time_now: Timestamp) -> Result<
        (),
        Error,
    > {
        if claimer_id == self.seller_id {
            if !self.is_withdrawn {
                Err(Error::ClaimBySellerWrongStatus)
            } else {
                Ok(())
            }
        } else {
            if self.is_active(time_now) {
                Err(Error::ClaimByBidderWrongStatus)
            } else if self.potential_claimer_id() != Some(claimer_id) {
                Err(Error::ClaimByBidderWrongClaimer)
            } else {
                Ok(())
            }
        }
    }

    /// Which error, if any, a withdrawal by `withdrawer_id` hits: only the
    /// seller may withdraw, only once, and only before any bid exists.
    pub open spec fn spec_validate_withdraw(self, withdrawer_id: Seq<char>) -> Result<(), Error> {
        if self.is_withdrawn {
            Err(Error::WithdrawWrongStatus)
        } else if self.has_bids() {
            Err(Error::WithdrawHasBid)
        } else if self.seller_id != withdrawer_id {
            Err(Error::WithdrawWrongWithdrawer)
        } else {
            Ok(())
        }
    }

    /// Which error, if any, a bid hits: the lot must be on sale at the bid's
    /// timestamp, the amount must reach the ladder's minimum, and neither the
    /// seller nor the lot itself may bid.
    pub open spec fn spec_validate_place_bid(self, bid: BidV, bid_step: Fraction) -> Result<
        (),
        Error,
    > {
        if !self.is_active(bid.timestamp) {
            Err(Error::BidWrongStatus)
        } else if bid.amount < self.next_bid_amount(bid.timestamp, bid_step)->Some_0 {
            Err(Error::BidTooSmall)
        } else if bid.bidder_id == self.seller_id || bid.bidder_id == self.lot_id {
            Err(Error::BidWrongBidder)
        } else {
            Ok(())
        }
    }

    /// Which error, if any, a re-offer by `caller_id` hits: only the seller
    /// may re-offer, and only while no bids exist.
    pub open spec fn spec_validate_reoffer(self, caller_id: Seq<char>) -> Result<(), Error> {
        if self.has_bids() {
            Err(Error::ReofferHasBids)
        } else if self.seller_id != caller_id {
            Err(Error::ReofferWrongCaller)
        } else {
            Ok(())
        }
    }
}

impl Lot {
    /// Constructs a fresh lot running from `time_now` for `duration`,
    /// rejecting self-dealing and inverted prices.
    pub fn new(
        lot_id: LotId,
        seller_id: ProfileId,
        reserve_price: Balance,
        buy_now_price: Balance,
        time_now: Timestamp,
        duration: Duration,
    ) -> (r: Result<Lot, Error>)
        requires
            time_now + duration <= Timestamp::MAX,
        ensures
            lot_id@ == seller_id@ ==> r == Result::<Lot, Error>::Err(Error::LotSellsSelf),
            lot_id@ != seller_id@ && reserve_price > buy_now_price ==> r == Result::<
                Lot,
                Error,
            >::Err(Error::ReserveAboveBuyNow),
            lot_id@ != seller_id@ && reserve_price <= buy_now_price ==> (r matches Ok(l) && l@
                == (LotV {
                lot_id: lot_id@,
                seller_id: seller_id@,
                reserve_price,
                buy_now_price,
                start_timestamp: time_now,
                finish_timestamp: (time_now + duration) as Timestamp,
                is_withdrawn: false,
                bids: Seq::empty(),
            }) && l@.wf()),
    {
        if lot_id == seller_id {
            return Err(Error::LotSellsSelf);
        }
        if reserve_price > buy_now_price {
            return Err(Error::ReserveAboveBuyNow);
        }
        let l = Lot {
            lot_id,
            seller_id,
            reserve_price,
            buy_now_price,
            start_timestamp: time_now,
            finish_timestamp: time_now + duration,
            is_withdrawn: false,
            bids: Vec::new(),
        };
        proof {
            assert(l@.bids =~= Seq::<BidV>::empty());
        }
        Ok(l)
    }

    /// The recorded bids, oldest first.
    pub fn bids(&self) -> (r: &Vec<Bid>)
        ensures
            r.deep_view() == self@.bids,
    {
        &self.bids
    }

    pub fn is_active(&self, time_now: Timestamp) -> (r: bool)
        ensures
            r == self@.is_active(time_now),
    {
        if time_now >= self.finish_timestamp {
            return false;
        }
        if let Some(last_bid_amount) = self.last_bid_amount() {
            if last_bid_amount >= self.buy_now_price {
                return false;
            }
        }
        if self.is_withdrawn {
            return false;
        }
        true
    }

    /// The most recent bid, if any.
    pub fn last_bid(&self) -> (r: Option<&Bid>)
        ensures
            match r {
                Some(b) => self@.has_bids() && b@ == self@.last_bid(),
                None => !self@.has_bids(),
            },
    {
        if self.bids.len() == 0 {
            None
        } else {
            Some(&self.bids[self.bids.len() - 1])
        }
    }

    pub fn last_bid_amount(&self) -> (r: Option<Balance>)
        ensures
            r == self@.last_bid_amount(),
    {
        match self.last_bid() {
            Some(b) => Some(b.amount),
            None => None,
        }
    }

    /// The minimum amount the next bid must reach, or `None` while the lot
    /// is not on sale. Never exceeds the buy-now price.
    pub fn next_bid_amount(&self, time_now: Timestamp, bid_step: Fraction) -> (r: Option<Balance>)
        requires
            bid_step.wf(),
            self@.wf(),
        ensures
            r == self@.next_bid_amount(time_now, bid_step),
            r matches Some(a) ==> a <= self@.buy_now_price,
    {
        if !self.is_active(time_now) {
            return None;
        }
        if let Some(last) = self.last_bid_amount() {
            let step_inc = bid_step.mul(last);
            if step_inc == 0 {
                Some(last + 1)
            } else if step_inc >= self.buy_now_price - last {
                Some(self.buy_now_price)
            } else {
                Some(last + step_inc)
            }
        } else {
            Some(self.reserve_price)
        }
    }

    /// The identity entitled to claim a concluded sale: the last bidder.
    pub fn potential_claimer_id(&self) -> (r: Option<ProfileId>)
        ensures
            match r {
                Some(id) => self@.potential_claimer_id() == Some(id@),
                None => self@.potential_claimer_id() is None,
            },
    {
        match self.last_bid() {
            Some(b) => Some(b.bidder_id.clone()),
            None => None,
        }
    }

    pub fn status(&self, time_now: Timestamp) -> (r: LotStatus)
        ensures
            r == self@.status(time_now),
    {
        if self.is_active(time_now) {
            LotStatus::OnSale
        } else if self.is_withdrawn {
            LotStatus::Withdrawn
        } else {
            match self.last_bid() {
                Some(_) => LotStatus::SaleSuccess,
                None => LotStatus::SaleFailure,
            }
        }
    }

    /// Clears the bid list. Called only as the terminal step of retirement,
    /// after the custody transfer is confirmed.
    pub fn clean_up(&mut self)
        ensures
            final(self)@ == (LotV { bids: Seq::empty(), ..old(self)@ }),
    {
        self.bids.clear();
        proof {
            assert(self@.bids =~= Seq::<BidV>::empty());
        }
    }

    /// Checks whether `claimer_id` may claim this lot at `time_now`, without
    /// mutating anything.
    pub fn validate_claim(&self, claimer_id: &ProfileId, time_now: Timestamp) -> (r: Result<
        (),
        Error,
    >)
        ensures
            r == self@.spec_validate_claim(claimer_id@, time_now),
    {
        if *claimer_id == self.seller_id {
            if !self.is_withdrawn {
                Err(Error::ClaimBySellerWrongStatus)
            } else {
                Ok(())
            }
        } else {
            if self.is_active(time_now) {
                Err(Error::ClaimByBidderWrongStatus)
            } else {
                match self.last_bid() {
                    Some(b) => {
                        if b.bidder_id == *claimer_id {
                            Ok(())
                        } else {
                            Err(Error::ClaimByBidderWrongClaimer)
                        }
                    },
                    None => Err(Error::ClaimByBidderWrongClaimer),
                }
            }
        }
    }

    /// Checks whether `withdrawer_id` may withdraw this lot, without
    /// mutating anything.
    pub fn validate_withdraw(&self, withdrawer_id: &ProfileId) -> (r: Result<(), Error>)
        ensures
            r == self@.spec_validate_withdraw(withdrawer_id@),
    {
        if self.is_withdrawn {
            return Err(Error::WithdrawWrongStatus);
        }
        if self.bids.len() > 0 {
            return Err(Error::WithdrawHasBid);
        }
        if self.seller_id != *withdrawer_id {
            return Err(Error::WithdrawWrongWithdrawer);
        }
        Ok(())
    }

    /// Marks the lot withdrawn, when `withdrawer_id` is the seller, the lot
    /// is not already withdrawn, and no bid was ever placed; otherwise
    /// reports the error and leaves the lot unchanged.
    pub fn withdraw(&mut self, withdrawer_id: &ProfileId) -> (r: Result<(), Error>)
        ensures
            r == old(self)@.spec_validate_withdraw(withdrawer_id@),
            r is Ok ==> final(self)@ == (LotV { is_withdrawn: true, ..old(self)@ }),
            r is Err ==> final(self)@ == old(self)@,
    {
        match self.validate_withdraw(withdrawer_id) {
            Ok(()) => {
                self.is_withdrawn = true;
                Ok(())
            },
            Err(e) => Err(e),
        }
    }

    /// Checks whether the lot's terms may be reset by `caller_id`, without
    /// mutating anything.
    pub fn validate_reoffer(&self, caller_id: &ProfileId) -> (r: Result<(), Error>)
        ensures
            r == self@.spec_validate_reoffer(caller_id@),
    {
        if self.bids.len() > 0 {
            return Err(Error::ReofferHasBids);
        }
        if self.seller_id != *caller_id {
            return Err(Error::ReofferWrongCaller);
        }
        Ok(())
    }

    /// Checks whether the bid would be accepted, without mutating anything.
    pub fn validate_place_bid(&self, bid: &Bid, bid_step: Fraction) -> (r: Result<(), Error>)
        requires
            self@.wf(),
            bid_step.wf(),
        ensures
            r == self@.spec_validate_place_bid(bid@, bid_step),
    {
        if !self.is_active(bid.timestamp) {
            return Err(Error::BidWrongStatus);
        }
        let min_next_bid_amount = match self.next_bid_amount(bid.timestamp, bid_step) {
            Some(a) => a,
            None => {
                // unreachable: the lot is active at the bid's timestamp
                return Err(Error::BidWrongStatus);
            },
        };
        if bid.amount < min_next_bid_amount {
            return Err(Error::BidTooSmall);
        }
        if bid.bidder_id == self.seller_id || bid.bidder_id == self.lot_id {
            return Err(Error::BidWrongBidder);
        }
        Ok(())
    }

    /// Appends the bid when it is valid; otherwise reports the error and
    /// leaves the lot unchanged. A valid bid keeps the lot well-formed: it
    /// strictly exceeds the previous bid and is at least the reserve price.
    pub fn place_bid(&mut self, bid: &Bid, bid_step: Fraction) -> (r: Result<(), Error>)
        requires
            old(self)@.wf(),
            bid_step.wf(),
        ensures
            r == old(self)@.spec_validate_place_bid(bid@, bid_step),
            r is Ok ==> final(self)@ == (LotV {
                bids: old(self)@.bids.push(bid@),
                ..old(self)@
            }) && final(self)@.wf(),
            r is Err ==> final(self)@ == old(self)@,
    {
        match self.validate_place_bid(bid, bid_step) {
            Ok(()) => {
                let new_bid = Bid {
                    bidder_id: bid.bidder_id.clone(),
                    amount: bid.amount,
                    timestamp: bid.timestamp,
                };
                proof {
                    lemma_place_bid_preserves_wf(old(self)@, bid@, bid_step);
                }
                self.bids.push(new_bid);
                proof {
                    assert(self@.bids =~= old(self)@.bids.push(bid@));
                }
                Ok(())
            },
            Err(e) => Err(e),
        }
    }
}

/// On an active lot with bids, the ladder's next amount strictly exceeds
/// the last bid.
pub proof fn lemma_next_exceeds_last(l: LotV, t: Timestamp, bid_step: Fraction)
    requires
        l.wf(),
        bid_step.wf(),
        l.is_active(t),
        l.has_bids(),
    ensures
        l.next_bid_amount(t, bid_step) matches Some(a) && a > l.last_bid().amount,
{
    let last = l.bids.last().amount;
    crate::fraction::lemma_fraction_mul_bounds(bid_step, last as int);
}

/// A lot that accepts a bid stays well-formed: the ladder guarantees the new
/// amount strictly exceeds the last one and reaches the reserve price.
#[verifier::rlimit(50)]
pub proof fn lemma_place_bid_preserves_wf(l: LotV, bid: BidV, bid_step: Fraction)
    requires
        l.wf(),
        bid_step.wf(),
        l.spec_validate_place_bid(bid, bid_step) is Ok,
    ensures
        (LotV { bids: l.bids.push(bid), ..l }).wf(),
        l.has_bids() ==> l.last_bid().amount < bid.amount,
        bid.amount >= l.reserve_price,
{
    let l2 = LotV { bids: l.bids.push(bid), ..l };
    if l.has_bids() {
        lemma_next_exceeds_last(l, bid.timestamp, bid_step);
        assert(l.bids[0].amount >= l.reserve_price);
        lemma_bids_strictly_increasing(l, 0, l.bids.len() - 1);
        assert(bid.amount >= l.reserve_price);
    }
    assert forall|i: int| 0 < i < l2.bids.len() implies l2.bids[i - 1].amount < (
    #[trigger] l2.bids[i]).amount by {
        if i < l.bids.len() {
            assert(l.bids[i - 1].amount < l.bids[i].amount);
        }
    }
}

/// Property of every well-formed lot: bid amounts strictly increase along
/// the ladder, and every bid is at least the reserve price.
pub proof fn lemma_bids_strictly_increasing(l: LotV, i: int, j: int)
    requires
        l.wf(),
        0 <= i <= j < l.bids.len(),
    ensures
        i < j ==> l.bids[i].amount < l.bids[j].amount,
        l.reserve_price <= l.bids[j].amount,
    decreases j,
{
    if i < j {
        lemma_bids_strictly_increasing(l, i, j - 1);
        assert(l.bids[j - 1].amount < l.bids[j].amount);
    } else if j > 0 {
        lemma_bids_strictly_increasing(l, 0, j - 1);
        assert(l.bids[j - 1].amount < l.bids[j].amount);
    }
}

/// A freshly offered lot with a positive duration is on sale at its start
/// time and no longer on sale at or after its finish time.
pub proof fn lemma_fresh_lot_activity(l: LotV, t: Timestamp)
    requires
        !l.is_withdrawn,
        !l.has_bids(),
        l.start_timestamp < l.finish_timestamp,
    ensures
        l.is_active(l.start_timestamp),
        t >= l.finish_timestamp ==> !l.is_active(t),
{
}

/// A bid that reaches the buy-now price ends the sale at once: the lot is no
/// longer on sale at any time, and its status is a concluded sale.
pub proof fn lemma_buy_now_ends_sale(l: LotV, t: Timestamp)
    requires
        l.has_bids(),
        l.last_bid().amount >= l.buy_now_price,
        !l.is_withdrawn,
    ensures
        !l.is_active(t),
        l.status(t) == LotStatus::SaleSuccess,
{
}

/// Once a lot is withdrawn, every further withdrawal is rejected.
pub proof fn lemma_withdraw_rejected_when_withdrawn(l: LotV, withdrawer_id: Seq<char>)
    requires
        l.is_withdrawn,
    ensures
        l.spec_validate_withdraw(withdrawer_id) == Result::<(), Error>::Err(
            Error::WithdrawWrongStatus,
        ),
{
}

/// Once any bid exists, withdrawal is rejected for every caller.
pub proof fn lemma_withdraw_rejected_with_bids(l: LotV, withdrawer_id: Seq<char>)
    requires
        !l.is_withdrawn,
        l.has_bids(),
    ensures
        l.spec_validate_withdraw(withdrawer_id) == Result::<(), Error>::Err(Error::WithdrawHasBid),
{
}

/// The derived status always agrees with the underlying fields.
pub proof fn lemma_status_consistent(l: LotV, t: Timestamp)
    ensures
        l.status(t) == LotStatus::OnSale <==> l.is_active(t),
        l.status(t) == LotStatus::Withdrawn <==> (!l.is_active(t) && l.is_withdrawn),
        l.status(t) == LotStatus::SaleSuccess <==> (!l.is_active(t) && !l.is_withdrawn
            && l.has_bids()),
        l.status(t) == LotStatus::SaleFailure <==> (!l.is_active(t) && !l.is_withdrawn
            && !l.has_bids()),
{
}

} // verus!

