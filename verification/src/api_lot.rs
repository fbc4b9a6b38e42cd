//! Registry operations on lots: offer, bid, withdraw, re-offer, the
//! two-phase claim and the two-phase unsafe removal.
//!
//! The remote custody service is not called from here: the claim and the
//! unsafe removal each split into a validation phase that mutates nothing
//! and a callback phase that takes the remote outcome as a parameter, so
//! the caller performs the remote call between the two and the whole
//! decision logic stays verified.

use vstd::prelude::*;

use crate::contract::{
    lemma_contract_lots_remove_wf, lemma_lots_index_unique, lemma_lots_push_keeps_distinct,
    lemma_lots_remove_keeps_distinct, lots_at, lots_contains, lots_distinct, lots_index,
    profile_or_empty, profiles_credit, profiles_remove_id, Contract, ContractV,
    LOT_REMOVE_UNSAFE_GRACE_DURATION,
};
use crate::economics::{
    calc_lot_bid_rewards, lemma_split_conserves_value, spec_to_prev_bidder, spec_to_seller,
};
use crate::fraction::lemma_fraction_mul_bounds;
use crate::lot::{Bid, BidV, Lot, LotV};
use crate::profile::{ids_with, ids_without, ProfileV};
use crate::{Balance, Duration, Error, LotId, ProfileId, Timestamp};

verus! {

/// The finish time an offer resolves to: the explicit one when given,
/// otherwise the start time plus the duration.
pub open spec fn spec_finish_timestamp(
    start_timestamp: Timestamp,
    finish_timestamp: Option<Timestamp>,
    duration: Option<Duration>,
) -> int {
    match finish_timestamp {
        Some(f) => f as int,
        None => start_timestamp + duration->Some_0,
    }
}

/// The lot a successful offer stores.
pub open spec fn spec_fresh_lot(
    lot_id: Seq<char>,
    seller_id: Seq<char>,
    reserve_price: Balance,
    buy_now_price: Balance,
    start_timestamp: Timestamp,
    finish_timestamp: Timestamp,
) -> LotV {
    LotV {
        lot_id,
        seller_id,
        reserve_price,
        buy_now_price,
        start_timestamp,
        finish_timestamp,
        is_withdrawn: false,
        bids: Seq::empty(),
    }
}

/// The profiles after recording that `seller_id` offers `lot_id`: the
/// seller's profile is extracted (or materialized), gains the association if
/// it lacks it, and is saved back.
pub open spec fn profiles_with_offering(
    profiles: Seq<ProfileV>,
    seller_id: Seq<char>,
    lot_id: Seq<char>,
) -> Seq<ProfileV> {
    profiles_remove_id(profiles, seller_id).push(
        ProfileV {
            lots_offering: ids_with(profile_or_empty(profiles, seller_id).lots_offering, lot_id),
            ..profile_or_empty(profiles, seller_id)
        },
    )
}

/// The profiles after recording that `bidder_id` bids on `lot_id`.
pub open spec fn profiles_with_bidding(
    profiles: Seq<ProfileV>,
    bidder_id: Seq<char>,
    lot_id: Seq<char>,
) -> Seq<ProfileV> {
    profiles_remove_id(profiles, bidder_id).push(
        ProfileV {
            lots_bidding: ids_with(profile_or_empty(profiles, bidder_id).lots_bidding, lot_id),
            ..profile_or_empty(profiles, bidder_id)
        },
    )
}

/// The profiles after forgetting `bidder_id`'s bidding association to
/// `lot_id`; the profile is extracted (or materialized) and saved back even
/// when it had no such association.
pub open spec fn profiles_without_bidding(
    profiles: Seq<ProfileV>,
    bidder_id: Seq<char>,
    lot_id: Seq<char>,
) -> Seq<ProfileV> {
    profiles_remove_id(profiles, bidder_id).push(
        ProfileV {
            lots_bidding: ids_without(profile_or_empty(profiles, bidder_id).lots_bidding, lot_id),
            ..profile_or_empty(profiles, bidder_id)
        },
    )
}

/// The profiles after forgetting `seller_id`'s offering association to
/// `lot_id`.
pub open spec fn profiles_without_offering(
    profiles: Seq<ProfileV>,
    seller_id: Seq<char>,
    lot_id: Seq<char>,
) -> Seq<ProfileV> {
    profiles_remove_id(profiles, seller_id).push(
        ProfileV {
            lots_offering: ids_without(profile_or_empty(profiles, seller_id).lots_offering, lot_id),
            ..profile_or_empty(profiles, seller_id)
        },
    )
}

/// The profiles after forgetting, bid by bid in recording order, every
/// bidder's association to `lot_id`. A bidder who bid twice is extracted and
/// saved twice; the second removal is a no-op.
pub open spec fn profiles_after_unbidding(
    profiles: Seq<ProfileV>,
    bids: Seq<BidV>,
    lot_id: Seq<char>,
) -> Seq<ProfileV>
    decreases bids.len(),
{
    if bids.len() == 0 {
        profiles
    } else {
        profiles_after_unbidding(
            profiles_without_bidding(profiles, bids[0].bidder_id, lot_id),
            bids.subrange(1, bids.len() as int),
            lot_id,
        )
    }
}

/// The profiles after the economics split of an accepted bid is credited:
/// the dislodged bidder (when there is one) recovers their locked amount
/// plus the rebate, then the seller is credited the increment minus
/// commission. `profiles` is the state after the bidding association was
/// recorded; `l` is the lot as stored before the bid.
pub open spec fn spec_bid_credits(
    profiles: Seq<ProfileV>,
    l: LotV,
    bid: BidV,
    seller_rewards_commission: crate::fraction::Fraction,
    prev_bidder_commission_share: crate::fraction::Fraction,
) -> Seq<ProfileV> {
    match l.last_bid_amount() {
        Some(prev) => {
            let to_prev = spec_to_prev_bidder(
                prev,
                bid.amount,
                seller_rewards_commission,
                prev_bidder_commission_share,
            );
            let after_prev = profiles_credit(profiles, l.last_bid().bidder_id, to_prev as Balance);
            profiles_credit(
                after_prev,
                l.seller_id,
                spec_to_seller(Some(prev), bid.amount, seller_rewards_commission) as Balance,
            )
        },
        None => profiles_credit(
            profiles,
            l.seller_id,
            spec_to_seller(None, bid.amount, seller_rewards_commission) as Balance,
        ),
    }
}

/// The whole registry after an accepted bid: the lot moves to the end of the
/// store with the bid appended, the bidder gains the bidding association,
/// and the split is credited.
pub open spec fn spec_contract_after_bid(c: ContractV, lot_id: Seq<char>, bid: BidV) -> ContractV {
    let l = lots_at(c.lots, lot_id);
    ContractV {
        lots: c.lots.remove(lots_index(c.lots, lot_id)).push(LotV { bids: l.bids.push(bid), ..l }),
        profiles: spec_bid_credits(
            profiles_with_bidding(c.profiles, bid.bidder_id, lot_id),
            l,
            bid,
            c.seller_rewards_commission,
            c.prev_bidder_commission_share,
        ),
        ..c
    }
}

/// The machine-limit precondition of a bid: when the bid would be accepted,
/// the two credited balances must not overflow.
pub open spec fn spec_lot_bid_fits(c: ContractV, lot_id: Seq<char>, bid: BidV) -> bool {
    lots_contains(c.lots, lot_id) ==> {
        let l = lots_at(c.lots, lot_id);
        l.spec_validate_place_bid(bid, c.bid_step) is Ok ==> {
            let p1 = profiles_with_bidding(c.profiles, bid.bidder_id, lot_id);
            match l.last_bid_amount() {
                Some(prev) => {
                    let to_prev = spec_to_prev_bidder(
                        prev,
                        bid.amount,
                        c.seller_rewards_commission,
                        c.prev_bidder_commission_share,
                    );
                    let p2 = profiles_credit(p1, l.last_bid().bidder_id, to_prev as Balance);
                    &&& profile_or_empty(p1, l.last_bid().bidder_id).rewards_available + to_prev
                        <= Balance::MAX
                    &&& profile_or_empty(p2, l.seller_id).rewards_available + spec_to_seller(
                        Some(prev),
                        bid.amount,
                        c.seller_rewards_commission,
                    ) <= Balance::MAX
                },
                None => profile_or_empty(p1, l.seller_id).rewards_available + spec_to_seller(
                    None,
                    bid.amount,
                    c.seller_rewards_commission,
                ) <= Balance::MAX,
            }
        }
    }
}

/// Processing one more bid at the end of the list is one more
/// [`profiles_without_bidding`] applied to the accumulated result.
pub proof fn lemma_unbidding_push(
    profiles: Seq<ProfileV>,
    bids: Seq<BidV>,
    b: BidV,
    lot_id: Seq<char>,
)
    ensures
        profiles_after_unbidding(profiles, bids.push(b), lot_id) == profiles_without_bidding(
            profiles_after_unbidding(profiles, bids, lot_id),
            b.bidder_id,
            lot_id,
        ),
    decreases bids.len(),
{
    let whole = bids.push(b);
    let tail = whole.subrange(1, whole.len() as int);
    if bids.len() == 0 {
        assert(whole[0] == b);
        assert(tail =~= Seq::<BidV>::empty());
        let without = profiles_without_bidding(profiles, b.bidder_id, lot_id);
        assert(profiles_after_unbidding(profiles, whole, lot_id) == profiles_after_unbidding(
            without,
            tail,
            lot_id,
        ));
        assert(profiles_after_unbidding(without, tail, lot_id) == without);
        assert(profiles_after_unbidding(profiles, bids, lot_id) == profiles);
    } else {
        assert(whole[0] == bids[0]);
        let sub = bids.subrange(1, bids.len() as int);
        assert(tail =~= sub.push(b));
        let without = profiles_without_bidding(profiles, bids[0].bidder_id, lot_id);
        lemma_unbidding_push(without, sub, b, lot_id);
        assert(profiles_after_unbidding(profiles, whole, lot_id) == profiles_after_unbidding(
            without,
            tail,
            lot_id,
        ));
        assert(profiles_after_unbidding(profiles, bids, lot_id) == profiles_after_unbidding(
            without,
            sub,
            lot_id,
        ));
    }
}

impl Contract {
    /// The index of the stored lot with identity `lot_id`, if any.
    fn lot_position(&self, lot_id: &LotId) -> (r: Option<usize>)
        requires
            lots_distinct(self@.lots),
        ensures
            match r {
                Some(i) => i < self@.lots.len() && self@.lots[i as int].lot_id == lot_id@
                    && lots_index(self@.lots, lot_id@) == i as int && lots_contains(
                    self@.lots,
                    lot_id@,
                ),
                None => !lots_contains(self@.lots, lot_id@),
            },
    {
        let mut i: usize = 0;
        while i < self.lots.len()
            invariant
                0 <= i <= self.lots.len(),
                forall|j: int| 0 <= j < i ==> self@.lots[j].lot_id != lot_id@,
                lots_distinct(self@.lots),
            decreases self.lots.len() - i,
        {
            if self.lots[i].lot_id == *lot_id {
                proof {
                    lemma_lots_index_unique(self@.lots, lot_id@, i as int);
                }
                return Some(i);
            }
            i = i + 1;
        }
        None
    }

    /// The stored lot with identity `lot_id`, if any; storage is untouched.
    pub fn internal_lot_get(&self, lot_id: &LotId) -> (r: Option<&Lot>)
        requires
            self@.wf(),
        ensures
            match r {
                Some(l) => lots_contains(self@.lots, lot_id@) && l@ == lots_at(
                    self@.lots,
                    lot_id@,
                ),
                None => !lots_contains(self@.lots, lot_id@),
            },
    {
        let pos = self.lot_position(lot_id);
        match pos {
            Some(i) => Some(&self.lots[i]),
            None => None,
        }
    }

    /// Extracts the lot with identity `lot_id` from storage. A miss means
    /// the caller named a lot that does not exist; nothing changes then.
    pub fn internal_lot_extract(&mut self, lot_id: &LotId) -> (r: Result<Lot, Error>)
        requires
            old(self)@.wf(),
        ensures
            final(self)@.wf(),
            r matches Ok(l) <==> lots_contains(old(self)@.lots, lot_id@),
            r matches Err(e) ==> e == Error::LotNotFound && final(self)@ == old(self)@,
            r matches Ok(l) ==> l@ == lots_at(old(self)@.lots, lot_id@) && l@.wf() && final(self)@
                == (ContractV {
                lots: old(self)@.lots.remove(lots_index(old(self)@.lots, lot_id@)),
                ..old(self)@
            }) && !lots_contains(final(self)@.lots, lot_id@),
    {
        let pos = self.lot_position(lot_id);
        match pos {
            Some(i) => {
                proof {
                    lemma_lots_remove_keeps_distinct(self@.lots, i as int);
                }
                let l = self.lots.remove(i);
                proof {
                    assert(self@.lots =~= old(self)@.lots.remove(
                        lots_index(old(self)@.lots, lot_id@),
                    ));
                    assert(self@ =~= (ContractV { lots: self@.lots, ..old(self)@ }));
                }
                Ok(l)
            },
            None => Err(Error::LotNotFound),
        }
    }

    /// Saves a lot under an identity that is not currently stored; the
    /// extract/mutate/save discipline makes that precondition provable at
    /// every call site.
    pub fn internal_lot_save(&mut self, lot: Lot)
        requires
            old(self)@.wf(),
            lot@.wf(),
            !lots_contains(old(self)@.lots, lot@.lot_id),
        ensures
            final(self)@.wf(),
            final(self)@ == (ContractV { lots: old(self)@.lots.push(lot@), ..old(self)@ }),
    {
        proof {
            lemma_lots_push_keeps_distinct(self@.lots, lot@);
        }
        let ghost lv = lot@;
        self.lots.push(lot);
        proof {
            assert(self@.lots =~= old(self)@.lots.push(lv));
            assert(self@ =~= (ContractV { lots: old(self)@.lots.push(lv), ..old(self)@ }));
        }
    }

    /// Resolves an offer's finish time: the explicit one when given,
    /// otherwise start plus duration, one of which must be supplied.
    fn calc_finish_timestamp(
        start_timestamp: Timestamp,
        finish_timestamp: Option<Timestamp>,
        duration: Option<Duration>,
    ) -> (r: Timestamp)
        requires
            finish_timestamp is None ==> duration is Some && start_timestamp + duration->Some_0
                <= Timestamp::MAX,
        ensures
            r as int == spec_finish_timestamp(start_timestamp, finish_timestamp, duration),
    {
        match finish_timestamp {
            Some(f) => f,
            None => {
                match duration {
                    Some(d) => start_timestamp + d,
                    None => {
                        // unreachable: one of the two terms must be supplied
                        start_timestamp
                    },
                }
            },
        }
    }

    /// Offers a new lot: the calling account `lot_id` is put on sale for
    /// `seller_id`'s benefit. Rejects self-dealing, inverted prices and an
    /// identity already on offer; on success the lot is stored and added to
    /// the seller's offering associations.
    pub fn lot_offer(
        &mut self,
        lot_id: &LotId,
        seller_id: &ProfileId,
        reserve_price: Balance,
        buy_now_price: Balance,
        finish_timestamp: Option<Timestamp>,
        duration: Option<Duration>,
        time_now: Timestamp,
    ) -> (r: Result<(), Error>)
        requires
            old(self)@.wf(),
            finish_timestamp is None ==> duration is Some && time_now + duration->Some_0
                <= Timestamp::MAX,
        ensures
            final(self)@.wf(),
            r is Ok <==> (lot_id@ != seller_id@ && reserve_price <= buy_now_price
                && !lots_contains(old(self)@.lots, lot_id@)),
            lot_id@ == seller_id@ ==> r == Result::<(), Error>::Err(Error::LotSellsSelf),
            lot_id@ != seller_id@ && reserve_price > buy_now_price ==> r == Result::<(), Error>::Err(
                Error::ReserveAboveBuyNow,
            ),
            lot_id@ != seller_id@ && reserve_price <= buy_now_price && lots_contains(
                old(self)@.lots,
                lot_id@,
            ) ==> r == Result::<(), Error>::Err(Error::LotAlreadyExists),
            r is Err ==> final(self)@ == old(self)@,
            r is Ok ==> final(self)@ == (ContractV {
                lots: old(self)@.lots.push(
                    spec_fresh_lot(
                        lot_id@,
                        seller_id@,
                        reserve_price,
                        buy_now_price,
                        time_now,
                        spec_finish_timestamp(time_now, finish_timestamp, duration) as Timestamp,
                    ),
                ),
                profiles: profiles_with_offering(old(self)@.profiles, seller_id@, lot_id@),
                ..old(self)@
            }),
    {
        let finish = Self::calc_finish_timestamp(time_now, finish_timestamp, duration);
        if *lot_id == *seller_id {
            return Err(Error::LotSellsSelf);
        }
        if reserve_price > buy_now_price {
            return Err(Error::ReserveAboveBuyNow);
        }
        let pos = self.lot_position(lot_id);
        if pos.is_some() {
            return Err(Error::LotAlreadyExists);
        }
        let lot = Lot {
            lot_id: lot_id.clone(),
            seller_id: seller_id.clone(),
            reserve_price,
            buy_now_price,
            start_timestamp: time_now,
            finish_timestamp: finish,
            is_withdrawn: false,
            bids: Vec::new(),
        };
        proof {
            assert(lot@.bids =~= Seq::<BidV>::empty());
            assert(lot@ =~= spec_fresh_lot(
                lot_id@,
                seller_id@,
                reserve_price,
                buy_now_price,
                time_now,
                finish,
            ));
        }
        self.internal_lot_save(lot);
        let mut profile = self.internal_profile_extract(seller_id);
        profile.offering_insert(lot_id);
        self.internal_profile_save(profile);
        proof {
            assert(self@.profiles =~= profiles_with_offering(
                old(self)@.profiles,
                seller_id@,
                lot_id@,
            ));
            assert(self@ =~= (ContractV {
                lots: self@.lots,
                profiles: self@.profiles,
                ..old(self)@
            }));
        }
        Ok(())
    }

    /// Records a bid by `bidder_id` of `amount` on `lot_id` at `time_now`:
    /// the bid is appended, the bidder gains the bidding association, and
    /// the proceeds are split — the dislodged bidder recovers their locked
    /// amount plus the rebate, the seller is credited the increment minus
    /// commission. Every failure leaves the registry exactly as it was.
    #[verifier::rlimit(100)]
    pub fn lot_bid(
        &mut self,
        lot_id: &LotId,
        bidder_id: &ProfileId,
        amount: Balance,
        time_now: Timestamp,
    ) -> (r: Result<(), Error>)
        requires
            old(self)@.wf(),
            spec_lot_bid_fits(
                old(self)@,
                lot_id@,
                BidV { bidder_id: bidder_id@, amount, timestamp: time_now },
            ),
        ensures
            final(self)@.wf(),
            !lots_contains(old(self)@.lots, lot_id@) ==> r == Result::<(), Error>::Err(
                Error::LotNotFound,
            ),
            lots_contains(old(self)@.lots, lot_id@) ==> r == lots_at(
                old(self)@.lots,
                lot_id@,
            ).spec_validate_place_bid(
                BidV { bidder_id: bidder_id@, amount, timestamp: time_now },
                old(self)@.bid_step,
            ),
            r is Err ==> final(self)@ == old(self)@,
            r is Ok ==> final(self)@ == spec_contract_after_bid(
                old(self)@,
                lot_id@,
                BidV { bidder_id: bidder_id@, amount, timestamp: time_now },
            ),
    {
        let ghost bidv = BidV { bidder_id: bidder_id@, amount, timestamp: time_now };
        let pos = match self.lot_position(lot_id) {
            Some(i) => i,
            None => {
                return Err(Error::LotNotFound);
            },
        };
        let bid = Bid { bidder_id: bidder_id.clone(), amount, timestamp: time_now };
        let bid_step = self.bid_step;
        proof {
            assert((self@.lots[pos as int]).wf());
        }
        if let Err(e) = self.lots[pos].validate_place_bid(&bid, bid_step) {
            return Err(e);
        }
        proof {
            lemma_lots_remove_keeps_distinct(self@.lots, pos as int);
            lemma_contract_lots_remove_wf(self@, pos as int);
        }
        let mut lot = self.lots.remove(pos);
        proof {
            assert(self@.lots =~= old(self)@.lots.remove(pos as int));
            assert(self@ =~= (ContractV {
                lots: old(self)@.lots.remove(pos as int),
                ..old(self)@
            }));
        }
        let prev_bid_amount = lot.last_bid_amount();
        let prev_bidder = lot.potential_claimer_id();
        match lot.place_bid(&bid, bid_step) {
            Err(e) => {
                // unreachable: the bid was validated against this very lot
                Err(e)
            },
            Ok(()) => {
                proof {
                    crate::lot::lemma_place_bid_preserves_wf(
                        old(self)@.lots[pos as int],
                        bidv,
                        bid_step,
                    );
                }
                let seller_id = lot.seller_id.clone();
                self.internal_lot_save(lot);
                let mut bidder = self.internal_profile_extract(bidder_id);
                bidder.bidding_insert(lot_id);
                self.internal_profile_save(bidder);
                proof {
                    assert(self@.profiles =~= profiles_with_bidding(
                        old(self)@.profiles,
                        bidder_id@,
                        lot_id@,
                    ));
                }
                proof {
                    let l = old(self)@.lots[pos as int];
                    if l.has_bids() {
                        lemma_split_conserves_value(
                            l.last_bid().amount,
                            amount,
                            old(self)@.seller_rewards_commission,
                            old(self)@.prev_bidder_commission_share,
                        );
                    } else {
                        lemma_fraction_mul_bounds(
                            old(self)@.seller_rewards_commission,
                            amount as int,
                        );
                    }
                }
                let (to_prev_bidder, to_seller) = calc_lot_bid_rewards(
                    prev_bid_amount,
                    amount,
                    self.seller_rewards_commission,
                    self.prev_bidder_commission_share,
                );
                match to_prev_bidder {
                    Some(value) => {
                        match prev_bidder {
                            Some(prev_bidder_id) => {
                                self.internal_profile_rewards_transfer(&prev_bidder_id, value);
                            },
                            None => {
                                // unreachable: a previous amount implies a previous bidder
                            },
                        }
                    },
                    None => {},
                }
                self.internal_profile_rewards_transfer(&seller_id, to_seller);
                proof {
                    assert(self@.lots =~= spec_contract_after_bid(old(self)@, lot_id@, bidv).lots);
                    assert(self@.profiles =~= spec_contract_after_bid(
                        old(self)@,
                        lot_id@,
                        bidv,
                    ).profiles);
                    assert(self@ =~= spec_contract_after_bid(old(self)@, lot_id@, bidv));
                }
                Ok(())
            },
        }
    }

    /// Phase one of a claim: checks that `claimer_id` may take the lot at
    /// `time_now`. Nothing is mutated; on success the caller issues the
    /// custody-transfer request and reports its outcome to
    /// [`Contract::lot_after_claim_clean_up`].
    pub fn lot_claim(&self, lot_id: &LotId, claimer_id: &ProfileId, time_now: Timestamp) -> (r:
        Result<(), Error>)
        requires
            self@.wf(),
        ensures
            !lots_contains(self@.lots, lot_id@) ==> r == Result::<(), Error>::Err(
                Error::LotNotFound,
            ),
            lots_contains(self@.lots, lot_id@) ==> r == lots_at(
                self@.lots,
                lot_id@,
            ).spec_validate_claim(claimer_id@, time_now),
    {
        match self.internal_lot_get(lot_id) {
            None => Err(Error::LotNotFound),
            Some(lot) => lot.validate_claim(claimer_id, time_now),
        }
    }

    /// Phase two of a claim, run with the custody transfer's outcome. On
    /// failure, or on any inconsistency, nothing at all is mutated, so the
    /// claim can be retried. On success the lot is retired: every bidder's
    /// and the seller's association to it is removed and the lot itself is
    /// permanently deleted.
    #[verifier::rlimit(100)]
    #[verifier::spinoff_prover]
    pub fn lot_after_claim_clean_up(
        &mut self,
        lot_id: &LotId,
        unlock_success: bool,
        time_now: Timestamp,
    ) -> (r: Result<bool, Error>)
        requires
            old(self)@.wf(),
        ensures
            final(self)@.wf(),
            !unlock_success ==> r == Result::<bool, Error>::Err(Error::UnlockFailed)
                && final(self)@ == old(self)@,
            unlock_success && !lots_contains(old(self)@.lots, lot_id@) ==> r == Result::<
                bool,
                Error,
            >::Err(Error::LotNotFound) && final(self)@ == old(self)@,
            unlock_success && lots_contains(old(self)@.lots, lot_id@) && lots_at(
                old(self)@.lots,
                lot_id@,
            ).is_active(time_now) ==> r == Result::<bool, Error>::Err(Error::CleanUpStillActive)
                && final(self)@ == old(self)@,
            unlock_success && lots_contains(old(self)@.lots, lot_id@) && !lots_at(
                old(self)@.lots,
                lot_id@,
            ).is_active(time_now) ==> r == Result::<bool, Error>::Ok(true) && final(self)@
                == (ContractV {
                lots: old(self)@.lots.remove(lots_index(old(self)@.lots, lot_id@)),
                profiles: profiles_without_offering(
                    profiles_after_unbidding(
                        old(self)@.profiles,
                        lots_at(old(self)@.lots, lot_id@).bids,
                        lot_id@,
                    ),
                    lots_at(old(self)@.lots, lot_id@).seller_id,
                    lot_id@,
                ),
                ..old(self)@
            }),
    {
        if !unlock_success {
            return Err(Error::UnlockFailed);
        }
        let pos = match self.lot_position(lot_id) {
            Some(i) => i,
            None => {
                return Err(Error::LotNotFound);
            },
        };
        if self.lots[pos].is_active(time_now) {
            return Err(Error::CleanUpStillActive);
        }
        proof {
            lemma_lots_remove_keeps_distinct(self@.lots, pos as int);
            lemma_contract_lots_remove_wf(self@, pos as int);
        }
        let mut lot = self.lots.remove(pos);
        proof {
            assert(self@.lots =~= old(self)@.lots.remove(pos as int));
            assert(self@ =~= (ContractV {
                lots: old(self)@.lots.remove(pos as int),
                ..old(self)@
            }));
        }
        let ghost c0 = self@;
        let ghost l0 = lot@;
        let mut k: usize = 0;
        while k < lot.bids.len()
            invariant
                c0.wf(),
                k <= lot.bids.len(),
                lot@ == l0,
                self@ == (ContractV {
                    profiles: profiles_after_unbidding(
                        c0.profiles,
                        l0.bids.subrange(0, k as int),
                        lot@.lot_id,
                    ),
                    ..c0
                }),
                self@.wf(),
            decreases lot.bids.len() - k,
        {
            let ghost before = self@.profiles;
            let bidder_id = lot.bids[k].bidder_id.clone();
            let mut profile = self.internal_profile_extract(&bidder_id);
            profile.bidding_remove(&lot.lot_id);
            self.internal_profile_save(profile);
            proof {
                assert(self@.profiles =~= profiles_without_bidding(
                    before,
                    l0.bids[k as int].bidder_id,
                    l0.lot_id,
                ));
                assert(l0.bids.subrange(0, (k + 1) as int) =~= l0.bids.subrange(0, k as int).push(
                    l0.bids[k as int],
                ));
                lemma_unbidding_push(
                    c0.profiles,
                    l0.bids.subrange(0, k as int),
                    l0.bids[k as int],
                    l0.lot_id,
                );
                assert(self@ =~= (ContractV {
                    profiles: profiles_after_unbidding(
                        c0.profiles,
                        l0.bids.subrange(0, (k + 1) as int),
                        l0.lot_id,
                    ),
                    ..c0
                }));
            }
            k = k + 1;
        }
        proof {
            assert(l0.bids.subrange(0, l0.bids.len() as int) =~= l0.bids);
        }
        let ghost mid = self@.profiles;
        let mut seller = self.internal_profile_extract(&lot.seller_id);
        seller.offering_remove(&lot.lot_id);
        self.internal_profile_save(seller);
        lot.clean_up();
        proof {
            assert(self@.profiles =~= profiles_without_offering(mid, l0.seller_id, l0.lot_id));
            assert(self@ =~= (ContractV {
                lots: old(self)@.lots.remove(lots_index(old(self)@.lots, lot_id@)),
                profiles: profiles_without_offering(
                    profiles_after_unbidding(
                        old(self)@.profiles,
                        lots_at(old(self)@.lots, lot_id@).bids,
                        lot_id@,
                    ),
                    lots_at(old(self)@.lots, lot_id@).seller_id,
                    lot_id@,
                ),
                ..old(self)@
            }));
        }
        Ok(true)
    }

    /// Phase one of an unsafe removal: after the grace period and only while
    /// no bids exist, a lot whose custody resource was never correctly
    /// configured may be queried for removal. Nothing is mutated; on success
    /// the caller queries the custody service's current owner and reports it
    /// to [`Contract::lot_after_remove_unsafe_remove`].
    pub fn lot_remove_unsafe(&self, lot_id: &LotId, time_now: Timestamp) -> (r: Result<(), Error>)
        requires
            self@.wf(),
        ensures
            !lots_contains(self@.lots, lot_id@) ==> r == Result::<(), Error>::Err(
                Error::LotNotFound,
            ),
            lots_contains(self@.lots, lot_id@) ==> {
                let l = lots_at(self@.lots, lot_id@);
                if (time_now as int) < l.start_timestamp + LOT_REMOVE_UNSAFE_GRACE_DURATION {
                    r == Result::<(), Error>::Err(Error::RemoveUnsafeOnGracePeriod)
                } else if l.has_bids() {
                    r == Result::<(), Error>::Err(Error::RemoveUnsafeHasBids)
                } else {
                    r == Result::<(), Error>::Ok(())
                }
            },
    {
        let lot = match self.internal_lot_get(lot_id) {
            None => {
                return Err(Error::LotNotFound);
            },
            Some(l) => l,
        };
        if !(time_now >= lot.start_timestamp && time_now - lot.start_timestamp
            >= LOT_REMOVE_UNSAFE_GRACE_DURATION) {
            return Err(Error::RemoveUnsafeOnGracePeriod);
        }
        if lot.bids.len() > 0 {
            return Err(Error::RemoveUnsafeHasBids);
        }
        Ok(())
    }

    /// Phase two of an unsafe removal, run with the owner reported by the
    /// custody service (`None` for a failed or malformed query, which is
    /// treated as confirmation). Removal proceeds only if the resource is
    /// *not* under this registry's custody — `registry_id` is the registry's
    /// own identity; otherwise the lot is legitimately held and nothing is
    /// touched.
    #[verifier::rlimit(100)]
    #[verifier::spinoff_prover]
    pub fn lot_after_remove_unsafe_remove(
        &mut self,
        lot_id: &LotId,
        queried_owner: Option<ProfileId>,
        registry_id: &ProfileId,
    ) -> (r: Result<bool, Error>)
        requires
            old(self)@.wf(),
        ensures
            final(self)@.wf(),
            (queried_owner matches Some(o) && o@ == registry_id@) ==> r == Result::<
                bool,
                Error,
            >::Err(Error::RemoveUnsafeSeemsSafe) && final(self)@ == old(self)@,
            !(queried_owner matches Some(o) && o@ == registry_id@) && !lots_contains(
                old(self)@.lots,
                lot_id@,
            ) ==> r == Result::<bool, Error>::Err(Error::LotNotFound) && final(self)@ == old(self)@,
            !(queried_owner matches Some(o) && o@ == registry_id@) && lots_contains(
                old(self)@.lots,
                lot_id@,
            ) && lots_at(old(self)@.lots, lot_id@).has_bids() ==> r == Result::<bool, Error>::Err(
                Error::RemoveUnsafeHasBids,
            ) && final(self)@ == old(self)@,
            !(queried_owner matches Some(o) && o@ == registry_id@) && lots_contains(
                old(self)@.lots,
                lot_id@,
            ) && !lots_at(old(self)@.lots, lot_id@).has_bids() ==> r == Result::<bool, Error>::Ok(
                true,
            ) && final(self)@ == (ContractV {
                lots: old(self)@.lots.remove(lots_index(old(self)@.lots, lot_id@)),
                profiles: profiles_without_offering(
                    old(self)@.profiles,
                    lots_at(old(self)@.lots, lot_id@).seller_id,
                    lot_id@,
                ),
                ..old(self)@
            }),
    {
        let is_safe = match &queried_owner {
            Some(owner_id) => *owner_id == *registry_id,
            None => false,
        };
        if is_safe {
            return Err(Error::RemoveUnsafeSeemsSafe);
        }
        let pos = match self.lot_position(lot_id) {
            Some(i) => i,
            None => {
                return Err(Error::LotNotFound);
            },
        };
        if self.lots[pos].bids.len() > 0 {
            return Err(Error::RemoveUnsafeHasBids);
        }
        proof {
            lemma_lots_remove_keeps_distinct(self@.lots, pos as int);
            lemma_contract_lots_remove_wf(self@, pos as int);
        }
        let mut lot = self.lots.remove(pos);
        proof {
            assert(self@.lots =~= old(self)@.lots.remove(pos as int));
            assert(self@ =~= (ContractV {
                lots: old(self)@.lots.remove(pos as int),
                ..old(self)@
            }));
        }
        let ghost mid = self@.profiles;
        let mut seller = self.internal_profile_extract(&lot.seller_id);
        seller.offering_remove(&lot.lot_id);
        self.internal_profile_save(seller);
        lot.clean_up();
        proof {
            assert(self@.profiles =~= profiles_without_offering(
                mid,
                lots_at(old(self)@.lots, lot_id@).seller_id,
                lot_id@,
            ));
            assert(self@ =~= (ContractV {
                lots: old(self)@.lots.remove(lots_index(old(self)@.lots, lot_id@)),
                profiles: profiles_without_offering(
                    old(self)@.profiles,
                    lots_at(old(self)@.lots, lot_id@).seller_id,
                    lot_id@,
                ),
                ..old(self)@
            }));
        }
        Ok(true)
    }

    /// Resets the terms of a bidless lot on behalf of its seller: new
    /// prices, a new start at `time_now`, a new finish; identity and seller
    /// are preserved and the lot is on sale again. Every failure leaves the
    /// registry exactly as it was.
    pub fn lot_reoffer(
        &mut self,
        lot_id: &LotId,
        caller_id: &ProfileId,
        reserve_price: Balance,
        buy_now_price: Balance,
        finish_timestamp: Option<Timestamp>,
        duration: Option<Duration>,
        time_now: Timestamp,
    ) -> (r: Result<(), Error>)
        requires
            old(self)@.wf(),
            finish_timestamp is None ==> duration is Some && time_now + duration->Some_0
                <= Timestamp::MAX,
        ensures
            final(self)@.wf(),
            !lots_contains(old(self)@.lots, lot_id@) ==> r == Result::<(), Error>::Err(
                Error::LotNotFound,
            ),
            lots_contains(old(self)@.lots, lot_id@) && lots_at(
                old(self)@.lots,
                lot_id@,
            ).spec_validate_reoffer(caller_id@) is Err ==> r == lots_at(
                old(self)@.lots,
                lot_id@,
            ).spec_validate_reoffer(caller_id@),
            lots_contains(old(self)@.lots, lot_id@) && lots_at(
                old(self)@.lots,
                lot_id@,
            ).spec_validate_reoffer(caller_id@) is Ok && reserve_price > buy_now_price ==> r
                == Result::<(), Error>::Err(Error::ReserveAboveBuyNow),
            r is Err ==> final(self)@ == old(self)@,
            r is Ok <==> (lots_contains(old(self)@.lots, lot_id@) && lots_at(
                old(self)@.lots,
                lot_id@,
            ).spec_validate_reoffer(caller_id@) is Ok && reserve_price <= buy_now_price),
            r is Ok ==> final(self)@ == (ContractV {
                lots: old(self)@.lots.remove(lots_index(old(self)@.lots, lot_id@)).push(
                    spec_fresh_lot(
                        lot_id@,
                        lots_at(old(self)@.lots, lot_id@).seller_id,
                        reserve_price,
                        buy_now_price,
                        time_now,
                        spec_finish_timestamp(time_now, finish_timestamp, duration) as Timestamp,
                    ),
                ),
                profiles: profiles_with_offering(
                    old(self)@.profiles,
                    lots_at(old(self)@.lots, lot_id@).seller_id,
                    lot_id@,
                ),
                ..old(self)@
            }),
    {
        let finish = Self::calc_finish_timestamp(time_now, finish_timestamp, duration);
        let pos = match self.lot_position(lot_id) {
            Some(i) => i,
            None => {
                return Err(Error::LotNotFound);
            },
        };
        if let Err(e) = self.lots[pos].validate_reoffer(caller_id) {
            return Err(e);
        }
        if reserve_price > buy_now_price {
            return Err(Error::ReserveAboveBuyNow);
        }
        proof {
            lemma_lots_remove_keeps_distinct(self@.lots, pos as int);
            lemma_contract_lots_remove_wf(self@, pos as int);
        }
        let old_lot = self.lots.remove(pos);
        proof {
            assert(self@.lots =~= old(self)@.lots.remove(pos as int));
            assert(self@ =~= (ContractV {
                lots: old(self)@.lots.remove(pos as int),
                ..old(self)@
            }));
        }
        let seller_id = old_lot.seller_id.clone();
        let lot = Lot {
            lot_id: old_lot.lot_id,
            seller_id: old_lot.seller_id,
            reserve_price,
            buy_now_price,
            start_timestamp: time_now,
            finish_timestamp: finish,
            is_withdrawn: false,
            bids: Vec::new(),
        };
        proof {
            assert(lot@.bids =~= Seq::<BidV>::empty());
            assert(lot@ =~= spec_fresh_lot(
                lot_id@,
                lots_at(old(self)@.lots, lot_id@).seller_id,
                reserve_price,
                buy_now_price,
                time_now,
                finish,
            ));
        }
        self.internal_lot_save(lot);
        let mut profile = self.internal_profile_extract(&seller_id);
        profile.offering_insert(lot_id);
        self.internal_profile_save(profile);
        proof {
            assert(self@.profiles =~= profiles_with_offering(
                old(self)@.profiles,
                lots_at(old(self)@.lots, lot_id@).seller_id,
                lot_id@,
            ));
            assert(self@ =~= (ContractV {
                lots: self@.lots,
                profiles: self@.profiles,
                ..old(self)@
            }));
        }
        Ok(())
    }

    /// Marks the lot withdrawn on behalf of `withdrawer_id`; every failure
    /// leaves the registry exactly as it was.
    #[verifier::rlimit(50)]
    pub fn lot_withdraw(&mut self, lot_id: &LotId, withdrawer_id: &ProfileId) -> (r: Result<
        (),
        Error,
    >)
        requires
            old(self)@.wf(),
        ensures
            final(self)@.wf(),
            !lots_contains(old(self)@.lots, lot_id@) ==> r == Result::<(), Error>::Err(
                Error::LotNotFound,
            ),
            lots_contains(old(self)@.lots, lot_id@) ==> r == lots_at(
                old(self)@.lots,
                lot_id@,
            ).spec_validate_withdraw(withdrawer_id@),
            r is Err ==> final(self)@ == old(self)@,
            r is Ok ==> final(self)@ == (ContractV {
                lots: old(self)@.lots.remove(lots_index(old(self)@.lots, lot_id@)).push(
                    LotV { is_withdrawn: true, ..lots_at(old(self)@.lots, lot_id@) },
                ),
                ..old(self)@
            }),
    {
        let pos = match self.lot_position(lot_id) {
            Some(i) => i,
            None => {
                return Err(Error::LotNotFound);
            },
        };
        if let Err(e) = self.lots[pos].validate_withdraw(withdrawer_id) {
            return Err(e);
        }
        proof {
            lemma_lots_remove_keeps_distinct(self@.lots, pos as int);
            lemma_contract_lots_remove_wf(self@, pos as int);
        }
        let mut lot = self.lots.remove(pos);
        proof {
            assert(self@.lots =~= old(self)@.lots.remove(pos as int));
            assert(self@ =~= (ContractV {
                lots: old(self)@.lots.remove(pos as int),
                ..old(self)@
            }));
        }
        match lot.withdraw(withdrawer_id) {
            Ok(()) => {
                self.internal_lot_save(lot);
                proof {
                    assert(self@ =~= (ContractV {
                        lots: old(self)@.lots.remove(lots_index(old(self)@.lots, lot_id@)).push(
                            LotV { is_withdrawn: true, ..lots_at(old(self)@.lots, lot_id@) },
                        ),
                        ..old(self)@
                    }));
                }
                Ok(())
            },
            Err(e) => {
                // unreachable: the withdrawal was validated against this very lot
                Err(e)
            },
        }
    }
}

} // verus!
