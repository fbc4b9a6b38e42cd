//! Read-only views of the registry: one lot or bid as callers receive it,
//! and the paginated listings.
//!
//! Formatting for the wire is not done here; the views hand plain values to
//! the surrounding code, which serializes them however its transport wants.

use vstd::prelude::*;

use crate::contract::{lots_at, lots_contains, profile_or_empty, Contract};
use crate::lot::{Bid, BidV, Lot, LotStatus, LotV};
use crate::{Balance, Error, LotId, ProfileId, Timestamp};

verus! {

/// One lot as callers read it, with the derived fields already computed.
pub struct LotView {
    pub lot_id: LotId,
    pub seller_id: ProfileId,
    pub last_bidder_id: Option<ProfileId>,
    pub reserve_price: Balance,
    pub buy_now_price: Balance,
    pub start_timestamp: Timestamp,
    pub finish_timestamp: Timestamp,
    pub last_bid_amount: Option<Balance>,
    pub next_bid_amount: Option<Balance>,
    pub is_active: bool,
    pub is_withdrawn: bool,
    pub status: String,
}

/// The mathematical value of a [`LotView`].
#[verifier::ext_equal]
pub ghost struct LotViewV {
    pub lot_id: Seq<char>,
    pub seller_id: Seq<char>,
    pub last_bidder_id: Option<Seq<char>>,
    pub reserve_price: Balance,
    pub buy_now_price: Balance,
    pub start_timestamp: Timestamp,
    pub finish_timestamp: Timestamp,
    pub last_bid_amount: Option<Balance>,
    pub next_bid_amount: Option<Balance>,
    pub is_active: bool,
    pub is_withdrawn: bool,
    pub status: Seq<char>,
}

impl View for LotView {
    type V = LotViewV;

    open spec fn view(&self) -> LotViewV {
        LotViewV {
            lot_id: self.lot_id@,
            seller_id: self.seller_id@,
            last_bidder_id: match self.last_bidder_id {
                Some(id) => Some(id@),
                None => None,
            },
            reserve_price: self.reserve_price,
            buy_now_price: self.buy_now_price,
            start_timestamp: self.start_timestamp,
            finish_timestamp: self.finish_timestamp,
            last_bid_amount: self.last_bid_amount,
            next_bid_amount: self.next_bid_amount,
            is_active: self.is_active,
            is_withdrawn: self.is_withdrawn,
            status: self.status@,
        }
    }
}

impl DeepView for LotView {
    type V = LotViewV;

    open spec fn deep_view(&self) -> LotViewV {
        self.view()
    }
}

/// One bid as callers read it.
pub struct BidView {
    pub bidder_id: ProfileId,
    pub amount: Balance,
    pub timestamp: Timestamp,
}

impl View for BidView {
    type V = BidV;

    open spec fn view(&self) -> BidV {
        BidV { bidder_id: self.bidder_id@, amount: self.amount, timestamp: self.timestamp }
    }
}

impl DeepView for BidView {
    type V = BidV;

    open spec fn deep_view(&self) -> BidV {
        self.view()
    }
}

/// The name of a status, as the view reports it.
pub open spec fn spec_status_name(s: LotStatus) -> Seq<char> {
    match s {
        LotStatus::OnSale => "OnSale"@,
        LotStatus::Withdrawn => "Withdrawn"@,
        LotStatus::SaleSuccess => "SaleSuccess"@,
        LotStatus::SaleFailure => "SaleFailure"@,
    }
}

/// What the view of a stored lot holds at `time_now`.
pub open spec fn spec_lot_view(l: LotV, time_now: Timestamp, bid_step: crate::fraction::Fraction) -> LotViewV {
    LotViewV {
        lot_id: l.lot_id,
        seller_id: l.seller_id,
        last_bidder_id: l.potential_claimer_id(),
        reserve_price: l.reserve_price,
        buy_now_price: l.buy_now_price,
        start_timestamp: l.start_timestamp,
        finish_timestamp: l.finish_timestamp,
        last_bid_amount: l.last_bid_amount(),
        next_bid_amount: l.next_bid_amount(time_now, bid_step),
        is_active: l.is_active(time_now),
        is_withdrawn: l.is_withdrawn,
        status: spec_status_name(l.status(time_now)),
    }
}

/// The first index of the page a listing returns.
pub open spec fn spec_page_start(offset: Option<usize>) -> int {
    match offset {
        Some(o) => o as int,
        None => 0,
    }
}

/// One past the last index of the page a listing returns.
pub open spec fn spec_page_end(len: int, limit: Option<usize>, offset: Option<usize>) -> int {
    let from = spec_page_start(offset);
    let wanted = match limit {
        Some(l) => from + l,
        None => len,
    };
    if wanted <= len {
        wanted
    } else {
        len
    }
}

/// The status name in executable form.
fn status_string(s: LotStatus) -> (r: String)
    ensures
        r@ == spec_status_name(s),
{
    match s {
        LotStatus::OnSale => "OnSale".to_owned(),
        LotStatus::Withdrawn => "Withdrawn".to_owned(),
        LotStatus::SaleSuccess => "SaleSuccess".to_owned(),
        LotStatus::SaleFailure => "SaleFailure".to_owned(),
    }
}

impl LotView {
    /// Builds the view of one lot at `time_now`.
    pub fn of_lot(lot: &Lot, time_now: Timestamp, bid_step: crate::fraction::Fraction) -> (r:
        LotView)
        requires
            lot@.wf(),
            bid_step.wf(),
        ensures
            r@ == spec_lot_view(lot@, time_now, bid_step),
    {
        let r = LotView {
            lot_id: lot.lot_id.clone(),
            seller_id: lot.seller_id.clone(),
            last_bidder_id: lot.potential_claimer_id(),
            reserve_price: lot.reserve_price,
            buy_now_price: lot.buy_now_price,
            start_timestamp: lot.start_timestamp,
            finish_timestamp: lot.finish_timestamp,
            last_bid_amount: lot.last_bid_amount(),
            next_bid_amount: lot.next_bid_amount(time_now, bid_step),
            is_active: lot.is_active(time_now),
            is_withdrawn: lot.is_withdrawn,
            status: status_string(lot.status(time_now)),
        };
        proof {
            assert(r@ =~= spec_lot_view(lot@, time_now, bid_step));
        }
        r
    }
}

impl BidView {
    /// Builds the view of one bid.
    pub fn of_bid(bid: &Bid) -> (r: BidView)
        ensures
            r@ == bid@,
    {
        BidView {
            bidder_id: bid.bidder_id.clone(),
            amount: bid.amount,
            timestamp: bid.timestamp,
        }
    }
}

impl Contract {
    /// The recorded bids of a lot, oldest first.
    pub fn lot_bid_list(&self, lot_id: &LotId) -> (r: Result<Vec<BidView>, Error>)
        requires
            self@.wf(),
        ensures
            r matches Ok(bs) <==> lots_contains(self@.lots, lot_id@),
            r matches Err(e) ==> e == Error::LotNotFound,
            r matches Ok(bs) ==> bs.deep_view() == lots_at(self@.lots, lot_id@).bids,
    {
        let lot = match self.internal_lot_get(lot_id) {
            None => {
                return Err(Error::LotNotFound);
            },
            Some(l) => l,
        };
        let mut bids: Vec<BidView> = Vec::new();
        let mut i: usize = 0;
        while i < lot.bids.len()
            invariant
                0 <= i <= lot.bids.len(),
                bids.deep_view().len() == i,
                forall|j: int| 0 <= j < i ==> bids.deep_view()[j] == lot@.bids[j],
            decreases lot.bids.len() - i,
        {
            let ghost before = bids.deep_view();
            bids.push(BidView::of_bid(&lot.bids[i]));
            proof {
                assert forall|j: int| 0 <= j < i + 1 implies bids.deep_view()[j] == lot@.bids[j] by {
                    if j < i {
                        assert(bids.deep_view()[j] == before[j]);
                    }
                }
            }
            i = i + 1;
        }
        proof {
            assert(bids.deep_view() =~= lot@.bids);
        }
        Ok(bids)
    }

    /// One page of all stored lots, in storage order, viewed at `time_now`.
    pub fn lot_list(&self, limit: Option<usize>, offset: Option<usize>, time_now: Timestamp) -> (r:
        Vec<LotView>)
        requires
            self@.wf(),
        ensures
            ({
                let from = spec_page_start(offset);
                let to = spec_page_end(self@.lots.len() as int, limit, offset);
                &&& r@.len() == (if from <= to {
                    to - from
                } else {
                    0
                })
                &&& (forall|j: int|
                    0 <= j < r@.len() ==> (#[trigger] r@[j])@ == spec_lot_view(
                        self@.lots[from + j],
                        time_now,
                        self@.bid_step,
                    ))
            }),
    {
        let from = match offset {
            Some(o) => o,
            None => 0,
        };
        let len = self.lots.len();
        let to = match limit {
            Some(l) => {
                let wanted = if l > usize::MAX - from {
                    usize::MAX
                } else {
                    from + l
                };
                if wanted <= len {
                    wanted
                } else {
                    len
                }
            },
            None => len,
        };
        let mut r: Vec<LotView> = Vec::new();
        if from >= to {
            return r;
        }
        let mut i: usize = from;
        while i < to
            invariant
                from <= i <= to,
                to <= self.lots.len(),
                self@.wf(),
                r@.len() == i - from,
                forall|j: int|
                    0 <= j < r@.len() ==> (#[trigger] r@[j])@ == spec_lot_view(
                        self@.lots[from + j],
                        time_now,
                        self@.bid_step,
                    ),
            decreases to - i,
        {
            proof {
                assert((self@.lots[i as int]).wf());
            }
            r.push(LotView::of_lot(&self.lots[i], time_now, self.bid_step));
            i = i + 1;
        }
        r
    }

    /// The view of one lot at `time_now`, if it is stored.
    pub fn lot_get(&self, lot_id: &LotId, time_now: Timestamp) -> (r: Option<LotView>)
        requires
            self@.wf(),
        ensures
            match r {
                Some(v) => lots_contains(self@.lots, lot_id@) && v@ == spec_lot_view(
                    lots_at(self@.lots, lot_id@),
                    time_now,
                    self@.bid_step,
                ),
                None => !lots_contains(self@.lots, lot_id@),
            },
    {
        match self.internal_lot_get(lot_id) {
            None => None,
            Some(lot) => {
                proof {
                    assert(lots_at(self@.lots, lot_id@).wf());
                }
                Some(LotView::of_lot(lot, time_now, self.bid_step))
            },
        }
    }

    /// One page of the lots `profile_id` is offering, in association order.
    /// An association to a lot that is no longer stored is a storage
    /// inconsistency and fails the whole call.
    #[verifier::rlimit(100)]
    pub fn lot_list_offering_by(
        &self,
        profile_id: &ProfileId,
        limit: Option<usize>,
        offset: Option<usize>,
        time_now: Timestamp,
    ) -> (r: Result<Vec<LotView>, Error>)
        requires
            self@.wf(),
        ensures
            ({
                let ids = profile_or_empty(self@.profiles, profile_id@).lots_offering;
                let from = spec_page_start(offset);
                let to = spec_page_end(ids.len() as int, limit, offset);
                &&& (r matches Ok(vs) ==> (forall|i: int|
                    from <= i < to ==> lots_contains(self@.lots, ids[i])) && vs@.len() == (
                if from <= to {
                    to - from
                } else {
                    0
                }) && (forall|j: int|
                    0 <= j < vs@.len() ==> (#[trigger] vs@[j])@ == spec_lot_view(
                        lots_at(self@.lots, ids[from + j]),
                        time_now,
                        self@.bid_step,
                    )))
                &&& (r matches Err(e) ==> e == Error::LotNotFound && exists|i: int|
                    from <= i < to && !lots_contains(self@.lots, ids[i]))
            }),
    {
        let profile = self.internal_profile_get(profile_id);
        let from = match offset {
            Some(o) => o,
            None => 0,
        };
        let len = profile.lots_offering.len();
        let to = match limit {
            Some(l) => {
                let wanted = if l > usize::MAX - from {
                    usize::MAX
                } else {
                    from + l
                };
                if wanted <= len {
                    wanted
                } else {
                    len
                }
            },
            None => len,
        };
        let mut r: Vec<LotView> = Vec::new();
        if from >= to {
            return Ok(r);
        }
        let ghost ids = profile_or_empty(self@.profiles, profile_id@).lots_offering;
        let ghost gfrom = spec_page_start(offset);
        let ghost gto = spec_page_end(ids.len() as int, limit, offset);
        proof {
            assert(from as int == gfrom);
            assert(to as int == gto);
        }
        let mut i: usize = from;
        while i < to
            invariant
                from <= i <= to,
                from as int == gfrom,
                to as int == gto,
                gto == spec_page_end(ids.len() as int, limit, offset),
                gfrom == spec_page_start(offset),
                to <= profile.lots_offering.len(),
                self@.wf(),
                ids == profile_or_empty(self@.profiles, profile_id@).lots_offering,
                profile@.lots_offering == ids,
                forall|k: int| from <= k < i ==> lots_contains(self@.lots, ids[k]),
                r@.len() == i - from,
                forall|j: int|
                    0 <= j < r@.len() ==> (#[trigger] r@[j])@ == spec_lot_view(
                        lots_at(self@.lots, ids[from + j]),
                        time_now,
                        self@.bid_step,
                    ),
            decreases to - i,
        {
            proof {
                assert(profile.lots_offering.deep_view()[i as int] == ids[i as int]);
            }
            let lot = match self.internal_lot_get(&profile.lots_offering[i]) {
                None => {
                    proof {
                        assert(from <= i < to && !lots_contains(self@.lots, ids[i as int]));
                    }
                    return Err(Error::LotNotFound);
                },
                Some(l) => l,
            };
            proof {
                assert(lots_at(self@.lots, ids[i as int]).wf());
            }
            r.push(LotView::of_lot(lot, time_now, self.bid_step));
            i = i + 1;
        }
        Ok(r)
    }

    /// One page of the lots `profile_id` is bidding on, in association
    /// order. An association to a lot that is no longer stored is a storage
    /// inconsistency and fails the whole call.
    #[verifier::rlimit(100)]
    pub fn lot_list_bidding_by(
        &self,
        profile_id: &ProfileId,
        limit: Option<usize>,
        offset: Option<usize>,
        time_now: Timestamp,
    ) -> (r: Result<Vec<LotView>, Error>)
        requires
            self@.wf(),
        ensures
            ({
                let ids = profile_or_empty(self@.profiles, profile_id@).lots_bidding;
                let from = spec_page_start(offset);
                let to = spec_page_end(ids.len() as int, limit, offset);
                &&& (r matches Ok(vs) ==> (forall|i: int|
                    from <= i < to ==> lots_contains(self@.lots, ids[i])) && vs@.len() == (
                if from <= to {
                    to - from
                } else {
                    0
                }) && (forall|j: int|
                    0 <= j < vs@.len() ==> (#[trigger] vs@[j])@ == spec_lot_view(
                        lots_at(self@.lots, ids[from + j]),
                        time_now,
                        self@.bid_step,
                    )))
                &&& (r matches Err(e) ==> e == Error::LotNotFound && exists|i: int|
                    from <= i < to && !lots_contains(self@.lots, ids[i]))
            }),
    {
        let profile = self.internal_profile_get(profile_id);
        let from = match offset {
            Some(o) => o,
            None => 0,
        };
        let len = profile.lots_bidding.len();
        let to = match limit {
            Some(l) => {
                let wanted = if l > usize::MAX - from {
                    usize::MAX
                } else {
                    from + l
                };
                if wanted <= len {
                    wanted
                } else {
                    len
                }
            },
            None => len,
        };
        let mut r: Vec<LotView> = Vec::new();
        if from >= to {
            return Ok(r);
        }
        let ghost ids = profile_or_empty(self@.profiles, profile_id@).lots_bidding;
        let ghost gfrom = spec_page_start(offset);
        let ghost gto = spec_page_end(ids.len() as int, limit, offset);
        proof {
            assert(from as int == gfrom);
            assert(to as int == gto);
        }
        let mut i: usize = from;
        while i < to
            invariant
                from <= i <= to,
                from as int == gfrom,
                to as int == gto,
                gto == spec_page_end(ids.len() as int, limit, offset),
                gfrom == spec_page_start(offset),
                to <= profile.lots_bidding.len(),
                self@.wf(),
                ids == profile_or_empty(self@.profiles, profile_id@).lots_bidding,
                profile@.lots_bidding == ids,
                forall|k: int| from <= k < i ==> lots_contains(self@.lots, ids[k]),
                r@.len() == i - from,
                forall|j: int|
                    0 <= j < r@.len() ==> (#[trigger] r@[j])@ == spec_lot_view(
                        lots_at(self@.lots, ids[from + j]),
                        time_now,
                        self@.bid_step,
                    ),
            decreases to - i,
        {
            proof {
                assert(profile.lots_bidding.deep_view()[i as int] == ids[i as int]);
            }
            let lot = match self.internal_lot_get(&profile.lots_bidding[i]) {
                None => {
                    proof {
                        assert(from <= i < to && !lots_contains(self@.lots, ids[i as int]));
                    }
                    return Err(Error::LotNotFound);
                },
                Some(l) => l,
            };
            proof {
                assert(lots_at(self@.lots, ids[i as int]).wf());
            }
            r.push(LotView::of_lot(lot, time_now, self.bid_step));
            i = i + 1;
        }
        Ok(r)
    }
}

} // verus!
