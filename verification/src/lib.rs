//! Verified core of an on-chain auction marketplace.
//!
//! Sellers offer a lot (an account-like resource) for sale, bidders compete
//! on an English bid ladder with an optional buy-now price, and on conclusion
//! the winner takes custody of the resource while proceeds are split between
//! the seller, the dislodged bidder and a protocol commission.
//!
//! The crate holds the auction state machine (`lot`), the reward ledger
//! (`profile`), the exact-rational commission arithmetic (`fraction`,
//! `economics`) and the registry that orchestrates them (`contract`,
//! `api_lot`, `api_profile`). Everything that talks to the surrounding
//! blockchain substrate — storage, attached deposits, block timestamps, the
//! remote custody service — enters through plain parameters and leaves
//! through plain results, so the whole core is verified: callers pass in the
//! ambient values (caller id, attached amount, current time) and perform the
//! remote calls between the two phases of the claim, removal and payout
//! handshakes.

use vstd::prelude::*;

pub mod api_lot;
pub mod api_profile;
pub mod contract;
pub mod economics;
pub mod fraction;
pub mod lot;
pub mod profile;
pub mod views;

verus! {

/// Identity of a lot; it doubles as the identity of the auctioned resource.
pub type LotId = String;

/// Identity of a participant.
pub type ProfileId = String;

/// An amount of the chain's currency, in its smallest unit.
pub type Balance = u128;

/// A point in time, in nanoseconds.
pub type Timestamp = u64;

/// A span of time, in nanoseconds.
pub type Duration = u64;

/// Every way a request to the core can be rejected. Each operation's
/// contract says exactly which variant comes back on which inputs; none of
/// them leaves any state modified.
#[derive(Clone, Copy, Debug, PartialEq, Eq, Structural)]
pub enum Error {
    /// A lot may not be offered by the account being sold.
    LotSellsSelf,
    /// `reserve_price` must not exceed `buy_now_price`.
    ReserveAboveBuyNow,
    /// A bid was placed on a lot that is not on sale at that moment.
    BidWrongStatus,
    /// A bid was below the minimum next amount of the ladder.
    BidTooSmall,
    /// The seller and the lot itself may not bid.
    BidWrongBidder,
    /// A buyer claim on a lot that has not concluded in a sale.
    ClaimByBidderWrongStatus,
    /// A buyer claim by someone other than the last bidder.
    ClaimByBidderWrongClaimer,
    /// A seller claim on a lot that was not withdrawn.
    ClaimBySellerWrongStatus,
    /// A seller claim by someone other than the seller.
    ClaimBySellerWrongClaimer,
    /// Withdrawal of a lot that already has bids.
    WithdrawHasBid,
    /// Withdrawal of an already withdrawn lot.
    WithdrawWrongStatus,
    /// Withdrawal by someone other than the seller.
    WithdrawWrongWithdrawer,
    /// Re-offering a lot on which bids exist.
    ReofferHasBids,
    /// Re-offering by someone other than the seller.
    ReofferWrongCaller,
    /// The referenced lot is not in the registry.
    LotNotFound,
    /// An offer under an identity that already has a live lot.
    LotAlreadyExists,
    /// The custody transfer reported failure, so the claim clean-up aborts.
    UnlockFailed,
    /// The clean-up callback found the lot active again; nothing is touched.
    CleanUpStillActive,
    /// Unsafe removal requested before the grace period has elapsed.
    RemoveUnsafeOnGracePeriod,
    /// Unsafe removal of a lot that has bids.
    RemoveUnsafeHasBids,
    /// The owner query showed the resource under this registry's custody, so
    /// removing the lot would be unsafe.
    RemoveUnsafeSeemsSafe,
    /// Rewards claim below the minimum payout threshold.
    RewardsClaimNotEnough,
}

} // verus!
