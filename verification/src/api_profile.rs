//! Registry operations on profiles: the read-only view and the two-phase
//! rewards payout.
//!
//! Phase one, [`Contract::profile_rewards_claim`], moves the whole available
//! balance to the claimed balance and reports the moved amount; the caller
//! then performs the actual transfer and reports its outcome to phase two,
//! [`Contract::profile_after_rewards_claim`], which reverts the move exactly
//! when the transfer failed.

use vstd::prelude::*;

use crate::contract::{
    profile_or_empty, profiles_contains, profiles_index, profiles_remove_id, Contract,
};
use crate::profile::ProfileV;
use crate::{Balance, Error, ProfileId};

verus! {

/// Minimum amount worth paying out; claims below it are rejected.
pub const MIN_PROFILE_REWARDS_CLAIM_AMOUNT: Balance = 10_000_000_000_000_000_000_000;

/// A participant's ledger as callers read it.
pub struct ProfileView {
    pub profile_id: ProfileId,
    pub rewards_available: Balance,
    pub rewards_claimed: Balance,
}

impl Contract {
    /// The ledger of `profile_id`; an absent profile reads as the zero
    /// value.
    pub fn profile_get(&self, profile_id: &ProfileId) -> (r: ProfileView)
        requires
            self@.wf(),
        ensures
            r.profile_id@ == profile_id@,
            r.rewards_available == profile_or_empty(self@.profiles, profile_id@).rewards_available,
            r.rewards_claimed == profile_or_empty(self@.profiles, profile_id@).rewards_claimed,
    {
        let p = self.internal_profile_get(profile_id);
        ProfileView {
            profile_id: p.profile_id,
            rewards_available: p.rewards_available,
            rewards_claimed: p.rewards_claimed,
        }
    }

    /// Phase one of the payout: when at least the minimum is available,
    /// atomically moves the whole available balance into the claimed balance
    /// and returns the moved amount, for the caller to transfer out; below
    /// the minimum nothing changes and the claim is rejected.
    pub fn profile_rewards_claim(&mut self, profile_id: &ProfileId) -> (r: Result<Balance, Error>)
        requires
            old(self)@.wf(),
            profile_or_empty(old(self)@.profiles, profile_id@).rewards_available
                >= MIN_PROFILE_REWARDS_CLAIM_AMOUNT ==> profile_or_empty(
                old(self)@.profiles,
                profile_id@,
            ).rewards_available + profile_or_empty(old(self)@.profiles, profile_id@).rewards_claimed
                <= Balance::MAX,
        ensures
            final(self)@.wf(),
            r matches Ok(amount) <==> profile_or_empty(
                old(self)@.profiles,
                profile_id@,
            ).rewards_available >= MIN_PROFILE_REWARDS_CLAIM_AMOUNT,
            r matches Err(e) ==> e == Error::RewardsClaimNotEnough && final(self)@ == old(self)@,
            r matches Ok(amount) ==> amount == profile_or_empty(
                old(self)@.profiles,
                profile_id@,
            ).rewards_available && final(self)@ == (crate::contract::ContractV {
                profiles: profiles_remove_id(old(self)@.profiles, profile_id@).push(
                    ProfileV {
                        rewards_available: 0,
                        rewards_claimed: (profile_or_empty(
                            old(self)@.profiles,
                            profile_id@,
                        ).rewards_claimed + amount) as Balance,
                        ..profile_or_empty(old(self)@.profiles, profile_id@)
                    },
                ),
                ..old(self)@
            }),
    {
        let p = self.internal_profile_get(profile_id);
        if p.rewards_available < MIN_PROFILE_REWARDS_CLAIM_AMOUNT {
            return Err(Error::RewardsClaimNotEnough);
        }
        let mut profile = self.internal_profile_extract(profile_id);
        let rewards = profile.rewards_claim();
        self.internal_profile_save(profile);
        proof {
            assert(self@.profiles =~= profiles_remove_id(old(self)@.profiles, profile_id@).push(
                ProfileV {
                    rewards_available: 0,
                    rewards_claimed: (profile_or_empty(
                        old(self)@.profiles,
                        profile_id@,
                    ).rewards_claimed + rewards) as Balance,
                    ..profile_or_empty(old(self)@.profiles, profile_id@)
                },
            ));
            assert(self@ =~= (crate::contract::ContractV {
                profiles: self@.profiles,
                ..old(self)@
            }));
        }
        Ok(rewards)
    }

    /// Phase two of the payout: when the external transfer failed, moves the
    /// exact claimed amount back so the ledger reads as before the claim;
    /// when it succeeded, touches nothing. Returns whether the payout stands.
    pub fn profile_after_rewards_claim(
        &mut self,
        profile_id: &ProfileId,
        rewards: Balance,
        transfer_success: bool,
    ) -> (r: bool)
        requires
            old(self)@.wf(),
            !transfer_success ==> rewards <= profile_or_empty(
                old(self)@.profiles,
                profile_id@,
            ).rewards_claimed,
            !transfer_success ==> profile_or_empty(
                old(self)@.profiles,
                profile_id@,
            ).rewards_available + rewards <= Balance::MAX,
        ensures
            final(self)@.wf(),
            r == transfer_success,
            transfer_success ==> final(self)@ == old(self)@,
            !transfer_success ==> final(self)@ == (crate::contract::ContractV {
                profiles: profiles_remove_id(old(self)@.profiles, profile_id@).push(
                    ProfileV {
                        rewards_available: (profile_or_empty(
                            old(self)@.profiles,
                            profile_id@,
                        ).rewards_available + rewards) as Balance,
                        rewards_claimed: (profile_or_empty(
                            old(self)@.profiles,
                            profile_id@,
                        ).rewards_claimed - rewards) as Balance,
                        ..profile_or_empty(old(self)@.profiles, profile_id@)
                    },
                ),
                ..old(self)@
            }),
    {
        if !transfer_success {
            let mut profile = self.internal_profile_extract(profile_id);
            profile.rewards_claim_revert(rewards);
            self.internal_profile_save(profile);
            proof {
                assert(self@.profiles =~= profiles_remove_id(
                    old(self)@.profiles,
                    profile_id@,
                ).push(
                    ProfileV {
                        rewards_available: (profile_or_empty(
                            old(self)@.profiles,
                            profile_id@,
                        ).rewards_available + rewards) as Balance,
                        rewards_claimed: (profile_or_empty(
                            old(self)@.profiles,
                            profile_id@,
                        ).rewards_claimed - rewards) as Balance,
                        ..profile_or_empty(old(self)@.profiles, profile_id@)
                    },
                ));
                assert(self@ =~= (crate::contract::ContractV {
                    profiles: self@.profiles,
                    ..old(self)@
                }));
            }
        }
        transfer_success
    }
}

/// A rejected rewards claim leaves every profile exactly as it was; a
/// successful claim zeroes the available balance and grows the claimed
/// balance by exactly the moved amount; and a failed payout whose revert
/// runs restores both balances to their pre-claim values.
pub proof fn lemma_rewards_claim_round_trip(profiles: Seq<ProfileV>, id: Seq<char>, amount: Balance)
    requires
        crate::contract::profiles_distinct(profiles),
        amount == profile_or_empty(profiles, id).rewards_available,
        profile_or_empty(profiles, id).rewards_available + profile_or_empty(
            profiles,
            id,
        ).rewards_claimed <= Balance::MAX,
    ensures
        ({
            let claimed = profiles_remove_id(profiles, id).push(
                ProfileV {
                    rewards_available: 0,
                    rewards_claimed: (profile_or_empty(profiles, id).rewards_claimed + amount)
                        as Balance,
                    ..profile_or_empty(profiles, id)
                },
            );
            let reverted = profiles_remove_id(claimed, id).push(
                ProfileV {
                    rewards_available: (profile_or_empty(claimed, id).rewards_available + amount)
                        as Balance,
                    rewards_claimed: (profile_or_empty(claimed, id).rewards_claimed - amount)
                        as Balance,
                    ..profile_or_empty(claimed, id)
                },
            );
            profile_or_empty(reverted, id) == profile_or_empty(profiles, id)
        }),
{
    let base = profile_or_empty(profiles, id);
    let claimed_p = ProfileV {
        rewards_available: 0,
        rewards_claimed: (base.rewards_claimed + amount) as Balance,
        ..base
    };
    let claimed = profiles_remove_id(profiles, id).push(claimed_p);
    let n = claimed.len() - 1;
    assert(claimed[n as int] == claimed_p);
    if profiles_contains(profiles, id) {
        let i = profiles_index(profiles, id);
        assert(0 <= i < profiles.len() && profiles[i].profile_id == id);
        crate::contract::lemma_profiles_remove_keeps_distinct(profiles, i);
    }
    crate::contract::lemma_profiles_push_keeps_distinct(
        profiles_remove_id(profiles, id),
        claimed_p,
    );
    crate::contract::lemma_profiles_index_unique(claimed, id, n as int);
    assert(profile_or_empty(claimed, id) == claimed_p);
    let reverted_p = ProfileV {
        rewards_available: (claimed_p.rewards_available + amount) as Balance,
        rewards_claimed: (claimed_p.rewards_claimed - amount) as Balance,
        ..claimed_p
    };
    let reverted = profiles_remove_id(claimed, id).push(reverted_p);
    crate::contract::lemma_profiles_remove_keeps_distinct(claimed, n as int);
    crate::contract::lemma_profiles_push_keeps_distinct(
        profiles_remove_id(claimed, id),
        reverted_p,
    );
    crate::contract::lemma_profiles_index_unique(reverted, id, reverted.len() - 1);
    assert(reverted_p =~= base);
}

} // verus!
