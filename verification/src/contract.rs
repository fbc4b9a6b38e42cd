//! The registry: the two keyed collections (lots and profiles), the three
//! economics fractions fixed at initialization, and the extract/mutate/save
//! storage discipline every operation follows.
//!
//! Both collections are vectors with pairwise-distinct identities, in
//! insertion order; that uniqueness is the registry's well-formedness
//! invariant, so an extract followed by a save can never overwrite a live
//! entry — what the original substrate enforced with a runtime assertion is
//! proved here.

use vstd::prelude::*;

use crate::fraction::Fraction;
use crate::lot::{Lot, LotV};
use crate::profile::{ids_distinct, Profile, ProfileV};
use crate::{Balance, Duration, ProfileId};

verus! {

/// Smallest reserve price the configuration advertises.
pub const LOT_OFFER_MIN_RESERVE_PRICE: Balance = 500_000_000_000_000_000_000_000;

/// Longest advertised auction duration: ninety days, in nanoseconds.
pub const LOT_OFFER_MAX_DURATION: Duration = 90 * 24 * 60 * 60 * 1_000_000_000;

/// Grace period before an unsafe removal may be requested: two hours, in
/// nanoseconds.
pub const LOT_REMOVE_UNSAFE_GRACE_DURATION: Duration = 2 * 60 * 60 * 1_000_000_000;

/// Whether a lot with identity `id` is stored.
pub open spec fn lots_contains(lots: Seq<LotV>, id: Seq<char>) -> bool {
    exists|i: int| 0 <= i < lots.len() && lots[i].lot_id == id
}

/// The index of the lot with identity `id`; unique when the identities are
/// distinct and the lot is present.
pub open spec fn lots_index(lots: Seq<LotV>, id: Seq<char>) -> int {
    choose|i: int| 0 <= i < lots.len() && lots[i].lot_id == id
}

/// The stored lot with identity `id`.
pub open spec fn lots_at(lots: Seq<LotV>, id: Seq<char>) -> LotV {
    lots[lots_index(lots, id)]
}

/// No two stored lots share an identity.
pub open spec fn lots_distinct(lots: Seq<LotV>) -> bool {
    forall|i: int, j: int| 0 <= i < j < lots.len() ==> lots[i].lot_id != lots[j].lot_id
}

/// Whether a profile with identity `id` is stored.
pub open spec fn profiles_contains(profiles: Seq<ProfileV>, id: Seq<char>) -> bool {
    exists|i: int| 0 <= i < profiles.len() && profiles[i].profile_id == id
}

/// The index of the profile with identity `id`; unique when the identities
/// are distinct and the profile is present.
pub open spec fn profiles_index(profiles: Seq<ProfileV>, id: Seq<char>) -> int {
    choose|i: int| 0 <= i < profiles.len() && profiles[i].profile_id == id
}

/// The stored profile with identity `id`, or the zero value it materializes
/// as when absent.
pub open spec fn profile_or_empty(profiles: Seq<ProfileV>, id: Seq<char>) -> ProfileV {
    if profiles_contains(profiles, id) {
        profiles[profiles_index(profiles, id)]
    } else {
        ProfileV::empty(id)
    }
}

/// The stored profiles without the one of identity `id`, if present.
pub open spec fn profiles_remove_id(profiles: Seq<ProfileV>, id: Seq<char>) -> Seq<ProfileV> {
    if profiles_contains(profiles, id) {
        profiles.remove(profiles_index(profiles, id))
    } else {
        profiles
    }
}

/// No two stored profiles share an identity.
pub open spec fn profiles_distinct(profiles: Seq<ProfileV>) -> bool {
    forall|i: int, j: int|
        0 <= i < j < profiles.len() ==> profiles[i].profile_id != profiles[j].profile_id
}

/// The stored profiles after crediting `value` to `id`'s available rewards:
/// a zero credit is a no-op that does not materialize a profile; otherwise
/// the profile is extracted (or materialized), credited and saved back.
pub open spec fn profiles_credit(profiles: Seq<ProfileV>, id: Seq<char>, value: Balance) -> Seq<
    ProfileV,
> {
    if value == 0 {
        profiles
    } else {
        profiles_remove_id(profiles, id).push(
            ProfileV {
                rewards_available: (profile_or_empty(profiles, id).rewards_available + value)
                    as Balance,
                ..profile_or_empty(profiles, id)
            },
        )
    }
}

/// In a distinct sequence, any index holding a lot with identity `id` is the
/// [`lots_index`].
pub proof fn lemma_lots_index_unique(lots: Seq<LotV>, id: Seq<char>, i: int)
    requires
        lots_distinct(lots),
        0 <= i < lots.len(),
        lots[i].lot_id == id,
    ensures
        lots_index(lots, id) == i,
        lots_contains(lots, id),
{
    assert(lots_contains(lots, id));
    let j = lots_index(lots, id);
    assert(0 <= j < lots.len() && lots[j].lot_id == id);
}

/// Removing a lot keeps the rest distinct and keeps every other identity's
/// membership.
pub proof fn lemma_lots_remove_keeps_distinct(lots: Seq<LotV>, i: int)
    requires
        lots_distinct(lots),
        0 <= i < lots.len(),
    ensures
        lots_distinct(lots.remove(i)),
        forall|id: Seq<char>|
            id != lots[i].lot_id ==> (lots_contains(lots.remove(i), id) == lots_contains(lots, id)),
        !lots_contains(lots.remove(i), lots[i].lot_id),
{
    let r = lots.remove(i);
    assert forall|k: int, l: int| 0 <= k < l < r.len() implies r[k].lot_id != r[l].lot_id by {
        assert(r[k] == if k < i { lots[k] } else { lots[k + 1] });
        assert(r[l] == if l < i { lots[l] } else { lots[l + 1] });
    }
    assert forall|id: Seq<char>| id != lots[i].lot_id implies (lots_contains(r, id)
        == lots_contains(lots, id)) by {
        if lots_contains(r, id) {
            let k = choose|k: int| 0 <= k < r.len() && r[k].lot_id == id;
            assert(lots[if k < i { k } else { k + 1 }].lot_id == id);
        }
        if lots_contains(lots, id) {
            let k = choose|k: int| 0 <= k < lots.len() && lots[k].lot_id == id;
            assert(k != i);
            assert(r[if k < i { k } else { k - 1 }].lot_id == id);
        }
    }
    assert forall|k: int| 0 <= k < r.len() implies r[k].lot_id != lots[i].lot_id by {
        assert(r[k] == if k < i { lots[k] } else { lots[k + 1] });
    }
}

/// Appending a lot under a fresh identity keeps the identities distinct.
pub proof fn lemma_lots_push_keeps_distinct(lots: Seq<LotV>, l: LotV)
    requires
        lots_distinct(lots),
        !lots_contains(lots, l.lot_id),
    ensures
        lots_distinct(lots.push(l)),
        lots_contains(lots.push(l), l.lot_id),
        forall|id: Seq<char>|
            id != l.lot_id ==> (lots_contains(lots.push(l), id) == lots_contains(lots, id)),
{
    let r = lots.push(l);
    let n = lots.len() as int;
    assert forall|k: int, m: int| 0 <= k < m < r.len() implies r[k].lot_id != r[m].lot_id by {
        if m < n {
            assert(lots[k].lot_id != lots[m].lot_id);
        } else {
            assert(r[k] == lots[k]);
        }
    }
    assert(r[n] == l);
    assert forall|id: Seq<char>| id != l.lot_id implies (lots_contains(r, id) == lots_contains(
        lots,
        id,
    )) by {
        if lots_contains(r, id) {
            let k = choose|k: int| 0 <= k < r.len() && r[k].lot_id == id;
            assert(k < n);
            assert(lots[k].lot_id == id);
        }
        if lots_contains(lots, id) {
            let k = choose|k: int| 0 <= k < lots.len() && lots[k].lot_id == id;
            assert(r[k].lot_id == id);
        }
    }
}

/// Removing a lot from a well-formed registry leaves it well-formed.
pub proof fn lemma_contract_lots_remove_wf(c: ContractV, i: int)
    requires
        c.wf(),
        0 <= i < c.lots.len(),
    ensures
        (ContractV { lots: c.lots.remove(i), ..c }).wf(),
{
    lemma_lots_remove_keeps_distinct(c.lots, i);
    let r = c.lots.remove(i);
    assert forall|k: int| 0 <= k < r.len() implies (#[trigger] r[k]).wf() by {
        assert(r[k] == if k < i { c.lots[k] } else { c.lots[k + 1] });
    }
}

/// In a distinct sequence, any index holding a profile with identity `id` is
/// the [`profiles_index`].
pub proof fn lemma_profiles_index_unique(profiles: Seq<ProfileV>, id: Seq<char>, i: int)
    requires
        profiles_distinct(profiles),
        0 <= i < profiles.len(),
        profiles[i].profile_id == id,
    ensures
        profiles_index(profiles, id) == i,
        profiles_contains(profiles, id),
{
    assert(profiles_contains(profiles, id));
    let j = profiles_index(profiles, id);
    assert(0 <= j < profiles.len() && profiles[j].profile_id == id);
}

/// Removing a profile keeps the rest distinct and keeps every other
/// identity's membership.
pub proof fn lemma_profiles_remove_keeps_distinct(profiles: Seq<ProfileV>, i: int)
    requires
        profiles_distinct(profiles),
        0 <= i < profiles.len(),
    ensures
        profiles_distinct(profiles.remove(i)),
        forall|id: Seq<char>|
            id != profiles[i].profile_id ==> (profiles_contains(profiles.remove(i), id)
                == profiles_contains(profiles, id)),
        !profiles_contains(profiles.remove(i), profiles[i].profile_id),
{
    let r = profiles.remove(i);
    assert forall|k: int, l: int|
        0 <= k < l < r.len() implies r[k].profile_id != r[l].profile_id by {
        assert(r[k] == if k < i { profiles[k] } else { profiles[k + 1] });
        assert(r[l] == if l < i { profiles[l] } else { profiles[l + 1] });
    }
    assert forall|id: Seq<char>| id != profiles[i].profile_id implies (profiles_contains(r, id)
        == profiles_contains(profiles, id)) by {
        if profiles_contains(r, id) {
            let k = choose|k: int| 0 <= k < r.len() && r[k].profile_id == id;
            assert(profiles[if k < i { k } else { k + 1 }].profile_id == id);
        }
        if profiles_contains(profiles, id) {
            let k = choose|k: int| 0 <= k < profiles.len() && profiles[k].profile_id == id;
            assert(k != i);
            assert(r[if k < i { k } else { k - 1 }].profile_id == id);
        }
    }
    assert forall|k: int| 0 <= k < r.len() implies r[k].profile_id != profiles[i].profile_id by {
        assert(r[k] == if k < i { profiles[k] } else { profiles[k + 1] });
    }
}

/// Appending a profile under a fresh identity keeps the identities distinct.
pub proof fn lemma_profiles_push_keeps_distinct(profiles: Seq<ProfileV>, p: ProfileV)
    requires
        profiles_distinct(profiles),
        !profiles_contains(profiles, p.profile_id),
    ensures
        profiles_distinct(profiles.push(p)),
        profiles_contains(profiles.push(p), p.profile_id),
        forall|id: Seq<char>|
            id != p.profile_id ==> (profiles_contains(profiles.push(p), id) == profiles_contains(
                profiles,
                id,
            )),
{
    let r = profiles.push(p);
    let n = profiles.len() as int;
    assert forall|k: int, m: int|
        0 <= k < m < r.len() implies r[k].profile_id != r[m].profile_id by {
        if m < n {
            assert(profiles[k].profile_id != profiles[m].profile_id);
        } else {
            assert(r[k] == profiles[k]);
        }
    }
    assert(r[n] == p);
    assert forall|id: Seq<char>| id != p.profile_id implies (profiles_contains(r, id)
        == profiles_contains(profiles, id)) by {
        if profiles_contains(r, id) {
            let k = choose|k: int| 0 <= k < r.len() && r[k].profile_id == id;
            assert(k < n);
            assert(profiles[k].profile_id == id);
        }
        if profiles_contains(profiles, id) {
            let k = choose|k: int| 0 <= k < profiles.len() && profiles[k].profile_id == id;
            assert(r[k].profile_id == id);
        }
    }
}

/// The registry state: every lot on offer, every participant's ledger, and
/// the three fractions fixed at initialization.
pub struct Contract {
    pub lots: Vec<Lot>,
    pub profiles: Vec<Profile>,
    pub seller_rewards_commission: Fraction,
    pub bid_step: Fraction,
    pub prev_bidder_commission_share: Fraction,
}

/// The mathematical value of the registry.
#[verifier::ext_equal]
pub ghost struct ContractV {
    pub lots: Seq<LotV>,
    pub profiles: Seq<ProfileV>,
    pub seller_rewards_commission: Fraction,
    pub bid_step: Fraction,
    pub prev_bidder_commission_share: Fraction,
}

impl View for Contract {
    type V = ContractV;

    open spec fn view(&self) -> ContractV {
        ContractV {
            lots: self.lots.deep_view(),
            profiles: self.profiles.deep_view(),
            seller_rewards_commission: self.seller_rewards_commission,
            bid_step: self.bid_step,
            prev_bidder_commission_share: self.prev_bidder_commission_share,
        }
    }
}

impl ContractV {
    /// What initialization establishes and every operation preserves: valid
    /// fractions, distinct identities in both collections, and every stored
    /// entity well-formed.
    pub open spec fn wf(self) -> bool {
        &&& self.seller_rewards_commission.wf()
        &&& self.bid_step.wf()
        &&& self.prev_bidder_commission_share.wf()
        &&& lots_distinct(self.lots)
        &&& (forall|i: int| 0 <= i < self.lots.len() ==> (#[trigger] self.lots[i]).wf())
        &&& profiles_distinct(self.profiles)
        &&& (forall|i: int| 0 <= i < self.profiles.len() ==> (#[trigger] self.profiles[i]).wf())
    }
}

/// A fraction as callers hand it to initialization and read it back from
/// the configuration.
#[derive(Clone, Copy, Debug, PartialEq, Eq, Structural)]
pub struct FractionView {
    pub num: u32,
    pub denom: u32,
}

/// The fixed configuration, as callers read it.
#[derive(Clone, Copy, Debug, PartialEq, Eq, Structural)]
pub struct ContractConfigView {
    pub seller_rewards_commission: FractionView,
    pub bid_step: FractionView,
    pub prev_bidder_commission_share: FractionView,
    pub lot_offer_min_reserve_price: Balance,
    pub lot_offer_max_duration: Duration,
    pub lot_remove_unsafe_grace_duration: Duration,
}

impl Contract {
    /// An empty registry with the given economics fractions.
    pub fn new(
        seller_rewards_commission: FractionView,
        bid_step: FractionView,
        prev_bidder_commission_share: FractionView,
    ) -> (r: Contract)
        requires
            seller_rewards_commission.num <= seller_rewards_commission.denom,
            0 < seller_rewards_commission.denom,
            bid_step.num <= bid_step.denom,
            0 < bid_step.denom,
            prev_bidder_commission_share.num <= prev_bidder_commission_share.denom,
            0 < prev_bidder_commission_share.denom,
        ensures
            r@.wf(),
            r@.lots == Seq::<LotV>::empty(),
            r@.profiles == Seq::<ProfileV>::empty(),
            r@.seller_rewards_commission.num == seller_rewards_commission.num,
            r@.seller_rewards_commission.denom == seller_rewards_commission.denom,
            r@.bid_step.num == bid_step.num,
            r@.bid_step.denom == bid_step.denom,
            r@.prev_bidder_commission_share.num == prev_bidder_commission_share.num,
            r@.prev_bidder_commission_share.denom == prev_bidder_commission_share.denom,
    {
        let r = Contract {
            lots: Vec::new(),
            profiles: Vec::new(),
            seller_rewards_commission: Fraction::new(
                seller_rewards_commission.num,
                seller_rewards_commission.denom,
            ),
            bid_step: Fraction::new(bid_step.num, bid_step.denom),
            prev_bidder_commission_share: Fraction::new(
                prev_bidder_commission_share.num,
                prev_bidder_commission_share.denom,
            ),
        };
        proof {
            assert(r@.lots =~= Seq::<LotV>::empty());
            assert(r@.profiles =~= Seq::<ProfileV>::empty());
        }
        r
    }

    /// The fixed configuration.
    pub fn config_get(&self) -> (r: ContractConfigView)
        ensures
            r.seller_rewards_commission == (FractionView {
                num: self@.seller_rewards_commission.num,
                denom: self@.seller_rewards_commission.denom,
            }),
            r.bid_step == (FractionView {
                num: self@.bid_step.num,
                denom: self@.bid_step.denom,
            }),
            r.prev_bidder_commission_share == (FractionView {
                num: self@.prev_bidder_commission_share.num,
                denom: self@.prev_bidder_commission_share.denom,
            }),
            r.lot_offer_min_reserve_price == LOT_OFFER_MIN_RESERVE_PRICE,
            r.lot_offer_max_duration == LOT_OFFER_MAX_DURATION,
            r.lot_remove_unsafe_grace_duration == LOT_REMOVE_UNSAFE_GRACE_DURATION,
    {
        ContractConfigView {
            seller_rewards_commission: FractionView {
                num: self.seller_rewards_commission.num(),
                denom: self.seller_rewards_commission.denom(),
            },
            bid_step: FractionView {
                num: self.bid_step.num(),
                denom: self.bid_step.denom(),
            },
            prev_bidder_commission_share: FractionView {
                num: self.prev_bidder_commission_share.num(),
                denom: self.prev_bidder_commission_share.denom(),
            },
            lot_offer_min_reserve_price: LOT_OFFER_MIN_RESERVE_PRICE,
            lot_offer_max_duration: LOT_OFFER_MAX_DURATION,
            lot_remove_unsafe_grace_duration: LOT_REMOVE_UNSAFE_GRACE_DURATION,
        }
    }

    /// How many profiles are stored.
    pub fn profiles_len(&self) -> (r: usize)
        ensures
            r == self@.profiles.len(),
    {
        self.profiles.len()
    }

    /// The index of the stored profile with identity `profile_id`, if any.
    fn profile_position(&self, profile_id: &ProfileId) -> (r: Option<usize>)
        requires
            profiles_distinct(self@.profiles),
        ensures
            match r {
                Some(i) => i < self@.profiles.len() && self@.profiles[i as int].profile_id
                    == profile_id@ && profiles_index(self@.profiles, profile_id@) == i as int
                    && profiles_contains(self@.profiles, profile_id@),
                None => !profiles_contains(self@.profiles, profile_id@),
            },
    {
        let mut i: usize = 0;
        while i < self.profiles.len()
            invariant
                0 <= i <= self.profiles.len(),
                forall|j: int| 0 <= j < i ==> self@.profiles[j].profile_id != profile_id@,
                profiles_distinct(self@.profiles),
            decreases self.profiles.len() - i,
        {
            if self.profiles[i].profile_id == *profile_id {
                proof {
                    lemma_profiles_index_unique(self@.profiles, profile_id@, i as int);
                }
                return Some(i);
            }
            i = i + 1;
        }
        None
    }

    /// Extracts the profile with identity `profile_id` from storage, or
    /// materializes the zero value when absent (which removes nothing).
    pub fn internal_profile_extract(&mut self, profile_id: &ProfileId) -> (r: Profile)
        requires
            old(self)@.wf(),
        ensures
            final(self)@.wf(),
            r@ == profile_or_empty(old(self)@.profiles, profile_id@),
            r@.wf(),
            r@.profile_id == profile_id@,
            final(self)@ == (ContractV {
                profiles: profiles_remove_id(old(self)@.profiles, profile_id@),
                ..old(self)@
            }),
            !profiles_contains(final(self)@.profiles, profile_id@),
    {
        let pos = self.profile_position(profile_id);
        match pos {
            Some(i) => {
                proof {
                    lemma_profiles_remove_keeps_distinct(self@.profiles, i as int);
                }
                let p = self.profiles.remove(i);
                proof {
                    assert(self@.profiles =~= profiles_remove_id(old(self)@.profiles, profile_id@));
                    assert(self@ =~= (ContractV {
                        profiles: profiles_remove_id(old(self)@.profiles, profile_id@),
                        ..old(self)@
                    }));
                }
                p
            },
            None => {
                proof {
                    assert(self@ =~= (ContractV {
                        profiles: profiles_remove_id(old(self)@.profiles, profile_id@),
                        ..old(self)@
                    }));
                }
                Profile::new(profile_id)
            },
        }
    }

    /// Reads the profile with identity `profile_id`, materializing the zero
    /// value on a miss; storage is untouched.
    pub fn internal_profile_get(&self, profile_id: &ProfileId) -> (r: Profile)
        requires
            self@.wf(),
        ensures
            r@ == profile_or_empty(self@.profiles, profile_id@),
            r@.wf(),
            r@.profile_id == profile_id@,
    {
        let pos = self.profile_position(profile_id);
        match pos {
            Some(i) => clone_profile(&self.profiles[i]),
            None => Profile::new(profile_id),
        }
    }

    /// Saves a profile under an identity that is not currently stored; the
    /// extract/mutate/save discipline makes that precondition provable at
    /// every call site.
    pub fn internal_profile_save(&mut self, profile: Profile)
        requires
            old(self)@.wf(),
            profile@.wf(),
            !profiles_contains(old(self)@.profiles, profile@.profile_id),
        ensures
            final(self)@.wf(),
            final(self)@ == (ContractV {
                profiles: old(self)@.profiles.push(profile@),
                ..old(self)@
            }),
    {
        proof {
            lemma_profiles_push_keeps_distinct(self@.profiles, profile@);
        }
        let ghost pv = profile@;
        self.profiles.push(profile);
        proof {
            assert(self@.profiles =~= old(self)@.profiles.push(pv));
            assert(self@ =~= (ContractV {
                profiles: old(self)@.profiles.push(pv),
                ..old(self)@
            }));
        }
    }

    /// Credits `value` to `profile_id`'s available rewards. A zero credit is
    /// a no-op and does not materialize an empty profile.
    pub fn internal_profile_rewards_transfer(&mut self, profile_id: &ProfileId, value: Balance)
        requires
            old(self)@.wf(),
            profile_or_empty(old(self)@.profiles, profile_id@).rewards_available + value
                <= Balance::MAX,
        ensures
            final(self)@.wf(),
            final(self)@ == (ContractV {
                profiles: profiles_credit(old(self)@.profiles, profile_id@, value),
                ..old(self)@
            }),
    {
        if value == 0 {
            proof {
                assert(self@ =~= (ContractV {
                    profiles: profiles_credit(old(self)@.profiles, profile_id@, value),
                    ..old(self)@
                }));
            }
            return ;
        }
        let mut profile = self.internal_profile_extract(profile_id);
        profile.rewards_transfer(value);
        self.internal_profile_save(profile);
        proof {
            assert(self@.profiles =~= profiles_credit(old(self)@.profiles, profile_id@, value));
            assert(self@ =~= (ContractV {
                profiles: profiles_credit(old(self)@.profiles, profile_id@, value),
                ..old(self)@
            }));
        }
    }
}

/// An exact copy of a stored profile, for read-only views.
fn clone_profile(p: &Profile) -> (r: Profile)
    ensures
        r@ == p@,
{
    let r = Profile {
        profile_id: p.profile_id.clone(),
        rewards_available: p.rewards_available,
        rewards_claimed: p.rewards_claimed,
        lots_offering: clone_ids(&p.lots_offering),
        lots_bidding: clone_ids(&p.lots_bidding),
    };
    proof {
        assert(r@ =~= p@);
    }
    r
}

/// An exact copy of a vector of identities.
fn clone_ids(s: &Vec<ProfileId>) -> (r: Vec<ProfileId>)
    ensures
        r.deep_view() == s.deep_view(),
{
    let mut r: Vec<ProfileId> = Vec::new();
    let mut i: usize = 0;
    while i < s.len()
        invariant
            0 <= i <= s.len(),
            r.len() == i,
            forall|j: int| 0 <= j < i ==> r.deep_view()[j] == s.deep_view()[j],
        decreases s.len() - i,
    {
        r.push(s[i].clone());
        i = i + 1;
    }
    proof {
        assert(r.deep_view() =~= s.deep_view());
    }
    r
}

} // verus!
