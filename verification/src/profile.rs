//! Per-participant ledger: rewards available and claimed, plus the sets of
//! lots the participant is offering or bidding on (referential associations,
//! not ownership).
//!
//! The two association sets are kept as vectors of distinct identities in
//! insertion order; [`ids_distinct`] is the invariant, and the insert and
//! remove operations preserve it.

use vstd::prelude::*;

use crate::{Balance, LotId, ProfileId};

verus! {

/// Whether `id` occurs in the sequence.
pub open spec fn ids_contains(s: Seq<Seq<char>>, id: Seq<char>) -> bool {
    exists|i: int| 0 <= i < s.len() && s[i] == id
}

/// No identity occurs twice.
pub open spec fn ids_distinct(s: Seq<Seq<char>>) -> bool {
    forall|i: int, j: int| 0 <= i < j < s.len() ==> s[i] != s[j]
}

/// The index at which `id` occurs; meaningful when `ids_contains` holds and
/// the sequence is distinct, in which case it is the unique such index.
pub open spec fn ids_index(s: Seq<Seq<char>>, id: Seq<char>) -> int {
    choose|i: int| 0 <= i < s.len() && s[i] == id
}

/// The sequence with `id` present: unchanged when it already occurs,
/// appended otherwise.
pub open spec fn ids_with(s: Seq<Seq<char>>, id: Seq<char>) -> Seq<Seq<char>> {
    if ids_contains(s, id) {
        s
    } else {
        s.push(id)
    }
}

/// The sequence with `id` absent: unchanged when it does not occur, with
/// its occurrence removed otherwise.
pub open spec fn ids_without(s: Seq<Seq<char>>, id: Seq<char>) -> Seq<Seq<char>> {
    if ids_contains(s, id) {
        s.remove(ids_index(s, id))
    } else {
        s
    }
}

/// In a distinct sequence any index holding `id` is the [`ids_index`].
pub proof fn lemma_ids_index_unique(s: Seq<Seq<char>>, id: Seq<char>, i: int)
    requires
        ids_distinct(s),
        0 <= i < s.len(),
        s[i] == id,
    ensures
        ids_index(s, id) == i,
        ids_contains(s, id),
{
    assert(ids_contains(s, id));
    let j = ids_index(s, id);
    assert(0 <= j < s.len() && s[j] == id);
}

/// Removing an element keeps the remaining identities distinct, and keeps
/// every other identity's membership.
pub proof fn lemma_ids_remove_keeps_distinct(s: Seq<Seq<char>>, i: int)
    requires
        ids_distinct(s),
        0 <= i < s.len(),
    ensures
        ids_distinct(s.remove(i)),
        forall|id: Seq<char>| id != s[i] ==> (ids_contains(s.remove(i), id) == ids_contains(s, id)),
        !ids_contains(s.remove(i), s[i]),
{
    let r = s.remove(i);
    assert forall|k: int, l: int| 0 <= k < l < r.len() implies r[k] != r[l] by {
        assert(r[k] == if k < i { s[k] } else { s[k + 1] });
        assert(r[l] == if l < i { s[l] } else { s[l + 1] });
    }
    assert forall|id: Seq<char>| id != s[i] implies (ids_contains(r, id) == ids_contains(s, id)) by {
        if ids_contains(r, id) {
            let k = choose|k: int| 0 <= k < r.len() && r[k] == id;
            assert(s[if k < i { k } else { k + 1 }] == id);
        }
        if ids_contains(s, id) {
            let k = choose|k: int| 0 <= k < s.len() && s[k] == id;
            assert(k != i);
            assert(r[if k < i { k } else { k - 1 }] == id);
        }
    }
    assert forall|k: int| 0 <= k < r.len() implies r[k] != s[i] by {
        assert(r[k] == if k < i { s[k] } else { s[k + 1] });
    }
}

/// The ledger and associations of one participant. A profile with no rewards
/// and empty sets is semantically absent; the registry materializes it
/// lazily and may reconstruct it as this zero value on a read miss.
pub struct Profile {
    pub profile_id: ProfileId,
    pub rewards_available: Balance,
    pub rewards_claimed: Balance,
    pub lots_offering: Vec<LotId>,
    pub lots_bidding: Vec<LotId>,
}

/// The mathematical value of a [`Profile`].
#[verifier::ext_equal]
pub ghost struct ProfileV {
    pub profile_id: Seq<char>,
    pub rewards_available: Balance,
    pub rewards_claimed: Balance,
    pub lots_offering: Seq<Seq<char>>,
    pub lots_bidding: Seq<Seq<char>>,
}

impl View for Profile {
    type V = ProfileV;

    open spec fn view(&self) -> ProfileV {
        ProfileV {
            profile_id: self.profile_id@,
            rewards_available: self.rewards_available,
            rewards_claimed: self.rewards_claimed,
            lots_offering: self.lots_offering.deep_view(),
            lots_bidding: self.lots_bidding.deep_view(),
        }
    }
}

impl DeepView for Profile {
    type V = ProfileV;

    open spec fn deep_view(&self) -> ProfileV {
        self.view()
    }
}

impl ProfileV {
    /// Both association sets hold distinct identities.
    pub open spec fn wf(self) -> bool {
        ids_distinct(self.lots_offering) && ids_distinct(self.lots_bidding)
    }

    /// The zero value a profile materializes as.
    pub open spec fn empty(profile_id: Seq<char>) -> ProfileV {
        ProfileV {
            profile_id,
            rewards_available: 0,
            rewards_claimed: 0,
            lots_offering: Seq::empty(),
            lots_bidding: Seq::empty(),
        }
    }
}

impl Profile {
    /// A fresh, zero-valued profile.
    pub fn new(profile_id: &ProfileId) -> (r: Profile)
        ensures
            r@ == ProfileV::empty(profile_id@),
            r@.wf(),
    {
        let r = Profile {
            profile_id: profile_id.clone(),
            rewards_available: 0,
            rewards_claimed: 0,
            lots_offering: Vec::new(),
            lots_bidding: Vec::new(),
        };
        proof {
            assert(r@.lots_offering =~= Seq::<Seq<char>>::empty());
            assert(r@.lots_bidding =~= Seq::<Seq<char>>::empty());
            assert(r@ =~= ProfileV::empty(profile_id@));
        }
        r
    }

    /// Additive credit to the available balance.
    pub fn rewards_transfer(&mut self, amount: Balance)
        requires
            old(self).rewards_available + amount <= Balance::MAX,
        ensures
            final(self)@ == (ProfileV {
                rewards_available: (old(self).rewards_available + amount) as Balance,
                ..old(self)@
            }),
    {
        self.rewards_available = self.rewards_available + amount;
    }

    /// Atomically moves the whole available balance into the claimed balance
    /// and returns the moved amount.
    pub fn rewards_claim(&mut self) -> (amount: Balance)
        requires
            old(self).rewards_available + old(self).rewards_claimed <= Balance::MAX,
        ensures
            amount == old(self).rewards_available,
            final(self)@ == (ProfileV {
                rewards_available: 0,
                rewards_claimed: (old(self).rewards_claimed + old(self).rewards_available)
                    as Balance,
                ..old(self)@
            }),
    {
        let amount = self.rewards_available;
        self.rewards_available = 0;
        self.rewards_claimed = self.rewards_claimed + amount;
        amount
    }

    /// Exact inverse of a specific claim: moves `amount` back from the
    /// claimed balance to the available balance. Used only as compensation
    /// when the external payout of a claim fails.
    pub fn rewards_claim_revert(&mut self, amount: Balance)
        requires
            amount <= old(self).rewards_claimed,
            old(self).rewards_available + amount <= Balance::MAX,
        ensures
            final(self)@ == (ProfileV {
                rewards_available: (old(self).rewards_available + amount) as Balance,
                rewards_claimed: (old(self).rewards_claimed - amount) as Balance,
                ..old(self)@
            }),
    {
        self.rewards_available = self.rewards_available + amount;
        self.rewards_claimed = self.rewards_claimed - amount;
    }

    /// Records that this profile offers `lot_id`; a no-op when already
    /// recorded.
    pub fn offering_insert(&mut self, lot_id: &LotId)
        requires
            old(self)@.wf(),
        ensures
            final(self)@.wf(),
            ids_contains(old(self)@.lots_offering, lot_id@) ==> final(self)@ == old(self)@,
            !ids_contains(old(self)@.lots_offering, lot_id@) ==> final(self)@ == (ProfileV {
                lots_offering: old(self)@.lots_offering.push(lot_id@),
                ..old(self)@
            }),
            ids_contains(final(self)@.lots_offering, lot_id@),
    {
        let present = ids_vec_contains(&self.lots_offering, lot_id);
        if !present {
            self.lots_offering.push(lot_id.clone());
            proof {
                assert(self@.lots_offering =~= old(self)@.lots_offering.push(lot_id@));
                assert(self@ =~= (ProfileV {
                    lots_offering: old(self)@.lots_offering.push(lot_id@),
                    ..old(self)@
                }));
                let n = old(self)@.lots_offering.len() as int;
                assert(self@.lots_offering[n] == lot_id@);
                assert forall|i: int, j: int|
                    0 <= i < j < self@.lots_offering.len() implies self@.lots_offering[i]
                    != self@.lots_offering[j] by {
                    if j < n {
                        assert(old(self)@.lots_offering[i] != old(self)@.lots_offering[j]);
                    } else {
                        assert(self@.lots_offering[i] == old(self)@.lots_offering[i]);
                        assert(!ids_contains(old(self)@.lots_offering, lot_id@));
                    }
                }
            }
        }
    }

    /// Records that this profile bids on `lot_id`; a no-op when already
    /// recorded.
    pub fn bidding_insert(&mut self, lot_id: &LotId)
        requires
            old(self)@.wf(),
        ensures
            final(self)@.wf(),
            ids_contains(old(self)@.lots_bidding, lot_id@) ==> final(self)@ == old(self)@,
            !ids_contains(old(self)@.lots_bidding, lot_id@) ==> final(self)@ == (ProfileV {
                lots_bidding: old(self)@.lots_bidding.push(lot_id@),
                ..old(self)@
            }),
            ids_contains(final(self)@.lots_bidding, lot_id@),
    {
        let present = ids_vec_contains(&self.lots_bidding, lot_id);
        if !present {
            self.lots_bidding.push(lot_id.clone());
            proof {
                assert(self@.lots_bidding =~= old(self)@.lots_bidding.push(lot_id@));
                assert(self@ =~= (ProfileV {
                    lots_bidding: old(self)@.lots_bidding.push(lot_id@),
                    ..old(self)@
                }));
                let n = old(self)@.lots_bidding.len() as int;
                assert(self@.lots_bidding[n] == lot_id@);
                assert forall|i: int, j: int|
                    0 <= i < j < self@.lots_bidding.len() implies self@.lots_bidding[i]
                    != self@.lots_bidding[j] by {
                    if j < n {
                        assert(old(self)@.lots_bidding[i] != old(self)@.lots_bidding[j]);
                    } else {
                        assert(self@.lots_bidding[i] == old(self)@.lots_bidding[i]);
                        assert(!ids_contains(old(self)@.lots_bidding, lot_id@));
                    }
                }
            }
        }
    }

    /// Forgets the offering association to `lot_id`; a no-op when absent.
    pub fn offering_remove(&mut self, lot_id: &LotId)
        requires
            old(self)@.wf(),
        ensures
            final(self)@.wf(),
            !ids_contains(old(self)@.lots_offering, lot_id@) ==> final(self)@ == old(self)@,
            ids_contains(old(self)@.lots_offering, lot_id@) ==> final(self)@ == (ProfileV {
                lots_offering: old(self)@.lots_offering.remove(
                    ids_index(old(self)@.lots_offering, lot_id@),
                ),
                ..old(self)@
            }),
            !ids_contains(final(self)@.lots_offering, lot_id@),
    {
        let index = ids_vec_index(&self.lots_offering, lot_id);
        if let Some(i) = index {
            proof {
                lemma_ids_index_unique(self@.lots_offering, lot_id@, i as int);
                lemma_ids_remove_keeps_distinct(self@.lots_offering, i as int);
            }
            self.lots_offering.remove(i);
            proof {
                assert(self@.lots_offering =~= old(self)@.lots_offering.remove(
                    ids_index(old(self)@.lots_offering, lot_id@),
                ));
                assert(self@ =~= (ProfileV {
                    lots_offering: old(self)@.lots_offering.remove(
                        ids_index(old(self)@.lots_offering, lot_id@),
                    ),
                    ..old(self)@
                }));
            }
        }
    }

    /// Forgets the bidding association to `lot_id`; a no-op when absent.
    pub fn bidding_remove(&mut self, lot_id: &LotId)
        requires
            old(self)@.wf(),
        ensures
            final(self)@.wf(),
            !ids_contains(old(self)@.lots_bidding, lot_id@) ==> final(self)@ == old(self)@,
            ids_contains(old(self)@.lots_bidding, lot_id@) ==> final(self)@ == (ProfileV {
                lots_bidding: old(self)@.lots_bidding.remove(
                    ids_index(old(self)@.lots_bidding, lot_id@),
                ),
                ..old(self)@
            }),
            !ids_contains(final(self)@.lots_bidding, lot_id@),
    {
        let index = ids_vec_index(&self.lots_bidding, lot_id);
        if let Some(i) = index {
            proof {
                lemma_ids_index_unique(self@.lots_bidding, lot_id@, i as int);
                lemma_ids_remove_keeps_distinct(self@.lots_bidding, i as int);
            }
            self.lots_bidding.remove(i);
            proof {
                assert(self@.lots_bidding =~= old(self)@.lots_bidding.remove(
                    ids_index(old(self)@.lots_bidding, lot_id@),
                ));
                assert(self@ =~= (ProfileV {
                    lots_bidding: old(self)@.lots_bidding.remove(
                        ids_index(old(self)@.lots_bidding, lot_id@),
                    ),
                    ..old(self)@
                }));
            }
        }
    }

}

/// Whether `id` occurs in the vector.
fn ids_vec_contains(s: &Vec<LotId>, id: &LotId) -> (r: bool)
    ensures
        r == ids_contains(s.deep_view(), id@),
{
    let mut i: usize = 0;
    while i < s.len()
        invariant
            0 <= i <= s.len(),
            forall|j: int| 0 <= j < i ==> s.deep_view()[j] != id@,
        decreases s.len() - i,
    {
        if s[i] == *id {
            proof {
                assert(s.deep_view()[i as int] == id@);
            }
            return true;
        }
        i = i + 1;
    }
    false
}

/// The first index at which `id` occurs in the vector, if any.
fn ids_vec_index(s: &Vec<LotId>, id: &LotId) -> (r: Option<usize>)
    ensures
        match r {
            Some(i) => i < s.len() && s.deep_view()[i as int] == id@,
            None => !ids_contains(s.deep_view(), id@),
        },
{
    let mut i: usize = 0;
    while i < s.len()
        invariant
            0 <= i <= s.len(),
            forall|j: int| 0 <= j < i ==> s.deep_view()[j] != id@,
        decreases s.len() - i,
    {
        if s[i] == *id {
            proof {
                assert(s.deep_view()[i as int] == id@);
            }
            return Some(i);
        }
        i = i + 1;
    }
    None
}

} // verus!
