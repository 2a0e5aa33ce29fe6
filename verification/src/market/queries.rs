//! Reading the ledger.

use crate::account::{account_names, AccountId};
use crate::amount::U128;
use crate::market::bounty::{BookModel, BountyModel, MAX_PARTICIPANTS_PER_BOUNTY};
use crate::market::{BountyPredictionContract, MarketModel};
use crate::market::views::{bounty_view_models, stake_view, BountyView, ParticipantStakeView};
use vstd::prelude::*;

verus! {

/// The bounties of a run of books, in order.
pub open spec fn bounties_of(books: Seq<BookModel>) -> Seq<BountyModel> {
    Seq::new(books.len(), |i: int| books[i].bounty)
}

/// The stakes that `who` holds on the bounties of a run of books, in the
/// order of the books.
pub open spec fn stakes_of_user(books: Seq<BookModel>, who: Seq<char>) -> Seq<ParticipantStakeView>
    decreases books.len(),
{
    if books.len() == 0 {
        Seq::empty()
    } else {
        let earlier = stakes_of_user(books.drop_last(), who);
        match books.last().stake_of(who) {
            Some(stake) => earlier.push(stake_view(stake)),
            None => earlier,
        }
    }
}

impl MarketModel {
    /// The bounties that still accept submissions and stakes at time `now`,
    /// in the order of their ids.
    pub open spec fn open_bounties(self, now: u64) -> Seq<BountyModel> {
        bounties_of(self.books).filter(|b: BountyModel| b.is_open_at(now))
    }
}

impl BountyPredictionContract {
    /// The bounty with this id, if there is one.
    pub fn get_bounty(&self, bounty_id: u64) -> (r: Option<BountyView>)
        ensures
            match r {
                Some(view) => self@.has_bounty(bounty_id) && view@ == self@.book(bounty_id).bounty,
                None => !self@.has_bounty(bounty_id),
            },
    {
        match self.book_index(bounty_id) {
            Some(idx) => {
                assert(self@.books[idx as int] == self.books@[idx as int]@);
                Some(BountyView::from(&self.books[idx].bounty))
            },
            None => None,
        }
    }

    /// The bounty with this id, if there is one and it is closed.
    pub fn get_bounty_results(&self, bounty_id: u64) -> (r: Option<BountyView>)
        ensures
            match r {
                Some(view) => self@.has_bounty(bounty_id) && view@ == self@.book(bounty_id).bounty
                    && view@.is_closed,
                None => !self@.has_bounty(bounty_id) || !self@.book(bounty_id).bounty.is_closed,
            },
    {
        match self.book_index(bounty_id) {
            Some(idx) => {
                assert(self@.books[idx as int] == self.books@[idx as int]@);
                if self.books[idx].bounty.is_closed {
                    Some(BountyView::from(&self.books[idx].bounty))
                } else {
                    None
                }
            },
            None => None,
        }
    }

    /// The bounties that still accept submissions and stakes at time `now`,
    /// in the order of their ids.
    pub fn get_active_bounties(&self, now: u64) -> (r: Vec<BountyView>)
        ensures
            bounty_view_models(r@) == self@.open_bounties(now),
    {
        let ghost all = bounties_of(self@.books);
        let ghost accepts = |b: BountyModel| b.is_open_at(now);
        let mut active: Vec<BountyView> = Vec::new();
        let mut i: usize = 0;
        proof {
            assert(all.take(0) =~= Seq::empty());
            reveal(Seq::filter);
            assert(bounty_view_models(active@) =~= all.take(0).filter(accepts));
        }
        while i < self.books.len()
            invariant
                i <= self.books.len(),
                all == bounties_of(self@.books),
                all.len() == self.books.len(),
                accepts == (|b: BountyModel| b.is_open_at(now)),
                bounty_view_models(active@) == all.take(i as int).filter(accepts),
            decreases self.books.len() - i,
        {
            let bounty = &self.books[i].bounty;
            proof {
                assert(all[i as int] == bounty@);
                assert(all.take(i as int + 1) =~= all.take(i as int).push(all[i as int]));
                all.take(i as int).lemma_filter_push(all[i as int], accepts);
            }
            if bounty.is_active && !bounty.is_closed && now < bounty.ends_at {
                let ghost before = active@;
                let view = BountyView::from(bounty);
                active.push(view);
                assert(bounty_view_models(active@) =~= bounty_view_models(before).push(bounty@));
            }
            i = i + 1;
        }
        assert(all.take(all.len() as int) =~= all);
        active
    }

    /// The live stake of `account` on the bounty with this id, if there is
    /// one.
    pub fn get_participant_stake(&self, account: &AccountId, bounty_id: u64) -> (r: Option<
        ParticipantStakeView,
    >)
        requires
            self.wf(),
        ensures
            r == match self@.stake_of(account@, bounty_id) {
                Some(stake) => Some(stake_view(stake)),
                None => None,
            },
    {
        match self.book_index(bounty_id) {
            Some(idx) => {
                assert(self@.books[idx as int] == self.books@[idx as int]@);
                assert(self@.books[idx as int].wf());
                match self.books[idx].find_stake(account) {
                    Some(k) => {
                        assert(self@.books[idx as int].stakes[k as int].stake
                            == self.books[idx as int].stakes[k as int].stake);
                        Some(ParticipantStakeView::from(self.books[idx].stakes[k].stake))
                    },
                    None => None,
                }
            },
            None => None,
        }
    }

    /// The stake total of every submission of the bounty with this id, in
    /// the order of the submissions; nothing where there is no such bounty.
    pub fn get_bounty_submission_stakes(&self, bounty_id: u64) -> (r: Vec<U128>)
        ensures
            !self@.has_bounty(bounty_id) ==> r@.len() == 0,
            self@.has_bounty(bounty_id) ==> r@.len() == self@.book(
                bounty_id,
            ).bounty.submissions.len() && forall|j: int|
                0 <= j < r@.len() ==> (#[trigger] r@[j]).0 == self@.book(
                    bounty_id,
                ).bounty.submissions[j].total_staked,
    {
        let mut stakes: Vec<U128> = Vec::new();
        if let Some(idx) = self.book_index(bounty_id) {
            assert(self@.books[idx as int] == self.books@[idx as int]@);
            let submissions = &self.books[idx].bounty.submissions;
            let mut i: usize = 0;
            while i < submissions.len()
                invariant
                    i <= submissions.len(),
                    stakes.len() == i,
                    forall|j: int|
                        0 <= j < i ==> (#[trigger] stakes@[j]).0 == submissions@[j].total_staked@,
                decreases submissions.len() - i,
            {
                stakes.push(U128(submissions[i].total_staked.as_yoctonear()));
                i = i + 1;
            }
            assert forall|j: int| 0 <= j < stakes@.len() implies (#[trigger] stakes@[j]).0
                == self@.book(bounty_id).bounty.submissions[j].total_staked by {
                assert(self@.book(bounty_id).bounty.submissions[j] == submissions@[j]@);
            }
        }
        stakes
    }

    /// The stakes that `account` holds, one bounty after another in the
    /// order of their ids.
    pub fn get_user_bounties(&self, account: &AccountId) -> (r: Vec<ParticipantStakeView>)
        requires
            self.wf(),
        ensures
            r@ == stakes_of_user(self@.books, account@),
    {
        let ghost books = self@.books;
        let mut user_stakes: Vec<ParticipantStakeView> = Vec::new();
        let mut i: usize = 0;
        assert(books.take(0) =~= Seq::empty());
        while i < self.books.len()
            invariant
                i <= self.books.len(),
                self.wf(),
                books == self@.books,
                books.len() == self.books.len(),
                user_stakes@ == stakes_of_user(books.take(i as int), account@),
            decreases self.books.len() - i,
        {
            proof {
                assert(books[i as int] == self.books@[i as int]@);
                assert(books[i as int].wf());
                assert(books.take(i as int + 1).drop_last() =~= books.take(i as int));
                assert(books.take(i as int + 1).last() == books[i as int]);
            }
            if let Some(k) = self.books[i].find_stake(account) {
                assert(books[i as int].stakes[k as int].stake
                    == self.books[i as int].stakes[k as int].stake);
                user_stakes.push(ParticipantStakeView::from(self.books[i].stakes[k].stake));
            }
            i = i + 1;
        }
        assert(books.take(books.len() as int) =~= books);
        user_stakes
    }

    /// Everyone who ever staked on the bounty with this id, in order of
    /// admission; nobody where there is no such bounty.
    pub fn get_bounty_participants(&self, bounty_id: u64) -> (r: Vec<AccountId>)
        ensures
            account_names(r@) == if self@.has_bounty(bounty_id) {
                self@.book(bounty_id).participants
            } else {
                Seq::empty()
            },
    {
        let mut participants: Vec<AccountId> = Vec::new();
        if let Some(idx) = self.book_index(bounty_id) {
            assert(self@.books[idx as int] == self.books@[idx as int]@);
            let stored = &self.books[idx].participants;
            let mut i: usize = 0;
            while i < stored.len()
                invariant
                    i <= stored.len(),
                    participants.len() == i,
                    forall|j: int| 0 <= j < i ==> (#[trigger] participants@[j])@ == stored@[j]@,
                decreases stored.len() - i,
            {
                participants.push(stored[i].clone());
                i = i + 1;
            }
            assert(account_names(participants@) =~= account_names(stored@));
        } else {
            assert(account_names(participants@) =~= Seq::empty());
        }
        participants
    }

    /// How many participants the bounty with this id has admitted; zero
    /// where there is no such bounty.
    pub fn get_bounty_participant_count(&self, bounty_id: u64) -> (r: u64)
        ensures
            r == if self@.has_bounty(bounty_id) {
                self@.book(bounty_id).participants.len()
            } else {
                0
            },
    {
        match self.book_index(bounty_id) {
            Some(idx) => {
                assert(self@.books[idx as int] == self.books@[idx as int]@);
                self.books[idx].participants.len() as u64
            },
            None => 0,
        }
    }

    /// The most participants that a bounty admits.
    pub fn get_max_participants_per_bounty(&self) -> (r: usize)
        ensures
            r == MAX_PARTICIPANTS_PER_BOUNTY,
    {
        MAX_PARTICIPANTS_PER_BOUNTY
    }

    /// The platform fee, in basis points of the prize pool.
    pub fn get_platform_fee_rate(&self) -> (r: u128)
        ensures
            r == self@.platform_fee_rate,
    {
        self.platform_fee_rate
    }

    /// The owner of the market.
    pub fn get_contract_owner(&self) -> (r: AccountId)
        ensures
            r@ == self@.owner(),
    {
        self.staking.owner.clone()
    }

    /// All that is staked for time-based rewards.
    pub fn get_total_staked(&self) -> (r: U128)
        ensures
            r.0 == self@.staking.total_staked,
    {
        U128(self.staking.total_staked.as_yoctonear())
    }

    /// The reward rate.
    pub fn get_reward_rate(&self) -> (r: u128)
        ensures
            r == self@.staking.reward_rate,
    {
        self.staking.reward_rate
    }

    /// The most that one account may stake for time-based rewards.
    pub fn get_max_stake_amount(&self) -> (r: U128)
        ensures
            r.0 == self@.staking.max_stake_amount,
    {
        U128(self.staking.max_stake_amount.as_yoctonear())
    }
}

} // verus!
