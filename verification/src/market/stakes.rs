//! The stake ledger: who backs which submission, and with how much.

use crate::account::AccountId;
use crate::amount::SafeAmount;
use crate::market::bounty::{
    backing, backing_amounts, stake_amounts, stake_totals, stakers_of, BookModel, BountyBook,
    BountyModel, ParticipantStake, StakeEntry, StakeModel, SubmissionModel, MAX_BOUNTY_STAKE,
    MAX_PARTICIPANTS_PER_BOUNTY,
};
use crate::error::MarketError;
use crate::market::{BountyPredictionContract, MarketModel};
use crate::sums::{lemma_sum_at_most, lemma_sum_bounds, lemma_sum_push, lemma_sum_update};
use vstd::prelude::*;

verus! {

/// Most that the stakes on one bounty can add up to: every admitted
/// participant at the highest stake limit.
pub const MAX_TOTAL_STAKED: u128 = 150 * MAX_BOUNTY_STAKE;

/// The submissions with the stake total of submission `j` set to `total`.
pub open spec fn with_total(subs: Seq<SubmissionModel>, j: int, total: nat) -> Seq<SubmissionModel>
    recommends
        0 <= j < subs.len(),
{
    subs.update(j, SubmissionModel { total_staked: total, ..subs[j] })
}

impl BookModel {
    /// The book once `staker` holds `stake`. A stake they held before is
    /// first taken off its submission and off the bounty total; then the new
    /// amount is put on the new submission and on the bounty total; then the
    /// record is replaced. A staker without a stake is admitted as a new
    /// participant.
    pub open spec fn staked(self, staker: Seq<char>, stake: ParticipantStake) -> BookModel
        recommends
            stake.submission_index < self.bounty.submissions.len(),
    {
        let target = stake.submission_index as int;
        let entry = StakeModel { staker, stake };
        match self.stake_position(staker) {
            Some(k) => {
                let prior = self.stakes[k].stake;
                let source = prior.submission_index as int;
                let released = with_total(
                    self.bounty.submissions,
                    source,
                    (self.bounty.submissions[source].total_staked - prior.amount@) as nat,
                );
                BookModel {
                    bounty: BountyModel {
                        submissions: with_total(
                            released,
                            target,
                            released[target].total_staked + stake.amount@,
                        ),
                        total_staked: (self.bounty.total_staked - prior.amount@
                            + stake.amount@) as nat,
                        ..self.bounty
                    },
                    stakes: self.stakes.update(k, entry),
                    participants: self.participants,
                }
            },
            None => BookModel {
                bounty: BountyModel {
                    submissions: with_total(
                        self.bounty.submissions,
                        target,
                        self.bounty.submissions[target].total_staked + stake.amount@,
                    ),
                    total_staked: self.bounty.total_staked + stake.amount@,
                    ..self.bounty
                },
                stakes: self.stakes.push(entry),
                participants: self.participants.push(staker),
            },
        }
    }

    /// Whether `stake` may be recorded for `staker` on this book.
    pub open spec fn admits(self, staker: Seq<char>, stake: ParticipantStake) -> bool {
        &&& !self.bounty.is_closed
        &&& stake.bounty_id == self.bounty.id
        &&& stake.submission_index < self.bounty.submissions.len()
        &&& 0 < stake.amount@ <= self.bounty.max_stake_per_user
        &&& (self.stake_of(staker) is None ==> self.participants.len()
            < MAX_PARTICIPANTS_PER_BOUNTY)
    }
}

/// Where the stakers are distinct, the position of a staker is the one
/// position that holds them.
pub proof fn lemma_stake_position(book: BookModel, who: Seq<char>, k: int)
    requires
        stakers_of(book.stakes).no_duplicates(),
        0 <= k < book.stakes.len(),
        book.stakes[k].staker == who,
    ensures
        book.stake_position(who) == Some(k),
{
    let c = choose|i: int| 0 <= i < book.stakes.len() && book.stakes[i].staker == who;
    assert(stakers_of(book.stakes)[c] == stakers_of(book.stakes)[k]);
}

/// A stake that a staker already holds never exceeds the total of the
/// submission it backs, nor that total the total of the bounty.
pub proof fn lemma_stake_within_totals(book: BookModel, k: int)
    requires
        book.wf(),
        0 <= k < book.stakes.len(),
    ensures
        book.stakes[k].stake.amount@ <= book.bounty.submissions[book.stakes[k].stake.submission_index as int].total_staked,
        book.bounty.submissions[book.stakes[k].stake.submission_index as int].total_staked
            <= book.bounty.total_staked,
{
    let j = book.stakes[k].stake.submission_index as int;
    assert(backing_amounts(book.stakes, j)[k] == book.stakes[k].stake.amount@);
    lemma_sum_bounds(backing_amounts(book.stakes, j), k);
    assert(backing(book.stakes, j) <= book.bounty.submissions[j].total_staked);
    assert(stake_totals(book.bounty.submissions)[j] == book.bounty.submissions[j].total_staked);
    lemma_sum_bounds(stake_totals(book.bounty.submissions), j);
}

/// Recording an admissible stake keeps the book well formed: the totals of
/// the submissions still add up to the total of the bounty, each total is
/// what its backers put on it, and the participants stay within their limit.
/// No total leaves the range of an amount.
pub proof fn lemma_staked_wf(book: BookModel, staker: Seq<char>, stake: ParticipantStake)
    requires
        book.wf(),
        book.admits(staker, stake),
    ensures
        book.staked(staker, stake).wf(),
        book.staked(staker, stake).bounty.total_staked <= MAX_TOTAL_STAKED,
        book.staked(staker, stake).stake_of(staker) == Some(stake),
        book.stake_position(staker) matches Some(k) ==> book.stakes[k].stake.amount@
            <= book.bounty.submissions[book.stakes[k].stake.submission_index as int].total_staked
            <= book.bounty.total_staked,
{
    let after = book.staked(staker, stake);
    let subs = book.bounty.submissions;
    let target = stake.submission_index as int;
    let entry = StakeModel { staker, stake };
    let amount = stake.amount@;
    match book.stake_position(staker) {
        Some(k) => {
            let prior = book.stakes[k].stake;
            let source = prior.submission_index as int;
            lemma_stake_within_totals(book, k);
            let released = with_total(
                subs,
                source,
                (subs[source].total_staked - prior.amount@) as nat,
            );
            // the amounts of all stakes
            assert(stake_amounts(after.stakes) =~= stake_amounts(book.stakes).update(k, amount));
            lemma_sum_update(stake_amounts(book.stakes), k, amount);
            // the totals of the submissions
            assert(stake_totals(released) =~= stake_totals(subs).update(
                source,
                (subs[source].total_staked - prior.amount@) as nat,
            ));
            lemma_sum_update(
                stake_totals(subs),
                source,
                (subs[source].total_staked - prior.amount@) as nat,
            );
            assert(stake_totals(after.bounty.submissions) =~= stake_totals(released).update(
                target,
                released[target].total_staked + amount,
            ));
            lemma_sum_update(
                stake_totals(released),
                target,
                released[target].total_staked + amount,
            );
            // what the stakes put on each submission
            assert forall|j: int| 0 <= j < after.bounty.submissions.len() implies #[trigger] backing(
                after.stakes,
                j,
            ) == after.bounty.submissions[j].total_staked by {
                let put: nat = if target == j {
                    amount
                } else {
                    0
                };
                assert(backing_amounts(after.stakes, j) =~= backing_amounts(book.stakes, j).update(
                    k,
                    put,
                ));
                lemma_sum_update(backing_amounts(book.stakes, j), k, put);
                assert(backing(book.stakes, j) == subs[j].total_staked);
            }
            assert(stakers_of(after.stakes) =~= stakers_of(book.stakes));
            assert(after.stakes[k] == entry);
            lemma_stake_position(after, staker, k);
        },
        None => {
            assert(stake_amounts(after.stakes) =~= stake_amounts(book.stakes).push(amount));
            lemma_sum_push(stake_amounts(book.stakes), amount);
            assert(stake_totals(after.bounty.submissions) =~= stake_totals(subs).update(
                target,
                subs[target].total_staked + amount,
            ));
            lemma_sum_update(stake_totals(subs), target, subs[target].total_staked + amount);
            assert forall|j: int| 0 <= j < after.bounty.submissions.len() implies #[trigger] backing(
                after.stakes,
                j,
            ) == after.bounty.submissions[j].total_staked by {
                let put: nat = if target == j {
                    amount
                } else {
                    0
                };
                assert(backing_amounts(after.stakes, j) =~= backing_amounts(book.stakes, j).push(
                    put,
                ));
                lemma_sum_push(backing_amounts(book.stakes, j), put);
                assert(backing(book.stakes, j) == subs[j].total_staked);
            }
            assert(stakers_of(after.stakes) =~= stakers_of(book.stakes).push(staker));
            assert(after.participants.no_duplicates()) by {
                assert forall|a: int, b: int|
                    0 <= a < after.participants.len() && 0 <= b < after.participants.len() && a
                        != b implies after.participants[a] != after.participants[b] by {
                    if a == book.participants.len() {
                        assert(stakers_of(book.stakes)[b] == book.stakes[b].staker);
                    } else if b == book.participants.len() {
                        assert(stakers_of(book.stakes)[a] == book.stakes[a].staker);
                    }
                }
            }
            assert(after.stakes[book.stakes.len() as int] == entry);
            lemma_stake_position(after, staker, book.stakes.len() as int);
        },
    }
    // no total leaves the range of an amount
    assert forall|i: int| 0 <= i < after.stakes.len() implies stake_amounts(after.stakes)[i]
        <= MAX_BOUNTY_STAKE by {
        assert(after.stakes[i].stake.amount@ <= after.bounty.max_stake_per_user);
    }
    lemma_sum_at_most(stake_amounts(after.stakes), MAX_BOUNTY_STAKE as nat);
    assert(after.stakes.len() * MAX_BOUNTY_STAKE <= 150 * MAX_BOUNTY_STAKE) by (nonlinear_arith)
        requires
            after.stakes.len() <= 150,
    ;
}

impl MarketModel {
    /// Why a stake is rejected; `None` where it is accepted.
    pub open spec fn staking_error(
        self,
        staker: Seq<char>,
        now: u64,
        amount: nat,
        bounty_id: u64,
        submission_index: u64,
    ) -> Option<MarketError> {
        if !self.has_bounty(bounty_id) {
            Some(MarketError::BountyNotFound)
        } else if !self.book(bounty_id).bounty.is_active {
            Some(MarketError::BountyNotActive)
        } else if now >= self.book(bounty_id).bounty.ends_at {
            Some(MarketError::BountyExpired)
        } else if submission_index >= self.book(bounty_id).bounty.submissions.len() {
            Some(MarketError::InvalidSubmissionIndex)
        } else if amount == 0 {
            Some(MarketError::StakeNotPositive)
        } else if amount > self.book(bounty_id).bounty.max_stake_per_user {
            Some(MarketError::StakeExceedsMaximum)
        } else if self.book(bounty_id).stake_of(staker) is None && self.book(
            bounty_id,
        ).participants.len() >= MAX_PARTICIPANTS_PER_BOUNTY {
            Some(MarketError::ParticipantLimitReached)
        } else {
            None
        }
    }

    /// The market once `staker` holds `stake` on the bounty it names.
    pub open spec fn after_stake(self, staker: Seq<char>, stake: ParticipantStake) -> MarketModel
        recommends
            self.has_bounty(stake.bounty_id),
    {
        self.with_book(stake.bounty_id, self.book(stake.bounty_id).staked(staker, stake))
    }
}

impl BountyBook {
    /// The position of the live stake of `who`, if they hold one.
    pub fn find_stake(&self, who: &AccountId) -> (r: Option<usize>)
        requires
            stakers_of(self@.stakes).no_duplicates(),
        ensures
            match r {
                Some(k) => k < self.stakes.len() && self@.stake_position(who@) == Some(k as int),
                None => self@.stake_position(who@) is None,
            },
    {
        let mut i: usize = 0;
        while i < self.stakes.len()
            invariant
                i <= self.stakes.len(),
                stakers_of(self@.stakes).no_duplicates(),
                forall|j: int| 0 <= j < i ==> (#[trigger] self@.stakes[j]).staker != who@,
            decreases self.stakes.len() - i,
        {
            assert(self@.stakes[i as int] == self.stakes@[i as int]@);
            if self.stakes[i].staker.is(who) {
                proof {
                    lemma_stake_position(self@, who@, i as int);
                }
                return Some(i);
            }
            i = i + 1;
        }
        None
    }
}

impl BountyPredictionContract {
    /// Records that `staker` backs a submission with `amount`, at time
    /// `now`. The bounty must still be open, the amount positive and within
    /// the bounty's limit. Someone who holds no stake on the bounty yet is
    /// admitted only while the bounty has room for another participant;
    /// someone who holds one may always change it, and the earlier amount
    /// moves from the old submission to the new one.
    pub fn stake_on_submission(
        &mut self,
        staker: AccountId,
        now: u64,
        amount: SafeAmount,
        bounty_id: u64,
        submission_index: u64,
    ) -> (r: Result<(), MarketError>)
        requires
            old(self).wf(),
        ensures
            final(self).wf(),
            match r {
                Ok(()) => {
                    &&& old(self)@.staking_error(staker@, now, amount@, bounty_id, submission_index)
                        is None
                    &&& final(self)@ == old(self)@.after_stake(
                        staker@,
                        ParticipantStake { bounty_id, submission_index, amount, staked_at: now },
                    )
                },
                Err(e) => {
                    &&& old(self)@.staking_error(staker@, now, amount@, bounty_id, submission_index)
                        == Some(e)
                    &&& *final(self) == *old(self)
                },
            },
    {
        let idx = match self.book_index(bounty_id) {
            Some(idx) => idx,
            None => {
                return Err(MarketError::BountyNotFound);
            },
        };
        let ghost book = old(self)@.book(bounty_id);
        assert(book == self.books@[idx as int]@);
        assert(book.wf());
        if !self.books[idx].bounty.is_active {
            return Err(MarketError::BountyNotActive);
        }
        if now >= self.books[idx].bounty.ends_at {
            return Err(MarketError::BountyExpired);
        }
        if submission_index >= self.books[idx].bounty.submissions.len() as u64 {
            return Err(MarketError::InvalidSubmissionIndex);
        }
        if amount.is_zero() {
            return Err(MarketError::StakeNotPositive);
        }
        if amount.as_yoctonear() > self.books[idx].bounty.max_stake_per_user.as_yoctonear() {
            return Err(MarketError::StakeExceedsMaximum);
        }
        let position = self.books[idx].find_stake(&staker);
        if position.is_none() && self.books[idx].participants.len()
            >= MAX_PARTICIPANTS_PER_BOUNTY {
            return Err(MarketError::ParticipantLimitReached);
        }
        let stake = ParticipantStake { bounty_id, submission_index, amount, staked_at: now };
        let target = submission_index as usize;
        let ghost after = book.staked(staker@, stake);
        proof {
            lemma_staked_wf(book, staker@, stake);
            assert(after.bounty.submissions[target as int].total_staked <= MAX_TOTAL_STAKED) by {
                assert(stake_totals(after.bounty.submissions)[target as int]
                    == after.bounty.submissions[target as int].total_staked);
                lemma_sum_bounds(stake_totals(after.bounty.submissions), target as int);
            }
        }
        match position {
            Some(k) => {
                let prior = self.books[idx].stakes[k].stake;
                let source = prior.submission_index as usize;
                assert(book.stakes[k as int].stake == prior);
                assert(book.bounty.submissions[source as int].total_staked
                    == self.books[idx as int].bounty.submissions[source as int].total_staked@);
                let released = self.books[idx].bounty.submissions[source].total_staked.yocto
                    - prior.amount.yocto;
                self.books[idx].bounty.submissions[source].total_staked = SafeAmount {
                    yocto: released,
                };
                let lowered = self.books[idx].bounty.total_staked.yocto - prior.amount.yocto;
                let credited = self.books[idx].bounty.submissions[target].total_staked.yocto
                    + amount.yocto;
                self.books[idx].bounty.submissions[target].total_staked = SafeAmount {
                    yocto: credited,
                };
                self.books[idx].bounty.total_staked = SafeAmount { yocto: lowered + amount.yocto };
                self.books[idx].stakes[k].stake = stake;
                proof {
                    let now_book = self.books@[idx as int]@;
                    assert(now_book.bounty.submissions =~= after.bounty.submissions);
                    assert(now_book.stakes =~= after.stakes);
                    assert(now_book.participants =~= after.participants);
                }
            },
            None => {
                let credited = self.books[idx].bounty.submissions[target].total_staked.yocto
                    + amount.yocto;
                self.books[idx].bounty.submissions[target].total_staked = SafeAmount {
                    yocto: credited,
                };
                let raised = self.books[idx].bounty.total_staked.yocto + amount.yocto;
                self.books[idx].bounty.total_staked = SafeAmount { yocto: raised };
                self.books[idx].participants.push(staker.clone());
                self.books[idx].stakes.push(StakeEntry { staker, stake });
                proof {
                    let now_book = self.books@[idx as int]@;
                    assert(now_book.bounty.submissions =~= after.bounty.submissions);
                    assert(now_book.stakes =~= after.stakes);
                    assert(now_book.participants =~= after.participants);
                }
            },
        }
        proof {
            assert(self.books@[idx as int]@ == after);
            assert(self@.books =~= old(self)@.books.update(idx as int, after));
        }
        Ok(())
    }
}

} // verus!
