//! Claims: each participant collects for themselves, once.

use crate::account::AccountId;
use crate::amount::{SafeAmount, ONE_NEAR};
use crate::market::bounty::{backing, backing_amounts, stakers_of, BookModel, ParticipantStake};
use crate::error::MarketError;
use crate::market::{BountyPredictionContract, MarketModel};
use crate::market::settlement::{
    backer_pool, backer_reward, creator_reward, lemma_part_within_whole, prize_after_fee,
    total_prize, BASIS_POINTS, PERCENT,
};
use crate::market::stakes::{lemma_stake_position, lemma_stake_within_totals};
use crate::sums::{lemma_sum_remove, lemma_sum_take_step, seq_sum};
use vstd::prelude::*;

verus! {

/// What the market keeps back for its own running costs: a payout is made
/// only while the balance exceeds the payout by more than this.
pub const CLAIM_RESERVE: u128 = ONE_NEAR;

/// Whether a balance of `balance` lets the market pay out `payout`.
pub open spec fn covers(balance: nat, payout: nat) -> bool {
    balance > payout + CLAIM_RESERVE
}

impl BookModel {
    /// What a participant with the live stake `stake` is owed on a closed
    /// bounty, at a platform fee of `rate` basis points: the creator's reward
    /// for the creator of the winning submission, a proportional part of the
    /// backer pool for another backer of the winning submission, nothing for
    /// a backer of a losing one. Where the bounty closed without a contest,
    /// the stake itself is owed in full.
    pub open spec fn owed(self, who: Seq<char>, stake: ParticipantStake, rate: u128) -> nat {
        match self.bounty.winning_submission {
            Some(w) => if self.bounty.submissions[w as int].creator == who {
                creator_reward(self.bounty, rate)
            } else if stake.submission_index == w {
                backer_reward(self.bounty, rate, stake.amount@, w as int)
            } else {
                0
            },
            None => stake.amount@,
        }
    }

    /// The book once the live stake of `who` is deleted.
    pub open spec fn claimed(self, who: Seq<char>) -> BookModel
        recommends
            self.stake_position(who) is Some,
    {
        BookModel { stakes: self.stakes.remove(self.stake_position(who).unwrap()), ..self }
    }
}

impl MarketModel {
    /// The outcome of a claim of `claimer` on a bounty while the market's
    /// balance is `balance`: what the host pays them, or why the claim is
    /// rejected.
    pub open spec fn claim_outcome(self, claimer: Seq<char>, bounty_id: u64, balance: nat) -> Result<
        nat,
        MarketError,
    > {
        if !self.has_bounty(bounty_id) {
            Err(MarketError::BountyNotFound)
        } else if !self.book(bounty_id).bounty.is_closed {
            Err(MarketError::BountyNotClosed)
        } else {
            let book = self.book(bounty_id);
            match book.stake_of(claimer) {
                None => Err(MarketError::NoStakeFound),
                Some(stake) => {
                    let payout = book.owed(claimer, stake, self.platform_fee_rate);
                    if book.bounty.winning_submission is Some && payout > 0 && !covers(
                        balance,
                        payout,
                    ) {
                        Err(MarketError::InsufficientBalance)
                    } else {
                        Ok(payout)
                    }
                },
            }
        }
    }

    /// The market once the live stake of `claimer` on the bounty is deleted.
    pub open spec fn after_claim(self, claimer: Seq<char>, bounty_id: u64) -> MarketModel
        recommends
            self.has_bounty(bounty_id),
    {
        self.with_book(bounty_id, self.book(bounty_id).claimed(claimer))
    }
}

/// Deleting a claimed stake keeps the book well formed, and leaves the
/// claimer without a stake.
pub proof fn lemma_claimed_wf(book: BookModel, who: Seq<char>)
    requires
        book.wf(),
        book.bounty.is_closed,
        book.stake_of(who) is Some,
    ensures
        book.claimed(who).wf(),
        book.claimed(who).stake_of(who) is None,
        forall|other: Seq<char>|
            other != who ==> #[trigger] book.claimed(who).stake_of(other) == book.stake_of(other),
{
    let k = book.stake_position(who).unwrap();
    let after = book.claimed(who);
    assert(stakers_of(after.stakes) =~= stakers_of(book.stakes).remove(k));
    assert(stakers_of(after.stakes).no_duplicates()) by {
        assert forall|a: int, b: int|
            0 <= a < after.stakes.len() && 0 <= b < after.stakes.len() && a != b implies stakers_of(
            after.stakes,
        )[a] != stakers_of(after.stakes)[b] by {
            let a0 = if a < k {
                a
            } else {
                a + 1
            };
            let b0 = if b < k {
                b
            } else {
                b + 1
            };
            assert(stakers_of(after.stakes)[a] == stakers_of(book.stakes)[a0]);
            assert(stakers_of(after.stakes)[b] == stakers_of(book.stakes)[b0]);
        }
    }
    assert forall|j: int| 0 <= j < after.bounty.submissions.len() implies #[trigger] backing(
        after.stakes,
        j,
    ) <= after.bounty.submissions[j].total_staked by {
        assert(backing_amounts(after.stakes, j) =~= backing_amounts(book.stakes, j).remove(k));
        lemma_sum_remove(backing_amounts(book.stakes, j), k);
        assert(backing(book.stakes, j) <= book.bounty.submissions[j].total_staked);
    }
    assert forall|i: int| 0 <= i < after.stakes.len() implies (#[trigger] after.stakes[i]).staker
        != who by {
        let i0 = if i < k {
            i
        } else {
            i + 1
        };
        assert(stakers_of(book.stakes)[i0] == book.stakes[i0].staker);
        assert(stakers_of(book.stakes)[k] == book.stakes[k].staker);
    }
    assert forall|other: Seq<char>| other != who implies #[trigger] after.stake_of(other)
        == book.stake_of(other) by {
        if book.stake_position(other) is Some {
            let p = book.stake_position(other).unwrap();
            let shifted = if p < k {
                p
            } else {
                p - 1
            };
            assert(after.stakes[shifted] == book.stakes[p]);
            lemma_stake_position(after, other, shifted);
        } else {
            if after.stake_position(other) is Some {
                let q = after.stake_position(other).unwrap();
                let q0 = if q < k {
                    q
                } else {
                    q + 1
                };
                assert(book.stakes[q0].staker == other);
            }
        }
    }
}

/// What each live stake would claim as a backer of submission `w`, in the
/// order of the stakes: its part of the backer pool where it backs `w`,
/// nothing where it backs another submission.
pub open spec fn backer_claims(book: BookModel, rate: u128, w: int) -> Seq<nat> {
    Seq::new(
        book.stakes.len(),
        |i: int|
            if book.stakes[i].stake.submission_index == w {
                backer_reward(book.bounty, rate, book.stakes[i].stake.amount@, w)
            } else {
                0
            },
    )
}

/// Two quotients rounded down add up to no more than the quotient of the
/// sum rounded down.
proof fn lemma_floors_add(x: nat, y: nat, t: nat)
    requires
        t > 0,
    ensures
        x / t + y / t <= (x + y) / t,
{
    let qx = x as int / t as int;
    let qy = y as int / t as int;
    vstd::arithmetic::div_mod::lemma_fundamental_div_mod(x as int, t as int);
    vstd::arithmetic::div_mod::lemma_fundamental_div_mod(y as int, t as int);
    vstd::arithmetic::div_mod::lemma_mod_bound(x as int, t as int);
    vstd::arithmetic::div_mod::lemma_mod_bound(y as int, t as int);
    assert(t * (qx + qy) == t * qx + t * qy) by (nonlinear_arith);
    assert(t * (qx + qy) <= x + y);
    vstd::arithmetic::div_mod::lemma_div_is_ordered(t * (qx + qy), (x + y) as int, t as int);
    vstd::arithmetic::div_mod::lemma_div_multiples_vanish(qx + qy, t as int);
}

/// The claims of the first `n` stakes stay within what their amounts on
/// submission `w`, taken together, would claim.
proof fn lemma_claims_prefix(book: BookModel, rate: u128, w: int, n: int)
    requires
        0 <= w < book.bounty.submissions.len(),
        book.bounty.submissions[w].total_staked > 0,
        0 <= n <= book.stakes.len(),
    ensures
        seq_sum(backer_claims(book, rate, w).take(n)) <= (seq_sum(
            backing_amounts(book.stakes, w).take(n),
        ) * backer_pool(book.bounty, rate)) / book.bounty.submissions[w].total_staked,
    decreases n,
{
    let claims = backer_claims(book, rate, w);
    let marks = backing_amounts(book.stakes, w);
    let pool = backer_pool(book.bounty, rate);
    let total = book.bounty.submissions[w].total_staked;
    if n == 0 {
        assert(claims.take(0) =~= Seq::empty());
        assert(marks.take(0) =~= Seq::empty());
        assert(0 * pool == 0);
        assert(0nat / total == 0) by (nonlinear_arith)
            requires
                total > 0,
        ;
    } else {
        let shorter = n - 1;
        lemma_claims_prefix(book, rate, w, shorter);
        lemma_sum_take_step(claims, shorter);
        lemma_sum_take_step(marks, shorter);
        let before = seq_sum(marks.take(shorter));
        let mark = marks[shorter];
        assert(claims[shorter] == (mark * pool) / total) by {
            if book.stakes[shorter].stake.submission_index != w {
                assert(0 * pool == 0);
                assert(0nat / total == 0) by (nonlinear_arith)
                    requires
                        total > 0,
                ;
            }
        }
        assert((before + mark) * pool == before * pool + mark * pool) by (nonlinear_arith);
        lemma_floors_add(before * pool, mark * pool, total);
    }
}

/// The winning backers cannot claim more than the backer pool: the parts
/// that the live stakes on the winning submission would claim add up to no
/// more than the pool.
pub proof fn lemma_backer_claims_within_pool(book: BookModel, rate: u128, w: int)
    requires
        book.wf(),
        0 <= w < book.bounty.submissions.len(),
        book.bounty.submissions[w].total_staked > 0,
    ensures
        seq_sum(backer_claims(book, rate, w)) <= backer_pool(book.bounty, rate),
{
    let claims = backer_claims(book, rate, w);
    let marks = backing_amounts(book.stakes, w);
    let pool = backer_pool(book.bounty, rate);
    let total = book.bounty.submissions[w].total_staked;
    lemma_claims_prefix(book, rate, w, book.stakes.len() as int);
    assert(claims.take(claims.len() as int) =~= claims);
    assert(marks.take(marks.len() as int) =~= marks);
    assert(seq_sum(marks) == backing(book.stakes, w));
    assert(backing(book.stakes, w) <= total);
    assert(seq_sum(marks) * pool <= total * pool) by (nonlinear_arith)
        requires
            seq_sum(marks) <= total,
    ;
    assert(0 <= seq_sum(marks) * pool) by (nonlinear_arith);
    vstd::arithmetic::div_mod::lemma_div_is_ordered(
        (seq_sum(marks) * pool) as int,
        (total * pool) as int,
        total as int,
    );
    vstd::arithmetic::div_mod::lemma_div_multiples_vanish(pool as int, total as int);
}

/// On a well-formed closed book nothing that is owed leaves the range of an
/// amount: every reward is a part of the prize pool, and the pool fits.
pub proof fn lemma_owed_fits(book: BookModel, who: Seq<char>, rate: u128)
    requires
        book.wf(),
        book.stake_of(who) is Some,
        rate <= BASIS_POINTS,
    ensures
        book.owed(who, book.stake_of(who).unwrap(), rate) <= u128::MAX,
        book.bounty.winning_submission is Some ==> total_prize(book.bounty) <= u128::MAX
            && backer_pool(book.bounty, rate) <= u128::MAX && creator_reward(book.bounty, rate)
            <= u128::MAX,
        book.bounty.winning_submission matches Some(w) ==> book.stake_of(
            who,
        ).unwrap().submission_index == w ==> book.stake_of(who).unwrap().amount@
            <= book.bounty.submissions[w as int].total_staked && backer_reward(
            book.bounty,
            rate,
            book.stake_of(who).unwrap().amount@,
            w as int,
        ) <= u128::MAX,
{
    let k = book.stake_position(who).unwrap();
    let stake = book.stakes[k].stake;
    if let Some(w) = book.bounty.winning_submission {
        let pool = total_prize(book.bounty);
        lemma_part_within_whole(pool, rate as nat, BASIS_POINTS as nat);
        let rest = prize_after_fee(book.bounty, rate);
        lemma_part_within_whole(rest, book.bounty.creator_share as nat, PERCENT as nat);
        lemma_part_within_whole(rest, book.bounty.backer_share as nat, PERCENT as nat);
        let backers = backer_pool(book.bounty, rate);
        let winning_total = book.bounty.submissions[w as int].total_staked;
        if stake.submission_index == w {
            lemma_stake_within_totals(book, k);
            lemma_part_within_whole(backers, stake.amount@, winning_total);
            assert(stake.amount@ * backers == backers * stake.amount@) by (nonlinear_arith);
        }
    }
}

impl BountyPredictionContract {
    /// Pays out what `claimer` is owed on a closed bounty, while the market's
    /// balance is `account_balance`. The claimer's stake record is deleted
    /// with the claim, so a second claim finds no stake. A claim that the
    /// balance cannot cover is rejected and leaves the record in place, to be
    /// tried again later.
    pub fn claim_bounty_winnings(
        &mut self,
        claimer: &AccountId,
        bounty_id: u64,
        account_balance: SafeAmount,
    ) -> (r: Result<SafeAmount, MarketError>)
        requires
            old(self).wf(),
        ensures
            final(self).wf(),
            match r {
                Ok(payout) => {
                    &&& old(self)@.claim_outcome(claimer@, bounty_id, account_balance@) == Ok::<
                        nat,
                        MarketError,
                    >(payout@)
                    &&& final(self)@ == old(self)@.after_claim(claimer@, bounty_id)
                },
                Err(e) => {
                    &&& old(self)@.claim_outcome(claimer@, bounty_id, account_balance@) == Err::<
                        nat,
                        MarketError,
                    >(e)
                    &&& *final(self) == *old(self)
                },
            },
    {
        let idx = match self.book_index(bounty_id) {
            Some(idx) => idx,
            None => {
                return Err(MarketError::BountyNotFound);
            },
        };
        let ghost book = old(self)@.book(bounty_id);
        assert(book == self.books@[idx as int]@);
        assert(book.wf());
        if !self.books[idx].bounty.is_closed {
            return Err(MarketError::BountyNotClosed);
        }
        let k = match self.books[idx].find_stake(claimer) {
            Some(k) => k,
            None => {
                return Err(MarketError::NoStakeFound);
            },
        };
        let stake = self.books[idx].stakes[k].stake;
        assert(book.stakes[k as int].stake == stake);
        proof {
            lemma_owed_fits(book, claimer@, self.platform_fee_rate);
            lemma_claimed_wf(book, claimer@);
        }
        let payout = match self.books[idx].bounty.winning_submission {
            Some(w) => {
                assert(self.books[idx as int].bounty.submissions[w as int]@
                    == book.bounty.submissions[w as int]);
                let owed = if self.books[idx].bounty.submissions[w as usize].creator.is(claimer) {
                    self.calculate_creator_reward(&self.books[idx].bounty)
                } else if stake.submission_index == w {
                    self.calculate_backer_reward(&self.books[idx].bounty, stake.amount, w)
                } else {
                    Ok(SafeAmount::from_yoctonear(0))
                };
                let owed = match owed {
                    Ok(owed) => owed,
                    Err(e) => {
                        assert(false);
                        return Err(e);
                    },
                };
                if !owed.is_zero() {
                    let needed = owed.checked_add(SafeAmount::from_yoctonear(CLAIM_RESERVE));
                    let covered = match needed {
                        Ok(needed) => account_balance.as_yoctonear() > needed.as_yoctonear(),
                        Err(_) => false,
                    };
                    if !covered {
                        return Err(MarketError::InsufficientBalance);
                    }
                }
                owed
            },
            None => stake.amount,
        };
        self.books[idx].stakes.remove(k);
        proof {
            let now_book = self.books@[idx as int]@;
            assert(now_book.bounty.submissions =~= book.bounty.submissions);
            assert(now_book.stakes =~= book.stakes.remove(k as int));
            assert(now_book.participants =~= book.participants);
            assert(now_book == book.claimed(claimer@));
            assert(self@.books =~= old(self)@.books.update(idx as int, book.claimed(claimer@)));
        }
        Ok(payout)
    }
}

} // verus!
