//! Closing a bounty: fixing the winner and the rewards.

use crate::account::AccountId;
use crate::amount::{ArithmeticError, SafeAmount};
use crate::market::bounty::{backing, stake_totals, BookModel, BountyModel, SubmissionModel};
use crate::error::MarketError;
use crate::market::{BountyPredictionContract, MarketModel};
use crate::market::settlement::{
    creator_reward, is_winner, lemma_part_within_whole, platform_fee, prize_after_fee, total_prize,
    winning_submission, PERCENT,
};
use crate::sums::lemma_sum_zero;
use vstd::prelude::*;

verus! {

/// How long after the deadline only the bounty's creator may close it:
/// seven days on the host's clock. After that anyone may, so that the funds
/// cannot be stuck.
pub const CLOSE_GRACE_PERIOD_NS: u64 = 604_800_000_000_000;

/// What closing a bounty obliges the host to pay at once. Backers are not
/// paid here: each claims for themselves.
#[derive(Debug, PartialEq, Eq)]
pub struct Settlement {
    /// The platform's account: the owner of the market.
    pub platform_account: AccountId,
    /// The winning submission, if the bounty has a winner.
    pub winning_submission: Option<u64>,
    /// The creator of the winning submission, if the bounty has a winner.
    pub winning_creator: Option<AccountId>,
    /// What goes to the platform's account.
    pub platform_fee: SafeAmount,
    /// What goes to the winning creator.
    pub creator_reward: SafeAmount,
}

/// What a settlement is, mathematically.
pub struct SettlementModel {
    pub platform_account: Seq<char>,
    pub winning_submission: Option<u64>,
    pub winning_creator: Option<Seq<char>>,
    pub platform_fee: nat,
    pub creator_reward: nat,
}

impl View for Settlement {
    type V = SettlementModel;

    open spec fn view(&self) -> SettlementModel {
        SettlementModel {
            platform_account: self.platform_account@,
            winning_submission: self.winning_submission,
            winning_creator: match self.winning_creator {
                Some(a) => Some(a@),
                None => None,
            },
            platform_fee: self.platform_fee@,
            creator_reward: self.creator_reward@,
        }
    }
}

impl BookModel {
    /// Whether closing the bounty names a winner: some stake was placed, and
    /// more than one participant was admitted.
    pub open spec fn has_contest(self) -> bool {
        self.bounty.total_staked > 0 && self.participants.len() > 1
    }

    /// The winner that closing the bounty names.
    pub open spec fn winner_at_close(self) -> Option<u64> {
        if self.has_contest() {
            winning_submission(self.bounty.submissions)
        } else {
            None
        }
    }

    /// The book once the bounty is closed.
    pub open spec fn closed(self) -> BookModel {
        BookModel {
            bounty: BountyModel {
                is_closed: true,
                is_active: false,
                winning_submission: self.winner_at_close(),
                ..self.bounty
            },
            ..self
        }
    }

    /// What closing the bounty pays out at once, at a platform fee of `rate`
    /// basis points that goes to `platform_account`. Without a contest
    /// nothing is paid and no fee is charged.
    pub open spec fn settlement(self, platform_account: Seq<char>, rate: u128) -> SettlementModel {
        match self.winner_at_close() {
            Some(w) => SettlementModel {
                platform_account,
                winning_submission: Some(w),
                winning_creator: Some(self.bounty.submissions[w as int].creator),
                platform_fee: platform_fee(total_prize(self.bounty), rate),
                creator_reward: creator_reward(self.bounty, rate),
            },
            None => SettlementModel {
                platform_account,
                winning_submission: None,
                winning_creator: None,
                platform_fee: 0,
                creator_reward: 0,
            },
        }
    }
}

impl MarketModel {
    /// Why a request to close a bounty is rejected; `None` where it is
    /// accepted.
    pub open spec fn closing_error(self, caller: Seq<char>, now: u64, bounty_id: u64) -> Option<
        MarketError,
    > {
        if !self.has_bounty(bounty_id) {
            Some(MarketError::BountyNotFound)
        } else if caller != self.book(bounty_id).bounty.creator && now < self.book(
            bounty_id,
        ).bounty.ends_at + CLOSE_GRACE_PERIOD_NS {
            Some(MarketError::NotAuthorizedToClose)
        } else if !self.book(bounty_id).bounty.is_active {
            Some(MarketError::BountyNotActive)
        } else if now < self.book(bounty_id).bounty.ends_at {
            Some(MarketError::BountyNotExpired)
        } else if self.book(bounty_id).has_contest() && total_prize(self.book(bounty_id).bounty)
            > u128::MAX {
            Some(MarketError::Arithmetic(ArithmeticError::Overflow))
        } else {
            None
        }
    }

    /// The market once the bounty with this id is closed.
    pub open spec fn after_close(self, bounty_id: u64) -> MarketModel
        recommends
            self.has_bounty(bounty_id),
    {
        self.with_book(bounty_id, self.book(bounty_id).closed())
    }
}

/// A bounty on which stake was placed has a winner.
pub proof fn lemma_staked_bounty_has_winner(b: BountyModel)
    requires
        b.wf(),
        b.total_staked > 0,
    ensures
        winning_submission(b.submissions) matches Some(w) && is_winner(b.submissions, w as int),
{
    let subs = b.submissions;
    lemma_sum_zero(stake_totals(subs));
    let first = choose|i: int| 0 <= i < subs.len() && stake_totals(subs)[i] != 0;
    let n = subs.len() as int;
    lemma_some_maximum(subs, n);
    let top = choose|w: int| is_top(subs, n, w);
    assert(subs[first].total_staked <= subs[top].total_staked);
    assert(is_winner(subs, top));
}

/// Among the first `n` submissions, `w` carries the most stake, and is the
/// first to carry that much.
pub open spec fn is_top(subs: Seq<SubmissionModel>, n: int, w: int) -> bool {
    &&& 0 <= w < n
    &&& forall|j: int| 0 <= j < n ==> (#[trigger] subs[j]).total_staked <= subs[w].total_staked
    &&& forall|j: int| 0 <= j < w ==> (#[trigger] subs[j]).total_staked < subs[w].total_staked
}

/// Any non-empty run of submissions has a first maximum.
proof fn lemma_some_maximum(subs: Seq<SubmissionModel>, n: int)
    requires
        0 < n <= subs.len(),
    ensures
        exists|w: int| is_top(subs, n, w),
    decreases n,
{
    if n == 1 {
        assert(is_top(subs, n, 0));
    } else {
        let shorter = n - 1;
        lemma_some_maximum(subs, shorter);
        let w = choose|w: int| is_top(subs, shorter, w);
        if subs[shorter].total_staked > subs[w].total_staked {
            assert(is_top(subs, n, shorter));
        } else {
            assert(is_top(subs, n, w));
        }
    }
}

/// Closing keeps a well-formed book well formed, provided the prize pool of
/// a contested bounty fits in an amount.
pub proof fn lemma_closed_wf(book: BookModel)
    requires
        book.wf(),
        !book.bounty.is_closed,
        book.has_contest() ==> total_prize(book.bounty) <= u128::MAX,
    ensures
        book.closed().wf(),
{
    if book.has_contest() {
        lemma_staked_bounty_has_winner(book.bounty);
    }
    let after = book.closed();
    assert forall|j: int| 0 <= j < after.bounty.submissions.len() implies #[trigger] backing(
        after.stakes,
        j,
    ) <= after.bounty.submissions[j].total_staked by {
        assert(backing(book.stakes, j) == book.bounty.submissions[j].total_staked);
    }
}

impl BountyPredictionContract {
    /// Closes a bounty at time `now` on behalf of `caller`. The bounty's
    /// creator may close it from the deadline on, anyone else once the grace
    /// period after the deadline is over. A bounty without stake, or with a
    /// single participant, closes without winner and without fee. Otherwise
    /// the most-staked submission wins, and the platform fee and the
    /// creator's reward fall due at once.
    pub fn close_bounty(&mut self, caller: &AccountId, now: u64, bounty_id: u64) -> (r: Result<
        Settlement,
        MarketError,
    >)
        requires
            old(self).wf(),
        ensures
            final(self).wf(),
            match r {
                Ok(settlement) => {
                    &&& old(self)@.closing_error(caller@, now, bounty_id) is None
                    &&& final(self)@ == old(self)@.after_close(bounty_id)
                    &&& settlement@ == old(self)@.book(bounty_id).settlement(
                        old(self)@.owner(),
                        old(self)@.platform_fee_rate,
                    )
                },
                Err(e) => {
                    &&& old(self)@.closing_error(caller@, now, bounty_id) == Some(e)
                    &&& *final(self) == *old(self)
                },
            },
    {
        let idx = match self.book_index(bounty_id) {
            Some(idx) => idx,
            None => {
                return Err(MarketError::BountyNotFound);
            },
        };
        let ghost book = old(self)@.book(bounty_id);
        assert(book == self.books@[idx as int]@);
        assert(book.wf());
        let is_creator = self.books[idx].bounty.creator.is(caller);
        let is_past_grace_period = now as u128 >= self.books[idx].bounty.ends_at as u128
            + CLOSE_GRACE_PERIOD_NS as u128;
        if !is_creator && !is_past_grace_period {
            return Err(MarketError::NotAuthorizedToClose);
        }
        if !self.books[idx].bounty.is_active {
            return Err(MarketError::BountyNotActive);
        }
        if now < self.books[idx].bounty.ends_at {
            return Err(MarketError::BountyNotExpired);
        }
        let contested = !self.books[idx].bounty.total_staked.is_zero()
            && self.books[idx].participants.len() > 1;
        assert(contested == book.has_contest());
        let mut settlement = Settlement {
            platform_account: self.staking.owner.clone(),
            winning_submission: None,
            winning_creator: None,
            platform_fee: SafeAmount::from_yoctonear(0),
            creator_reward: SafeAmount::from_yoctonear(0),
        };
        if contested {
            let total = match self.books[idx].bounty.base_prize.checked_add(
                self.books[idx].bounty.total_staked,
            ) {
                Ok(total) => total,
                Err(e) => {
                    return Err(MarketError::Arithmetic(e));
                },
            };
            proof {
                lemma_staked_bounty_has_winner(book.bounty);
                lemma_part_within_whole(
                    prize_after_fee(book.bounty, self.platform_fee_rate),
                    book.bounty.creator_share as nat,
                    PERCENT as nat,
                );
            }
            let winner = self.determine_winning_submission(&self.books[idx].bounty);
            let fee = self.calculate_platform_fee(total);
            let reward = self.calculate_creator_reward(&self.books[idx].bounty);
            match (winner, reward) {
                (Some(w), Ok(reward)) => {
                    assert(self.books[idx as int].bounty.submissions[w as int]@
                        == book.bounty.submissions[w as int]);
                    settlement =
                    Settlement {
                        platform_account: self.staking.owner.clone(),
                        winning_submission: Some(w),
                        winning_creator: Some(
                            self.books[idx].bounty.submissions[w as usize].creator.clone(),
                        ),
                        platform_fee: fee,
                        creator_reward: reward,
                    };
                },
                _ => {
                    assert(false);
                },
            }
        }
        proof {
            lemma_closed_wf(book);
        }
        self.books[idx].bounty.winning_submission = settlement.winning_submission;
        self.books[idx].bounty.is_closed = true;
        self.books[idx].bounty.is_active = false;
        proof {
            let now_book = self.books@[idx as int]@;
            assert(now_book.bounty.submissions =~= book.bounty.submissions);
            assert(now_book.stakes =~= book.stakes);
            assert(now_book.participants =~= book.participants);
            assert(now_book == book.closed());
            assert(self@.books =~= old(self)@.books.update(idx as int, book.closed()));
        }
        Ok(settlement)
    }
}

} // verus!
