//! Checking a ledger that comes from outside, such as one read back from
//! storage, before it is used.

use crate::account::distinct_accounts;
use crate::market::bounty::{
    backing, backing_amounts, stake_amounts, stake_totals, staked_sum, stakers_of, BountyBook,
    MAX_BOUNTY_STAKE, MAX_CREATOR_SHARE, MAX_PARTICIPANTS_PER_BOUNTY, MAX_SUBMISSIONS,
    MIN_BASE_PRIZE, MIN_BOUNTY_STAKE, MIN_CREATOR_SHARE,
};
use crate::classifier::classify_sessions;
use crate::curation::interaction_sessions;
use crate::deposits::token_ids;
use crate::market::settlement::{is_winner, lemma_winner_unique, most_staked};
use crate::market::{
    BountyPredictionContract, MAX_PLATFORM_FEE_RATE, MAX_REWARD_RATE, MAX_STAKE_LIMIT_NEAR,
    MIN_REWARD_RATE,
};
use crate::staking::{staker_accounts, staker_amounts, StakingContract};
use crate::sums::{lemma_sum_prefix_le, lemma_sum_take_step, seq_sum};
use crate::deposits::treasury::DepositContract;
use crate::voting::{
    ballot_marks, tally, voters_of, PollBook, VotingContract, MAX_FEE_BPS, MAX_OPTIONS_PER_POLL,
    MAX_REWARD_YOCTO, MAX_VOTERS_PER_POLL,
};
use crate::zkp::{proof_ids, ZKPVerifierContract};
use vstd::prelude::*;

verus! {

impl StakingContract {
    /// Whether the ledger is well formed: an account holds one stake at
    /// most, and the stakes make up the total.
    pub fn is_consistent(&self) -> (r: bool)
        ensures
            r == self.wf(),
    {
        let ghost accounts = staker_accounts(self@.stakes);
        let ghost amounts = staker_amounts(self@.stakes);
        let mut sum: u128 = 0;
        let mut i: usize = 0;
        assert(amounts.take(0) =~= Seq::empty());
        while i < self.stakes.len()
            invariant
                i <= self.stakes.len(),
                accounts == staker_accounts(self@.stakes),
                amounts == staker_amounts(self@.stakes),
                amounts.len() == self.stakes.len(),
                sum == seq_sum(amounts.take(i as int)),
                forall|a: int, b: int| 0 <= a < b < i ==> accounts[a] != accounts[b],
            decreases self.stakes.len() - i,
        {
            let mut j: usize = 0;
            while j < i
                invariant
                    j <= i,
                    i < self.stakes.len(),
                    accounts == staker_accounts(self@.stakes),
                    forall|a: int| 0 <= a < j ==> accounts[a] != accounts[i as int],
                decreases i - j,
            {
                assert(accounts[j as int] == self.stakes@[j as int].account@);
                assert(accounts[i as int] == self.stakes@[i as int].account@);
                if self.stakes[j].account.is(&self.stakes[i].account) {
                    return false;
                }
                j = j + 1;
            }
            proof {
                lemma_sum_take_step(amounts, i as int);
                assert(amounts[i as int] == self.stakes@[i as int].info.amount@);
            }
            sum = match sum.checked_add(self.stakes[i].info.amount.as_yoctonear()) {
                Some(next) => next,
                None => {
                    proof {
                        lemma_sum_prefix_le(amounts, i as int + 1);
                    }
                    return false;
                },
            };
            i = i + 1;
        }
        assert(amounts.take(amounts.len() as int) =~= amounts);
        assert forall|a: int, b: int| 0 <= a < accounts.len() && 0 <= b < accounts.len() && a
            != b implies accounts[a] != accounts[b] by {
            if a < b {
            } else {
                assert(accounts[b] != accounts[a]);
            }
        }
        sum == self.total_staked.as_yoctonear()
    }
}

impl BountyBook {
    /// Whether the submissions are in order: within their number, each by
    /// another creator and of other content, their totals adding up to the
    /// total of the bounty.
    fn submissions_consistent(&self) -> (r: bool)
        ensures
            r == (self@.bounty.submissions.len() <= MAX_SUBMISSIONS
                && self@.bounty.submissions_distinct() && staked_sum(
                self@.bounty.submissions,
            ) == self@.bounty.total_staked),
    {
        let ghost subs = self@.bounty.submissions;
        let ghost totals = stake_totals(subs);
        if self.bounty.submissions.len() > MAX_SUBMISSIONS {
            return false;
        }
        let mut sum: u128 = 0;
        let mut i: usize = 0;
        assert(totals.take(0) =~= Seq::empty());
        while i < self.bounty.submissions.len()
            invariant
                i <= self.bounty.submissions.len(),
                subs == self@.bounty.submissions,
                subs.len() == self.bounty.submissions.len(),
                totals == stake_totals(subs),
                sum == seq_sum(totals.take(i as int)),
                forall|a: int, b: int|
                    0 <= a < b < i ==> (#[trigger] subs[a]).creator != (#[trigger] subs[b]).creator
                        && subs[a].creation_id != subs[b].creation_id,
            decreases self.bounty.submissions.len() - i,
        {
            let mut j: usize = 0;
            while j < i
                invariant
                    j <= i,
                    i < self.bounty.submissions.len(),
                    subs == self@.bounty.submissions,
                    subs.len() == self.bounty.submissions.len(),
                    forall|a: int|
                        0 <= a < j ==> (#[trigger] subs[a]).creator != subs[i as int].creator
                            && subs[a].creation_id != subs[i as int].creation_id,
                decreases i - j,
            {
                assert(subs[j as int] == self.bounty.submissions@[j as int]@);
                assert(subs[i as int] == self.bounty.submissions@[i as int]@);
                if self.bounty.submissions[j].creator.is(&self.bounty.submissions[i].creator) {
                    return false;
                }
                if self.bounty.submissions[j].creation_id == self.bounty.submissions[i].creation_id {
                    return false;
                }
                j = j + 1;
            }
            proof {
                lemma_sum_take_step(totals, i as int);
                assert(subs[i as int] == self.bounty.submissions@[i as int]@);
            }
            sum = match sum.checked_add(self.bounty.submissions[i].total_staked.as_yoctonear()) {
                Some(next) => next,
                None => {
                    proof {
                        lemma_sum_prefix_le(totals, i as int + 1);
                    }
                    return false;
                },
            };
            i = i + 1;
        }
        assert(totals.take(totals.len() as int) =~= totals);
        sum == self.bounty.total_staked.as_yoctonear()
    }

    /// Whether the stakes are in order: one per staker at most, each on a
    /// submission of this bounty and within the stake limit, and, while the
    /// bounty is open, the stakers being the participants and their stakes
    /// making up the total.
    fn stakes_consistent(&self) -> (r: bool)
        requires
            self.participants.len() <= MAX_PARTICIPANTS_PER_BOUNTY,
            self.bounty.max_stake_per_user@ <= MAX_BOUNTY_STAKE,
        ensures
            r == {
                &&& stakers_of(self@.stakes).no_duplicates()
                &&& self@.stakes.len() <= self@.participants.len()
                &&& (!self@.bounty.is_closed ==> stakers_of(self@.stakes) == self@.participants)
                &&& (!self@.bounty.is_closed ==> seq_sum(stake_amounts(self@.stakes))
                    == self@.bounty.total_staked)
                &&& forall|i: int|
                    0 <= i < self@.stakes.len() ==> {
                        &&& (#[trigger] self@.stakes[i]).stake.bounty_id == self@.bounty.id
                        &&& self@.stakes[i].stake.submission_index < self@.bounty.submissions.len()
                        &&& 0 < self@.stakes[i].stake.amount@ <= self@.bounty.max_stake_per_user
                    }
            },
    {
        let ghost stakes = self@.stakes;
        let ghost stakers = stakers_of(stakes);
        let ghost amounts = stake_amounts(stakes);
        let open = !self.bounty.is_closed;
        if self.stakes.len() > self.participants.len() {
            return false;
        }
        if open && self.stakes.len() != self.participants.len() {
            return false;
        }
        let mut sum: u128 = 0;
        let mut i: usize = 0;
        assert(amounts.take(0) =~= Seq::empty());
        while i < self.stakes.len()
            invariant
                i <= self.stakes.len(),
                self.stakes.len() <= self.participants.len() <= MAX_PARTICIPANTS_PER_BOUNTY,
                self.bounty.max_stake_per_user@ <= MAX_BOUNTY_STAKE,
                open == !self.bounty.is_closed,
                stakes == self@.stakes,
                stakes.len() == self.stakes.len(),
                stakers == stakers_of(stakes),
                amounts == stake_amounts(stakes),
                sum == seq_sum(amounts.take(i as int)),
                sum <= i * MAX_BOUNTY_STAKE,
                forall|a: int, b: int| 0 <= a < b < i ==> stakers[a] != stakers[b],
                open ==> forall|a: int| 0 <= a < i ==> stakers[a] == self@.participants[a],
                forall|a: int|
                    0 <= a < i ==> {
                        &&& (#[trigger] stakes[a]).stake.bounty_id == self@.bounty.id
                        &&& stakes[a].stake.submission_index < self@.bounty.submissions.len()
                        &&& 0 < stakes[a].stake.amount@ <= self@.bounty.max_stake_per_user
                    },
            decreases self.stakes.len() - i,
        {
            assert(stakes[i as int] == self.stakes@[i as int]@);
            let entry = &self.stakes[i];
            if entry.stake.bounty_id != self.bounty.id {
                return false;
            }
            if entry.stake.submission_index >= self.bounty.submissions.len() as u64 {
                return false;
            }
            if entry.stake.amount.is_zero() || entry.stake.amount.as_yoctonear()
                > self.bounty.max_stake_per_user.as_yoctonear() {
                return false;
            }
            if open {
                assert(self@.participants[i as int] == self.participants@[i as int]@);
                if !entry.staker.is(&self.participants[i]) {
                    assert(stakers[i as int] != self@.participants[i as int]);
                    return false;
                }
            }
            let mut j: usize = 0;
            while j < i
                invariant
                    j <= i,
                    i < self.stakes.len(),
                    stakes == self@.stakes,
                    stakers == stakers_of(stakes),
                    forall|a: int| 0 <= a < j ==> stakers[a] != stakers[i as int],
                decreases i - j,
            {
                assert(stakers[j as int] == self.stakes@[j as int].staker@);
                assert(stakers[i as int] == self.stakes@[i as int].staker@);
                if self.stakes[j].staker.is(&self.stakes[i].staker) {
                    return false;
                }
                j = j + 1;
            }
            proof {
                lemma_sum_take_step(amounts, i as int);
                assert(amounts[i as int] == stakes[i as int].stake.amount@);
                assert((i + 1) * MAX_BOUNTY_STAKE == i * MAX_BOUNTY_STAKE + MAX_BOUNTY_STAKE)
                    by (nonlinear_arith);
                assert(i * MAX_BOUNTY_STAKE <= 150 * MAX_BOUNTY_STAKE) by (nonlinear_arith)
                    requires
                        i <= 150,
                ;
            }
            sum = sum + entry.stake.amount.as_yoctonear();
            i = i + 1;
        }
        proof {
            assert(amounts.take(amounts.len() as int) =~= amounts);
            assert forall|a: int, b: int| 0 <= a < stakers.len() && 0 <= b < stakers.len() && a
                != b implies stakers[a] != stakers[b] by {
                if a < b {
                } else {
                    assert(stakers[b] != stakers[a]);
                }
            }
            if open {
                assert(stakers =~= self@.participants);
            }
        }
        !open || sum == self.bounty.total_staked.as_yoctonear()
    }

    /// Whether every submission's total covers what the live stakes put on
    /// it, and is exactly that while the bounty is open.
    fn backing_consistent(&self) -> (r: bool)
        requires
            self.stakes.len() <= MAX_PARTICIPANTS_PER_BOUNTY,
            forall|i: int|
                0 <= i < self@.stakes.len() ==> (#[trigger] self@.stakes[i]).stake.amount@
                    <= MAX_BOUNTY_STAKE,
        ensures
            r == {
                &&& forall|j: int|
                    0 <= j < self@.bounty.submissions.len() ==> #[trigger] backing(
                        self@.stakes,
                        j,
                    ) <= self@.bounty.submissions[j].total_staked
                &&& (!self@.bounty.is_closed ==> forall|j: int|
                    0 <= j < self@.bounty.submissions.len() ==> #[trigger] backing(
                        self@.stakes,
                        j,
                    ) == self@.bounty.submissions[j].total_staked)
            },
    {
        let ghost stakes = self@.stakes;
        let ghost subs = self@.bounty.submissions;
        let open = !self.bounty.is_closed;
        let mut j: usize = 0;
        while j < self.bounty.submissions.len()
            invariant
                j <= self.bounty.submissions.len(),
                self.stakes.len() <= MAX_PARTICIPANTS_PER_BOUNTY,
                open == !self.bounty.is_closed,
                stakes == self@.stakes,
                stakes.len() == self.stakes.len(),
                subs == self@.bounty.submissions,
                subs.len() == self.bounty.submissions.len(),
                forall|i: int|
                    0 <= i < stakes.len() ==> (#[trigger] stakes[i]).stake.amount@
                        <= MAX_BOUNTY_STAKE,
                forall|k: int| 0 <= k < j ==> #[trigger] backing(stakes, k) <= subs[k].total_staked,
                open ==> forall|k: int|
                    0 <= k < j ==> #[trigger] backing(stakes, k) == subs[k].total_staked,
            decreases self.bounty.submissions.len() - j,
        {
            let ghost marks = backing_amounts(stakes, j as int);
            let mut put: u128 = 0;
            let mut i: usize = 0;
            assert(marks.take(0) =~= Seq::empty());
            while i < self.stakes.len()
                invariant
                    i <= self.stakes.len(),
                    self.stakes.len() <= MAX_PARTICIPANTS_PER_BOUNTY,
                    stakes == self@.stakes,
                    stakes.len() == self.stakes.len(),
                    marks == backing_amounts(stakes, j as int),
                    put == seq_sum(marks.take(i as int)),
                    put <= i * MAX_BOUNTY_STAKE,
                    forall|a: int|
                        0 <= a < stakes.len() ==> (#[trigger] stakes[a]).stake.amount@
                            <= MAX_BOUNTY_STAKE,
                decreases self.stakes.len() - i,
            {
                proof {
                    assert(stakes[i as int] == self.stakes@[i as int]@);
                    lemma_sum_take_step(marks, i as int);
                    assert((i + 1) * MAX_BOUNTY_STAKE == i * MAX_BOUNTY_STAKE + MAX_BOUNTY_STAKE)
                        by (nonlinear_arith);
                    assert(i * MAX_BOUNTY_STAKE <= 150 * MAX_BOUNTY_STAKE) by (nonlinear_arith)
                        requires
                            i <= 150,
                    ;
                }
                if self.stakes[i].stake.submission_index == j as u64 {
                    put = put + self.stakes[i].stake.amount.as_yoctonear();
                }
                i = i + 1;
            }
            assert(marks.take(marks.len() as int) =~= marks);
            assert(subs[j as int] == self.bounty.submissions@[j as int]@);
            let total = self.bounty.submissions[j].total_staked.as_yoctonear();
            if put > total || (open && put != total) {
                assert(backing(stakes, j as int) == put);
                return false;
            }
            j = j + 1;
        }
        true
    }

    /// Whether the book is well formed, and its bounty has the id
    /// `expected_id`.
    pub fn is_consistent(&self, expected_id: u64) -> (r: bool)
        ensures
            r == (self@.wf() && self@.bounty.id == expected_id),
    {
        let bounty = &self.bounty;
        if bounty.id != expected_id {
            return false;
        }
        if bounty.creator_share as u16 + bounty.backer_share as u16 != 100 {
            return false;
        }
        if bounty.creator_share < MIN_CREATOR_SHARE || bounty.creator_share > MAX_CREATOR_SHARE {
            return false;
        }
        if bounty.base_prize.as_yoctonear() < MIN_BASE_PRIZE {
            return false;
        }
        if bounty.max_stake_per_user.as_yoctonear() < MIN_BOUNTY_STAKE
            || bounty.max_stake_per_user.as_yoctonear() > MAX_BOUNTY_STAKE {
            return false;
        }
        if bounty.is_active == bounty.is_closed {
            return false;
        }
        if bounty.created_at > bounty.ends_at {
            return false;
        }
        if let Some(w) = bounty.winning_submission {
            if !bounty.is_closed || w >= bounty.submissions.len() as u64 {
                return false;
            }
            match most_staked(bounty) {
                Some(most) => {
                    if most != w {
                        proof {
                            if is_winner(self@.bounty.submissions, w as int) {
                                lemma_winner_unique(self@.bounty.submissions, w as int, most as int);
                            }
                        }
                        return false;
                    }
                },
                None => {
                    return false;
                },
            }
            if bounty.base_prize.checked_add(bounty.total_staked).is_err() {
                return false;
            }
        }
        if bounty.is_closed && bounty.winning_submission.is_none() && self.participants.len() > 1
            && !bounty.total_staked.is_zero() {
            return false;
        }
        if self.participants.len() > MAX_PARTICIPANTS_PER_BOUNTY {
            return false;
        }
        if !distinct_accounts(&self.participants) {
            return false;
        }
        if !self.submissions_consistent() {
            return false;
        }
        if !self.stakes_consistent() {
            return false;
        }
        self.backing_consistent()
    }
}

impl BountyPredictionContract {
    /// Whether the market is well formed: what every call on it takes for
    /// granted. A market that was made by `new` and changed by calls on it
    /// alone always is.
    pub fn is_consistent(&self) -> (r: bool)
        ensures
            r == self.wf(),
    {
        if self.platform_fee_rate > MAX_PLATFORM_FEE_RATE {
            return false;
        }
        if self.staking.reward_rate < MIN_REWARD_RATE || self.staking.reward_rate
            > MAX_REWARD_RATE {
            return false;
        }
        if self.staking.min_stake_amount.as_near() > MAX_STAKE_LIMIT_NEAR
            || self.staking.max_stake_amount.as_near() > MAX_STAKE_LIMIT_NEAR {
            return false;
        }
        if !self.staking.is_consistent() {
            return false;
        }
        if self.next_bounty_id == 0 || self.next_bounty_id - 1 != self.books.len() as u64 {
            return false;
        }
        let mut i: usize = 0;
        while i < self.books.len()
            invariant
                i <= self.books.len(),
                self.books.len() + 1 == self.next_bounty_id,
                forall|k: int|
                    0 <= k < i ==> (#[trigger] self@.books[k]).wf() && self@.books[k].bounty.id == k
                        + 1,
            decreases self.books.len() - i,
        {
            assert(self@.books[i as int] == self.books@[i as int]@);
            if !self.books[i].is_consistent(i as u64 + 1) {
                return false;
            }
            i = i + 1;
        }
        true
    }
}

impl PollBook {
    /// Whether the ballots are in order: one per voter at most, each for an
    /// option of this poll.
    fn ballots_consistent(&self) -> (r: bool)
        ensures
            r == (voters_of(self@.ballots).no_duplicates() && forall|i: int|
                0 <= i < self@.ballots.len() ==> (#[trigger] self@.ballots[i]).option_index
                    < self@.poll.options.len()),
    {
        let ghost ballots = self@.ballots;
        let ghost voters = voters_of(ballots);
        let mut i: usize = 0;
        while i < self.ballots.len()
            invariant
                i <= self.ballots.len(),
                ballots == self@.ballots,
                ballots.len() == self.ballots.len(),
                voters == voters_of(ballots),
                forall|a: int, b: int| 0 <= a < b < i ==> voters[a] != voters[b],
                forall|a: int|
                    0 <= a < i ==> (#[trigger] ballots[a]).option_index < self@.poll.options.len(),
            decreases self.ballots.len() - i,
        {
            assert(ballots[i as int] == self.ballots@[i as int]@);
            if self.ballots[i].option_index >= self.poll.options.len() as u64 {
                return false;
            }
            let mut j: usize = 0;
            while j < i
                invariant
                    j <= i,
                    i < self.ballots.len(),
                    ballots == self@.ballots,
                    voters == voters_of(ballots),
                    forall|a: int| 0 <= a < j ==> voters[a] != voters[i as int],
                decreases i - j,
            {
                assert(voters[j as int] == self.ballots@[j as int].voter@);
                assert(voters[i as int] == self.ballots@[i as int].voter@);
                if self.ballots[j].voter.is(&self.ballots[i].voter) {
                    return false;
                }
                j = j + 1;
            }
            i = i + 1;
        }
        assert forall|a: int, b: int| 0 <= a < voters.len() && 0 <= b < voters.len() && a
            != b implies voters[a] != voters[b] by {
            if a < b {
            } else {
                assert(voters[b] != voters[a]);
            }
        }
        true
    }

    /// Whether every count is the number of ballots for its option.
    fn counts_consistent(&self) -> (r: bool)
        requires
            self.poll.votes.len() == self.poll.options.len(),
            self.ballots.len() <= MAX_VOTERS_PER_POLL,
        ensures
            r == forall|j: int|
                0 <= j < self@.poll.votes.len() ==> self@.poll.votes[j] == #[trigger] tally(
                    self@.ballots,
                    j,
                ),
    {
        let ghost ballots = self@.ballots;
        let mut j: usize = 0;
        while j < self.poll.votes.len()
            invariant
                j <= self.poll.votes.len(),
                self.ballots.len() <= MAX_VOTERS_PER_POLL,
                ballots == self@.ballots,
                ballots.len() == self.ballots.len(),
                forall|k: int|
                    0 <= k < j ==> self@.poll.votes[k] == #[trigger] tally(ballots, k),
            decreases self.poll.votes.len() - j,
        {
            let ghost marks = ballot_marks(ballots, j as int);
            let mut count: u64 = 0;
            let mut i: usize = 0;
            assert(marks.take(0) =~= Seq::empty());
            while i < self.ballots.len()
                invariant
                    i <= self.ballots.len(),
                    self.ballots.len() <= MAX_VOTERS_PER_POLL,
                    ballots == self@.ballots,
                    ballots.len() == self.ballots.len(),
                    marks == ballot_marks(ballots, j as int),
                    count == seq_sum(marks.take(i as int)),
                    count <= i,
                decreases self.ballots.len() - i,
            {
                proof {
                    assert(ballots[i as int] == self.ballots@[i as int]@);
                    lemma_sum_take_step(marks, i as int);
                }
                if self.ballots[i].option_index == j as u64 {
                    count = count + 1;
                }
                i = i + 1;
            }
            assert(marks.take(marks.len() as int) =~= marks);
            if self.poll.votes[j] != count {
                assert(tally(ballots, j as int) == count);
                return false;
            }
            j = j + 1;
        }
        true
    }

    /// Whether the book is well formed, and its poll has the id
    /// `expected_id`.
    pub fn is_consistent(&self, expected_id: u64) -> (r: bool)
        ensures
            r == (self@.wf() && self@.poll.id == expected_id),
    {
        if self.poll.id != expected_id {
            return false;
        }
        if self.poll.options.len() < 2 || self.poll.options.len() > MAX_OPTIONS_PER_POLL {
            return false;
        }
        if self.poll.votes.len() != self.poll.options.len() {
            return false;
        }
        if self.poll.reward_yocto > MAX_REWARD_YOCTO {
            return false;
        }
        if self.poll.total_voters > MAX_VOTERS_PER_POLL || self.ballots.len() as u64
            != self.poll.total_voters {
            return false;
        }
        if !distinct_accounts(&self.whitelist) {
            return false;
        }
        if !self.ballots_consistent() {
            return false;
        }
        self.counts_consistent()
    }
}

impl VotingContract {
    /// Whether the polls are well formed: what every call on them takes for
    /// granted.
    pub fn is_consistent(&self) -> (r: bool)
        ensures
            r == self.wf(),
    {
        if self.platform_fee_bps > MAX_FEE_BPS {
            return false;
        }
        if self.next_poll_id == 0 || self.next_poll_id - 1 != self.books.len() as u64 {
            return false;
        }
        let mut i: usize = 0;
        while i < self.books.len()
            invariant
                i <= self.books.len(),
                self.books.len() + 1 == self.next_poll_id,
                forall|k: int|
                    0 <= k < i ==> (#[trigger] self@.books[k]).wf() && self@.books[k].poll.id == k
                        + 1,
            decreases self.books.len() - i,
        {
            assert(self@.books[i as int] == self.books@[i as int]@);
            if !self.books[i].is_consistent(i as u64 + 1) {
                return false;
            }
            i = i + 1;
        }
        true
    }
}

impl DepositContract {
    /// Whether the ledger is well formed: what every call on it takes for
    /// granted.
    pub fn is_consistent(&self) -> (r: bool)
        ensures
            r == self.wf(),
    {
        if self.deposits.len() as u64 != self.next_deposit_id {
            return false;
        }
        let mut i: usize = 0;
        while i < self.deposits.len()
            invariant
                i <= self.deposits.len(),
                forall|k: int| 0 <= k < i ==> (#[trigger] self@.deposits[k]).id == k,
            decreases self.deposits.len() - i,
        {
            assert(self@.deposits[i as int] == self.deposits@[i as int]@);
            if self.deposits[i].id != i as u64 {
                return false;
            }
            i = i + 1;
        }
        let ghost ids = token_ids(self@.tokens);
        let mut a: usize = 0;
        while a < self.token_configs.len()
            invariant
                a <= self.token_configs.len(),
                ids == token_ids(self@.tokens),
                ids.len() == self.token_configs.len(),
                forall|x: int, y: int| 0 <= x < y < a ==> ids[x] != ids[y],
            decreases self.token_configs.len() - a,
        {
            let mut b: usize = 0;
            while b < a
                invariant
                    b <= a,
                    a < self.token_configs.len(),
                    ids == token_ids(self@.tokens),
                    forall|x: int| 0 <= x < b ==> ids[x] != ids[a as int],
                decreases a - b,
            {
                assert(ids[b as int] == self.token_configs@[b as int].token_id@);
                assert(ids[a as int] == self.token_configs@[a as int].token_id@);
                if self.token_configs[b].token_id == self.token_configs[a].token_id {
                    return false;
                }
                b = b + 1;
            }
            a = a + 1;
        }
        assert forall|x: int, y: int| 0 <= x < ids.len() && 0 <= y < ids.len() && x
            != y implies ids[x] != ids[y] by {
            if x < y {
            } else {
                assert(ids[y] != ids[x]);
            }
        }
        true
    }
}

impl ZKPVerifierContract {
    /// Whether the registry is well formed: what every call on it takes for
    /// granted.
    pub fn is_consistent(&self) -> (r: bool)
        ensures
            r == self.wf(),
    {
        if !distinct_accounts(&self.authorized_verifiers) {
            return false;
        }
        let ghost ids = proof_ids(self@.proofs);
        let mut a: usize = 0;
        while a < self.proofs.len()
            invariant
                a <= self.proofs.len(),
                ids == proof_ids(self@.proofs),
                ids.len() == self.proofs.len(),
                forall|x: int, y: int| 0 <= x < y < a ==> ids[x] != ids[y],
                forall|x: int|
                    0 <= x < a ==> ((#[trigger] self@.proofs[x]).result matches Some(found)
                        ==> found.proof_id == self@.proofs[x].proof.proof_id),
            decreases self.proofs.len() - a,
        {
            assert(self@.proofs[a as int] == self.proofs@[a as int]@);
            if let Some(found) = &self.proofs[a].result {
                if found.proof_id != self.proofs[a].proof.proof_id {
                    return false;
                }
            }
            let mut b: usize = 0;
            while b < a
                invariant
                    b <= a,
                    a < self.proofs.len(),
                    ids == proof_ids(self@.proofs),
                    forall|x: int| 0 <= x < b ==> ids[x] != ids[a as int],
                decreases a - b,
            {
                assert(ids[b as int] == self.proofs@[b as int].proof.proof_id@);
                assert(ids[a as int] == self.proofs@[a as int].proof.proof_id@);
                if self.proofs[b].proof.proof_id == self.proofs[a].proof.proof_id {
                    return false;
                }
                b = b + 1;
            }
            a = a + 1;
        }
        assert forall|x: int, y: int| 0 <= x < ids.len() && 0 <= y < ids.len() && x
            != y implies ids[x] != ids[y] by {
            if x < y {
            } else {
                assert(ids[y] != ids[x]);
            }
        }
        true
    }
}

impl crate::classifier::Contract {
    /// Whether the records are well formed: one per session id.
    pub fn is_consistent(&self) -> (r: bool)
        ensures
            r == self.wf(),
    {
        let ghost ids = classify_sessions(self@.logs);
        let mut a: usize = 0;
        while a < self.logs.len()
            invariant
                a <= self.logs.len(),
                ids == classify_sessions(self@.logs),
                ids.len() == self.logs.len(),
                forall|x: int, y: int| 0 <= x < y < a ==> ids[x] != ids[y],
            decreases self.logs.len() - a,
        {
            let mut b: usize = 0;
            while b < a
                invariant
                    b <= a,
                    a < self.logs.len(),
                    ids == classify_sessions(self@.logs),
                    forall|x: int| 0 <= x < b ==> ids[x] != ids[a as int],
                decreases a - b,
            {
                assert(ids[b as int] == self.logs@[b as int].session_id@);
                assert(ids[a as int] == self.logs@[a as int].session_id@);
                if self.logs[b].session_id == self.logs[a].session_id {
                    return false;
                }
                b = b + 1;
            }
            a = a + 1;
        }
        assert forall|x: int, y: int| 0 <= x < ids.len() && 0 <= y < ids.len() && x
            != y implies ids[x] != ids[y] by {
            if x < y {
            } else {
                assert(ids[y] != ids[x]);
            }
        }
        true
    }
}

impl crate::curation::Contract {
    /// Whether the records are well formed: one per session id.
    pub fn is_consistent(&self) -> (r: bool)
        ensures
            r == self.wf(),
    {
        let ghost ids = interaction_sessions(self@.logs);
        let mut a: usize = 0;
        while a < self.logs.len()
            invariant
                a <= self.logs.len(),
                ids == interaction_sessions(self@.logs),
                ids.len() == self.logs.len(),
                forall|x: int, y: int| 0 <= x < y < a ==> ids[x] != ids[y],
            decreases self.logs.len() - a,
        {
            let mut b: usize = 0;
            while b < a
                invariant
                    b <= a,
                    a < self.logs.len(),
                    ids == interaction_sessions(self@.logs),
                    forall|x: int| 0 <= x < b ==> ids[x] != ids[a as int],
                decreases a - b,
            {
                assert(ids[b as int] == self.logs@[b as int].session_id@);
                assert(ids[a as int] == self.logs@[a as int].session_id@);
                if self.logs[b].session_id == self.logs[a].session_id {
                    return false;
                }
                b = b + 1;
            }
            a = a + 1;
        }
        assert forall|x: int, y: int| 0 <= x < ids.len() && 0 <= y < ids.len() && x
            != y implies ids[x] != ids[y] by {
            if x < y {
            } else {
                assert(ids[y] != ids[x]);
            }
        }
        true
    }
}

} // verus!
