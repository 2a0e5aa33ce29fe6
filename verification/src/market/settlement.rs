//! Winner determination and the reward formulas.
//!
//! The prize pool is the sponsor's base prize and all community stakes. The
//! platform takes its fee off the pool; what is left is split between the
//! winning creator and the winning backers by the bounty's shares. Every
//! part is rounded down, and what rounding leaves over is paid to nobody:
//! it stays in the market's custody.

use crate::amount::{mul_div_floor, ArithmeticError, SafeAmount};
use crate::market::bounty::{Bounty, BountyModel, SubmissionModel};
use crate::error::MarketError;
use crate::market::BountyPredictionContract;
use vstd::arithmetic::div_mod::{lemma_div_is_ordered, lemma_div_multiples_vanish};
use vstd::prelude::*;

verus! {

/// One hundred percent, in basis points.
pub const BASIS_POINTS: u128 = 10_000;

/// One hundred percent.
pub const PERCENT: u128 = 100;

/// Submission `w` wins: it carries stake, none carries more, and none before
/// it carries as much.
pub open spec fn is_winner(subs: Seq<SubmissionModel>, w: int) -> bool {
    &&& 0 <= w < subs.len()
    &&& subs[w].total_staked > 0
    &&& forall|j: int| 0 <= j < subs.len() ==> (#[trigger] subs[j]).total_staked <= subs[w].total_staked
    &&& forall|j: int| 0 <= j < w ==> (#[trigger] subs[j]).total_staked < subs[w].total_staked
}

/// The index of the winning submission, or `None` where no submission
/// carries any stake.
pub open spec fn winning_submission(subs: Seq<SubmissionModel>) -> Option<u64> {
    if exists|w: int| is_winner(subs, w) {
        Some((choose|w: int| is_winner(subs, w)) as u64)
    } else {
        None
    }
}

/// At most one submission wins.
pub proof fn lemma_winner_unique(subs: Seq<SubmissionModel>, a: int, b: int)
    requires
        is_winner(subs, a),
        is_winner(subs, b),
    ensures
        a == b,
{
    if a < b {
        assert(subs[a].total_staked < subs[b].total_staked);
        assert(subs[b].total_staked <= subs[a].total_staked);
    } else if b < a {
        assert(subs[b].total_staked < subs[a].total_staked);
        assert(subs[a].total_staked <= subs[b].total_staked);
    }
}

/// The prize pool: the sponsor's base prize plus all community stakes.
pub open spec fn total_prize(b: BountyModel) -> nat {
    b.base_prize + b.total_staked
}

/// The platform's cut of `total` at `rate` basis points, rounded down.
pub open spec fn platform_fee(total: nat, rate: u128) -> nat {
    mul_div_floor(total, rate as nat, BASIS_POINTS as nat)
}

/// What is left of the prize pool once the platform fee is taken.
pub open spec fn prize_after_fee(b: BountyModel, rate: u128) -> nat {
    (total_prize(b) - platform_fee(total_prize(b), rate)) as nat
}

/// The winning creator's part of the prize, rounded down.
pub open spec fn creator_reward(b: BountyModel, rate: u128) -> nat {
    mul_div_floor(prize_after_fee(b, rate), b.creator_share as nat, PERCENT as nat)
}

/// The part of the prize that the winning backers share, rounded down.
pub open spec fn backer_pool(b: BountyModel, rate: u128) -> nat {
    mul_div_floor(prize_after_fee(b, rate), b.backer_share as nat, PERCENT as nat)
}

/// What a backer who staked `stake` on the winning submission `w` receives:
/// their proportion of the backer pool, rounded down.
pub open spec fn backer_reward(b: BountyModel, rate: u128, stake: nat, w: int) -> nat
    recommends
        0 <= w < b.submissions.len(),
{
    if b.submissions[w].total_staked == 0 {
        0
    } else {
        mul_div_floor(stake, backer_pool(b, rate), b.submissions[w].total_staked)
    }
}

/// A part of a whole never exceeds the whole: `floor(a * b / c) <= a`
/// whenever `b <= c`.
pub proof fn lemma_part_within_whole(a: nat, b: nat, c: nat)
    requires
        0 < c,
        b <= c,
    ensures
        mul_div_floor(a, b, c) <= a,
{
    assert(a * b <= a * c) by (nonlinear_arith)
        requires
            b <= c,
    ;
    assert(0 <= a * b) by (nonlinear_arith);
    lemma_div_is_ordered((a * b) as int, (a * c) as int, c as int);
    assert(a * c == c * a) by (nonlinear_arith);
    lemma_div_multiples_vanish(a as int, c as int);
    vstd::arithmetic::div_mod::lemma_div_pos_is_pos((a * b) as int, c as int);
}

/// The parts never add up to more than the pool: the platform fee, the
/// creator's reward and the backer pool together stay within the prize pool
/// whenever the shares add up to a hundred percent and the fee rate to no
/// more than the whole.
pub proof fn lemma_parts_within_pool(b: BountyModel, rate: u128)
    requires
        b.creator_share + b.backer_share == 100,
        rate <= BASIS_POINTS,
    ensures
        platform_fee(total_prize(b), rate) + creator_reward(b, rate) + backer_pool(b, rate)
            <= total_prize(b),
{
    let pool = total_prize(b);
    lemma_part_within_whole(pool, rate as nat, BASIS_POINTS as nat);
    let rest = prize_after_fee(b, rate);
    let c = b.creator_share as nat;
    let k = b.backer_share as nat;
    assert(rest * c + rest * k == rest * 100) by (nonlinear_arith)
        requires
            c + k == 100,
    ;
    assert(0 <= rest * c && 0 <= rest * k) by (nonlinear_arith);
    vstd::arithmetic::div_mod::lemma_fundamental_div_mod((rest * c) as int, 100);
    vstd::arithmetic::div_mod::lemma_fundamental_div_mod((rest * k) as int, 100);
    vstd::arithmetic::div_mod::lemma_mod_bound((rest * c) as int, 100);
    vstd::arithmetic::div_mod::lemma_mod_bound((rest * k) as int, 100);
    vstd::arithmetic::div_mod::lemma_div_pos_is_pos((rest * c) as int, 100);
    vstd::arithmetic::div_mod::lemma_div_pos_is_pos((rest * k) as int, 100);
    assert(100 * ((rest * c) / 100) + 100 * ((rest * k) / 100) <= rest * 100);
}

/// The submission of `bounty` that carries the strictly greatest stake, the
/// lowest index winning a tie; `None` where no submission carries stake.
pub fn most_staked(bounty: &Bounty) -> (r: Option<u64>)
    ensures
        r == winning_submission(bounty@.submissions),
        r matches Some(w) ==> is_winner(bounty@.submissions, w as int),
{
    let ghost subs = bounty@.submissions;
    let mut max_stake: u128 = 0;
    let mut winner: usize = 0;
    let mut has_stakes = false;
    let mut i: usize = 0;
    while i < bounty.submissions.len()
        invariant
            i <= bounty.submissions.len(),
            subs == bounty@.submissions,
            subs.len() == bounty.submissions.len(),
            has_stakes ==> winner < i && max_stake == subs[winner as int].total_staked
                && max_stake > 0,
            has_stakes ==> forall|j: int|
                0 <= j < i ==> (#[trigger] subs[j]).total_staked <= max_stake,
            has_stakes ==> forall|j: int|
                0 <= j < winner ==> (#[trigger] subs[j]).total_staked < max_stake,
            !has_stakes ==> max_stake == 0 && forall|j: int|
                0 <= j < i ==> (#[trigger] subs[j]).total_staked == 0,
        decreases bounty.submissions.len() - i,
    {
        let staked = bounty.submissions[i].total_staked.as_yoctonear();
        assert(staked == subs[i as int].total_staked);
        if staked > 0 {
            if staked > max_stake {
                max_stake = staked;
                winner = i;
            }
            has_stakes = true;
        }
        i = i + 1;
    }
    if has_stakes {
        proof {
            assert(is_winner(subs, winner as int));
            let chosen = choose|w: int| is_winner(subs, w);
            lemma_winner_unique(subs, chosen, winner as int);
        }
        Some(winner as u64)
    } else {
        None
    }
}

impl BountyPredictionContract {
    /// The submission that carries the strictly greatest stake, the lowest
    /// index winning a tie; `None` where no submission carries stake.
    pub fn determine_winning_submission(&self, bounty: &Bounty) -> (r: Option<u64>)
        ensures
            r == winning_submission(bounty@.submissions),
    {
        most_staked(bounty)
    }

    /// The platform's cut of `total_amount` at the market's fee rate.
    pub fn calculate_platform_fee(&self, total_amount: SafeAmount) -> (r: SafeAmount)
        requires
            self.wf(),
        ensures
            r@ == platform_fee(total_amount@, self.platform_fee_rate),
            r@ <= total_amount@,
    {
        proof {
            lemma_part_within_whole(
                total_amount@,
                self.platform_fee_rate as nat,
                BASIS_POINTS as nat,
            );
        }
        match total_amount.mul_div(self.platform_fee_rate, BASIS_POINTS) {
            Ok(fee) => fee,
            Err(_) => SafeAmount::from_yoctonear(0),
        }
    }

    /// What is left of the bounty's prize pool once the platform fee is
    /// taken, or `Overflow` where the pool itself does not fit.
    pub fn calculate_prize_after_fee(&self, bounty: &Bounty) -> (r: Result<SafeAmount, MarketError>)
        requires
            self.wf(),
        ensures
            total_prize(bounty@) > u128::MAX ==> r == Err::<SafeAmount, MarketError>(
                MarketError::Arithmetic(ArithmeticError::Overflow),
            ),
            total_prize(bounty@) <= u128::MAX ==> r is Ok && r->Ok_0@ == prize_after_fee(
                bounty@,
                self.platform_fee_rate,
            ),
    {
        let total = match bounty.base_prize.checked_add(bounty.total_staked) {
            Ok(t) => t,
            Err(e) => {
                return Err(MarketError::Arithmetic(e));
            },
        };
        let fee = self.calculate_platform_fee(total);
        match total.checked_sub(fee) {
            Ok(rest) => Ok(rest),
            Err(e) => Err(MarketError::Arithmetic(e)),
        }
    }

    /// The winning creator's part of the bounty's prize. Fails with
    /// `Overflow` where the prize pool, or the part itself, does not fit.
    pub fn calculate_creator_reward(&self, bounty: &Bounty) -> (r: Result<SafeAmount, MarketError>)
        requires
            self.wf(),
        ensures
            (total_prize(bounty@) > u128::MAX || creator_reward(bounty@, self.platform_fee_rate)
                > u128::MAX) ==> r == Err::<SafeAmount, MarketError>(
                MarketError::Arithmetic(ArithmeticError::Overflow),
            ),
            (total_prize(bounty@) <= u128::MAX && creator_reward(bounty@, self.platform_fee_rate)
                <= u128::MAX) ==> r is Ok && r->Ok_0@ == creator_reward(
                bounty@,
                self.platform_fee_rate,
            ),
    {
        let rest = self.calculate_prize_after_fee(bounty)?;
        match rest.mul_div(bounty.creator_share as u128, PERCENT) {
            Ok(reward) => Ok(reward),
            Err(e) => Err(MarketError::Arithmetic(e)),
        }
    }

    /// What a backer who staked `user_stake` on the winning submission
    /// receives. Fails with `Overflow` where the prize pool, the backer pool
    /// or the reward itself does not fit.
    pub fn calculate_backer_reward(
        &self,
        bounty: &Bounty,
        user_stake: SafeAmount,
        winning_submission: u64,
    ) -> (r: Result<SafeAmount, MarketError>)
        requires
            self.wf(),
            winning_submission < bounty.submissions.len(),
        ensures
            r == backer_reward_outcome(
                bounty@,
                self.platform_fee_rate,
                user_stake@,
                winning_submission as int,
            ),
    {
        let winning_total = bounty.submissions[winning_submission as usize].total_staked;
        assert(winning_total@ == bounty@.submissions[winning_submission as int].total_staked);
        if winning_total.is_zero() {
            return Ok(SafeAmount::from_yoctonear(0));
        }
        let rest = self.calculate_prize_after_fee(bounty)?;
        let pool = match rest.mul_div(bounty.backer_share as u128, PERCENT) {
            Ok(pool) => pool,
            Err(e) => {
                return Err(MarketError::Arithmetic(e));
            },
        };
        match user_stake.mul_div(pool.as_yoctonear(), winning_total.as_yoctonear()) {
            Ok(reward) => Ok(reward),
            Err(e) => Err(MarketError::Arithmetic(e)),
        }
    }
}

/// The result of computing a backer's reward: the reward where every step
/// fits in 128 bits, `Overflow` where one does not. A submission without
/// stake yields a reward of zero before anything else is computed.
pub open spec fn backer_reward_outcome(b: BountyModel, rate: u128, stake: nat, w: int) -> Result<
    SafeAmount,
    MarketError,
>
    recommends
        0 <= w < b.submissions.len(),
{
    if b.submissions[w].total_staked == 0 {
        Ok(SafeAmount { yocto: 0 })
    } else if total_prize(b) > u128::MAX || backer_pool(b, rate) > u128::MAX || backer_reward(
        b,
        rate,
        stake,
        w,
    ) > u128::MAX {
        Err(MarketError::Arithmetic(ArithmeticError::Overflow))
    } else {
        Ok(SafeAmount { yocto: backer_reward(b, rate, stake, w) as u128 })
    }
}

} // verus!
