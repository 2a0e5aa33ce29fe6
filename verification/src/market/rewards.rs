//! The market's own stakes for time-based rewards.

use crate::account::AccountId;
use crate::amount::{ArithmeticError, SafeAmount, U128};
use crate::error::MarketError;
use crate::market::{BountyPredictionContract, MarketModel};
use crate::staking::{rewards_for, StakingContract, Unstaked};
use crate::market::views::{stake_info_view, StakeInfoView};
use vstd::prelude::*;

verus! {

impl BountyPredictionContract {
    /// Exact sum of two amounts, or `Overflow`.
    pub fn safe_add_tokens(a: SafeAmount, b: SafeAmount) -> (r: Result<SafeAmount, ArithmeticError>)
        ensures
            a@ + b@ <= u128::MAX ==> r is Ok && r->Ok_0@ == a@ + b@,
            a@ + b@ > u128::MAX ==> r == Err::<SafeAmount, ArithmeticError>(
                ArithmeticError::Overflow,
            ),
    {
        a.checked_add(b)
    }

    /// Exact difference of two amounts, or `Underflow`.
    pub fn safe_sub_tokens(a: SafeAmount, b: SafeAmount) -> (r: Result<SafeAmount, ArithmeticError>)
        ensures
            b@ <= a@ ==> r is Ok && r->Ok_0@ == a@ - b@,
            b@ > a@ ==> r == Err::<SafeAmount, ArithmeticError>(ArithmeticError::Underflow),
    {
        a.checked_sub(b)
    }

    /// The reward that `stake_amount` earns at `reward_rate` in
    /// `time_seconds`, or `Overflow` where the product does not fit.
    pub fn calculate_rewards_safe(stake_amount: SafeAmount, reward_rate: u128, time_seconds: u64) -> (r:
        Result<u128, ArithmeticError>)
        ensures
            r == rewards_for(stake_amount@, reward_rate, time_seconds),
    {
        StakingContract::calculate_rewards_safe(stake_amount, reward_rate, time_seconds)
    }

    /// Stakes `amount` for `staker` for time-based rewards, and returns the
    /// reward that the host pays on the stake held so far.
    pub fn stake(
        &mut self,
        staker: AccountId,
        now: u64,
        amount: SafeAmount,
        account_balance: SafeAmount,
    ) -> (r: Result<SafeAmount, MarketError>)
        requires
            old(self).wf(),
        ensures
            final(self).wf(),
            match old(self)@.staking.after_reward_stake(staker@, now, amount, account_balance@) {
                Ok((paid, after)) => r == Ok::<SafeAmount, MarketError>(paid) && final(self)@
                    == (MarketModel { staking: after, ..old(self)@ }),
                Err(e) => r == Err::<SafeAmount, MarketError>(e) && *final(self) == *old(self),
            },
    {
        self.staking.stake(staker, now, amount, account_balance)
    }

    /// Takes `amount` out of the stake of `staker`, and returns what the
    /// host pays out.
    pub fn unstake(
        &mut self,
        staker: &AccountId,
        now: u64,
        amount: SafeAmount,
        account_balance: SafeAmount,
    ) -> (r: Result<Unstaked, MarketError>)
        requires
            old(self).wf(),
        ensures
            final(self).wf(),
            match old(self)@.staking.after_unstake(staker@, now, amount, account_balance@) {
                Ok((paid, after)) => r == Ok::<Unstaked, MarketError>(
                    Unstaked { reward: paid, returned: amount },
                ) && final(self)@ == (MarketModel { staking: after, ..old(self)@ }),
                Err(e) => r == Err::<Unstaked, MarketError>(e) && *final(self) == *old(self),
            },
    {
        self.staking.unstake(staker, now, amount, account_balance)
    }

    /// Settles the reward that has accrued to `staker`, and returns what the
    /// host pays out.
    pub fn claim_rewards(&mut self, staker: &AccountId, now: u64, account_balance: SafeAmount) -> (r:
        Result<SafeAmount, MarketError>)
        requires
            old(self).wf(),
        ensures
            final(self).wf(),
            match old(self)@.staking.after_reward_claim(staker@, now, account_balance@) {
                Ok((paid, after)) => r == Ok::<SafeAmount, MarketError>(paid) && final(self)@
                    == (MarketModel { staking: after, ..old(self)@ }),
                Err(e) => r == Err::<SafeAmount, MarketError>(e) && *final(self) == *old(self),
            },
    {
        self.staking.claim_rewards(staker, now, account_balance)
    }

    /// What `account` has staked for time-based rewards, if anything.
    pub fn get_stake_info(&self, account: &AccountId) -> (r: Option<StakeInfoView>)
        requires
            self.wf(),
        ensures
            r == match self@.staking.stake_info(account@) {
                Some(info) => Some(stake_info_view(info)),
                None => None,
            },
    {
        match self.staking.get_stake_info(account) {
            Some(info) => Some(StakeInfoView::from(info)),
            None => None,
        }
    }

    /// The reward that has accrued to `account` at time `now`.
    pub fn calculate_pending_rewards(&self, account: &AccountId, now: u64) -> (r: Result<
        U128,
        MarketError,
    >)
        requires
            self.wf(),
        ensures
            r == match self@.staking.pending_rewards(account@, now) {
                Ok(reward) => Ok(U128(reward.yocto)),
                Err(e) => Err(e),
            },
    {
        match self.staking.calculate_pending_rewards(account, now) {
            Ok(reward) => Ok(U128(reward.as_yoctonear())),
            Err(e) => Err(e),
        }
    }
}

} // verus!
