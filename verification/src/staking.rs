//! Stakes that earn rewards with time.
//!
//! Stake some value, and a reward accrues on it second by second until it
//! is claimed.

use crate::account::AccountId;
use crate::amount::{ArithmeticError, SafeAmount, ONE_NEAR};
use crate::error::MarketError;
use crate::sums::{lemma_sum_bounds, lemma_sum_push, lemma_sum_remove, lemma_sum_update, seq_sum};
use vstd::prelude::*;

verus! {

/// What one account has staked for time-based rewards.
#[derive(Clone, Copy, Debug, PartialEq, Eq, Structural)]
pub struct StakeInfo {
    pub amount: SafeAmount,
    pub staked_at: u64,
    pub last_reward_claim: u64,
}

/// An account together with what it has staked for time-based rewards.
#[derive(Debug, PartialEq, Eq)]
pub struct StakerEntry {
    pub account: AccountId,
    pub info: StakeInfo,
}

/// What a staker entry is, mathematically.
pub struct StakerModel {
    pub account: Seq<char>,
    pub info: StakeInfo,
}

impl View for StakerEntry {
    type V = StakerModel;

    open spec fn view(&self) -> StakerModel {
        StakerModel { account: self.account@, info: self.info }
    }
}

/// The models of a run of staker entries, in order.
pub open spec fn staker_models(s: Seq<StakerEntry>) -> Seq<StakerModel> {
    Seq::new(s.len(), |i: int| s[i]@)
}

/// The accounts of a run of staker entries, in order.
pub open spec fn staker_accounts(s: Seq<StakerModel>) -> Seq<Seq<char>> {
    Seq::new(s.len(), |i: int| s[i].account)
}

/// The amounts of a run of staker entries, in order.
pub open spec fn staker_amounts(s: Seq<StakerModel>) -> Seq<nat> {
    Seq::new(s.len(), |i: int| s[i].info.amount@)
}

/// A ledger of stakes that earn rewards with time.
#[derive(Debug, PartialEq, Eq)]
pub struct StakingContract {
    /// The stakes, one per account at most.
    pub stakes: Vec<StakerEntry>,
    pub total_staked: SafeAmount,
    /// Reward per second and whole token staked.
    pub reward_rate: u128,
    pub min_stake_amount: SafeAmount,
    pub max_stake_amount: SafeAmount,
    pub owner: AccountId,
}

/// What a staking ledger is, mathematically.
pub struct StakingModel {
    pub stakes: Seq<StakerModel>,
    pub total_staked: nat,
    pub reward_rate: u128,
    pub min_stake_amount: nat,
    pub max_stake_amount: nat,
    pub owner: Seq<char>,
}

impl View for StakingContract {
    type V = StakingModel;

    open spec fn view(&self) -> StakingModel {
        StakingModel {
            stakes: staker_models(self.stakes@),
            total_staked: self.total_staked@,
            reward_rate: self.reward_rate,
            min_stake_amount: self.min_stake_amount@,
            max_stake_amount: self.max_stake_amount@,
            owner: self.owner@,
        }
    }
}

impl StakingModel {
    /// The stakes for time-based rewards are consistent: an account holds
    /// one at most, and together they make up the total.
    pub open spec fn wf(self) -> bool {
        &&& staker_accounts(self.stakes).no_duplicates()
        &&& seq_sum(staker_amounts(self.stakes)) == self.total_staked
    }

    /// Position of `who` among the stakes for time-based rewards, if they
    /// hold one.
    pub open spec fn staker_position(self, who: Seq<char>) -> Option<int> {
        if exists|i: int| 0 <= i < self.stakes.len() && self.stakes[i].account == who {
            Some(choose|i: int| 0 <= i < self.stakes.len() && self.stakes[i].account == who)
        } else {
            None
        }
    }

    /// What `who` has staked for time-based rewards, if anything.
    pub open spec fn stake_info(self, who: Seq<char>) -> Option<StakeInfo> {
        match self.staker_position(who) {
            Some(i) => Some(self.stakes[i].info),
            None => None,
        }
    }

}

/// Ticks of the host's clock in a second.
pub const NANOS_PER_SECOND: u64 = 1_000_000_000;

/// What the product of amount, rate and seconds is divided by.
pub const REWARD_SCALE: u128 = ONE_NEAR;

/// What the market keeps back when paying a reward: a reward is paid only
/// while the balance reaches the reward plus this.
pub const REWARD_RESERVE: u128 = ONE_NEAR;

/// The reward that `amount` earns at `rate` in `seconds`, rounded down, or
/// `Overflow` where the product of the three, or of the first two, does not
/// fit in 128 bits.
pub open spec fn rewards_for(amount: nat, rate: u128, seconds: u64) -> Result<
    u128,
    ArithmeticError,
> {
    if amount * rate > u128::MAX || amount * rate * seconds > u128::MAX {
        Err(ArithmeticError::Overflow)
    } else {
        Ok(((amount * rate * seconds) / (REWARD_SCALE as int)) as u128)
    }
}

/// Whole seconds from the last claim on `info` to `now`.
pub open spec fn seconds_since_claim(info: StakeInfo, now: u64) -> u64
    recommends
        info.last_reward_claim <= now,
{
    ((now - info.last_reward_claim) / (NANOS_PER_SECOND as int)) as u64
}

/// What settling the reward of one stake at time `now` comes to, while the
/// balance is `balance`: the reward paid and the stake as it stands after.
/// Without a reward nothing changes, not even the time of the last claim.
pub open spec fn reward_claim(info: StakeInfo, rate: u128, now: u64, balance: nat) -> Result<
    (SafeAmount, StakeInfo),
    MarketError,
> {
    if now < info.last_reward_claim {
        Err(MarketError::Arithmetic(ArithmeticError::Underflow))
    } else {
        match rewards_for(info.amount@, rate, seconds_since_claim(info, now)) {
            Err(e) => Err(MarketError::Arithmetic(e)),
            Ok(reward) => if reward == 0 {
                Ok((SafeAmount { yocto: 0 }, info))
            } else if reward + REWARD_RESERVE > u128::MAX {
                Err(MarketError::Arithmetic(ArithmeticError::Overflow))
            } else if balance < reward + REWARD_RESERVE {
                Err(MarketError::InsufficientBalance)
            } else {
                Ok((SafeAmount { yocto: reward }, StakeInfo { last_reward_claim: now, ..info }))
            },
        }
    }
}

/// What the host pays out on an unstake.
#[derive(Clone, Copy, Debug, PartialEq, Eq, Structural)]
pub struct Unstaked {
    /// The reward that had accrued.
    pub reward: SafeAmount,
    /// The part of the stake that goes back to the staker.
    pub returned: SafeAmount,
}

impl StakingModel {
    /// The outcome of staking `amount` for time-based rewards: the reward
    /// paid on the stake held so far and the market after, or why the stake
    /// is rejected.
    pub open spec fn after_reward_stake(
        self,
        staker: Seq<char>,
        now: u64,
        amount: SafeAmount,
        balance: nat,
    ) -> Result<(SafeAmount, StakingModel), MarketError> {
        if amount@ < self.min_stake_amount {
            Err(MarketError::StakeTooLow)
        } else if amount@ > self.max_stake_amount {
            Err(MarketError::StakeTooHigh)
        } else {
            match self.staker_position(staker) {
                Some(k) => {
                    let info = self.stakes[k].info;
                    if info.amount@ + amount@ > u128::MAX {
                        Err(MarketError::Arithmetic(ArithmeticError::Overflow))
                    } else if info.amount@ + amount@ > self.max_stake_amount {
                        Err(MarketError::TotalStakeTooHigh)
                    } else {
                        match reward_claim(info, self.reward_rate, now, balance) {
                            Err(e) => Err(e),
                            Ok((paid, settled)) => if self.total_staked + amount@ > u128::MAX {
                                Err(MarketError::Arithmetic(ArithmeticError::Overflow))
                            } else {
                                Ok(
                                    (
                                        paid,
                                        StakingModel {
                                            stakes: self.stakes.update(
                                                k,
                                                StakerModel {
                                                    account: staker,
                                                    info: StakeInfo {
                                                        amount: SafeAmount {
                                                            yocto: (info.amount@
                                                                + amount@) as u128,
                                                        },
                                                        staked_at: info.staked_at,
                                                        last_reward_claim: now,
                                                    },
                                                },
                                            ),
                                            total_staked: self.total_staked + amount@,
                                            ..self
                                        },
                                    ),
                                )
                            },
                        }
                    }
                },
                None => if self.total_staked + amount@ > u128::MAX {
                    Err(MarketError::Arithmetic(ArithmeticError::Overflow))
                } else {
                    Ok(
                        (
                            SafeAmount { yocto: 0 },
                            StakingModel {
                                stakes: self.stakes.push(
                                    StakerModel {
                                        account: staker,
                                        info: StakeInfo {
                                            amount,
                                            staked_at: now,
                                            last_reward_claim: now,
                                        },
                                    },
                                ),
                                total_staked: self.total_staked + amount@,
                                ..self
                            },
                        ),
                    )
                },
            }
        }
    }

    /// The outcome of taking `amount` out of a stake: the reward paid and
    /// the market after, or why the request is rejected. A stake that is
    /// taken out whole is deleted.
    pub open spec fn after_unstake(
        self,
        staker: Seq<char>,
        now: u64,
        amount: SafeAmount,
        balance: nat,
    ) -> Result<(SafeAmount, StakingModel), MarketError> {
        match self.staker_position(staker) {
            None => Err(MarketError::NoStakeFound),
            Some(k) => {
                let info = self.stakes[k].info;
                if info.amount@ < amount@ {
                    Err(MarketError::InsufficientStake)
                } else if amount@ == 0 {
                    Err(MarketError::StakeNotPositive)
                } else {
                    match reward_claim(info, self.reward_rate, now, balance) {
                        Err(e) => Err(e),
                        Ok((paid, settled)) => Ok(
                            (
                                paid,
                                StakingModel {
                                    stakes: if info.amount@ == amount@ {
                                        self.stakes.remove(k)
                                    } else {
                                        self.stakes.update(
                                            k,
                                            StakerModel {
                                                account: staker,
                                                info: StakeInfo {
                                                    amount: SafeAmount {
                                                        yocto: (info.amount@ - amount@) as u128,
                                                    },
                                                    ..settled
                                                },
                                            },
                                        )
                                    },
                                    total_staked: (self.total_staked - amount@) as nat,
                                    ..self
                                },
                            ),
                        ),
                    }
                }
            },
        }
    }

    /// The outcome of claiming the reward on a stake: the reward paid and
    /// the market after, or why the claim is rejected.
    pub open spec fn after_reward_claim(self, staker: Seq<char>, now: u64, balance: nat) -> Result<
        (SafeAmount, StakingModel),
        MarketError,
    > {
        match self.staker_position(staker) {
            None => Err(MarketError::NoStakeFound),
            Some(k) => match reward_claim(self.stakes[k].info, self.reward_rate, now, balance) {
                Err(e) => Err(e),
                Ok((paid, settled)) => Ok(
                    (
                        paid,
                        StakingModel {
                            stakes: self.stakes.update(
                                k,
                                StakerModel { account: staker, info: settled },
                            ),
                            ..self
                        },
                    ),
                ),
            },
        }
    }

    /// The reward that has accrued to `who` at time `now`: nothing for
    /// someone without a stake.
    pub open spec fn pending_rewards(self, who: Seq<char>, now: u64) -> Result<
        SafeAmount,
        MarketError,
    > {
        match self.stake_info(who) {
            None => Ok(SafeAmount { yocto: 0 }),
            Some(info) => if now < info.last_reward_claim {
                Err(MarketError::Arithmetic(ArithmeticError::Underflow))
            } else {
                match rewards_for(info.amount@, self.reward_rate, seconds_since_claim(info, now)) {
                    Ok(reward) => Ok(SafeAmount { yocto: reward }),
                    Err(e) => Err(MarketError::Arithmetic(e)),
                }
            },
        }
    }
}

/// Where the accounts are distinct, the position of a staker is the one
/// position that holds them.
pub proof fn lemma_staker_position(m: StakingModel, who: Seq<char>, k: int)
    requires
        staker_accounts(m.stakes).no_duplicates(),
        0 <= k < m.stakes.len(),
        m.stakes[k].account == who,
    ensures
        m.staker_position(who) == Some(k),
{
    let c = choose|i: int| 0 <= i < m.stakes.len() && m.stakes[i].account == who;
    assert(staker_accounts(m.stakes)[c] == staker_accounts(m.stakes)[k]);
}

/// Replacing what one staker holds keeps the stakes consistent, with the
/// total changed by the difference.
pub proof fn lemma_staker_updated(m: StakingModel, k: int, info: StakeInfo)
    requires
        m.wf(),
        0 <= k < m.stakes.len(),
    ensures
        (StakingModel {
            stakes: m.stakes.update(k, StakerModel { account: m.stakes[k].account, info }),
            total_staked: (m.total_staked - m.stakes[k].info.amount@ + info.amount@) as nat,
            ..m
        }).wf(),
        m.stakes[k].info.amount@ <= m.total_staked,
{
    let stakes = m.stakes.update(k, StakerModel { account: m.stakes[k].account, info });
    assert(staker_accounts(stakes) =~= staker_accounts(m.stakes));
    assert(staker_amounts(stakes) =~= staker_amounts(m.stakes).update(k, info.amount@));
    lemma_sum_update(staker_amounts(m.stakes), k, info.amount@);
    lemma_sum_bounds(staker_amounts(m.stakes), k);
}

/// Deleting what one staker holds keeps the stakes consistent, with the
/// total lowered by what they held.
pub proof fn lemma_staker_removed(m: StakingModel, k: int)
    requires
        m.wf(),
        0 <= k < m.stakes.len(),
    ensures
        (StakingModel {
            stakes: m.stakes.remove(k),
            total_staked: (m.total_staked - m.stakes[k].info.amount@) as nat,
            ..m
        }).wf(),
        m.stakes[k].info.amount@ <= m.total_staked,
{
    let stakes = m.stakes.remove(k);
    assert(staker_amounts(stakes) =~= staker_amounts(m.stakes).remove(k));
    lemma_sum_remove(staker_amounts(m.stakes), k);
    lemma_sum_bounds(staker_amounts(m.stakes), k);
    assert forall|a: int, b: int|
        0 <= a < stakes.len() && 0 <= b < stakes.len() && a != b implies staker_accounts(
        stakes,
    )[a] != staker_accounts(stakes)[b] by {
        let a0 = if a < k {
            a
        } else {
            a + 1
        };
        let b0 = if b < k {
            b
        } else {
            b + 1
        };
        assert(staker_accounts(stakes)[a] == staker_accounts(m.stakes)[a0]);
        assert(staker_accounts(stakes)[b] == staker_accounts(m.stakes)[b0]);
    }
}

/// Adding the stake of someone who held none keeps the stakes consistent,
/// with the total raised by the new amount.
pub proof fn lemma_staker_added(m: StakingModel, who: Seq<char>, info: StakeInfo)
    requires
        m.wf(),
        m.staker_position(who) is None,
    ensures
        (StakingModel {
            stakes: m.stakes.push(StakerModel { account: who, info }),
            total_staked: m.total_staked + info.amount@,
            ..m
        }).wf(),
{
    let stakes = m.stakes.push(StakerModel { account: who, info });
    assert(staker_amounts(stakes) =~= staker_amounts(m.stakes).push(info.amount@));
    lemma_sum_push(staker_amounts(m.stakes), info.amount@);
    assert forall|a: int, b: int|
        0 <= a < stakes.len() && 0 <= b < stakes.len() && a != b implies staker_accounts(
        stakes,
    )[a] != staker_accounts(stakes)[b] by {
        if a < m.stakes.len() && b < m.stakes.len() {
            assert(staker_accounts(stakes)[a] == staker_accounts(m.stakes)[a]);
            assert(staker_accounts(stakes)[b] == staker_accounts(m.stakes)[b]);
        } else if a < m.stakes.len() {
            assert(m.stakes[a].account != who);
        } else {
            assert(m.stakes[b].account != who);
        }
    }
}

impl StakingContract {
    /// What holds of the ledger after every call.
    pub open spec fn wf(&self) -> bool {
        self@.wf()
    }

    /// The reward that `stake_amount` earns at `reward_rate` in
    /// `time_seconds`. The product is formed first and divided last, so that
    /// no precision is lost; where it does not fit, the computation fails
    /// rather than wrap.
    pub fn calculate_rewards_safe(stake_amount: SafeAmount, reward_rate: u128, time_seconds: u64) -> (r:
        Result<u128, ArithmeticError>)
        ensures
            r == rewards_for(stake_amount@, reward_rate, time_seconds),
    {
        let first = match stake_amount.as_yoctonear().checked_mul(reward_rate) {
            Some(p) => p,
            None => {
                return Err(ArithmeticError::Overflow);
            },
        };
        match first.checked_mul(time_seconds as u128) {
            Some(p) => Ok(p / REWARD_SCALE),
            None => Err(ArithmeticError::Overflow),
        }
    }

    /// The position of the stake of `who` for time-based rewards, if they
    /// hold one.
    pub fn find_staker(&self, who: &AccountId) -> (r: Option<usize>)
        requires
            staker_accounts(self@.stakes).no_duplicates(),
        ensures
            match r {
                Some(k) => k < self.stakes.len() && self@.staker_position(who@) == Some(k as int),
                None => self@.staker_position(who@) is None,
            },
    {
        let mut i: usize = 0;
        while i < self.stakes.len()
            invariant
                i <= self.stakes.len(),
                staker_accounts(self@.stakes).no_duplicates(),
                forall|j: int| 0 <= j < i ==> (#[trigger] self@.stakes[j]).account != who@,
            decreases self.stakes.len() - i,
        {
            assert(self@.stakes[i as int] == self.stakes@[i as int]@);
            if self.stakes[i].account.is(who) {
                proof {
                    lemma_staker_position(self@, who@, i as int);
                }
                return Some(i);
            }
            i = i + 1;
        }
        None
    }

    /// Settles the reward that has accrued on `stake_info` at time `now`,
    /// while the market's balance is `account_balance`, and returns what the
    /// host pays out. A reward is paid only while the balance reaches the
    /// reward and the reserve.
    pub fn internal_claim_rewards(
        &self,
        stake_info: &mut StakeInfo,
        now: u64,
        account_balance: SafeAmount,
    ) -> (r: Result<SafeAmount, MarketError>)
        ensures
            match reward_claim(*old(stake_info), self.reward_rate, now, account_balance@) {
                Ok((paid, settled)) => r == Ok::<SafeAmount, MarketError>(paid)
                    && *final(stake_info) == settled,
                Err(e) => r == Err::<SafeAmount, MarketError>(e)
                    && *final(stake_info) == *old(stake_info),
            },
    {
        if now < stake_info.last_reward_claim {
            return Err(MarketError::Arithmetic(ArithmeticError::Underflow));
        }
        let seconds = (now - stake_info.last_reward_claim) / NANOS_PER_SECOND;
        let reward = match Self::calculate_rewards_safe(
            stake_info.amount,
            self.reward_rate,
            seconds,
        ) {
            Ok(reward) => reward,
            Err(e) => {
                return Err(MarketError::Arithmetic(e));
            },
        };
        if reward > 0 {
            let required = match reward.checked_add(REWARD_RESERVE) {
                Some(required) => required,
                None => {
                    return Err(MarketError::Arithmetic(ArithmeticError::Overflow));
                },
            };
            if account_balance.as_yoctonear() < required {
                return Err(MarketError::InsufficientBalance);
            }
            stake_info.last_reward_claim = now;
        }
        Ok(SafeAmount::from_yoctonear(reward))
    }

    /// Stakes `amount` for `staker` at time `now`. The amount, and the
    /// staker's stake as a whole, must lie within the market's limits. On a
    /// stake held already the accrued reward is settled first, and returned
    /// for the host to pay.
    pub fn stake(
        &mut self,
        staker: AccountId,
        now: u64,
        amount: SafeAmount,
        account_balance: SafeAmount,
    ) -> (r: Result<SafeAmount, MarketError>)
        requires
            old(self).wf(),
        ensures
            final(self).wf(),
            match old(self)@.after_reward_stake(staker@, now, amount, account_balance@) {
                Ok((paid, after)) => r == Ok::<SafeAmount, MarketError>(paid) && final(self)@
                    == after,
                Err(e) => r == Err::<SafeAmount, MarketError>(e) && *final(self) == *old(self),
            },
    {
        if amount.as_yoctonear() < self.min_stake_amount.as_yoctonear() {
            return Err(MarketError::StakeTooLow);
        }
        if amount.as_yoctonear() > self.max_stake_amount.as_yoctonear() {
            return Err(MarketError::StakeTooHigh);
        }
        match self.find_staker(&staker) {
            Some(k) => {
                let mut info = self.stakes[k].info;
                assert(self@.stakes[k as int].info == info);
                assert(self@.stakes[k as int].account == staker@);
                let raised = match info.amount.checked_add(amount) {
                    Ok(raised) => raised,
                    Err(e) => {
                        return Err(MarketError::Arithmetic(e));
                    },
                };
                if raised.as_yoctonear() > self.max_stake_amount.as_yoctonear() {
                    return Err(MarketError::TotalStakeTooHigh);
                }
                let paid = self.internal_claim_rewards(&mut info, now, account_balance)?;
                let total = match self.total_staked.checked_add(amount) {
                    Ok(total) => total,
                    Err(e) => {
                        return Err(MarketError::Arithmetic(e));
                    },
                };
                info.amount = raised;
                info.last_reward_claim = now;
                proof {
                    lemma_staker_updated(self@, k as int, info);
                }
                self.stakes[k].info = info;
                self.total_staked = total;
                proof {
                    assert(self@.stakes =~= old(self)@.stakes.update(
                        k as int,
                        StakerModel { account: staker@, info },
                    ));
                                    }
                Ok(paid)
            },
            None => {
                let total = match self.total_staked.checked_add(amount) {
                    Ok(total) => total,
                    Err(e) => {
                        return Err(MarketError::Arithmetic(e));
                    },
                };
                let info = StakeInfo { amount, staked_at: now, last_reward_claim: now };
                proof {
                    lemma_staker_added(self@, staker@, info);
                }
                self.stakes.push(StakerEntry { account: staker, info });
                self.total_staked = total;
                proof {
                    assert(self@.stakes =~= old(self)@.stakes.push(
                        StakerModel { account: staker@, info },
                    ));
                                    }
                Ok(SafeAmount::from_yoctonear(0))
            },
        }
    }

    /// Takes `amount` out of the stake of `staker` at time `now`. The
    /// accrued reward is settled first. The host pays out the reward and
    /// returns the amount.
    pub fn unstake(
        &mut self,
        staker: &AccountId,
        now: u64,
        amount: SafeAmount,
        account_balance: SafeAmount,
    ) -> (r: Result<Unstaked, MarketError>)
        requires
            old(self).wf(),
        ensures
            final(self).wf(),
            match old(self)@.after_unstake(staker@, now, amount, account_balance@) {
                Ok((paid, after)) => r == Ok::<Unstaked, MarketError>(
                    Unstaked { reward: paid, returned: amount },
                ) && final(self)@ == after,
                Err(e) => r == Err::<Unstaked, MarketError>(e) && *final(self) == *old(self),
            },
    {
        let k = match self.find_staker(staker) {
            Some(k) => k,
            None => {
                return Err(MarketError::NoStakeFound);
            },
        };
        let mut info = self.stakes[k].info;
        assert(self@.stakes[k as int].info == info);
        assert(self@.stakes[k as int].account == staker@);
        if info.amount.as_yoctonear() < amount.as_yoctonear() {
            return Err(MarketError::InsufficientStake);
        }
        if amount.is_zero() {
            return Err(MarketError::StakeNotPositive);
        }
        let paid = self.internal_claim_rewards(&mut info, now, account_balance)?;
        info.amount = SafeAmount::from_yoctonear(info.amount.as_yoctonear() - amount.as_yoctonear());
        if info.amount.is_zero() {
            proof {
                lemma_staker_removed(self@, k as int);
            }
            self.stakes.remove(k);
            self.total_staked = SafeAmount::from_yoctonear(
                self.total_staked.as_yoctonear() - amount.as_yoctonear(),
            );
            proof {
                assert(self@.stakes =~= old(self)@.stakes.remove(k as int));
                            }
        } else {
            proof {
                lemma_staker_updated(self@, k as int, info);
            }
            self.stakes[k].info = info;
            self.total_staked = SafeAmount::from_yoctonear(
                self.total_staked.as_yoctonear() - amount.as_yoctonear(),
            );
            proof {
                assert(self@.stakes =~= old(self)@.stakes.update(
                    k as int,
                    StakerModel { account: staker@, info },
                ));
                            }
        }
        Ok(Unstaked { reward: paid, returned: amount })
    }

    /// Settles the reward that has accrued to `staker` at time `now`, and
    /// returns what the host pays out.
    pub fn claim_rewards(&mut self, staker: &AccountId, now: u64, account_balance: SafeAmount) -> (r:
        Result<SafeAmount, MarketError>)
        requires
            old(self).wf(),
        ensures
            final(self).wf(),
            match old(self)@.after_reward_claim(staker@, now, account_balance@) {
                Ok((paid, after)) => r == Ok::<SafeAmount, MarketError>(paid) && final(self)@
                    == after,
                Err(e) => r == Err::<SafeAmount, MarketError>(e) && *final(self) == *old(self),
            },
    {
        let k = match self.find_staker(staker) {
            Some(k) => k,
            None => {
                return Err(MarketError::NoStakeFound);
            },
        };
        let mut info = self.stakes[k].info;
        assert(self@.stakes[k as int].info == info);
        assert(self@.stakes[k as int].account == staker@);
        let paid = self.internal_claim_rewards(&mut info, now, account_balance)?;
        proof {
            lemma_staker_updated(self@, k as int, info);
        }
        self.stakes[k].info = info;
        proof {
            assert(self@.stakes =~= old(self)@.stakes.update(
                k as int,
                StakerModel { account: staker@, info },
            ));
                    }
        Ok(paid)
    }

    /// What `account` has staked, if anything.
    pub fn get_stake_info(&self, account: &AccountId) -> (r: Option<StakeInfo>)
        requires
            self.wf(),
        ensures
            r == self@.stake_info(account@),
    {
        match self.find_staker(account) {
            Some(k) => {
                assert(self@.stakes[k as int].info == self.stakes[k as int].info);
                Some(self.stakes[k].info)
            },
            None => None,
        }
    }

    /// The reward that has accrued to `account` at time `now`.
    pub fn calculate_pending_rewards(&self, account: &AccountId, now: u64) -> (r: Result<
        SafeAmount,
        MarketError,
    >)
        requires
            self.wf(),
        ensures
            r == self@.pending_rewards(account@, now),
    {
        match self.find_staker(account) {
            Some(k) => {
                let info = self.stakes[k].info;
                assert(self@.stakes[k as int].info == info);
                if now < info.last_reward_claim {
                    return Err(MarketError::Arithmetic(ArithmeticError::Underflow));
                }
                let seconds = (now - info.last_reward_claim) / NANOS_PER_SECOND;
                match Self::calculate_rewards_safe(info.amount, self.reward_rate, seconds) {
                    Ok(reward) => Ok(SafeAmount::from_yoctonear(reward)),
                    Err(e) => Err(MarketError::Arithmetic(e)),
                }
            },
            None => Ok(SafeAmount::from_yoctonear(0)),
        }
    }

    /// Exact sum of two amounts, or `Overflow`.
    pub fn safe_add_tokens(a: SafeAmount, b: SafeAmount) -> (r: Result<SafeAmount, ArithmeticError>)
        ensures
            a@ + b@ <= u128::MAX ==> r is Ok && r->Ok_0@ == a@ + b@,
            a@ + b@ > u128::MAX ==> r == Err::<SafeAmount, ArithmeticError>(
                ArithmeticError::Overflow,
            ),
    {
        a.checked_add(b)
    }

    /// Exact difference of two amounts, or `Underflow`.
    pub fn safe_sub_tokens(a: SafeAmount, b: SafeAmount) -> (r: Result<SafeAmount, ArithmeticError>)
        ensures
            b@ <= a@ ==> r is Ok && r->Ok_0@ == a@ - b@,
            b@ > a@ ==> r == Err::<SafeAmount, ArithmeticError>(ArithmeticError::Underflow),
    {
        a.checked_sub(b)
    }

    /// A new ledger owned by `owner`, without stakes. The minimum stake may
    /// not exceed the maximum, and the reward rate must be positive.
    pub fn new(
        owner: AccountId,
        reward_rate: u128,
        min_stake_amount: SafeAmount,
        max_stake_amount: SafeAmount,
    ) -> (r: Result<StakingContract, MarketError>)
        ensures
            min_stake_amount@ > max_stake_amount@ ==> r == Err::<StakingContract, MarketError>(
                MarketError::MinStakeAboveMax,
            ),
            min_stake_amount@ <= max_stake_amount@ && reward_rate == 0 ==> r == Err::<
                StakingContract,
                MarketError,
            >(MarketError::RewardRateNotPositive),
            min_stake_amount@ <= max_stake_amount@ && reward_rate > 0 ==> r is Ok && r->Ok_0.wf()
                && r->Ok_0@ == (StakingModel {
                stakes: Seq::empty(),
                total_staked: 0,
                reward_rate,
                min_stake_amount: min_stake_amount@,
                max_stake_amount: max_stake_amount@,
                owner: owner@,
            }),
    {
        if min_stake_amount.as_yoctonear() > max_stake_amount.as_yoctonear() {
            return Err(MarketError::MinStakeAboveMax);
        }
        if reward_rate == 0 {
            return Err(MarketError::RewardRateNotPositive);
        }
        Ok(Self::with_terms(owner, reward_rate, min_stake_amount, max_stake_amount))
    }

    /// A ledger with the given terms and no stakes.
    pub fn with_terms(
        owner: AccountId,
        reward_rate: u128,
        min_stake_amount: SafeAmount,
        max_stake_amount: SafeAmount,
    ) -> (r: StakingContract)
        ensures
            r.wf(),
            r@ == (StakingModel {
                stakes: Seq::empty(),
                total_staked: 0,
                reward_rate,
                min_stake_amount: min_stake_amount@,
                max_stake_amount: max_stake_amount@,
                owner: owner@,
            }),
    {
        let ledger = StakingContract {
            stakes: Vec::new(),
            total_staked: SafeAmount::from_yoctonear(0),
            reward_rate,
            min_stake_amount,
            max_stake_amount,
            owner,
        };
        assert(ledger@.stakes =~= Seq::empty());
        assert(staker_amounts(ledger@.stakes) =~= Seq::empty());
        ledger
    }

    /// All that is staked.
    pub fn get_total_staked(&self) -> (r: SafeAmount)
        ensures
            r@ == self@.total_staked,
    {
        self.total_staked
    }

    /// The reward rate.
    pub fn get_reward_rate(&self) -> (r: u128)
        ensures
            r == self@.reward_rate,
    {
        self.reward_rate
    }

    /// The most that one account may stake.
    pub fn get_max_stake_amount(&self) -> (r: SafeAmount)
        ensures
            r@ == self@.max_stake_amount,
    {
        self.max_stake_amount
    }

    /// Sets the reward rate. Owner only.
    pub fn update_reward_rate(&mut self, caller: &AccountId, new_rate: u128) -> (r: Result<
        (),
        MarketError,
    >)
        requires
            old(self).wf(),
        ensures
            final(self).wf(),
            caller@ != old(self)@.owner ==> r == Err::<(), MarketError>(MarketError::NotOwner)
                && *final(self) == *old(self),
            caller@ == old(self)@.owner ==> r is Ok && final(self)@ == (StakingModel {
                reward_rate: new_rate,
                ..old(self)@
            }),
    {
        if !self.owner.is(caller) {
            return Err(MarketError::NotOwner);
        }
        self.reward_rate = new_rate;
        Ok(())
    }

    /// Sets the most that one account may stake; it may not lie below the
    /// minimum stake. Owner only.
    pub fn update_max_stake_amount(&mut self, caller: &AccountId, new_max_amount: SafeAmount) -> (r:
        Result<(), MarketError>)
        requires
            old(self).wf(),
        ensures
            final(self).wf(),
            caller@ != old(self)@.owner ==> r == Err::<(), MarketError>(MarketError::NotOwner)
                && *final(self) == *old(self),
            caller@ == old(self)@.owner && new_max_amount@ < old(self)@.min_stake_amount ==> r
                == Err::<(), MarketError>(MarketError::MinStakeAboveMax) && *final(self) == *old(
                self,
            ),
            caller@ == old(self)@.owner && new_max_amount@ >= old(self)@.min_stake_amount ==> r
                is Ok && final(self)@ == (StakingModel {
                max_stake_amount: new_max_amount@,
                ..old(self)@
            }),
    {
        if !self.owner.is(caller) {
            return Err(MarketError::NotOwner);
        }
        if new_max_amount.as_yoctonear() < self.min_stake_amount.as_yoctonear() {
            return Err(MarketError::MinStakeAboveMax);
        }
        self.max_stake_amount = new_max_amount;
        Ok(())
    }
}

} // verus!
