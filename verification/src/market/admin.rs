//! What only the owner may do.

use crate::account::AccountId;
use crate::amount::{SafeAmount, ONE_NEAR};
use crate::error::MarketError;
use crate::market::{
    clamped_reward_rate, BountyPredictionContract, MarketModel, DEFAULT_PLATFORM_FEE_RATE,
    MAX_PLATFORM_FEE_RATE, MAX_REWARD_RATE, MAX_STAKE_LIMIT_NEAR, MIN_REWARD_RATE,
};
use crate::staking::{StakingContract, StakingModel};
use vstd::prelude::*;

verus! {

/// What the owner leaves in the market when withdrawing collected fees.
pub const WITHDRAWAL_RESERVE: u128 = 2 * ONE_NEAR;

/// Reward rate of a market that is set up afresh in place of an unreadable
/// stored one.
pub const FALLBACK_REWARD_RATE: u128 = 1000;

/// Highest general stake limit, in indivisible units.
pub const MAX_STAKE_LIMIT: u128 = MAX_STAKE_LIMIT_NEAR * ONE_NEAR;

/// `rate` brought down to the highest platform fee allowed.
pub open spec fn clamped_fee_rate(rate: u128) -> u128 {
    if rate > MAX_PLATFORM_FEE_RATE {
        MAX_PLATFORM_FEE_RATE
    } else {
        rate
    }
}

/// `wanted` brought into the band of general stake limits: not below the
/// minimum stake `min`, and not above the highest limit in whole tokens.
pub open spec fn clamped_max_stake(wanted: nat, min: nat) -> nat {
    if wanted < min {
        min
    } else if wanted / (ONE_NEAR as nat) > MAX_STAKE_LIMIT_NEAR {
        MAX_STAKE_LIMIT as nat
    } else {
        wanted
    }
}

/// What the owner may withdraw at a balance of `balance`: all above the
/// reserve.
pub open spec fn withdrawable(balance: nat) -> nat {
    if balance > WITHDRAWAL_RESERVE {
        (balance - WITHDRAWAL_RESERVE) as nat
    } else {
        0
    }
}

impl BountyPredictionContract {
    /// Whether `caller` is the owner.
    pub fn is_owner(&self, caller: &AccountId) -> (r: bool)
        ensures
            r == (caller@ == self@.owner()),
    {
        self.staking.owner.is(caller)
    }

    /// Sets the reward rate, brought into its band. Owner only.
    pub fn update_reward_rate(&mut self, caller: &AccountId, new_rate: u128) -> (r: Result<
        (),
        MarketError,
    >)
        requires
            old(self).wf(),
        ensures
            final(self).wf(),
            caller@ != old(self)@.owner() ==> r == Err::<(), MarketError>(MarketError::NotOwner)
                && *final(self) == *old(self),
            caller@ == old(self)@.owner() ==> r is Ok && final(self)@ == (MarketModel {
                staking: StakingModel {
                    reward_rate: clamped_reward_rate(new_rate),
                    ..old(self)@.staking
                },
                ..old(self)@
            }),
    {
        if !self.is_owner(caller) {
            return Err(MarketError::NotOwner);
        }
        let safe_rate: u128 = if new_rate == 0 {
            MIN_REWARD_RATE
        } else if new_rate > MAX_REWARD_RATE {
            MAX_REWARD_RATE
        } else {
            new_rate
        };
        self.staking.reward_rate = safe_rate;
        Ok(())
    }

    /// Sets the general stake limit, brought into its band. Owner only.
    pub fn update_max_stake_amount(&mut self, caller: &AccountId, new_max_amount: SafeAmount) -> (r:
        Result<(), MarketError>)
        requires
            old(self).wf(),
        ensures
            final(self).wf(),
            caller@ != old(self)@.owner() ==> r == Err::<(), MarketError>(MarketError::NotOwner)
                && *final(self) == *old(self),
            caller@ == old(self)@.owner() ==> r is Ok && final(self)@ == (MarketModel {
                staking: StakingModel {
                    max_stake_amount: clamped_max_stake(
                        new_max_amount@,
                        old(self)@.staking.min_stake_amount,
                    ),
                    ..old(self)@.staking
                },
                ..old(self)@
            }),
    {
        if !self.is_owner(caller) {
            return Err(MarketError::NotOwner);
        }
        let safe_max = if new_max_amount.as_yoctonear() < self.staking.min_stake_amount.as_yoctonear() {
            self.staking.min_stake_amount
        } else if new_max_amount.as_near() > MAX_STAKE_LIMIT_NEAR {
            SafeAmount::from_near(MAX_STAKE_LIMIT_NEAR)
        } else {
            new_max_amount
        };
        proof {
            assert(MAX_STAKE_LIMIT == 100_000_000_000_000_000_000_000_000_000);
            assert((MAX_STAKE_LIMIT as nat) / (ONE_NEAR as nat) == MAX_STAKE_LIMIT_NEAR);
        }
        self.staking.max_stake_amount = safe_max;
        Ok(())
    }

    /// Sets the platform fee in basis points, brought down to the highest
    /// fee allowed. Owner only.
    pub fn update_platform_fee_rate(&mut self, caller: &AccountId, new_rate: u128) -> (r: Result<
        (),
        MarketError,
    >)
        requires
            old(self).wf(),
        ensures
            final(self).wf(),
            caller@ != old(self)@.owner() ==> r == Err::<(), MarketError>(MarketError::NotOwner)
                && *final(self) == *old(self),
            caller@ == old(self)@.owner() ==> r is Ok && final(self)@ == (MarketModel {
                platform_fee_rate: clamped_fee_rate(new_rate),
                ..old(self)@
            }),
    {
        if !self.is_owner(caller) {
            return Err(MarketError::NotOwner);
        }
        let safe_rate: u128 = if new_rate > MAX_PLATFORM_FEE_RATE {
            MAX_PLATFORM_FEE_RATE
        } else {
            new_rate
        };
        self.platform_fee_rate = safe_rate;
        Ok(())
    }

    /// What the host pays the owner on a withdrawal of collected fees while
    /// the balance is `account_balance`: all above the reserve. Owner only.
    pub fn withdraw_platform_fees(&self, caller: &AccountId, account_balance: SafeAmount) -> (r:
        Result<SafeAmount, MarketError>)
        ensures
            caller@ != self@.owner() ==> r == Err::<SafeAmount, MarketError>(MarketError::NotOwner),
            caller@ == self@.owner() ==> r is Ok && r->Ok_0@ == withdrawable(account_balance@),
    {
        if !self.is_owner(caller) {
            return Err(MarketError::NotOwner);
        }
        if account_balance.as_yoctonear() > WITHDRAWAL_RESERVE {
            Ok(SafeAmount::from_yoctonear(account_balance.as_yoctonear() - WITHDRAWAL_RESERVE))
        } else {
            Ok(SafeAmount::from_yoctonear(0))
        }
    }

    /// The market to go on with after an upgrade: the stored one where the
    /// host could read it in one of its known shapes, and otherwise a fresh
    /// market owned by `caller`, with default rates and limits.
    pub fn migrate(stored: Option<BountyPredictionContract>, caller: AccountId) -> (r:
        BountyPredictionContract)
        requires
            stored matches Some(m) ==> m.wf(),
        ensures
            r.wf(),
            stored matches Some(m) ==> r == m,
            stored is None ==> r@ == (MarketModel {
                staking: StakingModel {
                    stakes: Seq::empty(),
                    total_staked: 0,
                    reward_rate: FALLBACK_REWARD_RATE,
                    min_stake_amount: ONE_NEAR as nat,
                    max_stake_amount: (1000 * ONE_NEAR) as nat,
                    owner: caller@,
                },
                books: Seq::empty(),
                next_bounty_id: 1,
                platform_fee_rate: DEFAULT_PLATFORM_FEE_RATE,
            }),
    {
        match stored {
            Some(market) => market,
            None => {
                let fresh = BountyPredictionContract {
                    staking: StakingContract::with_terms(
                        caller,
                        FALLBACK_REWARD_RATE,
                        SafeAmount::from_near(1),
                        SafeAmount::from_near(1000),
                    ),
                    books: Vec::new(),
                    next_bounty_id: 1,
                    platform_fee_rate: DEFAULT_PLATFORM_FEE_RATE,
                };
                assert(fresh@.books =~= Seq::empty());
                assert((1000 * ONE_NEAR) as nat / (ONE_NEAR as nat) == 1000);
                fresh
            },
        }
    }
}

} // verus!
