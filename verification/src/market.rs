//! The ledger: one value that owns every record of the market.

pub mod admin;
pub mod bounty;
pub mod claims;
pub mod closing;
pub mod laws;
pub mod queries;
pub mod registry;
pub mod rewards;
pub mod settlement;
pub mod stakes;
pub mod views;

use crate::account::AccountId;
use crate::amount::{SafeAmount, ONE_NEAR};
use crate::market::bounty::{book_models, BookModel, BountyBook, ParticipantStake};
use crate::error::MarketError;
use crate::staking::{StakingContract, StakingModel};
use vstd::prelude::*;

verus! {

/// Highest platform fee, in basis points of the prize pool.
pub const MAX_PLATFORM_FEE_RATE: u128 = 1000;

/// Platform fee of a new market, in basis points of the prize pool.
pub const DEFAULT_PLATFORM_FEE_RATE: u128 = 500;

/// Lowest reward rate the market runs with.
pub const MIN_REWARD_RATE: u128 = 1;

/// Highest reward rate the market runs with.
pub const MAX_REWARD_RATE: u128 = 1_000_000_000;

/// Highest general stake limit, in whole tokens.
pub const MAX_STAKE_LIMIT_NEAR: u128 = 100_000;

/// The market. It is made once, changed by every call, and never torn down.
#[derive(Debug, PartialEq, Eq)]
pub struct BountyPredictionContract {
    /// The stakes for time-based rewards, with the market's owner.
    pub staking: StakingContract,
    /// One book per bounty; the bounty with id `n` is at position `n - 1`.
    pub books: Vec<BountyBook>,
    pub next_bounty_id: u64,
    /// Platform fee in basis points of the prize pool.
    pub platform_fee_rate: u128,
}

/// What the market is, mathematically.
pub struct MarketModel {
    pub staking: StakingModel,
    pub books: Seq<BookModel>,
    pub next_bounty_id: u64,
    pub platform_fee_rate: u128,
}

impl View for BountyPredictionContract {
    type V = MarketModel;

    open spec fn view(&self) -> MarketModel {
        MarketModel {
            staking: self.staking@,
            books: book_models(self.books@),
            next_bounty_id: self.next_bounty_id,
            platform_fee_rate: self.platform_fee_rate,
        }
    }
}

/// `rate` brought into the band of reward rates the market runs with.
pub open spec fn clamped_reward_rate(rate: u128) -> u128 {
    if rate < MIN_REWARD_RATE {
        MIN_REWARD_RATE
    } else if rate > MAX_REWARD_RATE {
        MAX_REWARD_RATE
    } else {
        rate
    }
}

impl MarketModel {
    /// The owner of the market.
    pub open spec fn owner(self) -> Seq<char> {
        self.staking.owner
    }

    /// Whether a bounty with this id exists.
    pub open spec fn has_bounty(self, bounty_id: u64) -> bool {
        1 <= bounty_id <= self.books.len()
    }

    /// The book of the bounty with this id.
    pub open spec fn book(self, bounty_id: u64) -> BookModel
        recommends
            self.has_bounty(bounty_id),
    {
        self.books[bounty_id - 1]
    }

    /// The live stake of `who` on the bounty with this id, if there is one.
    pub open spec fn stake_of(self, who: Seq<char>, bounty_id: u64) -> Option<ParticipantStake> {
        if self.has_bounty(bounty_id) {
            self.book(bounty_id).stake_of(who)
        } else {
            None
        }
    }

    /// The market with the book of one bounty replaced.
    pub open spec fn with_book(self, bounty_id: u64, book: BookModel) -> MarketModel
        recommends
            self.has_bounty(bounty_id),
    {
        MarketModel { books: self.books.update(bounty_id - 1, book), ..self }
    }

    /// The bounty books are consistent: ids count up from one, and each book
    /// is well formed by itself.
    pub open spec fn books_wf(self) -> bool {
        &&& self.next_bounty_id == self.books.len() + 1
        &&& forall|i: int|
            0 <= i < self.books.len() ==> (#[trigger] self.books[i]).wf() && self.books[i].bounty.id
                == i + 1
    }

    /// What holds of the market after every call.
    pub open spec fn wf(self) -> bool {
        &&& self.books_wf()
        &&& self.staking.wf()
        &&& self.platform_fee_rate <= MAX_PLATFORM_FEE_RATE
        &&& MIN_REWARD_RATE <= self.staking.reward_rate <= MAX_REWARD_RATE
        &&& self.staking.min_stake_amount / (ONE_NEAR as nat) <= MAX_STAKE_LIMIT_NEAR
        &&& self.staking.max_stake_amount / (ONE_NEAR as nat) <= MAX_STAKE_LIMIT_NEAR
    }
}

impl BountyPredictionContract {
    /// What holds of the market after every call.
    pub open spec fn wf(&self) -> bool {
        self@.wf()
    }

    /// A new market owned by `owner`, with no bounty and no stake. The reward
    /// rate is brought into its band; the stake limits are rejected if the
    /// minimum exceeds the maximum or the maximum exceeds the general limit.
    pub fn new(
        owner: AccountId,
        reward_rate: u128,
        min_stake_amount: SafeAmount,
        max_stake_amount: SafeAmount,
    ) -> (r: Result<BountyPredictionContract, MarketError>)
        ensures
            min_stake_amount@ > max_stake_amount@ ==> r == Err::<
                BountyPredictionContract,
                MarketError,
            >(MarketError::MinStakeAboveMax),
            min_stake_amount@ <= max_stake_amount@ && max_stake_amount@ / (ONE_NEAR as nat)
                > MAX_STAKE_LIMIT_NEAR ==> r == Err::<BountyPredictionContract, MarketError>(
                MarketError::StakeTooHigh,
            ),
            min_stake_amount@ <= max_stake_amount@ && max_stake_amount@ / (ONE_NEAR as nat)
                <= MAX_STAKE_LIMIT_NEAR ==> r is Ok && r->Ok_0@ == (MarketModel {
                staking: StakingModel {
                    stakes: Seq::empty(),
                    total_staked: 0,
                    reward_rate: clamped_reward_rate(reward_rate),
                    min_stake_amount: min_stake_amount@,
                    max_stake_amount: max_stake_amount@,
                    owner: owner@,
                },
                books: Seq::empty(),
                next_bounty_id: 1,
                platform_fee_rate: DEFAULT_PLATFORM_FEE_RATE,
            }) && r->Ok_0.wf(),
    {
        let safe_reward_rate: u128 = if reward_rate == 0 {
            MIN_REWARD_RATE
        } else if reward_rate > MAX_REWARD_RATE {
            MAX_REWARD_RATE
        } else {
            reward_rate
        };
        if min_stake_amount.as_yoctonear() > max_stake_amount.as_yoctonear() {
            return Err(MarketError::MinStakeAboveMax);
        }
        if max_stake_amount.as_near() > MAX_STAKE_LIMIT_NEAR {
            return Err(MarketError::StakeTooHigh);
        }
        let market = BountyPredictionContract {
            staking: StakingContract::with_terms(
                owner,
                safe_reward_rate,
                min_stake_amount,
                max_stake_amount,
            ),
            books: Vec::new(),
            next_bounty_id: 1,
            platform_fee_rate: DEFAULT_PLATFORM_FEE_RATE,
        };
        proof {
            vstd::arithmetic::div_mod::lemma_div_is_ordered(
                min_stake_amount@ as int,
                max_stake_amount@ as int,
                ONE_NEAR as int,
            );
        }
        assert(market@.books =~= Seq::empty());
        Ok(market)
    }

    /// The position in `books` of the bounty with this id, if it exists.
    pub fn book_index(&self, bounty_id: u64) -> (r: Option<usize>)
        ensures
            r is Some <==> self@.has_bounty(bounty_id),
            r matches Some(i) ==> i == bounty_id - 1 && i < self.books.len(),
    {
        if bounty_id >= 1 && bounty_id - 1 < self.books.len() as u64 {
            Some((bounty_id - 1) as usize)
        } else {
            None
        }
    }
}

} // verus!
