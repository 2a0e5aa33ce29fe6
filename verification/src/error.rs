//! Why the market, or the staking ledger, turns a call down.

use crate::amount::ArithmeticError;
use vstd::prelude::*;

verus! {

/// The broad class of a rejection. Whatever the class, a rejected call leaves
/// the ledger exactly as it found it.
#[derive(Clone, Copy, Debug, PartialEq, Eq, Structural)]
pub enum ErrorKind {
    /// An argument is malformed or out of range.
    Validation,
    /// The bounty is in the wrong phase of its life for this call.
    State,
    /// The caller may not perform this action.
    Authorization,
    /// A money computation would overflow, underflow or divide by zero.
    Arithmetic,
    /// The market's balance cannot cover a payout; the claim may be retried.
    InsufficientFunds,
}

/// Every reason for which a call on the market is rejected.
#[derive(Clone, Copy, Debug, PartialEq, Eq, Structural)]
pub enum MarketError {
    /// The title is empty or blank.
    EmptyTitle,
    /// The description is empty or blank.
    EmptyDescription,
    /// The requirements are empty or blank.
    EmptyRequirements,
    /// The content reference is empty or blank.
    EmptyCreationId,
    /// The title is longer than allowed.
    TitleTooLong,
    /// The description is longer than allowed.
    DescriptionTooLong,
    /// The requirements are longer than allowed.
    RequirementsTooLong,
    /// The base prize is below the minimum.
    BasePrizeTooLow,
    /// The payment sent along is smaller than the base prize.
    DepositBelowBasePrize,
    /// The per-participant stake limit is below the allowed band.
    MaxStakeTooLow,
    /// The per-participant stake limit is above the allowed band.
    MaxStakeTooHigh,
    /// Creator share and backer share do not add up to one hundred.
    SharesMustTotalHundred,
    /// The creator share is below the allowed band.
    CreatorShareTooLow,
    /// The creator share is above the allowed band.
    CreatorShareTooHigh,
    /// The duration is below the allowed band.
    DurationTooShort,
    /// The duration is above the allowed band.
    DurationTooLong,
    /// The deadline would lie beyond the range of the clock.
    DurationOutOfRange,
    /// The payment sent along does not cover base prize plus storage.
    InsufficientDeposit,
    /// No bounty has this id.
    BountyNotFound,
    /// The bounty has no submission at this index.
    InvalidSubmissionIndex,
    /// The stake is zero.
    StakeNotPositive,
    /// The stake exceeds the bounty's per-participant limit.
    StakeExceedsMaximum,
    /// The stake is below the contract-wide minimum.
    StakeTooLow,
    /// The stake is above the contract-wide maximum.
    StakeTooHigh,
    /// The caller's stakes together would exceed the contract-wide maximum.
    TotalStakeTooHigh,
    /// The caller holds less than the amount asked for.
    InsufficientStake,
    /// The minimum stake given is above the maximum stake.
    MinStakeAboveMax,
    /// The reward rate given is zero.
    RewardRateNotPositive,
    /// The bounty is not active.
    BountyNotActive,
    /// The bounty's deadline has passed.
    BountyExpired,
    /// The bounty's deadline has not passed yet.
    BountyNotExpired,
    /// The bounty is not closed yet.
    BountyNotClosed,
    /// The bounty holds as many submissions as it may.
    TooManySubmissions,
    /// The caller has a submission on this bounty already.
    AlreadySubmitted,
    /// This content was submitted to this bounty already.
    DuplicateCreation,
    /// The bounty has admitted as many participants as it may.
    ParticipantLimitReached,
    /// The caller holds no stake on this bounty.
    NoStakeFound,
    /// Only the bounty's creator may close it before the grace period ends.
    NotAuthorizedToClose,
    /// Only the owner may call this.
    NotOwner,
    /// A money computation failed.
    Arithmetic(ArithmeticError),
    /// The market's balance does not cover the payout and the reserve.
    InsufficientBalance,
}

impl MarketError {
    /// The class of this rejection.
    pub open spec fn spec_kind(self) -> ErrorKind {
        match self {
            MarketError::BountyNotActive
            | MarketError::BountyExpired
            | MarketError::BountyNotExpired
            | MarketError::BountyNotClosed
            | MarketError::TooManySubmissions
            | MarketError::AlreadySubmitted
            | MarketError::DuplicateCreation
            | MarketError::ParticipantLimitReached
            | MarketError::NoStakeFound => ErrorKind::State,
            MarketError::NotAuthorizedToClose | MarketError::NotOwner => ErrorKind::Authorization,
            MarketError::Arithmetic(_) => ErrorKind::Arithmetic,
            MarketError::InsufficientBalance => ErrorKind::InsufficientFunds,
            _ => ErrorKind::Validation,
        }
    }

    /// The class of this rejection.
    #[verifier::when_used_as_spec(spec_kind)]
    pub fn kind(self) -> (r: ErrorKind)
        ensures
            r == self.spec_kind(),
    {
        match self {
            MarketError::BountyNotActive
            | MarketError::BountyExpired
            | MarketError::BountyNotExpired
            | MarketError::BountyNotClosed
            | MarketError::TooManySubmissions
            | MarketError::AlreadySubmitted
            | MarketError::DuplicateCreation
            | MarketError::ParticipantLimitReached
            | MarketError::NoStakeFound => ErrorKind::State,
            MarketError::NotAuthorizedToClose | MarketError::NotOwner => ErrorKind::Authorization,
            MarketError::Arithmetic(_) => ErrorKind::Arithmetic,
            MarketError::InsufficientBalance => ErrorKind::InsufficientFunds,
            _ => ErrorKind::Validation,
        }
    }
}

} // verus!
