//! The records the market keeps, and the mathematical model of each.

use crate::account::{account_names, AccountId};
use crate::amount::{SafeAmount, ONE_MILLINEAR, ONE_NEAR};
use crate::market::settlement::is_winner;
use crate::sums::seq_sum;
use vstd::prelude::*;

verus! {

/// Most submissions a bounty accepts.
pub const MAX_SUBMISSIONS: usize = 100;

/// Most distinct participants a bounty admits.
pub const MAX_PARTICIPANTS_PER_BOUNTY: usize = 150;

/// Smallest share of the prize, in percent, that may go to the winning creator.
pub const MIN_CREATOR_SHARE: u8 = 30;

/// Largest share of the prize, in percent, that may go to the winning creator.
pub const MAX_CREATOR_SHARE: u8 = 90;

/// Smallest base prize: one whole token.
pub const MIN_BASE_PRIZE: u128 = ONE_NEAR;

/// Smallest per-participant stake limit: a tenth of a token.
pub const MIN_BOUNTY_STAKE: u128 = 100 * ONE_MILLINEAR;

/// Largest per-participant stake limit: ten thousand tokens.
pub const MAX_BOUNTY_STAKE: u128 = 10_000 * ONE_NEAR;

/// A competing entry of one creator within a bounty.
#[derive(Debug, PartialEq, Eq)]
pub struct ContentSubmission {
    pub creator: AccountId,
    pub creation_id: String,
    pub title: String,
    pub thumbnail_url: String,
    pub total_staked: SafeAmount,
    pub submitted_at: u64,
}

/// What a submission is, mathematically.
pub struct SubmissionModel {
    pub creator: Seq<char>,
    pub creation_id: Seq<char>,
    pub title: Seq<char>,
    pub thumbnail_url: Seq<char>,
    pub total_staked: nat,
    pub submitted_at: u64,
}

impl View for ContentSubmission {
    type V = SubmissionModel;

    open spec fn view(&self) -> SubmissionModel {
        SubmissionModel {
            creator: self.creator@,
            creation_id: self.creation_id@,
            title: self.title@,
            thumbnail_url: self.thumbnail_url@,
            total_staked: self.total_staked@,
            submitted_at: self.submitted_at,
        }
    }
}

impl Clone for ContentSubmission {
    fn clone(&self) -> (r: Self)
        ensures
            r == *self,
    {
        ContentSubmission {
            creator: self.creator.clone(),
            creation_id: self.creation_id.clone(),
            title: self.title.clone(),
            thumbnail_url: self.thumbnail_url.clone(),
            total_staked: self.total_staked,
            submitted_at: self.submitted_at,
        }
    }
}

/// The models of a run of submissions, in order.
pub open spec fn submission_models(s: Seq<ContentSubmission>) -> Seq<SubmissionModel> {
    Seq::new(s.len(), |i: int| s[i]@)
}

/// A funded competition with a deadline, its submissions and its stake total.
#[derive(Debug, PartialEq, Eq)]
pub struct Bounty {
    pub id: u64,
    pub title: String,
    pub description: String,
    pub requirements: String,
    pub submissions: Vec<ContentSubmission>,
    pub creator: AccountId,
    pub base_prize: SafeAmount,
    pub max_stake_per_user: SafeAmount,
    pub creator_share: u8,
    pub backer_share: u8,
    pub is_active: bool,
    pub created_at: u64,
    pub ends_at: u64,
    pub total_staked: SafeAmount,
    pub is_closed: bool,
    pub winning_submission: Option<u64>,
}

/// What a bounty is, mathematically.
pub struct BountyModel {
    pub id: u64,
    pub title: Seq<char>,
    pub description: Seq<char>,
    pub requirements: Seq<char>,
    pub submissions: Seq<SubmissionModel>,
    pub creator: Seq<char>,
    pub base_prize: nat,
    pub max_stake_per_user: nat,
    pub creator_share: u8,
    pub backer_share: u8,
    pub is_active: bool,
    pub created_at: u64,
    pub ends_at: u64,
    pub total_staked: nat,
    pub is_closed: bool,
    pub winning_submission: Option<u64>,
}

impl View for Bounty {
    type V = BountyModel;

    open spec fn view(&self) -> BountyModel {
        BountyModel {
            id: self.id,
            title: self.title@,
            description: self.description@,
            requirements: self.requirements@,
            submissions: submission_models(self.submissions@),
            creator: self.creator@,
            base_prize: self.base_prize@,
            max_stake_per_user: self.max_stake_per_user@,
            creator_share: self.creator_share,
            backer_share: self.backer_share,
            is_active: self.is_active,
            created_at: self.created_at,
            ends_at: self.ends_at,
            total_staked: self.total_staked@,
            is_closed: self.is_closed,
            winning_submission: self.winning_submission,
        }
    }
}

/// The stake totals of a run of submissions, in order.
pub open spec fn stake_totals(subs: Seq<SubmissionModel>) -> Seq<nat> {
    Seq::new(subs.len(), |i: int| subs[i].total_staked)
}

/// Sum of the stake totals of a run of submissions.
pub open spec fn staked_sum(subs: Seq<SubmissionModel>) -> nat {
    seq_sum(stake_totals(subs))
}

impl BountyModel {
    /// No two submissions share a creator, and none share a content reference.
    pub open spec fn submissions_distinct(self) -> bool {
        forall|i: int, j: int|
            0 <= i < j < self.submissions.len() ==> {
                &&& (#[trigger] self.submissions[i]).creator != (
                #[trigger] self.submissions[j]).creator
                &&& self.submissions[i].creation_id != self.submissions[j].creation_id
            }
    }

    /// What holds of every bounty the market keeps.
    pub open spec fn wf(self) -> bool {
        &&& self.creator_share + self.backer_share == 100
        &&& MIN_CREATOR_SHARE <= self.creator_share <= MAX_CREATOR_SHARE
        &&& self.submissions.len() <= MAX_SUBMISSIONS
        &&& staked_sum(self.submissions) == self.total_staked
        &&& self.total_staked <= u128::MAX
        &&& MIN_BASE_PRIZE <= self.base_prize <= u128::MAX
        &&& MIN_BOUNTY_STAKE <= self.max_stake_per_user <= MAX_BOUNTY_STAKE
        &&& self.submissions_distinct()
        &&& self.is_active == !self.is_closed
        &&& self.created_at <= self.ends_at
        &&& (self.winning_submission matches Some(w) ==> {
            &&& self.is_closed
            &&& w < self.submissions.len()
            &&& is_winner(self.submissions, w as int)
            &&& self.base_prize + self.total_staked <= u128::MAX
        })
    }

    /// Whether submissions and stakes are still accepted at time `now`.
    pub open spec fn is_open_at(self, now: u64) -> bool {
        self.is_active && !self.is_closed && now < self.ends_at
    }
}

/// The stake one participant holds on one bounty.
#[derive(Clone, Copy, Debug, PartialEq, Eq, Structural)]
pub struct ParticipantStake {
    pub bounty_id: u64,
    pub submission_index: u64,
    pub amount: SafeAmount,
    pub staked_at: u64,
}

/// A participant together with the stake they hold.
#[derive(Debug, PartialEq, Eq)]
pub struct StakeEntry {
    pub staker: AccountId,
    pub stake: ParticipantStake,
}

/// What a stake entry is, mathematically.
pub struct StakeModel {
    pub staker: Seq<char>,
    pub stake: ParticipantStake,
}

impl View for StakeEntry {
    type V = StakeModel;

    open spec fn view(&self) -> StakeModel {
        StakeModel { staker: self.staker@, stake: self.stake }
    }
}

/// The models of a run of stake entries, in order.
pub open spec fn stake_models(s: Seq<StakeEntry>) -> Seq<StakeModel> {
    Seq::new(s.len(), |i: int| s[i]@)
}

/// The amounts of a run of stake entries, in order.
pub open spec fn stake_amounts(s: Seq<StakeModel>) -> Seq<nat> {
    Seq::new(s.len(), |i: int| s[i].stake.amount@)
}

/// What each of a run of stake entries puts on submission `j`, in order:
/// its amount where it backs that submission, nothing where it backs another.
pub open spec fn backing_amounts(s: Seq<StakeModel>, j: int) -> Seq<nat> {
    Seq::new(
        s.len(),
        |i: int|
            if s[i].stake.submission_index == j {
                s[i].stake.amount@
            } else {
                0
            },
    )
}

/// What a run of stake entries puts on submission `j` in all.
pub open spec fn backing(s: Seq<StakeModel>, j: int) -> nat {
    seq_sum(backing_amounts(s, j))
}

/// The stakers of a run of stake entries, in order.
pub open spec fn stakers_of(s: Seq<StakeModel>) -> Seq<Seq<char>> {
    Seq::new(s.len(), |i: int| s[i].staker)
}

/// A bounty with everything the market records about its participants.
#[derive(Debug, PartialEq, Eq)]
pub struct BountyBook {
    pub bounty: Bounty,
    /// The live stakes, one per participant at most.
    pub stakes: Vec<StakeEntry>,
    /// Everyone who ever staked on the bounty, in order of admission.
    pub participants: Vec<AccountId>,
}

/// What a bounty's book is, mathematically.
pub struct BookModel {
    pub bounty: BountyModel,
    pub stakes: Seq<StakeModel>,
    pub participants: Seq<Seq<char>>,
}

impl View for BountyBook {
    type V = BookModel;

    open spec fn view(&self) -> BookModel {
        BookModel {
            bounty: self.bounty@,
            stakes: stake_models(self.stakes@),
            participants: account_names(self.participants@),
        }
    }
}

/// The models of a run of books, in order.
pub open spec fn book_models(s: Seq<BountyBook>) -> Seq<BookModel> {
    Seq::new(s.len(), |i: int| s[i]@)
}

impl BookModel {
    /// Position of `who` among the live stakes, if they hold one.
    pub open spec fn stake_position(self, who: Seq<char>) -> Option<int> {
        if exists|i: int| 0 <= i < self.stakes.len() && self.stakes[i].staker == who {
            Some(choose|i: int| 0 <= i < self.stakes.len() && self.stakes[i].staker == who)
        } else {
            None
        }
    }

    /// The live stake of `who` on this bounty, if they hold one.
    pub open spec fn stake_of(self, who: Seq<char>) -> Option<ParticipantStake> {
        match self.stake_position(who) {
            Some(i) => Some(self.stakes[i].stake),
            None => None,
        }
    }

    /// What holds of every book the market keeps.
    pub open spec fn wf(self) -> bool {
        &&& self.bounty.wf()
        &&& self.participants.len() <= MAX_PARTICIPANTS_PER_BOUNTY
        &&& self.participants.no_duplicates()
        &&& stakers_of(self.stakes).no_duplicates()
        &&& self.stakes.len() <= self.participants.len()
        &&& (!self.bounty.is_closed ==> stakers_of(self.stakes) == self.participants)
        &&& (self.bounty.is_closed && self.bounty.winning_submission is None
            ==> self.participants.len() <= 1 || self.bounty.total_staked == 0)
        &&& (!self.bounty.is_closed ==> seq_sum(stake_amounts(self.stakes))
            == self.bounty.total_staked)
        &&& forall|j: int|
            0 <= j < self.bounty.submissions.len() ==> #[trigger] backing(self.stakes, j)
                <= self.bounty.submissions[j].total_staked
        &&& (!self.bounty.is_closed ==> forall|j: int|
            0 <= j < self.bounty.submissions.len() ==> #[trigger] backing(self.stakes, j)
                == self.bounty.submissions[j].total_staked)
        &&& forall|i: int|
            0 <= i < self.stakes.len() ==> {
                &&& (#[trigger] self.stakes[i]).stake.bounty_id == self.bounty.id
                &&& self.stakes[i].stake.submission_index < self.bounty.submissions.len()
                &&& 0 < self.stakes[i].stake.amount@ <= self.bounty.max_stake_per_user
            }
    }
}

} // verus!
