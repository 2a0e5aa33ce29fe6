//! The records as callers read them, with amounts as bare unit counts.

use crate::account::AccountId;
use crate::amount::U128;
use crate::market::bounty::{Bounty, BountyModel, ContentSubmission, ParticipantStake, SubmissionModel};
use crate::staking::StakeInfo;
use vstd::prelude::*;

verus! {

/// A submission as callers read it.
#[derive(Debug, PartialEq, Eq)]
pub struct ContentSubmissionView {
    pub creator: AccountId,
    pub creation_id: String,
    pub title: String,
    pub thumbnail_url: String,
    pub total_staked: U128,
    pub submitted_at: u64,
}

impl View for ContentSubmissionView {
    type V = SubmissionModel;

    open spec fn view(&self) -> SubmissionModel {
        SubmissionModel {
            creator: self.creator@,
            creation_id: self.creation_id@,
            title: self.title@,
            thumbnail_url: self.thumbnail_url@,
            total_staked: self.total_staked.0 as nat,
            submitted_at: self.submitted_at,
        }
    }
}

impl ContentSubmissionView {
    /// The submission as callers read it.
    pub fn from(sub: &ContentSubmission) -> (r: ContentSubmissionView)
        ensures
            r@ == sub@,
    {
        ContentSubmissionView {
            creator: sub.creator.clone(),
            creation_id: sub.creation_id.clone(),
            title: sub.title.clone(),
            thumbnail_url: sub.thumbnail_url.clone(),
            total_staked: U128(sub.total_staked.as_yoctonear()),
            submitted_at: sub.submitted_at,
        }
    }
}

/// The models of a run of submission views, in order.
pub open spec fn submission_view_models(s: Seq<ContentSubmissionView>) -> Seq<SubmissionModel> {
    Seq::new(s.len(), |i: int| s[i]@)
}

/// A bounty as callers read it.
#[derive(Debug, PartialEq, Eq)]
pub struct BountyView {
    pub id: u64,
    pub title: String,
    pub description: String,
    pub requirements: String,
    pub submissions: Vec<ContentSubmissionView>,
    pub creator: AccountId,
    pub base_prize: U128,
    pub max_stake_per_user: U128,
    pub creator_share: u8,
    pub backer_share: u8,
    pub is_active: bool,
    pub created_at: u64,
    pub ends_at: u64,
    pub total_staked: U128,
    pub is_closed: bool,
    pub winning_submission: Option<u64>,
}

impl View for BountyView {
    type V = BountyModel;

    open spec fn view(&self) -> BountyModel {
        BountyModel {
            id: self.id,
            title: self.title@,
            description: self.description@,
            requirements: self.requirements@,
            submissions: submission_view_models(self.submissions@),
            creator: self.creator@,
            base_prize: self.base_prize.0 as nat,
            max_stake_per_user: self.max_stake_per_user.0 as nat,
            creator_share: self.creator_share,
            backer_share: self.backer_share,
            is_active: self.is_active,
            created_at: self.created_at,
            ends_at: self.ends_at,
            total_staked: self.total_staked.0 as nat,
            is_closed: self.is_closed,
            winning_submission: self.winning_submission,
        }
    }
}

impl BountyView {
    /// The bounty as callers read it.
    pub fn from(bounty: &Bounty) -> (r: BountyView)
        ensures
            r@ == bounty@,
    {
        let mut submissions: Vec<ContentSubmissionView> = Vec::new();
        let mut i: usize = 0;
        while i < bounty.submissions.len()
            invariant
                i <= bounty.submissions.len(),
                submissions.len() == i,
                forall|j: int| 0 <= j < i ==> (#[trigger] submissions@[j])@ == bounty.submissions@[j]@,
            decreases bounty.submissions.len() - i,
        {
            submissions.push(ContentSubmissionView::from(&bounty.submissions[i]));
            i = i + 1;
        }
        let view = BountyView {
            id: bounty.id,
            title: bounty.title.clone(),
            description: bounty.description.clone(),
            requirements: bounty.requirements.clone(),
            submissions,
            creator: bounty.creator.clone(),
            base_prize: U128(bounty.base_prize.as_yoctonear()),
            max_stake_per_user: U128(bounty.max_stake_per_user.as_yoctonear()),
            creator_share: bounty.creator_share,
            backer_share: bounty.backer_share,
            is_active: bounty.is_active,
            created_at: bounty.created_at,
            ends_at: bounty.ends_at,
            total_staked: U128(bounty.total_staked.as_yoctonear()),
            is_closed: bounty.is_closed,
            winning_submission: bounty.winning_submission,
        };
        assert(view@.submissions =~= bounty@.submissions);
        view
    }
}

/// The models of a run of bounty views, in order.
pub open spec fn bounty_view_models(s: Seq<BountyView>) -> Seq<BountyModel> {
    Seq::new(s.len(), |i: int| s[i]@)
}

/// A participant's stake as callers read it.
#[derive(Clone, Copy, Debug, PartialEq, Eq, Structural)]
pub struct ParticipantStakeView {
    pub bounty_id: u64,
    pub submission_index: u64,
    pub amount: U128,
    pub staked_at: u64,
}

/// The stake `stake` as callers read it.
pub open spec fn stake_view(stake: ParticipantStake) -> ParticipantStakeView {
    ParticipantStakeView {
        bounty_id: stake.bounty_id,
        submission_index: stake.submission_index,
        amount: U128(stake.amount.yocto),
        staked_at: stake.staked_at,
    }
}

impl ParticipantStakeView {
    /// The stake as callers read it.
    pub fn from(stake: ParticipantStake) -> (r: ParticipantStakeView)
        ensures
            r == stake_view(stake),
    {
        ParticipantStakeView {
            bounty_id: stake.bounty_id,
            submission_index: stake.submission_index,
            amount: U128(stake.amount.as_yoctonear()),
            staked_at: stake.staked_at,
        }
    }
}

/// A stake held for time-based rewards, as callers read it.
#[derive(Clone, Copy, Debug, PartialEq, Eq, Structural)]
pub struct StakeInfoView {
    pub amount: U128,
    pub staked_at: u64,
    pub last_reward_claim: u64,
}

/// The stake `info` as callers read it.
pub open spec fn stake_info_view(info: StakeInfo) -> StakeInfoView {
    StakeInfoView {
        amount: U128(info.amount.yocto),
        staked_at: info.staked_at,
        last_reward_claim: info.last_reward_claim,
    }
}

impl StakeInfoView {
    /// The stake as callers read it.
    pub fn from(info: StakeInfo) -> (r: StakeInfoView)
        ensures
            r == stake_info_view(info),
    {
        StakeInfoView {
            amount: U128(info.amount.as_yoctonear()),
            staked_at: info.staked_at,
            last_reward_claim: info.last_reward_claim,
        }
    }
}

} // verus!
