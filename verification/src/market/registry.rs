//! Creating bounties and accepting submissions.

use crate::account::AccountId;
use crate::amount::{ArithmeticError, SafeAmount};
use crate::market::bounty::{
    backing, backing_amounts, stake_amounts, stake_totals, stakers_of, BookModel, Bounty,
    BountyBook, BountyModel, ContentSubmission, SubmissionModel, MAX_BOUNTY_STAKE,
    MAX_CREATOR_SHARE, MAX_SUBMISSIONS, MIN_BASE_PRIZE, MIN_BOUNTY_STAKE, MIN_CREATOR_SHARE,
};
use crate::error::MarketError;
use crate::market::{BountyPredictionContract, MarketModel};
use crate::sums::{lemma_sum_push, lemma_sum_zero};
use crate::text::{byte_len, fits_in, is_blank, is_blank_text};
use crate::payment::Payment;
use vstd::prelude::*;

verus! {

/// Share of the prize, in percent, that goes to the winning creator unless
/// the sponsor says otherwise.
pub const DEFAULT_CREATOR_SHARE: u8 = 90;

/// Share of the prize, in percent, that goes to the winning backers unless
/// the sponsor says otherwise.
pub const DEFAULT_BACKER_SHARE: u8 = 10;

/// Longest title, in bytes.
pub const MAX_TITLE_LEN: usize = 200;

/// Longest description, in bytes.
pub const MAX_DESCRIPTION_LEN: usize = 1000;

/// Longest requirements text, in bytes.
pub const MAX_REQUIREMENTS_LEN: usize = 2000;

/// Shortest duration of a bounty, in days.
pub const MIN_DURATION_DAYS: u64 = 1;

/// Longest duration of a bounty, in days.
pub const MAX_DURATION_DAYS: u64 = 90;

/// Length of a day on the host's clock, which counts nanoseconds.
pub const NANOS_PER_DAY: u64 = 86_400_000_000_000;

/// What a sponsor asks for when creating a bounty, and what the host knows
/// of the call.
pub struct BountyRequest {
    pub title: String,
    pub description: String,
    pub requirements: String,
    pub base_prize: SafeAmount,
    pub max_stake_per_user: SafeAmount,
    pub creator_share: Option<u8>,
    pub backer_share: Option<u8>,
    pub duration_days: u64,
}

/// What a bounty request is, mathematically.
pub struct RequestModel {
    pub title: Seq<char>,
    pub description: Seq<char>,
    pub requirements: Seq<char>,
    pub base_prize: nat,
    pub max_stake_per_user: nat,
    pub creator_share: Option<u8>,
    pub backer_share: Option<u8>,
    pub duration_days: u64,
}

impl View for BountyRequest {
    type V = RequestModel;

    open spec fn view(&self) -> RequestModel {
        RequestModel {
            title: self.title@,
            description: self.description@,
            requirements: self.requirements@,
            base_prize: self.base_prize@,
            max_stake_per_user: self.max_stake_per_user@,
            creator_share: self.creator_share,
            backer_share: self.backer_share,
            duration_days: self.duration_days,
        }
    }
}

/// The outcome of creating a bounty.
#[derive(Clone, Copy, Debug, PartialEq, Eq, Structural)]
pub struct BountyCreated {
    /// The id of the new bounty.
    pub bounty_id: u64,
    /// What the host returns to the sponsor: the payment less base prize and
    /// storage cost.
    pub refund: SafeAmount,
}

impl RequestModel {
    /// The creator share in force: the one asked for, or the default.
    pub open spec fn final_creator_share(self) -> u8 {
        match self.creator_share {
            Some(s) => s,
            None => DEFAULT_CREATOR_SHARE,
        }
    }

    /// The backer share in force: the one asked for, or the default.
    pub open spec fn final_backer_share(self) -> u8 {
        match self.backer_share {
            Some(s) => s,
            None => DEFAULT_BACKER_SHARE,
        }
    }

    /// The deadline of a bounty created at `now`, as a mathematical integer.
    pub open spec fn ends_at(self, now: u64) -> int {
        now + self.duration_days * NANOS_PER_DAY
    }

    /// The first rule that the request breaks, in the order in which the
    /// rules are checked; `None` where it breaks none.
    pub open spec fn flaw(self, attached_deposit: nat) -> Option<MarketError> {
        if is_blank_text(self.title) {
            Some(MarketError::EmptyTitle)
        } else if is_blank_text(self.description) {
            Some(MarketError::EmptyDescription)
        } else if is_blank_text(self.requirements) {
            Some(MarketError::EmptyRequirements)
        } else if byte_len(self.title) > MAX_TITLE_LEN {
            Some(MarketError::TitleTooLong)
        } else if byte_len(self.description) > MAX_DESCRIPTION_LEN {
            Some(MarketError::DescriptionTooLong)
        } else if byte_len(self.requirements) > MAX_REQUIREMENTS_LEN {
            Some(MarketError::RequirementsTooLong)
        } else if self.base_prize < MIN_BASE_PRIZE {
            Some(MarketError::BasePrizeTooLow)
        } else if attached_deposit < self.base_prize {
            Some(MarketError::DepositBelowBasePrize)
        } else if self.max_stake_per_user < MIN_BOUNTY_STAKE {
            Some(MarketError::MaxStakeTooLow)
        } else if self.max_stake_per_user > MAX_BOUNTY_STAKE {
            Some(MarketError::MaxStakeTooHigh)
        } else if self.final_creator_share() + self.final_backer_share() != 100 {
            Some(MarketError::SharesMustTotalHundred)
        } else if self.final_creator_share() < MIN_CREATOR_SHARE {
            Some(MarketError::CreatorShareTooLow)
        } else if self.final_creator_share() > MAX_CREATOR_SHARE {
            Some(MarketError::CreatorShareTooHigh)
        } else if self.duration_days < MIN_DURATION_DAYS {
            Some(MarketError::DurationTooShort)
        } else if self.duration_days > MAX_DURATION_DAYS {
            Some(MarketError::DurationTooLong)
        } else {
            None
        }
    }
}

impl MarketModel {
    /// Why a request to create a bounty is rejected; `None` where it is
    /// accepted. The request's own rules come first, then the clock, then the
    /// payment.
    pub open spec fn creation_error(self, now: u64, payment: Payment, request: RequestModel) -> Option<
        MarketError,
    > {
        if request.flaw(payment.attached_deposit@) is Some {
            request.flaw(payment.attached_deposit@)
        } else if request.ends_at(now) > u64::MAX {
            Some(MarketError::DurationOutOfRange)
        } else if self.next_bounty_id == u64::MAX {
            Some(MarketError::Arithmetic(ArithmeticError::Overflow))
        } else if payment.storage_cost() > u128::MAX || request.base_prize + payment.storage_cost()
            > u128::MAX {
            Some(MarketError::Arithmetic(ArithmeticError::Overflow))
        } else if payment.attached_deposit@ < request.base_prize + payment.storage_cost() {
            Some(MarketError::InsufficientDeposit)
        } else {
            None
        }
    }

    /// The bounty that an accepted request of `creator` at time `now` makes.
    pub open spec fn created_bounty(self, creator: Seq<char>, now: u64, request: RequestModel) -> BountyModel {
        BountyModel {
            id: self.next_bounty_id,
            title: request.title,
            description: request.description,
            requirements: request.requirements,
            submissions: Seq::empty(),
            creator,
            base_prize: request.base_prize,
            max_stake_per_user: request.max_stake_per_user,
            creator_share: request.final_creator_share(),
            backer_share: request.final_backer_share(),
            is_active: true,
            created_at: now,
            ends_at: request.ends_at(now) as u64,
            total_staked: 0,
            is_closed: false,
            winning_submission: None,
        }
    }

    /// The market once the bounty of an accepted request is recorded.
    pub open spec fn after_creation(self, creator: Seq<char>, now: u64, request: RequestModel) -> MarketModel {
        MarketModel {
            books: self.books.push(
                BookModel {
                    bounty: self.created_bounty(creator, now, request),
                    stakes: Seq::empty(),
                    participants: Seq::empty(),
                },
            ),
            next_bounty_id: (self.next_bounty_id + 1) as u64,
            ..self
        }
    }
}

/// Why a submission clashes with those already made: the submitter has one
/// already, or the content was submitted before. The earliest clashing
/// submission decides, and on it the submitter is looked at first.
pub open spec fn first_conflict(subs: Seq<SubmissionModel>, who: Seq<char>, creation: Seq<char>) -> Option<
    MarketError,
>
    decreases subs.len(),
{
    if subs.len() == 0 {
        None
    } else if subs[0].creator == who {
        Some(MarketError::AlreadySubmitted)
    } else if subs[0].creation_id == creation {
        Some(MarketError::DuplicateCreation)
    } else {
        first_conflict(subs.drop_first(), who, creation)
    }
}

/// Without a conflict, neither the submitter nor the content occurs among
/// the submissions.
pub proof fn lemma_no_conflict(subs: Seq<SubmissionModel>, who: Seq<char>, creation: Seq<char>)
    requires
        first_conflict(subs, who, creation) is None,
    ensures
        forall|i: int|
            0 <= i < subs.len() ==> (#[trigger] subs[i]).creator != who && subs[i].creation_id
                != creation,
    decreases subs.len(),
{
    if subs.len() > 0 {
        lemma_no_conflict(subs.drop_first(), who, creation);
        assert forall|i: int| 0 <= i < subs.len() implies (#[trigger] subs[i]).creator != who
            && subs[i].creation_id != creation by {
            if i > 0 {
                assert(subs.drop_first()[i - 1] == subs[i]);
            }
        }
    }
}

impl MarketModel {
    /// Why a submission is rejected; `None` where it is accepted.
    pub open spec fn submission_error(
        self,
        submitter: Seq<char>,
        now: u64,
        bounty_id: u64,
        creation_id: Seq<char>,
        title: Seq<char>,
    ) -> Option<MarketError> {
        if !self.has_bounty(bounty_id) {
            Some(MarketError::BountyNotFound)
        } else if !self.book(bounty_id).bounty.is_active {
            Some(MarketError::BountyNotActive)
        } else if now >= self.book(bounty_id).bounty.ends_at {
            Some(MarketError::BountyExpired)
        } else if self.book(bounty_id).bounty.submissions.len() >= MAX_SUBMISSIONS {
            Some(MarketError::TooManySubmissions)
        } else if is_blank_text(creation_id) {
            Some(MarketError::EmptyCreationId)
        } else if is_blank_text(title) {
            Some(MarketError::EmptyTitle)
        } else if byte_len(title) > MAX_TITLE_LEN {
            Some(MarketError::TitleTooLong)
        } else {
            first_conflict(self.book(bounty_id).bounty.submissions, submitter, creation_id)
        }
    }

    /// The market once an accepted submission is appended to its bounty,
    /// with no stake on it yet.
    pub open spec fn after_submission(
        self,
        submitter: Seq<char>,
        now: u64,
        bounty_id: u64,
        creation_id: Seq<char>,
        title: Seq<char>,
        thumbnail_url: Seq<char>,
    ) -> MarketModel
        recommends
            self.has_bounty(bounty_id),
    {
        self.with_book(
            bounty_id,
            self.book(bounty_id).with_submission(
                SubmissionModel {
                    creator: submitter,
                    creation_id,
                    title,
                    thumbnail_url,
                    total_staked: 0,
                    submitted_at: now,
                },
            ),
        )
    }
}

impl BookModel {
    /// The book with one more submission at the end.
    pub open spec fn with_submission(self, submission: SubmissionModel) -> BookModel {
        BookModel {
            bounty: BountyModel {
                submissions: self.bounty.submissions.push(submission),
                ..self.bounty
            },
            ..self
        }
    }
}

/// Appending a submission without stake, by a new creator and of new
/// content, to an open bounty that has room for it keeps the book well
/// formed.
pub proof fn lemma_submitted_wf(book: BookModel, submission: SubmissionModel)
    requires
        book.wf(),
        !book.bounty.is_closed,
        book.bounty.submissions.len() < MAX_SUBMISSIONS,
        submission.total_staked == 0,
        first_conflict(book.bounty.submissions, submission.creator, submission.creation_id)
            is None,
    ensures
        book.with_submission(submission).wf(),
{
    let subs = book.bounty.submissions;
    let after = book.with_submission(submission);
    let new_subs = after.bounty.submissions;
    lemma_no_conflict(subs, submission.creator, submission.creation_id);
    assert(stake_totals(new_subs) =~= stake_totals(subs).push(0));
    lemma_sum_push(stake_totals(subs), 0);
    assert forall|j: int| 0 <= j < new_subs.len() implies #[trigger] backing(after.stakes, j)
        == new_subs[j].total_staked by {
        if j < subs.len() {
            assert(backing(book.stakes, j) == subs[j].total_staked);
        } else {
            assert forall|i: int| 0 <= i < book.stakes.len() implies backing_amounts(
                book.stakes,
                j,
            )[i] == 0 by {
                assert(book.stakes[i].stake.submission_index < subs.len());
            }
            lemma_sum_zero(backing_amounts(book.stakes, j));
        }
    }
}

/// An accepted request makes a bounty whose book, without submissions and
/// stakes, is well formed.
pub proof fn lemma_created_wf(m: MarketModel, creator: Seq<char>, now: u64, payment: Payment, request: RequestModel)
    requires
        m.wf(),
        m.creation_error(now, payment, request) is None,
    ensures
        m.after_creation(creator, now, request).wf(),
        m.after_creation(creator, now, request).book(m.next_bounty_id).bounty == m.created_bounty(
            creator,
            now,
            request,
        ),
{
    let after = m.after_creation(creator, now, request);
    let book = after.books[m.books.len() as int];
    assert(stake_totals(book.bounty.submissions) =~= Seq::empty());
    assert(stakers_of(book.stakes) =~= book.participants);
    assert(stake_amounts(book.stakes) =~= Seq::empty());
    assert(request.duration_days * NANOS_PER_DAY >= 0) by (nonlinear_arith)
        requires
            request.duration_days >= 0,
            NANOS_PER_DAY >= 0,
    ;
    assert(book.wf());
    assert forall|i: int| 0 <= i < after.books.len() implies (#[trigger] after.books[i]).wf()
        && after.books[i].bounty.id == i + 1 by {
        if i < m.books.len() {
            assert(after.books[i] == m.books[i]);
        }
    }
}

impl BountyRequest {
    /// The first rule that the request breaks, if it breaks any.
    pub fn check(&self, attached_deposit: SafeAmount) -> (r: Option<MarketError>)
        ensures
            r == self@.flaw(attached_deposit@),
    {
        if is_blank(self.title.as_str()) {
            return Some(MarketError::EmptyTitle);
        }
        if is_blank(self.description.as_str()) {
            return Some(MarketError::EmptyDescription);
        }
        if is_blank(self.requirements.as_str()) {
            return Some(MarketError::EmptyRequirements);
        }
        if !fits_in(self.title.as_str(), MAX_TITLE_LEN) {
            return Some(MarketError::TitleTooLong);
        }
        if !fits_in(self.description.as_str(), MAX_DESCRIPTION_LEN) {
            return Some(MarketError::DescriptionTooLong);
        }
        if !fits_in(self.requirements.as_str(), MAX_REQUIREMENTS_LEN) {
            return Some(MarketError::RequirementsTooLong);
        }
        if self.base_prize.as_yoctonear() < MIN_BASE_PRIZE {
            return Some(MarketError::BasePrizeTooLow);
        }
        if attached_deposit.as_yoctonear() < self.base_prize.as_yoctonear() {
            return Some(MarketError::DepositBelowBasePrize);
        }
        if self.max_stake_per_user.as_yoctonear() < MIN_BOUNTY_STAKE {
            return Some(MarketError::MaxStakeTooLow);
        }
        if self.max_stake_per_user.as_yoctonear() > MAX_BOUNTY_STAKE {
            return Some(MarketError::MaxStakeTooHigh);
        }
        let creator_share: u8 = match self.creator_share {
            Some(s) => s,
            None => DEFAULT_CREATOR_SHARE,
        };
        let backer_share: u8 = match self.backer_share {
            Some(s) => s,
            None => DEFAULT_BACKER_SHARE,
        };
        if creator_share as u16 + backer_share as u16 != 100 {
            return Some(MarketError::SharesMustTotalHundred);
        }
        if creator_share < MIN_CREATOR_SHARE {
            return Some(MarketError::CreatorShareTooLow);
        }
        if creator_share > MAX_CREATOR_SHARE {
            return Some(MarketError::CreatorShareTooHigh);
        }
        if self.duration_days < MIN_DURATION_DAYS {
            return Some(MarketError::DurationTooShort);
        }
        if self.duration_days > MAX_DURATION_DAYS {
            return Some(MarketError::DurationTooLong);
        }
        None
    }
}

impl BountyPredictionContract {
    /// Creates a bounty for `creator` at time `now`. The request is checked
    /// before anything changes; an accepted request gets the next id and is
    /// stored as an active bounty without submissions. The payment must cover
    /// the base prize and the storage the call adds; the rest is refunded.
    pub fn create_content_bounty(
        &mut self,
        creator: AccountId,
        now: u64,
        payment: Payment,
        request: BountyRequest,
    ) -> (r: Result<BountyCreated, MarketError>)
        requires
            old(self).wf(),
        ensures
            final(self).wf(),
            match r {
                Ok(created) => {
                    &&& old(self)@.creation_error(now, payment, request@) is None
                    &&& final(self)@ == old(self)@.after_creation(creator@, now, request@)
                    &&& created.bounty_id == old(self)@.next_bounty_id
                    &&& created.refund@ == payment.attached_deposit@ - request@.base_prize
                        - payment.storage_cost()
                },
                Err(e) => {
                    &&& old(self)@.creation_error(now, payment, request@) == Some(e)
                    &&& *final(self) == *old(self)
                },
            },
    {
        if let Some(e) = request.check(payment.attached_deposit) {
            return Err(e);
        }
        assert(request.duration_days * NANOS_PER_DAY <= 90 * 86_400_000_000_000)
            by (nonlinear_arith)
            requires
                request.duration_days <= 90,
                NANOS_PER_DAY == 86_400_000_000_000,
        ;
        let duration_ns: u64 = request.duration_days * NANOS_PER_DAY;
        let ends_at: u64 = match now.checked_add(duration_ns) {
            Some(t) => t,
            None => {
                return Err(MarketError::DurationOutOfRange);
            },
        };
        if self.next_bounty_id == u64::MAX {
            return Err(MarketError::Arithmetic(ArithmeticError::Overflow));
        }
        let storage_cost = match payment.storage_byte_cost.checked_mul(
            payment.storage_used as u128,
        ) {
            Ok(c) => c,
            Err(e) => {
                assert(payment.storage_byte_cost@ * (payment.storage_used as u128)
                    == payment.storage_cost()) by (nonlinear_arith);
                return Err(MarketError::Arithmetic(e));
            },
        };
        assert(storage_cost@ == payment.storage_cost()) by (nonlinear_arith)
            requires
                storage_cost@ == payment.storage_byte_cost@ * (payment.storage_used as u128),
                payment.storage_cost() == payment.storage_used as nat * payment.storage_byte_cost@,
        ;
        let total_required = match request.base_prize.checked_add(storage_cost) {
            Ok(t) => t,
            Err(e) => {
                return Err(MarketError::Arithmetic(e));
            },
        };
        let refund = match payment.attached_deposit.checked_sub(total_required) {
            Ok(rest) => rest,
            Err(_) => {
                return Err(MarketError::InsufficientDeposit);
            },
        };
        let bounty_id = self.next_bounty_id;
        let creator_share: u8 = match request.creator_share {
            Some(s) => s,
            None => DEFAULT_CREATOR_SHARE,
        };
        let backer_share: u8 = match request.backer_share {
            Some(s) => s,
            None => DEFAULT_BACKER_SHARE,
        };
        let ghost request_model = request@;
        let bounty = Bounty {
            id: bounty_id,
            title: request.title,
            description: request.description,
            requirements: request.requirements,
            submissions: Vec::new(),
            creator,
            base_prize: request.base_prize,
            max_stake_per_user: request.max_stake_per_user,
            creator_share,
            backer_share,
            is_active: true,
            created_at: now,
            ends_at,
            total_staked: SafeAmount::from_yoctonear(0),
            is_closed: false,
            winning_submission: None,
        };
        let book = BountyBook { bounty, stakes: Vec::new(), participants: Vec::new() };
        proof {
            lemma_created_wf(old(self)@, creator@, now, payment, request_model);
            assert(book@.bounty.submissions =~= Seq::empty());
            assert(book@.stakes =~= Seq::empty());
            assert(book@.participants =~= Seq::empty());
            assert(book@.bounty == old(self)@.created_bounty(creator@, now, request_model));
        }
        self.books.push(book);
        self.next_bounty_id = self.next_bounty_id + 1;
        proof {
            assert(self@.books =~= old(self)@.books.push(book@));
            assert(self@ == old(self)@.after_creation(creator@, now, request_model));
        }
        Ok(BountyCreated { bounty_id, refund })
    }

    /// Appends a submission of `submitter` to a bounty that is still open at
    /// time `now`, and returns its index. A creator has one submission per
    /// bounty at most, and a content reference occurs once at most.
    #[verifier::loop_isolation(false)]
    pub fn submit_content(
        &mut self,
        submitter: AccountId,
        now: u64,
        bounty_id: u64,
        creation_id: String,
        title: String,
        thumbnail_url: String,
    ) -> (r: Result<u64, MarketError>)
        requires
            old(self).wf(),
        ensures
            final(self).wf(),
            match r {
                Ok(index) => {
                    &&& old(self)@.submission_error(submitter@, now, bounty_id, creation_id@, title@)
                        is None
                    &&& final(self)@ == old(self)@.after_submission(
                        submitter@,
                        now,
                        bounty_id,
                        creation_id@,
                        title@,
                        thumbnail_url@,
                    )
                    &&& index == old(self)@.book(bounty_id).bounty.submissions.len()
                },
                Err(e) => {
                    &&& old(self)@.submission_error(submitter@, now, bounty_id, creation_id@, title@)
                        == Some(e)
                    &&& *final(self) == *old(self)
                },
            },
    {
        let idx = match self.book_index(bounty_id) {
            Some(idx) => idx,
            None => {
                return Err(MarketError::BountyNotFound);
            },
        };
        let ghost book = old(self)@.book(bounty_id);
        let ghost subs = book.bounty.submissions;
        assert(book == self.books@[idx as int]@);
        assert(book.wf());
        if !self.books[idx].bounty.is_active {
            return Err(MarketError::BountyNotActive);
        }
        if now >= self.books[idx].bounty.ends_at {
            return Err(MarketError::BountyExpired);
        }
        if self.books[idx].bounty.submissions.len() >= MAX_SUBMISSIONS {
            return Err(MarketError::TooManySubmissions);
        }
        if is_blank(creation_id.as_str()) {
            return Err(MarketError::EmptyCreationId);
        }
        if is_blank(title.as_str()) {
            return Err(MarketError::EmptyTitle);
        }
        if !fits_in(title.as_str(), MAX_TITLE_LEN) {
            return Err(MarketError::TitleTooLong);
        }
        let count = self.books[idx].bounty.submissions.len();
        let mut i: usize = 0;
        assert(subs.skip(0) =~= subs);
        while i < count
            invariant
                i <= count,
                idx < self.books.len(),
                count == self.books[idx as int].bounty.submissions.len(),
                subs == self.books[idx as int].bounty@.submissions,
                *self == *old(self),
                first_conflict(subs, submitter@, creation_id@) == first_conflict(
                    subs.skip(i as int),
                    submitter@,
                    creation_id@,
                ),
            decreases count - i,
        {
            let existing = &self.books[idx].bounty.submissions[i];
            assert(existing@ == subs[i as int]);
            assert(subs.skip(i as int)[0] == subs[i as int]);
            assert(subs.skip(i as int).drop_first() =~= subs.skip(i as int + 1));
            if existing.creator.is(&submitter) {
                return Err(MarketError::AlreadySubmitted);
            }
            if existing.creation_id == creation_id {
                return Err(MarketError::DuplicateCreation);
            }
            i = i + 1;
        }
        assert(subs.skip(count as int) =~= Seq::empty());
        let submission = ContentSubmission {
            creator: submitter,
            creation_id,
            title,
            thumbnail_url,
            total_staked: SafeAmount::from_yoctonear(0),
            submitted_at: now,
        };
        self.books[idx].bounty.submissions.push(submission);
        proof {
            let new_book = self.books@[idx as int]@;
            let new_subs = new_book.bounty.submissions;
            assert(new_subs =~= subs.push(submission@));
            assert(new_book.stakes =~= book.stakes);
            assert(new_book.participants =~= book.participants);
            lemma_submitted_wf(book, submission@);
            assert(new_book == book.with_submission(submission@));
            assert(self@.books =~= old(self)@.books.update(idx as int, new_book));
            assert(self@ == old(self)@.after_submission(
                submitter@,
                now,
                bounty_id,
                creation_id@,
                title@,
                thumbnail_url@,
            ));
        }
        Ok(count as u64)
    }
}

} // verus!
