//! Polls: a community votes on options, and the recipients behind the
//! winning options share a reward.

pub mod running;

use crate::account::{account_names, AccountId};
use crate::amount::{ArithmeticError, SafeAmount};
use crate::payment::Payment;
use crate::sums::{lemma_sum_at_most, lemma_sum_bounds, lemma_sum_push, lemma_sum_update, seq_sum};
use crate::text::trimmed;
use vstd::prelude::*;

verus! {

/// Most voters a poll counts.
pub const MAX_VOTERS_PER_POLL: u64 = 100_000_000;

/// Most options a poll offers.
pub const MAX_OPTIONS_PER_POLL: usize = 100;

/// Longest duration of a poll, in minutes: one year.
pub const MAX_DURATION_MINUTES: u64 = 525_600;

/// Smallest reward a poll may carry, if it carries one.
pub const MIN_REWARD_YOCTO: u128 = 100_000_000_000_000_000_000_000;

/// Largest reward a poll may carry.
pub const MAX_REWARD_YOCTO: u128 = 100_000_000_000_000_000_000_000_000_000_000;

/// Longest title, in characters.
pub const TITLE_MAX: usize = 120;

/// Shortest criteria, in characters.
pub const CRITERIA_MIN: usize = 8;

/// Longest criteria, in characters.
pub const CRITERIA_MAX: usize = 200;

/// Longest details, in characters.
pub const DETAILS_MAX: usize = 600;

/// Highest platform fee, in basis points of the reward.
pub const MAX_FEE_BPS: u16 = 2000;

/// Ticks of the host's clock in a minute.
pub const NANOS_PER_MINUTE: u64 = 60_000_000_000;

/// Why a call on the polls is rejected.
#[derive(Clone, Copy, Debug, PartialEq, Eq, Structural)]
pub enum PollError {
    TitleEmpty,
    TitleTooLong,
    CriteriaTooShort,
    CriteriaTooLong,
    DetailsTooLong,
    TooFewOptions,
    TooManyOptions,
    /// The option at this index has an empty label.
    EmptyOption(u64),
    DurationNotPositive,
    DurationTooLong,
    RewardTooSmall,
    RewardTooLarge,
    /// The deadline would lie beyond the range of the clock.
    DurationOutOfRange,
    InsufficientDeposit,
    PollNotFound,
    PollNotActive,
    PollAlreadyClosed,
    NotWhitelisted,
    PollExpired,
    CreatorVotingDisabled,
    InvalidOptionIndex,
    VoterLimitReached,
    NotCreator,
    NotOwner,
    FeeTooHigh,
    Arithmetic(ArithmeticError),
}

/// An option as a poll's creator hands it in.
#[derive(Debug, PartialEq, Eq)]
pub struct OptionInput {
    pub label: String,
    pub recipient: AccountId,
}

/// An option of a poll: what voters read, and who is rewarded if it wins.
#[derive(Debug, PartialEq, Eq)]
pub struct OptionEntry {
    pub label: String,
    pub recipient: AccountId,
}

/// What an option is, mathematically.
pub struct OptionModel {
    pub label: Seq<char>,
    pub recipient: Seq<char>,
}

impl View for OptionInput {
    type V = OptionModel;

    open spec fn view(&self) -> OptionModel {
        OptionModel { label: self.label@, recipient: self.recipient@ }
    }
}

impl View for OptionEntry {
    type V = OptionModel;

    open spec fn view(&self) -> OptionModel {
        OptionModel { label: self.label@, recipient: self.recipient@ }
    }
}

impl Clone for OptionEntry {
    fn clone(&self) -> (r: Self)
        ensures
            r == *self,
    {
        OptionEntry { label: self.label.clone(), recipient: self.recipient.clone() }
    }
}

/// The models of a run of option inputs, in order.
pub open spec fn input_models(s: Seq<OptionInput>) -> Seq<OptionModel> {
    Seq::new(s.len(), |i: int| s[i]@)
}

/// The models of a run of options, in order.
pub open spec fn option_models(s: Seq<OptionEntry>) -> Seq<OptionModel> {
    Seq::new(s.len(), |i: int| s[i]@)
}

/// A poll.
#[derive(Debug, PartialEq, Eq)]
pub struct Poll {
    pub id: u64,
    pub title: String,
    /// What voters are asked to judge by.
    pub criteria: String,
    pub description: Option<String>,
    pub options: Vec<OptionEntry>,
    /// Votes per option, in the order of the options.
    pub votes: Vec<u64>,
    pub creator: AccountId,
    pub is_active: bool,
    /// Whether anyone may vote, or only the whitelisted.
    pub is_open: bool,
    pub created_at: u64,
    pub ends_at: Option<u64>,
    /// The reward held for the winners.
    pub reward_yocto: u128,
    pub payout_done: bool,
    pub total_voters: u64,
    pub allow_creator_vote: bool,
}

/// What a poll is, mathematically.
pub struct PollModel {
    pub id: u64,
    pub title: Seq<char>,
    pub criteria: Seq<char>,
    pub description: Option<Seq<char>>,
    pub options: Seq<OptionModel>,
    pub votes: Seq<u64>,
    pub creator: Seq<char>,
    pub is_active: bool,
    pub is_open: bool,
    pub created_at: u64,
    pub ends_at: Option<u64>,
    pub reward_yocto: u128,
    pub payout_done: bool,
    pub total_voters: u64,
    pub allow_creator_vote: bool,
}

impl View for Poll {
    type V = PollModel;

    open spec fn view(&self) -> PollModel {
        PollModel {
            id: self.id,
            title: self.title@,
            criteria: self.criteria@,
            description: match self.description {
                Some(d) => Some(d@),
                None => None,
            },
            options: option_models(self.options@),
            votes: self.votes@,
            creator: self.creator@,
            is_active: self.is_active,
            is_open: self.is_open,
            created_at: self.created_at,
            ends_at: self.ends_at,
            reward_yocto: self.reward_yocto,
            payout_done: self.payout_done,
            total_voters: self.total_voters,
            allow_creator_vote: self.allow_creator_vote,
        }
    }
}

impl Clone for Poll {
    fn clone(&self) -> (r: Self)
        ensures
            r@ == self@,
    {
        let mut options: Vec<OptionEntry> = Vec::new();
        let mut votes: Vec<u64> = Vec::new();
        let mut i: usize = 0;
        while i < self.options.len()
            invariant
                i <= self.options.len(),
                options@ == self.options@.take(i as int),
            decreases self.options.len() - i,
        {
            options.push(self.options[i].clone());
            assert(self.options@.take(i as int + 1) =~= self.options@.take(i as int).push(
                self.options@[i as int],
            ));
            i = i + 1;
        }
        let mut j: usize = 0;
        while j < self.votes.len()
            invariant
                j <= self.votes.len(),
                votes@ == self.votes@.take(j as int),
            decreases self.votes.len() - j,
        {
            votes.push(self.votes[j]);
            assert(self.votes@.take(j as int + 1) =~= self.votes@.take(j as int).push(
                self.votes@[j as int],
            ));
            j = j + 1;
        }
        assert(self.options@.take(self.options@.len() as int) =~= self.options@);
        assert(self.votes@.take(self.votes@.len() as int) =~= self.votes@);
        Poll {
            id: self.id,
            title: self.title.clone(),
            criteria: self.criteria.clone(),
            description: match &self.description {
                Some(d) => Some(d.clone()),
                None => None,
            },
            options,
            votes,
            creator: self.creator.clone(),
            is_active: self.is_active,
            is_open: self.is_open,
            created_at: self.created_at,
            ends_at: self.ends_at,
            reward_yocto: self.reward_yocto,
            payout_done: self.payout_done,
            total_voters: self.total_voters,
            allow_creator_vote: self.allow_creator_vote,
        }
    }
}

/// One voter's choice.
#[derive(Debug, PartialEq, Eq)]
pub struct Ballot {
    pub voter: AccountId,
    pub option_index: u64,
}

/// What a ballot is, mathematically.
pub struct BallotModel {
    pub voter: Seq<char>,
    pub option_index: u64,
}

impl View for Ballot {
    type V = BallotModel;

    open spec fn view(&self) -> BallotModel {
        BallotModel { voter: self.voter@, option_index: self.option_index }
    }
}

/// The models of a run of ballots, in order.
pub open spec fn ballot_models(s: Seq<Ballot>) -> Seq<BallotModel> {
    Seq::new(s.len(), |i: int| s[i]@)
}

/// The voters of a run of ballots, in order.
pub open spec fn voters_of(s: Seq<BallotModel>) -> Seq<Seq<char>> {
    Seq::new(s.len(), |i: int| s[i].voter)
}

/// One for each ballot for option `j`, zero for each other, in order.
pub open spec fn ballot_marks(s: Seq<BallotModel>, j: int) -> Seq<nat> {
    Seq::new(
        s.len(),
        |i: int|
            if s[i].option_index == j {
                1nat
            } else {
                0nat
            },
    )
}

/// How many of the ballots are for option `j`.
pub open spec fn tally(s: Seq<BallotModel>, j: int) -> nat {
    seq_sum(ballot_marks(s, j))
}

/// A poll with its ballots and its whitelist.
#[derive(Debug, PartialEq, Eq)]
pub struct PollBook {
    pub poll: Poll,
    /// The ballots cast, one per voter at most.
    pub ballots: Vec<Ballot>,
    /// Who may vote where the poll is not open to all.
    pub whitelist: Vec<AccountId>,
}

/// What a poll's book is, mathematically.
pub struct PollBookModel {
    pub poll: PollModel,
    pub ballots: Seq<BallotModel>,
    pub whitelist: Seq<Seq<char>>,
}

impl View for PollBook {
    type V = PollBookModel;

    open spec fn view(&self) -> PollBookModel {
        PollBookModel {
            poll: self.poll@,
            ballots: ballot_models(self.ballots@),
            whitelist: account_names(self.whitelist@),
        }
    }
}

/// The models of a run of poll books, in order.
pub open spec fn poll_book_models(s: Seq<PollBook>) -> Seq<PollBookModel> {
    Seq::new(s.len(), |i: int| s[i]@)
}

impl PollBookModel {
    /// Position of the ballot of `who`, if they cast one.
    pub open spec fn ballot_position(self, who: Seq<char>) -> Option<int> {
        if exists|i: int| 0 <= i < self.ballots.len() && self.ballots[i].voter == who {
            Some(choose|i: int| 0 <= i < self.ballots.len() && self.ballots[i].voter == who)
        } else {
            None
        }
    }

    /// The option that `who` voted for, if they voted.
    pub open spec fn vote_of(self, who: Seq<char>) -> Option<u64> {
        match self.ballot_position(who) {
            Some(i) => Some(self.ballots[i].option_index),
            None => None,
        }
    }

    /// What holds of every poll book.
    pub open spec fn wf(self) -> bool {
        &&& 2 <= self.poll.options.len() <= MAX_OPTIONS_PER_POLL
        &&& self.poll.votes.len() == self.poll.options.len()
        &&& self.poll.reward_yocto <= MAX_REWARD_YOCTO
        &&& self.poll.total_voters == self.ballots.len()
        &&& self.poll.total_voters <= MAX_VOTERS_PER_POLL
        &&& voters_of(self.ballots).no_duplicates()
        &&& self.whitelist.no_duplicates()
        &&& forall|i: int|
            0 <= i < self.ballots.len() ==> (#[trigger] self.ballots[i]).option_index
                < self.poll.options.len()
        &&& forall|j: int|
            0 <= j < self.poll.votes.len() ==> self.poll.votes[j] == #[trigger] tally(
                self.ballots,
                j,
            )
    }
}

/// The polls, with their owner's fee.
#[derive(Debug, PartialEq, Eq)]
pub struct VotingContract {
    /// One book per poll; the poll with id `n` is at position `n - 1`.
    pub books: Vec<PollBook>,
    pub owner: AccountId,
    /// Platform fee in basis points of a poll's reward.
    pub platform_fee_bps: u16,
    pub next_poll_id: u64,
}

/// What the polls are, mathematically.
pub struct VotingModel {
    pub books: Seq<PollBookModel>,
    pub owner: Seq<char>,
    pub platform_fee_bps: u16,
    pub next_poll_id: u64,
}

impl View for VotingContract {
    type V = VotingModel;

    open spec fn view(&self) -> VotingModel {
        VotingModel {
            books: poll_book_models(self.books@),
            owner: self.owner@,
            platform_fee_bps: self.platform_fee_bps,
            next_poll_id: self.next_poll_id,
        }
    }
}

/// What a creator asks for when creating a poll.
pub struct PollRequest {
    pub title: String,
    pub criteria: String,
    pub details: Option<String>,
    pub options: Vec<OptionInput>,
    pub duration_minutes: Option<u64>,
    pub is_open: bool,
    pub reward_yocto: Option<u128>,
    pub allow_creator_vote: Option<bool>,
}

/// What a poll request is, mathematically.
pub struct PollRequestModel {
    pub title: Seq<char>,
    pub criteria: Seq<char>,
    pub details: Option<Seq<char>>,
    pub options: Seq<OptionModel>,
    pub duration_minutes: Option<u64>,
    pub is_open: bool,
    pub reward_yocto: Option<u128>,
    pub allow_creator_vote: Option<bool>,
}

impl View for PollRequest {
    type V = PollRequestModel;

    open spec fn view(&self) -> PollRequestModel {
        PollRequestModel {
            title: self.title@,
            criteria: self.criteria@,
            details: match self.details {
                Some(d) => Some(d@),
                None => None,
            },
            options: input_models(self.options@),
            duration_minutes: self.duration_minutes,
            is_open: self.is_open,
            reward_yocto: self.reward_yocto,
            allow_creator_vote: self.allow_creator_vote,
        }
    }
}

/// The outcome of creating a poll.
#[derive(Clone, Copy, Debug, PartialEq, Eq, Structural)]
pub struct PollCreated {
    pub poll_id: u64,
    /// What the host returns to the creator.
    pub refund: SafeAmount,
}

/// A payment that the host is to make.
#[derive(Debug, PartialEq, Eq)]
pub struct Transfer {
    pub to: AccountId,
    pub amount: u128,
}

/// What a transfer is, mathematically.
pub struct TransferModel {
    pub to: Seq<char>,
    pub amount: u128,
}

impl View for Transfer {
    type V = TransferModel;

    open spec fn view(&self) -> TransferModel {
        TransferModel { to: self.to@, amount: self.amount }
    }
}

/// The models of a run of transfers, in order.
pub open spec fn transfer_models(s: Seq<Transfer>) -> Seq<TransferModel> {
    Seq::new(s.len(), |i: int| s[i]@)
}

/// The first option, in order, whose label is empty once trimmed.
pub open spec fn first_empty_option(options: Seq<OptionModel>) -> Option<int> {
    if exists|i: int| 0 <= i < options.len() && trimmed(options[i].label).len() == 0 {
        Some(
            choose|i: int|
                0 <= i < options.len() && trimmed(options[i].label).len() == 0 && forall|j: int|
                    0 <= j < i ==> trimmed(#[trigger] options[j].label).len() != 0,
        )
    } else {
        None
    }
}

/// The options with their labels trimmed.
pub open spec fn normalized_options(options: Seq<OptionModel>) -> Seq<OptionModel> {
    Seq::new(
        options.len(),
        |i: int| OptionModel { label: trimmed(options[i].label), recipient: options[i].recipient },
    )
}

impl PollRequestModel {
    /// The details in force: trimmed, and absent where nothing is left.
    pub open spec fn final_details(self) -> Option<Seq<char>> {
        match self.details {
            Some(d) => if trimmed(d).len() == 0 {
                None
            } else {
                Some(trimmed(d))
            },
            None => None,
        }
    }

    /// The reward in force: the one asked for, or none.
    pub open spec fn final_reward(self) -> u128 {
        match self.reward_yocto {
            Some(r) => r,
            None => 0,
        }
    }

    /// The deadline of a poll created at `now`, as a mathematical integer.
    pub open spec fn ends_at(self, now: u64) -> Option<int> {
        match self.duration_minutes {
            Some(m) => Some(now + m * NANOS_PER_MINUTE),
            None => None,
        }
    }

    /// The first rule that the request breaks, in the order in which the
    /// rules are checked.
    pub open spec fn flaw(self) -> Option<PollError> {
        if trimmed(self.title).len() == 0 {
            Some(PollError::TitleEmpty)
        } else if trimmed(self.title).len() > TITLE_MAX {
            Some(PollError::TitleTooLong)
        } else if trimmed(self.criteria).len() < CRITERIA_MIN {
            Some(PollError::CriteriaTooShort)
        } else if trimmed(self.criteria).len() > CRITERIA_MAX {
            Some(PollError::CriteriaTooLong)
        } else if self.final_details() matches Some(d) && d.len() > DETAILS_MAX {
            Some(PollError::DetailsTooLong)
        } else if self.options.len() < 2 {
            Some(PollError::TooFewOptions)
        } else if self.options.len() > MAX_OPTIONS_PER_POLL {
            Some(PollError::TooManyOptions)
        } else if first_empty_option(self.options) is Some {
            Some(PollError::EmptyOption(first_empty_option(self.options).unwrap() as u64))
        } else if self.duration_minutes == Some(0u64) {
            Some(PollError::DurationNotPositive)
        } else if self.duration_minutes matches Some(m) && m > MAX_DURATION_MINUTES {
            Some(PollError::DurationTooLong)
        } else if 0 < self.final_reward() < MIN_REWARD_YOCTO {
            Some(PollError::RewardTooSmall)
        } else if self.final_reward() > MAX_REWARD_YOCTO {
            Some(PollError::RewardTooLarge)
        } else {
            None
        }
    }
}

/// What a call must pay: the cost of the storage it adds, and a reward to
/// be held where there is one. The sum is capped at the largest amount.
pub open spec fn required_deposit(payment: Payment, reward: u128) -> nat {
    if payment.storage_cost() + reward > u128::MAX {
        u128::MAX as nat
    } else {
        payment.storage_cost() + reward as nat
    }
}

/// Why a payment is rejected; `None` where it is accepted.
pub open spec fn payment_error(payment: Payment, reward: u128) -> Option<PollError> {
    if payment.storage_cost() > u128::MAX {
        Some(PollError::Arithmetic(ArithmeticError::Overflow))
    } else if payment.attached_deposit@ < required_deposit(payment, reward) {
        Some(PollError::InsufficientDeposit)
    } else {
        None
    }
}

/// The most votes that any option has; zero without options.
pub open spec fn top_votes(votes: Seq<u64>) -> u64
    decreases votes.len(),
{
    if votes.len() == 0 {
        0
    } else if votes.last() > top_votes(votes.drop_last()) {
        votes.last()
    } else {
        top_votes(votes.drop_last())
    }
}

/// Whether option `i` is among the winners: it has the most votes, and at
/// least one.
pub open spec fn is_winning(votes: Seq<u64>, i: int) -> bool {
    0 <= i < votes.len() && votes[i] == top_votes(votes) && top_votes(votes) > 0
}

/// How many of the first `n` options are among the winners.
pub open spec fn winner_count(votes: Seq<u64>, n: int) -> nat
    decreases n,
{
    if n <= 0 {
        0
    } else if is_winning(votes, n - 1) {
        winner_count(votes, n - 1) + 1
    } else {
        winner_count(votes, n - 1)
    }
}

/// The recipients behind the winners among the first `n` options, each
/// once, in the order in which they first occur.
pub open spec fn paid_recipients(options: Seq<OptionModel>, votes: Seq<u64>, n: int) -> Seq<
    Seq<char>,
>
    decreases n,
{
    if n <= 0 {
        Seq::empty()
    } else {
        let earlier = paid_recipients(options, votes, n - 1);
        if is_winning(votes, n - 1) && !earlier.contains(options[n - 1].recipient) {
            earlier.push(options[n - 1].recipient)
        } else {
            earlier
        }
    }
}

/// The platform's part of a reward of `reward` at `bps` basis points.
pub open spec fn poll_fee(reward: u128, bps: u16) -> nat {
    ((reward * bps) / 10_000) as nat
}

/// What each winning option earns of a reward of `net` after the fee.
pub open spec fn per_winner(votes: Seq<u64>, net: nat) -> nat
    recommends
        winner_count(votes, votes.len() as int) > 0,
{
    net / winner_count(votes, votes.len() as int)
}

/// What goes back to the creator where there are winners: what does not
/// divide evenly, and the part of every winner whose recipient is paid for
/// another winning option already.
pub open spec fn poll_remainder(options: Seq<OptionModel>, votes: Seq<u64>, net: nat) -> nat {
    (net - per_winner(votes, net) * paid_recipients(options, votes, votes.len() as int).len()) as nat
}

/// The transfers to the recipients `to`, of `amount` each.
pub open spec fn equal_transfers(to: Seq<Seq<char>>, amount: u128) -> Seq<TransferModel> {
    Seq::new(to.len(), |i: int| TransferModel { to: to[i], amount })
}

/// The transfer of `amount` to `to`, or none where the amount is zero.
pub open spec fn transfer_if_positive(to: Seq<char>, amount: nat) -> Seq<TransferModel> {
    if amount > 0 {
        seq![TransferModel { to, amount: amount as u128 }]
    } else {
        Seq::empty()
    }
}

impl VotingModel {
    /// Whether a poll with this id exists.
    pub open spec fn has_poll(self, poll_id: u64) -> bool {
        1 <= poll_id <= self.books.len()
    }

    /// The book of the poll with this id.
    pub open spec fn book(self, poll_id: u64) -> PollBookModel
        recommends
            self.has_poll(poll_id),
    {
        self.books[poll_id - 1]
    }

    /// The polls with the book of one poll replaced.
    pub open spec fn with_book(self, poll_id: u64, book: PollBookModel) -> VotingModel
        recommends
            self.has_poll(poll_id),
    {
        VotingModel { books: self.books.update(poll_id - 1, book), ..self }
    }

    /// What holds of the polls after every call.
    pub open spec fn wf(self) -> bool {
        &&& self.next_poll_id == self.books.len() + 1
        &&& self.platform_fee_bps <= MAX_FEE_BPS
        &&& forall|i: int|
            0 <= i < self.books.len() ==> (#[trigger] self.books[i]).wf() && self.books[i].poll.id
                == i + 1
    }

    /// Whether `who` is on the whitelist of the poll with this id.
    pub open spec fn whitelisted(self, poll_id: u64, who: Seq<char>) -> bool {
        self.has_poll(poll_id) && self.book(poll_id).whitelist.contains(who)
    }

    /// Why a request to create a poll is rejected; `None` where it is
    /// accepted.
    pub open spec fn creation_error(self, now: u64, payment: Payment, request: PollRequestModel) -> Option<
        PollError,
    > {
        if request.flaw() is Some {
            request.flaw()
        } else if request.ends_at(now) matches Some(t) && t > u64::MAX {
            Some(PollError::DurationOutOfRange)
        } else if self.next_poll_id == u64::MAX {
            Some(PollError::Arithmetic(ArithmeticError::Overflow))
        } else {
            payment_error(payment, request.final_reward())
        }
    }

    /// The poll that an accepted request of `creator` at time `now` makes.
    pub open spec fn created_poll(self, creator: Seq<char>, now: u64, request: PollRequestModel) -> PollModel {
        PollModel {
            id: self.next_poll_id,
            title: trimmed(request.title),
            criteria: trimmed(request.criteria),
            description: request.final_details(),
            options: normalized_options(request.options),
            votes: Seq::new(request.options.len(), |i: int| 0u64),
            creator,
            is_active: true,
            is_open: request.is_open,
            created_at: now,
            ends_at: match request.ends_at(now) {
                Some(t) => Some(t as u64),
                None => None,
            },
            reward_yocto: request.final_reward(),
            payout_done: false,
            total_voters: 0,
            allow_creator_vote: request.allow_creator_vote == Some(true),
        }
    }

    /// The polls once the poll of an accepted request is recorded.
    pub open spec fn after_creation(self, creator: Seq<char>, now: u64, request: PollRequestModel) -> VotingModel {
        VotingModel {
            books: self.books.push(
                PollBookModel {
                    poll: self.created_poll(creator, now, request),
                    ballots: Seq::empty(),
                    whitelist: Seq::empty(),
                },
            ),
            next_poll_id: (self.next_poll_id + 1) as u64,
            ..self
        }
    }

    /// Why a vote is rejected; `None` where it is accepted.
    pub open spec fn voting_error(
        self,
        voter: Seq<char>,
        now: u64,
        payment: Payment,
        poll_id: u64,
        option_index: u64,
    ) -> Option<PollError> {
        if !self.has_poll(poll_id) {
            Some(PollError::PollNotFound)
        } else {
            let book = self.book(poll_id);
            if !book.poll.is_active {
                Some(PollError::PollNotActive)
            } else if !book.poll.is_open && !book.whitelist.contains(voter) {
                Some(PollError::NotWhitelisted)
            } else if book.poll.ends_at matches Some(t) && now >= t {
                Some(PollError::PollExpired)
            } else if !book.poll.allow_creator_vote && voter == book.poll.creator {
                Some(PollError::CreatorVotingDisabled)
            } else if option_index >= book.poll.options.len() {
                Some(PollError::InvalidOptionIndex)
            } else if book.vote_of(voter) is None && book.poll.total_voters
                >= MAX_VOTERS_PER_POLL {
                Some(PollError::VoterLimitReached)
            } else {
                payment_error(payment, 0)
            }
        }
    }
}

impl PollBookModel {
    /// The book once `voter` has voted for option `option_index`: a first
    /// vote is counted, a changed vote moves from the old option to the new.
    pub open spec fn voted(self, voter: Seq<char>, option_index: u64) -> PollBookModel
        recommends
            option_index < self.poll.votes.len(),
    {
        let choice = option_index as int;
        match self.ballot_position(voter) {
            Some(k) => {
                let before = self.ballots[k].option_index as int;
                let withdrawn = self.poll.votes.update(
                    before,
                    (self.poll.votes[before] - 1) as u64,
                );
                PollBookModel {
                    poll: PollModel {
                        votes: withdrawn.update(choice, (withdrawn[choice] + 1) as u64),
                        ..self.poll
                    },
                    ballots: self.ballots.update(k, BallotModel { voter, option_index }),
                    ..self
                }
            },
            None => PollBookModel {
                poll: PollModel {
                    votes: self.poll.votes.update(choice, (self.poll.votes[choice] + 1) as u64),
                    total_voters: (self.poll.total_voters + 1) as u64,
                    ..self.poll
                },
                ballots: self.ballots.push(BallotModel { voter, option_index }),
                ..self
            },
        }
    }

    /// What closing the poll pays out at a platform fee of `bps` basis
    /// points, in order: the fee to the owner; then, where an option won, an
    /// equal part to the recipient behind each winning option, once each,
    /// and the rest to the creator; without a winner, all to the creator.
    pub open spec fn payouts(self, owner: Seq<char>, bps: u16) -> Seq<TransferModel> {
        if self.poll.payout_done || self.poll.reward_yocto == 0 {
            Seq::empty()
        } else {
            let fee = poll_fee(self.poll.reward_yocto, bps);
            let net = (self.poll.reward_yocto - fee) as nat;
            let votes = self.poll.votes;
            let winners = winner_count(votes, votes.len() as int);
            transfer_if_positive(owner, fee) + (if winners > 0 && net > 0 {
                (if per_winner(votes, net) > 0 {
                    equal_transfers(
                        paid_recipients(self.poll.options, votes, votes.len() as int),
                        per_winner(votes, net) as u128,
                    )
                } else {
                    Seq::empty()
                }) + transfer_if_positive(
                    self.poll.creator,
                    poll_remainder(self.poll.options, votes, net),
                )
            } else {
                transfer_if_positive(self.poll.creator, net)
            })
        }
    }

    /// The book once the poll is closed and its reward, if any, paid out.
    pub open spec fn closed(self) -> PollBookModel {
        PollBookModel {
            poll: PollModel {
                is_active: false,
                reward_yocto: if self.poll.payout_done {
                    self.poll.reward_yocto
                } else {
                    0
                },
                payout_done: self.poll.payout_done || self.poll.reward_yocto > 0,
                ..self.poll
            },
            ..self
        }
    }
}

/// Where the voters are distinct, the position of a voter is the one
/// position that holds them.
pub proof fn lemma_ballot_position(book: PollBookModel, who: Seq<char>, k: int)
    requires
        voters_of(book.ballots).no_duplicates(),
        0 <= k < book.ballots.len(),
        book.ballots[k].voter == who,
    ensures
        book.ballot_position(who) == Some(k),
{
    let c = choose|i: int| 0 <= i < book.ballots.len() && book.ballots[i].voter == who;
    assert(voters_of(book.ballots)[c] == voters_of(book.ballots)[k]);
}

/// An accepted vote keeps the book well formed: every count is the number
/// of ballots for its option. No count leaves its range.
pub proof fn lemma_voted_wf(book: PollBookModel, voter: Seq<char>, option_index: u64)
    requires
        book.wf(),
        option_index < book.poll.options.len(),
        book.vote_of(voter) is None ==> book.poll.total_voters < MAX_VOTERS_PER_POLL,
    ensures
        book.voted(voter, option_index).wf(),
        book.voted(voter, option_index).vote_of(voter) == Some(option_index),
        book.ballot_position(voter) matches Some(k) ==> book.poll.votes[book.ballots[k].option_index as int]
            > 0,
        forall|j: int| 0 <= j < book.poll.votes.len() ==> #[trigger] tally(
            book.voted(voter, option_index).ballots,
            j,
        ) <= MAX_VOTERS_PER_POLL,
{
    let after = book.voted(voter, option_index);
    let choice = option_index as int;
    let entry = BallotModel { voter, option_index };
    match book.ballot_position(voter) {
        Some(k) => {
            let before = book.ballots[k].option_index as int;
            assert(ballot_marks(book.ballots, before)[k] == 1);
            lemma_sum_bounds(ballot_marks(book.ballots, before), k);
            assert(book.poll.votes[before] == tally(book.ballots, before));
            assert forall|j: int| 0 <= j < after.poll.votes.len() implies #[trigger] tally(
                after.ballots,
                j,
            ) <= MAX_VOTERS_PER_POLL && (after.poll.votes[j] == tally(after.ballots, j)) by {
                let mark: nat = if choice == j {
                    1
                } else {
                    0
                };
                assert(ballot_marks(after.ballots, j) =~= ballot_marks(book.ballots, j).update(
                    k,
                    mark,
                ));
                lemma_sum_update(ballot_marks(book.ballots, j), k, mark);
                assert(book.poll.votes[j] == tally(book.ballots, j));
                lemma_sum_at_most(ballot_marks(after.ballots, j), 1);
                assert(after.ballots.len() * 1 == after.ballots.len()) by (nonlinear_arith);
            }
            assert(voters_of(after.ballots) =~= voters_of(book.ballots));
            assert(after.ballots[k] == entry);
            lemma_ballot_position(after, voter, k);
        },
        None => {
            assert forall|j: int| 0 <= j < after.poll.votes.len() implies #[trigger] tally(
                after.ballots,
                j,
            ) <= MAX_VOTERS_PER_POLL && (after.poll.votes[j] == tally(after.ballots, j)) by {
                let mark: nat = if choice == j {
                    1
                } else {
                    0
                };
                assert(ballot_marks(after.ballots, j) =~= ballot_marks(book.ballots, j).push(mark));
                lemma_sum_push(ballot_marks(book.ballots, j), mark);
                assert(book.poll.votes[j] == tally(book.ballots, j));
                lemma_sum_at_most(ballot_marks(after.ballots, j), 1);
                assert(after.ballots.len() * 1 == after.ballots.len()) by (nonlinear_arith);
            }
            assert(voters_of(after.ballots) =~= voters_of(book.ballots).push(voter));
            assert forall|a: int, b: int|
                0 <= a < after.ballots.len() && 0 <= b < after.ballots.len() && a
                    != b implies voters_of(after.ballots)[a] != voters_of(after.ballots)[b] by {
                if a < book.ballots.len() && b < book.ballots.len() {
                    assert(voters_of(book.ballots)[a] != voters_of(book.ballots)[b]);
                } else if a < book.ballots.len() {
                    assert(book.ballots[a].voter != voter);
                } else {
                    assert(book.ballots[b].voter != voter);
                }
            }
            assert(after.ballots[book.ballots.len() as int] == entry);
            lemma_ballot_position(after, voter, book.ballots.len() as int);
        },
    }
}

} // verus!
