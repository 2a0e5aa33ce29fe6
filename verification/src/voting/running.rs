//! Running the polls: creating, voting, closing.

use crate::account::{
    account_names, find_account, lemma_without_account, without_account, AccountId,
};
use crate::amount::{ArithmeticError, SafeAmount};
use crate::payment::Payment;
use crate::sums::lemma_sum_at_most;
use crate::text::{trim, trimmed};
use crate::voting::{
    ballot_marks, equal_transfers, first_empty_option, lemma_ballot_position, lemma_voted_wf,
    normalized_options, option_models, paid_recipients, payment_error, poll_remainder,
    required_deposit, tally, top_votes, transfer_if_positive, transfer_models, voters_of,
    winner_count, Ballot, OptionEntry, Poll, PollBook, PollBookModel, PollCreated, PollError,
    PollRequest, Transfer, TransferModel, VotingContract, VotingModel, CRITERIA_MAX, CRITERIA_MIN,
    DETAILS_MAX, MAX_DURATION_MINUTES, MAX_FEE_BPS, MAX_OPTIONS_PER_POLL, MAX_REWARD_YOCTO,
    MAX_VOTERS_PER_POLL, MIN_REWARD_YOCTO, NANOS_PER_MINUTE, TITLE_MAX,
};
use vstd::prelude::*;
use vstd::string::StrSliceExecFns;

verus! {

/// What the host returns to the payer of an accepted payment: the payment
/// less what the call must pay.
pub fn settle_payment(payment: Payment, reward: u128) -> (r: Result<SafeAmount, PollError>)
    ensures
        match payment_error(payment, reward) {
            Some(e) => r == Err::<SafeAmount, PollError>(e),
            None => r is Ok && r->Ok_0@ == payment.attached_deposit@ - required_deposit(
                payment,
                reward,
            ),
        },
{
    let storage_cost = match payment.storage_byte_cost.checked_mul(payment.storage_used as u128) {
        Ok(c) => c,
        Err(e) => {
            assert(payment.storage_byte_cost@ * (payment.storage_used as u128)
                == payment.storage_cost()) by (nonlinear_arith);
            return Err(PollError::Arithmetic(e));
        },
    };
    assert(storage_cost@ == payment.storage_cost()) by (nonlinear_arith)
        requires
            storage_cost@ == payment.storage_byte_cost@ * (payment.storage_used as u128),
            payment.storage_cost() == payment.storage_used as nat * payment.storage_byte_cost@,
    ;
    let required: u128 = match storage_cost.as_yoctonear().checked_add(reward) {
        Some(v) => v,
        None => u128::MAX,
    };
    if payment.attached_deposit.as_yoctonear() < required {
        return Err(PollError::InsufficientDeposit);
    }
    Ok(SafeAmount::from_yoctonear(payment.attached_deposit.as_yoctonear() - required))
}

impl PollBook {
    /// The position of the ballot of `who`, if they cast one.
    pub fn find_ballot(&self, who: &AccountId) -> (r: Option<usize>)
        requires
            voters_of(self@.ballots).no_duplicates(),
        ensures
            match r {
                Some(k) => k < self.ballots.len() && self@.ballot_position(who@) == Some(k as int),
                None => self@.ballot_position(who@) is None,
            },
    {
        let mut i: usize = 0;
        while i < self.ballots.len()
            invariant
                i <= self.ballots.len(),
                voters_of(self@.ballots).no_duplicates(),
                forall|j: int| 0 <= j < i ==> (#[trigger] self@.ballots[j]).voter != who@,
            decreases self.ballots.len() - i,
        {
            assert(self@.ballots[i as int] == self.ballots@[i as int]@);
            if self.ballots[i].voter.is(who) {
                proof {
                    lemma_ballot_position(self@, who@, i as int);
                }
                return Some(i);
            }
            i = i + 1;
        }
        None
    }
}

impl PollRequest {
    /// The options with their labels trimmed, or the index of the first
    /// option whose label is empty once trimmed.
    fn normalize_options(&self) -> (r: Result<Vec<OptionEntry>, u64>)
        requires
            self.options.len() <= MAX_OPTIONS_PER_POLL,
        ensures
            match r {
                Ok(entries) => first_empty_option(self@.options) is None && option_models(
                    entries@,
                ) == normalized_options(self@.options),
                Err(i) => first_empty_option(self@.options) == Some(i as int),
            },
    {
        let ghost options = self@.options;
        let mut entries: Vec<OptionEntry> = Vec::new();
        let mut i: usize = 0;
        while i < self.options.len()
            invariant
                i <= self.options.len(),
                self.options.len() <= MAX_OPTIONS_PER_POLL,
                options == self@.options,
                entries.len() == i,
                forall|j: int| 0 <= j < i ==> trimmed(#[trigger] options[j].label).len() != 0,
                forall|j: int|
                    0 <= j < i ==> (#[trigger] entries@[j])@ == normalized_options(options)[j],
            decreases self.options.len() - i,
        {
            assert(options[i as int] == self.options@[i as int]@);
            let label = trim(self.options[i].label.as_str());
            if label.unicode_len() == 0 {
                proof {
                    let found = i as int;
                    assert(0 <= found < options.len() && trimmed(
                        options[found].label,
                    ).len() == 0 && forall|j: int|
                        0 <= j < found ==> trimmed(#[trigger] options[j].label).len()
                            != 0);
                    let chosen = first_empty_option(options).unwrap();
                    assert(chosen == found) by {
                        if chosen < found {
                            assert(trimmed(options[chosen].label).len() != 0);
                        } else if found < chosen {
                            assert(trimmed(options[found].label).len() != 0);
                        }
                    }
                }
                return Err(i as u64);
            }
            entries.push(
                OptionEntry { label: label.to_string(), recipient: self.options[i].recipient.clone() },
            );
            i = i + 1;
        }
        assert(option_models(entries@) =~= normalized_options(options));
        Ok(entries)
    }

    /// The first rule that the request breaks, if it breaks any; otherwise
    /// the poll's texts and options as they are stored.
    fn check(&self) -> (r: Result<(String, String, Option<String>, Vec<OptionEntry>), PollError>)
        ensures
            match r {
                Ok((title, criteria, details, options)) => {
                    &&& self@.flaw() is None
                    &&& title@ == trimmed(self@.title)
                    &&& criteria@ == trimmed(self@.criteria)
                    &&& match details {
                        Some(d) => self@.final_details() == Some(d@),
                        None => self@.final_details() is None,
                    }
                    &&& option_models(options@) == normalized_options(self@.options)
                },
                Err(e) => self@.flaw() == Some(e),
            },
    {
        let title = trim(self.title.as_str());
        let criteria = trim(self.criteria.as_str());
        let details: Option<&str> = match &self.details {
            Some(d) => {
                let t = trim(d.as_str());
                if t.unicode_len() == 0 {
                    None
                } else {
                    Some(t)
                }
            },
            None => None,
        };
        let title_len = title.unicode_len();
        if title_len == 0 {
            return Err(PollError::TitleEmpty);
        }
        if title_len > TITLE_MAX {
            return Err(PollError::TitleTooLong);
        }
        let criteria_len = criteria.unicode_len();
        if criteria_len < CRITERIA_MIN {
            return Err(PollError::CriteriaTooShort);
        }
        if criteria_len > CRITERIA_MAX {
            return Err(PollError::CriteriaTooLong);
        }
        if let Some(d) = details {
            if d.unicode_len() > DETAILS_MAX {
                return Err(PollError::DetailsTooLong);
            }
        }
        if self.options.len() < 2 {
            return Err(PollError::TooFewOptions);
        }
        if self.options.len() > MAX_OPTIONS_PER_POLL {
            return Err(PollError::TooManyOptions);
        }
        let options = match self.normalize_options() {
            Ok(options) => options,
            Err(i) => {
                return Err(PollError::EmptyOption(i));
            },
        };
        if let Some(minutes) = self.duration_minutes {
            if minutes == 0 {
                return Err(PollError::DurationNotPositive);
            }
            if minutes > MAX_DURATION_MINUTES {
                return Err(PollError::DurationTooLong);
            }
        }
        let reward: u128 = match self.reward_yocto {
            Some(r) => r,
            None => 0,
        };
        if reward > 0 && reward < MIN_REWARD_YOCTO {
            return Err(PollError::RewardTooSmall);
        }
        if reward > MAX_REWARD_YOCTO {
            return Err(PollError::RewardTooLarge);
        }
        let details: Option<String> = match details {
            Some(d) => Some(d.to_string()),
            None => None,
        };
        Ok((title.to_string(), criteria.to_string(), details, options))
    }
}

impl VotingContract {
    /// What holds of the polls after every call.
    pub open spec fn wf(&self) -> bool {
        self@.wf()
    }

    /// Polls owned by `owner`: none yet, and no platform fee.
    pub fn new(owner: AccountId) -> (r: VotingContract)
        ensures
            r.wf(),
            r@ == (VotingModel {
                books: Seq::empty(),
                owner: owner@,
                platform_fee_bps: 0,
                next_poll_id: 1,
            }),
    {
        let polls = VotingContract { books: Vec::new(), owner, platform_fee_bps: 0, next_poll_id: 1 };
        assert(polls@.books =~= Seq::empty());
        polls
    }

    /// The position in `books` of the poll with this id, if it exists.
    pub fn book_index(&self, poll_id: u64) -> (r: Option<usize>)
        ensures
            r is Some <==> self@.has_poll(poll_id),
            r matches Some(i) ==> i == poll_id - 1 && i < self.books.len(),
    {
        if poll_id >= 1 && poll_id - 1 < self.books.len() as u64 {
            Some((poll_id - 1) as usize)
        } else {
            None
        }
    }

    /// Sets the platform fee, in basis points of a poll's reward. Owner
    /// only, and a fifth of the reward at most.
    pub fn set_platform_fee_bps(&mut self, caller: &AccountId, bps: u16) -> (r: Result<(), PollError>)
        requires
            old(self).wf(),
        ensures
            final(self).wf(),
            caller@ != old(self)@.owner ==> r == Err::<(), PollError>(PollError::NotOwner)
                && *final(self) == *old(self),
            caller@ == old(self)@.owner && bps > MAX_FEE_BPS ==> r == Err::<(), PollError>(
                PollError::FeeTooHigh,
            ) && *final(self) == *old(self),
            caller@ == old(self)@.owner && bps <= MAX_FEE_BPS ==> r is Ok && final(self)@ == (
            VotingModel { platform_fee_bps: bps, ..old(self)@ }),
    {
        if !self.owner.is(caller) {
            return Err(PollError::NotOwner);
        }
        if bps > MAX_FEE_BPS {
            return Err(PollError::FeeTooHigh);
        }
        self.platform_fee_bps = bps;
        Ok(())
    }

    /// The platform fee, in basis points of a poll's reward.
    pub fn get_platform_fee_bps(&self) -> (r: u16)
        ensures
            r == self@.platform_fee_bps,
    {
        self.platform_fee_bps
    }

    /// Whether `account` is on the whitelist of the poll with this id.
    pub fn is_whitelisted(&self, poll_id: u64, account: &AccountId) -> (r: bool)
        ensures
            r == self@.whitelisted(poll_id, account@),
    {
        match self.book_index(poll_id) {
            Some(idx) => {
                assert(self@.books[idx as int] == self.books@[idx as int]@);
                find_account(&self.books[idx].whitelist, account).is_some()
            },
            None => false,
        }
    }

    /// Puts `account` on the whitelist of a poll. Only the poll's creator
    /// may, and the payment must cover the storage the call adds; the rest is
    /// refunded.
    pub fn add_to_whitelist(
        &mut self,
        caller: &AccountId,
        payment: Payment,
        poll_id: u64,
        account: AccountId,
    ) -> (r: Result<SafeAmount, PollError>)
        requires
            old(self).wf(),
        ensures
            final(self).wf(),
            match r {
                Ok(refund) => {
                    &&& old(self)@.has_poll(poll_id)
                    &&& caller@ == old(self)@.book(poll_id).poll.creator
                    &&& payment_error(payment, 0) is None
                    &&& refund@ == payment.attached_deposit@ - required_deposit(payment, 0)
                    &&& final(self)@ == old(self)@.with_book(
                        poll_id,
                        PollBookModel {
                            whitelist: if old(self)@.book(poll_id).whitelist.contains(account@) {
                                old(self)@.book(poll_id).whitelist
                            } else {
                                old(self)@.book(poll_id).whitelist.push(account@)
                            },
                            ..old(self)@.book(poll_id)
                        },
                    )
                },
                Err(e) => {
                    &&& *final(self) == *old(self)
                    &&& e == if !old(self)@.has_poll(poll_id) {
                        PollError::PollNotFound
                    } else if caller@ != old(self)@.book(poll_id).poll.creator {
                        PollError::NotCreator
                    } else {
                        payment_error(payment, 0).unwrap()
                    }
                    &&& old(self)@.has_poll(poll_id) && caller@ == old(self)@.book(
                        poll_id,
                    ).poll.creator ==> payment_error(payment, 0) is Some
                },
            },
    {
        let idx = match self.book_index(poll_id) {
            Some(idx) => idx,
            None => {
                return Err(PollError::PollNotFound);
            },
        };
        let ghost book = old(self)@.book(poll_id);
        assert(book == self.books@[idx as int]@);
        assert(book.wf());
        if !self.books[idx].poll.creator.is(caller) {
            return Err(PollError::NotCreator);
        }
        let refund = settle_payment(payment, 0)?;
        if find_account(&self.books[idx].whitelist, &account).is_none() {
            self.books[idx].whitelist.push(account);
            proof {
                let now_book = self.books@[idx as int]@;
                assert(now_book.whitelist =~= book.whitelist.push(account@));
                assert(now_book.ballots =~= book.ballots);
                assert(now_book.poll.options =~= book.poll.options);
                assert forall|a: int, b: int|
                    0 <= a < now_book.whitelist.len() && 0 <= b < now_book.whitelist.len() && a
                        != b implies now_book.whitelist[a] != now_book.whitelist[b] by {
                    if a < book.whitelist.len() && b < book.whitelist.len() {
                    } else if a < book.whitelist.len() {
                        assert(book.whitelist.contains(book.whitelist[a]));
                    } else {
                        assert(book.whitelist.contains(book.whitelist[b]));
                    }
                }
                assert(self@.books =~= old(self)@.books.update(idx as int, now_book));
            }
        } else {
            proof {
                assert(self@.books =~= old(self)@.books.update(idx as int, book));
            }
        }
        Ok(refund)
    }

    /// Takes `account` off the whitelist of a poll. Only the poll's creator
    /// may.
    pub fn remove_from_whitelist(&mut self, caller: &AccountId, poll_id: u64, account: &AccountId) -> (r:
        Result<(), PollError>)
        requires
            old(self).wf(),
        ensures
            final(self).wf(),
            !old(self)@.has_poll(poll_id) ==> r == Err::<(), PollError>(PollError::PollNotFound)
                && *final(self) == *old(self),
            old(self)@.has_poll(poll_id) && caller@ != old(self)@.book(poll_id).poll.creator ==> r
                == Err::<(), PollError>(PollError::NotCreator) && *final(self) == *old(self),
            old(self)@.has_poll(poll_id) && caller@ == old(self)@.book(poll_id).poll.creator ==> r
                is Ok && final(self)@ == old(self)@.with_book(
                poll_id,
                PollBookModel {
                    whitelist: without_account(old(self)@.book(poll_id).whitelist, account@),
                    ..old(self)@.book(poll_id)
                },
            ),
    {
        let idx = match self.book_index(poll_id) {
            Some(idx) => idx,
            None => {
                return Err(PollError::PollNotFound);
            },
        };
        let ghost book = old(self)@.book(poll_id);
        assert(book == self.books@[idx as int]@);
        assert(book.wf());
        if !self.books[idx].poll.creator.is(caller) {
            return Err(PollError::NotCreator);
        }
        match find_account(&self.books[idx].whitelist, account) {
            Some(k) => {
                self.books[idx].whitelist.remove(k);
                proof {
                    let now_book = self.books@[idx as int]@;
                    assert(book.whitelist[k as int] == account@);
                    lemma_without_account(book.whitelist, account@, k as int);
                    assert(now_book.whitelist =~= book.whitelist.remove(k as int));
                    assert(now_book.ballots =~= book.ballots);
                    assert(now_book.poll.options =~= book.poll.options);
                    assert(self@.books =~= old(self)@.books.update(idx as int, now_book));
                }
            },
            None => {
                proof {
                    assert(self@.books =~= old(self)@.books.update(idx as int, book));
                }
            },
        }
        Ok(())
    }

    /// Creates a poll for `creator` at time `now`. Texts are trimmed before
    /// they are checked and stored. The payment must cover the storage the
    /// call adds and the reward, if any; the rest is refunded.
    pub fn create_poll(
        &mut self,
        creator: AccountId,
        now: u64,
        payment: Payment,
        request: PollRequest,
    ) -> (r: Result<PollCreated, PollError>)
        requires
            old(self).wf(),
        ensures
            final(self).wf(),
            match r {
                Ok(created) => {
                    &&& old(self)@.creation_error(now, payment, request@) is None
                    &&& final(self)@ == old(self)@.after_creation(creator@, now, request@)
                    &&& created.poll_id == old(self)@.next_poll_id
                    &&& created.refund@ == payment.attached_deposit@ - required_deposit(
                        payment,
                        request@.final_reward(),
                    )
                },
                Err(e) => {
                    &&& old(self)@.creation_error(now, payment, request@) == Some(e)
                    &&& *final(self) == *old(self)
                },
            },
    {
        let (title, criteria, description, options) = request.check()?;
        let ends_at: Option<u64> = match request.duration_minutes {
            Some(minutes) => {
                assert(minutes * NANOS_PER_MINUTE <= 525_600 * 60_000_000_000) by (nonlinear_arith)
                    requires
                        minutes <= 525_600,
                        NANOS_PER_MINUTE == 60_000_000_000,
                ;
                match now.checked_add(minutes * NANOS_PER_MINUTE) {
                    Some(t) => Some(t),
                    None => {
                        return Err(PollError::DurationOutOfRange);
                    },
                }
            },
            None => None,
        };
        if self.next_poll_id == u64::MAX {
            return Err(PollError::Arithmetic(ArithmeticError::Overflow));
        }
        let reward: u128 = match request.reward_yocto {
            Some(r) => r,
            None => 0,
        };
        let refund = settle_payment(payment, reward)?;
        let mut votes: Vec<u64> = Vec::new();
        let mut i: usize = 0;
        while i < options.len()
            invariant
                i <= options.len(),
                votes.len() == i,
                forall|j: int| 0 <= j < i ==> votes@[j] == 0,
            decreases options.len() - i,
        {
            votes.push(0);
            i = i + 1;
        }
        let poll_id = self.next_poll_id;
        let poll = Poll {
            id: poll_id,
            title,
            criteria,
            description,
            options,
            votes,
            creator,
            is_active: true,
            is_open: request.is_open,
            created_at: now,
            ends_at,
            reward_yocto: reward,
            payout_done: false,
            total_voters: 0,
            allow_creator_vote: match request.allow_creator_vote {
                Some(allow) => allow,
                None => false,
            },
        };
        let book = PollBook { poll, ballots: Vec::new(), whitelist: Vec::new() };
        proof {
            let expected = old(self)@.created_poll(creator@, now, request@);
            assert(book@.poll.options.len() == request@.options.len());
            assert(book@.poll.votes =~= expected.votes);
            assert(book@.poll == expected);
            assert(book@.ballots =~= Seq::empty());
            assert(book@.whitelist =~= Seq::empty());
            assert forall|j: int| 0 <= j < book@.poll.votes.len() implies book@.poll.votes[j]
                == #[trigger] tally(book@.ballots, j) by {
                assert(ballot_marks(book@.ballots, j) =~= Seq::empty());
            }
            assert(voters_of(book@.ballots) =~= Seq::empty());
            assert(book@.wf());
        }
        self.books.push(book);
        self.next_poll_id = self.next_poll_id + 1;
        proof {
            assert(self@.books =~= old(self)@.books.push(book@));
        }
        Ok(PollCreated { poll_id, refund })
    }

    /// Records the vote of `voter` for an option of a poll at time `now`. A
    /// voter has one vote per poll and may change it until the poll ends.
    /// The payment must cover the storage the call adds; the rest is
    /// refunded.
    pub fn vote(
        &mut self,
        voter: AccountId,
        now: u64,
        payment: Payment,
        poll_id: u64,
        option_index: u64,
    ) -> (r: Result<SafeAmount, PollError>)
        requires
            old(self).wf(),
        ensures
            final(self).wf(),
            match r {
                Ok(refund) => {
                    &&& old(self)@.voting_error(voter@, now, payment, poll_id, option_index) is None
                    &&& final(self)@ == old(self)@.with_book(
                        poll_id,
                        old(self)@.book(poll_id).voted(voter@, option_index),
                    )
                    &&& refund@ == payment.attached_deposit@ - required_deposit(payment, 0)
                },
                Err(e) => {
                    &&& old(self)@.voting_error(voter@, now, payment, poll_id, option_index)
                        == Some(e)
                    &&& *final(self) == *old(self)
                },
            },
    {
        let idx = match self.book_index(poll_id) {
            Some(idx) => idx,
            None => {
                return Err(PollError::PollNotFound);
            },
        };
        let ghost book = old(self)@.book(poll_id);
        assert(book == self.books@[idx as int]@);
        assert(book.wf());
        if !self.books[idx].poll.is_active {
            return Err(PollError::PollNotActive);
        }
        if !self.books[idx].poll.is_open && find_account(&self.books[idx].whitelist, &voter).is_none() {
            return Err(PollError::NotWhitelisted);
        }
        if let Some(ends_at) = self.books[idx].poll.ends_at {
            if now >= ends_at {
                return Err(PollError::PollExpired);
            }
        }
        if !self.books[idx].poll.allow_creator_vote && self.books[idx].poll.creator.is(&voter) {
            return Err(PollError::CreatorVotingDisabled);
        }
        if option_index >= self.books[idx].poll.options.len() as u64 {
            return Err(PollError::InvalidOptionIndex);
        }
        let position = self.books[idx].find_ballot(&voter);
        if position.is_none() && self.books[idx].poll.total_voters >= MAX_VOTERS_PER_POLL {
            return Err(PollError::VoterLimitReached);
        }
        let refund = settle_payment(payment, 0)?;
        let choice = option_index as usize;
        let ghost after = book.voted(voter@, option_index);
        proof {
            lemma_voted_wf(book, voter@, option_index);
            lemma_sum_at_most(
                ballot_marks(book.ballots, choice as int),
                1,
            );
            assert(book.ballots.len() * 1 == book.ballots.len()) by (nonlinear_arith);
            assert(book.poll.votes[choice as int] == tally(
                book.ballots,
                choice as int,
            ));
        }
        match position {
            Some(k) => {
                let before = self.books[idx].ballots[k].option_index as usize;
                assert(book.ballots[k as int].option_index == before);
                let withdrawn = self.books[idx].poll.votes[before] - 1;
                self.books[idx].poll.votes.set(before, withdrawn);
                let counted = self.books[idx].poll.votes[choice] + 1;
                self.books[idx].poll.votes.set(choice, counted);
                self.books[idx].ballots[k].option_index = option_index;
                proof {
                    let now_book = self.books@[idx as int]@;
                    assert(now_book.poll.votes =~= after.poll.votes);
                    assert(now_book.poll.options =~= after.poll.options);
                    assert(now_book.ballots =~= after.ballots);
                    assert(now_book.whitelist =~= after.whitelist);
                }
            },
            None => {
                let counted = self.books[idx].poll.votes[choice] + 1;
                self.books[idx].poll.votes.set(choice, counted);
                self.books[idx].poll.total_voters = self.books[idx].poll.total_voters + 1;
                self.books[idx].ballots.push(Ballot { voter, option_index });
                proof {
                    let now_book = self.books@[idx as int]@;
                    assert(now_book.poll.votes =~= after.poll.votes);
                    assert(now_book.poll.options =~= after.poll.options);
                    assert(now_book.ballots =~= after.ballots);
                    assert(now_book.whitelist =~= after.whitelist);
                }
            },
        }
        proof {
            assert(self.books@[idx as int]@ == after);
            assert(self@.books =~= old(self)@.books.update(idx as int, after));
        }
        Ok(refund)
    }

    /// The poll with this id, if there is one.
    pub fn get_poll(&self, poll_id: u64) -> (r: Option<Poll>)
        ensures
            match r {
                Some(poll) => self@.has_poll(poll_id) && poll@ == self@.book(poll_id).poll,
                None => !self@.has_poll(poll_id),
            },
    {
        match self.book_index(poll_id) {
            Some(idx) => {
                assert(self@.books[idx as int] == self.books@[idx as int]@);
                Some(self.books[idx].poll.clone())
            },
            None => None,
        }
    }

    /// The option that `user` voted for on the poll with this id, if they
    /// voted.
    pub fn get_user_vote(&self, poll_id: u64, user: &AccountId) -> (r: Option<u64>)
        requires
            self.wf(),
        ensures
            r == if self@.has_poll(poll_id) {
                self@.book(poll_id).vote_of(user@)
            } else {
                None
            },
    {
        match self.book_index(poll_id) {
            Some(idx) => {
                assert(self@.books[idx as int] == self.books@[idx as int]@);
                assert(self@.books[idx as int].wf());
                match self.books[idx].find_ballot(user) {
                    Some(k) => {
                        assert(self@.books[idx as int].ballots[k as int].option_index
                            == self.books[idx as int].ballots[k as int].option_index);
                        Some(self.books[idx].ballots[k].option_index)
                    },
                    None => None,
                }
            },
            None => None,
        }
    }
}

/// The most votes that any option has.
fn highest_votes(votes: &Vec<u64>) -> (r: u64)
    ensures
        r == top_votes(votes@),
{
    let mut highest: u64 = 0;
    let mut i: usize = 0;
    assert(votes@.take(0) =~= Seq::empty());
    while i < votes.len()
        invariant
            i <= votes.len(),
            highest == top_votes(votes@.take(i as int)),
        decreases votes.len() - i,
    {
        assert(votes@.take(i as int + 1).drop_last() =~= votes@.take(i as int));
        assert(votes@.take(i as int + 1).last() == votes@[i as int]);
        if votes[i] > highest {
            highest = votes[i];
        }
        i = i + 1;
    }
    assert(votes@.take(votes@.len() as int) =~= votes@);
    highest
}

/// How many options are among the winners, given the most votes.
fn count_winners(votes: &Vec<u64>, highest: u64) -> (r: usize)
    requires
        highest == top_votes(votes@),
    ensures
        r == winner_count(votes@, votes@.len() as int),
        r <= votes.len(),
{
    let mut count: usize = 0;
    let mut i: usize = 0;
    while i < votes.len()
        invariant
            i <= votes.len(),
            count <= i,
            highest == top_votes(votes@),
            count == winner_count(votes@, i as int),
        decreases votes.len() - i,
    {
        if votes[i] == highest && highest > 0 {
            count = count + 1;
        }
        i = i + 1;
    }
    count
}

/// The recipients behind the winning options, each once, in the order in
/// which they first occur.
fn winning_recipients(options: &Vec<OptionEntry>, votes: &Vec<u64>, highest: u64) -> (r: Vec<
    AccountId,
>)
    requires
        highest == top_votes(votes@),
        options.len() == votes.len(),
    ensures
        account_names(r@) == paid_recipients(
            option_models(options@),
            votes@,
            votes@.len() as int,
        ),
        r.len() <= winner_count(votes@, votes@.len() as int),
{
    let ghost models = option_models(options@);
    let mut paid: Vec<AccountId> = Vec::new();
    let mut i: usize = 0;
    assert(account_names(paid@) =~= Seq::empty());
    while i < votes.len()
        invariant
            i <= votes.len(),
            options.len() == votes.len(),
            highest == top_votes(votes@),
            models == option_models(options@),
            account_names(paid@) == paid_recipients(models, votes@, i as int),
            paid.len() <= winner_count(votes@, i as int),
        decreases votes.len() - i,
    {
        assert(models[i as int] == options@[i as int]@);
        if votes[i] == highest && highest > 0 {
            if find_account(&paid, &options[i].recipient).is_none() {
                let ghost before = paid@;
                paid.push(options[i].recipient.clone());
                assert(account_names(paid@) =~= account_names(before).push(
                    models[i as int].recipient,
                ));
            }
        }
        i = i + 1;
    }
    paid
}

impl VotingContract {
    /// Closes a poll and returns what the host pays out, in order. Only the
    /// poll's creator may close it. A reward that is still held is paid out
    /// with the closing: the platform fee to the owner, an equal part to the
    /// recipient behind each winning option, the rest to the creator.
    pub fn close_poll(&mut self, caller: &AccountId, poll_id: u64) -> (r: Result<
        Vec<Transfer>,
        PollError,
    >)
        requires
            old(self).wf(),
        ensures
            final(self).wf(),
            match r {
                Ok(transfers) => {
                    &&& old(self)@.has_poll(poll_id)
                    &&& caller@ == old(self)@.book(poll_id).poll.creator
                    &&& old(self)@.book(poll_id).poll.is_active
                    &&& transfer_models(transfers@) == old(self)@.book(poll_id).payouts(
                        old(self)@.owner,
                        old(self)@.platform_fee_bps,
                    )
                    &&& final(self)@ == old(self)@.with_book(
                        poll_id,
                        old(self)@.book(poll_id).closed(),
                    )
                },
                Err(e) => {
                    &&& *final(self) == *old(self)
                    &&& e == if !old(self)@.has_poll(poll_id) {
                        PollError::PollNotFound
                    } else if caller@ != old(self)@.book(poll_id).poll.creator {
                        PollError::NotCreator
                    } else {
                        PollError::PollAlreadyClosed
                    }
                    &&& old(self)@.has_poll(poll_id) && caller@ == old(self)@.book(
                        poll_id,
                    ).poll.creator ==> !old(self)@.book(poll_id).poll.is_active
                },
            },
    {
        let idx = match self.book_index(poll_id) {
            Some(idx) => idx,
            None => {
                return Err(PollError::PollNotFound);
            },
        };
        let ghost book = old(self)@.book(poll_id);
        assert(book == self.books@[idx as int]@);
        assert(book.wf());
        if !self.books[idx].poll.creator.is(caller) {
            return Err(PollError::NotCreator);
        }
        if !self.books[idx].poll.is_active {
            return Err(PollError::PollAlreadyClosed);
        }
        let mut transfers: Vec<Transfer> = Vec::new();
        let reward = self.books[idx].poll.reward_yocto;
        let bps = self.platform_fee_bps;
        assert(transfer_models(transfers@) =~= Seq::empty());
        if !self.books[idx].poll.payout_done && reward > 0 {
            assert(reward * bps <= MAX_REWARD_YOCTO * 2000) by (nonlinear_arith)
                requires
                    reward <= MAX_REWARD_YOCTO,
                    bps <= 2000,
            ;
            let fee: u128 = reward * (bps as u128) / 10_000;
            assert(fee <= reward) by (nonlinear_arith)
                requires
                    fee == (reward * bps) / 10_000,
                    bps <= 2000,
                    reward >= 0,
            ;
            let net: u128 = reward - fee;
            if fee > 0 {
                transfers.push(Transfer { to: self.owner.clone(), amount: fee });
            }
            let ghost paid_fee = transfer_models(transfers@);
            assert(paid_fee =~= transfer_if_positive(self@.owner, fee as nat));
            let highest = highest_votes(&self.books[idx].poll.votes);
            let count = count_winners(&self.books[idx].poll.votes, highest);
            let ghost votes = book.poll.votes;
            if count > 0 && net > 0 {
                let per: u128 = net / (count as u128);
                let paid = winning_recipients(
                    &self.books[idx].poll.options,
                    &self.books[idx].poll.votes,
                    highest,
                );
                let ghost names = account_names(paid@);
                assert(per * paid.len() <= net) by (nonlinear_arith)
                    requires
                        per == net / (count as u128),
                        count > 0,
                        paid.len() <= count,
                        net >= 0,
                ;
                if per > 0 {
                    let mut i: usize = 0;
                    while i < paid.len()
                        invariant
                            i <= paid.len(),
                            names == account_names(paid@),
                            transfer_models(transfers@) == paid_fee + equal_transfers(
                                names.take(i as int),
                                per,
                            ),
                        decreases paid.len() - i,
                    {
                        let ghost before = transfers@;
                        transfers.push(Transfer { to: paid[i].clone(), amount: per });
                        assert(transfer_models(transfers@) =~= paid_fee + equal_transfers(
                            names.take(i as int + 1),
                            per,
                        )) by {
                            assert(transfer_models(transfers@) =~= transfer_models(before).push(
                                TransferModel { to: names[i as int], amount: per },
                            ));
                            assert(names.take(i as int + 1) =~= names.take(i as int).push(
                                names[i as int],
                            ));
                        }
                        i = i + 1;
                    }
                    assert(names.take(names.len() as int) =~= names);
                } else {
                    assert(transfer_models(transfers@) =~= paid_fee + Seq::empty());
                }
                let ghost paid_winners = transfer_models(transfers@);
                let remainder: u128 = net - per * (paid.len() as u128);
                if remainder > 0 {
                    transfers.push(Transfer { to: self.books[idx].poll.creator.clone(), amount: remainder });
                }
                assert(transfer_models(transfers@) =~= paid_winners + transfer_if_positive(
                    book.poll.creator,
                    remainder as nat,
                ));
                assert(remainder == poll_remainder(book.poll.options, votes, net as nat));
                assert(transfer_models(transfers@) =~= book.payouts(self@.owner, bps));
            } else {
                if net > 0 {
                    transfers.push(Transfer { to: self.books[idx].poll.creator.clone(), amount: net });
                }
                assert(transfer_models(transfers@) =~= paid_fee + transfer_if_positive(
                    book.poll.creator,
                    net as nat,
                ));
                assert(transfer_models(transfers@) =~= book.payouts(self@.owner, bps));
            }
            self.books[idx].poll.reward_yocto = 0;
            self.books[idx].poll.payout_done = true;
        }
        self.books[idx].poll.is_active = false;
        proof {
            let now_book = self.books@[idx as int]@;
            assert(now_book.poll.options =~= book.poll.options);
            assert(now_book.ballots =~= book.ballots);
            assert(now_book.whitelist =~= book.whitelist);
            assert(now_book == book.closed());
            assert forall|j: int| 0 <= j < now_book.poll.votes.len() implies now_book.poll.votes[j]
                == #[trigger] tally(now_book.ballots, j) by {
                assert(book.poll.votes[j] == tally(book.ballots, j));
            }
            assert(self@.books =~= old(self)@.books.update(idx as int, now_book));
        }
        Ok(transfers)
    }
}

} // verus!
