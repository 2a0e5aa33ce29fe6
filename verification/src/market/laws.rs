//! What holds of the market whatever the order of calls.

use crate::market::bounty::{
    staked_sum, BookModel, ParticipantStake, SubmissionModel, MAX_PARTICIPANTS_PER_BOUNTY,
};
use crate::market::claims::{backer_claims, lemma_backer_claims_within_pool, lemma_claimed_wf};
use crate::sums::seq_sum;
use crate::market::closing::lemma_closed_wf;
use crate::error::MarketError;
use crate::market::MarketModel;
use crate::market::registry::{lemma_created_wf, lemma_submitted_wf, RequestModel};
use crate::payment::Payment;
use crate::market::settlement::{
    backer_pool, is_winner, lemma_parts_within_pool, lemma_winner_unique, total_prize,
    winning_submission,
};
use crate::market::stakes::{lemma_stake_within_totals, lemma_staked_wf};
use vstd::prelude::*;

verus! {

/// In a well-formed market the stake totals of a bounty's submissions add up
/// to the bounty's own stake total.
pub proof fn law_totals_agree(m: MarketModel, bounty_id: u64)
    requires
        m.wf(),
        m.has_bounty(bounty_id),
    ensures
        staked_sum(m.book(bounty_id).bounty.submissions) == m.book(bounty_id).bounty.total_staked,
{
    assert(m.books[bounty_id - 1].wf());
}

/// Replacing the book of one bounty by a well-formed book of the same id
/// keeps the market well formed.
pub proof fn law_book_replaced(m: MarketModel, bounty_id: u64, book: BookModel)
    requires
        m.wf(),
        m.has_bounty(bounty_id),
        book.wf(),
        book.bounty.id == bounty_id,
    ensures
        m.with_book(bounty_id, book).wf(),
{
    let after = m.with_book(bounty_id, book);
    assert forall|i: int| 0 <= i < after.books.len() implies (#[trigger] after.books[i]).wf()
        && after.books[i].bounty.id == i + 1 by {
        if i != bounty_id - 1 {
            assert(after.books[i] == m.books[i]);
        }
    }
}

/// Creating a bounty keeps the market well formed, and the new bounty
/// starts without stake: no submission, a total of zero.
pub proof fn law_creation_keeps_totals(
    m: MarketModel,
    creator: Seq<char>,
    now: u64,
    payment: Payment,
    request: RequestModel,
)
    requires
        m.wf(),
        m.creation_error(now, payment, request) is None,
    ensures
        m.after_creation(creator, now, request).wf(),
        m.after_creation(creator, now, request).book(m.next_bounty_id).bounty.total_staked == 0,
        staked_sum(
            m.after_creation(creator, now, request).book(m.next_bounty_id).bounty.submissions,
        ) == 0,
{
    lemma_created_wf(m, creator, now, payment, request);
    assert(m.after_creation(creator, now, request).books[m.next_bounty_id - 1].wf());
}

/// An accepted submission keeps the market well formed, and adds no stake:
/// the bounty's total stays what it was.
pub proof fn law_submission_keeps_totals(
    m: MarketModel,
    submitter: Seq<char>,
    now: u64,
    bounty_id: u64,
    creation_id: Seq<char>,
    title: Seq<char>,
    thumbnail_url: Seq<char>,
)
    requires
        m.wf(),
        m.submission_error(submitter, now, bounty_id, creation_id, title) is None,
    ensures
        ({
            let after = m.after_submission(
                submitter,
                now,
                bounty_id,
                creation_id,
                title,
                thumbnail_url,
            );
            &&& after.wf()
            &&& after.book(bounty_id).bounty.total_staked == m.book(bounty_id).bounty.total_staked
            &&& staked_sum(after.book(bounty_id).bounty.submissions) == after.book(
                bounty_id,
            ).bounty.total_staked
        }),
{
    let book = m.book(bounty_id);
    assert(m.books[bounty_id - 1].wf());
    let submission = SubmissionModel {
        creator: submitter,
        creation_id,
        title,
        thumbnail_url,
        total_staked: 0,
        submitted_at: now,
    };
    lemma_submitted_wf(book, submission);
    law_book_replaced(m, bounty_id, book.with_submission(submission));
}

/// A closed bounty is final: it takes no submission, no stake and no
/// second closing, so that its record, the winner with it, stays as the
/// closing left it.
pub proof fn law_closed_bounty_is_final(
    m: MarketModel,
    caller: Seq<char>,
    now: u64,
    bounty_id: u64,
    creation_id: Seq<char>,
    title: Seq<char>,
    stake: ParticipantStake,
)
    requires
        m.wf(),
        m.has_bounty(bounty_id),
        m.book(bounty_id).bounty.is_closed,
        stake.bounty_id == bounty_id,
    ensures
        m.submission_error(caller, now, bounty_id, creation_id, title) is Some,
        m.staking_error(caller, now, stake.amount@, bounty_id, stake.submission_index) is Some,
        m.closing_error(caller, now, bounty_id) is Some,
{
    assert(m.books[bounty_id - 1].wf());
}

/// An accepted stake keeps the market well formed; in particular the stake
/// totals of the submissions still add up to the total of the bounty.
pub proof fn law_stake_keeps_totals(
    m: MarketModel,
    staker: Seq<char>,
    now: u64,
    stake: ParticipantStake,
)
    requires
        m.wf(),
        m.staking_error(staker, now, stake.amount@, stake.bounty_id, stake.submission_index)
            is None,
    ensures
        m.after_stake(staker, stake).wf(),
        staked_sum(m.after_stake(staker, stake).book(stake.bounty_id).bounty.submissions)
            == m.after_stake(staker, stake).book(stake.bounty_id).bounty.total_staked,
{
    let book = m.book(stake.bounty_id);
    assert(m.books[stake.bounty_id - 1].wf());
    lemma_staked_wf(book, staker, stake);
    law_book_replaced(m, stake.bounty_id, book.staked(staker, stake));
}

/// Closing a bounty keeps the market well formed.
pub proof fn law_close_keeps_totals(m: MarketModel, caller: Seq<char>, now: u64, bounty_id: u64)
    requires
        m.wf(),
        m.closing_error(caller, now, bounty_id) is None,
    ensures
        m.after_close(bounty_id).wf(),
        m.after_close(bounty_id).book(bounty_id).bounty.submissions == m.book(
            bounty_id,
        ).bounty.submissions,
        m.after_close(bounty_id).book(bounty_id).bounty.total_staked == m.book(
            bounty_id,
        ).bounty.total_staked,
{
    let book = m.book(bounty_id);
    assert(m.books[bounty_id - 1].wf());
    lemma_closed_wf(book);
    law_book_replaced(m, bounty_id, book.closed());
}

/// A paid claim keeps the market well formed and changes no total.
pub proof fn law_claim_keeps_totals(
    m: MarketModel,
    claimer: Seq<char>,
    bounty_id: u64,
    balance: nat,
)
    requires
        m.wf(),
        m.claim_outcome(claimer, bounty_id, balance) is Ok,
    ensures
        m.after_claim(claimer, bounty_id).wf(),
        m.after_claim(claimer, bounty_id).book(bounty_id).bounty == m.book(bounty_id).bounty,
{
    let book = m.book(bounty_id);
    assert(m.books[bounty_id - 1].wf());
    lemma_claimed_wf(book, claimer);
    law_book_replaced(m, bounty_id, book.claimed(claimer));
}

/// The participants of a bounty never number more than the limit.
pub proof fn law_participants_bounded(m: MarketModel, bounty_id: u64)
    requires
        m.wf(),
        m.has_bounty(bounty_id),
    ensures
        m.book(bounty_id).participants.len() <= MAX_PARTICIPANTS_PER_BOUNTY,
{
    assert(m.books[bounty_id - 1].wf());
}

/// Once a bounty has admitted as many participants as it may, a stake of
/// someone who holds none on it is rejected for that reason, while a stake
/// that is in order otherwise is still accepted from someone who holds one,
/// and admits nobody new.
pub proof fn law_limit_binds_newcomers_only(
    m: MarketModel,
    staker: Seq<char>,
    now: u64,
    stake: ParticipantStake,
)
    requires
        m.wf(),
        m.has_bounty(stake.bounty_id),
        m.book(stake.bounty_id).bounty.is_open_at(now),
        stake.submission_index < m.book(stake.bounty_id).bounty.submissions.len(),
        0 < stake.amount@ <= m.book(stake.bounty_id).bounty.max_stake_per_user,
        m.book(stake.bounty_id).participants.len() == MAX_PARTICIPANTS_PER_BOUNTY,
    ensures
        m.stake_of(staker, stake.bounty_id) is None ==> m.staking_error(
            staker,
            now,
            stake.amount@,
            stake.bounty_id,
            stake.submission_index,
        ) == Some(MarketError::ParticipantLimitReached),
        m.stake_of(staker, stake.bounty_id) is Some ==> m.staking_error(
            staker,
            now,
            stake.amount@,
            stake.bounty_id,
            stake.submission_index,
        ) is None && m.after_stake(staker, stake).book(stake.bounty_id).participants == m.book(
            stake.bounty_id,
        ).participants,
{
}

/// The winner on record is, and stays, the most-staked submission: it
/// carries stake, no submission carries more, and none before it carries as
/// much.
pub proof fn law_winner_is_most_staked(m: MarketModel, bounty_id: u64)
    requires
        m.wf(),
        m.has_bounty(bounty_id),
        m.book(bounty_id).bounty.winning_submission is Some,
    ensures
        m.book(bounty_id).bounty.is_closed,
        is_winner(
            m.book(bounty_id).bounty.submissions,
            m.book(bounty_id).bounty.winning_submission.unwrap() as int,
        ),
        winning_submission(m.book(bounty_id).bounty.submissions) == m.book(
            bounty_id,
        ).bounty.winning_submission,
{
    let book = m.book(bounty_id);
    assert(m.books[bounty_id - 1].wf());
    let w = book.bounty.winning_submission.unwrap() as int;
    let chosen = choose|c: int| is_winner(book.bounty.submissions, c);
    lemma_winner_unique(book.bounty.submissions, chosen, w);
}

/// What closing a bounty pays out at once, and what it sets aside for the
/// winning backers, never exceeds the prize pool.
pub proof fn law_settlement_within_pool(m: MarketModel, caller: Seq<char>, now: u64, bounty_id: u64)
    requires
        m.wf(),
        m.closing_error(caller, now, bounty_id) is None,
    ensures
        ({
            let book = m.book(bounty_id);
            let settlement = book.settlement(m.owner(), m.platform_fee_rate);
            &&& settlement.platform_fee + settlement.creator_reward <= total_prize(book.bounty)
            &&& settlement.winning_submission is Some ==> settlement.platform_fee
                + settlement.creator_reward + backer_pool(book.bounty, m.platform_fee_rate)
                <= total_prize(book.bounty)
        }),
{
    assert(m.books[bounty_id - 1].wf());
    lemma_parts_within_pool(m.book(bounty_id).bounty, m.platform_fee_rate);
}

/// Whatever the winning backers claim, and in whatever order, they cannot
/// take more than the backer pool between them.
pub proof fn law_backers_share_within_pool(m: MarketModel, bounty_id: u64)
    requires
        m.wf(),
        m.has_bounty(bounty_id),
        m.book(bounty_id).bounty.winning_submission is Some,
    ensures
        seq_sum(
            backer_claims(
                m.book(bounty_id),
                m.platform_fee_rate,
                m.book(bounty_id).bounty.winning_submission.unwrap() as int,
            ),
        ) <= backer_pool(m.book(bounty_id).bounty, m.platform_fee_rate),
{
    assert(m.books[bounty_id - 1].wf());
    lemma_backer_claims_within_pool(
        m.book(bounty_id),
        m.platform_fee_rate,
        m.book(bounty_id).bounty.winning_submission.unwrap() as int,
    );
}

/// A claim is paid once at most: after a paid claim, a further claim of the
/// same participant on the same bounty finds no stake, whatever the balance.
pub proof fn law_claim_at_most_once(
    m: MarketModel,
    claimer: Seq<char>,
    bounty_id: u64,
    balance: nat,
    later_balance: nat,
)
    requires
        m.wf(),
        m.claim_outcome(claimer, bounty_id, balance) is Ok,
    ensures
        m.after_claim(claimer, bounty_id).claim_outcome(claimer, bounty_id, later_balance) == Err::<
            nat,
            MarketError,
        >(MarketError::NoStakeFound),
{
    let book = m.book(bounty_id);
    assert(m.books[bounty_id - 1].wf());
    lemma_claimed_wf(book, claimer);
}

/// A bounty with a single participant closes without platform fee and
/// without creator reward, whatever the fee rate, and that participant's
/// claim then returns their stake in full, whatever the balance.
pub proof fn law_single_participant_refund(
    m: MarketModel,
    caller: Seq<char>,
    now: u64,
    bounty_id: u64,
    claimer: Seq<char>,
    balance: nat,
)
    requires
        m.wf(),
        m.closing_error(caller, now, bounty_id) is None,
        m.book(bounty_id).participants.len() <= 1,
        m.stake_of(claimer, bounty_id) is Some,
    ensures
        m.book(bounty_id).settlement(m.owner(), m.platform_fee_rate).platform_fee == 0,
        m.book(bounty_id).settlement(m.owner(), m.platform_fee_rate).creator_reward == 0,
        m.book(bounty_id).settlement(m.owner(), m.platform_fee_rate).winning_submission is None,
        m.after_close(bounty_id).claim_outcome(claimer, bounty_id, balance) == Ok::<
            nat,
            MarketError,
        >(m.stake_of(claimer, bounty_id).unwrap().amount@),
{
    let book = m.book(bounty_id);
    assert(m.books[bounty_id - 1].wf());
    assert(book.closed().stakes == book.stakes);
    assert(book.closed().stake_position(claimer) == book.stake_position(claimer));
}

/// A changed stake moves: where a participant who backs one submission
/// stakes on another, the earlier amount leaves the old submission and the
/// bounty total, and the new amount alone is added to the new submission and
/// the bounty total.
pub proof fn law_restake_moves_amount(
    m: MarketModel,
    staker: Seq<char>,
    now: u64,
    stake: ParticipantStake,
)
    requires
        m.wf(),
        m.staking_error(staker, now, stake.amount@, stake.bounty_id, stake.submission_index)
            is None,
        m.stake_of(staker, stake.bounty_id) is Some,
        m.stake_of(staker, stake.bounty_id).unwrap().submission_index != stake.submission_index,
    ensures
        ({
            let prior = m.stake_of(staker, stake.bounty_id).unwrap();
            let before = m.book(stake.bounty_id).bounty;
            let after = m.after_stake(staker, stake).book(stake.bounty_id).bounty;
            &&& prior.amount@ <= before.submissions[prior.submission_index as int].total_staked
            &&& after.submissions[prior.submission_index as int].total_staked
                == before.submissions[prior.submission_index as int].total_staked - prior.amount@
            &&& after.submissions[stake.submission_index as int].total_staked
                == before.submissions[stake.submission_index as int].total_staked + stake.amount@
            &&& after.total_staked == before.total_staked - prior.amount@ + stake.amount@
            &&& m.after_stake(staker, stake).stake_of(staker, stake.bounty_id) == Some(stake)
        }),
{
    let book = m.book(stake.bounty_id);
    assert(m.books[stake.bounty_id - 1].wf());
    let k = book.stake_position(staker).unwrap();
    lemma_stake_within_totals(book, k);
    lemma_staked_wf(book, staker, stake);
}

} // verus!
