use content_bounty_market::account::AccountId;
use content_bounty_market::amount::{SafeAmount, ONE_NEAR};
use content_bounty_market::error::{ErrorKind, MarketError};
use content_bounty_market::market::BountyPredictionContract;
use content_bounty_market::market::registry::{BountyCreated, BountyRequest, NANOS_PER_DAY};
use content_bounty_market::payment::Payment;

fn near(n: u128) -> SafeAmount {
    SafeAmount::from_yoctonear(n * ONE_NEAR)
}

fn acct(name: &str) -> AccountId {
    AccountId::new(name)
}

fn market() -> BountyPredictionContract {
    BountyPredictionContract::new(acct("owner.near"), 10, near(1), near(100)).unwrap()
}

fn paid(n: u128) -> Payment {
    Payment {
        attached_deposit: near(n),
        storage_used: 0,
        storage_byte_cost: SafeAmount::from_yoctonear(10_000_000_000_000_000_000),
    }
}

fn request(base_prize: u128, max_stake: u128, days: u64) -> BountyRequest {
    BountyRequest {
        title: "Who will win?".to_string(),
        description: "Predict the winner".to_string(),
        requirements: "Submit your best work".to_string(),
        base_prize: near(base_prize),
        max_stake_per_user: near(max_stake),
        creator_share: None,
        backer_share: None,
        duration_days: days,
    }
}

fn bounty_with_two_submissions(m: &mut BountyPredictionContract) -> u64 {
    let created = m.create_content_bounty(acct("sponsor.near"), 0, paid(1), request(1, 50, 1)).unwrap();
    m.submit_content(acct("a.near"), 1, created.bounty_id, "creation-a".to_string(), "A".to_string(), "http://a".to_string()).unwrap();
    m.submit_content(acct("b.near"), 2, created.bounty_id, "creation-b".to_string(), "B".to_string(), "http://b".to_string()).unwrap();
    created.bounty_id
}

#[test]
fn create_bounty_assigns_ids_from_one_and_refunds_the_excess() {
    let mut m = market();
    let first = m.create_content_bounty(acct("sponsor.near"), 7, paid(3), request(1, 50, 1)).unwrap();
    assert_eq!(first, BountyCreated { bounty_id: 1, refund: near(2) });
    let second = m.create_content_bounty(acct("sponsor.near"), 8, paid(1), request(1, 50, 2)).unwrap();
    assert_eq!(second.bounty_id, 2);
    assert_eq!(second.refund, near(0));
    let b = m.get_bounty(1).unwrap();
    assert_eq!(b.id, 1);
    assert_eq!(b.title, "Who will win?");
    assert_eq!(b.creator, acct("sponsor.near"));
    assert_eq!(b.creator_share, 90);
    assert_eq!(b.backer_share, 10);
    assert!(b.is_active);
    assert!(!b.is_closed);
    assert_eq!(b.created_at, 7);
    assert_eq!(b.ends_at, 7 + NANOS_PER_DAY);
    assert_eq!(b.total_staked.0, 0);
    assert_eq!(b.winning_submission, None);
    assert!(m.get_bounty(3).is_none());
}

#[test]
fn create_bounty_charges_storage() {
    let mut m = market();
    let payment = Payment {
        attached_deposit: near(2),
        storage_used: 500,
        storage_byte_cost: SafeAmount::from_yoctonear(1_000_000_000_000_000_000_000),
    };
    let created = m.create_content_bounty(acct("s.near"), 0, payment, request(1, 50, 1)).unwrap();
    assert_eq!(created.refund.as_yoctonear(), ONE_NEAR / 2);
    let short = Payment { attached_deposit: near(1), ..payment };
    let before = m.get_bounty(2);
    assert_eq!(
        m.create_content_bounty(acct("s.near"), 0, short, request(1, 50, 1)),
        Err(MarketError::InsufficientDeposit)
    );
    assert!(before.is_none() && m.get_bounty(2).is_none());
}

#[test]
fn create_bounty_rejects_each_broken_rule() {
    let mut m = market();
    let s = || acct("s.near");
    let mut r = request(1, 50, 1);
    r.title = "   \t".to_string();
    assert_eq!(m.create_content_bounty(s(), 0, paid(1), r), Err(MarketError::EmptyTitle));
    let mut r = request(1, 50, 1);
    r.description = "".to_string();
    assert_eq!(m.create_content_bounty(s(), 0, paid(1), r), Err(MarketError::EmptyDescription));
    let mut r = request(1, 50, 1);
    r.requirements = "\n".to_string();
    assert_eq!(m.create_content_bounty(s(), 0, paid(1), r), Err(MarketError::EmptyRequirements));
    let mut r = request(1, 50, 1);
    r.title = "t".repeat(201);
    assert_eq!(m.create_content_bounty(s(), 0, paid(1), r), Err(MarketError::TitleTooLong));
    let mut r = request(1, 50, 1);
    r.title = "t".repeat(200);
    assert!(m.create_content_bounty(s(), 0, paid(1), r).is_ok());
    let mut r = request(1, 50, 1);
    r.description = "d".repeat(1001);
    assert_eq!(m.create_content_bounty(s(), 0, paid(1), r), Err(MarketError::DescriptionTooLong));
    let mut r = request(1, 50, 1);
    r.requirements = "r".repeat(2001);
    assert_eq!(m.create_content_bounty(s(), 0, paid(1), r), Err(MarketError::RequirementsTooLong));
    let mut r = request(1, 50, 1);
    r.base_prize = SafeAmount::from_yoctonear(ONE_NEAR - 1);
    assert_eq!(m.create_content_bounty(s(), 0, paid(1), r), Err(MarketError::BasePrizeTooLow));
    assert_eq!(
        m.create_content_bounty(s(), 0, paid(1), request(2, 50, 1)),
        Err(MarketError::DepositBelowBasePrize)
    );
    let mut r = request(1, 50, 1);
    r.max_stake_per_user = SafeAmount::from_millinear(50);
    assert_eq!(m.create_content_bounty(s(), 0, paid(1), r), Err(MarketError::MaxStakeTooLow));
    assert_eq!(
        m.create_content_bounty(s(), 0, paid(1), request(1, 10001, 1)),
        Err(MarketError::MaxStakeTooHigh)
    );
    let mut r = request(1, 50, 1);
    r.creator_share = Some(60);
    assert_eq!(m.create_content_bounty(s(), 0, paid(1), r), Err(MarketError::SharesMustTotalHundred));
    let mut r = request(1, 50, 1);
    r.creator_share = Some(200);
    r.backer_share = Some(156);
    assert_eq!(m.create_content_bounty(s(), 0, paid(1), r), Err(MarketError::SharesMustTotalHundred));
    let mut r = request(1, 50, 1);
    r.creator_share = Some(29);
    r.backer_share = Some(71);
    assert_eq!(m.create_content_bounty(s(), 0, paid(1), r), Err(MarketError::CreatorShareTooLow));
    let mut r = request(1, 50, 1);
    r.creator_share = Some(91);
    r.backer_share = Some(9);
    assert_eq!(m.create_content_bounty(s(), 0, paid(1), r), Err(MarketError::CreatorShareTooHigh));
    let mut r = request(1, 50, 1);
    r.creator_share = Some(30);
    r.backer_share = Some(70);
    assert!(m.create_content_bounty(s(), 0, paid(1), r).is_ok());
    assert_eq!(
        m.create_content_bounty(s(), 0, paid(1), request(1, 50, 0)),
        Err(MarketError::DurationTooShort)
    );
    assert_eq!(
        m.create_content_bounty(s(), 0, paid(1), request(1, 50, 91)),
        Err(MarketError::DurationTooLong)
    );
    assert_eq!(
        m.create_content_bounty(s(), u64::MAX - 5, paid(1), request(1, 50, 1)),
        Err(MarketError::DurationOutOfRange)
    );
    let costly = Payment { attached_deposit: near(1), storage_used: 2, storage_byte_cost: SafeAmount::from_yoctonear(u128::MAX) };
    assert_eq!(
        m.create_content_bounty(s(), 0, costly, request(1, 50, 1)).map_err(|e| e.kind()),
        Err(ErrorKind::Arithmetic)
    );
    assert_eq!(MarketError::EmptyTitle.kind(), ErrorKind::Validation);
}

#[test]
fn submit_content_appends_and_rejects_duplicates() {
    let mut m = market();
    let id = m.create_content_bounty(acct("s.near"), 0, paid(1), request(1, 50, 1)).unwrap().bounty_id;
    let sub = |m: &mut BountyPredictionContract, who: &str, now: u64, cid: &str, title: &str| {
        m.submit_content(acct(who), now, id, cid.to_string(), title.to_string(), "thumb".to_string())
    };
    assert_eq!(sub(&mut m, "a.near", 5, "c1", "first"), Ok(0));
    assert_eq!(sub(&mut m, "b.near", 6, "c2", "second"), Ok(1));
    assert_eq!(sub(&mut m, "a.near", 7, "c3", "again"), Err(MarketError::AlreadySubmitted));
    assert_eq!(sub(&mut m, "c.near", 7, "c2", "copy"), Err(MarketError::DuplicateCreation));
    assert_eq!(sub(&mut m, "b.near", 7, "c1", "both"), Err(MarketError::DuplicateCreation));
    assert_eq!(sub(&mut m, "a.near", 7, "c2", "both"), Err(MarketError::AlreadySubmitted));
    assert_eq!(sub(&mut m, "c.near", 7, "  ", "x"), Err(MarketError::EmptyCreationId));
    assert_eq!(sub(&mut m, "c.near", 7, "c3", ""), Err(MarketError::EmptyTitle));
    assert_eq!(sub(&mut m, "c.near", 7, "c3", &"t".repeat(201)), Err(MarketError::TitleTooLong));
    assert_eq!(sub(&mut m, "c.near", NANOS_PER_DAY, "c3", "late"), Err(MarketError::BountyExpired));
    assert_eq!(
        m.submit_content(acct("c.near"), 7, 9, "c3".to_string(), "t".to_string(), "u".to_string()),
        Err(MarketError::BountyNotFound)
    );
    let b = m.get_bounty(id).unwrap();
    assert_eq!(b.submissions.len(), 2);
    assert_eq!(b.submissions[1].creator, acct("b.near"));
    assert_eq!(b.submissions[1].creation_id, "c2");
    assert_eq!(b.submissions[1].title, "second");
    assert_eq!(b.submissions[1].thumbnail_url, "thumb");
    assert_eq!(b.submissions[1].total_staked.0, 0);
    assert_eq!(b.submissions[1].submitted_at, 6);
}

#[test]
fn submit_content_stops_at_the_submission_limit() {
    let mut m = market();
    let id = m.create_content_bounty(acct("s.near"), 0, paid(1), request(1, 50, 1)).unwrap().bounty_id;
    for i in 0..100u64 {
        let r = m.submit_content(acct(&format!("u{}.near", i)), 1, id, format!("c{}", i), "t".to_string(), "u".to_string());
        assert_eq!(r, Ok(i));
    }
    assert_eq!(
        m.submit_content(acct("late.near"), 1, id, "late".to_string(), "t".to_string(), "u".to_string()),
        Err(MarketError::TooManySubmissions)
    );
}

#[test]
fn stake_updates_submission_and_bounty_totals() {
    let mut m = market();
    let id = bounty_with_two_submissions(&mut m);
    m.stake_on_submission(acct("x.near"), 3, near(10), id, 0).unwrap();
    m.stake_on_submission(acct("y.near"), 4, near(20), id, 1).unwrap();
    let stakes = m.get_bounty_submission_stakes(id);
    assert_eq!(stakes[0].0, 10 * ONE_NEAR);
    assert_eq!(stakes[1].0, 20 * ONE_NEAR);
    assert_eq!(m.get_bounty(id).unwrap().total_staked.0, 30 * ONE_NEAR);
    let s = m.get_participant_stake(&acct("y.near"), id).unwrap();
    assert_eq!((s.bounty_id, s.submission_index, s.amount.0, s.staked_at), (id, 1, 20 * ONE_NEAR, 4));
    assert!(m.get_participant_stake(&acct("z.near"), id).is_none());
    assert_eq!(m.get_bounty_participant_count(id), 2);
    assert_eq!(m.get_bounty_participants(id), vec![acct("x.near"), acct("y.near")]);
}

#[test]
fn stake_rejections() {
    let mut m = market();
    let id = bounty_with_two_submissions(&mut m);
    let x = || acct("x.near");
    assert_eq!(m.stake_on_submission(x(), 3, near(1), 7, 0), Err(MarketError::BountyNotFound));
    assert_eq!(m.stake_on_submission(x(), 3, near(1), 0, 0), Err(MarketError::BountyNotFound));
    assert_eq!(m.stake_on_submission(x(), 3, near(1), id, 2), Err(MarketError::InvalidSubmissionIndex));
    assert_eq!(m.stake_on_submission(x(), 3, near(0), id, 0), Err(MarketError::StakeNotPositive));
    assert_eq!(m.stake_on_submission(x(), 3, near(51), id, 0), Err(MarketError::StakeExceedsMaximum));
    assert_eq!(m.stake_on_submission(x(), NANOS_PER_DAY, near(1), id, 0), Err(MarketError::BountyExpired));
    assert!(m.stake_on_submission(x(), NANOS_PER_DAY - 1, near(50), id, 0).is_ok());
    m.close_bounty(&acct("sponsor.near"), NANOS_PER_DAY, id).unwrap();
    assert_eq!(m.stake_on_submission(x(), 3, near(1), id, 0), Err(MarketError::BountyNotActive));
    assert_eq!(
        m.submit_content(acct("c.near"), 3, id, "c".to_string(), "t".to_string(), "u".to_string()),
        Err(MarketError::BountyNotActive)
    );
}

#[test]
fn restake_moves_the_amount() {
    let mut m = market();
    let id = bounty_with_two_submissions(&mut m);
    m.stake_on_submission(acct("x.near"), 3, near(5), id, 0).unwrap();
    m.stake_on_submission(acct("x.near"), 4, near(8), id, 1).unwrap();
    let b = m.get_bounty(id).unwrap();
    assert_eq!(b.submissions[0].total_staked.0, 0);
    assert_eq!(b.submissions[1].total_staked.0, 8 * ONE_NEAR);
    assert_eq!(b.total_staked.0, 8 * ONE_NEAR);
    let s = m.get_participant_stake(&acct("x.near"), id).unwrap();
    assert_eq!((s.submission_index, s.amount.0, s.staked_at), (1, 8 * ONE_NEAR, 4));
    assert_eq!(m.get_bounty_participant_count(id), 1);
    m.stake_on_submission(acct("x.near"), 5, near(2), id, 1).unwrap();
    let b = m.get_bounty(id).unwrap();
    assert_eq!(b.submissions[1].total_staked.0, 2 * ONE_NEAR);
    assert_eq!(b.total_staked.0, 2 * ONE_NEAR);
}

#[test]
fn totals_agree_after_every_call() {
    let mut m = market();
    let id = bounty_with_two_submissions(&mut m);
    let agree = |m: &BountyPredictionContract| {
        let b = m.get_bounty(id).unwrap();
        let sum: u128 = b.submissions.iter().map(|s| s.total_staked.0).sum();
        assert_eq!(sum, b.total_staked.0);
    };
    agree(&m);
    let moves: [(&str, u128, u64); 6] =
        [("x.near", 5, 0), ("y.near", 7, 1), ("x.near", 3, 1), ("z.near", 50, 0), ("y.near", 1, 0), ("x.near", 9, 0)];
    for (who, amount, index) in moves {
        m.stake_on_submission(acct(who), 10, near(amount), id, index).unwrap();
        agree(&m);
    }
    m.close_bounty(&acct("sponsor.near"), NANOS_PER_DAY, id).unwrap();
    agree(&m);
    m.claim_bounty_winnings(&acct("z.near"), id, near(1000)).unwrap();
    agree(&m);
}

#[test]
fn participant_limit_admits_exactly_the_limit() {
    let mut m = market();
    let id = bounty_with_two_submissions(&mut m);
    for i in 0..150u64 {
        m.stake_on_submission(acct(&format!("staker{}.near", i)), 10, near(1), id, i % 2).unwrap();
    }
    assert_eq!(m.get_bounty_participant_count(id), 150);
    assert_eq!(m.get_max_participants_per_bounty(), 150);
    assert_eq!(
        m.stake_on_submission(acct("newcomer.near"), 10, near(1), id, 0),
        Err(MarketError::ParticipantLimitReached)
    );
    assert_eq!(m.get_bounty_participant_count(id), 150);
    assert!(m.stake_on_submission(acct("staker3.near"), 11, near(2), id, 0).is_ok());
    assert_eq!(m.get_bounty_participant_count(id), 150);
    assert_eq!(m.get_bounty(id).unwrap().total_staked.0, 151 * ONE_NEAR);
}

#[test]
fn close_is_for_the_creator_until_the_grace_period_ends() {
    let mut m = market();
    let id = bounty_with_two_submissions(&mut m);
    let grace: u64 = 7 * NANOS_PER_DAY;
    let end = NANOS_PER_DAY;
    assert_eq!(m.close_bounty(&acct("sponsor.near"), end - 1, id), Err(MarketError::BountyNotExpired));
    assert_eq!(m.close_bounty(&acct("x.near"), end - 1, id), Err(MarketError::NotAuthorizedToClose));
    assert_eq!(m.close_bounty(&acct("x.near"), end, id), Err(MarketError::NotAuthorizedToClose));
    assert_eq!(m.close_bounty(&acct("x.near"), end + grace - 1, id), Err(MarketError::NotAuthorizedToClose));
    assert_eq!(m.close_bounty(&acct("x.near"), end, 4), Err(MarketError::BountyNotFound));
    let s = m.close_bounty(&acct("x.near"), end + grace, id).unwrap();
    assert_eq!(s.winning_submission, None);
    assert_eq!(s.platform_fee, near(0));
    assert_eq!(s.creator_reward, near(0));
    let b = m.get_bounty_results(id).unwrap();
    assert!(b.is_closed && !b.is_active);
    assert_eq!(m.close_bounty(&acct("sponsor.near"), end + grace, id), Err(MarketError::BountyNotActive));
    assert_eq!(MarketError::NotAuthorizedToClose.kind(), ErrorKind::Authorization);
    assert_eq!(MarketError::BountyNotExpired.kind(), ErrorKind::State);
}

#[test]
fn results_are_shown_for_closed_bounties_only() {
    let mut m = market();
    let id = bounty_with_two_submissions(&mut m);
    assert!(m.get_bounty_results(id).is_none());
    assert!(m.get_bounty_results(5).is_none());
    assert_eq!(m.get_active_bounties(10).len(), 1);
    assert_eq!(m.get_active_bounties(NANOS_PER_DAY).len(), 0);
    m.close_bounty(&acct("sponsor.near"), NANOS_PER_DAY, id).unwrap();
    assert!(m.get_bounty_results(id).is_some());
    assert_eq!(m.get_active_bounties(10).len(), 0);
}

#[test]
fn active_bounties_come_in_id_order() {
    let mut m = market();
    for days in [3u64, 1, 2] {
        m.create_content_bounty(acct("s.near"), 0, paid(1), request(1, 50, days)).unwrap();
    }
    let ids: Vec<u64> = m.get_active_bounties(NANOS_PER_DAY).iter().map(|b| b.id).collect();
    assert_eq!(ids, vec![1, 3]);
}

#[test]
fn winner_selection_follows_stakes() {
    let mut m = market();
    let id = m.create_content_bounty(acct("s.near"), 0, paid(1), request(1, 50, 1)).unwrap().bounty_id;
    for who in ["a", "b", "c"] {
        m.submit_content(acct(who), 1, id, who.to_string(), "t".to_string(), "u".to_string()).unwrap();
    }
    let stored = |m: &BountyPredictionContract| m.determine_winning_submission(&m.books[0].bounty);
    assert_eq!(stored(&m), None);
    for (who, amount, index) in [("x", 3u128, 0u64), ("y", 7, 1), ("z", 2, 2)] {
        m.stake_on_submission(acct(who), 2, near(amount), id, index).unwrap();
    }
    assert_eq!(stored(&m), Some(1));
    m.stake_on_submission(acct("x"), 2, near(5), id, 0).unwrap();
    m.stake_on_submission(acct("y"), 2, near(5), id, 1).unwrap();
    assert_eq!(stored(&m), Some(0));
    let s = m.close_bounty(&acct("s.near"), NANOS_PER_DAY, id).unwrap();
    assert_eq!(s.winning_submission, Some(0));
    assert_eq!(s.winning_creator, Some(acct("a")));
    assert_eq!(m.get_bounty(id).unwrap().winning_submission, Some(0));
}

#[test]
fn single_participant_is_refunded_in_full_without_fee() {
    let mut m = market();
    m.update_platform_fee_rate(&acct("owner.near"), 1000).unwrap();
    let id = bounty_with_two_submissions(&mut m);
    m.stake_on_submission(acct("x.near"), 3, near(5), id, 0).unwrap();
    m.stake_on_submission(acct("x.near"), 4, near(8), id, 1).unwrap();
    let s = m.close_bounty(&acct("sponsor.near"), NANOS_PER_DAY, id).unwrap();
    assert_eq!(s.winning_submission, None);
    assert_eq!(s.platform_fee, near(0));
    assert_eq!(s.creator_reward, near(0));
    assert_eq!(m.claim_bounty_winnings(&acct("x.near"), id, near(0)), Ok(near(8)));
    assert_eq!(m.claim_bounty_winnings(&acct("x.near"), id, near(100)), Err(MarketError::NoStakeFound));
}

#[test]
fn end_to_end_settlement() {
    let mut m = market();
    let id = bounty_with_two_submissions(&mut m);
    m.stake_on_submission(acct("backer-a.near"), 3, near(10), id, 0).unwrap();
    m.stake_on_submission(acct("b.near"), 4, near(5), id, 1).unwrap();
    m.stake_on_submission(acct("backer-b.near"), 5, near(15), id, 1).unwrap();
    assert_eq!(
        m.claim_bounty_winnings(&acct("b.near"), id, near(1000)),
        Err(MarketError::BountyNotClosed)
    );
    let s = m.close_bounty(&acct("sponsor.near"), NANOS_PER_DAY, id).unwrap();
    // pool 31, fee 5% = 1.55, rest 29.45, creator 90% = 26.505, backers 10% = 2.945
    assert_eq!(s.winning_submission, Some(1));
    assert_eq!(s.platform_account, acct("owner.near"));
    assert_eq!(s.winning_creator, Some(acct("b.near")));
    assert_eq!(s.platform_fee.as_yoctonear(), 1_550_000_000_000_000_000_000_000);
    assert_eq!(s.creator_reward.as_yoctonear(), 26_505_000_000_000_000_000_000_000);
    let creator = m.claim_bounty_winnings(&acct("b.near"), id, near(1000)).unwrap();
    assert_eq!(creator.as_yoctonear(), 26_505_000_000_000_000_000_000_000);
    let backer = m.claim_bounty_winnings(&acct("backer-b.near"), id, near(1000)).unwrap();
    assert_eq!(backer.as_yoctonear(), 2_208_750_000_000_000_000_000_000);
    let loser = m.claim_bounty_winnings(&acct("backer-a.near"), id, near(1000)).unwrap();
    assert_eq!(loser, near(0));
    assert!(m.get_participant_stake(&acct("backer-a.near"), id).is_none());
    assert!(m.get_user_bounties(&acct("backer-a.near")).is_empty());
    for who in ["b.near", "backer-b.near", "backer-a.near", "stranger.near"] {
        assert_eq!(
            m.claim_bounty_winnings(&acct(who), id, near(1000)),
            Err(MarketError::NoStakeFound)
        );
    }
    assert_eq!(m.get_bounty_participant_count(id), 3);
}

#[test]
fn claim_that_the_balance_cannot_cover_can_be_retried() {
    let mut m = market();
    let id = bounty_with_two_submissions(&mut m);
    m.stake_on_submission(acct("x.near"), 3, near(10), id, 0).unwrap();
    m.stake_on_submission(acct("y.near"), 4, near(20), id, 1).unwrap();
    m.close_bounty(&acct("sponsor.near"), NANOS_PER_DAY, id).unwrap();
    let owed: u128 = 2_945_000_000_000_000_000_000_000;
    let exactly = SafeAmount::from_yoctonear(owed + ONE_NEAR);
    assert_eq!(
        m.claim_bounty_winnings(&acct("y.near"), id, exactly),
        Err(MarketError::InsufficientBalance)
    );
    assert_eq!(MarketError::InsufficientBalance.kind(), ErrorKind::InsufficientFunds);
    assert!(m.get_participant_stake(&acct("y.near"), id).is_some());
    assert_eq!(
        m.claim_bounty_winnings(&acct("y.near"), id, SafeAmount::from_yoctonear(u128::MAX)).map(|p| p.as_yoctonear()),
        Ok(owed)
    );
    assert_eq!(m.claim_bounty_winnings(&acct("x.near"), id, near(0)), Ok(near(0)));
}

#[test]
fn user_bounties_lists_stakes_by_bounty() {
    let mut m = market();
    let first = bounty_with_two_submissions(&mut m);
    let second = bounty_with_two_submissions(&mut m);
    let third = bounty_with_two_submissions(&mut m);
    m.stake_on_submission(acct("x.near"), 3, near(3), third, 1).unwrap();
    m.stake_on_submission(acct("x.near"), 4, near(2), first, 0).unwrap();
    m.stake_on_submission(acct("y.near"), 4, near(2), second, 0).unwrap();
    let stakes = m.get_user_bounties(&acct("x.near"));
    assert_eq!(stakes.len(), 2);
    assert_eq!((stakes[0].bounty_id, stakes[0].amount.0), (first, 2 * ONE_NEAR));
    assert_eq!((stakes[1].bounty_id, stakes[1].submission_index), (third, 1));
}

#[test]
fn a_market_changed_by_calls_alone_is_consistent() {
    let mut m = market();
    assert!(m.is_consistent());
    let id = bounty_with_two_submissions(&mut m);
    assert!(m.is_consistent());
    m.stake_on_submission(acct("x.near"), 3, near(10), id, 0).unwrap();
    m.stake_on_submission(acct("y.near"), 4, near(20), id, 1).unwrap();
    m.stake_on_submission(acct("x.near"), 5, near(7), id, 1).unwrap();
    m.stake(acct("x.near"), 5, near(3), near(100)).unwrap();
    assert!(m.is_consistent());
    m.close_bounty(&acct("sponsor.near"), NANOS_PER_DAY, id).unwrap();
    assert!(m.is_consistent());
    m.claim_bounty_winnings(&acct("x.near"), id, near(1000)).unwrap();
    assert!(m.is_consistent());
}

#[test]
fn a_tampered_market_is_found_out() {
    let build = || {
        let mut m = market();
        let id = bounty_with_two_submissions(&mut m);
        m.stake_on_submission(acct("x.near"), 3, near(10), id, 0).unwrap();
        m.stake_on_submission(acct("y.near"), 4, near(20), id, 1).unwrap();
        m.stake(acct("x.near"), 5, near(3), near(100)).unwrap();
        m
    };
    assert!(build().is_consistent());
    let mut m = build();
    m.books[0].bounty.total_staked = near(31);
    assert!(!m.is_consistent());
    let mut m = build();
    m.books[0].bounty.submissions[0].total_staked = near(11);
    assert!(!m.is_consistent());
    let mut m = build();
    m.books[0].stakes[0].stake.amount = near(9);
    assert!(!m.is_consistent());
    let mut m = build();
    m.books[0].stakes[1].stake.submission_index = 0;
    assert!(!m.is_consistent());
    let mut m = build();
    m.books[0].participants.pop();
    assert!(!m.is_consistent());
    let mut m = build();
    m.books[0].participants[1] = acct("x.near");
    assert!(!m.is_consistent());
    let mut m = build();
    m.books[0].bounty.id = 2;
    assert!(!m.is_consistent());
    let mut m = build();
    m.next_bounty_id = 3;
    assert!(!m.is_consistent());
    let mut m = build();
    m.books[0].bounty.creator_share = 91;
    m.books[0].bounty.backer_share = 9;
    assert!(!m.is_consistent());
    let mut m = build();
    m.books[0].bounty.winning_submission = Some(1);
    assert!(!m.is_consistent());
    let mut m = build();
    m.platform_fee_rate = 1001;
    assert!(!m.is_consistent());
    let mut m = build();
    m.staking.total_staked = near(4);
    assert!(!m.is_consistent());
    let mut m = build();
    m.staking.reward_rate = 0;
    assert!(!m.is_consistent());
}

#[test]
fn text_limits_count_bytes_not_characters() {
    let mut m = market();
    let mut r = request(1, 50, 1);
    r.title = "\u{e9}".repeat(100);
    assert!(m.create_content_bounty(acct("s.near"), 0, paid(1), r).is_ok());
    let mut r = request(1, 50, 1);
    r.title = "\u{e9}".repeat(101);
    assert_eq!(m.create_content_bounty(acct("s.near"), 0, paid(1), r), Err(MarketError::TitleTooLong));
    let mut r = request(1, 50, 1);
    r.title = "\u{2003}\u{a0}\t".to_string();
    assert_eq!(m.create_content_bounty(acct("s.near"), 0, paid(1), r), Err(MarketError::EmptyTitle));
    let mut r = request(1, 50, 1);
    r.title = "\u{200b}".to_string();
    assert!(m.create_content_bounty(acct("s.near"), 0, paid(1), r).is_ok());
}
