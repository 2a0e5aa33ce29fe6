use content_bounty_market::account::AccountId;
use content_bounty_market::amount::SafeAmount;
use content_bounty_market::payment::Payment;
use content_bounty_market::voting::{
    OptionInput, PollError, PollRequest, Transfer, VotingContract, MAX_DURATION_MINUTES,
};

const ONE_NEAR: u128 = 1_000_000_000_000_000_000_000_000;

fn accounts(id: usize) -> AccountId {
    AccountId::new(["alice", "bob", "charlie", "danny", "eugene", "fargo"][id])
}

fn init_contract() -> VotingContract {
    VotingContract::new(accounts(0))
}

fn paid(yocto: u128) -> Payment {
    Payment {
        attached_deposit: SafeAmount::from_yoctonear(yocto),
        storage_used: 200,
        storage_byte_cost: SafeAmount::from_yoctonear(10_000_000_000_000_000_000),
    }
}

fn opt(label: &str, recipient: usize) -> OptionInput {
    OptionInput { label: label.to_string(), recipient: accounts(recipient) }
}

fn request(
    title: &str,
    criteria: &str,
    details: Option<&str>,
    options: Vec<OptionInput>,
    duration_minutes: Option<u64>,
    reward_yocto: Option<u128>,
) -> PollRequest {
    PollRequest {
        title: title.to_string(),
        criteria: criteria.to_string(),
        details: details.map(|d| d.to_string()),
        options,
        duration_minutes,
        is_open: true,
        reward_yocto,
        allow_creator_vote: None,
    }
}

fn create(
    contract: &mut VotingContract,
    now: u64,
    title: &str,
    criteria: &str,
    options: Vec<OptionInput>,
    duration_minutes: Option<u64>,
) -> Result<u64, PollError> {
    contract
        .create_poll(accounts(0), now, paid(ONE_NEAR), request(title, criteria, None, options, duration_minutes, Some(0)))
        .map(|c| c.poll_id)
}

fn two(contract: &mut VotingContract, title: &str, criteria: &str) -> u64 {
    create(contract, 0, title, criteria, vec![opt("A", 1), opt("B", 2)], None).unwrap()
}

fn vote(contract: &mut VotingContract, who: usize, now: u64, poll_id: u64, option: u64) -> Result<SafeAmount, PollError> {
    contract.vote(accounts(who), now, paid(ONE_NEAR), poll_id, option)
}

#[test]
fn test_contract_initialization() {
    let contract = init_contract();
    assert_eq!(contract.next_poll_id, 1, "Initial poll ID should be 1");
}

#[test]
fn test_create_poll_basic() {
    let mut contract = init_contract();
    let created = contract
        .create_poll(
            accounts(0),
            0,
            paid(ONE_NEAR),
            request(
                "Test Poll",
                "Pick the best",
                Some("Longer details here"),
                vec![opt("Option A", 1), opt("Option B", 2)],
                Some(60),
                Some(0),
            ),
        )
        .unwrap();
    let poll_id = created.poll_id;
    assert_eq!(poll_id, 1, "First poll should have ID 1");
    assert_eq!(created.refund.as_yoctonear(), ONE_NEAR - 2_000_000_000_000_000_000_000);
    let poll = contract.get_poll(poll_id).unwrap();
    assert_eq!(poll.title, "Test Poll");
    assert_eq!(poll.criteria, "Pick the best");
    assert_eq!(poll.description.as_deref(), Some("Longer details here"));
    assert_eq!(poll.options.len(), 2);
    assert!(poll.is_active);
    assert_eq!(poll.creator, accounts(0));
}

#[test]
fn test_create_poll_with_multiple_options() {
    let mut contract = init_contract();
    let options = vec![opt("Option 1", 1), opt("Option 2", 2), opt("Option 3", 3), opt("Option 4", 4), opt("Option 5", 5)];
    let poll_id = create(&mut contract, 0, "Multi-Option Poll", "Choose wisely", options, None).unwrap();
    let poll = contract.get_poll(poll_id).unwrap();
    assert_eq!(poll.options.len(), 5);
    assert_eq!(poll.votes.len(), 5);
    assert!(poll.votes.iter().all(|&v| v == 0));
}

#[test]
fn test_create_poll_without_duration() {
    let mut contract = init_contract();
    let poll_id = create(&mut contract, 0, "Unlimited Poll", "No criteria", vec![opt("Yes", 1), opt("No", 2)], None).unwrap();
    let poll = contract.get_poll(poll_id).unwrap();
    assert!(poll.ends_at.is_none(), "Poll without duration should have no end time");
}

#[test]
fn test_create_poll_with_exact_duration() {
    let start_time = 1_000_000_000_000u64;
    let mut contract = init_contract();
    let duration_minutes = 120u64;
    let poll_id = create(&mut contract, start_time, "Timed Poll", "Short criteria", vec![opt("A", 1), opt("B", 2)], Some(duration_minutes)).unwrap();
    let poll = contract.get_poll(poll_id).unwrap();
    assert!(poll.ends_at.is_some());
    let expected_end = start_time + (duration_minutes * 60 * 1_000_000_000);
    assert_eq!(poll.ends_at.unwrap(), expected_end);
}

#[test]
fn test_create_poll_too_few_options() {
    let mut contract = init_contract();
    let r = create(&mut contract, 0, "Invalid Poll", "Only one option", vec![opt("Only Option", 1)], None);
    assert_eq!(r, Err(PollError::TooFewOptions));
}

#[test]
fn test_create_poll_empty_option() {
    let mut contract = init_contract();
    let r = create(&mut contract, 0, "Poll with Empty Option", "Has empty option", vec![opt("", 1), opt("Valid Option", 2)], None);
    assert_eq!(r, Err(PollError::EmptyOption(0)));
}

#[test]
fn test_create_poll_whitespace_only_option() {
    let mut contract = init_contract();
    let r = create(&mut contract, 0, "Poll with Whitespace Option", "Has whitespace-only option", vec![opt("Valid", 1), opt("   ", 2)], None);
    assert_eq!(r, Err(PollError::EmptyOption(1)));
    assert!(contract.get_poll(1).is_none());
}

#[test]
fn test_create_multiple_polls_sequential() {
    let mut contract = init_contract();
    let poll_id1 = create(&mut contract, 0, "Poll 1", "First poll", vec![opt("A", 1), opt("B", 2)], None).unwrap();
    let poll_id2 = create(&mut contract, 0, "Poll 2", "Second poll", vec![opt("X", 1), opt("Y", 2)], None).unwrap();
    let poll_id3 = create(&mut contract, 0, "Poll 3", "Third poll", vec![opt("1", 1), opt("2", 2)], None).unwrap();
    assert_eq!(poll_id1, 1);
    assert_eq!(poll_id2, 2);
    assert_eq!(poll_id3, 3);
}

#[test]
fn test_vote_basic() {
    let mut contract = init_contract();
    let poll_id = create(&mut contract, 0, "Test Poll", "Description", vec![opt("Option A", 2), opt("Option B", 3)], None).unwrap();
    vote(&mut contract, 1, 0, poll_id, 0).unwrap();
    let poll = contract.get_poll(poll_id).unwrap();
    assert_eq!(poll.votes[0], 1);
    assert_eq!(poll.votes[1], 0);
    assert_eq!(poll.total_voters, 1);
    let user_vote = contract.get_user_vote(poll_id, &accounts(1));
    assert_eq!(user_vote, Some(0));
}

#[test]
fn test_vote_multiple_users() {
    let mut contract = init_contract();
    let poll_id = create(&mut contract, 0, "Multi-User Poll", "Testing multiple voters", vec![opt("A", 1), opt("B", 2), opt("C", 3)], None).unwrap();
    vote(&mut contract, 1, 0, poll_id, 0).unwrap();
    vote(&mut contract, 2, 0, poll_id, 1).unwrap();
    vote(&mut contract, 3, 0, poll_id, 0).unwrap();
    vote(&mut contract, 4, 0, poll_id, 2).unwrap();
    let poll = contract.get_poll(poll_id).unwrap();
    assert_eq!(poll.votes[0], 2);
    assert_eq!(poll.votes[1], 1);
    assert_eq!(poll.votes[2], 1);
}

#[test]
fn test_vote_change() {
    let mut contract = init_contract();
    let poll_id = create(&mut contract, 0, "Changeable Poll", "Users can change votes", vec![opt("Option 1", 1), opt("Option 2", 2)], None).unwrap();
    vote(&mut contract, 1, 0, poll_id, 0).unwrap();
    let poll_after_first = contract.get_poll(poll_id).unwrap();
    assert_eq!(poll_after_first.votes[0], 1);
    assert_eq!(poll_after_first.votes[1], 0);
    vote(&mut contract, 1, 0, poll_id, 1).unwrap();
    let poll_after_change = contract.get_poll(poll_id).unwrap();
    assert_eq!(poll_after_change.votes[0], 0);
    assert_eq!(poll_after_change.votes[1], 1);
    assert_eq!(poll_after_change.total_voters, 1);
    let user_vote = contract.get_user_vote(poll_id, &accounts(1));
    assert_eq!(user_vote, Some(1));
}

#[test]
fn test_vote_same_option_twice() {
    let mut contract = init_contract();
    let poll_id = two(&mut contract, "Test Poll", "Description");
    vote(&mut contract, 1, 0, poll_id, 0).unwrap();
    vote(&mut contract, 1, 0, poll_id, 0).unwrap();
    let poll = contract.get_poll(poll_id).unwrap();
    assert_eq!(poll.votes[0], 1, "Voting for same option should not double-count");
}

#[test]
fn test_vote_nonexistent_poll() {
    let mut contract = init_contract();
    assert_eq!(vote(&mut contract, 0, 0, 999, 0), Err(PollError::PollNotFound));
}

#[test]
fn test_vote_invalid_option_index() {
    let mut contract = init_contract();
    let poll_id = two(&mut contract, "Test Poll", "Description");
    assert_eq!(vote(&mut contract, 1, 0, poll_id, 2), Err(PollError::InvalidOptionIndex));
}

#[test]
fn test_vote_on_closed_poll() {
    let mut contract = init_contract();
    let poll_id = two(&mut contract, "Test Poll", "Description");
    contract.close_poll(&accounts(0), poll_id).unwrap();
    assert_eq!(vote(&mut contract, 1, 0, poll_id, 0), Err(PollError::PollNotActive));
}

#[test]
fn test_vote_on_expired_poll() {
    let mut contract = init_contract();
    let duration_minutes = 60u64;
    let poll_id = create(&mut contract, 0, "Expiring Poll", "Will expire", vec![opt("A", 1), opt("B", 2)], Some(duration_minutes)).unwrap();
    let expired_time = (duration_minutes * 60 * 1_000_000_000) + 1;
    assert_eq!(vote(&mut contract, 1, expired_time, poll_id, 0), Err(PollError::PollExpired));
    assert_eq!(vote(&mut contract, 1, expired_time - 1, poll_id, 0), Err(PollError::PollExpired));
}

#[test]
fn test_vote_just_before_expiration() {
    let mut contract = init_contract();
    let duration_minutes = 60u64;
    let poll_id = create(&mut contract, 0, "Expiring Poll", "Will expire soon", vec![opt("A", 1), opt("B", 2)], Some(duration_minutes)).unwrap();
    let almost_expired = (duration_minutes * 60 * 1_000_000_000) - 1;
    vote(&mut contract, 1, almost_expired, poll_id, 0).unwrap();
    let poll = contract.get_poll(poll_id).unwrap();
    assert_eq!(poll.votes[0], 1, "Vote just before expiration should succeed");
}

#[test]
fn test_close_poll_by_creator() {
    let mut contract = init_contract();
    let poll_id = two(&mut contract, "Closeable Poll", "Can be closed");
    assert_eq!(contract.close_poll(&accounts(0), poll_id), Ok(vec![]));
    let poll = contract.get_poll(poll_id).unwrap();
    assert!(!poll.is_active, "Poll should be inactive after closure");
}

#[test]
fn test_close_poll_by_non_creator() {
    let mut contract = init_contract();
    let poll_id = two(&mut contract, "Protected Poll", "Only creator can close");
    assert_eq!(contract.close_poll(&accounts(1), poll_id), Err(PollError::NotCreator));
    assert!(contract.get_poll(poll_id).unwrap().is_active);
}

#[test]
fn test_close_nonexistent_poll() {
    let mut contract = init_contract();
    assert_eq!(contract.close_poll(&accounts(0), 999), Err(PollError::PollNotFound));
}

#[test]
fn test_close_poll_preserves_votes() {
    let mut contract = init_contract();
    let poll_id = two(&mut contract, "Vote Preservation Test", "Votes should persist");
    vote(&mut contract, 1, 0, poll_id, 0).unwrap();
    vote(&mut contract, 2, 0, poll_id, 1).unwrap();
    contract.close_poll(&accounts(0), poll_id).unwrap();
    let poll = contract.get_poll(poll_id).unwrap();
    assert_eq!(poll.votes[0], 1);
    assert_eq!(poll.votes[1], 1);
}

#[test]
fn test_get_poll_nonexistent() {
    let contract = init_contract();
    assert!(contract.get_poll(999).is_none(), "Nonexistent poll should return None");
}

#[test]
fn test_get_user_vote_nonexistent_poll() {
    let contract = init_contract();
    assert!(contract.get_user_vote(999, &accounts(1)).is_none(), "Vote for nonexistent poll should return None");
}

#[test]
fn test_get_user_vote_no_vote_cast() {
    let mut contract = init_contract();
    let poll_id = two(&mut contract, "Test Poll", "Description");
    assert!(contract.get_user_vote(poll_id, &accounts(5)).is_none(), "User who hasn't voted should return None");
}

#[test]
fn test_poll_with_maximum_reasonable_options() {
    let mut contract = init_contract();
    let mut options = Vec::new();
    for i in 0..100 {
        options.push(OptionInput { label: format!("Option {}", i), recipient: accounts(1) });
    }
    let poll_id = create(&mut contract, 0, "Many Options Poll", "Testing many options", options, None).unwrap();
    let poll = contract.get_poll(poll_id).unwrap();
    assert_eq!(poll.options.len(), 100);
    assert_eq!(poll.votes.len(), 100);
}

#[test]
fn test_duration_maximum_allowed() {
    let mut contract = init_contract();
    let poll_id = create(&mut contract, 0, "Max Duration Poll", "One year duration", vec![opt("A", 1), opt("B", 2)], Some(MAX_DURATION_MINUTES)).unwrap();
    let poll = contract.get_poll(poll_id).unwrap();
    assert!(poll.ends_at.is_some(), "Poll with max duration should have end time");
    assert_eq!(poll.ends_at, Some(31_536_000_000_000_000));
}

#[test]
fn test_duration_exceeds_maximum() {
    let mut contract = init_contract();
    let r = create(&mut contract, 0, "Too Long Poll", "Duration too long", vec![opt("A", 1), opt("B", 2)], Some(MAX_DURATION_MINUTES + 1));
    assert_eq!(r, Err(PollError::DurationTooLong));
}

#[test]
fn test_create_poll_too_many_options() {
    let mut contract = init_contract();
    let mut options = Vec::new();
    for i in 0..101 {
        options.push(OptionInput { label: format!("Option {}", i), recipient: accounts(1) });
    }
    let r = create(&mut contract, 0, "Too Many Options", "Exceeds limit", options, None);
    assert_eq!(r, Err(PollError::TooManyOptions));
}

#[test]
fn test_create_poll_reward_too_small() {
    let mut contract = init_contract();
    let r = contract.create_poll(
        accounts(0),
        0,
        paid(ONE_NEAR),
        request("Small Reward Poll", "Reward too small", None, vec![opt("A", 1), opt("B", 2)], None, Some(50_000_000_000_000_000_000_000)),
    );
    assert_eq!(r.map(|c| c.poll_id), Err(PollError::RewardTooSmall));
}

#[test]
fn test_create_poll_reward_too_large() {
    let reward = 100_000_001u128 * 1_000_000_000_000_000_000_000_000u128;
    let deposit = reward + 1_000_000_000_000_000_000_000_000;
    let mut contract = init_contract();
    let r = contract.create_poll(
        accounts(0),
        0,
        paid(deposit),
        request("Huge Reward Poll", "Reward too large", None, vec![opt("A", 1), opt("B", 2)], None, Some(reward)),
    );
    assert_eq!(r.map(|c| c.poll_id), Err(PollError::RewardTooLarge));
}

#[test]
fn test_unicode_in_options() {
    let mut contract = init_contract();
    let poll_id = create(
        &mut contract,
        0,
        "Unicode Poll üó≥Ô∏è",
        "Testing unicode characters",
        vec![opt("Yes ‚úì", 1), opt("No ‚úó", 2), opt("Maybe ü§î", 3)],
        None,
    )
    .unwrap();
    let poll = contract.get_poll(poll_id).unwrap();
    assert_eq!(poll.options[0].label, "Yes ‚úì");
    assert_eq!(poll.options[1].label, "No ‚úó");
    assert_eq!(poll.options[2].label, "Maybe ü§î");
}

#[test]
fn test_special_characters_in_text() {
    let mut contract = init_contract();
    let poll_id = create(
        &mut contract,
        0,
        "Poll with 'quotes' and \"escapes\"",
        "Testing <special> & {characters}",
        vec![opt("Option #1", 1), opt("Option @2", 2)],
        None,
    )
    .unwrap();
    let poll = contract.get_poll(poll_id).unwrap();
    assert!(poll.title.contains("quotes"));
    assert_eq!(poll.criteria, "Testing <special> & {characters}");
    assert!(poll.description.is_none());
}

#[test]
fn test_concurrent_voting_different_polls() {
    let mut contract = init_contract();
    let poll_id1 = create(&mut contract, 0, "Poll 1", "First poll", vec![opt("A", 1), opt("B", 2)], None).unwrap();
    let poll_id2 = create(&mut contract, 0, "Poll 2", "Second poll", vec![opt("X", 1), opt("Y", 2)], None).unwrap();
    vote(&mut contract, 1, 0, poll_id1, 0).unwrap();
    vote(&mut contract, 1, 0, poll_id2, 1).unwrap();
    assert_eq!(contract.get_user_vote(poll_id1, &accounts(1)), Some(0));
    assert_eq!(contract.get_user_vote(poll_id2, &accounts(1)), Some(1));
    let poll1 = contract.get_poll(poll_id1).unwrap();
    let poll2 = contract.get_poll(poll_id2).unwrap();
    assert_eq!(poll1.votes[0], 1);
    assert_eq!(poll2.votes[1], 1);
}

#[test]
fn test_vote_count_accuracy_with_changes() {
    let mut contract = init_contract();
    let poll_id = create(&mut contract, 0, "Accuracy Test", "Testing vote count accuracy", vec![opt("A", 1), opt("B", 2), opt("C", 3)], None).unwrap();
    vote(&mut contract, 1, 0, poll_id, 0).unwrap();
    vote(&mut contract, 2, 0, poll_id, 0).unwrap();
    vote(&mut contract, 3, 0, poll_id, 1).unwrap();
    let poll_mid = contract.get_poll(poll_id).unwrap();
    assert_eq!(poll_mid.votes[0], 2);
    assert_eq!(poll_mid.votes[1], 1);
    assert_eq!(poll_mid.votes[2], 0);
    vote(&mut contract, 1, 0, poll_id, 2).unwrap();
    vote(&mut contract, 3, 0, poll_id, 0).unwrap();
    let poll_final = contract.get_poll(poll_id).unwrap();
    assert_eq!(poll_final.votes[0], 2);
    assert_eq!(poll_final.votes[1], 0);
    assert_eq!(poll_final.votes[2], 1);
}

#[test]
fn texts_are_trimmed_before_they_are_checked_and_stored() {
    let mut contract = init_contract();
    let r = contract
        .create_poll(
            accounts(0),
            0,
            paid(ONE_NEAR),
            request("  Title \n", "\t criteria \u{3000}", Some("   "), vec![opt(" A ", 1), opt("B\n", 2)], None, None),
        )
        .unwrap();
    let poll = contract.get_poll(r.poll_id).unwrap();
    assert_eq!(poll.title, "Title");
    assert_eq!(poll.criteria, "criteria");
    assert_eq!(poll.description, None);
    assert_eq!(poll.options[0].label, "A");
    assert_eq!(poll.options[1].label, "B");
    assert_eq!(poll.reward_yocto, 0);
    assert!(!poll.allow_creator_vote);
}

#[test]
fn create_poll_rejects_each_broken_rule() {
    let mut contract = init_contract();
    let ab = || vec![opt("A", 1), opt("B", 2)];
    let mut attempt = |title: &str, criteria: &str, details: Option<&str>, minutes: Option<u64>, now: u64, payment: Payment| {
        contract.create_poll(accounts(0), now, payment, request(title, criteria, details, ab(), minutes, None)).map(|c| c.poll_id)
    };
    let ok = paid(ONE_NEAR);
    assert_eq!(attempt("  ", "criteria ok", None, None, 0, ok), Err(PollError::TitleEmpty));
    assert_eq!(attempt(&"t".repeat(121), "criteria ok", None, None, 0, ok), Err(PollError::TitleTooLong));
    assert_eq!(attempt("t", "1234567", None, None, 0, ok), Err(PollError::CriteriaTooShort));
    assert_eq!(attempt("t", &"c".repeat(201), None, None, 0, ok), Err(PollError::CriteriaTooLong));
    assert_eq!(attempt("t", "criteria ok", Some(&"d".repeat(601)), None, 0, ok), Err(PollError::DetailsTooLong));
    assert_eq!(attempt("t", "criteria ok", None, Some(0), 0, ok), Err(PollError::DurationNotPositive));
    assert_eq!(attempt("t", "criteria ok", None, Some(1), u64::MAX, ok), Err(PollError::DurationOutOfRange));
    assert_eq!(attempt("t", "criteria ok", None, None, 0, paid(1)), Err(PollError::InsufficientDeposit));
    assert_eq!(attempt(&"\u{e9}".repeat(120), "criteria ok", None, None, 0, ok), Ok(1));
}

#[test]
fn whitelist_gates_closed_polls() {
    let mut contract = init_contract();
    let mut req = request("Closed poll", "criteria ok", None, vec![opt("A", 1), opt("B", 2)], None, None);
    req.is_open = false;
    let id = contract.create_poll(accounts(0), 0, paid(ONE_NEAR), req).unwrap().poll_id;
    assert_eq!(vote(&mut contract, 1, 0, id, 0), Err(PollError::NotWhitelisted));
    assert_eq!(contract.add_to_whitelist(&accounts(1), paid(ONE_NEAR), id, accounts(1)), Err(PollError::NotCreator));
    assert_eq!(contract.add_to_whitelist(&accounts(0), paid(ONE_NEAR), 9, accounts(1)), Err(PollError::PollNotFound));
    assert_eq!(contract.add_to_whitelist(&accounts(0), paid(0), id, accounts(1)), Err(PollError::InsufficientDeposit));
    assert!(!contract.is_whitelisted(id, &accounts(1)));
    let refund = contract.add_to_whitelist(&accounts(0), paid(ONE_NEAR), id, accounts(1)).unwrap();
    assert_eq!(refund.as_yoctonear(), ONE_NEAR - 2_000_000_000_000_000_000_000);
    assert!(contract.is_whitelisted(id, &accounts(1)));
    assert!(!contract.is_whitelisted(id, &accounts(2)));
    assert!(!contract.is_whitelisted(7, &accounts(1)));
    vote(&mut contract, 1, 0, id, 0).unwrap();
    assert_eq!(contract.remove_from_whitelist(&accounts(1), id, &accounts(1)), Err(PollError::NotCreator));
    contract.remove_from_whitelist(&accounts(0), id, &accounts(1)).unwrap();
    assert!(!contract.is_whitelisted(id, &accounts(1)));
    assert_eq!(vote(&mut contract, 1, 0, id, 1), Err(PollError::NotWhitelisted));
}

#[test]
fn creator_votes_only_where_allowed() {
    let mut contract = init_contract();
    let id = two(&mut contract, "Poll", "criteria ok");
    assert_eq!(vote(&mut contract, 0, 0, id, 0), Err(PollError::CreatorVotingDisabled));
    let mut req = request("Poll", "criteria ok", None, vec![opt("A", 1), opt("B", 2)], None, None);
    req.allow_creator_vote = Some(true);
    let id = contract.create_poll(accounts(0), 0, paid(ONE_NEAR), req).unwrap().poll_id;
    assert!(vote(&mut contract, 0, 0, id, 0).is_ok());
}

#[test]
fn fee_is_set_by_the_owner_within_its_cap() {
    let mut contract = init_contract();
    assert_eq!(contract.get_platform_fee_bps(), 0);
    assert_eq!(contract.set_platform_fee_bps(&accounts(1), 100), Err(PollError::NotOwner));
    assert_eq!(contract.set_platform_fee_bps(&accounts(0), 2001), Err(PollError::FeeTooHigh));
    assert_eq!(contract.set_platform_fee_bps(&accounts(0), 2000), Ok(()));
    assert_eq!(contract.get_platform_fee_bps(), 2000);
}

fn rewarded(contract: &mut VotingContract, creator: usize, options: Vec<OptionInput>, reward: u128) -> u64 {
    let req = request("Rewarded", "criteria ok", None, options, None, Some(reward));
    contract.create_poll(accounts(creator), 0, paid(reward + ONE_NEAR), req).unwrap().poll_id
}

#[test]
fn closing_pays_fee_winners_and_remainder() {
    let mut contract = init_contract();
    contract.set_platform_fee_bps(&accounts(0), 500).unwrap();
    let id = rewarded(&mut contract, 5, vec![opt("A", 1), opt("B", 2), opt("C", 1), opt("D", 3)], 10 * ONE_NEAR + 7);
    vote(&mut contract, 1, 0, id, 0).unwrap();
    vote(&mut contract, 2, 0, id, 1).unwrap();
    vote(&mut contract, 3, 0, id, 2).unwrap();
    let transfers = contract.close_poll(&accounts(5), id).unwrap();
    let fee = (10 * ONE_NEAR + 7) * 500 / 10_000;
    let net = 10 * ONE_NEAR + 7 - fee;
    let per = net / 3;
    assert_eq!(
        transfers,
        vec![
            Transfer { to: accounts(0), amount: fee },
            Transfer { to: accounts(1), amount: per },
            Transfer { to: accounts(2), amount: per },
            Transfer { to: accounts(5), amount: net - 2 * per },
        ]
    );
    assert_eq!(transfers.iter().map(|t| t.amount).sum::<u128>(), 10 * ONE_NEAR + 7);
    let poll = contract.get_poll(id).unwrap();
    assert!(poll.payout_done && !poll.is_active);
    assert_eq!(poll.reward_yocto, 0);
    assert_eq!(contract.close_poll(&accounts(5), id), Err(PollError::PollAlreadyClosed));
}

#[test]
fn closing_without_votes_returns_the_reward_to_the_creator() {
    let mut contract = init_contract();
    let id = rewarded(&mut contract, 4, vec![opt("A", 1), opt("B", 2)], ONE_NEAR);
    assert_eq!(contract.close_poll(&accounts(4), id), Ok(vec![Transfer { to: accounts(4), amount: ONE_NEAR }]));
}

#[test]
fn polls_changed_by_calls_alone_are_consistent() {
    let mut contract = init_contract();
    assert!(contract.is_consistent());
    let id = two(&mut contract, "Poll", "criteria ok");
    vote(&mut contract, 1, 0, id, 0).unwrap();
    vote(&mut contract, 2, 0, id, 1).unwrap();
    vote(&mut contract, 1, 0, id, 1).unwrap();
    assert!(contract.is_consistent());
    contract.close_poll(&accounts(0), id).unwrap();
    assert!(contract.is_consistent());
    contract.books[0].poll.votes[0] = 1;
    assert!(!contract.is_consistent());
    contract.books[0].poll.votes[0] = 0;
    contract.books[0].poll.total_voters = 3;
    assert!(!contract.is_consistent());
}
