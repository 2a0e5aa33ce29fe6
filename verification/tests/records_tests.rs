use content_bounty_market::account::AccountId;
use content_bounty_market::agents::{current_timestamp, seconds_or_zero, ActionType, AgentConfig, AgentStatus, GovernanceProposal, ProposalStatus, StakingData, VotingData};
use content_bounty_market::amount::SafeAmount;
use content_bounty_market::classifier;
use content_bounty_market::clearer::StateClearer;
use content_bounty_market::curation::{self, AgentError};
use content_bounty_market::payment::Payment;
use content_bounty_market::samples::{Contract as Greeter, MinimalContract, SimpleContract};
use content_bounty_market::zkp::{ProofError, ZKPVerifierContract};

fn acct(name: &str) -> AccountId {
    AccountId::new(name)
}

fn with_deposit(deposit: u128, storage_used: u64) -> Payment {
    Payment {
        attached_deposit: SafeAmount::from_yoctonear(deposit),
        storage_used,
        storage_byte_cost: SafeAmount::from_yoctonear(10_000_000_000_000_000_000),
    }
}

fn classifier_records() -> classifier::Contract {
    classifier::Contract::new(acct("owner.testnet"), acct("agent.testnet"), "VLM".to_string())
}

fn curation_records(community: &str) -> curation::Contract {
    curation::Contract::new(acct("owner.testnet"), acct("agent.testnet"), "h".to_string(), "u".to_string(), community.to_string(), 0)
}

#[test]
fn init_and_log_review() {
    let mut c = classifier_records();
    let refund = c
        .log_classification(
            &acct("agent.testnet"),
            5,
            with_deposit(10_000_000_000_000_000_000_000, 300),
            "s1".into(),
            "ihash".into(),
            "phash".into(),
            "cat".into(),
            8123,
            "gpt-4o".into(),
        )
        .unwrap();
    assert_eq!(refund.as_yoctonear(), 7_000_000_000_000_000_000_000);
    c.record_review(&acct("owner.testnet"), 9, "s1".into(), "cat".to_string()).unwrap();
    let log = c.get_classification("s1".into()).unwrap();
    assert!(log.reviewed);
    assert_eq!(log.final_label.unwrap(), "cat");
    assert_eq!(log.reviewer.unwrap(), "owner.testnet");
    assert_eq!(log.reviewed_at_ns, Some(9));
    assert_eq!(log.created_at_ns, 5);
    assert_eq!(log.confidence_bps, 8123);
    assert_eq!(c.get_owner_id(), acct("owner.testnet"));
    assert_eq!(c.get_model_kind(), "VLM");
}

#[test]
fn classifier_guards_its_callers() {
    let mut c = classifier_records();
    let log = |c: &mut classifier::Contract, who: &str, payment: Payment| {
        c.log_classification(&acct(who), 0, payment, "s1".into(), "i".into(), "p".into(), "dog".into(), 1, "m".into())
    };
    assert_eq!(log(&mut c, "owner.testnet", with_deposit(1, 0)), Err(AgentError::AgentOnly));
    assert_eq!(log(&mut c, "agent.testnet", with_deposit(1, 1)), Err(AgentError::InsufficientDeposit));
    assert!(c.get_classification("s1".into()).is_none());
    assert_eq!(log(&mut c, "agent.testnet", with_deposit(77, 0)), Ok(SafeAmount::from_yoctonear(0)));
    assert_eq!(c.record_review(&acct("agent.testnet"), 0, "s1".into(), "x".into()), Err(AgentError::OwnerOnly));
    assert_eq!(c.record_review(&acct("owner.testnet"), 0, "s2".into(), "x".into()), Err(AgentError::SessionNotFound));
    assert_eq!(c.set_agent_account(&acct("agent.testnet"), acct("a2")), Err(AgentError::OwnerOnly));
    c.set_agent_account(&acct("owner.testnet"), acct("a2")).unwrap();
    assert_eq!(log(&mut c, "agent.testnet", with_deposit(1, 0)), Err(AgentError::AgentOnly));
    assert!(log(&mut c, "a2", with_deposit(1, 0)).is_ok());
    assert_eq!(c.logs.len(), 1);
}

#[test]
fn init_and_views() {
    let c = curation::Contract::new(acct("owner.testnet"), acct("agent.testnet"), "hash".into(), "uri".into(), "dw".into(), 3);
    let ds = c.get_dataset_meta();
    assert_eq!(ds.dataset_hash, "hash");
    assert_eq!(ds.dataset_uri, "uri");
    assert_eq!(ds.updated_at_ns, 3);
}

#[test]
fn owner_sets_agent_and_allowlist() {
    let mut c = curation_records("dw");
    c.set_agent_account(&acct("owner.testnet"), acct("agent2.testnet")).unwrap();
    c.set_community(&acct("owner.testnet"), "dw-community".into()).unwrap();
    assert_eq!(c.get_community_id(), "dw-community");
    assert_eq!(c.agent_account_id, acct("agent2.testnet"));
    assert_eq!(c.set_community(&acct("agent2.testnet"), "x".into()), Err(AgentError::OwnerOnly));
    c.set_dataset_meta(&acct("owner.testnet"), 8, "h2".into(), "u2".into()).unwrap();
    assert_eq!(c.get_dataset_meta().updated_at_ns, 8);
    assert_eq!(c.set_dataset_meta(&acct("x"), 8, "h3".into(), "u3".into()), Err(AgentError::OwnerOnly));
}

#[test]
fn agent_logs_interaction() {
    let mut c = curation_records("dw");
    c.log_interaction(&acct("agent.testnet"), 4, with_deposit(10_000_000_000_000_000_000_000, 100), "s1".into(), "q".into(), "a".into(), 1234, Some("dw".into()))
        .unwrap();
    let l = c.get_interaction("s1".into()).unwrap();
    assert_eq!(l.session_id, "s1");
    assert_eq!(l.cost_microusd, 1234);
    assert_eq!(l.created_at_ns, 4);
    assert!(c.get_interaction("s2".into()).is_none());
    c.log_interaction(&acct("agent.testnet"), 6, with_deposit(0, 0), "s1".into(), "q2".into(), "a2".into(), 1, None).unwrap();
    assert_eq!(c.logs.len(), 1);
    assert_eq!(c.get_interaction("s1".into()).unwrap().query_hash, "q2");
}

#[test]
fn agent_logs_with_mismatched_community_panics() {
    let mut c = curation_records("dw");
    let r = c.log_interaction(&acct("agent.testnet"), 0, with_deposit(10_000_000_000_000_000_000_000, 100), "s2".into(), "q".into(), "a".into(), 0, Some("other".into()));
    assert_eq!(r, Err(AgentError::CommunityMismatch));
    let r = c.log_interaction(&acct("owner.testnet"), 0, with_deposit(1, 0), "s2".into(), "q".into(), "a".into(), 0, None);
    assert_eq!(r, Err(AgentError::AgentOnly));
    assert!(c.logs.is_empty());
}

#[test]
fn hash_proof_is_checked_against_sha256_in_base64() {
    let mut registry = ZKPVerifierContract::new(acct("owner"));
    let expected = "LPJNul+wow4m6DsqxbninhsWHlwfp0JecwQzYpOLmCQ=";
    assert!(registry.verify_simple_hash_proof(acct("self"), 1, "none".into(), "hello".into(), expected.into()));
    assert!(!registry.verify_simple_hash_proof(acct("self"), 1, "none".into(), "hello".into(), "hello".into()));
    assert!(!registry.verify_simple_hash_proof(acct("self"), 1, "none".into(), "Hello".into(), expected.into()));
    assert!(registry.verify_simple_hash_proof(acct("self"), 1, "none".into(), "".into(), "47DEQpj8HBSa+/TImW+5JCeuQeRkm5NMpJWZG3hSuFU=".into()));
    assert!(registry.get_verification_result("none".into()).is_none());
}

#[test]
fn hash_proof_records_its_finding_for_a_registered_proof() {
    let mut registry = ZKPVerifierContract::new(acct("owner"));
    registry.submit_proof(acct("alice"), 7, "first".into(), "data".into(), vec!["in1".into(), "in2".into()], "vk".into()).unwrap();
    assert_eq!(registry.is_proof_valid("first".into()), None);
    assert!(!registry.verify_simple_hash_proof(acct("self"), 9, "first".into(), "hello".into(), "wrong".into()));
    assert_eq!(registry.is_proof_valid("first".into()), Some(false));
    let proof = registry.get_proof("first".into()).unwrap();
    assert!(proof.verified);
    assert_eq!(proof.verified_at, Some(9));
    assert_eq!(proof.submitted_at, 7);
    assert_eq!(proof.public_inputs, vec!["in1".to_string(), "in2".to_string()]);
    let found = registry.get_verification_result("first".into()).unwrap();
    assert_eq!(found.verifier, acct("self"));
    assert_eq!(found.verified_at, 9);
}

#[test]
fn proofs_are_verified_by_authorized_verifiers_only() {
    let mut registry = ZKPVerifierContract::new(acct("owner"));
    registry.submit_proof(acct("alice"), 1, "first".into(), "d".into(), vec![], "vk".into()).unwrap();
    assert_eq!(registry.submit_proof(acct("bob"), 2, "first".into(), "d".into(), vec![], "vk".into()), Err(ProofError::ProofIdExists));
    assert_eq!(registry.verify_proof(acct("bob"), 3, "first".into(), true), Err(ProofError::NotAuthorized));
    assert_eq!(registry.verify_proof(acct("owner"), 3, "second".into(), true), Err(ProofError::ProofNotFound));
    assert_eq!(registry.add_authorized_verifier(&acct("bob"), acct("bob")), Err(ProofError::NotOwner));
    registry.add_authorized_verifier(&acct("owner"), acct("bob")).unwrap();
    registry.add_authorized_verifier(&acct("owner"), acct("bob")).unwrap();
    assert!(registry.is_authorized_verifier(&acct("bob")));
    assert!(registry.is_authorized_verifier(&acct("owner")));
    assert_eq!(registry.authorized_verifiers.len(), 2);
    registry.verify_proof(acct("bob"), 4, "first".into(), true).unwrap();
    assert_eq!(registry.is_proof_valid("first".into()), Some(true));
    assert_eq!(registry.get_proof("first".into()).unwrap().submitter, acct("alice"));
    assert_eq!(registry.remove_authorized_verifier(&acct("bob"), &acct("owner")), Err(ProofError::NotOwner));
    registry.remove_authorized_verifier(&acct("owner"), &acct("bob")).unwrap();
    assert!(!registry.is_authorized_verifier(&acct("bob")));
    assert_eq!(registry.verify_proof(acct("bob"), 5, "first".into(), false), Err(ProofError::NotAuthorized));
    assert!(registry.get_proof("zz".into()).is_none());
}

#[test]
fn sample_ledgers_hold_what_they_are_given() {
    let mut m = MinimalContract::new(acct("o"));
    assert_eq!(m.get_owner(), acct("o"));
    assert_eq!(m.get_counter(), 0);
    m.increment();
    m.increment();
    assert_eq!(m.get_counter(), 2);
    assert_eq!(MinimalContract::default().get_owner(), acct("near"));
    assert_eq!(SimpleContract::new(acct("s")).get_owner(), acct("s"));
    let mut g = Greeter::default();
    assert_eq!(g.get_greeting(), "Hello");
    g.set_greeting("Hi".into());
    assert_eq!(g.get_greeting(), "Hi");
}

#[test]
fn state_clearer_answers_a_ping() {
    let clearer = StateClearer::new();
    assert_eq!(clearer.ping(), "State clearer is active");
    assert_eq!(clearer, StateClearer::default());
}

#[test]
fn agent_records_hold_plain_data() {
    let config = AgentConfig {
        agent_id: "governance-agent-1".into(),
        network: "testnet".into(),
        rpc_endpoint: "https://rpc".into(),
        contract_addresses: std::collections::HashMap::new(),
        private_key: None,
        polling_interval: 30,
    };
    assert_eq!(config.clone().polling_interval, 30);
    let poll = VotingData { poll_id: 1, title: "t".into(), options: vec![], votes: vec![], total_votes: 0, is_active: true, created_at: 0, ends_at: None };
    assert!(poll.is_active);
    let stake = StakingData { user: "u".into(), amount: 1, rewards: 2, staked_at: 3, last_claim: 4 };
    assert_eq!(stake.amount + stake.rewards, 3);
    let proposal = GovernanceProposal { id: 1, title: "t".into(), description: "d".into(), proposer: "p".into(), votes_for: 2, votes_against: 1, status: ProposalStatus::Active, created_at: 0, voting_ends_at: 9 };
    assert_eq!(proposal.status, ProposalStatus::Active);
    assert_ne!(ActionType::DataSync, ActionType::SecurityCheck);
    let status = AgentStatus { agent_id: "a".into(), is_running: false, last_execution: None, actions_performed: 0, errors: vec![] };
    assert!(!status.is_running);
    assert!(current_timestamp() > 1_600_000_000);
}

#[test]
fn records_changed_by_calls_alone_are_consistent() {
    let mut registry = ZKPVerifierContract::new(acct("owner"));
    registry.submit_proof(acct("alice"), 1, "first".into(), "d".into(), vec![], "vk".into()).unwrap();
    registry.submit_proof(acct("alice"), 1, "second".into(), "d".into(), vec![], "vk".into()).unwrap();
    registry.verify_proof(acct("owner"), 2, "first".into(), true).unwrap();
    assert!(registry.is_consistent());
    registry.proofs[1].proof.proof_id = "first".into();
    assert!(!registry.is_consistent());
    let mut c = classifier_records();
    for session in ["s1", "s2", "s1"] {
        c.log_classification(&acct("agent.testnet"), 0, with_deposit(0, 0), session.into(), "i".into(), "p".into(), "l".into(), 1, "m".into()).unwrap();
    }
    assert!(c.is_consistent());
    assert_eq!(c.logs.len(), 2);
    c.logs[1].session_id = "s1".into();
    assert!(!c.is_consistent());
    let mut k = curation_records("dw");
    k.log_interaction(&acct("agent.testnet"), 0, with_deposit(0, 0), "s1".into(), "q".into(), "a".into(), 1, None).unwrap();
    k.log_interaction(&acct("agent.testnet"), 0, with_deposit(0, 0), "s2".into(), "q".into(), "a".into(), 1, None).unwrap();
    assert!(k.is_consistent());
    k.logs[0].session_id = "s2".into();
    assert!(!k.is_consistent());
}

#[test]
fn a_clock_before_the_epoch_reads_as_zero() {
    assert_eq!(seconds_or_zero(Some(1_700_000_000)), 1_700_000_000);
    assert_eq!(seconds_or_zero(Some(0)), 0);
    assert_eq!(seconds_or_zero(None), 0);
}
