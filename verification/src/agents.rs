//! What the off-chain agents that drive the market exchange with it.

use std::collections::HashMap;
use vstd::prelude::*;

verus! {

/// How an agent is set up.
#[derive(Debug, Clone)]
pub struct AgentConfig {
    pub agent_id: String,
    pub network: String,
    pub rpc_endpoint: String,
    pub contract_addresses: HashMap<String, String>,
    pub private_key: Option<String>,
    pub polling_interval: u64,
}

/// A poll as an agent sees it.
#[derive(Debug, Clone)]
pub struct VotingData {
    pub poll_id: u64,
    pub title: String,
    pub options: Vec<String>,
    pub votes: Vec<u64>,
    pub total_votes: u64,
    pub is_active: bool,
    pub created_at: u64,
    pub ends_at: Option<u64>,
}

/// A stake as an agent sees it.
#[derive(Debug, Clone)]
pub struct StakingData {
    pub user: String,
    pub amount: u128,
    pub rewards: u128,
    pub staked_at: u64,
    pub last_claim: u64,
}

/// The phase a governance proposal is in.
#[derive(Debug, Clone, Copy, PartialEq, Eq, Structural)]
pub enum ProposalStatus {
    Active,
    Passed,
    Rejected,
    Executed,
    Cancelled,
}

/// A governance proposal as an agent sees it.
#[derive(Debug, Clone)]
pub struct GovernanceProposal {
    pub id: u64,
    pub title: String,
    pub description: String,
    pub proposer: String,
    pub votes_for: u64,
    pub votes_against: u64,
    pub status: ProposalStatus,
    pub created_at: u64,
    pub voting_ends_at: u64,
}

/// The kinds of action an agent performs.
#[derive(Debug, Clone, Copy, PartialEq, Eq, Structural)]
pub enum ActionType {
    VoteAggregation,
    RewardDistribution,
    GovernanceExecution,
    DataSync,
    SecurityCheck,
}

/// What an agent reports of itself.
#[derive(Debug, Clone)]
pub struct AgentStatus {
    pub agent_id: String,
    pub is_running: bool,
    pub last_execution: Option<u64>,
    pub actions_performed: u64,
    pub errors: Vec<String>,
}

/// Calls `SystemTime::elapsed` on the Unix epoch: the time that has passed
/// since then by the host's clock, or `None` where the clock reads a time
/// before the epoch. Nothing is claimed of the outcome: it is whatever the
/// clock says.
#[verifier::external_body]
fn elapsed_since_epoch() -> (r: Option<std::time::Duration>) {
    match std::time::UNIX_EPOCH.elapsed() {
        Ok(elapsed) => Some(elapsed),
        Err(_) => None,
    }
}

/// Calls `Duration::as_secs`, which gives the whole seconds in a span of
/// time. A span is opaque here, so nothing is claimed of the number.
#[verifier::external_body]
fn whole_seconds(span: &std::time::Duration) -> (r: u64) {
    span.as_secs()
}

/// The host's time in whole seconds since the Unix epoch, or zero where the
/// host's clock reads a time before it.
pub fn current_timestamp() -> u64 {
    let elapsed = match elapsed_since_epoch() {
        Some(span) => Some(whole_seconds(&span)),
        None => None,
    };
    seconds_or_zero(elapsed)
}

/// The timestamp that stands for a reading of the clock: the whole seconds
/// that have passed since the Unix epoch, or zero where the clock reads a
/// time before it.
pub fn seconds_or_zero(elapsed: Option<u64>) -> (r: u64)
    ensures
        r == match elapsed {
            Some(seconds) => seconds,
            None => 0,
        },
{
    match elapsed {
        Some(seconds) => seconds,
        None => 0,
    }
}

} // verus!
