//! Stake-weighted settlement for a content bounty market, with the smaller
//! ledgers that stand beside it.
//!
//! A sponsor funds a bounty, creators submit entries, the community stakes on
//! the entry it backs, and after the deadline the most-staked entry wins.
//! [`market`] is that ledger: one explicit value that owns every record.
//! Every call takes what the host knows (who calls, what time it is, what
//! was paid in, what the balance is) as plain arguments, and hands back what
//! the host has to pay out. A call that is turned down changes nothing.
//!
//! Beside it stand [`staking`] (stakes that earn rewards with time),
//! [`voting`] (polls with a reward for the winners), [`deposits`] (payments
//! recorded at their worth in dollars), [`zkp`] (a registry of proofs) and
//! the records of two assistants, [`classifier`] and [`curation`]. They
//! share [`amount`] for money, [`account`] for identities, [`payment`] for
//! what comes with a call, [`error`] for why a call is turned down, and [`consistency`] to check a ledger that was
//! read back from storage before it is used.

pub mod account;
pub mod agents;
pub mod amount;
pub mod classifier;
pub mod clearer;
pub mod consistency;
pub mod curation;
pub mod deposits;
pub mod error;
pub mod market;
pub mod payment;
pub mod samples;
pub mod staking;
pub mod sums;
pub mod text;
pub mod voting;
pub mod zkp;
