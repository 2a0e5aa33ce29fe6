//! Records of the assistants that help a community curate: what was
//! classified, what was asked, and which data an assistant draws on.

use crate::account::AccountId;
use crate::amount::{ArithmeticError, SafeAmount};
use crate::text::{clone_text, text_of};
use crate::payment::Payment;
use vstd::prelude::*;

verus! {

/// Why a call on an assistant's records is rejected.
#[derive(Clone, Copy, Debug, PartialEq, Eq, Structural)]
pub enum AgentError {
    /// Only the owner may call this.
    OwnerOnly,
    /// Only the assistant's own account may call this.
    AgentOnly,
    /// The payment does not cover the storage the call adds.
    InsufficientDeposit,
    /// Nothing is recorded under this session id.
    SessionNotFound,
    /// The community named is not the one the assistant is assigned to.
    CommunityMismatch,
    Arithmetic(ArithmeticError),
}

/// What the payer of a logging call gets back: with storage added, the
/// payment less its cost; without, nothing.
pub open spec fn logging_refund(payment: Payment) -> nat {
    if payment.storage_used > 0 {
        (payment.attached_deposit@ - payment.storage_cost()) as nat
    } else {
        0
    }
}

/// Why the payment of a logging call is rejected; `None` where it is
/// accepted.
pub open spec fn logging_payment_error(payment: Payment) -> Option<AgentError> {
    if payment.storage_used == 0 {
        None
    } else if payment.storage_cost() > u128::MAX {
        Some(AgentError::Arithmetic(ArithmeticError::Overflow))
    } else if payment.attached_deposit@ < payment.storage_cost() {
        Some(AgentError::InsufficientDeposit)
    } else {
        None
    }
}

/// What the host returns to the payer of a logging call.
pub fn settle_logging(payment: Payment) -> (r: Result<SafeAmount, AgentError>)
    ensures
        match logging_payment_error(payment) {
            Some(e) => r == Err::<SafeAmount, AgentError>(e),
            None => r is Ok && r->Ok_0@ == logging_refund(payment),
        },
{
    if payment.storage_used == 0 {
        return Ok(SafeAmount::from_yoctonear(0));
    }
    let required = match payment.storage_byte_cost.checked_mul(payment.storage_used as u128) {
        Ok(c) => c,
        Err(e) => {
            assert(payment.storage_byte_cost@ * (payment.storage_used as u128)
                == payment.storage_cost()) by (nonlinear_arith);
            return Err(AgentError::Arithmetic(e));
        },
    };
    assert(required@ == payment.storage_cost()) by (nonlinear_arith)
        requires
            required@ == payment.storage_byte_cost@ * (payment.storage_used as u128),
            payment.storage_cost() == payment.storage_used as nat * payment.storage_byte_cost@,
    ;
    match payment.attached_deposit.checked_sub(required) {
        Ok(refund) => Ok(refund),
        Err(_) => Err(AgentError::InsufficientDeposit),
    }
}

/// One classification, with its review where a human has looked at it.
#[derive(Debug, PartialEq, Eq)]
pub struct ClassifyLog {
    pub session_id: String,
    pub image_hash: String,
    pub prompt_hash: String,
    pub label: String,
    /// Confidence in basis points.
    pub confidence_bps: u32,
    pub model: String,
    pub created_at_ns: u64,
    pub reviewed: bool,
    pub final_label: Option<String>,
    pub reviewer: Option<String>,
    pub reviewed_at_ns: Option<u64>,
}

/// What a classification record is, mathematically.
pub struct ClassifyModel {
    pub session_id: Seq<char>,
    pub image_hash: Seq<char>,
    pub prompt_hash: Seq<char>,
    pub label: Seq<char>,
    pub confidence_bps: u32,
    pub model: Seq<char>,
    pub created_at_ns: u64,
    pub reviewed: bool,
    pub final_label: Option<Seq<char>>,
    pub reviewer: Option<Seq<char>>,
    pub reviewed_at_ns: Option<u64>,
}

impl View for ClassifyLog {
    type V = ClassifyModel;

    open spec fn view(&self) -> ClassifyModel {
        ClassifyModel {
            session_id: self.session_id@,
            image_hash: self.image_hash@,
            prompt_hash: self.prompt_hash@,
            label: self.label@,
            confidence_bps: self.confidence_bps,
            model: self.model@,
            created_at_ns: self.created_at_ns,
            reviewed: self.reviewed,
            final_label: text_of(self.final_label),
            reviewer: text_of(self.reviewer),
            reviewed_at_ns: self.reviewed_at_ns,
        }
    }
}

impl Clone for ClassifyLog {
    fn clone(&self) -> (r: Self)
        ensures
            r@ == self@,
    {
        ClassifyLog {
            session_id: self.session_id.clone(),
            image_hash: self.image_hash.clone(),
            prompt_hash: self.prompt_hash.clone(),
            label: self.label.clone(),
            confidence_bps: self.confidence_bps,
            model: self.model.clone(),
            created_at_ns: self.created_at_ns,
            reviewed: self.reviewed,
            final_label: clone_text(&self.final_label),
            reviewer: clone_text(&self.reviewer),
            reviewed_at_ns: self.reviewed_at_ns,
        }
    }
}

/// The data set an assistant draws on.
#[derive(Debug, PartialEq, Eq)]
pub struct DatasetMeta {
    pub dataset_hash: String,
    pub dataset_uri: String,
    pub updated_at_ns: u64,
}

/// What a data set description is, mathematically.
pub struct DatasetModel {
    pub dataset_hash: Seq<char>,
    pub dataset_uri: Seq<char>,
    pub updated_at_ns: u64,
}

impl View for DatasetMeta {
    type V = DatasetModel;

    open spec fn view(&self) -> DatasetModel {
        DatasetModel {
            dataset_hash: self.dataset_hash@,
            dataset_uri: self.dataset_uri@,
            updated_at_ns: self.updated_at_ns,
        }
    }
}

impl Clone for DatasetMeta {
    fn clone(&self) -> (r: Self)
        ensures
            r == *self,
    {
        DatasetMeta {
            dataset_hash: self.dataset_hash.clone(),
            dataset_uri: self.dataset_uri.clone(),
            updated_at_ns: self.updated_at_ns,
        }
    }
}

/// One exchange with an assistant, by digests only.
#[derive(Debug, PartialEq, Eq)]
pub struct InteractionLog {
    pub session_id: String,
    pub query_hash: String,
    pub answer_hash: String,
    /// Approximate cost in millionths of a dollar.
    pub cost_microusd: u64,
    pub community_id: Option<String>,
    pub created_at_ns: u64,
}

/// What an interaction record is, mathematically.
pub struct InteractionModel {
    pub session_id: Seq<char>,
    pub query_hash: Seq<char>,
    pub answer_hash: Seq<char>,
    pub cost_microusd: u64,
    pub community_id: Option<Seq<char>>,
    pub created_at_ns: u64,
}

impl View for InteractionLog {
    type V = InteractionModel;

    open spec fn view(&self) -> InteractionModel {
        InteractionModel {
            session_id: self.session_id@,
            query_hash: self.query_hash@,
            answer_hash: self.answer_hash@,
            cost_microusd: self.cost_microusd,
            community_id: text_of(self.community_id),
            created_at_ns: self.created_at_ns,
        }
    }
}

impl Clone for InteractionLog {
    fn clone(&self) -> (r: Self)
        ensures
            r@ == self@,
    {
        InteractionLog {
            session_id: self.session_id.clone(),
            query_hash: self.query_hash.clone(),
            answer_hash: self.answer_hash.clone(),
            cost_microusd: self.cost_microusd,
            community_id: clone_text(&self.community_id),
            created_at_ns: self.created_at_ns,
        }
    }
}

/// The models of a run of interaction records, in order.
pub open spec fn interaction_models(s: Seq<InteractionLog>) -> Seq<InteractionModel> {
    Seq::new(s.len(), |i: int| s[i]@)
}

/// The session ids of a run of interaction records, in order.
pub open spec fn interaction_sessions(s: Seq<InteractionModel>) -> Seq<Seq<char>> {
    Seq::new(s.len(), |i: int| s[i].session_id)
}

/// The position of the latest record under `session_id`, if there is one.
pub open spec fn interaction_position(s: Seq<InteractionModel>, session_id: Seq<char>) -> Option<
    int,
> {
    if exists|i: int| 0 <= i < s.len() && s[i].session_id == session_id {
        Some(choose|i: int| 0 <= i < s.len() && s[i].session_id == session_id)
    } else {
        None
    }
}

/// The records with `log` stored under its session id, in place of what was
/// stored there or as a new entry.
pub open spec fn with_interaction(s: Seq<InteractionModel>, log: InteractionModel) -> Seq<
    InteractionModel,
> {
    match interaction_position(s, log.session_id) {
        Some(k) => s.update(k, log),
        None => s.push(log),
    }
}

/// The records of an assistant that helps a community curate.
#[derive(Debug, PartialEq, Eq)]
pub struct Contract {
    pub owner_id: AccountId,
    /// The one account that may log for the assistant.
    pub agent_account_id: AccountId,
    pub dataset: DatasetMeta,
    /// The community the assistant is assigned to.
    pub community_id: String,
    /// The logged exchanges, one per session id.
    pub logs: Vec<InteractionLog>,
}

/// What an assistant's records are, mathematically.
pub struct CurationModel {
    pub owner_id: Seq<char>,
    pub agent_account_id: Seq<char>,
    pub dataset: DatasetModel,
    pub community_id: Seq<char>,
    pub logs: Seq<InteractionModel>,
}

impl View for Contract {
    type V = CurationModel;

    open spec fn view(&self) -> CurationModel {
        CurationModel {
            owner_id: self.owner_id@,
            agent_account_id: self.agent_account_id@,
            dataset: self.dataset@,
            community_id: self.community_id@,
            logs: interaction_models(self.logs@),
        }
    }
}

impl CurationModel {
    /// What holds of the records after every call.
    pub open spec fn wf(self) -> bool {
        interaction_sessions(self.logs).no_duplicates()
    }

    /// The record under `session_id`, if there is one.
    pub open spec fn interaction(self, session_id: Seq<char>) -> Option<InteractionModel> {
        match interaction_position(self.logs, session_id) {
            Some(i) => Some(self.logs[i]),
            None => None,
        }
    }

    /// Why a call to log an exchange is rejected; `None` where it is
    /// accepted.
    pub open spec fn logging_error(
        self,
        caller: Seq<char>,
        payment: Payment,
        community_id: Option<Seq<char>>,
    ) -> Option<AgentError> {
        if caller != self.agent_account_id {
            Some(AgentError::AgentOnly)
        } else if community_id is Some && community_id.unwrap() != self.community_id {
            Some(AgentError::CommunityMismatch)
        } else {
            logging_payment_error(payment)
        }
    }
}

/// Where the session ids are distinct, the position of a session id is the
/// one position that holds it.
pub proof fn lemma_interaction_position(s: Seq<InteractionModel>, session_id: Seq<char>, k: int)
    requires
        interaction_sessions(s).no_duplicates(),
        0 <= k < s.len(),
        s[k].session_id == session_id,
    ensures
        interaction_position(s, session_id) == Some(k),
{
    let c = choose|i: int| 0 <= i < s.len() && s[i].session_id == session_id;
    assert(interaction_sessions(s)[c] == interaction_sessions(s)[k]);
}

/// Storing a record keeps the session ids distinct.
pub proof fn lemma_with_interaction(s: Seq<InteractionModel>, log: InteractionModel)
    requires
        interaction_sessions(s).no_duplicates(),
    ensures
        interaction_sessions(with_interaction(s, log)).no_duplicates(),
{
    let after = with_interaction(s, log);
    match interaction_position(s, log.session_id) {
        Some(k) => {
            assert(interaction_sessions(after) =~= interaction_sessions(s));
        },
        None => {
            assert forall|a: int, b: int|
                0 <= a < after.len() && 0 <= b < after.len() && a
                    != b implies interaction_sessions(after)[a] != interaction_sessions(
                after,
            )[b] by {
                if a < s.len() && b < s.len() {
                    assert(interaction_sessions(s)[a] != interaction_sessions(s)[b]);
                } else if a < s.len() {
                    assert(s[a].session_id != log.session_id);
                } else {
                    assert(s[b].session_id != log.session_id);
                }
            }
        },
    }
}

impl Contract {
    /// What holds of the records after every call.
    pub open spec fn wf(&self) -> bool {
        self@.wf()
    }

    /// The records of an assistant, without logs, with its data set
    /// described as of `now`.
    pub fn new(
        owner_id: AccountId,
        agent_account_id: AccountId,
        dataset_hash: String,
        dataset_uri: String,
        community_id: String,
        now: u64,
    ) -> (r: Contract)
        ensures
            r.wf(),
            r@ == (CurationModel {
                owner_id: owner_id@,
                agent_account_id: agent_account_id@,
                dataset: DatasetModel {
                    dataset_hash: dataset_hash@,
                    dataset_uri: dataset_uri@,
                    updated_at_ns: now,
                },
                community_id: community_id@,
                logs: Seq::empty(),
            }),
    {
        let records = Contract {
            owner_id,
            agent_account_id,
            dataset: DatasetMeta { dataset_hash, dataset_uri, updated_at_ns: now },
            community_id,
            logs: Vec::new(),
        };
        assert(records@.logs =~= Seq::empty());
        records
    }

    /// Names the account that may log for the assistant. Owner only.
    pub fn set_agent_account(&mut self, caller: &AccountId, agent_account_id: AccountId) -> (r:
        Result<(), AgentError>)
        requires
            old(self).wf(),
        ensures
            final(self).wf(),
            caller@ != old(self)@.owner_id ==> r == Err::<(), AgentError>(AgentError::OwnerOnly)
                && *final(self) == *old(self),
            caller@ == old(self)@.owner_id ==> r is Ok && final(self)@ == (CurationModel {
                agent_account_id: agent_account_id@,
                ..old(self)@
            }),
    {
        if !self.owner_id.is(caller) {
            return Err(AgentError::OwnerOnly);
        }
        self.agent_account_id = agent_account_id;
        Ok(())
    }

    /// Describes the data set anew, as of `now`. Owner only.
    pub fn set_dataset_meta(
        &mut self,
        caller: &AccountId,
        now: u64,
        dataset_hash: String,
        dataset_uri: String,
    ) -> (r: Result<(), AgentError>)
        requires
            old(self).wf(),
        ensures
            final(self).wf(),
            caller@ != old(self)@.owner_id ==> r == Err::<(), AgentError>(AgentError::OwnerOnly)
                && *final(self) == *old(self),
            caller@ == old(self)@.owner_id ==> r is Ok && final(self)@ == (CurationModel {
                dataset: DatasetModel {
                    dataset_hash: dataset_hash@,
                    dataset_uri: dataset_uri@,
                    updated_at_ns: now,
                },
                ..old(self)@
            }),
    {
        if !self.owner_id.is(caller) {
            return Err(AgentError::OwnerOnly);
        }
        self.dataset = DatasetMeta { dataset_hash, dataset_uri, updated_at_ns: now };
        Ok(())
    }

    /// Assigns the assistant to another community. Owner only.
    pub fn set_community(&mut self, caller: &AccountId, community_id: String) -> (r: Result<
        (),
        AgentError,
    >)
        requires
            old(self).wf(),
        ensures
            final(self).wf(),
            caller@ != old(self)@.owner_id ==> r == Err::<(), AgentError>(AgentError::OwnerOnly)
                && *final(self) == *old(self),
            caller@ == old(self)@.owner_id ==> r is Ok && final(self)@ == (CurationModel {
                community_id: community_id@,
                ..old(self)@
            }),
    {
        if !self.owner_id.is(caller) {
            return Err(AgentError::OwnerOnly);
        }
        self.community_id = community_id;
        Ok(())
    }

    /// The position of the record under `session_id`, if there is one.
    pub fn find_interaction(&self, session_id: &String) -> (r: Option<usize>)
        requires
            self.wf(),
        ensures
            match r {
                Some(k) => k < self.logs.len() && interaction_position(self@.logs, session_id@)
                    == Some(k as int),
                None => interaction_position(self@.logs, session_id@) is None,
            },
    {
        let mut i: usize = 0;
        while i < self.logs.len()
            invariant
                i <= self.logs.len(),
                self.wf(),
                forall|j: int| 0 <= j < i ==> (#[trigger] self@.logs[j]).session_id != session_id@,
            decreases self.logs.len() - i,
        {
            assert(self@.logs[i as int] == self.logs@[i as int]@);
            if self.logs[i].session_id == *session_id {
                proof {
                    lemma_interaction_position(self@.logs, session_id@, i as int);
                }
                return Some(i);
            }
            i = i + 1;
        }
        None
    }

    /// Logs an exchange at time `now`, under its session id and in place of
    /// an earlier record under that id. Only the assistant's account may,
    /// and only for the community the assistant is assigned to. The payment
    /// must cover the storage the call adds; the rest is refunded.
    pub fn log_interaction(
        &mut self,
        caller: &AccountId,
        now: u64,
        payment: Payment,
        session_id: String,
        query_hash: String,
        answer_hash: String,
        cost_microusd: u64,
        community_id: Option<String>,
    ) -> (r: Result<SafeAmount, AgentError>)
        requires
            old(self).wf(),
        ensures
            final(self).wf(),
            match r {
                Ok(refund) => {
                    &&& old(self)@.logging_error(caller@, payment, text_of(community_id)) is None
                    &&& refund@ == logging_refund(payment)
                    &&& final(self)@ == (CurationModel {
                        logs: with_interaction(
                            old(self)@.logs,
                            InteractionModel {
                                session_id: session_id@,
                                query_hash: query_hash@,
                                answer_hash: answer_hash@,
                                cost_microusd,
                                community_id: text_of(community_id),
                                created_at_ns: now,
                            },
                        ),
                        ..old(self)@
                    })
                },
                Err(e) => {
                    &&& old(self)@.logging_error(caller@, payment, text_of(community_id)) == Some(e)
                    &&& *final(self) == *old(self)
                },
            },
    {
        if !self.agent_account_id.is(caller) {
            return Err(AgentError::AgentOnly);
        }
        if let Some(cid) = &community_id {
            if *cid != self.community_id {
                return Err(AgentError::CommunityMismatch);
            }
        }
        let refund = settle_logging(payment)?;
        let position = self.find_interaction(&session_id);
        let log = InteractionLog {
            session_id,
            query_hash,
            answer_hash,
            cost_microusd,
            community_id,
            created_at_ns: now,
        };
        proof {
            lemma_with_interaction(self@.logs, log@);
        }
        match position {
            Some(k) => {
                self.logs.set(k, log);
                assert(self@.logs =~= old(self)@.logs.update(k as int, log@));
            },
            None => {
                self.logs.push(log);
                assert(self@.logs =~= old(self)@.logs.push(log@));
            },
        }
        Ok(refund)
    }

    /// The description of the data set.
    pub fn get_dataset_meta(&self) -> (r: DatasetMeta)
        ensures
            r@ == self@.dataset,
    {
        self.dataset.clone()
    }

    /// The community the assistant is assigned to.
    pub fn get_community_id(&self) -> (r: String)
        ensures
            r@ == self@.community_id,
    {
        self.community_id.clone()
    }

    /// The exchange logged under `session_id`, if there is one.
    pub fn get_interaction(&self, session_id: String) -> (r: Option<InteractionLog>)
        requires
            self.wf(),
        ensures
            match r {
                Some(log) => self@.interaction(session_id@) == Some(log@),
                None => self@.interaction(session_id@) is None,
            },
    {
        match self.find_interaction(&session_id) {
            Some(k) => {
                assert(self@.logs[k as int] == self.logs@[k as int]@);
                Some(self.logs[k].clone())
            },
            None => None,
        }
    }
}

} // verus!
