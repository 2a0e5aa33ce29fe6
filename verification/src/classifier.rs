//! Records of an assistant that classifies images, with a human in the
//! loop who may confirm or overrule it.

use crate::account::AccountId;
use crate::amount::SafeAmount;
use crate::curation::{
    logging_payment_error, logging_refund, settle_logging, AgentError, ClassifyLog, ClassifyModel,
};
use crate::payment::Payment;
use vstd::prelude::*;

verus! {

/// The models of a run of classification records, in order.
pub open spec fn classify_models(s: Seq<ClassifyLog>) -> Seq<ClassifyModel> {
    Seq::new(s.len(), |i: int| s[i]@)
}

/// The session ids of a run of classification records, in order.
pub open spec fn classify_sessions(s: Seq<ClassifyModel>) -> Seq<Seq<char>> {
    Seq::new(s.len(), |i: int| s[i].session_id)
}

/// The position of the record under `session_id`, if there is one.
pub open spec fn classify_position(s: Seq<ClassifyModel>, session_id: Seq<char>) -> Option<int> {
    if exists|i: int| 0 <= i < s.len() && s[i].session_id == session_id {
        Some(choose|i: int| 0 <= i < s.len() && s[i].session_id == session_id)
    } else {
        None
    }
}

/// The records with `log` stored under its session id, in place of what was
/// stored there or as a new entry.
pub open spec fn with_classification(s: Seq<ClassifyModel>, log: ClassifyModel) -> Seq<
    ClassifyModel,
> {
    match classify_position(s, log.session_id) {
        Some(k) => s.update(k, log),
        None => s.push(log),
    }
}

/// The records of a classifying assistant.
#[derive(Debug, PartialEq, Eq)]
pub struct Contract {
    pub owner_id: AccountId,
    /// The one account that may log for the assistant.
    pub agent_account_id: AccountId,
    /// The kind of model the assistant runs.
    pub model_kind: String,
    /// The logged classifications, one per session id.
    pub logs: Vec<ClassifyLog>,
}

/// What a classifying assistant's records are, mathematically.
pub struct ClassifierModel {
    pub owner_id: Seq<char>,
    pub agent_account_id: Seq<char>,
    pub model_kind: Seq<char>,
    pub logs: Seq<ClassifyModel>,
}

impl View for Contract {
    type V = ClassifierModel;

    open spec fn view(&self) -> ClassifierModel {
        ClassifierModel {
            owner_id: self.owner_id@,
            agent_account_id: self.agent_account_id@,
            model_kind: self.model_kind@,
            logs: classify_models(self.logs@),
        }
    }
}

impl ClassifierModel {
    /// What holds of the records after every call.
    pub open spec fn wf(self) -> bool {
        classify_sessions(self.logs).no_duplicates()
    }

    /// The record under `session_id`, if there is one.
    pub open spec fn classification(self, session_id: Seq<char>) -> Option<ClassifyModel> {
        match classify_position(self.logs, session_id) {
            Some(i) => Some(self.logs[i]),
            None => None,
        }
    }
}

/// Where the session ids are distinct, the position of a session id is the
/// one position that holds it.
pub proof fn lemma_classify_position(s: Seq<ClassifyModel>, session_id: Seq<char>, k: int)
    requires
        classify_sessions(s).no_duplicates(),
        0 <= k < s.len(),
        s[k].session_id == session_id,
    ensures
        classify_position(s, session_id) == Some(k),
{
    let c = choose|i: int| 0 <= i < s.len() && s[i].session_id == session_id;
    assert(classify_sessions(s)[c] == classify_sessions(s)[k]);
}

/// Storing a record under its session id keeps the session ids distinct.
pub proof fn lemma_with_classification(s: Seq<ClassifyModel>, log: ClassifyModel)
    requires
        classify_sessions(s).no_duplicates(),
    ensures
        classify_sessions(with_classification(s, log)).no_duplicates(),
{
    let after = with_classification(s, log);
    match classify_position(s, log.session_id) {
        Some(k) => {
            assert(classify_sessions(after) =~= classify_sessions(s));
        },
        None => {
            assert forall|a: int, b: int|
                0 <= a < after.len() && 0 <= b < after.len() && a != b implies classify_sessions(
                after,
            )[a] != classify_sessions(after)[b] by {
                if a < s.len() && b < s.len() {
                    assert(classify_sessions(s)[a] != classify_sessions(s)[b]);
                } else if a < s.len() {
                    assert(s[a].session_id != log.session_id);
                } else {
                    assert(s[b].session_id != log.session_id);
                }
            }
        },
    }
}

impl Contract {
    /// What holds of the records after every call.
    pub open spec fn wf(&self) -> bool {
        self@.wf()
    }

    /// The records of an assistant, without logs.
    pub fn new(owner_id: AccountId, agent_account_id: AccountId, model_kind: String) -> (r: Contract)
        ensures
            r.wf(),
            r@ == (ClassifierModel {
                owner_id: owner_id@,
                agent_account_id: agent_account_id@,
                model_kind: model_kind@,
                logs: Seq::empty(),
            }),
    {
        let records = Contract { owner_id, agent_account_id, model_kind, logs: Vec::new() };
        assert(records@.logs =~= Seq::empty());
        records
    }

    /// Names the account that may log for the assistant. Owner only.
    pub fn set_agent_account(&mut self, caller: &AccountId, agent_account_id: AccountId) -> (r:
        Result<(), AgentError>)
        requires
            old(self).wf(),
        ensures
            final(self).wf(),
            caller@ != old(self)@.owner_id ==> r == Err::<(), AgentError>(AgentError::OwnerOnly)
                && *final(self) == *old(self),
            caller@ == old(self)@.owner_id ==> r is Ok && final(self)@ == (ClassifierModel {
                agent_account_id: agent_account_id@,
                ..old(self)@
            }),
    {
        if !self.owner_id.is(caller) {
            return Err(AgentError::OwnerOnly);
        }
        self.agent_account_id = agent_account_id;
        Ok(())
    }

    /// The position of the record under `session_id`, if there is one.
    pub fn find_classification(&self, session_id: &String) -> (r: Option<usize>)
        requires
            self.wf(),
        ensures
            match r {
                Some(k) => k < self.logs.len() && classify_position(self@.logs, session_id@)
                    == Some(k as int),
                None => classify_position(self@.logs, session_id@) is None,
            },
    {
        let mut i: usize = 0;
        while i < self.logs.len()
            invariant
                i <= self.logs.len(),
                self.wf(),
                forall|j: int| 0 <= j < i ==> (#[trigger] self@.logs[j]).session_id != session_id@,
            decreases self.logs.len() - i,
        {
            assert(self@.logs[i as int] == self.logs@[i as int]@);
            if self.logs[i].session_id == *session_id {
                proof {
                    lemma_classify_position(self@.logs, session_id@, i as int);
                }
                return Some(i);
            }
            i = i + 1;
        }
        None
    }

    /// Logs a classification at time `now`, not yet reviewed, under its
    /// session id and in place of an earlier record under that id. Only the
    /// assistant's account may. The payment must cover the storage the call
    /// adds; the rest is refunded.
    pub fn log_classification(
        &mut self,
        caller: &AccountId,
        now: u64,
        payment: Payment,
        session_id: String,
        image_hash: String,
        prompt_hash: String,
        label: String,
        confidence_bps: u32,
        model: String,
    ) -> (r: Result<SafeAmount, AgentError>)
        requires
            old(self).wf(),
        ensures
            final(self).wf(),
            caller@ != old(self)@.agent_account_id ==> r == Err::<SafeAmount, AgentError>(
                AgentError::AgentOnly,
            ) && *final(self) == *old(self),
            caller@ == old(self)@.agent_account_id && logging_payment_error(payment) is Some ==> r
                == Err::<SafeAmount, AgentError>(logging_payment_error(payment).unwrap())
                && *final(self) == *old(self),
            caller@ == old(self)@.agent_account_id && logging_payment_error(payment) is None ==> r
                is Ok && r->Ok_0@ == logging_refund(payment) && final(self)@ == (ClassifierModel {
                logs: with_classification(
                    old(self)@.logs,
                    ClassifyModel {
                        session_id: session_id@,
                        image_hash: image_hash@,
                        prompt_hash: prompt_hash@,
                        label: label@,
                        confidence_bps,
                        model: model@,
                        created_at_ns: now,
                        reviewed: false,
                        final_label: None,
                        reviewer: None,
                        reviewed_at_ns: None,
                    },
                ),
                ..old(self)@
            }),
    {
        if !self.agent_account_id.is(caller) {
            return Err(AgentError::AgentOnly);
        }
        let refund = settle_logging(payment)?;
        let position = self.find_classification(&session_id);
        let log = ClassifyLog {
            session_id,
            image_hash,
            prompt_hash,
            label,
            confidence_bps,
            model,
            created_at_ns: now,
            reviewed: false,
            final_label: None,
            reviewer: None,
            reviewed_at_ns: None,
        };
        proof {
            lemma_with_classification(self@.logs, log@);
        }
        match position {
            Some(k) => {
                self.logs.set(k, log);
                assert(self@.logs =~= old(self)@.logs.update(k as int, log@));
            },
            None => {
                self.logs.push(log);
                assert(self@.logs =~= old(self)@.logs.push(log@));
            },
        }
        Ok(refund)
    }

    /// Records at time `now` that the owner has looked at a classification:
    /// the label that stands, and the owner's name. Owner only.
    pub fn record_review(
        &mut self,
        caller: &AccountId,
        now: u64,
        session_id: String,
        final_label: String,
    ) -> (r: Result<(), AgentError>)
        requires
            old(self).wf(),
        ensures
            final(self).wf(),
            caller@ != old(self)@.owner_id ==> r == Err::<(), AgentError>(AgentError::OwnerOnly)
                && *final(self) == *old(self),
            caller@ == old(self)@.owner_id && old(self)@.classification(session_id@) is None ==> r
                == Err::<(), AgentError>(AgentError::SessionNotFound) && *final(self) == *old(self),
            caller@ == old(self)@.owner_id && old(self)@.classification(session_id@) is Some ==> r
                is Ok && final(self)@ == (ClassifierModel {
                logs: with_classification(
                    old(self)@.logs,
                    ClassifyModel {
                        reviewed: true,
                        final_label: Some(final_label@),
                        reviewer: Some(caller@),
                        reviewed_at_ns: Some(now),
                        ..old(self)@.classification(session_id@).unwrap()
                    },
                ),
                ..old(self)@
            }),
    {
        if !self.owner_id.is(caller) {
            return Err(AgentError::OwnerOnly);
        }
        let k = match self.find_classification(&session_id) {
            Some(k) => k,
            None => {
                return Err(AgentError::SessionNotFound);
            },
        };
        let ghost before = self@.logs[k as int];
        assert(before == self.logs@[k as int]@);
        proof {
            lemma_with_classification(
                self@.logs,
                ClassifyModel {
                    reviewed: true,
                    final_label: Some(final_label@),
                    reviewer: Some(caller@),
                    reviewed_at_ns: Some(now),
                    ..before
                },
            );
        }
        self.logs[k].reviewed = true;
        self.logs[k].final_label = Some(final_label);
        self.logs[k].reviewer = Some(caller.name.clone());
        self.logs[k].reviewed_at_ns = Some(now);
        proof {
            assert(self@.logs =~= old(self)@.logs.update(k as int, self.logs@[k as int]@));
        }
        Ok(())
    }

    /// The classification logged under `session_id`, if there is one.
    pub fn get_classification(&self, session_id: String) -> (r: Option<ClassifyLog>)
        requires
            self.wf(),
        ensures
            match r {
                Some(log) => self@.classification(session_id@) == Some(log@),
                None => self@.classification(session_id@) is None,
            },
    {
        match self.find_classification(&session_id) {
            Some(k) => {
                assert(self@.logs[k as int] == self.logs@[k as int]@);
                Some(self.logs[k].clone())
            },
            None => None,
        }
    }

    /// The owner of the records.
    pub fn get_owner_id(&self) -> (r: AccountId)
        ensures
            r@ == self@.owner_id,
    {
        self.owner_id.clone()
    }

    /// The kind of model the assistant runs.
    pub fn get_model_kind(&self) -> (r: String)
        ensures
            r@ == self@.model_kind,
    {
        self.model_kind.clone()
    }
}

} // verus!
