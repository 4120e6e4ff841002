//! The causal-send orchestrator. A send spends the notes just received in a
//! prior transaction; building it alternates between decisions — which
//! witness to fetch next, what expiration to set, what to make of the
//! broadcast reply — and outside work (network round trips, proving and
//! signing), which the unverified rim performs. The decisions live here as a
//! session: the rim asks for the next action, performs it, and hands the
//! outcome back. Spend order is never reordered, witnesses are assembled one
//! per spend in selection order, and nothing is broadcast unless proving and
//! self-verification succeeded first.

use vstd::prelude::*;

use crate::abi::NoteWitness;
use crate::errors::PipelineError;
use crate::hexcode::{hex_encode, hex_of};
use crate::notes::TransactionReceiver;
use crate::witness::{assemble_witness, assembled_of, record_ok, record_view, witness_model, SpendWitness};
use crate::EXPIRATION_WINDOW;

verus! {

/// The terminal outcome of a send: broadcast and accepted under a hash,
/// declined by the remote ledger with a reason, or aborted locally.
#[derive(Debug)]
pub enum SendResult {
    Success(String),
    Rejected(String),
    Failed(PipelineError),
}

impl SendResult {
    /// A field-for-field copy of this outcome.
    fn duplicate(&self) -> (r: SendResult)
        ensures
            r == *self,
    {
        match self {
            SendResult::Success(h) => SendResult::Success(h.clone()),
            SendResult::Rejected(t) => SendResult::Rejected(t.clone()),
            SendResult::Failed(e) => SendResult::Failed(*e),
        }
    }
}

/// Reads the remote ledger's broadcast reply: a success flag yields the
/// reported hash; a declined broadcast yields its reason verbatim, or the
/// sentinel `"no reason supplied"` when the remote omitted one.
pub fn interpret_broadcast(success: bool, hash: String, reason: Option<String>) -> (r: SendResult)
    ensures
        success ==> r == SendResult::Success(hash),
        !success ==> (reason matches Some(t) ==> r == SendResult::Rejected(t)),
        !success && reason is None ==> (r matches SendResult::Rejected(t) && t@
            == "no reason supplied"@),
{
    if success {
        SendResult::Success(hash)
    } else {
        match reason {
            Some(t) => SendResult::Rejected(t),
            None => SendResult::Rejected("no reason supplied".to_owned()),
        }
    }
}

/// Where a send session stands.
#[derive(Clone, Copy, Debug, PartialEq, Eq, Structural)]
pub enum SendPhase {
    /// Witnesses are still being fetched, one per spend, in spend order.
    GatherWitnesses,
    /// All witnesses are in; the chain height is needed to default the
    /// expiration.
    AwaitHeight,
    /// Everything the proving collaborator needs is in place.
    Proving,
    /// The proved, self-verified transaction awaits broadcast.
    AwaitBroadcast,
    /// The session ended; `outcome` says how.
    Done,
}

/// What the session asks the rim to do next.
#[derive(Debug)]
pub enum SendAction {
    /// Fetch the witness of the note at this tree index.
    FetchWitness(u64),
    /// Fetch the current chain height.
    FetchHeight,
    /// Hand spends, witnesses, output, fee and expiration to the proving
    /// collaborator; then verify the result before anything else.
    Prove,
    /// Submit this hex-encoded transaction to the broadcast endpoint.
    Broadcast(String),
    /// Nothing is left to do.
    Finish(SendResult),
}

/// One causal send in progress: the selected spends (in selection order,
/// never reordered), the witnesses assembled for them so far, the single
/// output's data, and the terminal outcome once there is one.
pub struct SendSession {
    pub spends: Vec<TransactionReceiver>,
    pub witnesses: Vec<SpendWitness>,
    pub receiver: String,
    pub memo: String,
    pub change_address: String,
    pub amount_ore: u64,
    pub fee: u64,
    pub expiration: Option<u32>,
    pub tx_hex: Option<String>,
    pub outcome: Option<SendResult>,
    pub phase: SendPhase,
}

impl SendSession {
    /// Session well-formedness: each phase holds exactly the data the next
    /// action needs.
    pub open spec fn wf(self) -> bool {
        &&& self.spends@.len() >= 1
        &&& self.witnesses@.len() <= self.spends@.len()
        &&& self.phase == SendPhase::GatherWitnesses ==> self.witnesses@.len() < self.spends@.len()
            && self.tx_hex is None && self.outcome is None
        &&& self.phase == SendPhase::AwaitHeight ==> self.witnesses@.len() == self.spends@.len()
            && self.expiration is None && self.tx_hex is None && self.outcome is None
        &&& self.phase == SendPhase::Proving ==> self.witnesses@.len() == self.spends@.len()
            && self.expiration is Some && self.tx_hex is None && self.outcome is None
        &&& self.phase == SendPhase::AwaitBroadcast ==> self.witnesses@.len() == self.spends@.len()
            && self.expiration is Some && self.tx_hex is Some && self.outcome is None
        &&& self.phase == SendPhase::Done ==> self.outcome is Some
    }

    /// Opens a session over the selected spends. The rim then performs
    /// [`SendSession::next_action`] until the session is done.
    pub fn new(
        spends: Vec<TransactionReceiver>,
        receiver: String,
        memo: String,
        change_address: String,
        amount_ore: u64,
        fee: u64,
        expiration: Option<u32>,
    ) -> (s: SendSession)
        requires
            spends@.len() >= 1,
        ensures
            s.wf(),
            s == (SendSession {
                spends,
                witnesses: s.witnesses,
                receiver,
                memo,
                change_address,
                amount_ore,
                fee,
                expiration,
                tx_hex: None,
                outcome: None,
                phase: SendPhase::GatherWitnesses,
            }),
            s.witnesses@.len() == 0,
    {
        SendSession {
            spends,
            witnesses: Vec::new(),
            receiver,
            memo,
            change_address,
            amount_ore,
            fee,
            expiration,
            tx_hex: None,
            outcome: None,
            phase: SendPhase::GatherWitnesses,
        }
    }

    /// What to do next. Witness fetches are requested one per spend, in
    /// spend order; the height only when no explicit expiration was given.
    pub fn next_action(&self) -> (a: SendAction)
        requires
            self.wf(),
        ensures
            self.phase == SendPhase::GatherWitnesses ==> a == SendAction::FetchWitness(
                self.spends@[self.witnesses@.len() as int].index,
            ),
            self.phase == SendPhase::AwaitHeight ==> a == SendAction::FetchHeight,
            self.phase == SendPhase::Proving ==> a == SendAction::Prove,
            self.phase == SendPhase::AwaitBroadcast ==> (self.tx_hex matches Some(t) && a
                == SendAction::Broadcast(t)),
            self.phase == SendPhase::Done ==> (self.outcome matches Some(o) && a
                == SendAction::Finish(o)),
    {
        match self.phase {
            SendPhase::GatherWitnesses => {
                let next: usize = self.witnesses.len();
                SendAction::FetchWitness(self.spends[next].index)
            },
            SendPhase::AwaitHeight => SendAction::FetchHeight,
            SendPhase::Proving => SendAction::Prove,
            SendPhase::AwaitBroadcast => {
                if let Some(t) = &self.tx_hex {
                    SendAction::Broadcast(t.clone())
                } else {
                    assert(false);
                    SendAction::FetchHeight
                }
            },
            SendPhase::Done => {
                if let Some(o) = &self.outcome {
                    SendAction::Finish(o.duplicate())
                } else {
                    assert(false);
                    SendAction::FetchHeight
                }
            },
        }
    }

    /// Takes in the witness record fetched for the next spend. A record
    /// whose hashes are well-formed is assembled and appended — in spend
    /// order; a malformed one aborts the whole send before any proving, so
    /// that no spend is ever built from a partial path.
    pub fn witness_fetched(&mut self, w: &NoteWitness)
        requires
            old(self).wf(),
            old(self).phase == SendPhase::GatherWitnesses,
        ensures
            final(self).wf(),
            final(self).spends == old(self).spends,
            final(self).receiver == old(self).receiver,
            final(self).memo == old(self).memo,
            final(self).change_address == old(self).change_address,
            final(self).amount_ore == old(self).amount_ore,
            final(self).fee == old(self).fee,
            final(self).expiration == old(self).expiration,
            record_ok(record_view(*w)) ==> ({
                &&& final(self).witnesses@.len() == old(self).witnesses@.len() + 1
                &&& final(self).witnesses@.drop_last() == old(self).witnesses@
                &&& witness_model(final(self).witnesses@.last()) == assembled_of(record_view(*w))
                &&& final(self).outcome is None
                &&& final(self).phase == (if final(self).witnesses@.len()
                    == final(self).spends@.len() {
                    if old(self).expiration is Some {
                        SendPhase::Proving
                    } else {
                        SendPhase::AwaitHeight
                    }
                } else {
                    SendPhase::GatherWitnesses
                })
            }),
            !record_ok(record_view(*w)) ==> ({
                &&& final(self).witnesses == old(self).witnesses
                &&& final(self).phase == SendPhase::Done
                &&& final(self).outcome == Some(
                    SendResult::Failed(PipelineError::MalformedInput),
                )
            }),
    {
        match assemble_witness(w) {
            Ok(sw) => {
                self.witnesses.push(sw);
                if self.witnesses.len() == self.spends.len() {
                    self.phase = if self.expiration.is_some() {
                        SendPhase::Proving
                    } else {
                        SendPhase::AwaitHeight
                    };
                }
                proof {
                    assert(final(self).witnesses@.drop_last() =~= old(self).witnesses@);
                }
            },
            Err(e) => {
                self.outcome = Some(SendResult::Failed(e));
                self.phase = SendPhase::Done;
            },
        }
    }

    /// Takes in the failure of a witness or height fetch: the send aborts —
    /// a partially gathered transaction is reported, never resubmitted.
    pub fn fetch_failed(&mut self)
        requires
            old(self).wf(),
            old(self).phase == SendPhase::GatherWitnesses || old(self).phase
                == SendPhase::AwaitHeight,
        ensures
            final(self).wf(),
            final(self).spends == old(self).spends,
            final(self).phase == SendPhase::Done,
            final(self).outcome == Some(
                SendResult::Failed(PipelineError::TransactionUnavailable),
            ),
    {
        self.outcome = Some(SendResult::Failed(PipelineError::TransactionUnavailable));
        self.phase = SendPhase::Done;
    }

    /// Takes in the reported chain height and defaults the expiration to
    /// exactly that height plus the fixed validity window.
    pub fn height_fetched(&mut self, height: u32)
        requires
            old(self).wf(),
            old(self).phase == SendPhase::AwaitHeight,
            height + EXPIRATION_WINDOW <= u32::MAX,
        ensures
            final(self).wf(),
            final(self).spends == old(self).spends,
            final(self).witnesses == old(self).witnesses,
            final(self).expiration == Some((height + EXPIRATION_WINDOW) as u32),
            final(self).phase == SendPhase::Proving,
            final(self).outcome is None,
    {
        self.expiration = Some(height + EXPIRATION_WINDOW);
        self.phase = SendPhase::Proving;
    }

    /// Takes in the serialized bytes of the proved, signed and
    /// self-verified transaction; the session hex-encodes them for the
    /// broadcast endpoint.
    pub fn prove_succeeded(&mut self, tx_bytes: &[u8])
        requires
            old(self).wf(),
            old(self).phase == SendPhase::Proving,
        ensures
            final(self).wf(),
            final(self).spends == old(self).spends,
            final(self).witnesses == old(self).witnesses,
            final(self).expiration == old(self).expiration,
            final(self).phase == SendPhase::AwaitBroadcast,
            final(self).tx_hex matches Some(t) && t@ == hex_of(tx_bytes@),
            final(self).outcome is None,
    {
        self.tx_hex = Some(hex_encode(tx_bytes));
        self.phase = SendPhase::AwaitBroadcast;
    }

    /// Takes in the proving collaborator's refusal — rejected builder
    /// inputs, or a finalized transaction that failed self-verification.
    /// Nothing may be broadcast in this case.
    pub fn prove_failed(&mut self)
        requires
            old(self).wf(),
            old(self).phase == SendPhase::Proving,
        ensures
            final(self).wf(),
            final(self).spends == old(self).spends,
            final(self).phase == SendPhase::Done,
            final(self).outcome == Some(
                SendResult::Failed(PipelineError::ProofOrSignatureFailure),
            ),
    {
        self.outcome = Some(SendResult::Failed(PipelineError::ProofOrSignatureFailure));
        self.phase = SendPhase::Done;
    }

    /// Takes in the broadcast reply and closes the session with its
    /// interpretation.
    pub fn broadcast_replied(&mut self, success: bool, hash: String, reason: Option<String>)
        requires
            old(self).wf(),
            old(self).phase == SendPhase::AwaitBroadcast,
        ensures
            final(self).wf(),
            final(self).spends == old(self).spends,
            final(self).phase == SendPhase::Done,
            success ==> final(self).outcome == Some(SendResult::Success(hash)),
            !success ==> (reason matches Some(t) ==> final(self).outcome == Some(
                SendResult::Rejected(t),
            )),
            !success && reason is None ==> (final(self).outcome matches Some(
                SendResult::Rejected(t),
            ) && t@ == "no reason supplied"@),
    {
        self.outcome = Some(interpret_broadcast(success, hash, reason));
        self.phase = SendPhase::Done;
    }
}

} // verus!
