//! Spend selection and balancing: from the sender buckets of an aggregated
//! transaction, flatten every decrypted note whose owner address is the
//! wallet's own address, sum their values, and hold that sum against the
//! requested send amount. Selection is exhaustive by design — every owned
//! note of the transaction becomes a spend; there is no partial coin
//! selection.

use vstd::prelude::*;

use crate::errors::PipelineError;
use crate::notes::{
    groups_model, receiver_model, BucketModel, ReceiverModel, SenderBucket, TransactionReceiver,
};

verus! {

/// The outcome of a successful selection: the spend candidates, in bucket
/// order and note order, and the total value they carry.
pub struct Selection {
    pub spends: Vec<TransactionReceiver>,
    pub total: u128,
}

/// The notes of one bucket owned by `addr`, in note order.
pub open spec fn owned_in(notes: Seq<ReceiverModel>, addr: Seq<char>) -> Seq<ReceiverModel>
    decreases notes.len(),
{
    if notes.len() == 0 {
        Seq::empty()
    } else {
        let prev = owned_in(notes.drop_last(), addr);
        if notes.last().address == addr {
            prev.push(notes.last())
        } else {
            prev
        }
    }
}

/// Every note of `groups` owned by `addr`: bucket by bucket, each bucket's
/// notes in order.
pub open spec fn owned_notes(groups: Seq<BucketModel>, addr: Seq<char>) -> Seq<ReceiverModel>
    decreases groups.len(),
{
    if groups.len() == 0 {
        Seq::empty()
    } else {
        owned_notes(groups.drop_last(), addr) + owned_in(groups.last().notes, addr)
    }
}

/// The summed value of a sequence of decrypted notes.
pub open spec fn total_value(notes: Seq<ReceiverModel>) -> int
    decreases notes.len(),
{
    if notes.len() == 0 {
        0int
    } else {
        total_value(notes.drop_last()) + notes.last().value
    }
}

/// The note models of bucket `i` of `groups`.
pub open spec fn bucket_notes(groups: Seq<BucketModel>, i: int) -> Seq<ReceiverModel>
    recommends
        0 <= i < groups.len(),
{
    groups[i].notes
}

pub open spec fn spends_model(spends: Seq<TransactionReceiver>) -> Seq<ReceiverModel> {
    spends.map(|i: int, s: TransactionReceiver| receiver_model(s))
}

proof fn lemma_total_value_bound(notes: Seq<ReceiverModel>)
    ensures
        0 <= total_value(notes) <= notes.len() * (u64::MAX as int),
    decreases notes.len(),
{
    if notes.len() == 0 {
    } else {
        lemma_total_value_bound(notes.drop_last());
        assert((notes.len() - 1) * (u64::MAX as int) + (u64::MAX as int) == notes.len() * (
        u64::MAX as int)) by (nonlinear_arith);
    }
}

impl TransactionReceiver {
    /// A field-for-field copy of this note.
    fn duplicate(&self) -> (r: TransactionReceiver)
        ensures
            r == *self,
    {
        TransactionReceiver {
            index: self.index,
            address: self.address.clone(),
            value: self.value,
            assetId: self.assetId.clone(),
            memo: self.memo.clone(),
        }
    }
}

/// Selects the spends of a send: every decrypted note of `groups` owned by
/// `wallet_address`, with their summed value `V`. Succeeds exactly when `V`
/// strictly exceeds `required_amount` — the fee must come out of the same
/// pool, so equality is not enough. Fails with `NotAReceiver` exactly when
/// `V` is zero, and with `InsufficientBalance` exactly when
/// `0 < V <= required_amount`.
#[verifier::loop_isolation(false)]
pub fn select_spends(
    groups: &Vec<SenderBucket>,
    wallet_address: &String,
    required_amount: u64,
) -> (r: Result<Selection, PipelineError>)
    ensures
        ({
            let owned = owned_notes(groups_model(groups@), wallet_address@);
            let v = total_value(owned);
            &&& r is Ok <==> v > required_amount
            &&& r matches Ok(sel) ==> spends_model(sel.spends@) == owned && sel.total == v
            &&& r matches Err(e) ==> e == if v == 0 {
                PipelineError::NotAReceiver
            } else {
                PipelineError::InsufficientBalance
            }
        }),
{
    let ghost gm = groups_model(groups@);
    let ghost addr = wallet_address@;
    let mut spends: Vec<TransactionReceiver> = Vec::new();
    let mut total: u128 = 0;
    let n: usize = groups.len();
    assert(spends_model(spends@) =~= owned_notes(gm.take(0), addr));
    for i in 0..n
        invariant
            spends_model(spends@) == owned_notes(gm.take(i as int), addr),
            total == total_value(spends_model(spends@)),
    {
        let bucket = &groups[i];
        let m: usize = bucket.notes.len();
        let ghost bm = bucket_notes(gm, i as int);
        assert(bm == bucket.notes@.map(|k: int, r: TransactionReceiver| receiver_model(r)));
        assert(spends_model(spends@) + owned_in(bm.take(0), addr) =~= spends_model(spends@));
        let ghost outer = spends_model(spends@);
        for j in 0..m
            invariant
                spends_model(spends@) == outer + owned_in(bm.take(j as int), addr),
                total == total_value(spends_model(spends@)),
        {
            let note = &bucket.notes[j];
            let ghost pre = spends_model(spends@);
            assert(bm[j as int] == receiver_model(bucket.notes@[j as int]));
            let owned_here = note.address == *wallet_address;
            if owned_here {
                let len64: u64 = spends.len() as u64;
                proof {
                    lemma_total_value_bound(pre);
                    assert(pre.len() == len64);
                    assert((len64 as int) * (u64::MAX as int) + (u64::MAX as int) == ((
                    len64 as int) + 1) * (u64::MAX as int)) by (nonlinear_arith);
                    assert(((len64 as int) + 1) * (u64::MAX as int) <= (0x1_0000_0000_0000_0000int)
                        * (u64::MAX as int)) by (nonlinear_arith)
                        requires
                            (len64 as int) + 1 <= 0x1_0000_0000_0000_0000int,
                    ;
                }
                total = total + (note.value as u128);
                spends.push(note.duplicate());
            }
            proof {
                assert(bm.take(j + 1).drop_last() =~= bm.take(j as int));
                assert(bm.take(j + 1).last() == bm[j as int]);
                if owned_here {
                    assert(spends_model(spends@) =~= pre.push(bm[j as int]));
                    assert(owned_in(bm.take(j + 1), addr) =~= owned_in(bm.take(j as int), addr).push(
                        bm[j as int],
                    ));
                    assert(spends_model(spends@) =~= outer + owned_in(bm.take(j + 1), addr));
                    assert(pre.push(bm[j as int]).drop_last() =~= pre);
                    assert(total_value(spends_model(spends@)) == total_value(pre) + bm[
                        j as int
                    ].value);
                } else {
                    assert(owned_in(bm.take(j + 1), addr) =~= owned_in(bm.take(j as int), addr));
                    assert(spends_model(spends@) =~= outer + owned_in(bm.take(j + 1), addr));
                }
            }
        }
        proof {
            assert(bm.take(m as int) =~= bm);
            assert(gm.take(i + 1).drop_last() =~= gm.take(i as int));
            assert(gm.take(i + 1).last() == gm[i as int]);
            assert(spends_model(spends@) =~= owned_notes(gm.take(i + 1), addr));
        }
    }
    proof {
        assert(gm.take(n as int) =~= gm);
    }
    if total == 0 {
        return Err(PipelineError::NotAReceiver);
    }
    if total <= required_amount as u128 {
        return Err(PipelineError::InsufficientBalance);
    }
    Ok(Selection { spends, total })
}

} // verus!
