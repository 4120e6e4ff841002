//! Aggregation of a transaction's decrypted notes. Every encrypted note is
//! trial-decrypted outside this module (first as owner, then as spender);
//! here the outcomes are folded, in the record's declared note order, into
//! buckets keyed by sender address. A note that decrypted under neither key
//! leaves no trace in the result. Each kept note carries its position in the
//! ledger's note commitment tree, derived as `base + position` where `base`
//! is the tree size at the transaction minus its note count.

use vstd::prelude::*;

verus! {

/// The plain contents of a successfully decrypted note.
#[derive(Debug)]
#[allow(non_snake_case)]
pub struct NoteContents {
    pub owner: String,
    pub sender: String,
    pub value: u64,
    pub assetId: String,
    pub memo: String,
}

/// The three-way outcome of trial-decrypting one encrypted note: readable as
/// its owner, readable as its spender, or belonging to neither key.
#[derive(Debug)]
pub enum TrialOutcome {
    AsOwner(NoteContents),
    AsSpender(NoteContents),
    NotOwned,
}

/// A decrypted note as the pipeline carries it onward: the note's tree
/// index, its owner address, value, asset and memo.
#[derive(Debug)]
#[allow(non_snake_case)]
pub struct TransactionReceiver {
    pub index: u64,
    pub address: String,
    pub value: u64,
    pub assetId: String,
    pub memo: String,
}

/// All decrypted notes of one sender, in the record's note order.
#[derive(Debug)]
pub struct SenderBucket {
    pub sender: String,
    pub notes: Vec<TransactionReceiver>,
}

/// A decrypted note, at the specification level.
#[verifier::ext_equal]
pub ghost struct ReceiverModel {
    pub index: u64,
    pub address: Seq<char>,
    pub value: u64,
    pub asset_id: Seq<char>,
    pub memo: Seq<char>,
}

/// One sender's bucket, at the specification level.
#[verifier::ext_equal]
pub ghost struct BucketModel {
    pub sender: Seq<char>,
    pub notes: Seq<ReceiverModel>,
}

pub open spec fn receiver_model(r: TransactionReceiver) -> ReceiverModel {
    ReceiverModel {
        index: r.index,
        address: r.address@,
        value: r.value,
        asset_id: r.assetId@,
        memo: r.memo@,
    }
}

pub open spec fn bucket_model(b: SenderBucket) -> BucketModel {
    BucketModel {
        sender: b.sender@,
        notes: b.notes@.map(|i: int, r: TransactionReceiver| receiver_model(r)),
    }
}

pub open spec fn groups_model(g: Seq<SenderBucket>) -> Seq<BucketModel> {
    g.map(|i: int, b: SenderBucket| bucket_model(b))
}

/// Classifies one note's trial decryption: decryption as the note's owner
/// (under the incoming view key) wins; only a note unreadable as owner
/// counts as read by its spender (under the outgoing view key); a note
/// readable as neither belongs to another wallet — an expected case, not an
/// error.
pub fn classify_trial(owner: Option<NoteContents>, spender: Option<NoteContents>) -> (r:
    TrialOutcome)
    ensures
        owner matches Some(c) ==> r == TrialOutcome::AsOwner(c),
        owner is None ==> (spender matches Some(c) ==> r == TrialOutcome::AsSpender(c)),
        owner is None && spender is None ==> r == TrialOutcome::NotOwned,
{
    match owner {
        Some(c) => TrialOutcome::AsOwner(c),
        None => match spender {
            Some(c) => TrialOutcome::AsSpender(c),
            None => TrialOutcome::NotOwned,
        },
    }
}

/// The contents a trial decryption yielded, if it yielded any.
pub open spec fn outcome_contents(o: TrialOutcome) -> Option<NoteContents> {
    match o {
        TrialOutcome::AsOwner(c) => Some(c),
        TrialOutcome::AsSpender(c) => Some(c),
        TrialOutcome::NotOwned => None,
    }
}

/// The decrypted note that contents `c` at tree index `index` turn into.
pub open spec fn spec_receiver(c: NoteContents, index: u64) -> ReceiverModel {
    ReceiverModel {
        index,
        address: c.owner@,
        value: c.value,
        asset_id: c.assetId@,
        memo: c.memo@,
    }
}

/// The first bucket keyed by `sender`, or `groups.len()` if there is none.
pub open spec fn spec_find(groups: Seq<BucketModel>, sender: Seq<char>) -> int
    decreases groups.len(),
{
    if groups.len() == 0 {
        0
    } else if groups[0].sender == sender {
        0
    } else {
        1 + spec_find(groups.drop_first(), sender)
    }
}

/// Appends `note` to the bucket of `sender`, opening a new bucket at the end
/// when that sender has none yet.
pub open spec fn spec_insert(groups: Seq<BucketModel>, sender: Seq<char>, note: ReceiverModel) -> Seq<
    BucketModel,
> {
    let j = spec_find(groups, sender);
    if j < groups.len() {
        groups.update(j, BucketModel { sender: groups[j].sender, notes: groups[j].notes.push(note) })
    } else {
        groups.push(BucketModel { sender, notes: seq![note] })
    }
}

/// The sender buckets that a sequence of trial outcomes folds into, with the
/// note at position `p` given tree index `base + p`.
pub open spec fn spec_grouped(outcomes: Seq<TrialOutcome>, base: int) -> Seq<BucketModel>
    decreases outcomes.len(),
{
    if outcomes.len() == 0 {
        Seq::empty()
    } else {
        let prev = spec_grouped(outcomes.drop_last(), base);
        match outcome_contents(outcomes.last()) {
            Some(c) => spec_insert(prev, c.sender@, spec_receiver(c, (base + outcomes.len() - 1) as u64)),
            None => prev,
        }
    }
}

proof fn lemma_find_bounds(groups: Seq<BucketModel>, sender: Seq<char>)
    ensures
        0 <= spec_find(groups, sender) <= groups.len(),
        spec_find(groups, sender) < groups.len() ==> groups[spec_find(groups, sender)].sender
            == sender,
    decreases groups.len(),
{
    if groups.len() == 0 {
    } else if groups[0].sender == sender {
    } else {
        lemma_find_bounds(groups.drop_first(), sender);
    }
}

/// Whether the note at `(sender, note)` in an aggregation over `outcomes`
/// stems from the trial outcome at position `p`: that outcome decrypted,
/// its contents carry the bucket's sender, and the note is those contents
/// at tree index `base + p`.
pub open spec fn note_traceable(
    outcomes: Seq<TrialOutcome>,
    base: int,
    sender: Seq<char>,
    note: ReceiverModel,
    p: int,
) -> bool {
    &&& 0 <= p < outcomes.len()
    &&& outcome_contents(outcomes[p]) matches Some(c) && note == spec_receiver(
        c,
        (base + p) as u64,
    ) && sender == c.sender@
}

/// Law: aggregation omits notes that belong to neither key. Every note in
/// the grouped result stems from an outcome that decrypted — as owner or as
/// spender — at that outcome's own position in the record; no bucket entry
/// derives from a `NotOwned` outcome.
pub proof fn lemma_aggregate_omits_unowned(outcomes: Seq<TrialOutcome>, base: int, i: int, j: int)
    requires
        0 <= i < spec_grouped(outcomes, base).len(),
        0 <= j < spec_grouped(outcomes, base)[i].notes.len(),
    ensures
        exists|p: int|
            #[trigger] note_traceable(
                outcomes,
                base,
                spec_grouped(outcomes, base)[i].sender,
                spec_grouped(outcomes, base)[i].notes[j],
                p,
            ),
    decreases outcomes.len(),
{
    let g = spec_grouped(outcomes, base);
    let prev = spec_grouped(outcomes.drop_last(), base);
    match outcome_contents(outcomes.last()) {
        Some(c) => {
            let sender = c.sender@;
            let note = spec_receiver(c, (base + outcomes.len() - 1) as u64);
            let j0 = spec_find(prev, sender);
            lemma_find_bounds(prev, sender);
            if j0 < prev.len() && i == j0 && j == prev[j0].notes.len() {
                // The note just joined this existing bucket.
                assert(note_traceable(outcomes, base, g[i].sender, g[i].notes[j], outcomes.len() - 1));
            } else if j0 == prev.len() && i == prev.len() {
                // The note opened this new bucket.
                assert(g[i].notes[j] == note && j == 0);
                assert(note_traceable(outcomes, base, g[i].sender, g[i].notes[j], outcomes.len() - 1));
            } else {
                // The entry was already there before this outcome.
                assert(g[i].sender == prev[i].sender && g[i].notes[j] == prev[i].notes[j]);
                lemma_aggregate_omits_unowned(outcomes.drop_last(), base, i, j);
                let p0 = choose|p: int|
                    #[trigger] note_traceable(
                        outcomes.drop_last(),
                        base,
                        prev[i].sender,
                        prev[i].notes[j],
                        p,
                    );
                assert(outcomes[p0] == outcomes.drop_last()[p0]);
                assert(note_traceable(outcomes, base, g[i].sender, g[i].notes[j], p0));
            }
        },
        None => {
            lemma_aggregate_omits_unowned(outcomes.drop_last(), base, i, j);
            let p0 = choose|p: int|
                #[trigger] note_traceable(
                    outcomes.drop_last(),
                    base,
                    prev[i].sender,
                    prev[i].notes[j],
                    p,
                );
            assert(outcomes[p0] == outcomes.drop_last()[p0]);
            assert(note_traceable(outcomes, base, g[i].sender, g[i].notes[j], p0));
        },
    }
}

proof fn lemma_find_from_scan(groups: Seq<BucketModel>, sender: Seq<char>, j: int)
    requires
        0 <= j <= groups.len(),
        forall|m: int| 0 <= m < j ==> (#[trigger] groups[m].sender) != sender,
        j < groups.len() ==> groups[j].sender == sender,
        j == groups.len() ==> (forall|m: int| 0 <= m < groups.len() ==> (#[trigger] groups[m].sender) != sender),
    ensures
        spec_find(groups, sender) == j,
    decreases j,
{
    if groups.len() == 0 {
    } else if groups[0].sender == sender {
    } else {
        assert(j >= 1);
        lemma_find_from_scan(groups.drop_first(), sender, j - 1);
    }
}

impl NoteContents {
    /// The decrypted note these contents become once their tree index is
    /// known.
    fn to_receiver(&self, index: u64) -> (r: TransactionReceiver)
        ensures
            receiver_model(r) == spec_receiver(*self, index),
    {
        TransactionReceiver {
            index,
            address: self.owner.clone(),
            value: self.value,
            assetId: self.assetId.clone(),
            memo: self.memo.clone(),
        }
    }
}

#[verifier::loop_isolation(false)]
fn insert_receiver(groups: &mut Vec<SenderBucket>, sender: &String, note: TransactionReceiver)
    ensures
        groups_model(final(groups)@) == spec_insert(
            groups_model(old(groups)@),
            sender@,
            receiver_model(note),
        ),
{
    let ghost gm = groups_model(groups@);
    let n: usize = groups.len();
    for i in 0..n
        invariant
            n == groups@.len(),
            gm == groups_model(groups@),
            forall|m: int| 0 <= m < i ==> (#[trigger] gm[m].sender) != sender@,
    {
        if groups[i].sender == *sender {
            proof {
                lemma_find_from_scan(gm, sender@, i as int);
            }
            let mut bucket = groups.remove(i);
            bucket.notes.push(note);
            groups.insert(i, bucket);
            proof {
                assert(groups_model(groups@) =~~= spec_insert(gm, sender@, receiver_model(note)));
            }
            return ;
        }
    }
    proof {
        lemma_find_from_scan(gm, sender@, n as int);
    }
    let fresh = SenderBucket { sender: sender.clone(), notes: vec![note] };
    groups.push(fresh);
    proof {
        assert(groups_model(groups@) =~~= spec_insert(gm, sender@, receiver_model(note)));
    }
}

/// Folds the trial outcomes of a transaction's notes, in declared order,
/// into sender-keyed buckets. `note_size` is the commitment tree size at the
/// transaction and `notes_count` the number of its notes; the note at
/// position `p` gets tree index `note_size - notes_count + p`. Outcomes that
/// belong to neither key are dropped, not recorded and not erred.
pub fn aggregate_decrypted(outcomes: &Vec<TrialOutcome>, note_size: u64, notes_count: u64) -> (r:
    Vec<SenderBucket>)
    requires
        notes_count == outcomes@.len(),
        notes_count <= note_size,
    ensures
        groups_model(r@) == spec_grouped(outcomes@, note_size - notes_count),
{
    let base: u64 = note_size - notes_count;
    let mut groups: Vec<SenderBucket> = Vec::new();
    let n: usize = outcomes.len();
    assert(groups_model(groups@) =~= spec_grouped(outcomes@.take(0), base as int));
    for p in 0..n
        invariant
            n == outcomes@.len(),
            notes_count == outcomes@.len(),
            base == note_size - notes_count,
            notes_count <= note_size,
            groups_model(groups@) == spec_grouped(outcomes@.take(p as int), base as int),
    {
        match &outcomes[p] {
            TrialOutcome::AsOwner(c) | TrialOutcome::AsSpender(c) => {
                let index: u64 = base + (p as u64);
                let sender = c.sender.clone();
                let rec = c.to_receiver(index);
                insert_receiver(&mut groups, &sender, rec);
            },
            TrialOutcome::NotOwned => {},
        }
        proof {
            assert(outcomes@.take(p + 1).drop_last() =~= outcomes@.take(p as int));
            assert(outcomes@.take(p + 1).last() == outcomes@[p as int]);
        }
    }
    proof {
        assert(outcomes@.take(n as int) =~= outcomes@);
    }
    groups
}

} // verus!
