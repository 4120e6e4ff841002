//! Witness assembly: turning a remote witness record — tree size, root hash,
//! ordered sibling path — into the authentication-path structure that the
//! proving collaborator consumes. Assembly is a pure, order-preserving
//! transform; a sibling or root hash that is not 32 hex-encoded bytes makes
//! the whole witness unusable.

use vstd::prelude::*;

use crate::abi::{AuthPath, NoteWitness};
use crate::errors::PipelineError;
use crate::hexcode::{bytes_of_hex, hex_decode, is_hex_string};

verus! {

/// Which side of its parent a sibling hash sits on.
#[derive(Clone, Copy, Debug, PartialEq, Eq, Structural)]
pub enum Side {
    Left,
    Right,
}

/// One assembled step of an authentication path: the sibling's side and its
/// 32 raw hash bytes.
#[derive(Debug)]
pub struct PathStep {
    pub side: Side,
    pub sibling: Vec<u8>,
}

/// A fully assembled witness, ready to be handed to the proving
/// collaborator together with the note it authenticates.
#[derive(Debug)]
pub struct SpendWitness {
    pub tree_size: u64,
    pub root_hash: Vec<u8>,
    pub path: Vec<PathStep>,
}

/// What one wire path entry says: its sidedness tag and its hex-encoded
/// sibling hash.
pub ghost struct StepView {
    pub side: Seq<char>,
    pub sibling_hex: Seq<char>,
}

/// What a wire witness record says, with every string taken as its character
/// sequence.
pub ghost struct RecordView {
    pub tree_size: u64,
    pub root_hash_hex: Seq<char>,
    pub steps: Seq<StepView>,
}

/// An assembled step, at the specification level.
pub ghost struct StepModel {
    pub side: Side,
    pub sibling: Seq<u8>,
}

/// An assembled witness, at the specification level.
pub ghost struct WitnessModel {
    pub tree_size: u64,
    pub root_hash: Seq<u8>,
    pub path: Seq<StepModel>,
}

pub open spec fn step_view(a: AuthPath) -> StepView {
    StepView { side: a.side@, sibling_hex: a.hashOfSibling@ }
}

pub open spec fn record_view(w: NoteWitness) -> RecordView {
    RecordView {
        tree_size: w.treeSize,
        root_hash_hex: w.rootHash@,
        steps: w.authPath@.map(|i: int, a: AuthPath| step_view(a)),
    }
}

pub open spec fn step_model(s: PathStep) -> StepModel {
    StepModel { side: s.side, sibling: s.sibling@ }
}

pub open spec fn witness_model(w: SpendWitness) -> WitnessModel {
    WitnessModel {
        tree_size: w.tree_size,
        root_hash: w.root_hash@,
        path: w.path@.map(|i: int, s: PathStep| step_model(s)),
    }
}

/// Whether a hex string stands for exactly 32 bytes — the width of a tree
/// hash, and the only sibling or root encoding a witness may carry.
pub open spec fn hash_ok(hex: Seq<char>) -> bool {
    is_hex_string(hex) && bytes_of_hex(hex).len() == 32
}

/// The sidedness an assembled step gets: the tag `"Left"` maps to
/// [`Side::Left`], any other tag to [`Side::Right`].
pub open spec fn side_of(tag: Seq<char>) -> Side {
    if tag == "Left"@ {
        Side::Left
    } else {
        Side::Right
    }
}

/// The step a wire entry assembles to, for an entry whose sibling hash is
/// well-formed.
pub open spec fn assembled_step(sv: StepView) -> StepModel
    recommends
        hash_ok(sv.sibling_hex),
{
    StepModel { side: side_of(sv.side), sibling: bytes_of_hex(sv.sibling_hex) }
}

/// Whether a witness record can be assembled at all: its root hash and every
/// sibling hash decode to 32 bytes.
pub open spec fn record_ok(rv: RecordView) -> bool {
    hash_ok(rv.root_hash_hex) && (forall|i: int|
        0 <= i < rv.steps.len() ==> hash_ok(#[trigger] rv.steps[i].sibling_hex))
}

/// The witness a well-formed record assembles to: the same tree size, the
/// decoded root, and the decoded path steps in the record's own order.
pub open spec fn assembled_of(rv: RecordView) -> WitnessModel
    recommends
        record_ok(rv),
{
    WitnessModel {
        tree_size: rv.tree_size,
        root_hash: bytes_of_hex(rv.root_hash_hex),
        path: Seq::new(rv.steps.len(), |i: int| assembled_step(rv.steps[i])),
    }
}

/// Whether `s` spells the sidedness tag `"Left"`.
fn side_is_left(s: &str) -> (r: bool)
    ensures
        r == (s@ == "Left"@),
{
    proof {
        reveal_strlit("Left");
    }
    let n: usize = s.unicode_len();
    if n != 4 {
        return false;
    }
    let r = s.get_char(0) == 'L' && s.get_char(1) == 'e' && s.get_char(2) == 'f' && s.get_char(3)
        == 't';
    proof {
        if r {
            assert(s@ =~= "Left"@);
        }
    }
    r
}

/// Assembles a witness record into the authentication path the proving
/// collaborator needs. Fails — and the enclosing spend must abort — when the
/// root hash or any sibling hash is not exactly 32 hex-encoded bytes; no
/// step is ever silently dropped.
pub fn assemble_witness(w: &NoteWitness) -> (r: Result<SpendWitness, PipelineError>)
    ensures
        r is Ok <==> record_ok(record_view(*w)),
        r matches Ok(sw) ==> witness_model(sw) == assembled_of(record_view(*w)),
        r matches Err(e) ==> e == PipelineError::MalformedInput,
{
    let ghost rv = record_view(*w);
    let root = match hex_decode(w.rootHash.as_str()) {
        Some(b) => b,
        None => {
            return Err(PipelineError::MalformedInput);
        },
    };
    if root.len() != 32 {
        return Err(PipelineError::MalformedInput);
    }
    let mut path: Vec<PathStep> = Vec::new();
    let n: usize = w.authPath.len();
    for i in 0..n
        invariant
            n == w.authPath@.len(),
            rv == record_view(*w),
            path@.len() == i,
            forall|k: int| 0 <= k < i ==> hash_ok(#[trigger] rv.steps[k].sibling_hex),
            forall|k: int|
                0 <= k < i ==> step_model(#[trigger] path@[k]) == assembled_step(rv.steps[k]),
            hash_ok(rv.root_hash_hex),
    {
        let entry = &w.authPath[i];
        assert(rv.steps[i as int] == step_view(*entry));
        let sibling = match hex_decode(entry.hashOfSibling.as_str()) {
            Some(b) => b,
            None => {
                assert(!hash_ok(rv.steps[i as int].sibling_hex));
                return Err(PipelineError::MalformedInput);
            },
        };
        if sibling.len() != 32 {
            assert(!hash_ok(rv.steps[i as int].sibling_hex));
            return Err(PipelineError::MalformedInput);
        }
        let side = if side_is_left(entry.side.as_str()) {
            Side::Left
        } else {
            Side::Right
        };
        path.push(PathStep { side, sibling });
    }
    let sw = SpendWitness { tree_size: w.treeSize, root_hash: root, path };
    proof {
        assert(witness_model(sw).path =~= assembled_of(rv).path);
    }
    Ok(sw)
}

/// Law: assembly is deterministic — two records that say the same thing
/// assemble to the same witness, so assembling one record twice yields
/// identical authentication paths.
pub proof fn lemma_assemble_deterministic(w1: NoteWitness, w2: NoteWitness)
    requires
        record_view(w1) == record_view(w2),
    ensures
        record_ok(record_view(w1)) == record_ok(record_view(w2)),
        record_ok(record_view(w1)) ==> assembled_of(record_view(w1)) == assembled_of(
            record_view(w2),
        ),
{
}

/// Law: assembly preserves order and hides no sorting — step `i` of the
/// assembled path is exactly the assembly of entry `i` of the record, so
/// permuting the record's sibling list permutes the result the same way.
pub proof fn lemma_assemble_pointwise(rv: RecordView)
    requires
        record_ok(rv),
    ensures
        assembled_of(rv).path.len() == rv.steps.len(),
        forall|i: int|
            0 <= i < rv.steps.len() ==> assembled_of(rv).path[i] == assembled_step(
                #[trigger] rv.steps[i],
            ),
{
}

} // verus!
