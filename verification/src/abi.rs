//! Wire-facing records: the shapes in which the ledger node reports a
//! transaction, a note witness, the chain tip and a broadcast outcome.
//! Field names follow the remote services' JSON so that values round-trip
//! unchanged; the unverified rim owns the actual (de)serialization and hands
//! these plain values in.

use vstd::prelude::*;

verus! {

/// A mint or burn entry of a transaction, as reported by the node.
#[allow(non_snake_case)]
#[derive(Debug)]
pub struct Asset {
    pub assetId: String,
    pub value: String,
}

/// A ledger transaction's header and its encrypted note blobs.
#[allow(non_snake_case)]
#[derive(Debug)]
pub struct RpcTransaction {
    pub fee: String,
    pub expiration: u64,
    pub noteSize: u64,
    pub notesCount: u64,
    pub spendsCount: u64,
    pub signature: String,
    pub notesEncrypted: Vec<String>,
    pub mints: Vec<Asset>,
    pub burns: Vec<Asset>,
}

/// One step of a witness's authentication path on the wire: a sidedness tag
/// (`"Left"` or `"Right"`) and the hex-encoded sibling hash.
#[allow(non_snake_case)]
#[derive(Debug)]
pub struct AuthPath {
    pub side: String,
    pub hashOfSibling: String,
}

/// A note's witness as reported by the node: the commitment tree size at
/// capture time, the resulting root hash, and the ordered authentication
/// path from leaf to root.
#[allow(non_snake_case)]
#[derive(Debug)]
pub struct NoteWitness {
    pub treeSize: u64,
    pub rootHash: String,
    pub authPath: Vec<AuthPath>,
}

/// The node's reply to a broadcast submission.
#[derive(Debug)]
pub struct BroadcastTransactionResponse {
    pub hash: String,
}

/// The chain tip as reported by the node.
#[derive(Debug)]
pub struct BlockIdentifier {
    pub index: String,
    pub hash: String,
}

/// Envelope of the chain-info reply.
#[allow(non_snake_case)]
#[derive(Debug)]
pub struct ChainInfo {
    pub currentBlockIdentifier: BlockIdentifier,
}

/// Envelope that the node wraps every RPC reply in.
#[derive(Debug)]
pub struct RpcResponse<T> {
    pub status: u16,
    pub data: T,
}

} // verus!
