//! Failure taxonomy of the pipeline. Every fatal condition is one variant;
//! a note that simply does not belong to the wallet is not an error and has
//! no variant here.

use vstd::prelude::*;

verus! {

/// A fatal condition that aborts the current pipeline invocation.
#[derive(Clone, Copy, Debug, PartialEq, Eq, Structural)]
pub enum PipelineError {
    /// A blob could not be decoded from hex, or failed structural parsing.
    MalformedInput,
    /// The remote fetch of a transaction, witness or chain height failed.
    TransactionUnavailable,
    /// No decrypted note of this transaction is owned by the wallet address.
    NotAReceiver,
    /// The owned notes cannot cover the requested amount plus the fee.
    InsufficientBalance,
    /// The scaled send amount exceeds the representable wire range.
    AmountOverflow,
    /// The cryptography collaborator rejected the builder inputs, or the
    /// finalized transaction failed self-verification.
    ProofOrSignatureFailure,
}

} // verus!
