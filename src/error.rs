use vstd::prelude::*;

verus! {

/// The typed failures that the wallet core reports; nothing is signalled
/// through ambient state.
#[derive(Debug, Clone, PartialEq, Eq)]
pub enum WalletError {
    /// Malformed or out-of-range input, rejected before any state changes.
    InvalidArgument,
    /// A key or address string does not decode, or belongs to another network.
    EncodingError,
    /// The cached chain does not continue the scanned one; the payload is the
    /// highest height at which a conflict was detected.
    ChainInvalid(u32),
    /// Scanning needs the block at this height and the cache lacks it.
    MissingBlock(u32),
    /// The wallet has not scanned any block yet.
    ScanRequired,
    /// The prover could not produce the proofs of a transaction.
    ProofGenerationFailed,
    /// No transparent output is eligible for shielding.
    NothingToShield,
    /// The selected inputs cannot cover the requested amount and the fee.
    InsufficientBalance,
    /// The operation is not offered for this kind of recipient.
    UnsupportedOperation,
    /// The persistence collaborator failed.
    StorageError,
    /// An invariant of the wallet state does not hold.
    Corruption,
}

/// Returns the value held by `exc`, or `def` when it holds an error.
pub fn unwrap_exc_or<T>(exc: Result<T, ()>, def: T) -> (r: T)
    ensures
        r == match exc {
            Ok(v) => v,
            Err(_) => def,
        },
{
    match exc {
        Ok(value) => value,
        Err(_) => def,
    }
}

} // verus!
