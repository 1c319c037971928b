use vstd::prelude::*;

verus! {

/// Why a ledger operation was refused. A refused operation leaves the ledger
/// exactly as it was.
#[derive(Clone, Copy, Debug, PartialEq, Eq, Structural)]
pub enum LedgerError {
    /// The secret does not decode to a keypair.
    InvalidKey,
    /// The sender holds less than the amount to send, or is not known at all.
    InsufficientBalance,
    /// The amount is zero, is not a decimal number, or is more than the
    /// ledger can hold.
    InvalidAmount,
    /// The keypair provider could not produce a fresh wallet.
    KeyProvider,
}

} // verus!
