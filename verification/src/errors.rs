use vstd::prelude::*;

verus! {

/// Typed failures of the pricing engine and the pool state machine.
///
/// Every error is fail-fast: an operation that returns one of these has made
/// no partial update to any pool state.
#[derive(Clone, Copy, Debug, PartialEq, Eq, Structural)]
pub enum SipzyError {
    /// An identifier exceeds its maximum length of 32 characters.
    IdentifierTooLong,
    /// A display name exceeds its maximum length of 64 characters.
    NameTooLong,
    /// A metadata URI exceeds its maximum length of 200 characters.
    MetadataUriTooLong,
    /// A trade amount of zero was requested.
    InvalidAmount,
    /// A checked arithmetic step (addition, multiplication, subtraction or
    /// narrowing) exceeded its integer range.
    Overflow,
    /// A sell amount exceeds the circulating supply.
    InsufficientSupply,
    /// The pool's held reserve cannot cover a sell's combined refund and fee.
    InsufficientReserve,
    /// A supplied fee-recipient identity does not match the pool's stored
    /// creator wallet.
    InvalidCreatorWallet,
    /// Trading was attempted while the pool is inactive.
    PoolInactive,
    /// A management operation was attempted by a non-creator identity.
    Unauthorized,
}

} // verus!
