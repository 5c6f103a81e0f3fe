use vstd::prelude::*;

verus! {

/// Why an instruction buffer could not be decoded.
#[derive(Debug, Clone, Copy, PartialEq, Eq, Structural)]
pub enum DecodeError {
    /// The buffer holds no bytes at all.
    Empty,
    /// The first byte names no known instruction.
    UnknownTag,
    /// The payload after the tag has the wrong length for that tag.
    MalformedPayload,
}

/// Every way in which processing an instruction can fail.
#[derive(Debug, Clone, Copy, PartialEq, Eq, Structural)]
pub enum CounterError {
    /// The instruction buffer was malformed.
    Decode(DecodeError),
    /// Fewer accounts were supplied than the instruction needs.
    MissingAccount,
    /// The counter account is owned by another program.
    IncorrectOwner,
    /// An account lacks a signer or writable flag that its role needs.
    MissingPrivilege,
    /// The counter account's data is not exactly one encoded counter.
    CorruptState,
    /// Incrementing would exceed the largest `u64`.
    CounterOverflow,
    /// A supplied account is not the associated address that was derived.
    AddressMismatch,
    /// No derived address could be found for the given seeds.
    DerivationExhausted,
    /// A sub-invocation of another program failed with this code.
    InvocationFailed(u64),
}

} // verus!
