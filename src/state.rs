use vstd::prelude::*;
use crate::bytes::{le_bytes, le_value, u64_from_bytes, u64_to_bytes};
use crate::error::CounterError;

verus! {

/// Number of bytes that an encoded counter occupies in an account's data.
pub const COUNTER_SPACE: usize = 8;

/// The typed payload of a counter account.
#[derive(Debug, Clone, Copy, PartialEq, Eq, Structural)]
pub struct CounterAccount {
    pub count: u64,
}

/// What an account's data decodes to: exactly eight little-endian bytes
/// hold a counter, anything else is corrupt.
pub open spec fn counter_of(data: Seq<u8>) -> Result<CounterAccount, CounterError> {
    if data.len() == COUNTER_SPACE {
        Ok(CounterAccount { count: le_value(data) as u64 })
    } else {
        Err(CounterError::CorruptState)
    }
}

/// The stored form of a counter.
pub open spec fn counter_bytes(c: CounterAccount) -> Seq<u8> {
    le_bytes(c.count as nat, 8)
}

impl CounterAccount {
    /// Decodes a counter from an account's data.
    pub fn try_from_slice(data: &[u8]) -> (r: Result<CounterAccount, CounterError>)
        ensures
            r == counter_of(data@),
    {
        match u64_from_bytes(data) {
            Some(count) => Ok(CounterAccount { count }),
            None => Err(CounterError::CorruptState),
        }
    }

    /// Encodes the counter into the bytes stored in an account.
    pub fn serialize(&self) -> (r: Vec<u8>)
        ensures
            r@ == counter_bytes(*self),
    {
        u64_to_bytes(self.count)
    }
}

/// A stored counter reads back as itself.
pub proof fn lemma_counter_round_trip(c: CounterAccount)
    ensures
        counter_of(counter_bytes(c)) == Ok::<CounterAccount, CounterError>(c),
{
    crate::bytes::lemma_u64_bytes_round_trip(c.count);
}

} // verus!
