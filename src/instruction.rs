use vstd::prelude::*;
use crate::bytes::{le_bytes, le_value, lemma_u64_bytes_round_trip, u64_from_le, u64_to_bytes};
use crate::error::DecodeError;

verus! {

/// Tag byte of `InitializeCounter` on the wire.
pub const TAG_INITIALIZE: u8 = 0;

/// Tag byte of `IncrementCounter` on the wire.
pub const TAG_INCREMENT: u8 = 1;

/// An instruction to the counter program.
#[derive(Debug, Clone, Copy, PartialEq, Eq, Structural)]
pub enum CounterInstruction {
    /// Create the counter account and store `initial_value` in it.
    InitializeCounter { initial_value: u64 },
    /// Add one to the stored counter.
    IncrementCounter,
}

/// What a wire buffer decodes to: a tag byte, then for `InitializeCounter`
/// exactly eight little-endian bytes of the initial value, and for
/// `IncrementCounter` nothing.
pub open spec fn decode_spec(b: Seq<u8>) -> Result<CounterInstruction, DecodeError> {
    if b.len() == 0 {
        Err(DecodeError::Empty)
    } else if b[0] == TAG_INITIALIZE {
        if b.len() == 9 {
            Ok(CounterInstruction::InitializeCounter { initial_value: le_value(b.subrange(1, 9)) as u64 })
        } else {
            Err(DecodeError::MalformedPayload)
        }
    } else if b[0] == TAG_INCREMENT {
        if b.len() == 1 {
            Ok(CounterInstruction::IncrementCounter)
        } else {
            Err(DecodeError::MalformedPayload)
        }
    } else {
        Err(DecodeError::UnknownTag)
    }
}

/// The wire form of an instruction.
pub open spec fn encode_spec(x: CounterInstruction) -> Seq<u8> {
    match x {
        CounterInstruction::InitializeCounter { initial_value } => seq![TAG_INITIALIZE]
            + le_bytes(initial_value as nat, 8),
        CounterInstruction::IncrementCounter => seq![TAG_INCREMENT],
    }
}

impl CounterInstruction {
    /// Decodes an instruction from its wire form.
    pub fn unpack(input: &[u8]) -> (r: Result<CounterInstruction, DecodeError>)
        ensures
            r == decode_spec(input@),
    {
        if input.len() == 0 {
            return Err(DecodeError::Empty);
        }
        let tag = input[0];
        let rest = &input[1..input.len()];
        assert(rest@ == input@.subrange(1, input@.len() as int));
        if tag == TAG_INITIALIZE {
            if rest.len() == 8 {
                Ok(CounterInstruction::InitializeCounter { initial_value: u64_from_le(rest) })
            } else {
                Err(DecodeError::MalformedPayload)
            }
        } else if tag == TAG_INCREMENT {
            if rest.len() == 0 {
                Ok(CounterInstruction::IncrementCounter)
            } else {
                Err(DecodeError::MalformedPayload)
            }
        } else {
            Err(DecodeError::UnknownTag)
        }
    }

    /// Encodes an instruction into its wire form.
    pub fn pack(&self) -> (r: Vec<u8>)
        ensures
            r@ == encode_spec(*self),
    {
        match self {
            CounterInstruction::InitializeCounter { initial_value } => {
                let mut out: Vec<u8> = Vec::new();
                out.push(TAG_INITIALIZE);
                let mut payload = u64_to_bytes(*initial_value);
                out.append(&mut payload);
                out
            },
            CounterInstruction::IncrementCounter => {
                let mut out: Vec<u8> = Vec::new();
                out.push(TAG_INCREMENT);
                out
            },
        }
    }
}

/// Decoding rejects an empty buffer, a tag other than the two known ones,
/// and a payload whose length does not match its tag exactly, each with its
/// own error.
pub proof fn lemma_decode_rejects(b: Seq<u8>)
    ensures
        b.len() == 0 ==> decode_spec(b) == Err::<CounterInstruction, DecodeError>(DecodeError::Empty),
        b.len() > 0 && b[0] != TAG_INITIALIZE && b[0] != TAG_INCREMENT ==> decode_spec(b) == Err::<
            CounterInstruction,
            DecodeError,
        >(DecodeError::UnknownTag),
        b.len() > 0 && b[0] == TAG_INITIALIZE && b.len() != 9 ==> decode_spec(b) == Err::<
            CounterInstruction,
            DecodeError,
        >(DecodeError::MalformedPayload),
        b.len() > 0 && b[0] == TAG_INCREMENT && b.len() != 1 ==> decode_spec(b) == Err::<
            CounterInstruction,
            DecodeError,
        >(DecodeError::MalformedPayload),
{
}

/// Decoding the wire form of any instruction gives that instruction back.
pub proof fn lemma_decode_encode(x: CounterInstruction)
    ensures
        decode_spec(encode_spec(x)) == Ok::<CounterInstruction, DecodeError>(x),
{
    match x {
        CounterInstruction::InitializeCounter { initial_value } => {
            lemma_u64_bytes_round_trip(initial_value);
            let b = encode_spec(x);
            assert(b.subrange(1, 9) =~= le_bytes(initial_value as nat, 8));
        },
        CounterInstruction::IncrementCounter => {},
    }
}

} // verus!
