use vstd::prelude::*;
use crate::error::CounterError;

verus! {

/// Whether two addresses are the same, byte for byte.
pub fn keys_equal(a: &[u8; 32], b: &[u8; 32]) -> (r: bool)
    ensures
        r == (a@ == b@),
{
    let mut i: usize = 0;
    while i < 32
        invariant
            i <= 32,
            a@.len() == 32,
            b@.len() == 32,
            forall|j: int| 0 <= j < i ==> a@[j] == b@[j],
        decreases 32 - i,
    {
        if a[i] != b[i] {
            return false;
        }
        i = i + 1;
    }
    assert(a@ =~= b@);
    true
}

/// The program derived address that the search finds for three seeds under
/// `program`, when it finds one.
pub uninterp spec fn pda_of(first: Seq<u8>, second: Seq<u8>, third: Seq<u8>, program: Seq<u8>) -> Seq<u8>;

/// Relies on `pinocchio::pubkey::try_find_program_address`: it searches for a
/// bump seed that makes the seeds and program yield a valid derived address,
/// deterministically for given inputs. The search runs as a host call on the
/// chain's own target and returns `None` on every other target, so only an
/// address that was found is tied to its inputs.
#[verifier::external_body]
fn find_program_address(
    first: &[u8; 32],
    second: &[u8; 32],
    third: &[u8; 32],
    program: &[u8; 32],
) -> (r: Option<[u8; 32]>)
    ensures
        r matches Some(a) ==> a@ == pda_of(first@, second@, third@, program@),
{
    let seeds: [&[u8]; 3] = [&first[..], &second[..], &third[..]];
    pinocchio::pubkey::try_find_program_address(&seeds, program).map(|found| found.0)
}

/// Derives associated token account addresses for a given pair of token
/// programs, whose identities are supplied rather than compiled in.
#[derive(Debug, Clone, Copy)]
pub struct AtaCreator {
    pub token_program: [u8; 32],
    pub associated_token_program: [u8; 32],
}

/// The outcome of checking a candidate address against a derivation result.
pub open spec fn ata_check(found: Option<[u8; 32]>, candidate: [u8; 32]) -> Result<(), CounterError> {
    match found {
        None => Err(CounterError::DerivationExhausted),
        Some(a) => if a@ == candidate@ {
            Ok(())
        } else {
            Err(CounterError::AddressMismatch)
        },
    }
}

/// Checks a candidate address against the result of a derivation: a failed
/// derivation is `DerivationExhausted`, a different address `AddressMismatch`.
pub fn check_ata(found: Option<[u8; 32]>, candidate: &[u8; 32]) -> (r: Result<(), CounterError>)
    ensures
        r == ata_check(found, *candidate),
{
    match found {
        None => Err(CounterError::DerivationExhausted),
        Some(a) => if keys_equal(&a, candidate) {
            Ok(())
        } else {
            Err(CounterError::AddressMismatch)
        },
    }
}

/// The associated token account of `wallet` for `mint`: the address derived
/// from the seeds (wallet, token program, mint) under the associated token
/// program.
pub open spec fn ata_of(creator: AtaCreator, wallet: [u8; 32], mint: [u8; 32]) -> Seq<u8> {
    pda_of(wallet@, creator.token_program@, mint@, creator.associated_token_program@)
}

impl AtaCreator {
    /// Derives the associated token account of `wallet` for `mint`, from the
    /// seeds (wallet, token program, mint) under the associated token program.
    pub fn derive_ata(&self, wallet: &[u8; 32], mint: &[u8; 32]) -> (r: Result<[u8; 32], CounterError>)
        ensures
            r.is_err() ==> r == Err::<[u8; 32], CounterError>(CounterError::DerivationExhausted),
            r matches Ok(a) ==> a@ == ata_of(*self, *wallet, *mint),
    {
        match find_program_address(wallet, &self.token_program, mint, &self.associated_token_program) {
            Some(a) => Ok(a),
            None => Err(CounterError::DerivationExhausted),
        }
    }

    /// Checks that `candidate` is the associated token account of `wallet`
    /// for `mint`.
    pub fn verify_ata(&self, wallet: &[u8; 32], mint: &[u8; 32], candidate: &[u8; 32]) -> (r: Result<(), CounterError>)
        ensures
            r == Ok::<(), CounterError>(()) ==> candidate@ == ata_of(*self, *wallet, *mint),
            r == Err::<(), CounterError>(CounterError::AddressMismatch) ==> candidate@ != ata_of(
                *self,
                *wallet,
                *mint,
            ),
            r == Ok::<(), CounterError>(()) || r == Err::<(), CounterError>(CounterError::AddressMismatch) || r
                == Err::<(), CounterError>(CounterError::DerivationExhausted),
    {
        let found = find_program_address(wallet, &self.token_program, mint, &self.associated_token_program);
        check_ata(found, candidate)
    }
}

/// Derivation is idempotent: two addresses that were derived for the same
/// wallet and mint by the same creator are the same address.
pub proof fn lemma_derivation_idempotent(
    creator: AtaCreator,
    wallet: [u8; 32],
    mint: [u8; 32],
    first: [u8; 32],
    second: [u8; 32],
)
    requires
        first@ == ata_of(creator, wallet, mint),
        second@ == ata_of(creator, wallet, mint),
    ensures
        first@ == second@,
{
}

} // verus!
