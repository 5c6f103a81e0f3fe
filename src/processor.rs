use vstd::prelude::*;
use crate::address::{ata_of, keys_equal, AtaCreator};
use crate::bytes::le_value;
use crate::error::{CounterError, DecodeError};
use crate::instruction::{decode_spec, CounterInstruction};
use crate::state::{counter_bytes, CounterAccount, COUNTER_SPACE};

verus! {

/// An account as the host supplies it for one invocation.
#[derive(Debug)]
pub struct Slot {
    pub key: [u8; 32],
    pub owner: [u8; 32],
    pub is_signer: bool,
    pub is_writable: bool,
    pub lamports: u64,
    pub data: Vec<u8>,
}

/// One account of an outbound instruction, with the flags the callee needs.
#[derive(Debug, Clone, Copy)]
pub struct AccountMeta {
    pub key: [u8; 32],
    pub is_writable: bool,
    pub is_signer: bool,
}

/// An instruction addressed to another program.
#[derive(Debug)]
pub struct OutboundInstruction {
    pub program_id: [u8; 32],
    pub accounts: Vec<AccountMeta>,
    pub data: Vec<u8>,
}

/// What the host is to do after a step of processing succeeded.
#[derive(Debug)]
pub enum Step {
    /// The instruction is complete; the counter now holds `count`.
    Finished { count: u64 },
    /// Invoke `instruction` with the supplied accounts at `participants`,
    /// then complete initialization with `initial_value`; `associated_address`
    /// is the wallet's associated token account for the mint.
    Invoke {
        instruction: OutboundInstruction,
        participants: Vec<usize>,
        initial_value: u64,
        associated_address: [u8; 32],
    },
}

/// Position of the counter account among the supplied accounts.
pub const COUNTER_INDEX: usize = 0;
/// Position of the token mint account when initializing.
pub const MINT_INDEX: usize = 1;
/// Position of the wallet account when initializing.
pub const WALLET_INDEX: usize = 2;
/// Position of the payer account when initializing.
pub const PAYER_INDEX: usize = 3;
/// Position of the system program account when initializing.
pub const SYSTEM_INDEX: usize = 4;
/// Number of accounts that initialization needs.
pub const INITIALIZE_ACCOUNTS: usize = 5;

/// `b` is `a` with, at most, other data.
pub open spec fn same_but_data(a: Slot, b: Slot) -> bool {
    &&& a.key == b.key
    &&& a.owner == b.owner
    &&& a.is_signer == b.is_signer
    &&& a.is_writable == b.is_writable
    &&& a.lamports == b.lamports
}

/// `after` is `before` with the counter account's data replaced by `data`.
pub open spec fn counter_written(before: Seq<Slot>, after: Seq<Slot>, data: Seq<u8>) -> bool {
    &&& before.len() > 0
    &&& after.len() == before.len()
    &&& same_but_data(before[0], after[0])
    &&& after[0].data@ == data
    &&& forall|i: int| 0 < i < after.len() ==> after[i] == before[i]
}

/// The outcome of an increment on the supplied accounts: the counter account
/// must be present, owned by the executing program, and hold one encoded
/// counter below the largest `u64`.
pub open spec fn increment_spec(program_id: [u8; 32], accounts: Seq<Slot>) -> Result<u64, CounterError> {
    if accounts.len() == 0 {
        Err(CounterError::MissingAccount)
    } else if accounts[0].owner@ != program_id@ {
        Err(CounterError::IncorrectOwner)
    } else if accounts[0].data@.len() != COUNTER_SPACE {
        Err(CounterError::CorruptState)
    } else if le_value(accounts[0].data@) >= u64::MAX {
        Err(CounterError::CounterOverflow)
    } else {
        Ok((le_value(accounts[0].data@) + 1) as u64)
    }
}

/// The account checks of initialization: five accounts, and a payer that
/// signs and may be written.
pub open spec fn initialize_check(accounts: Seq<Slot>) -> Result<(), CounterError> {
    if accounts.len() < INITIALIZE_ACCOUNTS {
        Err(CounterError::MissingAccount)
    } else if !accounts[PAYER_INDEX as int].is_signer || !accounts[PAYER_INDEX as int].is_writable {
        Err(CounterError::MissingPrivilege)
    } else {
        Ok(())
    }
}

/// `m` names `key` with the given flags.
pub open spec fn meta_is(m: AccountMeta, key: [u8; 32], is_writable: bool, is_signer: bool) -> bool {
    m.key == key && m.is_writable == is_writable && m.is_signer == is_signer
}

/// `step` asks the system program to create the counter account, funded by
/// the wallet and payer, before storing `initial_value`, and carries the
/// associated address `ata`.
pub open spec fn is_create_step(step: Step, accounts: Seq<Slot>, initial_value: u64, ata: Seq<u8>) -> bool {
    match step {
        Step::Invoke { instruction, participants, initial_value: v, associated_address } => {
            &&& v == initial_value
            &&& associated_address@ == ata
            &&& instruction.program_id == accounts[SYSTEM_INDEX as int].key
            &&& instruction.data@.len() == 0
            &&& instruction.accounts@.len() == 4
            &&& meta_is(instruction.accounts@[0], accounts[COUNTER_INDEX as int].key, true, false)
            &&& meta_is(instruction.accounts@[1], accounts[WALLET_INDEX as int].key, true, false)
            &&& meta_is(instruction.accounts@[2], accounts[PAYER_INDEX as int].key, true, false)
            &&& meta_is(instruction.accounts@[3], accounts[SYSTEM_INDEX as int].key, false, false)
            &&& participants@ == seq![COUNTER_INDEX, WALLET_INDEX, PAYER_INDEX, SYSTEM_INDEX]
        },
        Step::Finished { .. } => false,
    }
}

/// The associated address that a creation step carries.
pub open spec fn step_address(step: Step) -> Seq<u8> {
    match step {
        Step::Invoke { associated_address, .. } => associated_address@,
        Step::Finished { .. } => Seq::empty(),
    }
}

/// Replaces the counter account's data with the stored form of `count`.
fn store_counter(accounts: &mut Vec<Slot>, count: u64)
    requires
        old(accounts)@.len() > 0,
    ensures
        counter_written(old(accounts)@, final(accounts)@, counter_bytes(CounterAccount { count })),
{
    let data = CounterAccount { count }.serialize();
    let updated = Slot {
        key: accounts[0].key,
        owner: accounts[0].owner,
        is_signer: accounts[0].is_signer,
        is_writable: accounts[0].is_writable,
        lamports: accounts[0].lamports,
        data,
    };
    accounts.set(0, updated);
}

/// Adds one to the counter held by the first account.
pub fn process_increment_counter(program_id: &[u8; 32], accounts: &mut Vec<Slot>) -> (r: Result<u64, CounterError>)
    ensures
        r == increment_spec(*program_id, old(accounts)@),
        r.is_err() ==> final(accounts)@ == old(accounts)@,
        old(accounts)@.len() > 0 && old(accounts)@[0].owner@ != program_id@ ==> r == Err::<u64, CounterError>(
            CounterError::IncorrectOwner,
        ) && final(accounts)@ == old(accounts)@,
        old(accounts)@.len() > 0 && old(accounts)@[0].owner@ == program_id@ && old(accounts)@[0].data@.len()
            != COUNTER_SPACE ==> r == Err::<u64, CounterError>(CounterError::CorruptState) && final(accounts)@
            == old(accounts)@,
        old(accounts)@.len() > 0 && old(accounts)@[0].owner@ == program_id@ && old(accounts)@[0].data@
            == counter_bytes(CounterAccount { count: u64::MAX }) ==> r == Err::<u64, CounterError>(
            CounterError::CounterOverflow,
        ) && final(accounts)@ == old(accounts)@,
        r.is_ok() ==> counter_written(
            old(accounts)@,
            final(accounts)@,
            counter_bytes(CounterAccount { count: r.unwrap() }),
        ),
{
    proof {
        crate::bytes::lemma_u64_bytes_round_trip(u64::MAX);
    }
    if accounts.len() == 0 {
        return Err(CounterError::MissingAccount);
    }
    if !keys_equal(&accounts[0].owner, program_id) {
        return Err(CounterError::IncorrectOwner);
    }
    let counter = match CounterAccount::try_from_slice(accounts[0].data.as_slice()) {
        Ok(c) => c,
        Err(e) => return Err(e),
    };
    proof {
        crate::bytes::lemma_le_value_fits_u64(accounts@[0].data@);
    }
    let count = match counter.count.checked_add(1) {
        Some(n) => n,
        None => return Err(CounterError::CounterOverflow),
    };
    store_counter(accounts, count);
    Ok(count)
}

/// Validates the accounts of an initialization and, given the derived
/// associated address (or the reason none was found), plans the
/// sub-invocation that creates the counter account.
pub fn begin_initialize(
    accounts: &Vec<Slot>,
    initial_value: u64,
    derived: Result<[u8; 32], CounterError>,
) -> (r: Result<Step, CounterError>)
    ensures
        initialize_check(accounts@).is_err() ==> r == Err::<Step, CounterError>(
            initialize_check(accounts@)->Err_0,
        ),
        initialize_check(accounts@).is_ok() && derived.is_err() ==> r == Err::<Step, CounterError>(
            derived->Err_0,
        ),
        initialize_check(accounts@).is_ok() && derived.is_ok() ==> r.is_ok() && is_create_step(
            r.unwrap(),
            accounts@,
            initial_value,
            derived->Ok_0@,
        ),
{
    if accounts.len() < INITIALIZE_ACCOUNTS {
        return Err(CounterError::MissingAccount);
    }
    if !accounts[PAYER_INDEX].is_signer || !accounts[PAYER_INDEX].is_writable {
        return Err(CounterError::MissingPrivilege);
    }
    let associated_address = match derived {
        Ok(a) => a,
        Err(e) => return Err(e),
    };
    let mut metas: Vec<AccountMeta> = Vec::new();
    metas.push(AccountMeta { key: accounts[COUNTER_INDEX].key, is_writable: true, is_signer: false });
    metas.push(AccountMeta { key: accounts[WALLET_INDEX].key, is_writable: true, is_signer: false });
    metas.push(AccountMeta { key: accounts[PAYER_INDEX].key, is_writable: true, is_signer: false });
    metas.push(AccountMeta { key: accounts[SYSTEM_INDEX].key, is_writable: false, is_signer: false });
    let mut participants: Vec<usize> = Vec::new();
    participants.push(COUNTER_INDEX);
    participants.push(WALLET_INDEX);
    participants.push(PAYER_INDEX);
    participants.push(SYSTEM_INDEX);
    let instruction = OutboundInstruction {
        program_id: accounts[SYSTEM_INDEX].key,
        accounts: metas,
        data: Vec::new(),
    };
    assert(participants@ =~= seq![COUNTER_INDEX, WALLET_INDEX, PAYER_INDEX, SYSTEM_INDEX]);
    Ok(Step::Invoke { instruction, participants, initial_value, associated_address })
}

/// Finishes an initialization once the sub-invocation has run: a failed
/// invocation is surfaced with its code, otherwise the counter account's
/// data becomes exactly the stored form of `initial_value`.
pub fn complete_initialize(
    accounts: &mut Vec<Slot>,
    initial_value: u64,
    invoked: Result<(), u64>,
) -> (r: Result<u64, CounterError>)
    ensures
        invoked.is_err() ==> r == Err::<u64, CounterError>(CounterError::InvocationFailed(invoked->Err_0)),
        invoked.is_ok() && old(accounts)@.len() == 0 ==> r == Err::<u64, CounterError>(CounterError::MissingAccount),
        invoked.is_ok() && old(accounts)@.len() > 0 ==> r == Ok::<u64, CounterError>(initial_value),
        r.is_err() ==> final(accounts)@ == old(accounts)@,
        r.is_ok() ==> counter_written(
            old(accounts)@,
            final(accounts)@,
            counter_bytes(CounterAccount { count: initial_value }),
        ),
{
    if let Err(code) = invoked {
        return Err(CounterError::InvocationFailed(code));
    }
    if accounts.len() == 0 {
        return Err(CounterError::MissingAccount);
    }
    store_counter(accounts, initial_value);
    Ok(initial_value)
}

/// Decodes an instruction and carries it out as far as this program can on
/// its own: an increment completes; an initialization is validated, the
/// associated address of the wallet for the mint is derived, and the creation
/// of the counter account is handed back as a sub-invocation.
pub fn process_instruction(
    program_id: &[u8; 32],
    atas: &AtaCreator,
    accounts: &mut Vec<Slot>,
    instruction_data: &[u8],
) -> (r: Result<Step, CounterError>)
    ensures
        decode_spec(instruction_data@).is_err() ==> r == Err::<Step, CounterError>(
            CounterError::Decode(decode_spec(instruction_data@)->Err_0),
        ) && final(accounts)@ == old(accounts)@,
        decode_spec(instruction_data@) == Ok::<CounterInstruction, DecodeError>(CounterInstruction::IncrementCounter) ==> {
            let expected = increment_spec(*program_id, old(accounts)@);
            &&& expected.is_err() ==> r == Err::<Step, CounterError>(expected->Err_0)
                && final(accounts)@ == old(accounts)@
            &&& expected.is_ok() ==> r == Ok::<Step, CounterError>(Step::Finished { count: expected->Ok_0 })
                && counter_written(
                old(accounts)@,
                final(accounts)@,
                counter_bytes(CounterAccount { count: expected->Ok_0 }),
            )
        },
        forall|v: u64|
            decode_spec(instruction_data@) == Ok::<CounterInstruction, DecodeError>(CounterInstruction::InitializeCounter { initial_value: v }) ==> {
                &&& final(accounts)@ == old(accounts)@
                &&& initialize_check(old(accounts)@).is_err() ==> r == Err::<Step, CounterError>(
                    initialize_check(old(accounts)@)->Err_0,
                )
                &&& initialize_check(old(accounts)@).is_ok() ==> (r == Err::<Step, CounterError>(CounterError::DerivationExhausted)
                    || (r.is_ok() && step_address(r.unwrap()) == ata_of(
                    *atas,
                    old(accounts)@[WALLET_INDEX as int].key,
                    old(accounts)@[MINT_INDEX as int].key,
                ) && is_create_step(r.unwrap(), old(accounts)@, v, step_address(r.unwrap()))))
            },
{
    let instruction = match CounterInstruction::unpack(instruction_data) {
        Ok(i) => i,
        Err(e) => return Err(CounterError::Decode(e)),
    };
    match instruction {
        CounterInstruction::InitializeCounter { initial_value } => {
            if accounts.len() < INITIALIZE_ACCOUNTS {
                return Err(CounterError::MissingAccount);
            }
            let derived = atas.derive_ata(&accounts[WALLET_INDEX].key, &accounts[MINT_INDEX].key);
            begin_initialize(accounts, initial_value, derived)
        },
        CounterInstruction::IncrementCounter => {
            match process_increment_counter(program_id, accounts) {
                Ok(count) => Ok(Step::Finished { count }),
                Err(e) => Err(e),
            }
        },
    }
}

/// Once a counter holding `v` has been stored in an account that the program
/// owns, an increment succeeds with `v + 1` unless `v` is the largest `u64`.
pub proof fn lemma_increment_after_store(program_id: [u8; 32], before: Seq<Slot>, after: Seq<Slot>, v: u64)
    requires
        counter_written(before, after, counter_bytes(CounterAccount { count: v })),
        before[0].owner@ == program_id@,
    ensures
        v < u64::MAX ==> increment_spec(program_id, after) == Ok::<u64, CounterError>((v + 1) as u64),
        v == u64::MAX ==> increment_spec(program_id, after) == Err::<u64, CounterError>(
            CounterError::CounterOverflow,
        ),
{
    crate::bytes::lemma_u64_bytes_round_trip(v);
}

} // verus!
