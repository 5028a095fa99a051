use crate::error::ProgramError;
use crate::state::Identity;
use vstd::prelude::*;

verus! {

/// The operations the vault program performs. Each is encoded as one tag
/// byte with no payload; operands come from the account list.
#[derive(Clone, Copy, Debug, PartialEq, Eq, Structural)]
pub enum VaultInstruction {
    /// Initialize a vault record on behalf of an authority.
    ///
    /// Accounts: 0. `[writable]` record slot (uninitialized);
    /// 1. `[signer]` custodian; 2. `[]` authority.
    Initialize,
    /// Hand control of a record to a new authority.
    ///
    /// Accounts: 0. `[writable]` record slot (initialized);
    /// 1. `[signer]` custodian; 2. `[signer]` current authority; 3. `[]` new authority.
    TransferAuthority,
    /// Drain a record slot's balance to its authority.
    ///
    /// Accounts: 0. `[writable]` record slot (initialized);
    /// 1. `[signer]` custodian; 2. `[signer, writable]` authority, which receives the balance.
    CloseAccount,
}

/// Tag byte of each instruction.
pub open spec fn tag_of(i: VaultInstruction) -> u8 {
    match i {
        VaultInstruction::Initialize => 0,
        VaultInstruction::TransferAuthority => 1,
        VaultInstruction::CloseAccount => 2,
    }
}

/// Bytes of each instruction: its tag alone.
pub open spec fn instruction_bytes(i: VaultInstruction) -> Seq<u8> {
    seq![tag_of(i)]
}

/// Whether `input` is the exact encoding of some instruction.
pub open spec fn is_instruction_encoding(input: Seq<u8>) -> bool {
    input.len() == 1 && input[0] <= 2
}

/// Decoding undoes encoding, and every instruction has its own bytes.
pub proof fn lemma_instruction_round_trip(a: VaultInstruction, b: VaultInstruction)
    ensures
        is_instruction_encoding(instruction_bytes(a)),
        instruction_bytes(a) == instruction_bytes(b) ==> a == b,
{
    if instruction_bytes(a) == instruction_bytes(b) {
        assert(instruction_bytes(a)[0] == instruction_bytes(b)[0]);
    }
}

impl VaultInstruction {
    /// The encoding of the instruction.
    pub fn to_vec(&self) -> (r: Vec<u8>)
        ensures
            r@ == instruction_bytes(*self),
    {
        let tag: u8 = match self {
            VaultInstruction::Initialize => 0,
            VaultInstruction::TransferAuthority => 1,
            VaultInstruction::CloseAccount => 2,
        };
        let mut out: Vec<u8> = Vec::new();
        out.push(tag);
        assert(out@ =~= instruction_bytes(*self));
        out
    }

    /// Decodes an instruction. Only a single known tag byte is accepted:
    /// unknown tags and trailing bytes are rejected.
    pub fn try_from_slice(input: &[u8]) -> (r: Result<VaultInstruction, ProgramError>)
        ensures
            r is Ok <==> is_instruction_encoding(input@),
            r matches Ok(i) ==> instruction_bytes(i) == input@,
            r matches Err(e) ==> e == ProgramError::MalformedEncoding,
    {
        if input.len() != 1 {
            return Err(ProgramError::MalformedEncoding);
        }
        let r = match input[0] {
            0 => VaultInstruction::Initialize,
            1 => VaultInstruction::TransferAuthority,
            2 => VaultInstruction::CloseAccount,
            _ => {
                return Err(ProgramError::MalformedEncoding);
            },
        };
        assert(instruction_bytes(r) =~= input@);
        Ok(r)
    }
}

/// One entry of an instruction's account list.
#[derive(Clone, Copy, Debug)]
pub struct AccountMeta {
    pub pubkey: Identity,
    pub is_signer: bool,
    pub is_writable: bool,
}

/// An instruction addressed to a program: its accounts and its bytes.
#[derive(Clone, Debug)]
pub struct Instruction {
    pub program_id: Identity,
    pub accounts: Vec<AccountMeta>,
    pub data: Vec<u8>,
}

/// `m` names `key` with the given flags.
pub open spec fn meta_is(m: AccountMeta, key: Identity, is_signer: bool, is_writable: bool) -> bool {
    m.pubkey == key && m.is_signer == is_signer && m.is_writable == is_writable
}

impl AccountMeta {
    /// A writable entry.
    pub fn new(pubkey: Identity, is_signer: bool) -> (r: AccountMeta)
        ensures
            meta_is(r, pubkey, is_signer, true),
    {
        AccountMeta { pubkey, is_signer, is_writable: true }
    }

    /// A read-only entry.
    pub fn new_readonly(pubkey: Identity, is_signer: bool) -> (r: AccountMeta)
        ensures
            meta_is(r, pubkey, is_signer, false),
    {
        AccountMeta { pubkey, is_signer, is_writable: false }
    }
}

/// Builds an `Initialize` instruction: the record slot (writable), the
/// custodian (signer) and the authority.
pub fn initialize(program_id: Identity, record_slot: &Identity, custodian: &Identity, authority: &Identity) -> (r:
    Instruction)
    ensures
        r.program_id == program_id,
        r.data@ == instruction_bytes(VaultInstruction::Initialize),
        r.accounts@.len() == 3,
        meta_is(r.accounts@[0], *record_slot, false, true),
        meta_is(r.accounts@[1], *custodian, true, false),
        meta_is(r.accounts@[2], *authority, false, false),
{
    let mut accounts: Vec<AccountMeta> = Vec::new();
    accounts.push(AccountMeta::new(*record_slot, false));
    accounts.push(AccountMeta::new_readonly(*custodian, true));
    accounts.push(AccountMeta::new_readonly(*authority, false));
    Instruction { program_id, accounts, data: VaultInstruction::Initialize.to_vec() }
}

/// Builds a `TransferAuthority` instruction: the record slot (writable), the
/// custodian and current authority (signers) and the new authority.
pub fn transfer_authority(
    program_id: Identity,
    record_slot: &Identity,
    custodian: &Identity,
    authority: &Identity,
    new_authority: &Identity,
) -> (r: Instruction)
    ensures
        r.program_id == program_id,
        r.data@ == instruction_bytes(VaultInstruction::TransferAuthority),
        r.accounts@.len() == 4,
        meta_is(r.accounts@[0], *record_slot, false, true),
        meta_is(r.accounts@[1], *custodian, true, false),
        meta_is(r.accounts@[2], *authority, true, false),
        meta_is(r.accounts@[3], *new_authority, false, false),
{
    let mut accounts: Vec<AccountMeta> = Vec::new();
    accounts.push(AccountMeta::new(*record_slot, false));
    accounts.push(AccountMeta::new_readonly(*custodian, true));
    accounts.push(AccountMeta::new_readonly(*authority, true));
    accounts.push(AccountMeta::new_readonly(*new_authority, false));
    Instruction { program_id, accounts, data: VaultInstruction::TransferAuthority.to_vec() }
}

/// Builds a `CloseAccount` instruction: the record slot (writable), the
/// custodian (signer) and the authority (signer, writable: it receives the balance).
pub fn close_account(program_id: Identity, record_slot: &Identity, custodian: &Identity, authority: &Identity) -> (r:
    Instruction)
    ensures
        r.program_id == program_id,
        r.data@ == instruction_bytes(VaultInstruction::CloseAccount),
        r.accounts@.len() == 3,
        meta_is(r.accounts@[0], *record_slot, false, true),
        meta_is(r.accounts@[1], *custodian, true, false),
        meta_is(r.accounts@[2], *authority, true, true),
{
    let mut accounts: Vec<AccountMeta> = Vec::new();
    accounts.push(AccountMeta::new(*record_slot, false));
    accounts.push(AccountMeta::new_readonly(*custodian, true));
    accounts.push(AccountMeta::new(*authority, true));
    Instruction { program_id, accounts, data: VaultInstruction::CloseAccount.to_vec() }
}

} // verus!
