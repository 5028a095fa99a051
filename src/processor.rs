use crate::error::{vault_code, ProgramError, VaultError};
use crate::instruction::{instruction_bytes, is_instruction_encoding, VaultInstruction};
use crate::state::{
    decodes_to, encoded, holds_initialized, lemma_encoded_fields, stored_authority, stored_custodian, Identity,
    VaultRecord, CURRENT_VERSION, RECORD_LEN,
};
use vstd::prelude::*;

verus! {

/// An account as the host hands it to the program for one call.
#[derive(Clone, Debug)]
pub struct Account {
    /// The account's identity.
    pub key: Identity,
    /// The program that owns the account's storage.
    pub owner: Identity,
    /// Whether the host verified a signature of `key` for this call.
    pub is_signer: bool,
    /// Whether the call may write to the account.
    pub is_writable: bool,
    /// The account's balance.
    pub lamports: u64,
    /// The account's storage.
    pub data: Vec<u8>,
}

/// What the program sees of an account.
pub struct AccountView {
    pub key: Identity,
    pub owner: Identity,
    pub is_signer: bool,
    pub is_writable: bool,
    pub lamports: u64,
    pub data: Seq<u8>,
}

impl View for Account {
    type V = AccountView;

    open spec fn view(&self) -> AccountView {
        AccountView {
            key: self.key,
            owner: self.owner,
            is_signer: self.is_signer,
            is_writable: self.is_writable,
            lamports: self.lamports,
            data: self.data@,
        }
    }
}

/// The views of a list of accounts.
pub open spec fn views(accts: Seq<Account>) -> Seq<AccountView> {
    accts.map_values(|a: Account| a@)
}

/// `a` with its storage replaced by `d`.
pub open spec fn with_data(a: AccountView, d: Seq<u8>) -> AccountView {
    AccountView { data: d, ..a }
}

/// `a` with its balance replaced by `l`.
pub open spec fn with_lamports(a: AccountView, l: u64) -> AccountView {
    AccountView { lamports: l, ..a }
}

/// `data` with its record bytes replaced by the encoding of `r`.
pub open spec fn record_written(data: Seq<u8>, r: VaultRecord) -> Seq<u8> {
    encoded(r) + data.subrange(RECORD_LEN as int, data.len() as int)
}

/// Outcome of checking that `account` is `key` and has signed.
pub open spec fn signer_outcome(account: AccountView, key: Seq<u8>) -> Result<(), ProgramError> {
    if account.key@ != key {
        Err(ProgramError::Custom(vault_code(VaultError::IncorrectAuthority)))
    } else if !account.is_signer {
        Err(ProgramError::MissingSignature)
    } else {
        Ok(())
    }
}

/// Outcome of checking the custodian, then the authority, against the record in `data`.
pub open spec fn signers_outcome(
    data: Seq<u8>,
    custodian: AccountView,
    authority: AccountView,
) -> Result<(), ProgramError> {
    match signer_outcome(custodian, stored_custodian(data)) {
        Err(e) => Err(e),
        Ok(_) => signer_outcome(authority, stored_authority(data)),
    }
}

/// The checks common to the handlers that need an initialized record in
/// `accts[0]`, with `n` accounts expected.
pub open spec fn initialized_outcome(
    program_id: Identity,
    accts: Seq<AccountView>,
    n: int,
) -> Result<(), ProgramError> {
    if accts.len() < n {
        Err(ProgramError::NotEnoughAccounts)
    } else if accts[0].owner@ != program_id@ {
        Err(ProgramError::IncorrectOwner)
    } else if accts[0].data.len() < RECORD_LEN {
        Err(ProgramError::MalformedEncoding)
    } else if !holds_initialized(accts[0].data) {
        Err(ProgramError::NotInitialized)
    } else {
        signers_outcome(accts[0].data, accts[1], accts[2])
    }
}

/// Result of `Initialize` on `accts`.
pub open spec fn initialize_outcome(program_id: Identity, accts: Seq<AccountView>) -> Result<
    (),
    ProgramError,
> {
    if accts.len() < 3 {
        Err(ProgramError::NotEnoughAccounts)
    } else if accts[0].owner@ != program_id@ {
        Err(ProgramError::IncorrectOwner)
    } else if !accts[1].is_signer {
        Err(ProgramError::MissingSignature)
    } else if accts[0].data.len() < RECORD_LEN {
        Err(ProgramError::MalformedEncoding)
    } else if holds_initialized(accts[0].data) {
        Err(ProgramError::AlreadyInitialized)
    } else {
        Ok(())
    }
}

/// The record that `Initialize` writes.
pub open spec fn initialized_record(accts: Seq<AccountView>) -> VaultRecord {
    VaultRecord { version: CURRENT_VERSION, authority: accts[2].key, custodian: accts[1].key }
}

/// Accounts after a successful `Initialize`.
pub open spec fn initialize_effect(accts: Seq<AccountView>) -> Seq<AccountView> {
    accts.update(
        0,
        with_data(accts[0], record_written(accts[0].data, initialized_record(accts))),
    )
}

/// Result of `TransferAuthority` on `accts`.
pub open spec fn transfer_outcome(program_id: Identity, accts: Seq<AccountView>) -> Result<
    (),
    ProgramError,
> {
    initialized_outcome(program_id, accts, 4)
}

/// The record that `TransferAuthority` writes.
pub open spec fn transferred_record(accts: Seq<AccountView>) -> VaultRecord {
    VaultRecord { version: CURRENT_VERSION, authority: accts[3].key, custodian: accts[1].key }
}

/// Accounts after a successful `TransferAuthority`.
pub open spec fn transfer_effect(accts: Seq<AccountView>) -> Seq<AccountView> {
    accts.update(
        0,
        with_data(accts[0], record_written(accts[0].data, transferred_record(accts))),
    )
}

/// Result of `CloseAccount` on `accts`.
pub open spec fn close_outcome(program_id: Identity, accts: Seq<AccountView>) -> Result<
    (),
    ProgramError,
> {
    match initialized_outcome(program_id, accts, 3) {
        Err(e) => Err(e),
        Ok(_) => if accts[2].lamports + accts[0].lamports > u64::MAX {
            Err(ProgramError::Custom(vault_code(VaultError::Overflow)))
        } else {
            Ok(())
        },
    }
}

/// Accounts after a successful `CloseAccount`: the slot's whole balance
/// has moved to the authority.
pub open spec fn close_effect(accts: Seq<AccountView>) -> Seq<AccountView> {
    accts.update(0, with_lamports(accts[0], 0)).update(
        2,
        with_lamports(accts[2], (accts[2].lamports + accts[0].lamports) as u64),
    )
}

/// A call with result `r` took `before` to `after`: the given effect on
/// success, nothing at all on failure.
pub open spec fn applied(
    r: Result<(), ProgramError>,
    before: Seq<AccountView>,
    after: Seq<AccountView>,
    effect: Seq<AccountView>,
) -> bool {
    &&& r is Ok ==> after == effect
    &&& r is Err ==> after == before
}

/// Initializing an owned, uninitialized record slot with a signing
/// custodian succeeds and leaves a record of the current version whose
/// authority and custodian are the identities that were passed.
pub proof fn lemma_initialize_success(program_id: Identity, accts: Seq<AccountView>)
    requires
        accts.len() >= 3,
        accts[0].owner@ == program_id@,
        accts[0].data.len() >= RECORD_LEN,
        !holds_initialized(accts[0].data),
        accts[1].is_signer,
    ensures
        initialize_outcome(program_id, accts) is Ok,
        decodes_to(
            initialize_effect(accts)[0].data,
            VaultRecord {
                version: CURRENT_VERSION,
                authority: accts[2].key,
                custodian: accts[1].key,
            },
        ),
{
    let rec = initialized_record(accts);
    let d = record_written(accts[0].data, rec);
    crate::state::lemma_round_trip(rec, rec);
    assert(d.subrange(0, RECORD_LEN as int) =~= encoded(rec));
}

/// Initializing an owned slot that already holds an initialized record
/// fails with `AlreadyInitialized` whatever the identities and the
/// authority's signature, once the custodian has signed.
pub proof fn lemma_initialize_twice(program_id: Identity, accts: Seq<AccountView>)
    requires
        accts.len() >= 3,
        accts[0].owner@ == program_id@,
        holds_initialized(accts[0].data),
        accts[1].is_signer,
    ensures
        initialize_outcome(program_id, accts) == Err::<(), ProgramError>(
            ProgramError::AlreadyInitialized,
        ),
{
}

/// A transfer on an owned, initialized record whose custodian or authority
/// is presented under an identity other than the stored one fails with
/// `IncorrectAuthority`, whether or not that identity signed. (A custodian
/// that matches but did not sign fails first, with `MissingSignature`.)
pub proof fn lemma_transfer_wrong_identity(program_id: Identity, accts: Seq<AccountView>)
    requires
        accts.len() >= 4,
        accts[0].owner@ == program_id@,
        holds_initialized(accts[0].data),
        accts[1].key@ != stored_custodian(accts[0].data) || accts[2].key@ != stored_authority(
            accts[0].data,
        ),
        accts[1].key@ == stored_custodian(accts[0].data) ==> accts[1].is_signer,
    ensures
        transfer_outcome(program_id, accts) == Err::<(), ProgramError>(
            ProgramError::Custom(vault_code(VaultError::IncorrectAuthority)),
        ),
        vault_code(VaultError::IncorrectAuthority) == 0,
{
}

/// A transfer succeeds only when the stored custodian and the stored
/// authority have both signed the call; after it the record names the new
/// authority and keeps its custodian and version.
pub proof fn lemma_transfer_success(program_id: Identity, accts: Seq<AccountView>)
    requires
        transfer_outcome(program_id, accts) is Ok,
    ensures
        accts.len() >= 4,
        accts[1].key@ == stored_custodian(accts[0].data),
        accts[1].is_signer,
        accts[2].key@ == stored_authority(accts[0].data),
        accts[2].is_signer,
        holds_initialized(transfer_effect(accts)[0].data),
        stored_authority(transfer_effect(accts)[0].data) == accts[3].key@,
        stored_custodian(transfer_effect(accts)[0].data) == stored_custodian(accts[0].data),
{
    let rec = transferred_record(accts);
    let d = record_written(accts[0].data, rec);
    assert(d.subrange(0, RECORD_LEN as int) =~= encoded(rec));
    lemma_encoded_fields(rec, d);
}

/// A successful close empties the record slot's balance and adds all of it,
/// once, to the authority's; nothing is created or lost. When the sum does
/// not fit the authority's balance the close fails with `Overflow`.
pub proof fn lemma_close_moves_balance(program_id: Identity, accts: Seq<AccountView>)
    ensures
        close_outcome(program_id, accts) is Ok ==> {
            let after = close_effect(accts);
            &&& after.len() == accts.len()
            &&& after[0].lamports == 0
            &&& after[2].lamports == accts[2].lamports + accts[0].lamports
            &&& after[0].lamports + after[2].lamports == accts[0].lamports + accts[2].lamports
        },
        initialized_outcome(program_id, accts, 3) is Ok && accts[2].lamports + accts[0].lamports
            > u64::MAX ==> close_outcome(program_id, accts) == Err::<(), ProgramError>(
            ProgramError::Custom(vault_code(VaultError::Overflow)),
        ),
        vault_code(VaultError::Overflow) == 1,
{
}

/// Checks that `account` is `key` and presented a signature.
pub fn validate_signer(account: &Account, key: &Identity) -> (r: Result<(), ProgramError>)
    ensures
        r == signer_outcome(account@, key@),
{
    if !key.same_as(&account.key) {
        return Err(ProgramError::from(VaultError::IncorrectAuthority));
    }
    if !account.is_signer {
        return Err(ProgramError::MissingSignature);
    }
    Ok(())
}

/// The view of `accts` after the account at `i` takes the value `a`.
proof fn lemma_views_update(accts: Seq<Account>, i: int, a: Account)
    requires
        0 <= i < accts.len(),
    ensures
        views(accts.update(i, a)) == views(accts).update(i, a@),
{
    assert(views(accts.update(i, a)) =~= views(accts).update(i, a@));
}

/// Reads the record of `accounts[0]` after the checks that `TransferAuthority`
/// and `CloseAccount` share, `n` being the number of accounts expected.
fn load_initialized(program_id: &Identity, accounts: &Vec<Account>, n: usize) -> (r: Result<
    VaultRecord,
    ProgramError,
>)
    requires
        n >= 3,
    ensures
        r is Ok <==> initialized_outcome(*program_id, views(accounts@), n as int) is Ok,
        r matches Err(e) ==> initialized_outcome(*program_id, views(accounts@), n as int) == Err::<
            (),
            ProgramError,
        >(e),
        r matches Ok(rec) ==> decodes_to(accounts@[0].data@, rec) && rec.is_initialized_spec(),
{
    let ghost vs = views(accounts@);
    if accounts.len() < n {
        return Err(ProgramError::NotEnoughAccounts);
    }
    assert(vs[0] == accounts@[0]@ && vs[1] == accounts@[1]@ && vs[2] == accounts@[2]@);
    if !accounts[0].owner.same_as(program_id) {
        return Err(ProgramError::IncorrectOwner);
    }
    let record = match VaultRecord::try_from_slice(accounts[0].data.as_slice()) {
        Ok(rec) => rec,
        Err(e) => {
            return Err(e);
        },
    };
    proof {
        lemma_encoded_fields(record, accounts@[0].data@);
    }
    if !record.is_initialized() {
        return Err(ProgramError::NotInitialized);
    }
    match validate_signer(&accounts[1], &record.custodian) {
        Ok(_) => {},
        Err(e) => {
            return Err(e);
        },
    }
    match validate_signer(&accounts[2], &record.authority) {
        Ok(_) => {},
        Err(e) => {
            return Err(e);
        },
    }
    Ok(record)
}

/// The instruction processor: a namespace for the program's handlers.
pub struct Processor {}

impl Processor {
    /// Decodes `input` and runs the instruction it names on `accounts`. A
    /// failed call leaves every account as it was.
    pub fn process_instruction(
        program_id: &Identity,
        accounts: &mut Vec<Account>,
        input: &[u8],
    ) -> (r: Result<(), ProgramError>)
        ensures
            !is_instruction_encoding(input@) ==> r == Err::<(), ProgramError>(
                ProgramError::MalformedEncoding,
            ) && final(accounts)@ == old(accounts)@,
            input@ == instruction_bytes(VaultInstruction::Initialize) ==> r == initialize_outcome(
                *program_id,
                views(old(accounts)@),
            ) && applied(
                r,
                views(old(accounts)@),
                views(final(accounts)@),
                initialize_effect(views(old(accounts)@)),
            ),
            input@ == instruction_bytes(VaultInstruction::TransferAuthority) ==> r
                == transfer_outcome(*program_id, views(old(accounts)@)) && applied(
                r,
                views(old(accounts)@),
                views(final(accounts)@),
                transfer_effect(views(old(accounts)@)),
            ),
            input@ == instruction_bytes(VaultInstruction::CloseAccount) ==> r == close_outcome(
                *program_id,
                views(old(accounts)@),
            ) && applied(
                r,
                views(old(accounts)@),
                views(final(accounts)@),
                close_effect(views(old(accounts)@)),
            ),
    {
        let instruction = match VaultInstruction::try_from_slice(input) {
            Ok(i) => i,
            Err(e) => {
                return Err(e);
            },
        };
        match instruction {
            VaultInstruction::Initialize => Processor::process_initialize(program_id, accounts),
            VaultInstruction::TransferAuthority => Processor::transfer_authority(
                program_id,
                accounts,
            ),
            VaultInstruction::CloseAccount => Processor::close_account(program_id, accounts),
        }
    }

    /// Initializes the record in `accounts[0]` with the custodian
    /// `accounts[1]`, which must have signed, and the authority `accounts[2]`.
    fn process_initialize(program_id: &Identity, accounts: &mut Vec<Account>) -> (r: Result<
        (),
        ProgramError,
    >)
        ensures
            r == initialize_outcome(*program_id, views(old(accounts)@)),
            applied(
                r,
                views(old(accounts)@),
                views(final(accounts)@),
                initialize_effect(views(old(accounts)@)),
            ),
    {
        let ghost vs = views(accounts@);
        if accounts.len() < 3 {
            return Err(ProgramError::NotEnoughAccounts);
        }
        assert(vs[0] == accounts@[0]@ && vs[1] == accounts@[1]@ && vs[2] == accounts@[2]@);
        if !accounts[0].owner.same_as(program_id) {
            return Err(ProgramError::IncorrectOwner);
        }
        if !accounts[1].is_signer {
            return Err(ProgramError::MissingSignature);
        }
        let record = match VaultRecord::try_from_slice(accounts[0].data.as_slice()) {
            Ok(rec) => rec,
            Err(e) => {
                return Err(e);
            },
        };
        proof {
            lemma_encoded_fields(record, accounts@[0].data@);
        }
        if record.is_initialized() {
            return Err(ProgramError::AlreadyInitialized);
        }
        let mut record = record;
        record.custodian = accounts[1].key;
        record.authority = accounts[2].key;
        record.version = CURRENT_VERSION;
        assert(record == initialized_record(vs));
        let ghost before = accounts@;
        record.write_into(&mut accounts[0].data);
        proof {
            lemma_views_update(before, 0, accounts@[0]);
            assert(accounts@ == before.update(0, accounts@[0]));
            assert(accounts@[0]@ == with_data(vs[0], record_written(vs[0].data, record)));
        }
        Ok(())
    }

    /// Makes `accounts[3]` the authority of the record in `accounts[0]`;
    /// its custodian `accounts[1]` and authority `accounts[2]` must both sign.
    fn transfer_authority(program_id: &Identity, accounts: &mut Vec<Account>) -> (r: Result<
        (),
        ProgramError,
    >)
        ensures
            r == transfer_outcome(*program_id, views(old(accounts)@)),
            applied(
                r,
                views(old(accounts)@),
                views(final(accounts)@),
                transfer_effect(views(old(accounts)@)),
            ),
    {
        let ghost vs = views(accounts@);
        let record = match load_initialized(program_id, accounts, 4) {
            Ok(rec) => rec,
            Err(e) => {
                return Err(e);
            },
        };
        assert(vs[0] == accounts@[0]@ && vs[1] == accounts@[1]@ && vs[3] == accounts@[3]@);
        proof {
            lemma_encoded_fields(record, accounts@[0].data@);
        }
        let mut record = record;
        record.authority = accounts[3].key;
        assert(record.custodian.bytes == vs[1].key.bytes);
        assert(record == transferred_record(vs));
        let ghost before = accounts@;
        record.write_into(&mut accounts[0].data);
        proof {
            lemma_views_update(before, 0, accounts@[0]);
            assert(accounts@ == before.update(0, accounts@[0]));
            assert(accounts@[0]@ == with_data(vs[0], record_written(vs[0].data, record)));
        }
        Ok(())
    }

    /// Moves the whole balance of the record slot `accounts[0]` to its
    /// authority `accounts[2]`; custodian and authority must both sign. The
    /// record's bytes are left as they are: no field of it changes.
    fn close_account(program_id: &Identity, accounts: &mut Vec<Account>) -> (r: Result<
        (),
        ProgramError,
    >)
        ensures
            r == close_outcome(*program_id, views(old(accounts)@)),
            applied(
                r,
                views(old(accounts)@),
                views(final(accounts)@),
                close_effect(views(old(accounts)@)),
            ),
    {
        let ghost vs = views(accounts@);
        let record = match load_initialized(program_id, accounts, 3) {
            Ok(rec) => rec,
            Err(e) => {
                return Err(e);
            },
        };
        assert(vs[0] == accounts@[0]@ && vs[2] == accounts@[2]@);
        let authority_starting_lamports = accounts[2].lamports;
        let pda_lamports = accounts[0].lamports;
        let total = match authority_starting_lamports.checked_add(pda_lamports) {
            Some(t) => t,
            None => {
                return Err(ProgramError::from(VaultError::Overflow));
            },
        };
        let ghost before = accounts@;
        accounts[0].lamports = 0;
        let ghost mid = accounts@;
        accounts[2].lamports = total;
        proof {
            lemma_views_update(before, 0, mid[0]);
            lemma_views_update(mid, 2, accounts@[2]);
            assert(mid == before.update(0, mid[0]));
            assert(accounts@ == mid.update(2, accounts@[2]));
            assert(mid[0]@ == with_lamports(vs[0], 0));
            assert(accounts@[2]@ == with_lamports(vs[2], total));
        }
        Ok(())
    }
}

} // verus!
