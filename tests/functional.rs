use vault::error::{ProgramError, VaultError};
use vault::instruction::VaultInstruction;
use vault::processor::{Account, Processor};
use vault::state::{Identity, VaultRecord, CURRENT_VERSION, RECORD_LEN};

const RENT_LAMPORTS: u64 = 1_343_280;

fn id() -> Identity {
    Identity::new_from_array([7; 32])
}

fn key(b: u8) -> Identity {
    Identity::new_from_array([b; 32])
}

fn account(k: Identity, is_signer: bool, lamports: u64) -> Account {
    Account { key: k, owner: key(0), is_signer, is_writable: false, lamports, data: Vec::new() }
}

fn slot(k: Identity) -> Account {
    Account { key: k, owner: id(), is_signer: false, is_writable: true, lamports: RENT_LAMPORTS, data: vec![0; RECORD_LEN] }
}

fn run(accounts: &mut Vec<Account>, ix: VaultInstruction) -> Result<(), ProgramError> {
    Processor::process_instruction(&id(), accounts, &ix.to_vec())
}

fn record_of(a: &Account) -> VaultRecord {
    VaultRecord::try_from_slice(&a.data).unwrap()
}

// A record slot initialized with custodian `dart` and authority `authority`.
fn initialize_account(pda: Identity, dart: Identity, authority: Identity) -> Account {
    let mut accounts = vec![slot(pda), account(dart, true, 0), account(authority, false, 0)];
    run(&mut accounts, VaultInstruction::Initialize).unwrap();
    accounts.remove(0)
}

#[test]
fn initialize_success() {
    let (pda, dart, authority) = (key(1), key(2), key(3));
    let a = initialize_account(pda, dart, authority);
    let record = record_of(&a);
    assert_eq!(record.custodian, dart);
    assert_eq!(record.authority, authority);
    assert_eq!(record.version, CURRENT_VERSION);
}

#[test]
fn initialize_twice_fail() {
    let (pda, dart, authority) = (key(1), key(2), key(3));
    let a = initialize_account(pda, dart, authority);
    let mut accounts = vec![a, account(dart, true, 0), account(authority, false, 0)];
    assert_eq!(run(&mut accounts, VaultInstruction::Initialize), Err(ProgramError::AlreadyInitialized));
}

#[test]
fn initialize_twice_fails_whoever_signs() {
    let a = initialize_account(key(1), key(2), key(3));
    let mut accounts = vec![a, account(key(9), true, 0), account(key(8), true, 0)];
    assert_eq!(run(&mut accounts, VaultInstruction::Initialize), Err(ProgramError::AlreadyInitialized));
    assert_eq!(record_of(&accounts[0]).authority, key(3));
}

#[test]
fn initialize_requires_custodian_signature_and_owner() {
    let mut accounts = vec![slot(key(1)), account(key(2), false, 0), account(key(3), false, 0)];
    assert_eq!(run(&mut accounts, VaultInstruction::Initialize), Err(ProgramError::MissingSignature));
    assert_eq!(accounts[0].data, vec![0; RECORD_LEN]);

    let mut foreign = slot(key(1));
    foreign.owner = key(5);
    let mut accounts = vec![foreign, account(key(2), true, 0), account(key(3), false, 0)];
    assert_eq!(run(&mut accounts, VaultInstruction::Initialize), Err(ProgramError::IncorrectOwner));

    let mut small = slot(key(1));
    small.data = vec![0; RECORD_LEN - 1];
    let mut accounts = vec![small, account(key(2), true, 0), account(key(3), false, 0)];
    assert_eq!(run(&mut accounts, VaultInstruction::Initialize), Err(ProgramError::MalformedEncoding));

    let mut accounts = vec![slot(key(1)), account(key(2), true, 0)];
    assert_eq!(run(&mut accounts, VaultInstruction::Initialize), Err(ProgramError::NotEnoughAccounts));
}

#[test]
fn transfer_authority_success() {
    let (pda, dart, authority, new_authority) = (key(1), key(2), key(3), key(4));
    let a = initialize_account(pda, dart, authority);
    let mut accounts =
        vec![a, account(dart, true, 0), account(authority, true, 0), account(new_authority, false, 0)];
    run(&mut accounts, VaultInstruction::TransferAuthority).unwrap();
    let record = record_of(&accounts[0]);
    assert_eq!(record.authority, new_authority);
}

#[test]
fn transfer_authority_fail_wrong_authority() {
    let (pda, dart, authority, new_authority, wrong) = (key(1), key(2), key(3), key(4), key(5));
    let a = initialize_account(pda, dart, authority);
    let mut accounts = vec![a, account(dart, true, 0), account(wrong, true, 0), account(new_authority, false, 0)];
    assert_eq!(
        run(&mut accounts, VaultInstruction::TransferAuthority),
        Err(ProgramError::Custom(VaultError::IncorrectAuthority.code()))
    );
    assert_eq!(record_of(&accounts[0]).authority, authority);
}

#[test]
fn transfer_authority_checks_custodian_then_signatures() {
    let a = initialize_account(key(1), key(2), key(3));
    let mut accounts = vec![a, account(key(9), true, 0), account(key(3), true, 0), account(key(4), false, 0)];
    assert_eq!(run(&mut accounts, VaultInstruction::TransferAuthority), Err(ProgramError::Custom(0)));

    let a = accounts.remove(0);
    let mut accounts = vec![a, account(key(2), false, 0), account(key(9), true, 0), account(key(4), false, 0)];
    assert_eq!(run(&mut accounts, VaultInstruction::TransferAuthority), Err(ProgramError::MissingSignature));

    let a = accounts.remove(0);
    let mut accounts = vec![a, account(key(2), true, 0), account(key(3), false, 0), account(key(4), false, 0)];
    assert_eq!(run(&mut accounts, VaultInstruction::TransferAuthority), Err(ProgramError::MissingSignature));

    let mut accounts = vec![slot(key(1)), account(key(2), true, 0), account(key(3), true, 0), account(key(4), false, 0)];
    assert_eq!(run(&mut accounts, VaultInstruction::TransferAuthority), Err(ProgramError::NotInitialized));
}

#[test]
fn transfer_twice_with_old_authority_fails() {
    let (c, a, b) = (key(2), key(3), key(4));
    let rec = initialize_account(key(1), c, a);
    let mut accounts = vec![rec, account(c, true, 0), account(a, true, 0), account(b, false, 0)];
    run(&mut accounts, VaultInstruction::TransferAuthority).unwrap();
    let record = record_of(&accounts[0]);
    assert_eq!(record.authority, b);
    assert_eq!(record.custodian, c);

    let rec = accounts.remove(0);
    let mut accounts = vec![rec, account(c, true, 0), account(a, true, 0), account(key(6), false, 0)];
    assert_eq!(run(&mut accounts, VaultInstruction::TransferAuthority), Err(ProgramError::Custom(0)));
    assert_eq!(record_of(&accounts[0]).authority, b);
}

#[test]
fn close_account_success() {
    let (pda, dart, authority) = (key(1), key(2), key(3));
    let a = initialize_account(pda, dart, authority);
    let mut accounts = vec![a, account(dart, true, 0), account(authority, true, 0)];
    run(&mut accounts, VaultInstruction::CloseAccount).unwrap();
    assert_eq!(accounts[2].lamports, RENT_LAMPORTS);
    assert_eq!(accounts[0].lamports, 0);
}

#[test]
fn close_account_fail_wrong_authority() {
    let (pda, dart, authority, wrong) = (key(1), key(2), key(3), key(5));
    let a = initialize_account(pda, dart, authority);
    let mut accounts = vec![a, account(dart, true, 0), account(wrong, true, 0)];
    assert_eq!(
        run(&mut accounts, VaultInstruction::CloseAccount),
        Err(ProgramError::Custom(VaultError::IncorrectAuthority.code()))
    );
    assert_eq!(accounts[0].lamports, RENT_LAMPORTS);
}

#[test]
fn close_account_moves_balance_exactly() {
    let (c, a) = (key(2), key(3));
    let mut rec = initialize_account(key(1), c, a);
    rec.lamports = 1000;
    let mut accounts = vec![rec, account(c, true, 0), account(a, true, 500)];
    run(&mut accounts, VaultInstruction::CloseAccount).unwrap();
    assert_eq!(accounts[0].lamports, 0);
    assert_eq!(accounts[2].lamports, 1500);
    assert_eq!(record_of(&accounts[0]).authority, a);
}

#[test]
fn close_account_overflow_changes_nothing() {
    let (c, a) = (key(2), key(3));
    let mut rec = initialize_account(key(1), c, a);
    rec.lamports = 2;
    let mut accounts = vec![rec, account(c, true, 0), account(a, true, u64::MAX - 1)];
    assert_eq!(
        run(&mut accounts, VaultInstruction::CloseAccount),
        Err(ProgramError::Custom(VaultError::Overflow.code()))
    );
    assert_eq!(accounts[0].lamports, 2);
    assert_eq!(accounts[2].lamports, u64::MAX - 1);

    accounts[0].lamports = 1;
    run(&mut accounts, VaultInstruction::CloseAccount).unwrap();
    assert_eq!(accounts[0].lamports, 0);
    assert_eq!(accounts[2].lamports, u64::MAX);
}

#[test]
fn malformed_instruction_is_rejected() {
    let mut accounts = vec![slot(key(1)), account(key(2), true, 0), account(key(3), false, 0)];
    assert_eq!(Processor::process_instruction(&id(), &mut accounts, &[0, 1]), Err(ProgramError::MalformedEncoding));
    assert_eq!(Processor::process_instruction(&id(), &mut accounts, &[9]), Err(ProgramError::MalformedEncoding));
    assert_eq!(accounts[0].data, vec![0; RECORD_LEN]);
}
