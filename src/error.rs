use vstd::prelude::*;

verus! {

/// Failures specific to the vault program.
#[derive(Clone, Copy, Debug, PartialEq, Eq, Structural)]
pub enum VaultError {
    /// A signer's identity does not match the one stored in the record.
    IncorrectAuthority,
    /// A balance addition would exceed the range of `u64`.
    Overflow,
}

/// Code under which a vault failure is reported to the host.
pub open spec fn vault_code(e: VaultError) -> u32 {
    match e {
        VaultError::IncorrectAuthority => 0,
        VaultError::Overflow => 1,
    }
}

impl VaultError {
    /// Numeric code of this failure in the host's custom range.
    pub fn code(&self) -> (r: u32)
        ensures
            r == vault_code(*self),
    {
        match self {
            VaultError::IncorrectAuthority => 0,
            VaultError::Overflow => 1,
        }
    }
}

/// Every failure a call into the program can end with.
#[derive(Clone, Copy, Debug, PartialEq, Eq, Structural)]
pub enum ProgramError {
    /// A program-specific failure, by its code (see `VaultError::code`).
    Custom(u32),
    /// Instruction or record bytes that do not parse.
    MalformedEncoding,
    /// The record slot is not owned by this program.
    IncorrectOwner,
    /// An expected signature was not presented.
    MissingSignature,
    /// The record slot already holds an initialized record.
    AlreadyInitialized,
    /// The record slot does not hold an initialized record.
    NotInitialized,
    /// Fewer accounts were passed than the instruction needs.
    NotEnoughAccounts,
}

impl From<VaultError> for ProgramError {
    fn from(e: VaultError) -> (r: ProgramError) {
        ProgramError::Custom(e.code())
    }
}

impl vstd::std_specs::convert::FromSpecImpl<VaultError> for ProgramError {
    open spec fn obeys_from_spec() -> bool {
        true
    }

    open spec fn from_spec(e: VaultError) -> ProgramError {
        ProgramError::Custom(vault_code(e))
    }
}

} // verus!
