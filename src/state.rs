use crate::error::ProgramError;
use vstd::prelude::*;

verus! {

/// Width in bytes of an identity.
pub const ID_LEN: usize = 32;

/// A 32-byte public identifier of a party or a program.
#[derive(Clone, Copy, Debug)]
pub struct Identity {
    pub bytes: [u8; 32],
}

impl View for Identity {
    type V = Seq<u8>;

    open spec fn view(&self) -> Seq<u8> {
        self.bytes@
    }
}

impl Identity {
    /// Identity holding the given bytes.
    pub fn new_from_array(bytes: [u8; 32]) -> (r: Identity)
        ensures
            r.bytes == bytes,
    {
        Identity { bytes }
    }

    /// Whether two identities hold the same bytes.
    pub fn same_as(&self, other: &Identity) -> (r: bool)
        ensures
            r == (self@ == other@),
            r == (*self == *other),
    {
        let mut i: usize = 0;
        while i < ID_LEN
            invariant
                i <= ID_LEN,
                forall|j: int| 0 <= j < i ==> self@[j] == other@[j],
            decreases ID_LEN - i,
        {
            if self.bytes[i] != other.bytes[i] {
                return false;
            }
            i = i + 1;
        }
        proof {
            assert(self@ =~= other@);
            assert(self.bytes == other.bytes);
        }
        true
    }
}

impl PartialEq for Identity {
    fn eq(&self, other: &Identity) -> (r: bool) {
        self.same_as(other)
    }
}

impl vstd::std_specs::cmp::PartialEqSpecImpl for Identity {
    open spec fn obeys_eq_spec() -> bool {
        true
    }

    open spec fn eq_spec(&self, other: &Identity) -> bool {
        self@ == other@
    }
}

/// Width in bytes of an encoded record: version, authority, custodian.
pub const RECORD_LEN: usize = 65;

/// Version written into newly initialized records.
pub const CURRENT_VERSION: u8 = 1;

/// The persisted state of a vault slot.
#[derive(Clone, Copy, Debug)]
pub struct VaultRecord {
    /// Schema version; only `CURRENT_VERSION` marks an initialized record.
    pub version: u8,
    /// The party currently in control of the slot.
    pub authority: Identity,
    /// The intermediary that co-signs every operation on the slot.
    pub custodian: Identity,
}

/// The bytes of a record: version, then authority, then custodian.
pub open spec fn encoded(r: VaultRecord) -> Seq<u8> {
    seq![r.version] + r.authority@ + r.custodian@
}

/// `data` starts with the encoding of `r`; bytes after it are ignored.
pub open spec fn decodes_to(data: Seq<u8>, r: VaultRecord) -> bool {
    data.len() >= RECORD_LEN && encoded(r) == data.subrange(0, RECORD_LEN as int)
}

/// Whether the record bytes at the head of `data` mark an initialized record.
pub open spec fn holds_initialized(data: Seq<u8>) -> bool {
    data.len() >= RECORD_LEN && data[0] == CURRENT_VERSION
}

/// The authority stored in the record bytes at the head of `data`.
pub open spec fn stored_authority(data: Seq<u8>) -> Seq<u8> {
    data.subrange(1, 33)
}

/// The custodian stored in the record bytes at the head of `data`.
pub open spec fn stored_custodian(data: Seq<u8>) -> Seq<u8> {
    data.subrange(33, 65)
}

/// Encoding is injective and decoding undoes it: the encoding of any record
/// decodes to that record and to no other.
pub proof fn lemma_round_trip(r: VaultRecord, s: VaultRecord)
    ensures
        encoded(r).len() == RECORD_LEN,
        decodes_to(encoded(r), r),
        decodes_to(encoded(r), s) ==> s == r,
{
    let e = encoded(r);
    assert(e.len() == RECORD_LEN);
    assert(e.subrange(0, RECORD_LEN as int) =~= e);
    if decodes_to(e, s) {
        let f = encoded(s);
        assert(f[0] == e[0]);
        assert(s.authority@ =~= f.subrange(1, 33));
        assert(r.authority@ =~= e.subrange(1, 33));
        assert(s.custodian@ =~= f.subrange(33, 65));
        assert(r.custodian@ =~= e.subrange(33, 65));
        assert(s.authority.bytes == r.authority.bytes);
        assert(s.custodian.bytes == r.custodian.bytes);
    }
}

/// The parts of `encoded(r)` are the fields of `r`.
pub proof fn lemma_encoded_fields(r: VaultRecord, data: Seq<u8>)
    requires
        decodes_to(data, r),
    ensures
        data[0] == r.version,
        stored_authority(data) == r.authority@,
        stored_custodian(data) == r.custodian@,
        holds_initialized(data) == r.is_initialized_spec(),
{
    let e = encoded(r);
    assert(data[0] == data.subrange(0, RECORD_LEN as int)[0]);
    assert(stored_authority(data) =~= e.subrange(1, 33));
    assert(stored_custodian(data) =~= e.subrange(33, 65));
    assert(e.subrange(1, 33) =~= r.authority@);
    assert(e.subrange(33, 65) =~= r.custodian@);
}

impl VaultRecord {
    /// The record has the current version.
    pub open spec fn is_initialized_spec(&self) -> bool {
        self.version == CURRENT_VERSION
    }

    /// Whether the record is initialized, i.e. has the current version.
    pub fn is_initialized(&self) -> (r: bool)
        ensures
            r == self.is_initialized_spec(),
    {
        self.version == CURRENT_VERSION
    }

    /// The encoding of the record, `RECORD_LEN` bytes.
    pub fn to_vec(&self) -> (r: Vec<u8>)
        ensures
            r@ == encoded(*self),
    {
        let mut out: Vec<u8> = Vec::new();
        out.push(self.version);
        let mut i: usize = 0;
        while i < ID_LEN
            invariant
                i <= ID_LEN,
                out@ == seq![self.version] + self.authority@.subrange(0, i as int),
            decreases ID_LEN - i,
        {
            out.push(self.authority.bytes[i]);
            i = i + 1;
            assert(self.authority@.subrange(0, i as int) =~= self.authority@.subrange(0, i - 1)
                .push(self.authority@[i - 1]));
        }
        assert(self.authority@.subrange(0, ID_LEN as int) =~= self.authority@);
        let mut k: usize = 0;
        while k < ID_LEN
            invariant
                k <= ID_LEN,
                out@ == seq![self.version] + self.authority@ + self.custodian@.subrange(0, k as int),
            decreases ID_LEN - k,
        {
            out.push(self.custodian.bytes[k]);
            k = k + 1;
            assert(self.custodian@.subrange(0, k as int) =~= self.custodian@.subrange(0, k - 1)
                .push(self.custodian@[k - 1]));
        }
        assert(self.custodian@.subrange(0, ID_LEN as int) =~= self.custodian@);
        out
    }

    /// Reads a record from the head of `data`; bytes after the record are ignored.
    pub fn try_from_slice(data: &[u8]) -> (r: Result<VaultRecord, ProgramError>)
        ensures
            r is Ok <==> data@.len() >= RECORD_LEN,
            data@.len() < RECORD_LEN ==> r == Err::<VaultRecord, ProgramError>(ProgramError::MalformedEncoding),
            r matches Ok(rec) ==> decodes_to(data@, rec),
    {
        if data.len() < RECORD_LEN {
            return Err(ProgramError::MalformedEncoding);
        }
        let authority = read_identity(data, 1);
        let custodian = read_identity(data, 33);
        let rec = VaultRecord { version: data[0], authority, custodian };
        assert(encoded(rec) =~= data@.subrange(0, RECORD_LEN as int));
        Ok(rec)
    }

    /// Writes the encoding of the record over the first `RECORD_LEN` bytes of `data`.
    pub fn write_into(&self, data: &mut Vec<u8>)
        requires
            old(data)@.len() >= RECORD_LEN,
        ensures
            final(data)@ == encoded(*self) + old(data)@.subrange(RECORD_LEN as int, old(data)@.len() as int),
    {
        let bytes = self.to_vec();
        let ghost d0 = data@;
        let mut i: usize = 0;
        while i < RECORD_LEN
            invariant
                i <= RECORD_LEN,
                bytes@ == encoded(*self),
                data@.len() == d0.len(),
                RECORD_LEN <= d0.len(),
                forall|j: int| 0 <= j < i ==> data@[j] == bytes@[j],
                forall|j: int| i <= j < d0.len() ==> data@[j] == d0[j],
            decreases RECORD_LEN - i,
        {
            data.set(i, bytes[i]);
            i = i + 1;
        }
        assert(data@ =~= encoded(*self) + d0.subrange(RECORD_LEN as int, d0.len() as int));
    }
}

/// Reads the identity stored at `data[start..start + 32]`.
fn read_identity(data: &[u8], start: usize) -> (r: Identity)
    requires
        start <= RECORD_LEN,
        start + ID_LEN <= data@.len(),
    ensures
        r@ == data@.subrange(start as int, start + ID_LEN),
{
    let mut bytes: [u8; 32] = [0u8; 32];
    let mut i: usize = 0;
    while i < ID_LEN
        invariant
            i <= ID_LEN,
            start <= RECORD_LEN,
            start + ID_LEN <= data@.len(),
            forall|j: int| 0 <= j < i ==> bytes@[j] == data@[start + j],
        decreases ID_LEN - i,
    {
        bytes[i] = data[start + i];
        i = i + 1;
    }
    let r = Identity { bytes };
    assert(r@ =~= data@.subrange(start as int, start + ID_LEN));
    r
}

} // verus!
