use vstd::prelude::*;
use vstd::utf8::encode_utf8;
use crate::address::{derive_address, record_address};
use crate::schema::{
    account_image, decode_spec, fits, lemma_image_len, lemma_round_trip, KycRecord, UserKycData,
    EMAIL_CAPACITY, GOV_ID_CAPACITY, MOBILE_CAPACITY, NAME_CAPACITY,
};

verus! {

/// Why a record could not be created. A failed call changes nothing.
#[derive(Clone, Copy, Debug, PartialEq, Eq, Structural)]
pub enum KycError {
    /// The authority did not sign the call.
    SignatureMissing,
    /// The record account is not the one derived from the authority's key.
    AddressMismatch,
    /// A record already exists at the derived address.
    AddressAlreadyInUse,
    /// A field is longer than the capacity reserved for it.
    SerializationOverflow,
    /// The authority cannot pay for the record account's storage.
    InsufficientFunds,
}

/// The signer who owns the new record and pays for its storage.
#[derive(Clone, Debug, PartialEq, Eq)]
pub struct AuthorityAccount {
    pub key: [u8; 32],
    pub is_signer: bool,
    pub lamports: u64,
}

/// The account that is to hold the record; empty data means no record is there yet.
#[derive(Clone, Debug, PartialEq, Eq)]
pub struct RecordAccount {
    pub key: [u8; 32],
    pub lamports: u64,
    pub data: Vec<u8>,
}

/// The accounts that take part in creating a record, and the balance the
/// runtime requires of an account of `ACCOUNT_SPACE` bytes.
#[derive(Clone, Debug, PartialEq, Eq)]
pub struct StoreUserKyc {
    pub user_data: RecordAccount,
    pub authority: AuthorityAccount,
    pub rent_exempt_minimum: u64,
}

/// The accounts of a `StoreUserKyc` as values.
pub struct StoreUserKycView {
    pub record_key: Seq<u8>,
    pub record_lamports: nat,
    pub record_data: Seq<u8>,
    pub authority_key: Seq<u8>,
    pub is_signer: bool,
    pub authority_lamports: nat,
    pub rent_exempt_minimum: nat,
}

impl View for StoreUserKyc {
    type V = StoreUserKycView;

    open spec fn view(&self) -> StoreUserKycView {
        StoreUserKycView {
            record_key: self.user_data.key@,
            record_lamports: self.user_data.lamports as nat,
            record_data: self.user_data.data@,
            authority_key: self.authority.key@,
            is_signer: self.authority.is_signer,
            authority_lamports: self.authority.lamports as nat,
            rent_exempt_minimum: self.rent_exempt_minimum as nat,
        }
    }
}

/// The record a call asks for: its fields, bound to the signer's key
/// whatever key `fields` carries.
pub open spec fn requested_record(c: StoreUserKycView, fields: KycRecord) -> KycRecord {
    KycRecord { authority: c.authority_key, ..fields }
}

/// The lamports the authority must add so that the record account reaches the rent-exempt minimum.
pub open spec fn shortfall(c: StoreUserKycView) -> nat {
    if c.rent_exempt_minimum > c.record_lamports {
        (c.rent_exempt_minimum - c.record_lamports) as nat
    } else {
        0
    }
}

/// Whether the record account is the one derived from the authority's key.
pub open spec fn at_derived_address(c: StoreUserKycView) -> bool {
    match record_address(c.authority_key) {
        Some(found) => found.0 == c.record_key,
        None => false,
    }
}

/// What creating a record returns: the first failing check, in this order, or success.
pub open spec fn store_outcome(c: StoreUserKycView, fields: KycRecord) -> Result<(), KycError> {
    if !c.is_signer {
        Err(KycError::SignatureMissing)
    } else if !at_derived_address(c) {
        Err(KycError::AddressMismatch)
    } else if c.record_data.len() > 0 {
        Err(KycError::AddressAlreadyInUse)
    } else if !fits(requested_record(c, fields)) {
        Err(KycError::SerializationOverflow)
    } else if c.authority_lamports < shortfall(c) {
        Err(KycError::InsufficientFunds)
    } else {
        Ok(())
    }
}

/// The accounts after creating a record: on success the record account holds
/// the encoded record and the shortfall has moved from the authority to it;
/// on failure nothing has changed.
pub open spec fn store_after(c: StoreUserKycView, fields: KycRecord) -> StoreUserKycView {
    if store_outcome(c, fields) is Ok {
        StoreUserKycView {
            record_lamports: c.record_lamports + shortfall(c),
            record_data: account_image(requested_record(c, fields)),
            authority_lamports: (c.authority_lamports - shortfall(c)) as nat,
            ..c
        }
    } else {
        c
    }
}

/// The fields a call supplies, as the bytes that are stored.
pub open spec fn supplied_fields(
    name: Seq<char>,
    email: Seq<char>,
    mobile: Seq<char>,
    gov_id: Seq<char>,
    face_verified: bool,
) -> KycRecord {
    KycRecord {
        authority: Seq::empty(),
        name: encode_utf8(name),
        email: encode_utf8(email),
        mobile: encode_utf8(mobile),
        gov_id: encode_utf8(gov_id),
        face_verified,
    }
}

fn utf8_bytes(s: &String) -> (r: Vec<u8>)
    ensures
        r@ == encode_utf8(s@),
{
    vstd::slice::slice_to_vec(s.as_str().as_bytes())
}

fn same_key(a: &[u8; 32], b: &[u8; 32]) -> (r: bool)
    ensures
        r == (a@ == b@),
{
    let mut i: usize = 0;
    while i < 32
        invariant
            i <= 32,
            a@.len() == 32,
            b@.len() == 32,
            forall|k: int| 0 <= k < i ==> a@[k] == b@[k],
        decreases 32 - i,
    {
        if a[i] != b[i] {
            assert(a@[i as int] != b@[i as int]);
            return false;
        }
        i = i + 1;
    }
    assert(a@ =~= b@);
    true
}

/// Creates the identity record of the signing authority at the address
/// derived from its key, paying for the account's storage from the authority.
pub fn store_user_kyc(
    ctx: &mut StoreUserKyc,
    name: String,
    email: String,
    mobile: String,
    gov_id: String,
    face_verified: bool,
) -> (r: Result<(), KycError>)
    ensures
        r == store_outcome(old(ctx)@, supplied_fields(name@, email@, mobile@, gov_id@, face_verified)),
        final(ctx)@ == store_after(old(ctx)@, supplied_fields(name@, email@, mobile@, gov_id@, face_verified)),
{
    let ghost fields = supplied_fields(name@, email@, mobile@, gov_id@, face_verified);
    if !ctx.authority.is_signer {
        return Err(KycError::SignatureMissing);
    }
    match derive_address(&ctx.authority.key) {
        Some(found) => {
            if !same_key(&found.0, &ctx.user_data.key) {
                return Err(KycError::AddressMismatch);
            }
        },
        None => {
            return Err(KycError::AddressMismatch);
        },
    }
    if ctx.user_data.data.len() > 0 {
        return Err(KycError::AddressAlreadyInUse);
    }
    let record = UserKycData {
        authority: ctx.authority.key,
        name: utf8_bytes(&name),
        email: utf8_bytes(&email),
        mobile: utf8_bytes(&mobile),
        gov_id: utf8_bytes(&gov_id),
        face_verified,
    };
    assert(record@ == requested_record(old(ctx)@, fields));
    if !record.fits_capacity() {
        return Err(KycError::SerializationOverflow);
    }
    let needed: u64 = if ctx.rent_exempt_minimum > ctx.user_data.lamports {
        ctx.rent_exempt_minimum - ctx.user_data.lamports
    } else {
        0
    };
    if ctx.authority.lamports < needed {
        return Err(KycError::InsufficientFunds);
    }
    ctx.authority.lamports = ctx.authority.lamports - needed;
    ctx.user_data.lamports = ctx.user_data.lamports + needed;
    ctx.user_data.data = record.encode();
    Ok(())
}

/// Write-once: after a record is created, a second call from the same
/// authority with any fields fails with `AddressAlreadyInUse` and leaves the
/// stored record as the first call wrote it.
pub proof fn lemma_write_once(c: StoreUserKycView, first: KycRecord, second: KycRecord)
    requires
        store_outcome(c, first) is Ok,
    ensures
        store_outcome(store_after(c, first), second) == Err::<(), KycError>(KycError::AddressAlreadyInUse),
        store_after(store_after(c, first), second) == store_after(c, first),
{
    lemma_image_len(requested_record(c, first));
}

/// A successful call stores bytes that decode to exactly the requested
/// fields: every string comes back byte for byte, under the signer's key.
pub proof fn lemma_stored_record_decodes(c: StoreUserKycView, fields: KycRecord)
    requires
        store_outcome(c, fields) is Ok,
    ensures
        decode_spec(store_after(c, fields).record_data) == Some(requested_record(c, fields)),
{
    lemma_round_trip(requested_record(c, fields));
}

/// A field beyond its capacity, in a call that is signed and aimed at the
/// authority's free derived address, fails with `SerializationOverflow` and
/// leaves the record account empty.
pub proof fn lemma_capacity_rejection(c: StoreUserKycView, fields: KycRecord)
    requires
        c.is_signer,
        at_derived_address(c),
        c.record_data.len() == 0,
        fields.name.len() > NAME_CAPACITY || fields.email.len() > EMAIL_CAPACITY
            || fields.mobile.len() > MOBILE_CAPACITY || fields.gov_id.len() > GOV_ID_CAPACITY,
    ensures
        store_outcome(c, fields) == Err::<(), KycError>(KycError::SerializationOverflow),
        store_after(c, fields) == c,
        store_after(c, fields).record_data.len() == 0,
{
}

/// The stored record's authority is always the signer's key, whatever key the
/// supplied fields carry, and no call changes which keys take part.
pub proof fn lemma_authority_integrity(c: StoreUserKycView, fields: KycRecord)
    ensures
        store_after(c, fields).authority_key == c.authority_key,
        store_after(c, fields).record_key == c.record_key,
        store_outcome(c, fields) is Ok ==> (match decode_spec(store_after(c, fields).record_data) {
            Some(stored) => stored.authority == c.authority_key,
            None => false,
        }),
{
    if store_outcome(c, fields) is Ok {
        lemma_round_trip(requested_record(c, fields));
    }
}

} // verus!
