use vstd::prelude::*;

verus! {

/// Most bytes a name may hold.
pub const NAME_CAPACITY: usize = 100;
/// Most bytes an email address may hold.
pub const EMAIL_CAPACITY: usize = 100;
/// Most bytes a mobile number may hold.
pub const MOBILE_CAPACITY: usize = 20;
/// Most bytes a government identifier may hold.
pub const GOV_ID_CAPACITY: usize = 50;
/// Bytes of the account-type header that opens every stored record.
pub const DISCRIMINATOR_LEN: usize = 8;
/// Bytes allocated for a record account: the header and `UserKycData::LEN`.
pub const ACCOUNT_SPACE: usize = DISCRIMINATOR_LEN + UserKycData::LEN;

/// What `anchor_lang::solana_program::hash::hash` returns: the SHA-256 digest of the bytes.
pub uninterp spec fn sha256_of(data: Seq<u8>) -> Seq<u8>;

/// Relies on anchor_lang's `solana_program::hash::hash`, the SHA-256 digest
/// of its input, 32 bytes long.
#[verifier::external_body]
fn sha256(data: &[u8]) -> (r: [u8; 32])
    ensures
        r@ == sha256_of(data@),
{
    anchor_lang::solana_program::hash::hash(data).to_bytes()
}

/// The bytes of `account:UserKycData`, whose digest names the record type.
pub open spec fn discriminator_preimage() -> Seq<u8> {
    seq![
        97u8, 99u8, 99u8, 111u8, 117u8, 110u8, 116u8, 58u8, 85u8, 115u8,
        101u8, 114u8, 75u8, 121u8, 99u8, 68u8, 97u8, 116u8, 97u8,
    ]
}

/// The 8-byte header of a stored record: the first bytes of the digest of its type name.
pub open spec fn discriminator_spec() -> Seq<u8> {
    Seq::new(DISCRIMINATOR_LEN as nat, |i: int| sha256_of(discriminator_preimage())[i])
}

pub fn discriminator() -> (r: Vec<u8>)
    ensures
        r@ == discriminator_spec(),
{
    let pre: [u8; 19] = [
        97u8, 99u8, 99u8, 111u8, 117u8, 110u8, 116u8, 58u8, 85u8, 115u8,
        101u8, 114u8, 75u8, 121u8, 99u8, 68u8, 97u8, 116u8, 97u8,
    ];
    assert(pre@ =~= discriminator_preimage());
    let digest = sha256(pre.as_slice());
    let mut r: Vec<u8> = Vec::new();
    let mut i: usize = 0;
    while i < DISCRIMINATOR_LEN
        invariant
            i <= DISCRIMINATOR_LEN,
            digest@.len() == 32,
            digest@ == sha256_of(discriminator_preimage()),
            r@ =~= Seq::new(i as nat, |j: int| digest@[j]),
        decreases DISCRIMINATOR_LEN - i,
    {
        r.push(digest[i]);
        i = i + 1;
    }
    r
}

/// The identity record as values: the authority's 32-byte key and four byte strings.
pub struct KycRecord {
    pub authority: Seq<u8>,
    pub name: Seq<u8>,
    pub email: Seq<u8>,
    pub mobile: Seq<u8>,
    pub gov_id: Seq<u8>,
    pub face_verified: bool,
}

/// Every field lies within its reserved capacity.
pub open spec fn fits(r: KycRecord) -> bool {
    &&& r.authority.len() == 32
    &&& r.name.len() <= NAME_CAPACITY
    &&& r.email.len() <= EMAIL_CAPACITY
    &&& r.mobile.len() <= MOBILE_CAPACITY
    &&& r.gov_id.len() <= GOV_ID_CAPACITY
}

/// A length as four little-endian bytes.
pub open spec fn le_u32(n: nat) -> Seq<u8> {
    seq![(n % 256) as u8, ((n / 256) % 256) as u8, ((n / 65536) % 256) as u8, ((n / 16777216) % 256) as u8]
}

/// A byte string as stored: its length prefix, then its bytes.
pub open spec fn field_bytes(s: Seq<u8>) -> Seq<u8> {
    le_u32(s.len()) + s
}

pub open spec fn bool_byte(b: bool) -> u8 {
    if b { 1u8 } else { 0u8 }
}

/// The record's serialized form, header first, before padding.
pub open spec fn record_bytes(r: KycRecord) -> Seq<u8> {
    discriminator_spec() + r.authority + field_bytes(r.name) + field_bytes(r.email)
        + field_bytes(r.mobile) + field_bytes(r.gov_id) + seq![bool_byte(r.face_verified)]
}

/// The whole account as stored: the serialized record padded with zeros to `ACCOUNT_SPACE`.
pub open spec fn account_image(r: KycRecord) -> Seq<u8> {
    record_bytes(r) + Seq::new((ACCOUNT_SPACE - record_bytes(r).len()) as nat, |i: int| 0u8)
}

/// The stored bytes of a record that fits fill exactly `ACCOUNT_SPACE`.
pub proof fn lemma_image_len(r: KycRecord)
    requires
        fits(r),
    ensures
        account_image(r).len() == ACCOUNT_SPACE,
{
}

/// The little-endian number in the four bytes at `pos`.
pub open spec fn read_le_u32(b: Seq<u8>, pos: int) -> nat {
    (b[pos] + 256 * b[pos + 1] + 65536 * b[pos + 2] + 16777216 * b[pos + 3]) as nat
}

/// The length-prefixed byte string at `pos`, and the position after it.
pub open spec fn read_field(b: Seq<u8>, pos: int) -> Option<(Seq<u8>, int)> {
    if 0 <= pos && pos + 4 <= b.len() && pos + 4 + read_le_u32(b, pos) <= b.len() {
        let end = pos + 4 + read_le_u32(b, pos);
        Some((b.subrange(pos + 4, end), end))
    } else {
        None
    }
}

/// The record that stored bytes hold, if they hold one: the header must
/// match, each field must fit in what follows, and the flag byte must be 0 or 1.
pub open spec fn decode_spec(b: Seq<u8>) -> Option<KycRecord> {
    if b.len() < 40 || b.subrange(0, 8) != discriminator_spec() {
        None
    } else {
        match read_field(b, 40) {
            None => None,
            Some((name, p1)) => match read_field(b, p1) {
                None => None,
                Some((email, p2)) => match read_field(b, p2) {
                    None => None,
                    Some((mobile, p3)) => match read_field(b, p3) {
                        None => None,
                        Some((gov_id, p4)) => if p4 < b.len() && (b[p4] == 0 || b[p4] == 1) {
                            Some(KycRecord {
                                authority: b.subrange(8, 40),
                                name,
                                email,
                                mobile,
                                gov_id,
                                face_verified: b[p4] == 1,
                            })
                        } else {
                            None
                        },
                    },
                },
            },
        }
    }
}

proof fn lemma_read_field(pre: Seq<u8>, s: Seq<u8>, rest: Seq<u8>)
    requires
        s.len() <= 255,
    ensures
        read_field(pre + field_bytes(s) + rest, pre.len() as int)
            == Some((s, pre.len() + 4 + s.len() as int)),
{
    let b = pre + field_bytes(s) + rest;
    let p = pre.len() as int;
    assert(le_u32(s.len()) =~= seq![s.len() as u8, 0u8, 0u8, 0u8]);
    assert(b[p] == s.len() as u8);
    assert(b[p + 1] == 0 && b[p + 2] == 0 && b[p + 3] == 0);
    assert(read_le_u32(b, p) == s.len());
    assert(b.subrange(p + 4, p + 4 + s.len()) =~= s);
}

/// Decoding the stored bytes of a record that fits gives back exactly that record.
#[verifier::rlimit(50)]
pub proof fn lemma_round_trip(r: KycRecord)
    requires
        fits(r),
    ensures
        decode_spec(account_image(r)) == Some(r),
{
    let b = account_image(r);
    let h = discriminator_spec() + r.authority;
    let h1 = h + field_bytes(r.name);
    let h2 = h1 + field_bytes(r.email);
    let h3 = h2 + field_bytes(r.mobile);
    let h4 = h3 + field_bytes(r.gov_id);
    let flag = seq![bool_byte(r.face_verified)];
    let pad = Seq::new((ACCOUNT_SPACE - record_bytes(r).len()) as nat, |i: int| 0u8);
    assert(record_bytes(r) == h4 + flag);
    assert(h.len() == 40);
    assert(h4.len() <= 326);
    assert(b == h4 + flag + pad);
    assert(b.len() == 327);
    lemma_read_field(h, r.name, field_bytes(r.email) + field_bytes(r.mobile) + field_bytes(r.gov_id) + flag + pad);
    assert(b =~= h + field_bytes(r.name) + (field_bytes(r.email) + field_bytes(r.mobile) + field_bytes(r.gov_id) + flag + pad));
    lemma_read_field(h1, r.email, field_bytes(r.mobile) + field_bytes(r.gov_id) + flag + pad);
    assert(b =~= h1 + field_bytes(r.email) + (field_bytes(r.mobile) + field_bytes(r.gov_id) + flag + pad));
    lemma_read_field(h2, r.mobile, field_bytes(r.gov_id) + flag + pad);
    assert(b =~= h2 + field_bytes(r.mobile) + (field_bytes(r.gov_id) + flag + pad));
    lemma_read_field(h3, r.gov_id, flag + pad);
    assert(b =~= h3 + field_bytes(r.gov_id) + (flag + pad));
    assert(b[h4.len() as int] == bool_byte(r.face_verified));
    assert(b.subrange(0, 8) =~= discriminator_spec());
    assert(b.subrange(8, 40) =~= r.authority);
}

/// The identity record kept for one authority.
#[derive(Clone, Debug, PartialEq, Eq)]
pub struct UserKycData {
    pub authority: [u8; 32],
    pub name: Vec<u8>,
    pub email: Vec<u8>,
    pub mobile: Vec<u8>,
    pub gov_id: Vec<u8>,
    pub face_verified: bool,
}

impl View for UserKycData {
    type V = KycRecord;

    open spec fn view(&self) -> KycRecord {
        KycRecord {
            authority: self.authority@,
            name: self.name@,
            email: self.email@,
            mobile: self.mobile@,
            gov_id: self.gov_id@,
            face_verified: self.face_verified,
        }
    }
}

fn push_field(out: &mut Vec<u8>, s: &Vec<u8>)
    requires
        s@.len() <= 255,
    ensures
        final(out)@ == old(out)@ + field_bytes(s@),
{
    let n = s.len() as u8;
    let ghost start = out@;
    out.push(n);
    out.push(0u8);
    out.push(0u8);
    out.push(0u8);
    assert(le_u32(s@.len()) =~= seq![n, 0u8, 0u8, 0u8]);
    let mut i: usize = 0;
    while i < s.len()
        invariant
            i <= s@.len(),
            out@ =~= start + le_u32(s@.len()) + s@.subrange(0, i as int),
        decreases s@.len() - i,
    {
        out.push(s[i]);
        i = i + 1;
    }
    assert(s@.subrange(0, s@.len() as int) =~= s@);
}

impl UserKycData {
    /// Bytes reserved for a record after its header: the key, four
    /// length-prefixed strings at full capacity, and the flag.
    pub const LEN: usize = 32 + 4 + NAME_CAPACITY + 4 + EMAIL_CAPACITY + 4 + MOBILE_CAPACITY + 4
        + GOV_ID_CAPACITY + 1;

    /// Whether every field lies within its reserved capacity.
    pub fn fits_capacity(&self) -> (r: bool)
        ensures
            r == fits(self@),
    {
        self.name.len() <= NAME_CAPACITY && self.email.len() <= EMAIL_CAPACITY
            && self.mobile.len() <= MOBILE_CAPACITY && self.gov_id.len() <= GOV_ID_CAPACITY
    }

    /// The account bytes that store this record: header, fields, then zeros up to `ACCOUNT_SPACE`.
    pub fn encode(&self) -> (r: Vec<u8>)
        requires
            fits(self@),
        ensures
            r@ == account_image(self@),
            r@.len() == ACCOUNT_SPACE,
    {
        let mut out = discriminator();
        let mut i: usize = 0;
        while i < 32
            invariant
                i <= 32,
                out@ =~= discriminator_spec() + self.authority@.subrange(0, i as int),
            decreases 32 - i,
        {
            out.push(self.authority[i]);
            i = i + 1;
        }
        assert(self.authority@.subrange(0, 32) =~= self.authority@);
        push_field(&mut out, &self.name);
        push_field(&mut out, &self.email);
        push_field(&mut out, &self.mobile);
        push_field(&mut out, &self.gov_id);
        out.push(if self.face_verified { 1u8 } else { 0u8 });
        assert(out@ =~= record_bytes(self@));
        let ghost body = out@;
        while out.len() < ACCOUNT_SPACE
            invariant
                body == record_bytes(self@),
                body.len() <= out@.len() <= ACCOUNT_SPACE,
                out@ =~= body + Seq::new((out@.len() - body.len()) as nat, |k: int| 0u8),
            decreases ACCOUNT_SPACE - out@.len(),
        {
            out.push(0u8);
        }
        out
    }
}

fn copy_range(data: &[u8], start: usize, end: usize) -> (r: Vec<u8>)
    requires
        start <= end <= data@.len(),
    ensures
        r@ == data@.subrange(start as int, end as int),
{
    let mut r: Vec<u8> = Vec::new();
    let mut i: usize = start;
    while i < end
        invariant
            start <= i <= end,
            end <= data@.len(),
            r@ =~= data@.subrange(start as int, i as int),
        decreases end - i,
    {
        r.push(data[i]);
        i = i + 1;
    }
    r
}

fn read_field_at(data: &[u8], pos: usize) -> (r: Option<(Vec<u8>, usize)>)
    ensures
        match r {
            Some(found) => read_field(data@, pos as int) == Some((found.0@, found.1 as int)),
            None => read_field(data@, pos as int) is None,
        },
{
    if pos > data.len() || data.len() - pos < 4 {
        return None;
    }
    let len: u64 = data[pos] as u64 + 256 * (data[pos + 1] as u64) + 65536 * (data[pos + 2] as u64)
        + 16777216 * (data[pos + 3] as u64);
    assert(len == read_le_u32(data@, pos as int));
    let avail: usize = data.len() - pos - 4;
    if len > avail as u64 {
        None
    } else {
        let start = pos + 4;
        let end = start + len as usize;
        Some((copy_range(data, start, end), end))
    }
}

/// Reads a stored record back from account bytes; `None` exactly when the
/// bytes hold no record of this layout.
pub fn decode_user_kyc(data: &[u8]) -> (r: Option<UserKycData>)
    ensures
        match r {
            Some(d) => decode_spec(data@) == Some(d@),
            None => decode_spec(data@) is None,
        },
{
    if data.len() < 40 {
        return None;
    }
    let disc = discriminator();
    let mut i: usize = 0;
    while i < DISCRIMINATOR_LEN
        invariant
            i <= DISCRIMINATOR_LEN,
            data@.len() >= 40,
            disc@ == discriminator_spec(),
            forall|k: int| 0 <= k < i ==> data@[k] == disc@[k],
        decreases DISCRIMINATOR_LEN - i,
    {
        if data[i] != disc[i] {
            assert(data@.subrange(0, 8)[i as int] != discriminator_spec()[i as int]);
            return None;
        }
        i = i + 1;
    }
    assert(data@.subrange(0, 8) =~= discriminator_spec());
    let mut authority: [u8; 32] = [0u8; 32];
    let mut k: usize = 0;
    while k < 32
        invariant
            k <= 32,
            data@.len() >= 40,
            forall|m: int| 0 <= m < k ==> authority@[m] == data@[m + 8],
        decreases 32 - k,
    {
        authority[k] = data[k + 8];
        k = k + 1;
    }
    assert(authority@ =~= data@.subrange(8, 40));
    let (name, p1) = match read_field_at(data, 40) {
        Some(f) => f,
        None => return None,
    };
    let (email, p2) = match read_field_at(data, p1) {
        Some(f) => f,
        None => return None,
    };
    let (mobile, p3) = match read_field_at(data, p2) {
        Some(f) => f,
        None => return None,
    };
    let (gov_id, p4) = match read_field_at(data, p3) {
        Some(f) => f,
        None => return None,
    };
    if p4 >= data.len() || data[p4] > 1 {
        return None;
    }
    Some(UserKycData { authority, name, email, mobile, gov_id, face_verified: data[p4] == 1 })
}

} // verus!
