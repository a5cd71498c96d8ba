use anchor_lang::solana_program::hash::hash;
use anchor_lang::solana_program::pubkey::Pubkey;
use bnpl_kyc::{
    decode_user_kyc, derive_address, discriminator, program_id, record_tag, store_user_kyc,
    AuthorityAccount, KycError, RecordAccount, StoreUserKyc, UserKycData, ACCOUNT_SPACE,
};
use std::str::FromStr;

const RENT: u64 = 3_166_800;

fn key(seed: u8) -> [u8; 32] {
    let mut k = [0u8; 32];
    for (i, b) in k.iter_mut().enumerate() {
        *b = seed.wrapping_mul(31).wrapping_add(i as u8);
    }
    k
}

fn context_for(authority: [u8; 32], lamports: u64) -> StoreUserKyc {
    let (address, _bump) = derive_address(&authority).expect("a viable bump exists");
    StoreUserKyc {
        user_data: RecordAccount { key: address, lamports: 0, data: Vec::new() },
        authority: AuthorityAccount { key: authority, is_signer: true, lamports },
        rent_exempt_minimum: RENT,
    }
}

fn store(ctx: &mut StoreUserKyc, name: &str, email: &str, mobile: &str, gov_id: &str, face: bool) -> Result<(), KycError> {
    store_user_kyc(ctx, name.to_string(), email.to_string(), mobile.to_string(), gov_id.to_string(), face)
}

#[test]
fn alice_record_is_created_and_decodes() {
    let k = key(1);
    let mut ctx = context_for(k, 10_000_000);
    assert_eq!(store(&mut ctx, "Alice", "a@x.com", "12345", "ID1", true), Ok(()));
    assert_eq!(ctx.user_data.data.len(), 327);
    assert_eq!(ctx.user_data.lamports, RENT);
    assert_eq!(ctx.authority.lamports, 10_000_000 - RENT);
    let stored = decode_user_kyc(&ctx.user_data.data).expect("stored bytes decode");
    assert_eq!(
        stored,
        UserKycData {
            authority: k,
            name: b"Alice".to_vec(),
            email: b"a@x.com".to_vec(),
            mobile: b"12345".to_vec(),
            gov_id: b"ID1".to_vec(),
            face_verified: true,
        }
    );
}

#[test]
fn second_call_fails_and_keeps_the_record() {
    let k = key(2);
    let mut ctx = context_for(k, 10_000_000);
    assert_eq!(store(&mut ctx, "Alice", "a@x.com", "12345", "ID1", true), Ok(()));
    let before = ctx.clone();
    assert_eq!(store(&mut ctx, "Mallory", "m@y.org", "999", "ID2", false), Err(KycError::AddressAlreadyInUse));
    assert_eq!(ctx, before);
    assert_eq!(decode_user_kyc(&ctx.user_data.data).unwrap().name, b"Alice".to_vec());
}

#[test]
fn gov_id_over_capacity_is_rejected() {
    let mut ctx = context_for(key(3), 10_000_000);
    let before = ctx.clone();
    let gov_id = "G".repeat(51);
    assert_eq!(store(&mut ctx, "Bob", "b@x.com", "1", &gov_id, false), Err(KycError::SerializationOverflow));
    assert_eq!(ctx, before);
    assert!(ctx.user_data.data.is_empty());
}

#[test]
fn fields_at_capacity_are_accepted() {
    let mut ctx = context_for(key(4), 10_000_000);
    let name = "n".repeat(100);
    let email = "e".repeat(100);
    let mobile = "7".repeat(20);
    let gov_id = "g".repeat(50);
    assert_eq!(store(&mut ctx, &name, &email, &mobile, &gov_id, false), Ok(()));
    assert_eq!(ctx.user_data.data.len(), ACCOUNT_SPACE);
    let stored = decode_user_kyc(&ctx.user_data.data).unwrap();
    assert_eq!(stored.name, name.into_bytes());
    assert_eq!(stored.gov_id, gov_id.into_bytes());
    assert!(!stored.face_verified);
}

#[test]
fn each_overlong_field_is_rejected() {
    let long_name = "n".repeat(101);
    let long_mobile = "1".repeat(21);
    let mut ctx = context_for(key(5), 10_000_000);
    assert_eq!(store(&mut ctx, &long_name, "", "", "", true), Err(KycError::SerializationOverflow));
    assert_eq!(store(&mut ctx, "", &long_name, "", "", true), Err(KycError::SerializationOverflow));
    assert_eq!(store(&mut ctx, "", "", &long_mobile, "", true), Err(KycError::SerializationOverflow));
    assert!(ctx.user_data.data.is_empty());
}

#[test]
fn multibyte_name_round_trips_as_utf8() {
    let mut ctx = context_for(key(6), 10_000_000);
    assert_eq!(store(&mut ctx, "Zoë Ångström", "z@x.com", "+4912", "DE-7", true), Ok(()));
    let stored = decode_user_kyc(&ctx.user_data.data).unwrap();
    assert_eq!(String::from_utf8(stored.name).unwrap(), "Zoë Ångström");
}

#[test]
fn unsigned_call_is_rejected() {
    let mut ctx = context_for(key(7), 10_000_000);
    ctx.authority.is_signer = false;
    let before = ctx.clone();
    assert_eq!(store(&mut ctx, "Alice", "a@x.com", "12345", "ID1", true), Err(KycError::SignatureMissing));
    assert_eq!(ctx, before);
}

#[test]
fn account_at_another_address_is_rejected() {
    let mut ctx = context_for(key(8), 10_000_000);
    ctx.user_data.key = key(9);
    assert_eq!(store(&mut ctx, "Alice", "a@x.com", "12345", "ID1", true), Err(KycError::AddressMismatch));
    assert!(ctx.user_data.data.is_empty());
}

#[test]
fn poor_authority_is_rejected() {
    let mut ctx = context_for(key(10), RENT - 1);
    let before = ctx.clone();
    assert_eq!(store(&mut ctx, "Alice", "a@x.com", "12345", "ID1", true), Err(KycError::InsufficientFunds));
    assert_eq!(ctx, before);
}

#[test]
fn prefunded_account_only_needs_the_difference() {
    let mut ctx = context_for(key(11), 1_000);
    ctx.user_data.lamports = RENT - 1_000;
    assert_eq!(store(&mut ctx, "Alice", "a@x.com", "12345", "ID1", true), Ok(()));
    assert_eq!(ctx.authority.lamports, 0);
    assert_eq!(ctx.user_data.lamports, RENT);
}

#[test]
fn stored_authority_is_the_signer() {
    let k = key(12);
    let mut ctx = context_for(k, 10_000_000);
    assert_eq!(store(&mut ctx, "Carol", "c@x.com", "555", "ID9", false), Ok(()));
    assert_eq!(&ctx.user_data.data[8..40], &k[..]);
    assert_eq!(decode_user_kyc(&ctx.user_data.data).unwrap().authority, k);
}

#[test]
fn derivation_is_deterministic() {
    let k = key(13);
    assert_eq!(derive_address(&k), derive_address(&k));
}

#[test]
fn distinct_authorities_get_distinct_addresses() {
    let a = derive_address(&key(14)).unwrap();
    let b = derive_address(&key(15)).unwrap();
    assert_ne!(a.0, b.0);
}

#[test]
fn derivation_matches_the_runtime() {
    let k = key(16);
    let program = Pubkey::from_str("HA3v3eTLGokEfZU7acnJGn94Xv5TiRD8GBV4zr885JDj").unwrap();
    let (expected, bump) = Pubkey::find_program_address(&[b"user_kyc", &k], &program);
    assert_eq!(derive_address(&k), Some((expected.to_bytes(), bump)));
    assert_ne!(derive_address(&k).unwrap().0, k);
}

#[test]
fn program_id_and_tag_constants() {
    let program = Pubkey::from_str("HA3v3eTLGokEfZU7acnJGn94Xv5TiRD8GBV4zr885JDj").unwrap();
    assert_eq!(program_id(), program.to_bytes());
    assert_eq!(&record_tag(), b"user_kyc");
}

#[test]
fn discriminator_is_the_type_name_digest() {
    let digest = hash(b"account:UserKycData").to_bytes();
    assert_eq!(discriminator(), digest[..8].to_vec());
    assert_ne!(discriminator(), b"account:".to_vec());
}

#[test]
fn record_layout_sizes() {
    assert_eq!(UserKycData::LEN, 319);
    assert_eq!(ACCOUNT_SPACE, 8 + UserKycData::LEN);
}

#[test]
fn encode_writes_length_prefixed_fields() {
    let record = UserKycData {
        authority: key(17),
        name: b"Al".to_vec(),
        email: Vec::new(),
        mobile: b"1".to_vec(),
        gov_id: Vec::new(),
        face_verified: true,
    };
    assert!(record.fits_capacity());
    let bytes = record.encode();
    assert_eq!(bytes.len(), 327);
    assert_eq!(&bytes[40..46], &[2, 0, 0, 0, b'A', b'l']);
    assert_eq!(&bytes[46..50], &[0, 0, 0, 0]);
    assert_eq!(&bytes[50..55], &[1, 0, 0, 0, b'1']);
    assert_eq!(&bytes[55..60], &[0, 0, 0, 0, 1]);
    assert!(bytes[60..].iter().all(|b| *b == 0));
    assert_eq!(decode_user_kyc(&bytes), Some(record));
}

#[test]
fn malformed_bytes_do_not_decode() {
    let record = UserKycData {
        authority: key(18),
        name: b"x".to_vec(),
        email: Vec::new(),
        mobile: Vec::new(),
        gov_id: Vec::new(),
        face_verified: false,
    };
    let good = record.encode();
    assert_eq!(decode_user_kyc(&[]), None);
    assert_eq!(decode_user_kyc(&vec![0u8; 327]), None);
    let mut bad_flag = good.clone();
    bad_flag[57] = 2;
    assert_eq!(decode_user_kyc(&bad_flag), None);
    let mut bad_len = good.clone();
    bad_len[40] = 255;
    bad_len[41] = 255;
    assert_eq!(decode_user_kyc(&bad_len), None);
    assert_eq!(decode_user_kyc(&good[..56]), None);
}

#[test]
fn overlong_record_does_not_fit() {
    let record = UserKycData {
        authority: key(19),
        name: Vec::new(),
        email: Vec::new(),
        mobile: vec![b'9'; 21],
        gov_id: Vec::new(),
        face_verified: false,
    };
    assert!(!record.fits_capacity());
}
