use vstd::prelude::*;

verus! {

/// What `Pubkey::try_find_program_address` returns for the seeds `[tag, key]`
/// under the program `program`: the derived address and its bump, or nothing
/// when no bump gives an address off the curve.
pub uninterp spec fn program_address(tag: Seq<u8>, key: Seq<u8>, program: Seq<u8>) -> Option<(Seq<u8>, u8)>;

/// The domain tag `b"user_kyc"` that prefixes every record's seeds.
pub open spec fn record_tag_spec() -> Seq<u8> {
    seq![117u8, 115u8, 101u8, 114u8, 95u8, 107u8, 121u8, 99u8]
}

/// The program's fixed identifier, `HA3v3eTLGokEfZU7acnJGn94Xv5TiRD8GBV4zr885JDj` in base 58.
pub open spec fn program_id_spec() -> Seq<u8> {
    seq![
        240u8, 12u8, 131u8, 125u8, 48u8, 36u8, 108u8, 69u8,
        105u8, 186u8, 253u8, 69u8, 63u8, 73u8, 0u8, 220u8,
        217u8, 151u8, 98u8, 25u8, 38u8, 213u8, 14u8, 174u8,
        110u8, 117u8, 99u8, 162u8, 136u8, 71u8, 177u8, 118u8,
    ]
}

/// The record address of `authority` with its bump, as the runtime derives it.
pub open spec fn record_address(authority: Seq<u8>) -> Option<(Seq<u8>, u8)> {
    program_address(record_tag_spec(), authority, program_id_spec())
}

pub fn record_tag() -> (r: [u8; 8])
    ensures
        r@ == record_tag_spec(),
{
    let r: [u8; 8] = [117u8, 115u8, 101u8, 114u8, 95u8, 107u8, 121u8, 99u8];
    assert(r@ =~= record_tag_spec());
    r
}

pub fn program_id() -> (r: [u8; 32])
    ensures
        r@ == program_id_spec(),
{
    let r: [u8; 32] = [
        240u8, 12u8, 131u8, 125u8, 48u8, 36u8, 108u8, 69u8,
        105u8, 186u8, 253u8, 69u8, 63u8, 73u8, 0u8, 220u8,
        217u8, 151u8, 98u8, 25u8, 38u8, 213u8, 14u8, 174u8,
        110u8, 117u8, 99u8, 162u8, 136u8, 71u8, 177u8, 118u8,
    ];
    assert(r@ =~= program_id_spec());
    r
}

/// Relies on anchor_lang's `Pubkey::try_find_program_address`: it scans the
/// bumps from 255 down and returns the first off-curve address, or `None`.
/// Its result depends on the seeds and the program identifier alone.
#[verifier::external_body]
fn find_program_address(tag: &[u8; 8], key: &[u8; 32], program: &[u8; 32]) -> (r: Option<([u8; 32], u8)>)
    ensures
        match r {
            Some(found) => program_address(tag@, key@, program@) == Some((found.0@, found.1)),
            None => program_address(tag@, key@, program@) is None,
        },
{
    let program = anchor_lang::solana_program::pubkey::Pubkey::new_from_array(*program);
    anchor_lang::solana_program::pubkey::Pubkey::try_find_program_address(&[&tag[..], &key[..]], &program)
        .map(|(address, bump)| (address.to_bytes(), bump))
}

/// Derives the record address of `authority` and its bump; `None` only when
/// no bump yields an address that is not a signing key.
pub fn derive_address(authority: &[u8; 32]) -> (r: Option<([u8; 32], u8)>)
    ensures
        match r {
            Some(found) => record_address(authority@) == Some((found.0@, found.1)),
            None => record_address(authority@) is None,
        },
{
    let tag = record_tag();
    let program = program_id();
    find_program_address(&tag, authority, &program)
}

/// Derivation is a function of the authority alone: two derivations for the
/// same authority give the same address and bump.
pub proof fn lemma_derivation_deterministic(a1: Seq<u8>, a2: Seq<u8>)
    requires
        a1 == a2,
    ensures
        record_address(a1) == record_address(a2),
{
}

/// The seeds hashed for two distinct authorities differ; distinct addresses
/// then rest on the hash admitting no collision, which nothing here proves.
pub proof fn lemma_seeds_distinct(a1: Seq<u8>, a2: Seq<u8>)
    requires
        a1.len() == 32,
        a2.len() == 32,
        a1 != a2,
    ensures
        record_tag_spec() + a1 != record_tag_spec() + a2,
{
    let s1 = record_tag_spec() + a1;
    let s2 = record_tag_spec() + a2;
    if s1 == s2 {
        assert(a1 =~= s1.subrange(8, 40));
        assert(a2 =~= s2.subrange(8, 40));
    }
}

} // verus!
