//! A write-once identity record per signer, stored at an address derived
//! from the signer's public key.

pub mod address;
pub mod instruction;
pub mod schema;

pub use address::{derive_address, program_id, record_tag};
pub use instruction::{store_user_kyc, AuthorityAccount, KycError, RecordAccount, StoreUserKyc};
pub use schema::{decode_user_kyc, discriminator, UserKycData, ACCOUNT_SPACE};
