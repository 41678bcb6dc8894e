//! The calls into outside crates that compute on bytes: the two digests
//! that account identifiers are built from, the ledger's own account
//! identifiers, and hexadecimal text.

use sha2::Digest;
use vstd::prelude::*;

verus! {

/// The SHA-224 digest of a byte string.
pub uninterp spec fn sha224_digest(input: Seq<u8>) -> Seq<u8>;

/// The CRC-32 (IEEE) checksum of a byte string.
pub uninterp spec fn crc32_checksum(input: Seq<u8>) -> u32;

/// Length in bytes of a SHA-224 digest.
pub const SHA224_LEN: usize = 28;

/// Calls `sha2::Sha224::digest` on the whole input. Trusted: the result is
/// the SHA-224 digest of the input, and, by the output type of that hasher,
/// it is 28 bytes long.
#[verifier::external_body]
pub(crate) fn sha224(input: &Vec<u8>) -> (out: Vec<u8>)
    ensures
        out@ == sha224_digest(input@),
        out@.len() == SHA224_LEN,
{
    sha2::Sha224::digest(input.as_slice()).to_vec()
}

/// Calls `crc32fast::hash`. Trusted: the result is the CRC-32 checksum of
/// the input.
#[verifier::external_body]
pub(crate) fn crc32(input: &Vec<u8>) -> (out: u32)
    ensures
        out == crc32_checksum(input@),
{
    crc32fast::hash(input.as_slice())
}

/// Calls `ic_ledger_types::AccountIdentifier::new` on the owner's bytes and
/// the subaccount and returns the identifier's 32 bytes. Trusted: as that
/// function's body shows, the identifier is the SHA-224 digest of the tag
/// `\x0Aaccount-id`, the owner's bytes and the subaccount, prefixed with the
/// big-endian CRC-32 of that digest. The owner's bytes must fit a principal,
/// since `candid::Principal::from_slice` panics on more than 29.
#[verifier::external_body]
pub(crate) fn ledger_account_identifier(owner: &Vec<u8>, subaccount: &[u8; 32]) -> (out: Vec<u8>)
    requires
        owner@.len() <= 29,
    ensures
        out@ == crate::helper_utils::account_identifier(owner@, subaccount@),
        out@.len() == 32,
{
    let owner = candid::Principal::from_slice(owner.as_slice());
    let sub = ic_ledger_types::Subaccount(*subaccount);
    ic_ledger_types::AccountIdentifier::new(&owner, &sub).as_ref().to_vec()
}

/// Calls `ic_ledger_types::AccountIdentifier::from_slice` and reports
/// whether it accepted the bytes. Trusted: as that function's body shows,
/// it accepts exactly a 28-byte digest, or 32 bytes whose first four are the
/// big-endian CRC-32 of the other 28.
#[verifier::external_body]
pub(crate) fn account_identifier_accepts(bytes: &Vec<u8>) -> (ok: bool)
    ensures
        ok == crate::helper_utils::valid_account_bytes(bytes@),
{
    ic_ledger_types::AccountIdentifier::from_slice(bytes.as_slice()).is_ok()
}

/// Calls `hex::encode`. Trusted: the result spells each byte as two
/// lowercase hexadecimal digits, high digit first, in the order of the
/// bytes.
#[verifier::external_body]
pub(crate) fn hex_encode(bytes: &Vec<u8>) -> (text: String)
    ensures
        text@ == crate::helper_utils::hex_text(bytes@),
{
    hex::encode(bytes.as_slice())
}

} // verus!
