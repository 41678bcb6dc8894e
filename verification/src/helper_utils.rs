//! Deposit-account derivation and small helpers.

use crate::digest::{
    crc32, crc32_checksum, hex_encode, ledger_account_identifier, sha224, sha224_digest,
};
use crate::principal::Principal;
use vstd::prelude::*;

verus! {

/// Length in bytes of a derived deposit subaccount.
pub const SUBACCOUNT_LEN: usize = 32;

/// The eight bytes of `x`, most significant first.
pub open spec fn be_bytes_u64(x: u64) -> Seq<u8> {
    seq![
        (x >> 56) as u8,
        ((x >> 48) & 0xff) as u8,
        ((x >> 40) & 0xff) as u8,
        ((x >> 32) & 0xff) as u8,
        ((x >> 24) & 0xff) as u8,
        ((x >> 16) & 0xff) as u8,
        ((x >> 8) & 0xff) as u8,
        (x & 0xff) as u8,
    ]
}

/// The four bytes of `x`, most significant first.
pub open spec fn be_bytes_u32(x: u32) -> Seq<u8> {
    seq![
        (x >> 24) as u8,
        ((x >> 16) & 0xff) as u8,
        ((x >> 8) & 0xff) as u8,
        (x & 0xff) as u8,
    ]
}

/// The domain tag that starts every subaccount preimage: the length byte
/// `0x0A` followed by the ASCII letters of `payid`.
pub open spec fn domain_tag() -> Seq<u8> {
    seq![0x0Au8, 0x70u8, 0x61u8, 0x79u8, 0x69u8, 0x64u8]
}

/// What is hashed for an order: tag, order id (big-endian), payer bytes.
pub open spec fn subaccount_preimage(payer: Seq<u8>, order_id: u64) -> Seq<u8> {
    domain_tag() + be_bytes_u64(order_id) + payer
}

/// The deposit subaccount of an order: the SHA-224 digest of the preimage,
/// prefixed with the big-endian CRC-32 of that digest.
pub open spec fn order_subaccount(payer: Seq<u8>, order_id: u64) -> Seq<u8> {
    let digest = sha224_digest(subaccount_preimage(payer, order_id));
    be_bytes_u32(crc32_checksum(digest)) + digest
}

/// The eight bytes of `x`, most significant first.
pub fn u64_to_be_bytes(x: u64) -> (out: Vec<u8>)
    ensures
        out@ == be_bytes_u64(x),
{
    let mut out: Vec<u8> = Vec::new();
    out.push((x >> 56) as u8);
    out.push(((x >> 48) & 0xff) as u8);
    out.push(((x >> 40) & 0xff) as u8);
    out.push(((x >> 32) & 0xff) as u8);
    out.push(((x >> 24) & 0xff) as u8);
    out.push(((x >> 16) & 0xff) as u8);
    out.push(((x >> 8) & 0xff) as u8);
    out.push((x & 0xff) as u8);
    assert(out@ =~= be_bytes_u64(x));
    out
}

/// The four bytes of `x`, most significant first.
pub fn u32_to_be_bytes(x: u32) -> (out: Vec<u8>)
    ensures
        out@ == be_bytes_u32(x),
{
    let mut out: Vec<u8> = Vec::new();
    out.push((x >> 24) as u8);
    out.push(((x >> 16) & 0xff) as u8);
    out.push(((x >> 8) & 0xff) as u8);
    out.push((x & 0xff) as u8);
    assert(out@ =~= be_bytes_u32(x));
    out
}

/// Appends every byte of `src` to `dst`.
pub fn append_bytes(dst: &mut Vec<u8>, src: &Vec<u8>)
    ensures
        final(dst)@ == old(dst)@ + src@,
{
    let ghost before = dst@;
    let mut i: usize = 0;
    while i < src.len()
        invariant
            i <= src@.len(),
            dst@ == before + src@.subrange(0, i as int),
        decreases src@.len() - i,
    {
        dst.push(src[i]);
        assert(dst@ =~= before + src@.subrange(0, i + 1));
        i += 1;
    }
    assert(dst@ =~= before + src@);
}

/// Page and size as a listing uses them: a page of 0 becomes 1, and a size
/// of 0 or above 100 becomes 10.
pub open spec fn page_params(page: usize, size: usize) -> (usize, usize) {
    (
        if page > 0 { page } else { 1 },
        if size > 0 && size <= 100 { size } else { 10 },
    )
}

/// Normalises the page number and page size of a listing request.
pub fn validate_page_params(page: usize, size: usize) -> (out: (usize, usize))
    ensures
        out == page_params(page, size),
        out.0 >= 1,
        1 <= out.1 <= 100,
{
    let page: usize = if page > 0 { page } else { 1 };
    let size: usize = if size > 0 && size <= 100 { size } else { 10 };
    (page, size)
}

/// Heap memory in use, in bytes. Outside a WebAssembly runtime there is no
/// such figure and the answer is 0.
pub fn get_heap_memory_size() -> (bytes: u64)
    ensures
        bytes == 0,
{
    0
}

/// A ledger subaccount: 32 raw bytes.
#[derive(Debug)]
pub struct Subaccount(pub [u8; 32]);

/// A ledger account identifier: checksum and digest, 32 bytes in all.
#[derive(Debug)]
pub struct AccountIdentifier {
    pub bytes: Vec<u8>,
}

impl View for AccountIdentifier {
    type V = Seq<u8>;

    open spec fn view(&self) -> Seq<u8> {
        self.bytes@
    }
}

/// Wraps optional raw bytes as an optional subaccount.
pub fn new_subaccount(opt_vec: Option<[u8; 32]>) -> (sub: Option<Subaccount>)
    ensures
        sub.is_some() == opt_vec.is_some(),
        opt_vec.is_some() ==> sub.unwrap().0 == opt_vec.unwrap(),
{
    match opt_vec {
        Some(vec) => Some(Subaccount(vec)),
        None => None,
    }
}

/// Thirty-two zero bytes: the default subaccount.
pub open spec fn zero_subaccount() -> Seq<u8> {
    Seq::new(32, |i: int| 0u8)
}

/// The tag that starts every account-identifier preimage: the length byte
/// `0x0A` followed by the ASCII letters of `account-id`.
pub open spec fn account_tag() -> Seq<u8> {
    seq![
        0x0Au8, 0x61u8, 0x63u8, 0x63u8, 0x6Fu8, 0x75u8, 0x6Eu8, 0x74u8, 0x2Du8, 0x69u8, 0x64u8,
    ]
}

/// The account identifier of an owner and a subaccount: the SHA-224 digest
/// of tag, owner bytes and subaccount, prefixed with the big-endian CRC-32
/// of that digest.
pub open spec fn account_identifier(owner: Seq<u8>, subaccount: Seq<u8>) -> Seq<u8> {
    let digest = sha224_digest(account_tag() + owner + subaccount);
    be_bytes_u32(crc32_checksum(digest)) + digest
}

/// Bytes that a ledger takes for an account identifier: a bare 28-byte
/// digest, or 32 bytes that start with the big-endian CRC-32 of the 28 that
/// follow.
pub open spec fn valid_account_bytes(bytes: Seq<u8>) -> bool {
    ||| bytes.len() == 28
    ||| (bytes.len() == 32 && bytes.subrange(0, 4) == be_bytes_u32(
        crc32_checksum(bytes.subrange(4, 32)),
    ))
}

/// The account identifier of `principal` under `subaccount`, or under the
/// all-zero subaccount when none is given.
pub fn account_id(principal: &Principal, subaccount: Option<[u8; 32]>) -> (id: AccountIdentifier)
    requires
        principal.wf(),
    ensures
        id@ == account_identifier(
            principal@,
            match subaccount {
                Some(s) => s@,
                None => zero_subaccount(),
            },
        ),
        id@.len() == SUBACCOUNT_LEN,
{
    let sub: [u8; 32] = match subaccount {
        Some(s) => s,
        None => [0u8; 32],
    };
    proof {
        if subaccount.is_none() {
            assert(sub@ =~= zero_subaccount());
        }
    }
    let bytes = ledger_account_identifier(principal.as_slice(), &sub);
    AccountIdentifier { bytes }
}

/// Derives the deposit subaccount of an order from its payer and its id.
/// The result depends on nothing else, so it can be derived again at any
/// time and need not be stored.
pub fn generate_order_subaccount(caller: &Principal, payid: u64) -> (account: Vec<u8>)
    ensures
        account@ == order_subaccount(caller@, payid),
        account@.len() == SUBACCOUNT_LEN,
{
    let mut preimage: Vec<u8> = Vec::new();
    preimage.push(0x0Au8);
    preimage.push(0x70u8);
    preimage.push(0x61u8);
    preimage.push(0x79u8);
    preimage.push(0x69u8);
    preimage.push(0x64u8);
    assert(preimage@ =~= domain_tag());
    let id_bytes = u64_to_be_bytes(payid);
    append_bytes(&mut preimage, &id_bytes);
    append_bytes(&mut preimage, caller.as_slice());
    let digest = sha224(&preimage);
    let checksum = crc32(&digest);
    let mut account = u32_to_be_bytes(checksum);
    append_bytes(&mut account, &digest);
    account
}

/// The bytes as a fixed 32-byte array, when there are exactly 32 of them.
pub fn to_subaccount_bytes(bytes: &Vec<u8>) -> (sub: Option<[u8; 32]>)
    ensures
        sub.is_some() == (bytes@.len() == SUBACCOUNT_LEN),
        sub.is_some() ==> sub.unwrap()@ == bytes@,
{
    if bytes.len() != 32 {
        return None;
    }
    let mut out: [u8; 32] = [0u8; 32];
    let mut i: usize = 0;
    while i < 32
        invariant
            i <= 32,
            bytes@.len() == 32,
            forall|j: int| 0 <= j < i ==> out@[j] == bytes@[j],
        decreases 32 - i,
    {
        out[i] = bytes[i];
        i += 1;
    }
    assert(out@ =~= bytes@);
    Some(out)
}

/// The bytes spelled in lowercase hexadecimal, two digits for each byte.
pub open spec fn hex_text(bytes: Seq<u8>) -> Seq<char> {
    Seq::new(
        2 * bytes.len(),
        |i: int|
            "0123456789abcdef"@[if i % 2 == 0 {
                bytes[i / 2] as int / 16
            } else {
                bytes[i / 2] as int % 16
            }],
    )
}

/// The service's own default account, which receives the shared proceeds:
/// the account identifier of the service's identity under the all-zero
/// subaccount.
pub fn default_account_id(service: &Principal) -> (id: AccountIdentifier)
    requires
        service.wf(),
    ensures
        id@ == account_identifier(service@, zero_subaccount()),
        id@.len() == SUBACCOUNT_LEN,
{
    account_id(service, None)
}

/// The service's default account, in hexadecimal and as raw bytes.
pub fn canister_main_account(service: &Principal) -> (out: (String, Vec<u8>))
    requires
        service.wf(),
    ensures
        out.1@ == account_identifier(service@, zero_subaccount()),
        out.0@ == hex_text(out.1@),
{
    let id = default_account_id(service);
    let text = hex_encode(&id.bytes);
    (text, id.bytes)
}

/// The value that `getter` gives, when `flag` asks for it.
pub fn fetch_value<T, F: Fn() -> T>(flag: bool, getter: F) -> (value: Option<T>)
    requires
        flag ==> getter.requires(()),
    ensures
        value.is_some() == flag,
        flag ==> getter.ensures((), value.unwrap()),
{
    if flag {
        Some(getter())
    } else {
        None
    }
}

} // verus!
