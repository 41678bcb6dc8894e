//! The byte form of a payment order, as it lies in stable memory: fixed
//! eight-byte big-endian integers, one byte for the status, one tag byte
//! before each optional time, and an eight-byte length before each string.

use crate::helper_utils::{append_bytes, be_bytes_u64, u64_to_be_bytes};
use crate::order::{
    OrderView, PaymentOrder, PaymentStatus, PaymentType, PaymentTypeView, TokenPrice,
};
use crate::principal::Principal;
use vstd::slice::slice_to_vec;
use vstd::prelude::*;
use vstd::utf8::*;

verus! {

/// The integer whose eight big-endian bytes these are.
pub open spec fn u64_from_be(s: Seq<u8>) -> u64 {
    (s[0] as u64) << 56 | (s[1] as u64) << 48 | (s[2] as u64) << 40 | (s[3] as u64) << 32 | (
    s[4] as u64) << 24 | (s[5] as u64) << 16 | (s[6] as u64) << 8 | (s[7] as u64)
}

/// Reading back the big-endian bytes of an integer gives the integer.
pub proof fn lemma_be_roundtrip(x: u64)
    ensures
        u64_from_be(be_bytes_u64(x)) == x,
{
    let s = be_bytes_u64(x);
    let b0 = s[0];
    let b1 = s[1];
    let b2 = s[2];
    let b3 = s[3];
    let b4 = s[4];
    let b5 = s[5];
    let b6 = s[6];
    let b7 = s[7];
    assert((b0 as u64) << 56 | (b1 as u64) << 48 | (b2 as u64) << 40 | (b3 as u64) << 32 | (
    b4 as u64) << 24 | (b5 as u64) << 16 | (b6 as u64) << 8 | (b7 as u64) == x) by (bit_vector)
        requires
            b0 == (x >> 56) as u8,
            b1 == ((x >> 48) & 0xff) as u8,
            b2 == ((x >> 40) & 0xff) as u8,
            b3 == ((x >> 32) & 0xff) as u8,
            b4 == ((x >> 24) & 0xff) as u8,
            b5 == ((x >> 16) & 0xff) as u8,
            b6 == ((x >> 8) & 0xff) as u8,
            b7 == (x & 0xff) as u8,
    ;
}

/// Eight bytes are the big-endian bytes of the integer read from them.
pub proof fn lemma_be_canonical(s: Seq<u8>)
    requires
        s.len() == 8,
    ensures
        be_bytes_u64(u64_from_be(s)) == s,
{
    let b0 = s[0];
    let b1 = s[1];
    let b2 = s[2];
    let b3 = s[3];
    let b4 = s[4];
    let b5 = s[5];
    let b6 = s[6];
    let b7 = s[7];
    let x = u64_from_be(s);
    assert(b0 == (x >> 56) as u8 && b1 == ((x >> 48) & 0xff) as u8 && b2 == ((x >> 40) & 0xff) as u8
        && b3 == ((x >> 32) & 0xff) as u8 && b4 == ((x >> 24) & 0xff) as u8 && b5 == ((x >> 16)
        & 0xff) as u8 && b6 == ((x >> 8) & 0xff) as u8 && b7 == (x & 0xff) as u8) by (bit_vector)
        requires
            x == (b0 as u64) << 56 | (b1 as u64) << 48 | (b2 as u64) << 40 | (b3 as u64) << 32 | (
            b4 as u64) << 24 | (b5 as u64) << 16 | (b6 as u64) << 8 | (b7 as u64),
    ;
    assert(be_bytes_u64(x) =~= s);
}

/// The status as one byte.
pub open spec fn status_byte(status: PaymentStatus) -> u8 {
    match status {
        PaymentStatus::Unpaid => 0,
        PaymentStatus::Verifying => 1,
        PaymentStatus::Paid => 2,
        PaymentStatus::TimedOut => 3,
        PaymentStatus::Refunded => 4,
    }
}

/// The status that a byte stands for, if it stands for one.
pub open spec fn status_of_byte(byte: u8) -> Option<PaymentStatus> {
    if byte == 0 {
        Some(PaymentStatus::Unpaid)
    } else if byte == 1 {
        Some(PaymentStatus::Verifying)
    } else if byte == 2 {
        Some(PaymentStatus::Paid)
    } else if byte == 3 {
        Some(PaymentStatus::TimedOut)
    } else if byte == 4 {
        Some(PaymentStatus::Refunded)
    } else {
        None
    }
}

/// An optional time: the tag 0 alone, or the tag 1 and the time.
pub open spec fn enc_time(time: Option<u64>) -> Seq<u8> {
    match time {
        None => seq![0u8],
        Some(t) => seq![1u8] + be_bytes_u64(t),
    }
}

/// A byte string: its length, then the bytes.
pub open spec fn enc_blob(bytes: Seq<u8>) -> Seq<u8> {
    be_bytes_u64(bytes.len() as u64) + bytes
}

/// A text: its UTF-8 bytes as a byte string.
pub open spec fn enc_text(text: Seq<char>) -> Seq<u8> {
    enc_blob(encode_utf8(text))
}

/// Reads an integer off the front; gives it with the bytes that follow.
pub open spec fn parse_u64(s: Seq<u8>) -> Option<(u64, Seq<u8>)> {
    if s.len() >= 8 {
        Some((u64_from_be(s.subrange(0, 8)), s.subrange(8, s.len() as int)))
    } else {
        None
    }
}

/// Reads a status off the front.
pub open spec fn parse_status(s: Seq<u8>) -> Option<(PaymentStatus, Seq<u8>)> {
    if s.len() >= 1 && status_of_byte(s[0]).is_some() {
        Some((status_of_byte(s[0]).unwrap(), s.subrange(1, s.len() as int)))
    } else {
        None
    }
}

/// Reads an optional time off the front.
pub open spec fn parse_time(s: Seq<u8>) -> Option<(Option<u64>, Seq<u8>)> {
    if s.len() >= 1 && s[0] == 0 {
        Some((None, s.subrange(1, s.len() as int)))
    } else if s.len() >= 1 && s[0] == 1 {
        match parse_u64(s.subrange(1, s.len() as int)) {
            Some((t, rest)) => Some((Some(t), rest)),
            None => None,
        }
    } else {
        None
    }
}

/// Reads a byte string off the front.
pub open spec fn parse_blob(s: Seq<u8>) -> Option<(Seq<u8>, Seq<u8>)> {
    match parse_u64(s) {
        Some((n, rest)) => if n <= rest.len() {
            Some((rest.subrange(0, n as int), rest.subrange(n as int, rest.len() as int)))
        } else {
            None
        },
        None => None,
    }
}

/// Reads a text off the front: a byte string that is valid UTF-8.
pub open spec fn parse_text(s: Seq<u8>) -> Option<(Seq<char>, Seq<u8>)> {
    match parse_blob(s) {
        Some((bytes, rest)) => if valid_utf8(bytes) {
            Some((decode_utf8(bytes), rest))
        } else {
            None
        },
        None => None,
    }
}

/// An integer is read back from its bytes, whatever follows them.
pub proof fn lemma_parse_u64(x: u64, tail: Seq<u8>)
    ensures
        parse_u64(be_bytes_u64(x) + tail) == Some((x, tail)),
{
    let s = be_bytes_u64(x) + tail;
    assert(s.subrange(0, 8) =~= be_bytes_u64(x));
    assert(s.subrange(8, s.len() as int) =~= tail);
    lemma_be_roundtrip(x);
}

/// What an integer was read from is its bytes and what follows.
pub proof fn lemma_unparse_u64(s: Seq<u8>)
    requires
        parse_u64(s).is_some(),
    ensures
        s == be_bytes_u64(parse_u64(s).unwrap().0) + parse_u64(s).unwrap().1,
{
    lemma_be_canonical(s.subrange(0, 8));
    assert(s =~= s.subrange(0, 8) + s.subrange(8, s.len() as int));
}

/// A status is read back from its byte.
pub proof fn lemma_parse_status(status: PaymentStatus, tail: Seq<u8>)
    ensures
        parse_status(seq![status_byte(status)] + tail) == Some((status, tail)),
{
    let s = seq![status_byte(status)] + tail;
    assert(s[0] == status_byte(status));
    assert(s.subrange(1, s.len() as int) =~= tail);
}

/// What a status was read from is its byte and what follows.
pub proof fn lemma_unparse_status(s: Seq<u8>)
    requires
        parse_status(s).is_some(),
    ensures
        s == seq![status_byte(parse_status(s).unwrap().0)] + parse_status(s).unwrap().1,
{
    assert(s =~= seq![s[0]] + s.subrange(1, s.len() as int));
}

/// An optional time is read back from its bytes.
pub proof fn lemma_parse_time(time: Option<u64>, tail: Seq<u8>)
    ensures
        parse_time(enc_time(time) + tail) == Some((time, tail)),
{
    let s = enc_time(time) + tail;
    match time {
        None => {
            assert(s[0] == 0);
            assert(s.subrange(1, s.len() as int) =~= tail);
        },
        Some(t) => {
            assert(s[0] == 1);
            assert(s.subrange(1, s.len() as int) =~= be_bytes_u64(t) + tail);
            lemma_parse_u64(t, tail);
        },
    }
}

/// What an optional time was read from is its bytes and what follows.
pub proof fn lemma_unparse_time(s: Seq<u8>)
    requires
        parse_time(s).is_some(),
    ensures
        s == enc_time(parse_time(s).unwrap().0) + parse_time(s).unwrap().1,
{
    let rest = s.subrange(1, s.len() as int);
    assert(s =~= seq![s[0]] + rest);
    if s[0] == 1 {
        lemma_unparse_u64(rest);
        let t = parse_u64(rest).unwrap().0;
        let after = parse_u64(rest).unwrap().1;
        assert(s =~= (seq![1u8] + be_bytes_u64(t)) + after);
    }
}

/// A byte string is read back from its bytes.
pub proof fn lemma_parse_blob(bytes: Seq<u8>, tail: Seq<u8>)
    requires
        bytes.len() <= u64::MAX,
    ensures
        parse_blob(enc_blob(bytes) + tail) == Some((bytes, tail)),
{
    let n = bytes.len() as u64;
    let s = enc_blob(bytes) + tail;
    assert(s =~= be_bytes_u64(n) + (bytes + tail));
    lemma_parse_u64(n, bytes + tail);
    let rest = bytes + tail;
    assert(rest.subrange(0, n as int) =~= bytes);
    assert(rest.subrange(n as int, rest.len() as int) =~= tail);
}

/// What a byte string was read from is its bytes and what follows.
pub proof fn lemma_unparse_blob(s: Seq<u8>)
    requires
        parse_blob(s).is_some(),
    ensures
        s == enc_blob(parse_blob(s).unwrap().0) + parse_blob(s).unwrap().1,
{
    lemma_unparse_u64(s);
    let n = parse_u64(s).unwrap().0;
    let rest = parse_u64(s).unwrap().1;
    let bytes = rest.subrange(0, n as int);
    let after = rest.subrange(n as int, rest.len() as int);
    assert(rest =~= bytes + after);
    assert(bytes.len() as u64 == n);
    assert(s =~= (be_bytes_u64(n) + bytes) + after);
}

/// A text is read back from its bytes.
pub proof fn lemma_parse_text(text: Seq<char>, tail: Seq<u8>)
    requires
        encode_utf8(text).len() <= u64::MAX,
    ensures
        parse_text(enc_text(text) + tail) == Some((text, tail)),
{
    lemma_parse_blob(encode_utf8(text), tail);
    encode_utf8_valid_utf8(text);
    encode_utf8_decode_utf8(text);
}

/// What a text was read from is its bytes and what follows.
pub proof fn lemma_unparse_text(s: Seq<u8>)
    requires
        parse_text(s).is_some(),
    ensures
        s == enc_text(parse_text(s).unwrap().0) + parse_text(s).unwrap().1,
{
    lemma_unparse_blob(s);
    decode_utf8_encode_utf8(parse_blob(s).unwrap().0);
}

/// The bytes of an order.
pub open spec fn encoding(o: OrderView) -> Seq<u8> {
    be_bytes_u64(o.id) + (be_bytes_u64(o.amount) + (be_bytes_u64(o.amount_paid) + (be_bytes_u64(
        o.created_time,
    ) + (be_bytes_u64(o.payment_type.price) + (seq![status_byte(o.status)] + (enc_time(
        o.verified_time,
    ) + (enc_time(o.shared_time) + (enc_blob(o.payer) + (enc_text(o.token) + (enc_text(o.source)
        + (enc_text(o.payment_type.token_name) + Seq::<u8>::empty())))))))))))
}

/// An order whose strings are short enough for their lengths to be
/// written down. Every order that fits in memory is.
pub open spec fn encodable(o: OrderView) -> bool {
    &&& o.payer.len() <= u64::MAX
    &&& encode_utf8(o.token).len() <= u64::MAX
    &&& encode_utf8(o.source).len() <= u64::MAX
    &&& encode_utf8(o.payment_type.token_name).len() <= u64::MAX
}

/// The order that the bytes are the bytes of, if they are those of any.
#[verifier::opaque]
pub open spec fn parse_order(s: Seq<u8>) -> Option<OrderView> {
    match parse_u64(s) {
        None => None,
        Some((id, s1)) => match parse_u64(s1) {
            None => None,
            Some((amount, s2)) => match parse_u64(s2) {
                None => None,
                Some((amount_paid, s3)) => match parse_u64(s3) {
                    None => None,
                    Some((created_time, s4)) => match parse_u64(s4) {
                        None => None,
                        Some((price, s5)) => match parse_status(s5) {
                            None => None,
                            Some((status, s6)) => match parse_time(s6) {
                                None => None,
                                Some((verified_time, s7)) => match parse_time(s7) {
                                    None => None,
                                    Some((shared_time, s8)) => parse_strings(
                                        s8,
                                        OrderView {
                                            id,
                                            payer: Seq::empty(),
                                            amount,
                                            payment_type: PaymentTypeView {
                                                token_name: Seq::empty(),
                                                price,
                                            },
                                            source: Seq::empty(),
                                            token: Seq::empty(),
                                            amount_paid,
                                            status,
                                            verified_time,
                                            shared_time,
                                            created_time,
                                        },
                                    ),
                                },
                            },
                        },
                    },
                },
            },
        },
    }
}

/// Reads the four strings that end the bytes of an order into `numbers`,
/// which holds what was read before them.
pub open spec fn parse_strings(s: Seq<u8>, numbers: OrderView) -> Option<OrderView> {
    match parse_blob(s) {
        None => None,
        Some((payer, s1)) => match parse_text(s1) {
            None => None,
            Some((token, s2)) => match parse_text(s2) {
                None => None,
                Some((source, s3)) => match parse_text(s3) {
                    None => None,
                    Some((token_name, s4)) => if s4.len() == 0 {
                        Some(
                            OrderView {
                                payer,
                                token,
                                source,
                                payment_type: PaymentTypeView {
                                    token_name,
                                    price: numbers.payment_type.price,
                                },
                                ..numbers
                            },
                        )
                    } else {
                        None
                    },
                },
            },
        },
    }
}

/// Every order is read back from its bytes.
pub proof fn law_decode_inverts_encode(o: OrderView)
    requires
        encodable(o),
    ensures
        parse_order(encoding(o)) == Some(o),
{
    reveal(parse_order);
    let t12 = Seq::<u8>::empty();
    let t11 = enc_text(o.payment_type.token_name) + t12;
    let t10 = enc_text(o.source) + t11;
    let t9 = enc_text(o.token) + t10;
    let t8 = enc_blob(o.payer) + t9;
    let t7 = enc_time(o.shared_time) + t8;
    let t6 = enc_time(o.verified_time) + t7;
    let t5 = seq![status_byte(o.status)] + t6;
    let t4 = be_bytes_u64(o.payment_type.price) + t5;
    let t3 = be_bytes_u64(o.created_time) + t4;
    let t2 = be_bytes_u64(o.amount_paid) + t3;
    let t1 = be_bytes_u64(o.amount) + t2;
    lemma_parse_u64(o.id, t1);
    lemma_parse_u64(o.amount, t2);
    lemma_parse_u64(o.amount_paid, t3);
    lemma_parse_u64(o.created_time, t4);
    lemma_parse_u64(o.payment_type.price, t5);
    lemma_parse_status(o.status, t6);
    lemma_parse_time(o.verified_time, t7);
    lemma_parse_time(o.shared_time, t8);
    lemma_parse_blob(o.payer, t9);
    lemma_parse_text(o.token, t10);
    lemma_parse_text(o.source, t11);
    lemma_parse_text(o.payment_type.token_name, t12);
    let numbers = OrderView {
        payer: Seq::empty(),
        payment_type: PaymentTypeView { token_name: Seq::empty(), price: o.payment_type.price },
        source: Seq::empty(),
        token: Seq::empty(),
        ..o
    };
    assert(parse_strings(t8, numbers) == Some(o));
}

/// Bytes that are read as an order are the bytes of that order: no order
/// has two byte forms.
pub proof fn law_encode_inverts_decode(s: Seq<u8>)
    requires
        parse_order(s).is_some(),
    ensures
        encoding(parse_order(s).unwrap()) == s,
{
    reveal(parse_order);
    lemma_unparse_u64(s);
    let s1 = parse_u64(s).unwrap().1;
    lemma_unparse_u64(s1);
    let s2 = parse_u64(s1).unwrap().1;
    lemma_unparse_u64(s2);
    let s3 = parse_u64(s2).unwrap().1;
    lemma_unparse_u64(s3);
    let s4 = parse_u64(s3).unwrap().1;
    lemma_unparse_u64(s4);
    let s5 = parse_u64(s4).unwrap().1;
    lemma_unparse_status(s5);
    let s6 = parse_status(s5).unwrap().1;
    lemma_unparse_time(s6);
    let s7 = parse_time(s6).unwrap().1;
    lemma_unparse_time(s7);
    let s8 = parse_time(s7).unwrap().1;
    lemma_unparse_blob(s8);
    let s9 = parse_blob(s8).unwrap().1;
    lemma_unparse_text(s9);
    let s10 = parse_text(s9).unwrap().1;
    lemma_unparse_text(s10);
    let s11 = parse_text(s10).unwrap().1;
    lemma_unparse_text(s11);
    let s12 = parse_text(s11).unwrap().1;
    assert(s12 =~= Seq::<u8>::empty());
}

/// Two orders with the same bytes are the same order.
pub proof fn law_encoding_injective(a: OrderView, b: OrderView)
    requires
        encodable(a),
        encodable(b),
        encoding(a) == encoding(b),
    ensures
        a == b,
{
    law_decode_inverts_encode(a);
    law_decode_inverts_encode(b);
}

/// Calls `String::from_utf8`. Trusted: it succeeds exactly on valid UTF-8,
/// and the string then holds the characters that the bytes encode.
#[verifier::external_body]
fn string_from_utf8(bytes: Vec<u8>) -> (text: Option<String>)
    ensures
        text.is_some() == valid_utf8(bytes@),
        text.is_some() ==> text.unwrap()@ == decode_utf8(bytes@),
{
    String::from_utf8(bytes).ok()
}

/// The bytes from a position on.
pub open spec fn remaining(bytes: Seq<u8>, pos: usize) -> Seq<u8> {
    bytes.subrange(pos as int, bytes.len() as int)
}

/// The status as one byte.
pub fn status_to_byte(status: PaymentStatus) -> (byte: u8)
    ensures
        byte == status_byte(status),
{
    match status {
        PaymentStatus::Unpaid => 0,
        PaymentStatus::Verifying => 1,
        PaymentStatus::Paid => 2,
        PaymentStatus::TimedOut => 3,
        PaymentStatus::Refunded => 4,
    }
}

/// The field followed by the tail.
pub fn before(field: Vec<u8>, tail: &Vec<u8>) -> (out: Vec<u8>)
    ensures
        out@ == field@ + tail@,
{
    let mut out = field;
    append_bytes(&mut out, tail);
    out
}

/// The bytes of an optional time.
fn time_bytes(time: Option<u64>) -> (out: Vec<u8>)
    ensures
        out@ == enc_time(time),
{
    let mut out: Vec<u8> = Vec::new();
    match time {
        None => {
            out.push(0u8);
            assert(out@ =~= seq![0u8]);
        },
        Some(t) => {
            out.push(1u8);
            assert(out@ =~= seq![1u8]);
            let digits = u64_to_be_bytes(t);
            append_bytes(&mut out, &digits);
        },
    }
    out
}

/// The bytes of a byte string.
pub fn blob_bytes(bytes: &Vec<u8>) -> (out: Vec<u8>)
    ensures
        out@ == enc_blob(bytes@),
{
    let mut out = u64_to_be_bytes(bytes.len() as u64);
    append_bytes(&mut out, bytes);
    out
}

/// The bytes of a text.
pub fn text_bytes(text: &String) -> (out: Vec<u8>)
    ensures
        out@ == enc_text(text@),
        encode_utf8(text@).len() <= u64::MAX,
{
    let raw = slice_to_vec(text.as_str().as_bytes());
    assert(raw@ == encode_utf8(text@));
    let ghost n = raw.len();
    blob_bytes(&raw)
}

/// Writes an order as bytes.
pub fn encode_order(order: &PaymentOrder) -> (bytes: Vec<u8>)
    ensures
        bytes@ == encoding(order@),
        encodable(order@),
{
    let token_name = match &order.payment_type {
        PaymentType::CreationPrice(p) => text_bytes(&p.token_name),
    };
    let price = match &order.payment_type {
        PaymentType::CreationPrice(p) => p.price,
    };
    let mut status: Vec<u8> = Vec::new();
    status.push(status_to_byte(order.status));
    assert(status@ =~= seq![status_byte(order@.status)]);
    let t12: Vec<u8> = Vec::new();
    assert(t12@ =~= Seq::<u8>::empty());
    let ghost n = order.payer.bytes.len();
    let t11 = before(token_name, &t12);
    let t10 = before(text_bytes(&order.source), &t11);
    let t9 = before(text_bytes(&order.token), &t10);
    let t8 = before(blob_bytes(order.payer.as_slice()), &t9);
    let t7 = before(time_bytes(order.shared_time), &t8);
    let t6 = before(time_bytes(order.verified_time), &t7);
    let t5 = before(status, &t6);
    let t4 = before(u64_to_be_bytes(price), &t5);
    let t3 = before(u64_to_be_bytes(order.created_time), &t4);
    let t2 = before(u64_to_be_bytes(order.amount_paid), &t3);
    let t1 = before(u64_to_be_bytes(order.amount), &t2);
    before(u64_to_be_bytes(order.id), &t1)
}

/// Reads an integer at a position; gives it with the position after it.
pub fn read_u64(bytes: &Vec<u8>, pos: usize) -> (out: Option<(u64, usize)>)
    requires
        pos <= bytes@.len(),
    ensures
        out.is_some() == parse_u64(remaining(bytes@, pos)).is_some(),
        out.is_some() ==> pos <= out.unwrap().1 <= bytes@.len() && parse_u64(
            remaining(bytes@, pos),
        ) == Some((out.unwrap().0, remaining(bytes@, out.unwrap().1))),
{
    if bytes.len() - pos < 8 {
        return None;
    }
    let ghost r = remaining(bytes@, pos);
    let x = (bytes[pos] as u64) << 56 | (bytes[pos + 1] as u64) << 48 | (bytes[pos + 2] as u64)
        << 40 | (bytes[pos + 3] as u64) << 32 | (bytes[pos + 4] as u64) << 24 | (bytes[pos
        + 5] as u64) << 16 | (bytes[pos + 6] as u64) << 8 | (bytes[pos + 7] as u64);
    proof {
        let head = r.subrange(0, 8);
        assert(head[0] == bytes@[pos + 0] && head[1] == bytes@[pos + 1] && head[2] == bytes@[pos
            + 2] && head[3] == bytes@[pos + 3] && head[4] == bytes@[pos + 4] && head[5]
            == bytes@[pos + 5] && head[6] == bytes@[pos + 6] && head[7] == bytes@[pos + 7]);
        assert(r.subrange(8, r.len() as int) =~= remaining(bytes@, (pos + 8) as usize));
    }
    Some((x, pos + 8))
}

/// Reads a status at a position.
fn read_status(bytes: &Vec<u8>, pos: usize) -> (out: Option<(PaymentStatus, usize)>)
    requires
        pos <= bytes@.len(),
    ensures
        out.is_some() == parse_status(remaining(bytes@, pos)).is_some(),
        out.is_some() ==> pos <= out.unwrap().1 <= bytes@.len() && parse_status(
            remaining(bytes@, pos),
        ) == Some((out.unwrap().0, remaining(bytes@, out.unwrap().1))),
{
    if pos >= bytes.len() {
        return None;
    }
    let ghost r = remaining(bytes@, pos);
    assert(r[0] == bytes@[pos as int]);
    assert(r.subrange(1, r.len() as int) =~= remaining(bytes@, (pos + 1) as usize));
    let byte = bytes[pos];
    let status = if byte == 0 {
        PaymentStatus::Unpaid
    } else if byte == 1 {
        PaymentStatus::Verifying
    } else if byte == 2 {
        PaymentStatus::Paid
    } else if byte == 3 {
        PaymentStatus::TimedOut
    } else if byte == 4 {
        PaymentStatus::Refunded
    } else {
        return None;
    };
    Some((status, pos + 1))
}

/// Reads an optional time at a position.
fn read_time(bytes: &Vec<u8>, pos: usize) -> (out: Option<(Option<u64>, usize)>)
    requires
        pos <= bytes@.len(),
    ensures
        out.is_some() == parse_time(remaining(bytes@, pos)).is_some(),
        out.is_some() ==> pos <= out.unwrap().1 <= bytes@.len() && parse_time(
            remaining(bytes@, pos),
        ) == Some((out.unwrap().0, remaining(bytes@, out.unwrap().1))),
{
    if pos >= bytes.len() {
        return None;
    }
    let ghost r = remaining(bytes@, pos);
    assert(r[0] == bytes@[pos as int]);
    assert(r.subrange(1, r.len() as int) =~= remaining(bytes@, (pos + 1) as usize));
    let tag = bytes[pos];
    if tag == 0 {
        Some((None, pos + 1))
    } else if tag == 1 {
        match read_u64(bytes, pos + 1) {
            Some((t, next)) => Some((Some(t), next)),
            None => None,
        }
    } else {
        None
    }
}

/// Reads a byte string at a position.
pub fn read_blob(bytes: &Vec<u8>, pos: usize) -> (out: Option<(Vec<u8>, usize)>)
    requires
        pos <= bytes@.len(),
    ensures
        out.is_some() == parse_blob(remaining(bytes@, pos)).is_some(),
        out.is_some() ==> pos <= out.unwrap().1 <= bytes@.len() && parse_blob(
            remaining(bytes@, pos),
        ) == Some((out.unwrap().0@, remaining(bytes@, out.unwrap().1))),
{
    let (n, start) = match read_u64(bytes, pos) {
        Some(pair) => pair,
        None => {
            return None;
        },
    };
    let left = bytes.len() - start;
    if n > left as u64 {
        return None;
    }
    let count = n as usize;
    let mut blob: Vec<u8> = Vec::new();
    let mut i: usize = 0;
    while i < count
        invariant
            start + count <= bytes@.len(),
            bytes@.len() <= usize::MAX,
            i <= count,
            blob@ == bytes@.subrange(start as int, start + i),
        decreases count - i,
    {
        blob.push(bytes[start + i]);
        assert(blob@ =~= bytes@.subrange(start as int, start + i + 1));
        i += 1;
    }
    proof {
        let rest = remaining(bytes@, start);
        assert(rest.subrange(0, n as int) =~= blob@);
        assert(rest.subrange(n as int, rest.len() as int) =~= remaining(
            bytes@,
            (start + count) as usize,
        ));
    }
    Some((blob, start + count))
}

/// Reads a text at a position.
pub fn read_text(bytes: &Vec<u8>, pos: usize) -> (out: Option<(String, usize)>)
    requires
        pos <= bytes@.len(),
    ensures
        out.is_some() == parse_text(remaining(bytes@, pos)).is_some(),
        out.is_some() ==> pos <= out.unwrap().1 <= bytes@.len() && parse_text(
            remaining(bytes@, pos),
        ) == Some((out.unwrap().0@, remaining(bytes@, out.unwrap().1))),
{
    match read_blob(bytes, pos) {
        None => None,
        Some((blob, next)) => match string_from_utf8(blob) {
            None => None,
            Some(text) => Some((text, next)),
        },
    }
}

/// Reads an order from bytes. Succeeds exactly on the bytes that
/// `encode_order` writes, and gives back the order that was written.
pub fn decode_order(bytes: &Vec<u8>) -> (order: Option<PaymentOrder>)
    ensures
        order.is_some() == parse_order(bytes@).is_some(),
        order.is_some() ==> parse_order(bytes@) == Some(order.unwrap()@),
{
    reveal(parse_order);
    assert(remaining(bytes@, 0) =~= bytes@);
    let (id, p1) = match read_u64(bytes, 0) {
        Some(pair) => pair,
        None => {
            return None;
        },
    };
    let (amount, p2) = match read_u64(bytes, p1) {
        Some(pair) => pair,
        None => {
            return None;
        },
    };
    let (amount_paid, p3) = match read_u64(bytes, p2) {
        Some(pair) => pair,
        None => {
            return None;
        },
    };
    let (created_time, p4) = match read_u64(bytes, p3) {
        Some(pair) => pair,
        None => {
            return None;
        },
    };
    let (price, p5) = match read_u64(bytes, p4) {
        Some(pair) => pair,
        None => {
            return None;
        },
    };
    let (status, p6) = match read_status(bytes, p5) {
        Some(pair) => pair,
        None => {
            return None;
        },
    };
    let (verified_time, p7) = match read_time(bytes, p6) {
        Some(pair) => pair,
        None => {
            return None;
        },
    };
    let (shared_time, p8) = match read_time(bytes, p7) {
        Some(pair) => pair,
        None => {
            return None;
        },
    };
    let numbers = PaymentOrder {
        id,
        payer: Principal { bytes: Vec::new() },
        amount,
        payment_type: PaymentType::CreationPrice(TokenPrice { token_name: String::new(), price }),
        source: String::new(),
        token: String::new(),
        amount_paid,
        status,
        verified_time,
        shared_time,
        created_time,
    };
    assert(numbers@.payer =~= Seq::<u8>::empty());
    decode_strings(bytes, p8, numbers)
}

/// Reads the four strings that end the bytes of an order into `numbers`,
/// which holds what was read before them.
fn decode_strings(bytes: &Vec<u8>, pos: usize, numbers: PaymentOrder) -> (order: Option<
    PaymentOrder,
>)
    requires
        pos <= bytes@.len(),
    ensures
        order.is_some() == parse_strings(remaining(bytes@, pos), numbers@).is_some(),
        order.is_some() ==> parse_strings(remaining(bytes@, pos), numbers@) == Some(
            order.unwrap()@,
        ),
{
    let (payer, p9) = match read_blob(bytes, pos) {
        Some(pair) => pair,
        None => {
            return None;
        },
    };
    let (token, p10) = match read_text(bytes, p9) {
        Some(pair) => pair,
        None => {
            return None;
        },
    };
    let (source, p11) = match read_text(bytes, p10) {
        Some(pair) => pair,
        None => {
            return None;
        },
    };
    let (token_name, p12) = match read_text(bytes, p11) {
        Some(pair) => pair,
        None => {
            return None;
        },
    };
    if p12 != bytes.len() {
        return None;
    }
    let price = match numbers.payment_type {
        PaymentType::CreationPrice(p) => p.price,
    };
    Some(
        PaymentOrder {
            id: numbers.id,
            payer: Principal { bytes: payer },
            amount: numbers.amount,
            payment_type: PaymentType::CreationPrice(TokenPrice { token_name, price }),
            source,
            token,
            amount_paid: numbers.amount_paid,
            status: numbers.status,
            verified_time: numbers.verified_time,
            shared_time: numbers.shared_time,
            created_time: numbers.created_time,
        },
    )
}

} // verus!
