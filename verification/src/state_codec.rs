//! The byte form of the configuration state, as it lies in stable memory.

use crate::codec::{
    before, blob_bytes, enc_blob, enc_text, lemma_parse_blob, lemma_parse_text, lemma_parse_u64,
    lemma_unparse_blob, lemma_unparse_text, lemma_unparse_u64, parse_blob, parse_text, parse_u64,
    read_blob, read_text, read_u64, remaining, text_bytes,
};
use crate::helper_utils::{be_bytes_u64, u64_to_be_bytes};
use crate::principal::Principal;
use crate::state::{StateView, UserState};
use vstd::prelude::*;
use vstd::utf8::*;

verus! {

/// The upper 64 bits of a 128-bit count.
pub open spec fn high_half(x: u128) -> u64 {
    (x >> 64) as u64
}

/// The lower 64 bits of a 128-bit count.
pub open spec fn low_half(x: u128) -> u64 {
    (x & 0xFFFF_FFFF_FFFF_FFFF) as u64
}

/// The 128-bit count with these halves.
pub open spec fn join_halves(high: u64, low: u64) -> u128 {
    (high as u128) << 64 | (low as u128)
}

/// A count is the join of its halves.
pub proof fn lemma_halves_join(x: u128)
    ensures
        join_halves(high_half(x), low_half(x)) == x,
{
    let h = high_half(x);
    let l = low_half(x);
    assert((h as u128) << 64 | (l as u128) == x) by (bit_vector)
        requires
            h == (x >> 64) as u64,
            l == (x & 0xFFFF_FFFF_FFFF_FFFF) as u64,
    ;
}

/// The halves of a join are what was joined.
pub proof fn lemma_join_halves(high: u64, low: u64)
    ensures
        high_half(join_halves(high, low)) == high,
        low_half(join_halves(high, low)) == low,
{
    let x = join_halves(high, low);
    assert((x >> 64) as u64 == high && (x & 0xFFFF_FFFF_FFFF_FFFF) as u64 == low) by (bit_vector)
        requires
            x == (high as u128) << 64 | (low as u128),
    ;
}

/// A list of texts, one after the other.
pub open spec fn enc_texts(list: Seq<Seq<char>>) -> Seq<u8>
    decreases list.len(),
{
    if list.len() == 0 {
        Seq::empty()
    } else {
        enc_text(list[0]) + enc_texts(list.drop_first())
    }
}

/// Reads `count` texts off the front.
pub open spec fn parse_texts(s: Seq<u8>, count: nat) -> Option<(Seq<Seq<char>>, Seq<u8>)>
    decreases count,
{
    if count == 0 {
        Some((Seq::empty(), s))
    } else {
        match parse_text(s) {
            None => None,
            Some((text, rest)) => match parse_texts(rest, (count - 1) as nat) {
                None => None,
                Some((texts, after)) => Some((seq![text] + texts, after)),
            },
        }
    }
}

/// Every text of the list is short enough for its length to be written.
pub open spec fn texts_encodable(list: Seq<Seq<char>>) -> bool {
    forall|i: int| 0 <= i < list.len() ==> encode_utf8(#[trigger] list[i]).len() <= u64::MAX
}

/// A list of texts is read back from its bytes.
pub proof fn lemma_parse_texts(list: Seq<Seq<char>>, tail: Seq<u8>)
    requires
        texts_encodable(list),
    ensures
        parse_texts(enc_texts(list) + tail, list.len()) == Some((list, tail)),
    decreases list.len(),
{
    if list.len() == 0 {
        assert(enc_texts(list) + tail =~= tail);
        assert(list =~= Seq::<Seq<char>>::empty());
    } else {
        let rest = list.drop_first();
        assert forall|i: int| 0 <= i < rest.len() implies encode_utf8(#[trigger] rest[i]).len()
            <= u64::MAX by {
            assert(rest[i] == list[i + 1]);
        }
        assert(enc_texts(list) + tail =~= enc_text(list[0]) + (enc_texts(rest) + tail));
        lemma_parse_text(list[0], enc_texts(rest) + tail);
        lemma_parse_texts(rest, tail);
        assert(seq![list[0]] + rest =~= list);
    }
}

/// What a list of texts was read from is its bytes and what follows.
pub proof fn lemma_unparse_texts(s: Seq<u8>, count: nat)
    requires
        parse_texts(s, count).is_some(),
    ensures
        parse_texts(s, count).unwrap().0.len() == count,
        s == enc_texts(parse_texts(s, count).unwrap().0) + parse_texts(s, count).unwrap().1,
    decreases count,
{
    if count == 0 {
        assert(s =~= enc_texts(Seq::<Seq<char>>::empty()) + s);
    } else {
        lemma_unparse_text(s);
        let text = parse_text(s).unwrap().0;
        let rest = parse_text(s).unwrap().1;
        lemma_unparse_texts(rest, (count - 1) as nat);
        let texts = parse_texts(rest, (count - 1) as nat).unwrap().0;
        let after = parse_texts(rest, (count - 1) as nat).unwrap().1;
        let list = seq![text] + texts;
        assert(list[0] == text);
        assert(list.drop_first() =~= texts);
        assert(s =~= (enc_text(text) + enc_texts(texts)) + after);
    }
}

/// The bytes of a configuration state.
pub open spec fn state_encoding(v: StateView) -> Seq<u8> {
    be_bytes_u64(high_half(v.user_count)) + (be_bytes_u64(low_half(v.user_count)) + (enc_blob(
        v.owner,
    ) + (enc_blob(v.indexer_canister_id) + (enc_text(v.name) + (be_bytes_u64(
        v.invite_codes.len() as u64,
    ) + (enc_texts(v.invite_codes) + Seq::<u8>::empty()))))))
}

/// A state whose strings and lists are short enough for their lengths to
/// be written down. Every state that fits in memory is.
pub open spec fn state_encodable(v: StateView) -> bool {
    &&& v.owner.len() <= u64::MAX
    &&& v.indexer_canister_id.len() <= u64::MAX
    &&& encode_utf8(v.name).len() <= u64::MAX
    &&& v.invite_codes.len() <= u64::MAX
    &&& texts_encodable(v.invite_codes)
}

/// The state that the bytes are the bytes of, if they are those of any.
#[verifier::opaque]
pub open spec fn parse_state(s: Seq<u8>) -> Option<StateView> {
    match parse_u64(s) {
        None => None,
        Some((high, s1)) => match parse_u64(s1) {
            None => None,
            Some((low, s2)) => match parse_blob(s2) {
                None => None,
                Some((owner, s3)) => match parse_blob(s3) {
                    None => None,
                    Some((indexer_canister_id, s4)) => match parse_text(s4) {
                        None => None,
                        Some((name, s5)) => match parse_u64(s5) {
                            None => None,
                            Some((count, s6)) => match parse_texts(s6, count as nat) {
                                None => None,
                                Some((invite_codes, s7)) => if s7.len() == 0 {
                                    Some(
                                        StateView {
                                            name,
                                            owner,
                                            indexer_canister_id,
                                            user_count: join_halves(high, low),
                                            invite_codes,
                                        },
                                    )
                                } else {
                                    None
                                },
                            },
                        },
                    },
                },
            },
        },
    }
}

/// Every state is read back from its bytes.
pub proof fn law_state_decode_inverts_encode(v: StateView)
    requires
        state_encodable(v),
    ensures
        parse_state(state_encoding(v)) == Some(v),
{
    reveal(parse_state);
    let t7 = Seq::<u8>::empty();
    let t6 = enc_texts(v.invite_codes) + t7;
    let t5 = be_bytes_u64(v.invite_codes.len() as u64) + t6;
    let t4 = enc_text(v.name) + t5;
    let t3 = enc_blob(v.indexer_canister_id) + t4;
    let t2 = enc_blob(v.owner) + t3;
    let t1 = be_bytes_u64(low_half(v.user_count)) + t2;
    lemma_parse_u64(high_half(v.user_count), t1);
    lemma_parse_u64(low_half(v.user_count), t2);
    lemma_parse_blob(v.owner, t3);
    lemma_parse_blob(v.indexer_canister_id, t4);
    lemma_parse_text(v.name, t5);
    lemma_parse_u64(v.invite_codes.len() as u64, t6);
    lemma_parse_texts(v.invite_codes, t7);
    lemma_halves_join(v.user_count);
}

/// Bytes that are read as a state are the bytes of that state.
pub proof fn law_state_encode_inverts_decode(s: Seq<u8>)
    requires
        parse_state(s).is_some(),
    ensures
        state_encoding(parse_state(s).unwrap()) == s,
{
    reveal(parse_state);
    lemma_unparse_u64(s);
    let high = parse_u64(s).unwrap().0;
    let s1 = parse_u64(s).unwrap().1;
    lemma_unparse_u64(s1);
    let low = parse_u64(s1).unwrap().0;
    let s2 = parse_u64(s1).unwrap().1;
    lemma_unparse_blob(s2);
    let s3 = parse_blob(s2).unwrap().1;
    lemma_unparse_blob(s3);
    let s4 = parse_blob(s3).unwrap().1;
    lemma_unparse_text(s4);
    let s5 = parse_text(s4).unwrap().1;
    lemma_unparse_u64(s5);
    let count = parse_u64(s5).unwrap().0;
    let s6 = parse_u64(s5).unwrap().1;
    lemma_unparse_texts(s6, count as nat);
    let s7 = parse_texts(s6, count as nat).unwrap().1;
    assert(s7 =~= Seq::<u8>::empty());
    lemma_join_halves(high, low);
}

/// The bytes of a list of texts.
pub fn texts_bytes(list: &Vec<String>) -> (out: Vec<u8>)
    ensures
        out@ == enc_texts(list@.map_values(|s: String| s@)),
        texts_encodable(list@.map_values(|s: String| s@)),
{
    let ghost shown = list@.map_values(|s: String| s@);
    let mut out: Vec<u8> = Vec::new();
    let mut i: usize = list.len();
    assert(shown.subrange(i as int, shown.len() as int) =~= Seq::<Seq<char>>::empty());
    while i > 0
        invariant
            i <= list@.len(),
            shown == list@.map_values(|s: String| s@),
            out@ == enc_texts(shown.subrange(i as int, shown.len() as int)),
            forall|k: int| i <= k < shown.len() ==> encode_utf8(#[trigger] shown[k]).len() <= u64::MAX,
        decreases i,
    {
        i -= 1;
        let field = text_bytes(&list[i]);
        let ghost tail = shown.subrange(i + 1, shown.len() as int);
        let ghost here = shown.subrange(i as int, shown.len() as int);
        assert(here[0] == shown[i as int]);
        assert(here.drop_first() =~= tail);
        out = before(field, &out);
    }
    assert(shown.subrange(0, shown.len() as int) =~= shown);
    out
}

/// Reads `count` texts at a position.
pub fn read_texts(bytes: &Vec<u8>, pos: usize, count: u64) -> (out: Option<(Vec<String>, usize)>)
    requires
        pos <= bytes@.len(),
    ensures
        out.is_some() == parse_texts(remaining(bytes@, pos), count as nat).is_some(),
        out.is_some() ==> pos <= out.unwrap().1 <= bytes@.len() && parse_texts(
            remaining(bytes@, pos),
            count as nat,
        ) == Some(
            (out.unwrap().0@.map_values(|s: String| s@), remaining(bytes@, out.unwrap().1)),
        ),
{
    let ghost whole = parse_texts(remaining(bytes@, pos), count as nat);
    let mut texts: Vec<String> = Vec::new();
    let mut at: usize = pos;
    let mut left: u64 = count;
    assert(texts@.map_values(|s: String| s@) =~= Seq::<Seq<char>>::empty());
    while left > 0
        invariant
            pos <= at <= bytes@.len(),
            left <= count,
            whole == parse_texts(remaining(bytes@, pos), count as nat),
            whole == match parse_texts(remaining(bytes@, at), left as nat) {
                None => None::<(Seq<Seq<char>>, Seq<u8>)>,
                Some((more, after)) => Some((texts@.map_values(|s: String| s@) + more, after)),
            },
        decreases left,
    {
        let ghost shown = texts@.map_values(|s: String| s@);
        let (text, next) = match read_text(bytes, at) {
            Some(pair) => pair,
            None => {
                return None;
            },
        };
        proof {
            let rest = remaining(bytes@, next);
            match parse_texts(rest, (left - 1) as nat) {
                None => {},
                Some((more, after)) => {
                    assert(shown.push(text@) + more =~= shown + (seq![text@] + more));
                },
            }
        }
        texts.push(text);
        assert(texts@.map_values(|s: String| s@) =~= shown.push(text@));
        at = next;
        left -= 1;
    }
    assert(texts@.map_values(|s: String| s@) + Seq::<Seq<char>>::empty()
        =~= texts@.map_values(|s: String| s@));
    Some((texts, at))
}

/// Writes a configuration state as bytes.
pub fn encode_state(state: &UserState) -> (bytes: Vec<u8>)
    ensures
        bytes@ == state_encoding(state@),
        state_encodable(state@),
{
    let high = (state.user_count >> 64) as u64;
    let low = (state.user_count & 0xFFFF_FFFF_FFFF_FFFF) as u64;
    let ghost owner_len = state.owner.bytes.len();
    let ghost indexer_len = state.indexer_canister_id.bytes.len();
    let count = state.invite_codes.len();
    let t7: Vec<u8> = Vec::new();
    assert(t7@ =~= Seq::<u8>::empty());
    let t6 = before(texts_bytes(&state.invite_codes), &t7);
    let t5 = before(u64_to_be_bytes(count as u64), &t6);
    let t4 = before(text_bytes(&state.name), &t5);
    let t3 = before(blob_bytes(state.indexer_canister_id.as_slice()), &t4);
    let t2 = before(blob_bytes(state.owner.as_slice()), &t3);
    let t1 = before(u64_to_be_bytes(low), &t2);
    before(u64_to_be_bytes(high), &t1)
}

/// Reads a configuration state from bytes. Succeeds exactly on the bytes
/// that `encode_state` writes, and gives back the state that was written.
pub fn decode_state(bytes: &Vec<u8>) -> (state: Option<UserState>)
    ensures
        state.is_some() == parse_state(bytes@).is_some(),
        state.is_some() ==> parse_state(bytes@) == Some(state.unwrap()@),
{
    reveal(parse_state);
    assert(remaining(bytes@, 0) =~= bytes@);
    let (high, p1) = match read_u64(bytes, 0) {
        Some(pair) => pair,
        None => {
            return None;
        },
    };
    let (low, p2) = match read_u64(bytes, p1) {
        Some(pair) => pair,
        None => {
            return None;
        },
    };
    let (owner, p3) = match read_blob(bytes, p2) {
        Some(pair) => pair,
        None => {
            return None;
        },
    };
    let (indexer, p4) = match read_blob(bytes, p3) {
        Some(pair) => pair,
        None => {
            return None;
        },
    };
    let (name, p5) = match read_text(bytes, p4) {
        Some(pair) => pair,
        None => {
            return None;
        },
    };
    let (count, p6) = match read_u64(bytes, p5) {
        Some(pair) => pair,
        None => {
            return None;
        },
    };
    let (invite_codes, p7) = match read_texts(bytes, p6, count) {
        Some(pair) => pair,
        None => {
            return None;
        },
    };
    if p7 != bytes.len() {
        return None;
    }
    Some(
        UserState {
            name,
            owner: Principal { bytes: owner },
            indexer_canister_id: Principal { bytes: indexer },
            user_count: (high as u128) << 64 | (low as u128),
            invite_codes,
        },
    )
}

} // verus!
