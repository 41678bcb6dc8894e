//! Caller identities as plain bytes.

use vstd::prelude::*;

verus! {

/// Longest byte representation an identity may have.
pub const MAX_PRINCIPAL_LEN: usize = 29;

/// An identity handed in by the platform layer: an opaque byte string of at
/// most 29 bytes. The engine only compares identities and hashes their bytes.
#[derive(Debug)]
pub struct Principal {
    pub bytes: Vec<u8>,
}

impl View for Principal {
    type V = Seq<u8>;

    open spec fn view(&self) -> Seq<u8> {
        self.bytes@
    }
}

/// Whether two byte strings are equal, element by element.
pub fn bytes_equal(a: &Vec<u8>, b: &Vec<u8>) -> (same: bool)
    ensures
        same == (a@ == b@),
{
    if a.len() != b.len() {
        return false;
    }
    let mut i: usize = 0;
    while i < a.len()
        invariant
            a@.len() == b@.len(),
            i <= a@.len(),
            forall|j: int| 0 <= j < i ==> a@[j] == b@[j],
        decreases a@.len() - i,
    {
        if a[i] != b[i] {
            return false;
        }
        i += 1;
    }
    assert(a@ =~= b@);
    true
}

/// A copy of a byte string.
pub fn copy_bytes(src: &Vec<u8>) -> (out: Vec<u8>)
    ensures
        out@ == src@,
{
    let mut out: Vec<u8> = Vec::new();
    let mut i: usize = 0;
    while i < src.len()
        invariant
            i <= src@.len(),
            out@ == src@.subrange(0, i as int),
        decreases src@.len() - i,
    {
        out.push(src[i]);
        assert(out@ =~= src@.subrange(0, i + 1));
        i += 1;
    }
    assert(out@ =~= src@);
    out
}

impl Principal {
    /// The identity's bytes fit the canonical form.
    pub open spec fn wf(&self) -> bool {
        self.bytes@.len() <= MAX_PRINCIPAL_LEN
    }

    /// The anonymous identity: the single byte `0x04`.
    pub open spec fn anonymous_bytes() -> Seq<u8> {
        seq![4u8]
    }

    /// The anonymous identity.
    pub fn anonymous() -> (p: Principal)
        ensures
            p@ == Self::anonymous_bytes(),
            p.wf(),
    {
        let mut bytes: Vec<u8> = Vec::new();
        bytes.push(4u8);
        assert(bytes@ =~= seq![4u8]);
        Principal { bytes }
    }

    /// An identity from its bytes, or `None` when there are more than 29.
    pub fn try_from_slice(bytes: &Vec<u8>) -> (p: Option<Principal>)
        ensures
            bytes@.len() <= MAX_PRINCIPAL_LEN ==> p.is_some() && p.unwrap()@ == bytes@
                && p.unwrap().wf(),
            bytes@.len() > MAX_PRINCIPAL_LEN ==> p.is_none(),
    {
        if bytes.len() > MAX_PRINCIPAL_LEN {
            None
        } else {
            Some(Principal { bytes: copy_bytes(bytes) })
        }
    }

    /// The identity's canonical bytes.
    pub fn as_slice(&self) -> (bytes: &Vec<u8>)
        ensures
            bytes@ == self@,
    {
        &self.bytes
    }

    /// Whether two identities are the same.
    pub fn same_as(&self, other: &Principal) -> (same: bool)
        ensures
            same == (self@ == other@),
    {
        bytes_equal(&self.bytes, &other.bytes)
    }

    /// A copy of this identity.
    pub fn duplicate(&self) -> (p: Principal)
        ensures
            p@ == self@,
            p.wf() == self.wf(),
    {
        Principal { bytes: copy_bytes(&self.bytes) }
    }
}

} // verus!
