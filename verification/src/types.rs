//! Plain values shared by every module: counters, keys, digests, signatures.

use vstd::prelude::*;

verus! {

/// Height, round and epoch counters.
pub type SeqNumber = u64;

/// Voting power of a committee member.
pub type Stake = u32;

/// Tag of the optimistic path.
pub const OPT: u8 = 0;

/// Tag of the pessimistic path.
pub const PES: u8 = 1;

/// First phase of a provable broadcast: the value is proposed.
pub const INIT_PHASE: u8 = 0;

/// Second phase: a quorum has voted for the proposed value.
pub const LOCK_PHASE: u8 = 1;

/// Third phase: a quorum has voted for the locked value.
pub const FIN_PHASE: u8 = 2;

/// A replica's 256-bit public key, as four big-endian 64-bit words.
///
/// Keys are ordered lexicographically by their words, which is the order of
/// the underlying 32 bytes.
#[derive(Clone, Copy, PartialEq, Eq, Structural, Debug, Hash)]
pub struct PublicKey {
    pub w0: u64,
    pub w1: u64,
    pub w2: u64,
    pub w3: u64,
}

/// A 256-bit digest, as four big-endian 64-bit words.
#[derive(Clone, Copy, PartialEq, Eq, Structural, Debug, Hash)]
pub struct Digest {
    pub w0: u64,
    pub w1: u64,
    pub w2: u64,
    pub w3: u64,
}

/// An author's signature. The core never looks inside: it carries the bytes
/// from the message that brought them to the certificate that collects them.
#[derive(Clone, Copy, Debug)]
pub struct Signature {
    pub bytes: [u8; 64],
}

/// A threshold-signature share, or a combined threshold signature, in its
/// compressed 96-byte form.
#[derive(Clone, Copy, Debug)]
pub struct SignatureShare {
    pub bytes: [u8; 96],
}

impl PublicKey {
    /// Strict lexicographic order on the four words.
    pub open spec fn spec_lt(self, other: PublicKey) -> bool {
        self.w0 < other.w0 || (self.w0 == other.w0 && (self.w1 < other.w1 || (self.w1 == other.w1
            && (self.w2 < other.w2 || (self.w2 == other.w2 && self.w3 < other.w3)))))
    }

    /// Whether `self` comes strictly before `other`.
    pub fn lt(&self, other: &PublicKey) -> (r: bool)
        ensures
            r == self.spec_lt(*other),
    {
        if self.w0 != other.w0 {
            self.w0 < other.w0
        } else if self.w1 != other.w1 {
            self.w1 < other.w1
        } else if self.w2 != other.w2 {
            self.w2 < other.w2
        } else {
            self.w3 < other.w3
        }
    }
}

impl Digest {
    /// The all-zero digest, which names the genesis block.
    pub open spec fn spec_zero() -> Digest {
        Digest { w0: 0, w1: 0, w2: 0, w3: 0 }
    }

    /// The all-zero digest.
    pub fn zero() -> (r: Digest)
        ensures
            r == Digest::spec_zero(),
    {
        Digest { w0: 0, w1: 0, w2: 0, w3: 0 }
    }
}

impl Signature {
    /// The all-zero signature: the placeholder in a message that has not been
    /// signed yet, and the signature of the genesis block.
    pub open spec fn spec_empty() -> Signature {
        Signature { bytes: vstd::array::spec_array_fill_for_copy_type::<u8, 64>(0u8) }
    }

    /// The all-zero signature.
    pub fn empty() -> (r: Signature)
        ensures
            r == Signature::spec_empty(),
    {
        Signature { bytes: [0u8; 64] }
    }
}

impl SignatureShare {
    /// The all-zero share: the placeholder in a share that has not been signed.
    pub open spec fn spec_empty() -> SignatureShare {
        SignatureShare { bytes: vstd::array::spec_array_fill_for_copy_type::<u8, 96>(0u8) }
    }

    /// The all-zero share.
    pub fn empty() -> (r: SignatureShare)
        ensures
            r == SignatureShare::spec_empty(),
    {
        SignatureShare { bytes: [0u8; 96] }
    }
}

/// A copy of `v`, element by element.
pub fn copy_vec<T: Copy>(v: &Vec<T>) -> (r: Vec<T>)
    ensures
        r@ == v@,
{
    let mut out: Vec<T> = Vec::new();
    let mut i: usize = 0;
    while i < v.len()
        invariant
            i <= v.len(),
            out@ == v@.subrange(0, i as int),
        decreases v.len() - i,
    {
        out.push(v[i]);
        i += 1;
        assert(out@ =~= v@.subrange(0, i as int));
    }
    assert(out@ =~= v@);
    out
}

} // verus!

verus! {

/// The views of the elements of `s`, in order.
pub open spec fn seq_view<T: View>(s: Seq<T>) -> Seq<T::V> {
    Seq::new(s.len(), |i: int| s[i]@)
}

pub proof fn lemma_seq_view_push<T: View>(s: Seq<T>, x: T)
    ensures
        seq_view(s.push(x)) == seq_view(s).push(x@),
{
    assert(seq_view(s.push(x)) =~= seq_view(s).push(x@));
}

} // verus!
