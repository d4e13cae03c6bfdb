//! The common coin: threshold-signature shares over one round, their
//! combination, and the leader that the combined signature elects.
//!
//! The pairing arithmetic is that of the `threshold_crypto` crate. What it
//! computes is named here, not restated: `share_verifies` and
//! `combined_signature` stand for its results, and the functions of this
//! module that call it say no more than that they return those results.
//!
//! The public keys of the scheme are held as bytes: the encoding that
//! `bincode` gives to a `threshold_crypto::PublicKeySet`.

use crate::config::{index_of, stake_of, Authority, Committee};
use crate::encoding::{be_bytes, leading_number};
use crate::error::ConsensusError;
use crate::messages::RandomnessShare;
use crate::types::{PublicKey, SeqNumber, SignatureShare};
use vstd::prelude::*;

verus! {

/// The verdict of `threshold_crypto` on a share: whether `share`, read as a
/// compressed signature share, is the signature of `message` under the key
/// share number `index` of the key set that `keys` encode.
pub uninterp spec fn share_verifies(
    keys: Seq<u8>,
    index: u64,
    share: Seq<u8>,
    message: Seq<u8>,
) -> bool;

/// What `threshold_crypto` combines shares to: the compressed signature that
/// the shares, each with the number of its key share, combine to under the
/// key set that `keys` encode, if they combine.
pub uninterp spec fn combined_signature(keys: Seq<u8>, shares: Seq<(u64, Seq<u8>)>) -> Option<
    Seq<u8>,
>;

/// Whether the bytes of a key set declare at least one coefficient: the
/// encoding begins with the number of coefficients, in eight bytes.
pub open spec fn declares_coefficients(keys: Seq<u8>) -> bool {
    keys.len() >= 8 && exists|i: int| 0 <= i < 8 && keys[i] != 0
}

/// Whether the bytes of a key set declare at least one coefficient.
pub fn has_coefficients(keys: &Vec<u8>) -> (r: bool)
    ensures
        r == declares_coefficients(keys@),
{
    if keys.len() < 8 {
        return false;
    }
    let mut i: usize = 0;
    while i < 8
        invariant
            i <= 8 <= keys.len(),
            forall|k: int| 0 <= k < i ==> keys@[k] == 0,
        decreases 8 - i,
    {
        if keys[i] != 0 {
            return true;
        }
        i += 1;
    }
    false
}

/// Each share with the number of its key share, as bytes.
pub open spec fn numbered_bytes(shares: Seq<(u64, SignatureShare)>) -> Seq<(u64, Seq<u8>)> {
    shares.map_values(|s: (u64, SignatureShare)| (s.0, s.1.bytes@))
}

/// Verifies a signature share with `PublicKeySet::public_key_share` and
/// `PublicKeyShare::verify` of `threshold_crypto`, on the key set that
/// `bincode::deserialize` reads from `keys`.
///
/// Trusted: the result is the named verdict `share_verifies` of the key
/// bytes, the index, the share's bytes and the message. Bytes that are no key
/// set, and a share that is no point of the curve, do not verify.
#[verifier::external_body]
fn verify_share(keys: &Vec<u8>, index: u64, share: &SignatureShare, message: &Vec<u8>) -> (r: bool)
    ensures
        r == share_verifies(keys@, index, share.bytes@, message@),
{
    let set: Result<threshold_crypto::PublicKeySet, bincode::Error> = bincode::deserialize(keys);
    match (set, threshold_crypto::SignatureShare::from_bytes(&share.bytes)) {
        (Ok(set), Ok(parsed)) => set.public_key_share(index).verify(&parsed, message),
        _ => false,
    }
}

/// Combines signature shares with `PublicKeySet::combine_signatures` of
/// `threshold_crypto`, on the key set that `bincode::deserialize` reads from
/// `keys`, handing the shares over in the order of `shares`.
///
/// Trusted: the result is the named value `combined_signature` of the key
/// bytes and the numbered shares. The key bytes must declare a coefficient:
/// of a key set without coefficients the crate cannot tell the degree.
#[verifier::external_body]
fn combine_shares(keys: &Vec<u8>, shares: &Vec<(u64, SignatureShare)>) -> (r: Option<
    SignatureShare,
>)
    requires
        declares_coefficients(keys@),
    ensures
        match r {
            Some(s) => combined_signature(keys@, numbered_bytes(shares@)) == Some(s.bytes@),
            None => combined_signature(keys@, numbered_bytes(shares@)).is_none(),
        },
{
    let set: threshold_crypto::PublicKeySet = bincode::deserialize(keys).ok()?;
    let mut parsed = Vec::new();
    for (i, s) in shares.iter() {
        parsed.push((*i, threshold_crypto::SignatureShare::from_bytes(&s.bytes).ok()?));
    }
    let combined = set.combine_signatures(parsed.iter().map(|(i, s)| (*i, s))).ok()?;
    Some(SignatureShare { bytes: combined.to_bytes() })
}

/// The message under the coin of a round: epoch, height and round, eight
/// bytes each, most significant first.
pub open spec fn coin_message(epoch: SeqNumber, height: SeqNumber, round: SeqNumber) -> Seq<u8> {
    be_bytes(epoch) + be_bytes(height) + be_bytes(round)
}

/// The member that a combined signature elects: the one whose position in
/// the committee's order is the signature's leading number modulo the
/// committee's size.
pub open spec fn elected(members: Seq<Authority>, signature: Seq<u8>) -> PublicKey
    recommends
        members.len() > 0,
        signature.len() >= 8,
{
    members[(leading_number(signature) % members.len()) as int].name
}

/// What is wrong with a coin share, if anything: its author is no member, or
/// the share does not verify under the author's key share.
pub open spec fn share_check(share: RandomnessShare, members: Seq<Authority>, keys: Seq<u8>) -> Result<
    (),
    ConsensusError,
> {
    match index_of(members, share.author) {
        Some(i) => if stake_of(members, share.author) == 0 {
            Err(ConsensusError::UnknownAuthority(share.author))
        } else if !share_verifies(
            keys,
            i as u64,
            share.signature_share.bytes@,
            coin_message(share.epoch, share.height, share.round),
        ) {
            Err(ConsensusError::InvalidThresholdSignature(share.author))
        } else {
            Ok(())
        },
        None => Err(ConsensusError::UnknownAuthority(share.author)),
    }
}

fn push_be_bytes(out: &mut Vec<u8>, x: u64)
    ensures
        final(out)@ == old(out)@ + be_bytes(x),
{
    proof {
        reveal(be_bytes);
    }
    out.push(((x / 0x100_0000_0000_0000) % 256) as u8);
    out.push(((x / 0x1_0000_0000_0000) % 256) as u8);
    out.push(((x / 0x100_0000_0000) % 256) as u8);
    out.push(((x / 0x1_0000_0000) % 256) as u8);
    out.push(((x / 0x100_0000) % 256) as u8);
    out.push(((x / 0x1_0000) % 256) as u8);
    out.push(((x / 0x100) % 256) as u8);
    out.push((x % 256) as u8);
    assert(out@ =~= old(out)@ + be_bytes(x));
}

/// The message that the shares of the coin of a round sign.
pub fn coin_message_bytes(epoch: SeqNumber, height: SeqNumber, round: SeqNumber) -> (r: Vec<u8>)
    ensures
        r@ == coin_message(epoch, height, round),
{
    let mut out: Vec<u8> = Vec::new();
    push_be_bytes(&mut out, epoch);
    push_be_bytes(&mut out, height);
    push_be_bytes(&mut out, round);
    assert(out@ =~= coin_message(epoch, height, round));
    out
}

/// The member of `committee` that the combined signature elects.
pub fn elect(committee: &Committee, signature: &SignatureShare) -> (r: PublicKey)
    requires
        committee.wf(),
    ensures
        r == elected(committee@, signature.bytes@),
{
    proof {
        reveal(leading_number);
    }
    let b = &signature.bytes;
    let n: u64 = (b[0] as u64) * 0x100_0000_0000_0000 + (b[1] as u64) * 0x1_0000_0000_0000 + (
    b[2] as u64) * 0x100_0000_0000 + (b[3] as u64) * 0x1_0000_0000 + (b[4] as u64) * 0x100_0000
        + (b[5] as u64) * 0x1_0000 + (b[6] as u64) * 0x100 + (b[7] as u64);
    let size = committee.size();
    let at = (n % (size as u64)) as usize;
    committee.member(at)
}

impl RandomnessShare {
    /// A share of the coin of the given round, still to be signed.
    pub open spec fn spec_draft(
        height: SeqNumber,
        epoch: SeqNumber,
        round: SeqNumber,
        author: PublicKey,
    ) -> RandomnessShare {
        RandomnessShare {
            height,
            epoch,
            round,
            author,
            signature_share: SignatureShare::spec_empty(),
        }
    }

    /// A share of the coin of the given round, still to be signed.
    pub fn draft(height: SeqNumber, epoch: SeqNumber, round: SeqNumber, author: PublicKey) -> (r:
        RandomnessShare)
        ensures
            r == RandomnessShare::spec_draft(height, epoch, round, author),
    {
        RandomnessShare { height, epoch, round, author, signature_share: SignatureShare::empty() }
    }

    /// Checks that the author is a member and that the share verifies under
    /// the author's key share.
    pub fn verify(&self, committee: &Committee, keys: &Vec<u8>) -> (r: Result<
        (),
        ConsensusError,
    >)
        requires
            committee.wf(),
        ensures
            r == share_check(*self, committee@, keys@),
    {
        match committee.id(&self.author) {
            None => Err(ConsensusError::UnknownAuthority(self.author)),
            Some(i) => {
                if committee.stake(&self.author) == 0 {
                    return Err(ConsensusError::UnknownAuthority(self.author));
                }
                let message = coin_message_bytes(self.epoch, self.height, self.round);
                if !verify_share(keys, i as u64, &self.signature_share, &message) {
                    return Err(ConsensusError::InvalidThresholdSignature(self.author));
                }
                Ok(())
            },
        }
    }
}

/// The shares with the position of each author in the committee, for those
/// whose author is a member.
pub open spec fn numbered(shares: Seq<RandomnessShare>, members: Seq<Authority>) -> Seq<
    (u64, SignatureShare),
>
    decreases shares.len(),
{
    if shares.len() == 0 {
        Seq::empty()
    } else {
        let front = numbered(shares.drop_last(), members);
        match index_of(members, shares.last().author) {
            Some(i) => front.push((i as u64, shares.last().signature_share)),
            None => front,
        }
    }
}

/// The leader that `shares` elect under `keys`, if they combine. Key bytes
/// that declare no coefficient elect nobody.
pub open spec fn coin_leader(shares: Seq<RandomnessShare>, members: Seq<Authority>, keys: Seq<u8>) -> Option<
    PublicKey,
> {
    if !declares_coefficients(keys) {
        None
    } else {
        match combined_signature(keys, numbered_bytes(numbered(shares, members))) {
            Some(signature) => Some(elected(members, signature)),
            None => None,
        }
    }
}

/// Combines `shares` and elects a leader with the combined signature.
pub fn toss(shares: &Vec<RandomnessShare>, committee: &Committee, keys: &Vec<u8>) -> (r: Option<
    PublicKey,
>)
    requires
        committee.wf(),
    ensures
        r == coin_leader(shares@, committee@, keys@),
{
    if !has_coefficients(keys) {
        return None;
    }
    let mut list: Vec<(u64, SignatureShare)> = Vec::new();
    let mut i: usize = 0;
    while i < shares.len()
        invariant
            i <= shares.len(),
            committee.wf(),
            list@ == numbered(shares@.subrange(0, i as int), committee@),
        decreases shares.len() - i,
    {
        assert(shares@.subrange(0, i as int + 1).drop_last() =~= shares@.subrange(0, i as int));
        match committee.id(&shares[i].author) {
            Some(at) => {
                list.push((at as u64, shares[i].signature_share));
            },
            None => {},
        }
        i += 1;
    }
    assert(shares@.subrange(0, i as int) =~= shares@);
    match combine_shares(keys, &list) {
        Some(signature) => Some(elect(committee, &signature)),
        None => None,
    }
}

} // verus!
