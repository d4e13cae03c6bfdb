//! Keys and digests as bytes: the four words of a key or a digest spell its
//! 32 bytes, each word most significant byte first.

use crate::types::{Digest, PublicKey};
use vstd::prelude::*;

verus! {

/// The eight bytes of `x`, most significant first.
#[verifier::opaque]
pub open spec fn be_bytes(x: u64) -> Seq<u8> {
    seq![
        ((x / 0x100_0000_0000_0000) % 256) as u8,
        ((x / 0x1_0000_0000_0000) % 256) as u8,
        ((x / 0x100_0000_0000) % 256) as u8,
        ((x / 0x1_0000_0000) % 256) as u8,
        ((x / 0x100_0000) % 256) as u8,
        ((x / 0x1_0000) % 256) as u8,
        ((x / 0x100) % 256) as u8,
        (x % 256) as u8,
    ]
}

/// The number that the first eight bytes of `bytes` spell, most significant first.
#[verifier::opaque]
pub open spec fn leading_number(bytes: Seq<u8>) -> nat
    recommends
        bytes.len() >= 8,
{
    (bytes[0] as nat) * 0x100_0000_0000_0000 + (bytes[1] as nat) * 0x1_0000_0000_0000 + (
    bytes[2] as nat) * 0x100_0000_0000 + (bytes[3] as nat) * 0x1_0000_0000 + (bytes[4] as nat)
        * 0x100_0000 + (bytes[5] as nat) * 0x1_0000 + (bytes[6] as nat) * 0x100 + (
    bytes[7] as nat)
}

/// The 32 bytes that four words spell.
pub open spec fn words_bytes(w0: u64, w1: u64, w2: u64, w3: u64) -> Seq<u8> {
    be_bytes(w0) + be_bytes(w1) + be_bytes(w2) + be_bytes(w3)
}

/// The word that the eight bytes from position `8 * at` on spell.
pub open spec fn word_at(bytes: Seq<u8>, at: int) -> u64
    recommends
        0 <= at,
        bytes.len() >= 8 * at + 8,
{
    leading_number(bytes.subrange(8 * at, 8 * at + 8)) as u64
}

/// A number has eight bytes, and they spell it.
pub proof fn law_number_has_its_bytes(x: u64)
    ensures
        be_bytes(x).len() == 8,
        leading_number(be_bytes(x)) == x,
{
    reveal(be_bytes);
    reveal(leading_number);
    lemma_digits(x as int);
}

/// Eight bytes spell a number, and the bytes of that number are they.
pub proof fn law_bytes_spell_their_number(bytes: Seq<u8>)
    requires
        bytes.len() == 8,
    ensures
        leading_number(bytes) <= u64::MAX,
        be_bytes(leading_number(bytes) as u64) == bytes,
{
    reveal(be_bytes);
    reveal(leading_number);
    let n = leading_number(bytes) as int;
    lemma_number(
        bytes[0] as int,
        bytes[1] as int,
        bytes[2] as int,
        bytes[3] as int,
        bytes[4] as int,
        bytes[5] as int,
        bytes[6] as int,
        bytes[7] as int,
    );
    assert(be_bytes(n as u64) =~= bytes);
}

/// Taking a byte off the end of what is left of `x` is dividing once more.
proof fn lemma_shift(x: int, a: int)
    requires
        0 <= x,
        0 < a,
    ensures
        (x / a) / 256 == x / (a * 256),
{
    let q = x / a;
    let r = x % a;
    let p = q / 256;
    let s = q % 256;
    assert(x == a * q + r) by (nonlinear_arith)
        requires
            q == x / a,
            r == x % a,
            0 < a,
    ;
    assert(0 <= r < a);
    assert(q == 256 * p + s);
    assert(x == (a * 256) * p + (a * s + r)) by (nonlinear_arith)
        requires
            x == a * q + r,
            q == 256 * p + s,
    ;
    assert(0 <= a * s + r < a * 256) by (nonlinear_arith)
        requires
            0 <= s < 256,
            0 <= r < a,
    ;
    assert(x / (a * 256) == p) by (nonlinear_arith)
        requires
            x == (a * 256) * p + (a * s + r),
            0 <= a * s + r < a * 256,
            0 < a,
    ;
}

proof fn lemma_digits(x: int)
    requires
        0 <= x <= u64::MAX,
    ensures
        x == ((x / 0x100_0000_0000_0000) % 256) * 0x100_0000_0000_0000 + ((x
            / 0x1_0000_0000_0000) % 256) * 0x1_0000_0000_0000 + ((x / 0x100_0000_0000) % 256)
            * 0x100_0000_0000 + ((x / 0x1_0000_0000) % 256) * 0x1_0000_0000 + ((x / 0x100_0000)
            % 256) * 0x100_0000 + ((x / 0x1_0000) % 256) * 0x1_0000 + ((x / 0x100) % 256) * 0x100
            + (x % 256),
{
    let q1 = x / 0x100;
    let q2 = q1 / 0x100;
    let q3 = q2 / 0x100;
    let q4 = q3 / 0x100;
    let q5 = q4 / 0x100;
    let q6 = q5 / 0x100;
    let q7 = q6 / 0x100;
    lemma_shift(x, 0x100);
    lemma_shift(x, 0x1_0000);
    lemma_shift(x, 0x100_0000);
    lemma_shift(x, 0x1_0000_0000);
    lemma_shift(x, 0x100_0000_0000);
    lemma_shift(x, 0x1_0000_0000_0000);
    assert(q2 == x / 0x1_0000);
    assert(q3 == x / 0x100_0000);
    assert(q4 == x / 0x1_0000_0000);
    assert(q5 == x / 0x100_0000_0000);
    assert(q6 == x / 0x1_0000_0000_0000);
    assert(q7 == x / 0x100_0000_0000_0000);
    assert(x == 256 * q1 + x % 256);
    assert(q1 == 256 * q2 + q1 % 256);
    assert(q2 == 256 * q3 + q2 % 256);
    assert(q3 == 256 * q4 + q3 % 256);
    assert(q4 == 256 * q5 + q4 % 256);
    assert(q5 == 256 * q6 + q5 % 256);
    assert(q6 == 256 * q7 + q6 % 256);
    assert(q7 < 256);
    assert(q7 % 256 == q7);
}

proof fn lemma_number(b0: int, b1: int, b2: int, b3: int, b4: int, b5: int, b6: int, b7: int)
    requires
        0 <= b0 < 256,
        0 <= b1 < 256,
        0 <= b2 < 256,
        0 <= b3 < 256,
        0 <= b4 < 256,
        0 <= b5 < 256,
        0 <= b6 < 256,
        0 <= b7 < 256,
    ensures
        ({
            let n = b0 * 0x100_0000_0000_0000 + b1 * 0x1_0000_0000_0000 + b2 * 0x100_0000_0000
                + b3 * 0x1_0000_0000 + b4 * 0x100_0000 + b5 * 0x1_0000 + b6 * 0x100 + b7;
            &&& 0 <= n <= u64::MAX
            &&& (n / 0x100_0000_0000_0000) % 256 == b0
            &&& (n / 0x1_0000_0000_0000) % 256 == b1
            &&& (n / 0x100_0000_0000) % 256 == b2
            &&& (n / 0x1_0000_0000) % 256 == b3
            &&& (n / 0x100_0000) % 256 == b4
            &&& (n / 0x1_0000) % 256 == b5
            &&& (n / 0x100) % 256 == b6
            &&& n % 256 == b7
        }),
{
    let n = b0 * 0x100_0000_0000_0000 + b1 * 0x1_0000_0000_0000 + b2 * 0x100_0000_0000 + b3
        * 0x1_0000_0000 + b4 * 0x100_0000 + b5 * 0x1_0000 + b6 * 0x100 + b7;
    let q1 = b0 * 0x1_0000_0000_0000 + b1 * 0x100_0000_0000 + b2 * 0x1_0000_0000 + b3 * 0x100_0000
        + b4 * 0x1_0000 + b5 * 0x100 + b6;
    let q2 = b0 * 0x100_0000_0000 + b1 * 0x1_0000_0000 + b2 * 0x100_0000 + b3 * 0x1_0000 + b4
        * 0x100 + b5;
    let q3 = b0 * 0x1_0000_0000 + b1 * 0x100_0000 + b2 * 0x1_0000 + b3 * 0x100 + b4;
    let q4 = b0 * 0x100_0000 + b1 * 0x1_0000 + b2 * 0x100 + b3;
    let q5 = b0 * 0x1_0000 + b1 * 0x100 + b2;
    let q6 = b0 * 0x100 + b1;
    assert(n == 256 * q1 + b7);
    assert(q1 == 256 * q2 + b6);
    assert(q2 == 256 * q3 + b5);
    assert(q3 == 256 * q4 + b4);
    assert(q4 == 256 * q5 + b3);
    assert(q5 == 256 * q6 + b2);
    assert(q6 == 256 * b0 + b1);
    assert(n / 0x100 == q1 && n % 256 == b7);
    assert(q1 / 0x100 == q2 && q1 % 256 == b6);
    assert(q2 / 0x100 == q3 && q2 % 256 == b5);
    assert(q3 / 0x100 == q4 && q3 % 256 == b4);
    assert(q4 / 0x100 == q5 && q4 % 256 == b3);
    assert(q5 / 0x100 == q6 && q5 % 256 == b2);
    assert(q6 / 0x100 == b0 && q6 % 256 == b1);
    lemma_shift(n, 0x100);
    lemma_shift(n, 0x1_0000);
    lemma_shift(n, 0x100_0000);
    lemma_shift(n, 0x1_0000_0000);
    lemma_shift(n, 0x100_0000_0000);
    lemma_shift(n, 0x1_0000_0000_0000);
    assert(n / 0x1_0000 == q2);
    assert(n / 0x100_0000 == q3);
    assert(n / 0x1_0000_0000 == q4);
    assert(n / 0x100_0000_0000 == q5);
    assert(n / 0x1_0000_0000_0000 == q6);
    assert(n / 0x100_0000_0000_0000 == b0);
}

fn number_at(bytes: &[u8; 32], at: usize) -> (r: u64)
    requires
        at < 4,
    ensures
        r == word_at(bytes@, at as int),
{
    let b = 8 * at;
    proof {
        reveal(leading_number);
        let part = bytes@.subrange(8 * at as int, 8 * at as int + 8);
        assert(part[0] == bytes@[b as int]);
        assert(part[1] == bytes@[b + 1]);
        assert(part[2] == bytes@[b + 2]);
        assert(part[3] == bytes@[b + 3]);
        assert(part[4] == bytes@[b + 4]);
        assert(part[5] == bytes@[b + 5]);
        assert(part[6] == bytes@[b + 6]);
        assert(part[7] == bytes@[b + 7]);
    }
    (bytes[b] as u64) * 0x100_0000_0000_0000 + (bytes[b + 1] as u64) * 0x1_0000_0000_0000 + (
    bytes[b + 2] as u64) * 0x100_0000_0000 + (bytes[b + 3] as u64) * 0x1_0000_0000 + (bytes[b
        + 4] as u64) * 0x100_0000 + (bytes[b + 5] as u64) * 0x1_0000 + (bytes[b + 6] as u64)
        * 0x100 + (bytes[b + 7] as u64)
}

fn byte_of(x: u64, at: usize) -> (r: u8)
    requires
        at < 8,
    ensures
        r == be_bytes(x)[at as int],
{
    proof {
        reveal(be_bytes);
    }
    if at == 0 {
        ((x / 0x100_0000_0000_0000) % 256) as u8
    } else if at == 1 {
        ((x / 0x1_0000_0000_0000) % 256) as u8
    } else if at == 2 {
        ((x / 0x100_0000_0000) % 256) as u8
    } else if at == 3 {
        ((x / 0x1_0000_0000) % 256) as u8
    } else if at == 4 {
        ((x / 0x100_0000) % 256) as u8
    } else if at == 5 {
        ((x / 0x1_0000) % 256) as u8
    } else if at == 6 {
        ((x / 0x100) % 256) as u8
    } else {
        (x % 256) as u8
    }
}

fn spell(w0: u64, w1: u64, w2: u64, w3: u64) -> (r: [u8; 32])
    ensures
        r@ == words_bytes(w0, w1, w2, w3),
{
    let r = [
        byte_of(w0, 0),
        byte_of(w0, 1),
        byte_of(w0, 2),
        byte_of(w0, 3),
        byte_of(w0, 4),
        byte_of(w0, 5),
        byte_of(w0, 6),
        byte_of(w0, 7),
        byte_of(w1, 0),
        byte_of(w1, 1),
        byte_of(w1, 2),
        byte_of(w1, 3),
        byte_of(w1, 4),
        byte_of(w1, 5),
        byte_of(w1, 6),
        byte_of(w1, 7),
        byte_of(w2, 0),
        byte_of(w2, 1),
        byte_of(w2, 2),
        byte_of(w2, 3),
        byte_of(w2, 4),
        byte_of(w2, 5),
        byte_of(w2, 6),
        byte_of(w2, 7),
        byte_of(w3, 0),
        byte_of(w3, 1),
        byte_of(w3, 2),
        byte_of(w3, 3),
        byte_of(w3, 4),
        byte_of(w3, 5),
        byte_of(w3, 6),
        byte_of(w3, 7),
    ];
    proof {
        law_number_has_its_bytes(w0);
        law_number_has_its_bytes(w1);
        law_number_has_its_bytes(w2);
        law_number_has_its_bytes(w3);
    }
    assert(r@ =~= words_bytes(w0, w1, w2, w3));
    r
}

impl PublicKey {
    /// The 32 bytes of this key.
    pub open spec fn spec_bytes(self) -> Seq<u8> {
        words_bytes(self.w0, self.w1, self.w2, self.w3)
    }

    /// The key that 32 bytes spell.
    pub open spec fn spec_from_bytes(bytes: Seq<u8>) -> PublicKey {
        PublicKey {
            w0: word_at(bytes, 0),
            w1: word_at(bytes, 1),
            w2: word_at(bytes, 2),
            w3: word_at(bytes, 3),
        }
    }

    /// The 32 bytes of this key.
    pub fn to_bytes(&self) -> (r: [u8; 32])
        ensures
            r@ == self.spec_bytes(),
    {
        spell(self.w0, self.w1, self.w2, self.w3)
    }

    /// The key that `bytes` spell.
    pub fn from_bytes(bytes: &[u8; 32]) -> (r: PublicKey)
        ensures
            r == PublicKey::spec_from_bytes(bytes@),
    {
        PublicKey {
            w0: number_at(bytes, 0),
            w1: number_at(bytes, 1),
            w2: number_at(bytes, 2),
            w3: number_at(bytes, 3),
        }
    }
}

impl Digest {
    /// The 32 bytes of this digest.
    pub open spec fn spec_bytes(self) -> Seq<u8> {
        words_bytes(self.w0, self.w1, self.w2, self.w3)
    }

    /// The digest that 32 bytes spell.
    pub open spec fn spec_from_bytes(bytes: Seq<u8>) -> Digest {
        Digest {
            w0: word_at(bytes, 0),
            w1: word_at(bytes, 1),
            w2: word_at(bytes, 2),
            w3: word_at(bytes, 3),
        }
    }

    /// The 32 bytes of this digest.
    pub fn to_bytes(&self) -> (r: [u8; 32])
        ensures
            r@ == self.spec_bytes(),
    {
        spell(self.w0, self.w1, self.w2, self.w3)
    }

    /// The digest that `bytes` spell.
    pub fn from_bytes(bytes: &[u8; 32]) -> (r: Digest)
        ensures
            r == Digest::spec_from_bytes(bytes@),
    {
        Digest {
            w0: number_at(bytes, 0),
            w1: number_at(bytes, 1),
            w2: number_at(bytes, 2),
            w3: number_at(bytes, 3),
        }
    }
}

proof fn lemma_word_of_words(w0: u64, w1: u64, w2: u64, w3: u64)
    ensures
        word_at(words_bytes(w0, w1, w2, w3), 0) == w0,
        word_at(words_bytes(w0, w1, w2, w3), 1) == w1,
        word_at(words_bytes(w0, w1, w2, w3), 2) == w2,
        word_at(words_bytes(w0, w1, w2, w3), 3) == w3,
{
    let all = words_bytes(w0, w1, w2, w3);
    law_number_has_its_bytes(w0);
    law_number_has_its_bytes(w1);
    law_number_has_its_bytes(w2);
    law_number_has_its_bytes(w3);
    assert(all.subrange(0, 8) =~= be_bytes(w0));
    assert(all.subrange(8, 16) =~= be_bytes(w1));
    assert(all.subrange(16, 24) =~= be_bytes(w2));
    assert(all.subrange(24, 32) =~= be_bytes(w3));
}

/// Keys and digests survive the way through their bytes and back, and so
/// do the bytes: turning a key or a digest into its 32 bytes and these
/// back gives the same key or digest, and turning 32 bytes into a key or
/// a digest and that back gives the same bytes.
pub proof fn law_bytes_round_trip(key: PublicKey, digest: Digest, bytes: Seq<u8>)
    requires
        bytes.len() == 32,
    ensures
        PublicKey::spec_from_bytes(key.spec_bytes()) == key,
        Digest::spec_from_bytes(digest.spec_bytes()) == digest,
        PublicKey::spec_from_bytes(bytes).spec_bytes() == bytes,
        Digest::spec_from_bytes(bytes).spec_bytes() == bytes,
        key.spec_bytes().len() == 32,
        digest.spec_bytes().len() == 32,
{
    lemma_word_of_words(key.w0, key.w1, key.w2, key.w3);
    lemma_word_of_words(digest.w0, digest.w1, digest.w2, digest.w3);
    law_number_has_its_bytes(key.w0);
    law_number_has_its_bytes(key.w1);
    law_number_has_its_bytes(key.w2);
    law_number_has_its_bytes(key.w3);
    law_number_has_its_bytes(digest.w0);
    law_number_has_its_bytes(digest.w1);
    law_number_has_its_bytes(digest.w2);
    law_number_has_its_bytes(digest.w3);
    let a = bytes.subrange(0, 8);
    let b = bytes.subrange(8, 16);
    let c = bytes.subrange(16, 24);
    let d = bytes.subrange(24, 32);
    law_bytes_spell_their_number(a);
    law_bytes_spell_their_number(b);
    law_bytes_spell_their_number(c);
    law_bytes_spell_their_number(d);
    assert(be_bytes(word_at(bytes, 0)) == a);
    assert(be_bytes(word_at(bytes, 1)) == b);
    assert(be_bytes(word_at(bytes, 2)) == c);
    assert(be_bytes(word_at(bytes, 3)) == d);
    assert(a + b + c + d =~= bytes);
    assert(words_bytes(word_at(bytes, 0), word_at(bytes, 1), word_at(bytes, 2), word_at(bytes, 3))
        == bytes);
    let k = PublicKey::spec_from_bytes(bytes);
    assert(k.spec_bytes() == words_bytes(k.w0, k.w1, k.w2, k.w3));
    let g = Digest::spec_from_bytes(bytes);
    assert(g.spec_bytes() == words_bytes(g.w0, g.w1, g.w2, g.w3));
}

} // verus!
