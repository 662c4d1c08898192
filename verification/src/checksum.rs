//! The CTMP one's-complement checksum: an internet-checksum style sum of
//! 16-bit big-endian words with end-around carry folding.
//!
//! The sum is seeded with the (magic, options) word, the length field, and
//! the constant 0xCCCC standing in for the checksum field itself; every
//! 16-bit payload word follows, an odd trailing byte padded with a zero low
//! byte. The 32-bit accumulator is folded to 16 bits by repeatedly adding
//! its high half to its low half, and the checksum is the one's complement
//! of the folded value. The 0xCCCC substitution is a wire-format choice:
//! senders must seed with the same constant for verification to round-trip.

use vstd::arithmetic::div_mod::lemma_fundamental_div_mod;
use vstd::arithmetic::div_mod::lemma_mod_bound;
use vstd::arithmetic::div_mod::lemma_mod_multiples_vanish;
use vstd::prelude::*;

use crate::header::Header;
use crate::header::spec_sensitive;
use crate::header::word16;

verus! {

/// The constant that stands in for the checksum field while summing.
pub const CHECKSUM_STAND_IN: u16 = 0xCCCC;

/// The 16-bit words of a payload, big-endian, an odd trailing byte padded
/// with a zero low byte.
pub open spec fn payload_words(p: Seq<u8>) -> Seq<u16> {
    Seq::new((p.len() + 1) / 2, |j: int| if 2 * j + 1 < p.len() {
        word16(p[2 * j], p[2 * j + 1])
    } else {
        word16(p[2 * j], 0)
    })
}

/// The sum of a sequence of 16-bit words, as an unbounded natural.
pub open spec fn sum_words(ws: Seq<u16>) -> nat
    decreases ws.len(),
{
    if ws.len() == 0 {
        0
    } else {
        (sum_words(ws.drop_last()) + ws.last()) as nat
    }
}

/// The seed of the accumulator: the (magic, options) word, the length
/// field, and the stand-in constant for the checksum field.
pub open spec fn checksum_seed(magic: u8, options: u8, length: u16) -> nat {
    (word16(magic, options) + length + CHECKSUM_STAND_IN) as nat
}

/// The full unfolded accumulator value over the header fields and payload.
pub open spec fn checksum_total(magic: u8, options: u8, length: u16, p: Seq<u8>) -> nat {
    checksum_seed(magic, options, length) + sum_words(payload_words(p))
}

/// End-around-carry folding: add the high 16 bits to the low 16 bits until
/// nothing above bit 15 remains.
pub open spec fn fold16(s: nat) -> nat
    decreases s,
    via fold16_decreases
{
    if s > 0xFFFF {
        fold16((s / 0x10000 + s % 0x10000) as nat)
    } else {
        s
    }
}

#[via_fn]
proof fn fold16_decreases(s: nat) {
    if s > 0xFFFF {
        lemma_fold_step_shrinks(s as int);
    }
}

/// One folding step strictly shrinks any accumulator above 16 bits.
proof fn lemma_fold_step_shrinks(s: int)
    requires
        s > 0xFFFF,
    ensures
        0 <= s / 0x10000 + s % 0x10000 < s,
{
    lemma_fundamental_div_mod(s, 0x10000);
    lemma_mod_bound(s, 0x10000);
}

/// The checksum over given header fields and payload: the one's complement
/// of the folded accumulator.
pub open spec fn spec_checksum(magic: u8, options: u8, length: u16, p: Seq<u8>) -> u16 {
    (0xFFFF - fold16(checksum_total(magic, options, length, p))) as u16
}

/// Whether a header's checksum field matches the checksum of its own
/// fields and the given payload.
pub open spec fn spec_checksum_ok(h: Header, p: Seq<u8>) -> bool {
    h.checksum == spec_checksum(h.magic, h.options, h.length, p)
}

/// A frame may be forwarded unless it is sensitive and its checksum fails.
pub open spec fn spec_forwardable(h: Header, p: Seq<u8>) -> bool {
    !spec_sensitive(h) || spec_checksum_ok(h, p)
}

/// A folded accumulator is at most 16 bits wide and congruent to the
/// original modulo 0xFFFF (since 0x10000 is 1 modulo 0xFFFF).
pub proof fn lemma_fold16_congruent(s: nat)
    ensures
        fold16(s) <= 0xFFFF,
        fold16(s) % 0xFFFF == s % 0xFFFF,
    decreases s,
{
    if s > 0xFFFF {
        let q = s as int / 0x10000;
        let r = s as int % 0x10000;
        lemma_fundamental_div_mod(s as int, 0x10000);
        lemma_mod_bound(s as int, 0x10000);
        lemma_fold_step_shrinks(s as int);
        assert(s == 0xFFFF * q + (q + r)) by {
            assert(s == 0x10000 * q + r);
        }
        lemma_mod_multiples_vanish(q, q + r, 0xFFFF);
        lemma_fold16_congruent((q + r) as nat);
    }
}

/// Checksum round-trip law: a checksum computed over any header fields and
/// any payload, placed in the header's checksum field, verifies against the
/// same fields and payload.
pub proof fn lemma_checksum_round_trip(magic: u8, options: u8, length: u16, p: Seq<u8>)
    ensures
        ({
            let h = Header {
                magic,
                options,
                length,
                checksum: spec_checksum(magic, options, length, p),
                padding: 0,
            };
            spec_checksum_ok(h, p)
        }),
{
}

/// Updating one word changes the word sum by exactly the word's change.
proof fn lemma_sum_words_update(ws: Seq<u16>, j: int, w: u16)
    requires
        0 <= j < ws.len(),
    ensures
        sum_words(ws.update(j, w)) == sum_words(ws) - ws[j] + w,
    decreases ws.len(),
{
    let ws2 = ws.update(j, w);
    if j == ws.len() - 1 {
        assert(ws2.drop_last() =~= ws.drop_last());
    } else {
        assert(ws2.drop_last() =~= ws.drop_last().update(j, w));
        lemma_sum_words_update(ws.drop_last(), j, w);
    }
}

/// Changing payload byte `i` changes only word `i / 2` of the word
/// sequence, and changes that word by a nonzero amount smaller in
/// magnitude than 0xFFFF.
proof fn lemma_payload_words_update(p: Seq<u8>, i: int, b: u8)
    requires
        0 <= i < p.len(),
        b != p[i],
    ensures
        payload_words(p.update(i, b))
            =~= payload_words(p).update(i / 2, payload_words(p.update(i, b))[i / 2]),
        payload_words(p.update(i, b))[i / 2] != payload_words(p)[i / 2],
        -0xFFFF < payload_words(p.update(i, b))[i / 2] - payload_words(p)[i / 2] < 0xFFFF,
{
    let p2 = p.update(i, b);
    let ws1 = payload_words(p);
    let ws2 = payload_words(p2);
    let j = i / 2;
    assert(2 * j == i || 2 * j + 1 == i);
    assert forall|k: int| 0 <= k < ws2.len() && k != j implies ws2[k] == ws1[k] by {
        assert(2 * k != i && 2 * k + 1 != i);
    }
    if 2 * j == i {
        assert(ws1[j] == word16(p[i], if i + 1 < p.len() { p[i + 1] } else { 0 }));
        assert(ws2[j] == word16(b, if i + 1 < p.len() { p[i + 1] } else { 0 }));
    } else {
        assert(ws1[j] == word16(p[i - 1], p[i]));
        assert(ws2[j] == word16(p[i - 1], b));
    }
}

/// Two distinct naturals whose difference is smaller in magnitude than
/// 0xFFFF have distinct remainders modulo 0xFFFF.
proof fn lemma_close_distinct_mod(a: int, b: int)
    requires
        0 <= a,
        0 <= b,
        a != b,
        -0xFFFF < a - b < 0xFFFF,
    ensures
        a % 0xFFFF != b % 0xFFFF,
{
    if a % 0xFFFF == b % 0xFFFF {
        lemma_fundamental_div_mod(a, 0xFFFF);
        lemma_fundamental_div_mod(b, 0xFFFF);
        let d = a / 0xFFFF - b / 0xFFFF;
        assert(a - b == 0xFFFF * d);
        if d >= 1 {
            assert(0xFFFF * d >= 0xFFFF);
        }
        if d <= -1 {
            assert(0xFFFF * d <= -0xFFFF);
        }
    }
}

/// Corruption-detection law: changing any single payload byte changes the
/// checksum, so no single-byte (in particular, no single-bit) corruption
/// verifies against the original checksum.
pub proof fn lemma_checksum_detects_byte_change(
    magic: u8,
    options: u8,
    length: u16,
    p: Seq<u8>,
    i: int,
    b: u8,
)
    requires
        0 <= i < p.len(),
        b != p[i],
    ensures
        spec_checksum(magic, options, length, p.update(i, b))
            != spec_checksum(magic, options, length, p),
{
    let p2 = p.update(i, b);
    let ws1 = payload_words(p);
    let ws2 = payload_words(p2);
    let j = i / 2;
    lemma_payload_words_update(p, i, b);
    lemma_sum_words_update(ws1, j, ws2[j]);
    assert(ws1.update(j, ws2[j]) =~= ws2);
    let t1 = checksum_total(magic, options, length, p);
    let t2 = checksum_total(magic, options, length, p2);
    assert(t2 - t1 == ws2[j] - ws1[j]);
    lemma_close_distinct_mod(t1 as int, t2 as int);
    lemma_fold16_congruent(t1);
    lemma_fold16_congruent(t2);
}

/// Bit-flip corruption law: flipping any single bit of any payload byte
/// changes the checksum.
pub proof fn lemma_checksum_detects_bit_flip(
    magic: u8,
    options: u8,
    length: u16,
    p: Seq<u8>,
    i: int,
    k: u8,
)
    requires
        0 <= i < p.len(),
        k < 8,
    ensures
        spec_checksum(magic, options, length, p.update(i, p[i] ^ (1u8 << k)))
            != spec_checksum(magic, options, length, p),
{
    let x = p[i];
    assert(x ^ (1u8 << k) != x) by (bit_vector)
        requires
            k < 8,
    ;
    lemma_checksum_detects_byte_change(magic, options, length, p, i, x ^ (1u8 << k));
}

/// Computes the CTMP checksum a sender must place in the header's checksum
/// field for the frame to verify.
pub fn compute_checksum(magic: u8, options: u8, length: u16, payload: &[u8]) -> (r: u16)
    requires
        payload@.len() <= 0xFFFF,
    ensures
        r == spec_checksum(magic, options, length, payload@),
{
    let ghost total = checksum_total(magic, options, length, payload@);
    let n = payload.len();
    let n_words = (n + 1) / 2;
    let mut sum: u32 = (magic as u32) * 256 + (options as u32) + (length as u32) + 0xCCCC;
    let mut i: usize = 0;

    assert(payload_words(payload@).take(0) =~= Seq::<u16>::empty());
    while i < n_words
        invariant
            n == payload@.len() <= 0xFFFF,
            n_words == (n + 1) / 2,
            i <= n_words,
            sum == checksum_seed(magic, options, length)
                + sum_words(payload_words(payload@).take(i as int)),
            sum <= 0x2CCCA + i * 0xFFFF,
        decreases n_words - i,
    {
        let hi = payload[2 * i];
        let lo: u8 = if 2 * i + 1 < n {
            payload[2 * i + 1]
        } else {
            0
        };
        let word: u32 = (hi as u32) * 256 + (lo as u32);
        assert(word == payload_words(payload@)[i as int]);
        assert(payload_words(payload@).take(i + 1).drop_last()
            =~= payload_words(payload@).take(i as int));
        sum = sum + word;
        i = i + 1;
    }
    assert(payload_words(payload@).take(n_words as int) =~= payload_words(payload@));
    assert(sum == total);

    while sum > 0xFFFF
        invariant
            fold16(sum as nat) == fold16(total),
        decreases sum,
    {
        proof {
            lemma_fold_step_shrinks(sum as int);
        }
        sum = sum / 0x10000 + sum % 0x10000;
    }
    0xFFFF - (sum as u16)
}

impl Header {
    /// Verifies the checksum of a sensitive frame: recomputes the checksum
    /// over this header's fields and the payload and compares it to the
    /// checksum field. Only meaningful when the frame is sensitive.
    pub fn validate_checksum(&self, data: &[u8]) -> (r: bool)
        requires
            data@.len() <= 0xFFFF,
        ensures
            r == spec_checksum_ok(*self, data@),
    {
        let computed = compute_checksum(self.magic, self.options, self.length, data);
        computed == self.checksum
    }
}

} // verus!
