//! The Internet checksum (one's-complement sum of big-endian 16-bit words).

use vstd::arithmetic::div_mod::{lemma_add_mod_noop, lemma_mod_multiples_vanish, lemma_small_mod};
use vstd::prelude::*;

verus! {

/// Big-endian 16-bit word number `k` of `b`; an odd trailing byte is the
/// high byte of a word whose low byte is zero.
pub open spec fn word_at(b: Seq<u8>, k: int) -> nat {
    let hi = b[2 * k] as nat;
    let lo = if 2 * k + 1 < b.len() { b[2 * k + 1] as nat } else { 0 };
    hi * 256 + lo
}

/// Number of 16-bit words that `b` is read as.
pub open spec fn word_count(b: Seq<u8>) -> nat {
    (b.len() + 1) / 2
}

/// Plain sum of the first `n` words of `b`.
pub open spec fn words_sum(b: Seq<u8>, n: nat) -> nat
    decreases n,
{
    if n == 0 {
        0
    } else {
        words_sum(b, (n - 1) as nat) + word_at(b, n - 1)
    }
}

/// Plain sum of all the words of `b`.
pub open spec fn word_sum(b: Seq<u8>) -> nat {
    words_sum(b, word_count(b))
}

/// Folds the carries above bit 16 back into the low 16 bits until none is left.
pub open spec fn fold_carries(s: nat) -> nat
    decreases s,
{
    if s < 0x10000 {
        s
    } else {
        fold_carries(s % 0x10000 + s / 0x10000)
    }
}

/// The checksum of `b`: the bitwise complement of its folded word sum.
pub open spec fn internet_checksum(b: Seq<u8>) -> u16 {
    (0xFFFF - fold_carries(word_sum(b))) as u16
}

/// One's-complement value of a plain sum: 0 for 0, otherwise the
/// representative of `s` modulo 0xFFFF in `1..=0xFFFF`.
pub open spec fn ones_complement(s: nat) -> nat {
    if s == 0 {
        0
    } else {
        ((s - 1) as nat % 0xFFFF) + 1
    }
}

/// Folding carries computes the one's-complement value.
pub proof fn lemma_fold_carries(s: nat)
    ensures
        fold_carries(s) == ones_complement(s),
        fold_carries(s) <= 0xFFFF,
    decreases s,
{
    if s < 0x10000 {
        if s > 0 {
            lemma_small_mod((s - 1) as nat, 0xFFFF);
        }
    } else {
        let q = s / 0x10000;
        let r = s % 0x10000;
        let t = r + q;
        assert(s == 0x10000 * q + r);
        assert(t < s);
        assert(t > 0);
        lemma_fold_carries(t);
        assert((s - 1) == 0xFFFF * q + (t - 1));
        lemma_mod_multiples_vanish(q as int, t - 1, 0xFFFF);
    }
}

/// Adding one word to a one's-complement value with end-around carry.
pub proof fn lemma_ones_add(s: nat, w: nat)
    requires
        w <= 0xFFFF,
    ensures
        ones_complement(s) <= 0xFFFF,
        ones_complement(s + w) == if ones_complement(s) + w > 0xFFFF {
            ones_complement(s) + w - 0xFFFF
        } else {
            ones_complement(s) + w as int
        },
{
    if s == 0 {
        if w > 0 {
            lemma_small_mod((w - 1) as nat, 0xFFFF);
        }
    } else {
        let r = (s - 1) as nat % 0xFFFF;
        lemma_add_mod_noop((s - 1) as int, w as int, 0xFFFF);
        lemma_small_mod(w as nat % 0xFFFF, 0xFFFF);
        if w == 0xFFFF {
            assert(w as int % 0xFFFF == 0);
        } else {
            lemma_small_mod(w, 0xFFFF);
        }
        assert(((s - 1) + w) as int % 0xFFFF == (r + w % 0xFFFF) as int % 0xFFFF);
        if r + w < 0xFFFF {
            lemma_small_mod(r + w, 0xFFFF);
        } else {
            assert((r + w) as int % 0xFFFF == (r + w - 0xFFFF) as int % 0xFFFF) by {
                lemma_mod_multiples_vanish(1, (r + w - 0xFFFF) as int, 0xFFFF);
            }
        }
    }
}

/// The words of `b` before word `n`, extended by word `n`.
pub proof fn lemma_words_sum_step(b: Seq<u8>, n: nat)
    ensures
        words_sum(b, n + 1) == words_sum(b, n) + word_at(b, n as int),
{
}

/// Two byte strings of one length whose words agree except word `k`, which
/// differs by `delta`, have plain sums that differ by `delta` once word `k`
/// is counted.
pub proof fn lemma_words_sum_delta(a: Seq<u8>, b: Seq<u8>, k: nat, delta: int, n: nat)
    requires
        a.len() == b.len(),
        n <= word_count(a),
        k < word_count(a),
        forall|j: int| 0 <= j < word_count(a) && j != k ==> word_at(a, j) == word_at(b, j),
        word_at(b, k as int) == word_at(a, k as int) + delta,
    ensures
        words_sum(b, n) == words_sum(a, n) + if n > k {
            delta
        } else {
            0
        },
    decreases n,
{
    if n > 0 {
        lemma_words_sum_delta(a, b, k, delta, (n - 1) as nat);
    }
}

/// The one's-complement value is all ones exactly for the positive multiples of 0xFFFF.
pub proof fn lemma_ones_all_set(s: nat)
    ensures
        ones_complement(s) == 0xFFFF <==> (s > 0 && s % 0xFFFF == 0),
{
    if s > 0 {
        let q = (s - 1) as nat / 0xFFFF;
        let r = (s - 1) as nat % 0xFFFF;
        assert((s - 1) == 0xFFFF * q + r);
        if r == 0xFFFE {
            assert(s == 0xFFFF * (q + 1) + 0);
            lemma_mod_multiples_vanish((q + 1) as int, 0, 0xFFFF);
        } else {
            assert(s == 0xFFFF * q + (r + 1));
            lemma_mod_multiples_vanish(q as int, (r + 1) as int, 0xFFFF);
            lemma_small_mod(r + 1, 0xFFFF);
        }
    }
}

/// A checksum is accepted when recomputing it over the whole message gives zero.
pub open spec fn checksum_accepts(b: Seq<u8>) -> bool {
    internet_checksum(b) == 0
}

/// A byte string is accepted exactly when its word sum folds to all ones.
pub proof fn lemma_accepts_iff(b: Seq<u8>)
    ensures
        checksum_accepts(b) <==> (word_sum(b) > 0 && word_sum(b) % 0xFFFF == 0),
{
    lemma_fold_carries(word_sum(b));
    lemma_ones_all_set(word_sum(b));
}

/// `b` with bit `bit` of byte `pos` inverted.
pub open spec fn flip_bit(b: Seq<u8>, pos: int, bit: u8) -> Seq<u8> {
    b.update(pos, b[pos] ^ (1u8 << bit))
}

proof fn lemma_flip_byte(x: u8, bit: u8)
    requires
        bit < 8,
    ensures
        1 <= (1u8 << bit) <= 128,
        (x ^ (1u8 << bit)) == x + (1u8 << bit) || (x ^ (1u8 << bit)) + (1u8 << bit) == x,
{
    assert(1 <= (1u8 << bit) <= 128) by (bit_vector)
        requires
            bit < 8,
    ;
    assert((x ^ (1u8 << bit)) == x + (1u8 << bit) || (x ^ (1u8 << bit)) + (1u8 << bit) == x)
        by (bit_vector)
        requires
            bit < 8,
    ;
}

/// Inverting any single bit of an accepted byte string makes the checksum reject it.
pub proof fn lemma_flip_detected(b: Seq<u8>, pos: int, bit: u8)
    requires
        checksum_accepts(b),
        0 <= pos < b.len(),
        bit < 8,
    ensures
        !checksum_accepts(flip_bit(b, pos, bit)),
{
    let f = flip_bit(b, pos, bit);
    let k = pos / 2;
    lemma_flip_byte(b[pos], bit);
    let d: int = (1u8 << bit) as int;
    let byte_delta: int = f[pos] as int - b[pos] as int;
    assert(byte_delta == d || byte_delta == -d);
    let delta: int = if pos % 2 == 0 {
        byte_delta * 256
    } else {
        byte_delta
    };
    assert forall|j: int| 0 <= j < word_count(b) && j != k implies word_at(b, j) == word_at(f, j) by {
        assert(f[2 * j] == b[2 * j]);
        if 2 * j + 1 < b.len() {
            assert(f[2 * j + 1] == b[2 * j + 1]);
        }
    }
    if pos % 2 == 0 {
        assert(pos == 2 * k);
        if 2 * k + 1 < b.len() {
            assert(f[2 * k + 1] == b[2 * k + 1]);
        }
    } else {
        assert(pos == 2 * k + 1);
        assert(f[2 * k] == b[2 * k]);
    }
    assert(word_at(f, k) == word_at(b, k) + delta);
    lemma_words_sum_delta(b, f, k as nat, delta, word_count(b));
    lemma_accepts_iff(b);
    lemma_accepts_iff(f);
    let s = word_sum(b);
    let t = word_sum(f);
    assert(t == s + delta);
    let q = s / 0xFFFF;
    assert(s == 0xFFFF * q);
    assert(1 <= d <= 128);
    let m: int = if delta > 0 { delta } else { 0xFFFF + delta };
    assert(0 < m < 0xFFFF);
    if delta > 0 {
        assert(t == 0xFFFF * q + m);
        lemma_mod_multiples_vanish(q as int, m, 0xFFFF);
    } else {
        assert(t == 0xFFFF * (q - 1) + m);
        lemma_mod_multiples_vanish(q - 1, m, 0xFFFF);
    }
    lemma_small_mod(m as nat, 0xFFFF);
}

} // verus!
