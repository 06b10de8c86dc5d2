//! Integers as sequences of 32-bit limbs, the least significant first.

use vstd::arithmetic::div_mod::{
    lemma_fundamental_div_mod, lemma_fundamental_div_mod_converse, lemma_small_mod,
};
use vstd::arithmetic::power2::{lemma2_to64, lemma_pow2_adds, lemma_pow2_pos, pow2};
use vstd::prelude::*;

use crate::limbs::{limb_count, route_width_limbs};
use crate::model::design::Width;

verus! {

/// The integer that limbs stand for.
pub open spec fn words_value(limbs: Seq<u32>) -> nat
    decreases limbs.len(),
{
    if limbs.len() == 0 {
        0
    } else {
        words_value(limbs.drop_last()) + limbs.last() as nat * pow2(
            (32 * (limbs.len() - 1)) as nat,
        )
    }
}

/// What limbs stand for is less than the power of two that follows their bits.
pub proof fn lemma_words_bound(limbs: Seq<u32>)
    ensures
        words_value(limbs) < pow2(32 * limbs.len()),
    decreases limbs.len(),
{
    if limbs.len() == 0 {
        lemma2_to64();
    } else {
        let n = (limbs.len() - 1) as nat;
        lemma_words_bound(limbs.drop_last());
        lemma2_to64();
        lemma_pow2_adds((32 * n) as nat, 32);
        let low = pow2((32 * n) as nat) as int;
        let last = limbs.last() as int;
        assert(32 * n + 32 == 32 * limbs.len());
        assert((last + 1) * low <= 0x1_0000_0000 * low) by (nonlinear_arith)
            requires
                0 <= last < 0x1_0000_0000,
                low >= 0,
        ;
        assert((last + 1) * low == last * low + low) by (nonlinear_arith);
    }
}

/// The powers of two at the borders of four limbs.
pub proof fn lemma_pow2_128()
    ensures
        pow2(0) == 1,
        pow2(32) == 0x1_0000_0000,
        pow2(64) == 0x1_0000_0000_0000_0000,
        pow2(96) == 0x1_0000_0000_0000_0000_0000_0000,
        pow2(128) == 0x1_0000_0000_0000_0000_0000_0000_0000_0000int,
{
    lemma2_to64();
    lemma_pow2_adds(64, 32);
    lemma_pow2_adds(64, 64);
}

/// The integer that the bits of a width hold of a value.
pub open spec fn truncated(value: nat, width: Width) -> nat {
    value % pow2(width as nat)
}

proof fn lemma_shift_step(encoded: u128)
    ensures
        encoded >> 32u128 == encoded / 0x1_0000_0000u128,
        encoded as u32 == encoded % 0x1_0000_0000u128,
{
    assert(encoded >> 32u128 == encoded / 0x1_0000_0000u128) by (bit_vector);
    assert(encoded as u32 == encoded % 0x1_0000_0000u128) by (bit_vector);
}

/// A value parted into the bits below a position, `k` bits from there, and the rest.
proof fn lemma_truncate(value: int, low: int, last: int, rest: int, below: nat, k: nat)
    requires
        0 <= low < pow2(below),
        last >= 0,
        rest >= 0,
        k <= 32,
        value == low + last * pow2(below) + rest * pow2(below + 32),
    ensures
        value % (pow2(below + k) as int) == low + (last % (pow2(k) as int)) * pow2(below),
{
    let p = pow2(below) as int;
    let q = pow2(k) as int;
    let h = pow2((32 - k) as nat) as int;
    lemma_pow2_pos(below);
    lemma_pow2_pos(k);
    lemma_pow2_adds(below, k);
    lemma_pow2_adds(k, (32 - k) as nat);
    lemma_pow2_adds(below, 32);
    let d = last / q;
    let m = last % q;
    lemma_fundamental_div_mod(last, q);
    assert(pow2(32) == q * h);
    assert(last * p == d * (p * q) + m * p) by (nonlinear_arith)
        requires
            last == q * d + m,
    ;
    assert(rest * (p * (q * h)) == (rest * h) * (p * q)) by (nonlinear_arith);
    assert((d + rest * h) * (p * q) == d * (p * q) + (rest * h) * (p * q)) by (nonlinear_arith);
    assert(0 <= low + m * p < p * q) by (nonlinear_arith)
        requires
            0 <= low < p,
            0 <= m < q,
    ;
    lemma_fundamental_div_mod_converse(value, p * q, d + rest * h, low + m * p);
}

/// The mask of the last limb of a width.
pub open spec fn last_limb_bits(width: Width) -> nat {
    if width % 32 == 0 {
        32
    } else {
        (width % 32) as nat
    }
}

/// Keeps the low bits of a limb: all of them, or those that `width` leaves in the last one.
fn masked_limb(limb: u32, width: Width) -> (r: u32)
    ensures
        r as int == limb as int % (pow2(last_limb_bits(width)) as int),
{
    let k: u32 = width % 32;
    proof {
        lemma2_to64();
    }
    if k == 0 {
        proof {
            lemma_small_mod(limb as nat, pow2(32));
        }
        limb
    } else {
        proof {
            vstd::bits::lemma_u32_shl_is_mul(1, k);
            vstd::bits::lemma_u32_low_bits_mask_is_mod(limb, k as nat);
            vstd::bits::lemma_low_bits_mask_values();
        }
        let m: u32 = (1u32 << k) - 1;
        limb & m
    }
}

/// Encodes a value in the limbs of a width; bits beyond the width are dropped.
pub fn encode_u128_limbs(value: u128, width: Width) -> (r: Vec<u32>)
    ensures
        r@.len() == limb_count(width),
        words_value(r@) == truncated(value as nat, width),
{
    let count: usize = route_width_limbs(width);
    let mut encoded: u128 = value;
    let mut r: Vec<u32> = Vec::new();
    let mut i: usize = 0;
    proof {
        lemma2_to64();
        assert(encoded * pow2(0) == encoded) by (nonlinear_arith)
            requires
                pow2(0) == 1,
        ;
    }
    while i < count
        invariant
            i <= count,
            r@.len() == i,
            value == words_value(r@) + encoded * pow2((32 * i) as nat),
            i == 0 ==> encoded == value,
            i > 0 ==> exists|before: u128|
                value == words_value(r@.drop_last()) + #[trigger] (before * pow2(
                    (32 * (i - 1)) as nat,
                )) && r@.last() == before % 0x1_0000_0000u128 && encoded == before
                    / 0x1_0000_0000u128,
        decreases count - i,
    {
        let ghost before = encoded;
        let ghost prefix = r@;
        proof {
            lemma_shift_step(encoded);
        }
        r.push(#[verifier::truncate] (encoded as u32));
        encoded = encoded >> 32;
        proof {
            let p = pow2((32 * i) as nat) as int;
            lemma2_to64();
            lemma_pow2_adds((32 * i) as nat, 32);
            assert(r@.drop_last() =~= prefix);
            assert(before == (before / 0x1_0000_0000) * 0x1_0000_0000 + before % 0x1_0000_0000);
            assert(before * p == encoded * (p * 0x1_0000_0000) + r@.last() * p) by (nonlinear_arith)
                requires
                    before == encoded * 0x1_0000_0000 + r@.last(),
            ;
            assert(32 * i + 32 == 32 * (i + 1));
            assert(value == words_value(r@.drop_last()) + before * pow2((32 * (i + 1 - 1)) as nat));
        }
        i = i + 1;
    }
    if count > 0 {
        let ghost whole = r@;
        let last: u32 = masked_limb(r[count - 1], width);
        r.set(count - 1, last);
        proof {
            let below = (32 * (count - 1)) as nat;
            assert(r@.drop_last() =~= whole.drop_last());
            let k = last_limb_bits(width);
            assert(below + k == width);
            lemma_words_bound(whole.drop_last());
            assert(32 * whole.drop_last().len() == below);
            assert(32 * count == below + 32);
            lemma_truncate(
                value as int,
                words_value(whole.drop_last()) as int,
                whole.last() as int,
                encoded as int,
                below,
                k,
            );
        }
    } else {
        proof {
            assert(width == 0);
            assert(value as int % 1 == 0);
        }
    }
    r
}

/// Decodes the first four limbs.
pub fn decode_u128_limbs(limbs: &Vec<u32>) -> (r: u128)
    ensures
        r == words_value(limbs@.take(decoded_limbs(limbs@.len()))),
{
    let count: usize = if limbs.len() < 4 {
        limbs.len()
    } else {
        4
    };
    let mut acc: u128 = 0;
    let mut scale: u128 = 1;
    let mut i: usize = 0;
    proof {
        lemma2_to64();
        assert(limbs@.take(0) =~= Seq::<u32>::empty());
    }
    while i < count
        invariant
            i <= count <= limbs@.len(),
            count <= 4,
            acc == words_value(limbs@.take(i as int)),
            i < 4 ==> scale == pow2((32 * i) as nat),
        decreases count - i,
    {
        proof {
            let next = limbs@.take(i + 1);
            assert(next.drop_last() =~= limbs@.take(i as int));
            assert(next.last() == limbs@[i as int]);
            lemma_words_bound(next);
            lemma_pow2_128();
            lemma_pow2_adds((32 * i) as nat, 32);
            lemma2_to64();
            let p = pow2((32 * i) as nat) as int;
            assert(limbs@[i as int] as int * p >= 0) by (nonlinear_arith)
                requires
                    p >= 0,
            ;
        }
        acc = acc + limbs[i] as u128 * scale;
        if i < 3 {
            scale = scale * 0x1_0000_0000;
        }
        i = i + 1;
    }
    acc
}

/// How many of some limbs are decoded.
pub open spec fn decoded_limbs(count: nat) -> int {
    if count < 4 {
        count as int
    } else {
        4
    }
}

/// Decoding gives back what was encoded in a width of at most 128 bits: the value where it fits,
/// its low bits otherwise.
pub proof fn lemma_decode_encoded(value: u128, width: Width, encoded: Seq<u32>)
    requires
        width <= 128,
        encoded.len() == limb_count(width),
        words_value(encoded) == truncated(value as nat, width),
    ensures
        words_value(encoded.take(decoded_limbs(encoded.len()))) == truncated(value as nat, width),
        value < pow2(width as nat) ==> words_value(encoded.take(decoded_limbs(encoded.len())))
            == value,
{
    assert(encoded.take(decoded_limbs(encoded.len())) =~= encoded);
    if value < pow2(width as nat) {
        lemma_small_mod(value as nat, pow2(width as nat));
    }
}

/// The low bits of a value are no more than the value.
pub proof fn lemma_truncated_bound(value: u128, width: Width)
    ensures
        truncated(value as nat, width) <= value,
{
    lemma_pow2_pos(width as nat);
    let p = pow2(width as nat) as int;
    lemma_fundamental_div_mod(value as int, p);
    let q = value as int / p;
    assert(p * q >= 0) by (nonlinear_arith)
        requires
            p > 0,
            q >= 0,
    ;
}

} // verus!
