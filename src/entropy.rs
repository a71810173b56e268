use vstd::prelude::*;
use vstd::arithmetic::power2::{lemma2_to64, lemma_pow2_strictly_increases, lemma_pow2_unfold, pow2};

verus! {

/// The number that `bits` spell, most significant bit first.
pub open spec fn bits_value(bits: Seq<bool>) -> nat
    decreases bits.len(),
{
    if bits.len() == 0 {
        0
    } else {
        2 * bits_value(bits.drop_last()) + (if bits.last() {
            1nat
        } else {
            0nat
        })
    }
}

/// Whether `r` is what [`random`] makes of 32 bits that `random_bit` can
/// return: their value, most significant bit first, mapped into
/// `[min, max]` as [`bounded`] does.
pub open spec fn drawn<F: Fn() -> bool>(random_bit: F, min: u32, max: u32, r: u32) -> bool {
    exists|bits: Seq<bool>|
        {
            &&& bits.len() == 32
            &&& forall|k: int| 0 <= k < 32 ==> random_bit.ensures((), #[trigger] bits[k])
            &&& r == bits_value(bits) % ((max - min + 1) as nat) + min
        }
}

/// Maps a raw 32-bit draw into `[min, max]`: the draw modulo the width of the
/// range, shifted up to `min`.
pub fn bounded(raw: u32, min: u32, max: u32) -> (r: u32)
    requires
        min <= max,
        max - min < u32::MAX,
    ensures
        r == raw % ((max - min + 1) as u32) + min,
        min <= r <= max,
{
    let width: u32 = max - min + 1;
    raw % width + min
}

/// Draws a random integer in `[min, max]`: 32 bits from `random_bit`, most
/// significant first, mapped into the range by [`bounded`].
///
/// `random_bit` is the entropy source, typically the ring oscillator's jitter bit.
pub fn random<F: Fn() -> bool>(random_bit: &F, min: u32, max: u32) -> (r: u32)
    requires
        min <= max,
        max - min < u32::MAX,
        random_bit.requires(()),
    ensures
        min <= r <= max,
        drawn(*random_bit, min, max, r),
{
    let mut raw: u32 = 0;
    let mut i: u32 = 0;
    let ghost mut bits: Seq<bool> = seq![];
    proof {
        lemma2_to64();
    }
    while i < 32
        invariant
            i <= 32,
            random_bit.requires(()),
            bits.len() == i,
            forall|k: int| 0 <= k < i ==> random_bit.ensures((), #[trigger] bits[k]),
            raw as nat == bits_value(bits),
            bits_value(bits) < pow2(i as nat),
        decreases 32 - i,
    {
        let b = random_bit();
        let bit: u32 = if b { 1 } else { 0 };
        proof {
            lemma2_to64();
            if i < 31 {
                lemma_pow2_strictly_increases(i as nat, 31);
            }
            lemma_pow2_unfold((i + 1) as nat);
            assert(raw < 0x8000_0000u32);
            assert(raw << 1u32 | bit == raw * 2 + bit) by (bit_vector)
                requires
                    raw < 0x8000_0000u32,
                    bit <= 1,
            ;
            let old_bits = bits;
            bits = bits.push(b);
            assert(bits.drop_last() =~= old_bits);
            assert forall|k: int| 0 <= k < i + 1 implies random_bit.ensures((), #[trigger] bits[k]) by {
                if k < i {
                    assert(bits[k] == old_bits[k]);
                }
            }
        }
        raw = raw << 1u32 | bit;
        i = i + 1;
    }
    let r = bounded(raw, min, max);
    assert(drawn(*random_bit, min, max, r));
    r
}

} // verus!
