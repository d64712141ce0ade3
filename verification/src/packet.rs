//! The bit window over a packet's backing words.
//!
//! A packet is a sequence of 32-bit words viewed as a flat sequence of bits,
//! bit 0 being the most significant bit of word 0 and bit indices running
//! contiguously across word boundaries. A field occupies a contiguous bit
//! range and holds an unsigned big-endian integer: the most significant bit
//! of the field sits at the lowest bit index of its range.
//!
//! [`load_field`] and [`store_field`] are the only operations the message
//! types use to touch packet data. Their contracts say exactly which bits a
//! field access reads or writes, so every property of the typed layers above
//! reduces to [`bit_get`] and [`field_bits`].

use vstd::arithmetic::power2::lemma2_to64;
use vstd::arithmetic::power2::lemma_pow2_adds;
use vstd::arithmetic::power2::lemma_pow2_strictly_increases;
use vstd::arithmetic::power2::pow2;
use vstd::pervasive::VecAdditionalExecFns;
use vstd::prelude::*;

verus! {

/// True when bit `i` of the packet is set. Bit `i` lives in word `i / 32`,
/// at shift `31 - i % 32` from the word's least significant end.
pub open spec fn bit_get(words: Seq<u32>, i: int) -> bool {
    (words[i / 32] >> ((31 - i % 32) as u32)) & 1u32 == 1u32
}

/// The unsigned big-endian integer held by the `width` bits starting at bit
/// `start`: the bit at `start` is the most significant.
pub open spec fn field_bits(words: Seq<u32>, start: int, width: nat) -> nat
    decreases width,
{
    if width == 0 {
        0
    } else {
        2 * field_bits(words, start, (width - 1) as nat) + (if bit_get(
            words,
            start + width - 1,
        ) {
            1nat
        } else {
            0nat
        })
    }
}

/// Every bit outside the range `[start, start + width)` is the same in `w2`
/// as in `w1`.
pub open spec fn unchanged_outside(w1: Seq<u32>, w2: Seq<u32>, start: int, width: int) -> bool {
    forall|j: int|
        0 <= j < w1.len() * 32 && !(start <= j < start + width) ==> #[trigger] bit_get(w2, j)
            == bit_get(w1, j)
}

/// Every bit outside the two ranges `[s1, s1 + w1)` and `[s2, s2 + w2)` is
/// the same in `after` as in `before`.
pub open spec fn unchanged_outside2(
    before: Seq<u32>,
    after: Seq<u32>,
    s1: int,
    w1: int,
    s2: int,
    w2: int,
) -> bool {
    forall|j: int|
        0 <= j < before.len() * 32 && !(s1 <= j < s1 + w1) && !(s2 <= j < s2 + w2)
            ==> #[trigger] bit_get(after, j) == bit_get(before, j)
}

/// A field's value always fits in its width.
pub proof fn lemma_field_bits_bound(words: Seq<u32>, start: int, width: nat)
    ensures
        field_bits(words, start, width) < pow2(width),
    decreases width,
{
    if width == 0 {
        lemma2_to64();
    } else {
        vstd::arithmetic::power2::lemma_pow2_unfold(width);
        lemma_field_bits_bound(words, start, (width - 1) as nat);
    }
}

/// A field's value only depends on the bits of its own range.
pub proof fn lemma_field_bits_congruent(w1: Seq<u32>, w2: Seq<u32>, start: int, width: nat)
    requires
        forall|t: int| 0 <= t < width ==> #[trigger] bit_get(w1, start + t) == bit_get(w2, start + t),
    ensures
        field_bits(w1, start, width) == field_bits(w2, start, width),
    decreases width,
{
    if width > 0 {
        lemma_field_bits_congruent(w1, w2, start, (width - 1) as nat);
        assert(bit_get(w1, start + (width - 1)) == bit_get(w2, start + (width - 1)));
    }
}

/// A range of clear bits holds the value zero.
pub proof fn lemma_field_bits_zero(words: Seq<u32>, start: int, width: nat)
    requires
        forall|t: int| 0 <= t < width ==> !(#[trigger] bit_get(words, start + t)),
    ensures
        field_bits(words, start, width) == 0,
    decreases width,
{
    if width > 0 {
        lemma_field_bits_zero(words, start, (width - 1) as nat);
        assert(!bit_get(words, start + (width - 1)));
    }
}

/// A range splits at any interior point: the high part is scaled by the
/// width of the low part.
pub proof fn lemma_field_bits_split(words: Seq<u32>, start: int, a: nat, b: nat)
    ensures
        field_bits(words, start, a + b) == field_bits(words, start, a) * pow2(b) + field_bits(
            words,
            start + a,
            b,
        ),
    decreases b,
{
    if b == 0 {
        lemma2_to64();
        assert(field_bits(words, start, a) * 1 == field_bits(words, start, a))
            by (nonlinear_arith);
    } else {
        lemma_field_bits_split(words, start, a, (b - 1) as nat);
        lemma_pow2_adds((b - 1) as nat, 1);
        lemma2_to64();
        assert((a + b - 1) as nat == (a + (b - 1) as nat) as nat);
        let hi = field_bits(words, start, a);
        let lo = field_bits(words, start + a, (b - 1) as nat);
        let bit: nat = if bit_get(words, start + a + b - 1) {
            1nat
        } else {
            0nat
        };
        assert(field_bits(words, start, a + b) == 2 * (hi * pow2((b - 1) as nat) + lo) + bit);
        assert(pow2(b) == 2 * pow2((b - 1) as nat));
        assert(2 * (hi * pow2((b - 1) as nat)) == hi * (2 * pow2((b - 1) as nat)))
            by (nonlinear_arith);
        assert(hi * pow2(b) == hi * (2 * pow2((b - 1) as nat)));
        assert(field_bits(words, start + a, b) == 2 * lo + bit);
        assert(field_bits(words, start, a + b) == hi * pow2(b) + field_bits(words, start + a, b));
    }
}

proof fn lemma_shift_chain(v: u32)
    by (bit_vector)
    ensures
        forall|sh: u32| sh < 31 ==> #[trigger] ((v >> (sh + 1)) & 1u32) == ((v >> 1u32) >> sh)
            & 1u32,
        v >> 1u32 == v / 2,
        v as nat == 2 * ((v >> 1u32) as nat) + ((v & 1u32) as nat),
        (v >> 0u32) == v,
{
}

/// A range whose bits spell out `value` (most significant bit first) holds
/// exactly `value`.
pub proof fn lemma_field_bits_from_bits(words: Seq<u32>, start: int, width: nat, value: u32)
    requires
        width <= 32,
        (value as nat) < pow2(width),
        forall|t: int|
            0 <= t < width ==> #[trigger] bit_get(words, start + t) == ((value >> ((width - 1
                - t) as u32)) & 1u32 == 1u32),
    ensures
        field_bits(words, start, width) == value as nat,
    decreases width,
{
    lemma_shift_chain(value);
    if width == 0 {
        lemma2_to64();
    } else {
        let rest = value >> 1u32;
        vstd::arithmetic::power2::lemma_pow2_unfold(width);
        assert((rest as nat) < pow2((width - 1) as nat));
        assert forall|t: int| 0 <= t < width - 1 implies #[trigger] bit_get(words, start + t) == ((
        rest >> (((width - 1) - 1 - t) as u32)) & 1u32 == 1u32) by {
            let sh1 = (((width - 1) - 1 - t) as u32);
            assert(bit_get(words, start + t) == ((value >> ((width - 1 - t) as u32)) & 1u32
                == 1u32));
            assert(sh1 < 31);
            assert((value >> (sh1 + 1)) & 1u32 == (rest >> sh1) & 1u32);
            assert((width - 1 - t) as u32 == sh1 + 1);
        }
        lemma_field_bits_from_bits(words, start, (width - 1) as nat, rest);
        assert(bit_get(words, start + width - 1) == ((value >> 0u32) & 1u32 == 1u32));
        assert(field_bits(words, start, width) == 2 * (rest as nat) + (if value & 1u32 == 1u32 {
            1nat
        } else {
            0nat
        }));
    }
}

/// Word `k` of the packet is itself the value of the aligned 32-bit range
/// that starts at bit `32 * k`.
pub proof fn lemma_word_value(words: Seq<u32>, k: int)
    requires
        0 <= k < words.len(),
    ensures
        field_bits(words, 32 * k, 32) == words[k] as nat,
{
    lemma2_to64();
    assert(pow2(32) == 0x100000000) by {
        lemma_pow2_adds(16, 16);
    }
    assert forall|t: int| 0 <= t < 32 implies #[trigger] bit_get(words, 32 * k + t) == ((words[k]
        >> ((32 - 1 - t) as u32)) & 1u32 == 1u32) by {
        assert((32 * k + t) / 32 == k);
        assert((32 * k + t) % 32 == t);
    }
    lemma_field_bits_from_bits(words, 32 * k, 32, words[k]);
}

/// Reads bit `i` of the packet.
pub fn get_bit(words: &Vec<u32>, i: usize) -> (b: bool)
    requires
        i < words@.len() * 32,
    ensures
        b == bit_get(words@, i as int),
{
    proof {
        assert(i / 32 < words@.len());
    }
    let w = words[i / 32];
    ((w >> ((31 - (i % 32)) as u32)) & 1) == 1
}

proof fn lemma_bit_update(w: u32, sh: u32, sh2: u32, b: bool)
    requires
        sh < 32,
        sh2 < 32,
    ensures
        (((if b {
            w | (1u32 << sh)
        } else {
            w & !(1u32 << sh)
        }) >> sh) & 1u32 == 1u32) == b,
        sh2 != sh ==> ((if b {
            w | (1u32 << sh)
        } else {
            w & !(1u32 << sh)
        }) >> sh2) & 1u32 == (w >> sh2) & 1u32,
{
    assert((((if b {
        w | (1u32 << sh)
    } else {
        w & !(1u32 << sh)
    }) >> sh) & 1u32 == 1u32) == b) by (bit_vector)
        requires
            sh < 32,
    ;
    assert(sh2 != sh ==> ((if b {
        w | (1u32 << sh)
    } else {
        w & !(1u32 << sh)
    }) >> sh2) & 1u32 == (w >> sh2) & 1u32) by (bit_vector)
        requires
            sh < 32 && sh2 < 32,
    ;
}

/// Sets or clears bit `i` of the packet, leaving every other bit unchanged.
pub fn set_bit(words: &mut Vec<u32>, i: usize, b: bool)
    requires
        i < old(words)@.len() * 32,
    ensures
        final(words)@.len() == old(words)@.len(),
        bit_get(final(words)@, i as int) == b,
        forall|j: int|
            0 <= j < final(words)@.len() * 32 && j != i ==> #[trigger] bit_get(final(words)@, j)
                == bit_get(old(words)@, j),
{
    proof {
        assert(i / 32 < words@.len());
    }
    let wi = i / 32;
    let sh: u32 = (31 - (i % 32)) as u32;
    let w = words[wi];
    let nw = if b {
        w | (1u32 << sh)
    } else {
        w & !(1u32 << sh)
    };
    words.set(wi, nw);
    proof {
        let ws = words@;
        let ows = old(words)@;
        assert(bit_get(ws, i as int) == b) by {
            lemma_bit_update(w, sh, sh, b);
        }
        assert forall|j: int| 0 <= j < ws.len() * 32 && j != i implies #[trigger] bit_get(ws, j)
            == bit_get(ows, j) by {
            if j / 32 == wi {
                assert(j % 32 != i % 32);
                lemma_bit_update(w, sh, (31 - j % 32) as u32, b);
            } else {
                assert(ws[j / 32] == ows[j / 32]);
            }
        }
    }
}

/// Loads the unsigned big-endian value of the `width`-bit range starting at
/// bit `start`.
pub fn load_field(words: &Vec<u32>, start: usize, width: usize) -> (r: u32)
    requires
        width <= 32,
        start + width <= words@.len() * 32,
        start + width <= usize::MAX,
    ensures
        r as nat == field_bits(words@, start as int, width as nat),
{
    proof {
        lemma2_to64();
    }
    let mut acc: u64 = 0;
    let mut k: usize = 0;
    while k < width
        invariant
            k <= width <= 32,
            start + width <= words@.len() * 32,
            start + width <= usize::MAX,
            acc as nat == field_bits(words@, start as int, k as nat),
            acc < pow2(k as nat),
        decreases width - k,
    {
        proof {
            lemma2_to64();
            if k < 32 {
                if (k as nat) < 31 {
                    lemma_pow2_strictly_increases(k as nat, 31);
                }
            }
        }
        let b = get_bit(words, start + k);
        acc = acc * 2 + (if b {
            1
        } else {
            0
        });
        k = k + 1;
        proof {
            vstd::arithmetic::power2::lemma_pow2_unfold(k as nat);
        }
    }
    proof {
        lemma2_to64();
        lemma_pow2_adds(16, 16);
        if (width as nat) < 32 {
            lemma_pow2_strictly_increases(width as nat, 32);
        }
    }
    acc as u32
}

/// Stores `value` as the unsigned big-endian contents of the `width`-bit
/// range starting at bit `start`, leaving every bit outside the range
/// unchanged.
pub fn store_field(words: &mut Vec<u32>, start: usize, width: usize, value: u32)
    requires
        width <= 32,
        start + width <= old(words)@.len() * 32,
        start + width <= usize::MAX,
        (value as nat) < pow2(width as nat),
    ensures
        final(words)@.len() == old(words)@.len(),
        field_bits(final(words)@, start as int, width as nat) == value as nat,
        unchanged_outside(old(words)@, final(words)@, start as int, width as int),
{
    let mut k: usize = 0;
    while k < width
        invariant
            k <= width <= 32,
            start + width <= words@.len() * 32,
            start + width <= usize::MAX,
            words@.len() == old(words)@.len(),
            forall|t: int|
                0 <= t < k ==> #[trigger] bit_get(words@, start + t) == ((value >> ((width - 1
                    - t) as u32)) & 1u32 == 1u32),
            forall|j: int|
                0 <= j < words@.len() * 32 && !(start <= j < start + k) ==> #[trigger] bit_get(
                    words@,
                    j,
                ) == bit_get(old(words)@, j),
        decreases width - k,
    {
        let sh: u32 = (width - 1 - k) as u32;
        let b = ((value >> sh) & 1) == 1;
        set_bit(words, start + k, b);
        k = k + 1;
    }
    proof {
        lemma_field_bits_from_bits(words@, start as int, width as nat, value);
    }
}

/// Clears the whole packet.
pub fn zero_fill(words: &mut Vec<u32>)
    ensures
        final(words)@.len() == old(words)@.len(),
        forall|k: int| 0 <= k < final(words)@.len() ==> final(words)@[k] == 0u32,
{
    let mut i: usize = 0;
    while i < words.len()
        invariant
            i <= words@.len(),
            words@.len() == old(words)@.len(),
            forall|k: int| 0 <= k < i ==> words@[k] == 0u32,
        decreases words@.len() - i,
    {
        words.set(i, 0u32);
        i = i + 1;
    }
}

/// A field whose bits are all within a range that two packets share
/// unchanged reads the same in both. The field range `[fs, fs + fw)` must be
/// disjoint from the changed range `[cs, cs + cw)`.
pub proof fn lemma_frame_field(
    w1: Seq<u32>,
    w2: Seq<u32>,
    cs: int,
    cw: int,
    fs: int,
    fw: nat,
)
    requires
        w1.len() == w2.len(),
        unchanged_outside(w1, w2, cs, cw),
        fs + fw <= cs || cs + cw <= fs,
        0 <= fs,
        fs + fw <= w1.len() * 32,
    ensures
        field_bits(w2, fs, fw) == field_bits(w1, fs, fw),
{
    assert forall|t: int| 0 <= t < fw implies #[trigger] bit_get(w1, fs + t) == bit_get(w2, fs + t) by {
        assert(bit_get(w2, fs + t) == bit_get(w1, fs + t));
    }
    lemma_field_bits_congruent(w1, w2, fs, fw);
}

/// Storing a value into a range that held zero adds the scaled value to the
/// word holding the range and leaves every other word unchanged. The range
/// must lie inside word `k`.
pub proof fn lemma_store_into_clear(
    w1: Seq<u32>,
    w2: Seq<u32>,
    k: int,
    start: int,
    width: nat,
    v: nat,
)
    requires
        0 <= k < w1.len(),
        w1.len() == w2.len(),
        32 * k <= start,
        start + width <= 32 * (k + 1),
        field_bits(w1, start, width) == 0,
        field_bits(w2, start, width) == v,
        unchanged_outside(w1, w2, start, width as int),
    ensures
        w2[k] as nat == w1[k] as nat + v * pow2((32 * (k + 1) - start - width) as nat),
        forall|j: int| 0 <= j < w1.len() && j != k ==> w2[j] == w1[j],
{
    let p = (start - 32 * k) as nat;
    let q = (32 * (k + 1) - start - width) as nat;
    assert(32 * k + 32 <= w1.len() * 32) by (nonlinear_arith)
        requires
            k + 1 <= w1.len(),
    ;
    lemma_word_value(w1, k);
    lemma_word_value(w2, k);
    lemma_field_bits_split(w1, 32 * k, p, width + q);
    lemma_field_bits_split(w1, start, width, q);
    lemma_field_bits_split(w2, 32 * k, p, width + q);
    lemma_field_bits_split(w2, start, width, q);
    lemma_frame_field(w1, w2, start, width as int, 32 * k, p);
    lemma_frame_field(w1, w2, start, width as int, start + width, q);
    assert(field_bits(w1, 32 * k, p + (width + q)) == field_bits(w1, 32 * k, p) * pow2(
        width + q,
    ) + field_bits(w1, start, width) * pow2(q) + field_bits(w1, start + width, q));
    assert(field_bits(w2, 32 * k, p + (width + q)) == field_bits(w2, 32 * k, p) * pow2(
        width + q,
    ) + field_bits(w2, start, width) * pow2(q) + field_bits(w2, start + width, q));
    assert forall|j: int| 0 <= j < w1.len() && j != k implies w2[j] == w1[j] by {
        lemma_word_value(w1, j);
        lemma_word_value(w2, j);
        assert(32 * j + 32 <= w1.len() * 32) by (nonlinear_arith)
            requires
                j + 1 <= w1.len(),
        ;
        assert forall|t: int| 0 <= t < 32 implies #[trigger] bit_get(w1, 32 * j + t) == bit_get(
            w2,
            32 * j + t,
        ) by {
            assert(32 * j + t < start || start + width <= 32 * j + t) by (nonlinear_arith)
                requires
                    j != k,
                    32 * k <= start,
                    start + width <= 32 * (k + 1),
                    0 <= t < 32,
            ;
            assert(0 <= 32 * j + t < w1.len() * 32) by (nonlinear_arith)
                requires
                    0 <= j < w1.len(),
                    0 <= t < 32,
            ;
            assert(bit_get(w2, 32 * j + t) == bit_get(w1, 32 * j + t));
        }
        lemma_field_bits_congruent(w1, w2, 32 * j, 32);
    }
}

/// In an all-zero packet every bit is clear.
proof fn lemma_zero_words_bits(words: Seq<u32>, i: int)
    requires
        0 <= i < words.len() * 32,
        forall|k: int| 0 <= k < words.len() ==> words[k] == 0u32,
    ensures
        !bit_get(words, i),
{
    assert(0 <= i / 32 < words.len());
    assert(words[i / 32] == 0u32);
    let sh = (31 - i % 32) as u32;
    assert((0u32 >> sh) & 1u32 == 0u32) by (bit_vector);
}

/// Any range of an all-zero packet holds the value zero.
pub proof fn lemma_zero_field(words: Seq<u32>, start: int, width: nat)
    requires
        forall|k: int| 0 <= k < words.len() ==> words[k] == 0u32,
        0 <= start,
        start + width <= words.len() * 32,
    ensures
        field_bits(words, start, width) == 0,
{
    assert forall|t: int| 0 <= t < width implies !(#[trigger] bit_get(words, start + t)) by {
        lemma_zero_words_bits(words, start + t);
    }
    lemma_field_bits_zero(words, start, width);
}

} // verus!
