//! Bit-level helpers and the specification of the arithmetic flag outputs.
//!
//! Every flag a byte operation produces is specified here as a function of the
//! operands alone, in the "direct" arithmetic form (a carry out of bit 7 is
//! `a + b + cy > 0xFF`, and so on); the executable code computes the same
//! values with the hardware's XOR trick and is proved against these.

use vstd::prelude::*;

verus! {

/// Bit `n` of `val`, as 0 or 1.
pub open spec fn spec_bit(n: u8, val: u8) -> u8 {
    (val >> n) & 1
}

pub broadcast proof fn lemma_spec_bit_le_1(n: u8, val: u8)
    ensures
        #[trigger] spec_bit(n, val) <= 1,
{
    assert((val >> n) & 1 <= 1) by (bit_vector);
}

pub broadcast proof fn lemma_shr7_le_1(v: u8)
    ensures
        #[trigger] (v >> 7u8) <= 1,
{
    assert(v >> 7u8 <= 1) by (bit_vector);
}

pub broadcast proof fn lemma_and1_le_1(v: u8)
    ensures
        #[trigger] (v & 1u8) <= 1,
{
    assert(v & 1u8 <= 1) by (bit_vector);
}

/// Truncating a `u16` to a byte keeps the value modulo 256.
pub broadcast proof fn lemma_trunc_u16_u8(x: u16)
    ensures
        #[trigger] (x as u8) == x as int % 256,
{
    assert(x as u8 == x as int % 256) by (bit_vector);
}

/// Get bit `n` of the byte `val`.
pub fn GET_BIT(n: u8, val: u8) -> (r: u8)
    requires
        n < 8,
    ensures
        r == spec_bit(n, val),
        r <= 1,
{
    proof {
        lemma_and1_le_1(val >> n);
    }
    (val >> n) & 1
}

/// The sign flag a result produces: its top bit.
pub open spec fn sign_of(r: u8) -> u8 {
    (r / 128) as u8
}

/// Shifting a byte down by seven extracts its top bit.
pub broadcast proof fn lemma_shr7_div(v: u8)
    ensures
        #[trigger] (v >> 7u8) == v / 128,
{
    assert(v >> 7u8 == v / 128) by (bit_vector);
}

/// The low nibble of a byte, by mask or by remainder.
pub broadcast proof fn lemma_and_nibble(v: u8)
    ensures
        #[trigger] (v & 0xF) == v % 16,
{
    assert(v & 0xF == v % 16) by (bit_vector);
}

/// The low bit of a byte, by mask or by remainder.
pub broadcast proof fn lemma_and1_mod(v: u8)
    ensures
        #[trigger] (v & 1) == v % 2,
{
    assert(v & 1 == v % 2) by (bit_vector);
}

/// The zero flag a result produces.
pub open spec fn zero_of(r: u8) -> u8 {
    if r == 0 {
        1
    } else {
        0
    }
}

/// Flip of a flag bit (only the lowest bit counts).
pub open spec fn flag_not(f: u8) -> u8 {
    if f % 2 == 0 {
        1
    } else {
        0
    }
}

/// Complement-and-mask computes the flag flip.
pub broadcast proof fn lemma_flag_not(f: u8)
    ensures
        #[trigger] ((!f) & 1) == flag_not(f),
{
    assert((!f) & 1 == if f % 2 == 0 {
        1u8
    } else {
        0u8
    }) by (bit_vector);
}

/// Bitwise complement of a byte, arithmetically.
pub broadcast proof fn lemma_not_u8(b: u8)
    ensures
        #[trigger] (!b) == 255 - b,
{
    assert(!b == 255 - b) by (bit_vector);
}

/// Result byte of `a + b + carry` (the carry argument contributes its lowest
/// bit only, as on the hardware).
pub open spec fn add_res(a: u8, b: u8, cy: u8) -> u8 {
    ((a + b + (cy % 2)) % 256) as u8
}

/// Carry out of bit 7 of `a + b + carry`.
pub open spec fn add_cf(a: u8, b: u8, cy: u8) -> u8 {
    if a + b + (cy % 2) > 0xFF {
        1
    } else {
        0
    }
}

/// Carry out of bit 3 (into bit 4) of `a + b + carry`: the half-carry flag.
pub open spec fn add_hf(a: u8, b: u8, cy: u8) -> u8 {
    if (a % 16) + (b % 16) + (cy % 2) > 0xF {
        1
    } else {
        0
    }
}

/// Signed overflow of `a + b + carry`: carry into bit 7 differs from the
/// carry out of bit 7.
pub open spec fn add_pf(a: u8, b: u8, cy: u8) -> u8 {
    if ((a % 128) + (b % 128) + (cy % 2) > 0x7F) != (a + b + (cy % 2) > 0xFF) {
        1
    } else {
        0
    }
}

/// One's-complement carry used by subtraction: the flipped low bit.
pub open spec fn not_cy(cy: u8) -> u8 {
    flag_not(cy)
}

/// Result byte of `a - b - carry`, defined the way the hardware computes it:
/// as `a + !b + !carry`.
pub open spec fn sub_res(a: u8, b: u8, cy: u8) -> u8 {
    add_res(a, !b, not_cy(cy))
}

/// Borrow out of bit 7 of `a - b - carry`: the complemented adder carry.
pub open spec fn sub_cf(a: u8, b: u8, cy: u8) -> u8 {
    flag_not(add_cf(a, !b, not_cy(cy)))
}

/// Half-borrow of `a - b - carry`: the complemented adder half-carry.
pub open spec fn sub_hf(a: u8, b: u8, cy: u8) -> u8 {
    flag_not(add_hf(a, !b, not_cy(cy)))
}

/// Signed overflow of `a - b - carry`, via the adder on the complement.
pub open spec fn sub_pf(a: u8, b: u8, cy: u8) -> u8 {
    add_pf(a, !b, not_cy(cy))
}

/// Subtraction through the one's-complement adder equals direct borrow
/// arithmetic: the result is `a - b - cy` modulo 256 and the borrow flags
/// compare `a` against `b + cy`.
pub proof fn lemma_sub_borrow(a: u8, b: u8, cy: u8)
    requires
        cy <= 1,
    ensures
        sub_res(a, b, cy) == (a - b - cy) % 256,
        sub_cf(a, b, cy) == if a < b + cy {
            1u8
        } else {
            0u8
        },
        sub_hf(a, b, cy) == if (a % 16) < (b % 16) + cy {
            1u8
        } else {
            0u8
        },
{
    lemma_not_u8(b);
    assert((!b) % 16 == 15 - (b % 16)) by (bit_vector);
    assert(sub_res(a, b, cy) == ((a + (255 - b) + (1 - cy)) % 256) as u8);
    assert((a + (255 - b) + (1 - cy)) % 256 == (a - b - cy) % 256) by {
        assert((a + (255 - b) + (1 - cy)) == (a - b - cy) + 256);
        vstd::arithmetic::div_mod::lemma_mod_sub_multiples_vanish((a - b - cy) as int, 256);
    };
}

/// Number of set bits among the lowest `k` bits of `v`.
pub open spec fn popcount_upto(v: u8, k: int) -> int
    decreases k,
{
    if k <= 0 {
        0
    } else {
        popcount_upto(v, k - 1) + spec_bit((k - 1) as u8, v)
    }
}

/// Number of set bits of a byte.
pub open spec fn popcount(v: u8) -> int {
    popcount_upto(v, 8)
}

/// A byte has even parity when its population count is even.
pub open spec fn parity_of(v: u8) -> bool {
    popcount(v) % 2 == 0
}

/// Even parity rendered as a flag bit.
pub open spec fn parity_flag(v: u8) -> u8 {
    if parity_of(v) {
        1
    } else {
        0
    }
}

/// Parity of a byte: true exactly when the number of set bits is even.
pub fn parity(val: u8) -> (r: bool)
    ensures
        r == parity_of(val),
{
    let mut nb_one_bits: u8 = 0;
    let mut i: u8 = 0;
    while i < 8
        invariant
            i <= 8,
            nb_one_bits == popcount_upto(val, i as int),
            nb_one_bits <= i,
        decreases 8 - i,
    {
        proof {
            lemma_and1_le_1(val >> i);
        }
        nb_one_bits = nb_one_bits + ((val >> i) & 1);
        i = i + 1;
    }
    proof {
        assert(forall|n: u8| n <= 8 ==> (n & 1) == n as int % 2) by (bit_vector);
    }
    (nb_one_bits & 1) == 0
}

/// Carry between bit `bit_no - 1` and bit `bit_no` when computing
/// `a + b + cy`, via the XOR of the operands with the full sum. The exact
/// arithmetic meaning is stated for the three bit positions the flag logic
/// uses.
pub fn carry(bit_no: i32, a: u16, b: u16, cy: u16) -> (r: u8)
    requires
        0 <= bit_no <= 30,
        a + b + (cy & 1) <= 0xFFFF,
    ensures
        r <= 1,
        (r == 1) <==> ((((a + b + (cy & 1)) as u16) as i32 ^ a as i32 ^ b as i32) & (1i32 << (
        bit_no as u32))) != 0,
        bit_no == 4 ==> ((r == 1) <==> (a % 16) + (b % 16) + (cy % 2) > 0xF),
        bit_no == 7 ==> ((r == 1) <==> (a % 128) + (b % 128) + (cy % 2) > 0x7F),
        bit_no == 8 ==> ((r == 1) <==> (a % 256) + (b % 256) + (cy % 2) > 0xFF),
{
    let cy_ = cy & 0x01;

    let result: i32 = (a + b + cy_) as i32;
    let carry: i32 = result ^ a as i32 ^ b as i32;
    let masked = carry & (1i32 << (bit_no as u32));
    proof {
        let sh = bit_no as u32;
        assert(((((a + b + (cy & 1)) as u16) as i32 ^ a as i32 ^ b as i32) & (1i32 << sh)) >= 0)
            by (bit_vector)
            requires
                sh <= 30,
        ;
        assert(((((a + b + (cy & 1)) as u16) as i32 ^ a as i32 ^ b as i32) & (1i32 << 4)) > 0 <==> (
        a % 16) + (b % 16) + (cy % 2) > 0xF) by (bit_vector)
            requires
                a + b + (cy & 1) <= 0xFFFF,
        ;
        assert(((((a + b + (cy & 1)) as u16) as i32 ^ a as i32 ^ b as i32) & (1i32 << 7)) > 0 <==> (
        a % 128) + (b % 128) + (cy % 2) > 0x7F) by (bit_vector)
            requires
                a + b + (cy & 1) <= 0xFFFF,
        ;
        assert(((((a + b + (cy & 1)) as u16) as i32 ^ a as i32 ^ b as i32) & (1i32 << 8)) > 0 <==> (
        a % 256) + (b % 256) + (cy % 2) > 0xFF) by (bit_vector)
            requires
                a + b + (cy & 1) <= 0xFFFF,
        ;
    }
    if masked > 0 {
        return 1;
    } else {
        return 0;
    }
}

/// Masking to the low bit is idempotent.
pub broadcast proof fn lemma_and1_idem(v: u8)
    ensures
        #[trigger] ((v & 1) & 1) == v & 1,
{
    assert(((v & 1) & 1) == v & 1) by (bit_vector);
}

/// Complementing after a low-bit mask flips the same bit as complementing
/// before it.
pub broadcast proof fn lemma_not_and1(v: u8)
    ensures
        #[trigger] ((!(v & 1)) & 1) == (!v) & 1,
{
    assert(((!(v & 1)) & 1) == (!v) & 1) by (bit_vector);
}

/// Masking a byte to three bits keeps it below 8.
pub broadcast proof fn lemma_and7_lt8(v: u8)
    ensures
        #[trigger] (v & 7) < 8,
{
    assert(v & 7 < 8) by (bit_vector);
}

/// Widening a byte commutes with the masks the flag logic applies.
pub proof fn lemma_mask_widen(a: u8)
    ensures
        ((a as u16) & 0xF) == (a & 0xF),
        ((a as u16) & 0x7F) == (a & 0x7F),
        ((a as u16) & 0xFF) == a,
        ((a as u16) & 1) == (a & 1),
{
    assert(((a as u16) & 0xF) == (a & 0xF) as u16 && ((a as u16) & 0x7F) == (a & 0x7F) as u16 && ((
    a as u16) & 0xFF) == a as u16 && ((a as u16) & 1) == (a & 1) as u16) by (bit_vector);
}

/// Joining two bytes with shift-and-or forms the arithmetic word.
pub proof fn lemma_word_bits(hi: u8, lo: u8)
    ensures
        (((hi as u16) << 8) | lo as u16) == hi * 256 + lo,
{
    assert((((hi as u16) << 8) | lo as u16) == hi * 256 + lo) by (bit_vector);
}

/// Shifting and masking a word extracts its arithmetic halves.
pub proof fn lemma_word_split(v: u16)
    ensures
        (v >> 8) == v as int / 256,
        (v & 0xFF) == v as int % 256,
        v >> 8 <= 0xFF,
        v & 0xFF <= 0xFF,
{
    assert((v >> 8) == v as int / 256 && (v & 0xFF) == v as int % 256 && v >> 8 <= 0xFF && (v
        & 0xFF) <= 0xFF) by (bit_vector);
}

/// Correction value the decimal-adjust step adds or subtracts.
pub open spec fn daa_correction(a: u8, hf: u8, cf: u8) -> u8 {
    ((if (a % 16) > 9 || hf != 0 {
        0x06int
    } else {
        0int
    }) + (if a > 0x99 || cf != 0 {
        0x60int
    } else {
        0int
    })) as u8
}

/// Carry flag after decimal adjust.
pub open spec fn daa_cf(a: u8, cf: u8) -> u8 {
    if a > 0x99 || cf != 0 {
        1
    } else {
        cf
    }
}

/// Accumulator after decimal adjust: corrected by addition or subtraction
/// according to the subtract flag of the previous operation.
pub open spec fn daa_a(a: u8, hf: u8, cf: u8, nf: u8) -> u8 {
    if nf != 0 {
        ((a - daa_correction(a, hf, cf)) % 256) as u8
    } else {
        ((a + daa_correction(a, hf, cf)) % 256) as u8
    }
}

/// Half-carry flag after decimal adjust.
pub open spec fn daa_hf(a: u8, hf: u8, nf: u8) -> u8 {
    if nf != 0 {
        if hf != 0 && (a % 16) < 0x06 {
            1
        } else {
            0
        }
    } else {
        if (a % 16) > 0x09 {
            1
        } else {
            0
        }
    }
}

} // verus!
