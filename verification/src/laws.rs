//! Laws relating several operations of the core: the stack round trip and
//! the decimal-adjust round trip.

use vstd::prelude::*;

use crate::flags::add_cf;
use crate::flags::add_hf;
use crate::flags::add_pf;
use crate::flags::add_res;
use crate::flags::daa_a;
use crate::flags::daa_cf;
use crate::flags::flag_not;
use crate::flags::not_cy;
use crate::flags::sub_cf;
use crate::flags::sub_hf;
use crate::flags::sub_pf;
use crate::flags::sub_res;
use crate::z80::word_at;
use crate::z80::wrap16;
use crate::z80::written_word;

verus! {

/// Subtraction is addition of the one's complement: the byte difference and
/// each of its flags equal those of `a + !b + !cy` through the binary adder,
/// with the carry and half-carry complemented afterwards (`subb` forces the
/// subtract flag on top of these).
pub proof fn lemma_sub_is_complement_add(a: u8, b: u8, cy: u8)
    ensures
        sub_res(a, b, cy) == add_res(a, !b, not_cy(cy)),
        sub_cf(a, b, cy) == flag_not(add_cf(a, !b, not_cy(cy))),
        sub_hf(a, b, cy) == flag_not(add_hf(a, !b, not_cy(cy))),
        sub_pf(a, b, cy) == add_pf(a, !b, not_cy(cy)),
{
}

/// A decimal value below 100 packed into two BCD nibbles.
pub open spec fn bcd_encode(n: u8) -> u8 {
    ((n / 10) * 16 + n % 10) as u8
}

/// Pushing a word and popping it again returns the word and restores the
/// stack pointer.
///
/// A push moves the stack pointer down to `wrap16(sp - 2)` and stores the
/// word there (`pushw`); a pop reads the word back from that address and
/// moves the pointer up by two (`popw`). Over any memory and any even
/// initial stack pointer, the value read equals the value pushed and the
/// pointer is back where it started.
pub proof fn lemma_push_pop_round_trip(mem: Seq<u8>, sp: u16, v: u16)
    requires
        mem.len() == 0x10000,
        sp % 2 == 0,
    ensures
        word_at(written_word(mem, wrap16(sp - 2), v), wrap16(sp - 2)) == v,
        wrap16(wrap16(sp - 2) + 2) == sp,
{
    let a = wrap16(sp - 2);
    crate::z80::lemma_wrap16_range(sp - 2);
    crate::z80::lemma_wrap16_range(a + 1);
    crate::z80::lemma_wrap16_add(sp - 2, 2);
    crate::z80::lemma_wrap16_range(sp as int);
    assert(a != wrap16(a + 1));
    crate::z80::lemma_word_recompose(v);
}

/// BCD round trip: adding two packed-BCD bytes on the binary adder and then
/// decimal-adjusting the sum yields the packed-BCD encoding of the decimal
/// sum modulo 100, with the carry flag set exactly when the decimal sum
/// reached 100.
///
/// The hypotheses are the state the binary addition leaves behind: the
/// accumulator holds `add_res`, the half-carry and carry flags hold `add_hf`
/// and `add_cf`, and the subtract flag is clear.
#[verifier::rlimit(100)]
#[verifier::spinoff_prover]
pub proof fn lemma_bcd_round_trip(x: u8, y: u8)
    by (bit_vector)
    requires
        x < 100,
        y < 100,
    ensures
        daa_a(
            add_res(bcd_encode(x), bcd_encode(y), 0),
            add_hf(bcd_encode(x), bcd_encode(y), 0),
            add_cf(bcd_encode(x), bcd_encode(y), 0),
            0,
        ) == bcd_encode(((x + y) % 100) as u8),
        daa_cf(add_res(bcd_encode(x), bcd_encode(y), 0), add_cf(bcd_encode(x), bcd_encode(y), 0))
            == if x + y >= 100 {
            1u8
        } else {
            0u8
        },
{
}

} // verus!
