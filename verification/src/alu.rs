//! The arithmetic/logic helpers every instruction reduces to, each with a
//! contract that pins down the result and all eight flag bits exactly.

use vstd::prelude::*;

use crate::bus::Bus;
use crate::flags::GET_BIT;
use crate::flags::add_cf;
use crate::flags::add_hf;
use crate::flags::add_pf;
use crate::flags::add_res;
use crate::flags::carry;
use crate::flags::daa_a;
use crate::flags::daa_cf;
use crate::flags::daa_hf;
use crate::flags::lemma_and1_idem;
use crate::flags::lemma_and1_le_1;
use crate::flags::lemma_and7_lt8;
use crate::flags::lemma_mask_widen;
use crate::flags::lemma_not_and1;
use crate::flags::lemma_shr7_le_1;
use crate::flags::lemma_spec_bit_le_1;
use crate::flags::lemma_trunc_u16_u8;
use crate::flags::lemma_word_bits;
use crate::flags::lemma_word_split;
use crate::flags::parity;
use crate::flags::parity_flag;
use crate::flags::sign_of;
use crate::flags::spec_bit;
use crate::flags::sub_cf;
use crate::flags::sub_hf;
use crate::flags::sub_pf;
use crate::flags::sub_res;
use crate::flags::zero_of;
use crate::z80::hi_byte;
use crate::z80::lo_byte;
use crate::z80::rb;
use crate::z80::wb;
use crate::z80::word_from;
use crate::z80::wrap16;
use crate::z80::wrap8;
use crate::z80::z80;
use crate::z80::get_bc;
use crate::z80::get_de;
use crate::z80::get_hl;
use crate::z80::set_bc;
use crate::z80::set_de;
use crate::z80::set_hl;

verus! {

broadcast use lemma_spec_bit_le_1, lemma_shr7_le_1, lemma_and1_le_1, lemma_and1_idem,
    lemma_not_and1, crate::z80::lemma_word_recompose, crate::flags::lemma_shr7_div,
    crate::flags::lemma_and_nibble, crate::flags::lemma_and1_mod, crate::flags::lemma_flag_not;

/// Sign flag of a 16-bit result: its top bit.
pub open spec fn sign16_of(r: u16) -> u8 {
    (r >> 15) as u8
}

/// Zero flag of a 16-bit result.
pub open spec fn zero16_of(r: u16) -> u8 {
    if r == 0 {
        1
    } else {
        0
    }
}

pub broadcast proof fn lemma_shr15_le_1(v: u16)
    ensures
        #[trigger] (v >> 15u16) <= 1,
{
    assert(v >> 15u16 <= 1) by (bit_vector);
}

/// Carry the low-byte addition of a word sum hands to the high byte.
pub open spec fn addw_carry(a: u16, b: u16, cy: u8) -> u8 {
    add_cf(lo_byte(a), lo_byte(b), cy)
}

/// High byte of a word addition.
pub open spec fn addw_hi(a: u16, b: u16, cy: u8) -> u8 {
    add_res(hi_byte(a), hi_byte(b), addw_carry(a, b, cy))
}

/// Result of a word addition, composed from two byte additions.
pub open spec fn addw_res(a: u16, b: u16, cy: u8) -> u16 {
    word_from(addw_hi(a, b, cy), add_res(lo_byte(a), lo_byte(b), cy))
}

/// Borrow the low-byte subtraction of a word difference hands to the high
/// byte.
pub open spec fn subw_borrow(a: u16, b: u16, cy: u8) -> u8 {
    sub_cf(lo_byte(a), lo_byte(b), cy)
}

/// High byte of a word subtraction.
pub open spec fn subw_hi(a: u16, b: u16, cy: u8) -> u8 {
    sub_res(hi_byte(a), hi_byte(b), subw_borrow(a, b, cy))
}

/// Result of a word subtraction, composed from two byte subtractions.
pub open spec fn subw_res(a: u16, b: u16, cy: u8) -> u16 {
    word_from(subw_hi(a, b, cy), sub_res(lo_byte(a), lo_byte(b), cy))
}

/// Add two bytes and an optional carry; all flags are derived from the sum.
#[verifier::rlimit(100)]
#[verifier::spinoff_prover]
pub fn addb(z: &mut z80, a: u8, b: u8, cy: u8) -> (r: u8)
    ensures
        r == add_res(a, b, cy),
        *final(z) == (z80 {
            sf: sign_of(add_res(a, b, cy)),
            zf: zero_of(add_res(a, b, cy)),
            hf: add_hf(a, b, cy),
            pf: add_pf(a, b, cy),
            cf: add_cf(a, b, cy),
            nf: 0,
            xf: spec_bit(3, add_res(a, b, cy)),
            yf: spec_bit(5, add_res(a, b, cy)),
            ..*old(z)
        }),
        final(z).flags_wf(),
{
    let cy_ = cy & 0x01;

    let result: u8 = (a as u16 + b as u16 + cy_ as u16) as u8;
    proof {
        lemma_trunc_u16_u8((a as u16 + b as u16 + cy_ as u16) as u16);
        lemma_mask_widen(a);
        lemma_mask_widen(b);
        lemma_mask_widen(cy_);
    }

    z.sf = result >> 7;
    if result == 0 {
        z.zf = 1;
    } else {
        z.zf = 0;
    }
    z.hf = carry(4, a as u16, b as u16, cy_ as u16);
    if z.hf > 0 {
        z.hf = 1;
    } else {
        z.hf = 0;
    }
    if carry(7, a as u16, b as u16, cy_ as u16) != carry(8, a as u16, b as u16, cy_ as u16) {
        z.pf = 1;
    } else {
        z.pf = 0;
    }
    z.cf = carry(8, a as u16, b as u16, cy_ as u16);
    if z.cf > 0 {
        z.cf = 1;
    } else {
        z.cf = 0;
    }
    z.nf = 0;
    z.xf = GET_BIT(3, result);
    if z.xf > 0 {
        z.xf = 1;
    } else {
        z.xf = 0;
    }
    z.yf = GET_BIT(5, result);
    if z.yf > 0 {
        z.yf = 1;
    } else {
        z.yf = 0;
    }

    result
}

/// Subtract two bytes and an optional carry, through the one's-complement
/// adder, with carry and half-carry complemented and the subtract flag set.
pub fn subb(z: &mut z80, a: u8, b: u8, cy: u8) -> (r: u8)
    ensures
        r == sub_res(a, b, cy),
        *final(z) == (z80 {
            sf: sign_of(sub_res(a, b, cy)),
            zf: zero_of(sub_res(a, b, cy)),
            hf: sub_hf(a, b, cy),
            pf: sub_pf(a, b, cy),
            cf: sub_cf(a, b, cy),
            nf: 1,
            xf: spec_bit(3, sub_res(a, b, cy)),
            yf: spec_bit(5, sub_res(a, b, cy)),
            ..*old(z)
        }),
        final(z).flags_wf(),
{
    let cy__ = !cy & 0x01;

    let val: u8 = addb(z, a, !b, cy__);
    z.cf = !z.cf & 0x1;
    z.hf = !z.hf & 0x1;
    z.nf = 1;
    val
}

/// Add two words and an optional carry: low bytes first, then high bytes
/// with the low carry; the zero flag looks at the whole word and the address
/// register records `a + 1`.
pub fn addw(z: &mut z80, a: u16, b: u16, cy: u8) -> (r: u16)
    ensures
        r == addw_res(a, b, cy),
        *final(z) == (z80 {
            sf: sign_of(addw_hi(a, b, cy)),
            zf: zero16_of(addw_res(a, b, cy)),
            hf: add_hf(hi_byte(a), hi_byte(b), addw_carry(a, b, cy)),
            pf: add_pf(hi_byte(a), hi_byte(b), addw_carry(a, b, cy)),
            cf: add_cf(hi_byte(a), hi_byte(b), addw_carry(a, b, cy)),
            nf: 0,
            xf: spec_bit(3, addw_hi(a, b, cy)),
            yf: spec_bit(5, addw_hi(a, b, cy)),
            mem_ptr: wrap16(a + 1),
            ..*old(z)
        }),
        final(z).flags_wf(),
{
    let cy_ = cy & 0x01;
    proof {
        lemma_trunc_u16_u8(a);
        lemma_trunc_u16_u8(b);
        lemma_word_split(a);
        lemma_word_split(b);
    }

    let lsb: u8 = addb(z, a as u8, b as u8, cy_);
    let cflag = z.cf;
    let msb: u8 = addb(z, (a >> 8) as u8, (b >> 8) as u8, cflag);

    let result: u16 = ((msb as u16) << 8) | lsb as u16;
    proof {
        lemma_word_bits(msb, lsb);
    }
    if result == 0 {
        z.zf = 1;
    } else {
        z.zf = 0;
    }

    z.mem_ptr = a.wrapping_add(1);
    result
}

/// Subtract two words and an optional carry, composed from two byte
/// subtractions like the addition.
#[verifier::rlimit(60)]
#[verifier::spinoff_prover]
pub fn subw(z: &mut z80, a: u16, b: u16, cy: u8) -> (r: u16)
    ensures
        r == subw_res(a, b, cy),
        *final(z) == (z80 {
            sf: sign_of(subw_hi(a, b, cy)),
            zf: zero16_of(subw_res(a, b, cy)),
            hf: sub_hf(hi_byte(a), hi_byte(b), subw_borrow(a, b, cy)),
            pf: sub_pf(hi_byte(a), hi_byte(b), subw_borrow(a, b, cy)),
            cf: sub_cf(hi_byte(a), hi_byte(b), subw_borrow(a, b, cy)),
            nf: 1,
            xf: spec_bit(3, subw_hi(a, b, cy)),
            yf: spec_bit(5, subw_hi(a, b, cy)),
            mem_ptr: wrap16(a + 1),
            ..*old(z)
        }),
        final(z).flags_wf(),
{
    let cy_ = cy & 0x01;
    proof {
        lemma_trunc_u16_u8(a);
        lemma_trunc_u16_u8(b);
        lemma_word_split(a);
        lemma_word_split(b);
    }

    let lsb: u8 = subb(z, a as u8, b as u8, cy_);
    let cflag = z.cf;
    let msb: u8 = subb(z, (a >> 8) as u8, (b >> 8) as u8, cflag);

    let result: u16 = ((msb as u16) << 8) | lsb as u16;
    proof {
        lemma_word_bits(msb, lsb);
    }
    if result == 0 {
        z.zf = 1;
    } else {
        z.zf = 0;
    }

    z.mem_ptr = a.wrapping_add(1);
    result
}

/// Add a word to HL; sign, zero and parity keep their previous values.
pub fn addhl(z: &mut z80, val: u16)
    ensures
        *final(z) == (z80 {
            h: hi_byte(addw_res(old(z).spec_hl(), val, 0)),
            l: lo_byte(addw_res(old(z).spec_hl(), val, 0)),
            hf: add_hf(hi_byte(old(z).spec_hl()), hi_byte(val), addw_carry(old(z).spec_hl(), val, 0)),
            cf: add_cf(hi_byte(old(z).spec_hl()), hi_byte(val), addw_carry(old(z).spec_hl(), val, 0)),
            nf: 0,
            xf: spec_bit(3, addw_hi(old(z).spec_hl(), val, 0)),
            yf: spec_bit(5, addw_hi(old(z).spec_hl(), val, 0)),
            mem_ptr: wrap16(old(z).spec_hl() + 1),
            ..*old(z)
        }),
        old(z).flags_wf() ==> final(z).flags_wf(),
{
    let sf: u8 = z.sf;
    let zf: u8 = z.zf;
    let pf: u8 = z.pf;
    let result: u16 = get_hl(z);
    let result: u16 = addw(z, result, val, 0);
    set_hl(z, result);
    z.sf = sf;
    z.zf = zf;
    z.pf = pf;
}

/// Add a word to an index register; sign, zero and parity keep their
/// previous values.
pub fn addiz(z: &mut z80, reg: &mut u16, val: u16)
    ensures
        *final(reg) == addw_res(*old(reg), val, 0),
        *final(z) == (z80 {
            hf: add_hf(hi_byte(*old(reg)), hi_byte(val), addw_carry(*old(reg), val, 0)),
            cf: add_cf(hi_byte(*old(reg)), hi_byte(val), addw_carry(*old(reg), val, 0)),
            nf: 0,
            xf: spec_bit(3, addw_hi(*old(reg), val, 0)),
            yf: spec_bit(5, addw_hi(*old(reg), val, 0)),
            mem_ptr: wrap16(*old(reg) + 1),
            ..*old(z)
        }),
        old(z).flags_wf() ==> final(z).flags_wf(),
{
    let sf: u8 = z.sf;
    let zf: u8 = z.zf;
    let pf: u8 = z.pf;
    let result: u16 = addw(z, *reg, val, 0);
    *reg = result;
    z.sf = sf;
    z.zf = zf;
    z.pf = pf;
}

/// Add a word and the carry flag to HL; sign and zero are recomputed from
/// the 16-bit result.
pub fn adchl(z: &mut z80, val: u16)
    ensures
        *final(z) == (z80 {
            h: hi_byte(addw_res(old(z).spec_hl(), val, old(z).cf)),
            l: lo_byte(addw_res(old(z).spec_hl(), val, old(z).cf)),
            sf: sign16_of(addw_res(old(z).spec_hl(), val, old(z).cf)),
            zf: zero16_of(addw_res(old(z).spec_hl(), val, old(z).cf)),
            hf: add_hf(
                hi_byte(old(z).spec_hl()),
                hi_byte(val),
                addw_carry(old(z).spec_hl(), val, old(z).cf),
            ),
            pf: add_pf(
                hi_byte(old(z).spec_hl()),
                hi_byte(val),
                addw_carry(old(z).spec_hl(), val, old(z).cf),
            ),
            cf: add_cf(
                hi_byte(old(z).spec_hl()),
                hi_byte(val),
                addw_carry(old(z).spec_hl(), val, old(z).cf),
            ),
            nf: 0,
            xf: spec_bit(3, addw_hi(old(z).spec_hl(), val, old(z).cf)),
            yf: spec_bit(5, addw_hi(old(z).spec_hl(), val, old(z).cf)),
            mem_ptr: wrap16(old(z).spec_hl() + 1),
            ..*old(z)
        }),
        final(z).flags_wf(),
{
    broadcast use lemma_shr15_le_1;

    let result: u16 = get_hl(z);
    let cflag = z.cf;
    let result: u16 = addw(z, result, val, cflag);
    z.sf = (result >> 15) as u8;
    z.zf = if result == 0 {
        1
    } else {
        0
    };
    set_hl(z, result);
}

/// Subtract a word and the carry flag from HL; sign and zero are recomputed
/// from the 16-bit result.
pub fn sbchl(z: &mut z80, val: u16)
    ensures
        *final(z) == (z80 {
            h: hi_byte(subw_res(old(z).spec_hl(), val, old(z).cf)),
            l: lo_byte(subw_res(old(z).spec_hl(), val, old(z).cf)),
            sf: sign16_of(subw_res(old(z).spec_hl(), val, old(z).cf)),
            zf: zero16_of(subw_res(old(z).spec_hl(), val, old(z).cf)),
            hf: sub_hf(
                hi_byte(old(z).spec_hl()),
                hi_byte(val),
                subw_borrow(old(z).spec_hl(), val, old(z).cf),
            ),
            pf: sub_pf(
                hi_byte(old(z).spec_hl()),
                hi_byte(val),
                subw_borrow(old(z).spec_hl(), val, old(z).cf),
            ),
            cf: sub_cf(
                hi_byte(old(z).spec_hl()),
                hi_byte(val),
                subw_borrow(old(z).spec_hl(), val, old(z).cf),
            ),
            nf: 1,
            xf: spec_bit(3, subw_hi(old(z).spec_hl(), val, old(z).cf)),
            yf: spec_bit(5, subw_hi(old(z).spec_hl(), val, old(z).cf)),
            mem_ptr: wrap16(old(z).spec_hl() + 1),
            ..*old(z)
        }),
        final(z).flags_wf(),
{
    broadcast use lemma_shr15_le_1;

    let result: u16 = get_hl(z);
    let cflag = z.cf;
    let result: u16 = subw(z, result, val, cflag);
    z.sf = (result >> 15) as u8;
    z.zf = if result == 0 {
        1
    } else {
        0
    };
    set_hl(z, result);
}

/// Increment a byte; the carry flag keeps its previous value.
pub fn inc(z: &mut z80, a: u8) -> (r: u8)
    ensures
        r == add_res(a, 1, 0),
        *final(z) == (z80 {
            sf: sign_of(add_res(a, 1, 0)),
            zf: zero_of(add_res(a, 1, 0)),
            hf: add_hf(a, 1, 0),
            pf: add_pf(a, 1, 0),
            nf: 0,
            xf: spec_bit(3, add_res(a, 1, 0)),
            yf: spec_bit(5, add_res(a, 1, 0)),
            ..*old(z)
        }),
        old(z).flags_wf() ==> final(z).flags_wf(),
{
    let cf: u8 = z.cf;
    let result: u8 = addb(z, a, 1, 0);
    z.cf = cf;
    result
}

/// Decrement a byte; the carry flag keeps its previous value.
pub fn dec(z: &mut z80, a: u8) -> (r: u8)
    ensures
        r == sub_res(a, 1, 0),
        *final(z) == (z80 {
            sf: sign_of(sub_res(a, 1, 0)),
            zf: zero_of(sub_res(a, 1, 0)),
            hf: sub_hf(a, 1, 0),
            pf: sub_pf(a, 1, 0),
            nf: 1,
            xf: spec_bit(3, sub_res(a, 1, 0)),
            yf: spec_bit(5, sub_res(a, 1, 0)),
            ..*old(z)
        }),
        old(z).flags_wf() ==> final(z).flags_wf(),
{
    let cf: u8 = z.cf;
    let result: u8 = subb(z, a, 1, 0);
    z.cf = cf;
    result
}

/// Logic AND into the accumulator; the half-carry flag is forced on.
pub fn land(z: &mut z80, val: u8)
    ensures
        *final(z) == (z80 {
            a: old(z).a & val,
            sf: sign_of(old(z).a & val),
            zf: zero_of(old(z).a & val),
            hf: 1,
            pf: parity_flag(old(z).a & val),
            nf: 0,
            cf: 0,
            xf: spec_bit(3, old(z).a & val),
            yf: spec_bit(5, old(z).a & val),
            ..*old(z)
        }),
        final(z).flags_wf(),
{
    let result: u8 = z.a & val;
    z.sf = result >> 7;
    if result == 0 {
        z.zf = 1;
    } else {
        z.zf = 0;
    }

    z.hf = 1;
    if parity(result) {
        z.pf = 1;
    } else {
        z.pf = 0;
    }

    z.nf = 0;
    z.cf = 0;
    z.xf = GET_BIT(3, result);
    z.yf = GET_BIT(5, result);
    z.a = result;
}

/// Logic XOR into the accumulator.
pub fn lxor(z: &mut z80, val: u8)
    ensures
        *final(z) == (z80 {
            a: old(z).a ^ val,
            sf: sign_of(old(z).a ^ val),
            zf: zero_of(old(z).a ^ val),
            hf: 0,
            pf: parity_flag(old(z).a ^ val),
            nf: 0,
            cf: 0,
            xf: spec_bit(3, old(z).a ^ val),
            yf: spec_bit(5, old(z).a ^ val),
            ..*old(z)
        }),
        final(z).flags_wf(),
{
    let result: u8 = z.a ^ val;
    z.sf = result >> 7;
    if result == 0 {
        z.zf = 1;
    } else {
        z.zf = 0;
    }

    z.hf = 0;
    if parity(result) {
        z.pf = 1;
    } else {
        z.pf = 0;
    }
    z.nf = 0;
    z.cf = 0;
    z.xf = GET_BIT(3, result);
    z.yf = GET_BIT(5, result);
    z.a = result;
}

/// Logic OR into the accumulator.
pub fn lor(z: &mut z80, val: u8)
    ensures
        *final(z) == (z80 {
            a: old(z).a | val,
            sf: sign_of(old(z).a | val),
            zf: zero_of(old(z).a | val),
            hf: 0,
            pf: parity_flag(old(z).a | val),
            nf: 0,
            cf: 0,
            xf: spec_bit(3, old(z).a | val),
            yf: spec_bit(5, old(z).a | val),
            ..*old(z)
        }),
        final(z).flags_wf(),
{
    let result: u8 = z.a | val;
    z.sf = result >> 7;
    if result == 0 {
        z.zf = 1;
    } else {
        z.zf = 0;
    }
    z.hf = 0;
    if parity(result) {
        z.pf = 1;
    } else {
        z.pf = 0;
    }
    z.nf = 0;
    z.cf = 0;
    z.xf = GET_BIT(3, result);
    z.yf = GET_BIT(5, result);
    z.a = result;
}

/// Compare a value with the accumulator: the flags of a subtraction, except
/// that the two undocumented flags are copied from the operand, not the
/// result.
pub fn cp(z: &mut z80, val: u8)
    ensures
        *final(z) == (z80 {
            sf: sign_of(sub_res(old(z).a, val, 0)),
            zf: zero_of(sub_res(old(z).a, val, 0)),
            hf: sub_hf(old(z).a, val, 0),
            pf: sub_pf(old(z).a, val, 0),
            cf: sub_cf(old(z).a, val, 0),
            nf: 1,
            xf: spec_bit(3, val),
            yf: spec_bit(5, val),
            ..*old(z)
        }),
        final(z).flags_wf(),
{
    let a = z.a;
    subb(z, a, val, 0);

    // the only difference between a compare and a subtraction is that the
    // undocumented flags are taken from the operand, not the result
    z.yf = GET_BIT(5, val);
    z.xf = GET_BIT(3, val);
}

/// Result of rotating left with the top bit wrapping into bit 0.
pub open spec fn rlc_res(v: u8) -> u8 {
    (v << 1) | (v >> 7)
}

/// Result of rotating right with the low bit wrapping into bit 7.
pub open spec fn rrc_res(v: u8) -> u8 {
    (v >> 1) | ((v & 1) << 7)
}

/// Result of rotating left through the carry flag.
pub open spec fn rl_res(v: u8, cf: u8) -> u8 {
    (v << 1) | cf
}

/// Result of rotating right through the carry flag.
pub open spec fn rr_res(v: u8, cf: u8) -> u8 {
    (v >> 1) | (cf << 7)
}

/// Result of the arithmetic left shift.
pub open spec fn sla_res(v: u8) -> u8 {
    v << 1
}

/// Result of the left shift that sets bit 0.
pub open spec fn sll_res(v: u8) -> u8 {
    (v << 1) | 1
}

/// Result of the arithmetic right shift (the sign bit is kept).
pub open spec fn sra_res(v: u8) -> u8 {
    (v >> 1) | (v & 0x80)
}

/// Result of the logical right shift.
pub open spec fn srl_res(v: u8) -> u8 {
    v >> 1
}

/// Rotate left; bit 7 moves into both bit 0 and the carry.
pub fn cb_rlc(z: &mut z80, val: u8) -> (r: u8)
    ensures
        r == rlc_res(val),
        *final(z) == (z80 {
            sf: sign_of(rlc_res(val)),
            zf: zero_of(rlc_res(val)),
            pf: parity_flag(rlc_res(val)),
            nf: 0,
            hf: 0,
            cf: val >> 7,
            xf: spec_bit(3, rlc_res(val)),
            yf: spec_bit(5, rlc_res(val)),
            ..*old(z)
        }),
        final(z).flags_wf(),
{
    let old_: u8 = val >> 7;
    let val = (val << 1) | old_;
    z.sf = val >> 7;
    if val == 0 {
        z.zf = 1;
    } else {
        z.zf = 0;
    }
    if parity(val) {
        z.pf = 1;
    } else {
        z.pf = 0;
    }
    z.nf = 0;
    z.hf = 0;
    z.cf = old_;
    z.xf = GET_BIT(3, val);
    z.yf = GET_BIT(5, val);
    val
}

/// Rotate right; bit 0 moves into both bit 7 and the carry.
pub fn cb_rrc(z: &mut z80, val: u8) -> (r: u8)
    ensures
        r == rrc_res(val),
        *final(z) == (z80 {
            sf: sign_of(rrc_res(val)),
            zf: zero_of(rrc_res(val)),
            pf: parity_flag(rrc_res(val)),
            nf: 0,
            hf: 0,
            cf: val & 1,
            xf: spec_bit(3, rrc_res(val)),
            yf: spec_bit(5, rrc_res(val)),
            ..*old(z)
        }),
        final(z).flags_wf(),
{
    let old_: u8 = val & 1;
    let val = (val >> 1) | (old_ << 7);
    z.sf = val >> 7;
    if val == 0 {
        z.zf = 1;
    } else {
        z.zf = 0;
    }
    z.nf = 0;
    z.hf = 0;
    z.cf = old_;
    if parity(val) {
        z.pf = 1;
    } else {
        z.pf = 0;
    }
    z.xf = GET_BIT(3, val);
    z.yf = GET_BIT(5, val);
    val
}

/// Rotate left through the carry flag.
pub fn cb_rl(z: &mut z80, val: u8) -> (r: u8)
    ensures
        r == rl_res(val, old(z).cf),
        *final(z) == (z80 {
            sf: sign_of(rl_res(val, old(z).cf)),
            zf: zero_of(rl_res(val, old(z).cf)),
            pf: parity_flag(rl_res(val, old(z).cf)),
            nf: 0,
            hf: 0,
            cf: val >> 7,
            xf: spec_bit(3, rl_res(val, old(z).cf)),
            yf: spec_bit(5, rl_res(val, old(z).cf)),
            ..*old(z)
        }),
        final(z).flags_wf(),
{
    let cf: u8 = z.cf;
    z.cf = val >> 7;
    let val = (val << 1) | cf;
    z.sf = val >> 7;
    if val == 0 {
        z.zf = 1;
    } else {
        z.zf = 0;
    }
    z.nf = 0;
    z.hf = 0;
    if parity(val) {
        z.pf = 1;
    } else {
        z.pf = 0;
    }
    z.xf = GET_BIT(3, val);
    z.yf = GET_BIT(5, val);
    val
}

/// Rotate right through the carry flag.
pub fn cb_rr(z: &mut z80, val: u8) -> (r: u8)
    ensures
        r == rr_res(val, old(z).cf),
        *final(z) == (z80 {
            sf: sign_of(rr_res(val, old(z).cf)),
            zf: zero_of(rr_res(val, old(z).cf)),
            pf: parity_flag(rr_res(val, old(z).cf)),
            nf: 0,
            hf: 0,
            cf: val & 1,
            xf: spec_bit(3, rr_res(val, old(z).cf)),
            yf: spec_bit(5, rr_res(val, old(z).cf)),
            ..*old(z)
        }),
        final(z).flags_wf(),
{
    let c: u8 = z.cf;
    z.cf = val & 1;
    let val = (val >> 1) | (c << 7);
    z.sf = val >> 7;
    if val == 0 {
        z.zf = 1;
    } else {
        z.zf = 0;
    }
    z.nf = 0;
    z.hf = 0;
    if parity(val) {
        z.pf = 1;
    } else {
        z.pf = 0;
    }
    z.xf = GET_BIT(3, val);
    z.yf = GET_BIT(5, val);
    val
}

/// Shift left arithmetically; bit 7 moves into the carry.
pub fn cb_sla(z: &mut z80, val: u8) -> (r: u8)
    ensures
        r == sla_res(val),
        *final(z) == (z80 {
            sf: sign_of(sla_res(val)),
            zf: zero_of(sla_res(val)),
            pf: parity_flag(sla_res(val)),
            nf: 0,
            hf: 0,
            cf: val >> 7,
            xf: spec_bit(3, sla_res(val)),
            yf: spec_bit(5, sla_res(val)),
            ..*old(z)
        }),
        final(z).flags_wf(),
{
    z.cf = val >> 7;
    let val = val << 1;
    z.sf = val >> 7;
    if val == 0 {
        z.zf = 1;
    } else {
        z.zf = 0;
    }
    z.nf = 0;
    z.hf = 0;
    if parity(val) {
        z.pf = 1;
    } else {
        z.pf = 0;
    }
    z.xf = GET_BIT(3, val);
    z.yf = GET_BIT(5, val);
    val
}

/// Shift left setting bit 0 (the undocumented shift).
pub fn cb_sll(z: &mut z80, val: u8) -> (r: u8)
    ensures
        r == sll_res(val),
        *final(z) == (z80 {
            sf: sign_of(sll_res(val)),
            zf: zero_of(sll_res(val)),
            pf: parity_flag(sll_res(val)),
            nf: 0,
            hf: 0,
            cf: val >> 7,
            xf: spec_bit(3, sll_res(val)),
            yf: spec_bit(5, sll_res(val)),
            ..*old(z)
        }),
        final(z).flags_wf(),
{
    z.cf = val >> 7;
    let mut val = val << 1;
    val |= 1;
    z.sf = val >> 7;
    if val == 0 {
        z.zf = 1;
    } else {
        z.zf = 0;
    }
    z.nf = 0;
    z.hf = 0;
    if parity(val) {
        z.pf = 1;
    } else {
        z.pf = 0;
    }
    z.xf = GET_BIT(3, val);
    z.yf = GET_BIT(5, val);
    val
}

/// Shift right arithmetically, preserving the sign bit.
pub fn cb_sra(z: &mut z80, val: u8) -> (r: u8)
    ensures
        r == sra_res(val),
        *final(z) == (z80 {
            sf: sign_of(sra_res(val)),
            zf: zero_of(sra_res(val)),
            pf: parity_flag(sra_res(val)),
            nf: 0,
            hf: 0,
            cf: val & 1,
            xf: spec_bit(3, sra_res(val)),
            yf: spec_bit(5, sra_res(val)),
            ..*old(z)
        }),
        final(z).flags_wf(),
{
    z.cf = val & 1;
    let val = (val >> 1) | (val & 0x80);
    z.sf = val >> 7;
    if val == 0 {
        z.zf = 1;
    } else {
        z.zf = 0;
    }
    z.nf = 0;
    z.hf = 0;
    if parity(val) {
        z.pf = 1;
    } else {
        z.pf = 0;
    }
    z.xf = GET_BIT(3, val);
    z.yf = GET_BIT(5, val);
    val
}

/// Shift right logically; bit 0 moves into the carry.
pub fn cb_srl(z: &mut z80, val: u8) -> (r: u8)
    ensures
        r == srl_res(val),
        *final(z) == (z80 {
            sf: sign_of(srl_res(val)),
            zf: zero_of(srl_res(val)),
            pf: parity_flag(srl_res(val)),
            nf: 0,
            hf: 0,
            cf: val & 1,
            xf: spec_bit(3, srl_res(val)),
            yf: spec_bit(5, srl_res(val)),
            ..*old(z)
        }),
        final(z).flags_wf(),
{
    z.cf = val & 1;
    let val = val >> 1;
    z.sf = val >> 7;
    if val == 0 {
        z.zf = 1;
    } else {
        z.zf = 0;
    }

    z.nf = 0;
    z.hf = 0;
    if parity(val) {
        z.pf = 1;
    } else {
        z.pf = 0;
    }
    z.xf = GET_BIT(3, val);
    z.yf = GET_BIT(5, val);
    val
}

/// Test bit `n` of a byte: zero, sign and parity look at the isolated bit,
/// the half-carry is forced on, and the undocumented flags come from the
/// operand.
pub fn cb_bit(z: &mut z80, val: u8, n: u8) -> (r: u8)
    requires
        n < 8,
    ensures
        r == val & (1u8 << n),
        *final(z) == (z80 {
            sf: sign_of(val & (1u8 << n)),
            zf: zero_of(val & (1u8 << n)),
            yf: spec_bit(5, val),
            hf: 1,
            xf: spec_bit(3, val),
            pf: zero_of(val & (1u8 << n)),
            nf: 0,
            ..*old(z)
        }),
        old(z).flags_wf() ==> final(z).flags_wf(),
{
    let result: u8 = val & (1 << n);
    z.sf = result >> 7;
    if result == 0 {
        z.zf = 1;
    } else {
        z.zf = 0;
    }

    z.yf = GET_BIT(5, val);
    z.hf = 1;
    z.xf = GET_BIT(3, val);
    z.pf = z.zf;
    z.nf = 0;
    result
}

/// Move one byte of a block copy from (HL) to (DE), stepping both pointers
/// up and the byte counter down; parity reports whether the counter is still
/// nonzero and the undocumented flags look at the transferred byte plus the
/// accumulator.
#[verifier::rlimit(100)]
#[verifier::spinoff_prover]
pub fn ldi<B: Bus>(z: &mut z80, bus: &mut B)
    requires
        old(bus).inv(),
    ensures
        final(bus).inv(),
        final(bus).mem() == old(bus).mem().update(
            old(z).spec_de() as int,
            old(bus).mem()[old(z).spec_hl() as int],
        ),
        *final(z) == (z80 {
            h: hi_byte(wrap16(old(z).spec_hl() + 1)),
            l: lo_byte(wrap16(old(z).spec_hl() + 1)),
            d: hi_byte(wrap16(old(z).spec_de() + 1)),
            e: lo_byte(wrap16(old(z).spec_de() + 1)),
            b: hi_byte(wrap16(old(z).spec_bc() - 1)),
            c: lo_byte(wrap16(old(z).spec_bc() - 1)),
            xf: spec_bit(3, wrap8(old(bus).mem()[old(z).spec_hl() as int] + old(z).a)),
            yf: spec_bit(1, wrap8(old(bus).mem()[old(z).spec_hl() as int] + old(z).a)),
            nf: 0,
            hf: 0,
            pf: if wrap16(old(z).spec_bc() - 1) != 0 {
                1u8
            } else {
                0u8
            },
            ..*old(z)
        }),
        old(z).flags_wf() ==> final(z).flags_wf(),
{
    let de: u16 = get_de(z);
    let hl: u16 = get_hl(z);
    let val: u8 = rb(bus, hl);

    wb(bus, de, val);

    let result = get_hl(z);
    set_hl(z, result.wrapping_add(1));
    let result = get_de(z);
    set_de(z, result.wrapping_add(1));
    let result = get_bc(z);
    set_bc(z, result.wrapping_sub(1));

    // the undocumented flags copy bits of the transferred byte plus the
    // accumulator (bit 1 feeds the bit-5 copy, a hardware quirk)
    let result: u8 = val.wrapping_add(z.a);
    z.xf = GET_BIT(3, result);
    z.yf = GET_BIT(1, result);

    z.nf = 0;
    z.hf = 0;
    if get_bc(z) > 0 {
        z.pf = 1;
    } else {
        z.pf = 0;
    }
}

/// One step of the downward block copy: like the upward step, but HL and DE
/// end one below their start.
#[verifier::rlimit(100)]
#[verifier::spinoff_prover]
pub fn ldd<B: Bus>(z: &mut z80, bus: &mut B)
    requires
        old(bus).inv(),
    ensures
        final(bus).inv(),
        final(bus).mem() == old(bus).mem().update(
            old(z).spec_de() as int,
            old(bus).mem()[old(z).spec_hl() as int],
        ),
        *final(z) == (z80 {
            h: hi_byte(wrap16(old(z).spec_hl() - 1)),
            l: lo_byte(wrap16(old(z).spec_hl() - 1)),
            d: hi_byte(wrap16(old(z).spec_de() - 1)),
            e: lo_byte(wrap16(old(z).spec_de() - 1)),
            b: hi_byte(wrap16(old(z).spec_bc() - 1)),
            c: lo_byte(wrap16(old(z).spec_bc() - 1)),
            xf: spec_bit(3, wrap8(old(bus).mem()[old(z).spec_hl() as int] + old(z).a)),
            yf: spec_bit(1, wrap8(old(bus).mem()[old(z).spec_hl() as int] + old(z).a)),
            nf: 0,
            hf: 0,
            pf: if wrap16(old(z).spec_bc() - 1) != 0 {
                1u8
            } else {
                0u8
            },
            ..*old(z)
        }),
        old(z).flags_wf() ==> final(z).flags_wf(),
{
    ldi(z, bus);
    // same as the upward step, but HL and DE move down instead of up
    proof {
        crate::z80::lemma_wrap16_add(old(z).spec_hl() + 1, -2);
        crate::z80::lemma_wrap16_add(old(z).spec_de() + 1, -2);
        assert(z.spec_hl() == wrap16(old(z).spec_hl() + 1));
        assert(z.spec_de() == wrap16(old(z).spec_de() + 1));
    }
    let result = get_hl(z);
    set_hl(z, result.wrapping_sub(2));
    let result = get_de(z);
    set_de(z, result.wrapping_sub(2));
    proof {
        assert(z.spec_hl() == wrap16(old(z).spec_hl() - 1));
        assert(z.spec_de() == wrap16(old(z).spec_de() - 1));
    }
}

/// One step of the upward block compare: compare (HL) with the accumulator,
/// step HL up and the byte counter down. The carry flag is preserved, parity
/// reports a nonzero counter, and the undocumented flags look at the
/// comparison result minus the half-carry flag, a quirk kept as the hardware
/// has it.
#[verifier::rlimit(100)]
#[verifier::spinoff_prover]
pub fn cpi<B: Bus>(z: &mut z80, bus: &mut B)
    requires
        old(bus).inv(),
    ensures
        final(bus).inv(),
        final(bus).mem() == old(bus).mem(),
        *final(z) == (z80 {
            h: hi_byte(wrap16(old(z).spec_hl() + 1)),
            l: lo_byte(wrap16(old(z).spec_hl() + 1)),
            b: hi_byte(wrap16(old(z).spec_bc() - 1)),
            c: lo_byte(wrap16(old(z).spec_bc() - 1)),
            sf: sign_of(sub_res(old(z).a, old(bus).mem()[old(z).spec_hl() as int], 0)),
            zf: zero_of(sub_res(old(z).a, old(bus).mem()[old(z).spec_hl() as int], 0)),
            hf: sub_hf(old(z).a, old(bus).mem()[old(z).spec_hl() as int], 0),
            nf: 1,
            pf: if wrap16(old(z).spec_bc() - 1) != 0 {
                1u8
            } else {
                0u8
            },
            xf: spec_bit(
                3,
                wrap8(
                    sub_res(old(z).a, old(bus).mem()[old(z).spec_hl() as int], 0) - sub_hf(
                        old(z).a,
                        old(bus).mem()[old(z).spec_hl() as int],
                        0,
                    ),
                ),
            ),
            yf: spec_bit(
                1,
                wrap8(
                    sub_res(old(z).a, old(bus).mem()[old(z).spec_hl() as int], 0) - sub_hf(
                        old(z).a,
                        old(bus).mem()[old(z).spec_hl() as int],
                        0,
                    ),
                ),
            ),
            mem_ptr: wrap16(old(z).mem_ptr + 1),
            ..*old(z)
        }),
        old(z).flags_wf() ==> final(z).flags_wf(),
{
    let cf: u8 = z.cf;
    let result = get_hl(z);
    let result = rb(bus, result);
    let a = z.a;
    let result: u8 = subb(z, a, result, 0);
    let temp = get_hl(z);
    set_hl(z, temp.wrapping_add(1));
    let temp = get_bc(z);
    set_bc(z, temp.wrapping_sub(1));
    z.xf = GET_BIT(3, result.wrapping_sub(z.hf));
    z.yf = GET_BIT(1, result.wrapping_sub(z.hf));
    if get_bc(z) != 0 {
        z.pf = 1;
    } else {
        z.pf = 0;
    }

    z.cf = cf;
    z.mem_ptr = z.mem_ptr.wrapping_add(1);
}

/// One step of the downward block compare: like the upward step, but HL and
/// the address-tracking register end one below their start.
#[verifier::rlimit(100)]
#[verifier::spinoff_prover]
pub fn cpd<B: Bus>(z: &mut z80, bus: &mut B)
    requires
        old(bus).inv(),
    ensures
        final(bus).inv(),
        final(bus).mem() == old(bus).mem(),
        *final(z) == (z80 {
            h: hi_byte(wrap16(old(z).spec_hl() - 1)),
            l: lo_byte(wrap16(old(z).spec_hl() - 1)),
            b: hi_byte(wrap16(old(z).spec_bc() - 1)),
            c: lo_byte(wrap16(old(z).spec_bc() - 1)),
            sf: sign_of(sub_res(old(z).a, old(bus).mem()[old(z).spec_hl() as int], 0)),
            zf: zero_of(sub_res(old(z).a, old(bus).mem()[old(z).spec_hl() as int], 0)),
            hf: sub_hf(old(z).a, old(bus).mem()[old(z).spec_hl() as int], 0),
            nf: 1,
            pf: if wrap16(old(z).spec_bc() - 1) != 0 {
                1u8
            } else {
                0u8
            },
            xf: spec_bit(
                3,
                wrap8(
                    sub_res(old(z).a, old(bus).mem()[old(z).spec_hl() as int], 0) - sub_hf(
                        old(z).a,
                        old(bus).mem()[old(z).spec_hl() as int],
                        0,
                    ),
                ),
            ),
            yf: spec_bit(
                1,
                wrap8(
                    sub_res(old(z).a, old(bus).mem()[old(z).spec_hl() as int], 0) - sub_hf(
                        old(z).a,
                        old(bus).mem()[old(z).spec_hl() as int],
                        0,
                    ),
                ),
            ),
            mem_ptr: wrap16(old(z).mem_ptr - 1),
            ..*old(z)
        }),
        old(z).flags_wf() ==> final(z).flags_wf(),
{
    cpi(z, bus);
    // same as the upward step, but HL moves down instead of up
    proof {
        crate::z80::lemma_wrap16_add(old(z).spec_hl() + 1, -2);
        crate::z80::lemma_wrap16_add(old(z).mem_ptr + 1, -2);
    }
    let result = get_hl(z);
    set_hl(z, result.wrapping_sub(2));
    z.mem_ptr = z.mem_ptr.wrapping_sub(2);
}

/// Read a port into a register and set sign, zero and parity from whatever
/// byte the device answered.
pub fn in_r_c<B: Bus>(z: &mut z80, bus: &mut B, r: &mut u8)
    requires
        old(bus).inv(),
    ensures
        final(bus).inv(),
        final(bus).mem() == old(bus).mem(),
        *final(z) == (z80 {
            sf: sign_of(*final(r)),
            zf: zero_of(*final(r)),
            pf: parity_flag(*final(r)),
            nf: 0,
            hf: 0,
            ..*old(z)
        }),
        old(z).flags_wf() ==> final(z).flags_wf(),
{
    *r = bus.port_in(z.c);
    if *r == 0 {
        z.zf = 1;
    } else {
        z.zf = 0;
    }

    z.sf = *r >> 7;
    if parity(*r) {
        z.pf = 1;
    } else {
        z.pf = 0;
    }

    z.nf = 0;
    z.hf = 0;
}

/// One step of the upward block input: a port byte lands at (HL), HL steps
/// up and the byte counter steps down.
#[verifier::rlimit(100)]
#[verifier::spinoff_prover]
pub fn ini<B: Bus>(z: &mut z80, bus: &mut B)
    requires
        old(bus).inv(),
    ensures
        final(bus).inv(),
        exists|v: u8|
            final(bus).mem() == old(bus).mem().update(old(z).spec_hl() as int, v),
        *final(z) == (z80 {
            h: hi_byte(wrap16(old(z).spec_hl() + 1)),
            l: lo_byte(wrap16(old(z).spec_hl() + 1)),
            b: wrap8(old(z).b - 1),
            zf: zero_of(wrap8(old(z).b - 1)),
            nf: 1,
            mem_ptr: wrap16(word_from(wrap8(old(z).b - 1), old(z).c) + 1),
            ..*old(z)
        }),
        old(z).flags_wf() ==> final(z).flags_wf(),
{
    let val: u8 = bus.port_in(z.c);
    let result = get_hl(z);
    wb(bus, result, val);
    proof {
        assert(final(bus).mem() == old(bus).mem().update(old(z).spec_hl() as int, val));
    }
    let result = get_hl(z);
    set_hl(z, result.wrapping_add(1));
    z.b = z.b.wrapping_sub(1);
    if z.b == 0 {
        z.zf = 1;
    } else {
        z.zf = 0;
    }

    z.nf = 1;
    let bc = get_bc(z);
    z.mem_ptr = bc.wrapping_add(1);
}

/// One step of the downward block input: like the upward step, but HL ends
/// one below its start and the address register one below the counter pair.
#[verifier::rlimit(100)]
#[verifier::spinoff_prover]
pub fn ind<B: Bus>(z: &mut z80, bus: &mut B)
    requires
        old(bus).inv(),
    ensures
        final(bus).inv(),
        exists|v: u8|
            final(bus).mem() == old(bus).mem().update(old(z).spec_hl() as int, v),
        *final(z) == (z80 {
            h: hi_byte(wrap16(old(z).spec_hl() - 1)),
            l: lo_byte(wrap16(old(z).spec_hl() - 1)),
            b: wrap8(old(z).b - 1),
            zf: zero_of(wrap8(old(z).b - 1)),
            nf: 1,
            mem_ptr: wrap16(word_from(wrap8(old(z).b - 1), old(z).c) - 2),
            ..*old(z)
        }),
        old(z).flags_wf() ==> final(z).flags_wf(),
{
    ini(z, bus);
    proof {
        crate::z80::lemma_wrap16_add(old(z).spec_hl() + 1, -2);
    }
    let temp = get_hl(z);
    set_hl(z, temp.wrapping_sub(2));
    let bc = get_bc(z);
    z.mem_ptr = bc.wrapping_sub(2);
}

/// One step of the upward block output: the byte at (HL) goes out of a port,
/// HL steps up and the byte counter steps down.
#[verifier::rlimit(100)]
#[verifier::spinoff_prover]
pub fn outi<B: Bus>(z: &mut z80, bus: &mut B)
    requires
        old(bus).inv(),
    ensures
        final(bus).inv(),
        final(bus).mem() == old(bus).mem(),
        *final(z) == (z80 {
            h: hi_byte(wrap16(old(z).spec_hl() + 1)),
            l: lo_byte(wrap16(old(z).spec_hl() + 1)),
            b: wrap8(old(z).b - 1),
            zf: zero_of(wrap8(old(z).b - 1)),
            nf: 1,
            mem_ptr: wrap16(word_from(wrap8(old(z).b - 1), old(z).c) + 1),
            ..*old(z)
        }),
        old(z).flags_wf() ==> final(z).flags_wf(),
{
    let temp = get_hl(z);
    let temp = rb(bus, temp);
    let c = z.c;
    bus.port_out(c, temp);
    let temp = get_hl(z).wrapping_add(1);
    set_hl(z, temp);
    z.b = z.b.wrapping_sub(1);
    if z.b == 0 {
        z.zf = 1;
    } else {
        z.zf = 0;
    }

    z.nf = 1;
    let bc = get_bc(z);
    z.mem_ptr = bc.wrapping_add(1);
}

/// One step of the downward block output: like the upward step, but HL ends
/// one below its start and the address register one below the counter pair.
#[verifier::rlimit(100)]
#[verifier::spinoff_prover]
pub fn outd<B: Bus>(z: &mut z80, bus: &mut B)
    requires
        old(bus).inv(),
    ensures
        final(bus).inv(),
        final(bus).mem() == old(bus).mem(),
        *final(z) == (z80 {
            h: hi_byte(wrap16(old(z).spec_hl() - 1)),
            l: lo_byte(wrap16(old(z).spec_hl() - 1)),
            b: wrap8(old(z).b - 1),
            zf: zero_of(wrap8(old(z).b - 1)),
            nf: 1,
            mem_ptr: wrap16(word_from(wrap8(old(z).b - 1), old(z).c) - 2),
            ..*old(z)
        }),
        old(z).flags_wf() ==> final(z).flags_wf(),
{
    outi(z, bus);
    proof {
        crate::z80::lemma_wrap16_add(old(z).spec_hl() + 1, -2);
    }
    let temp = get_hl(z);
    set_hl(z, temp.wrapping_sub(2));
    let bc = get_bc(z);
    z.mem_ptr = bc.wrapping_sub(2);
}

/// Decimal-adjust the accumulator after a BCD addition or subtraction.
#[verifier::rlimit(100)]
#[verifier::spinoff_prover]
pub fn daa(z: &mut z80)
    ensures
        *final(z) == (z80 {
            a: daa_a(old(z).a, old(z).hf, old(z).cf, old(z).nf),
            sf: sign_of(daa_a(old(z).a, old(z).hf, old(z).cf, old(z).nf)),
            zf: zero_of(daa_a(old(z).a, old(z).hf, old(z).cf, old(z).nf)),
            hf: daa_hf(old(z).a, old(z).hf, old(z).nf),
            pf: parity_flag(daa_a(old(z).a, old(z).hf, old(z).cf, old(z).nf)),
            cf: daa_cf(old(z).a, old(z).cf),
            xf: spec_bit(3, daa_a(old(z).a, old(z).hf, old(z).cf, old(z).nf)),
            yf: spec_bit(5, daa_a(old(z).a, old(z).hf, old(z).cf, old(z).nf)),
            ..*old(z)
        }),
        old(z).flags_wf() ==> final(z).flags_wf(),
{
    // if the low nibble is not a BCD digit (or a half-carry happened), add
    // 0x06; if the whole byte is past 0x99 (or a carry happened), add 0x60
    // and set the carry. The correction is applied as a subtraction instead
    // when the previous operation subtracted.
    let mut correction: u8 = 0;

    if (z.a & 0x0F) > 0x09 || z.hf != 0 {
        correction += 0x06;
    }

    if z.a > 0x99 || z.cf != 0 {
        correction += 0x60;
        z.cf = 1;
    }

    let substraction: u8 = z.nf;
    if substraction != 0 {
        if z.hf != 0 && (z.a & 0x0F) < 0x06 {
            z.hf = 1;
        } else {
            z.hf = 0;
        }

        proof {
            crate::z80::lemma_wrap8_range(old(z).a - correction);
        }
        z.a = z.a.wrapping_sub(correction);
        proof {
            assert(z.a == daa_a(old(z).a, old(z).hf, old(z).cf, old(z).nf));
        }
    } else {
        if (z.a & 0x0F) > 0x09 {
            z.hf = 1;
        } else {
            z.hf = 0;
        }

        proof {
            crate::z80::lemma_wrap8_range(old(z).a + correction);
        }
        z.a = z.a.wrapping_add(correction);
        proof {
            assert(z.a == daa_a(old(z).a, old(z).hf, old(z).cf, old(z).nf));
        }
    }

    z.sf = z.a >> 7;
    if z.a == 0 {
        z.zf = 1;
    } else {
        z.zf = 0;
    }

    if parity(z.a) {
        z.pf = 1;
    } else {
        z.pf = 0;
    }

    z.xf = GET_BIT(3, z.a);
    z.yf = GET_BIT(5, z.a);
}

} // verus!
