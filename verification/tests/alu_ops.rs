use pacz80::GET_BIT;
use pacz80::carry;
use pacz80::parity;
use pacz80::alu::addb;
use pacz80::alu::cb_rl;
use pacz80::alu::cb_rlc;
use pacz80::alu::cb_rrc;
use pacz80::alu::cb_sra;
use pacz80::alu::cb_srl;
use pacz80::alu::cp;
use pacz80::alu::daa;
use pacz80::alu::dec;
use pacz80::alu::inc;
use pacz80::alu::land;
use pacz80::alu::lor;
use pacz80::alu::lxor;
use pacz80::alu::subb;
use pacz80::alu::addw;
use pacz80::z80::z80;

fn fresh() -> z80 {
    let mut z = z80::new();
    pacz80::z80::z80_init(&mut z);
    z
}

#[test]
fn add_byte_flags_match_carry_arithmetic() {
    // carry out of bit 3 but not bit 7
    let mut z = fresh();
    let r = addb(&mut z, 0x0F, 0x01, 0);
    assert_eq!(r, 0x10);
    assert_eq!((z.sf, z.zf, z.hf, z.pf, z.nf, z.cf), (0, 0, 1, 0, 0, 0));

    // wrap to zero: carry out of bit 7, zero set
    let r = addb(&mut z, 0xFF, 0x01, 0);
    assert_eq!(r, 0x00);
    assert_eq!((z.sf, z.zf, z.hf, z.pf, z.nf, z.cf), (0, 1, 1, 0, 0, 1));

    // signed overflow: 0x7F + 1 = 0x80
    let r = addb(&mut z, 0x7F, 0x01, 0);
    assert_eq!(r, 0x80);
    assert_eq!((z.sf, z.zf, z.hf, z.pf, z.nf, z.cf), (1, 0, 1, 1, 0, 0));

    // carry-in participates
    let r = addb(&mut z, 0x10, 0x2F, 1);
    assert_eq!(r, 0x40);
    assert_eq!((z.sf, z.zf, z.hf, z.cf), (0, 0, 1, 0));

    // undocumented flags mirror bits 3 and 5 of the result
    let r = addb(&mut z, 0x28, 0x00, 0);
    assert_eq!(r, 0x28);
    assert_eq!((z.xf, z.yf), (1, 1));
}

#[test]
fn sub_byte_is_complement_addition() {
    // subtraction flags equal the complemented adder's
    let mut z = fresh();
    let r = subb(&mut z, 0x10, 0x01, 0);
    assert_eq!(r, 0x0F);
    assert_eq!((z.sf, z.zf, z.hf, z.nf, z.cf), (0, 0, 1, 1, 0));

    let mut z2 = fresh();
    let r2 = addb(&mut z2, 0x10, !0x01, 1);
    assert_eq!(r2, 0x0F);
    // carry and half-carry complemented, subtract flag forced on
    assert_eq!(z.cf, 1 - z2.cf);
    assert_eq!(z.hf, 1 - z2.hf);
    assert_eq!((z.sf, z.zf, z.pf), (z2.sf, z2.zf, z2.pf));

    // borrow
    let r = subb(&mut z, 0x00, 0x01, 0);
    assert_eq!(r, 0xFF);
    assert_eq!((z.sf, z.zf, z.hf, z.nf, z.cf), (1, 0, 1, 1, 1));
}

#[test]
fn compare_copies_undocumented_flags_from_operand() {
    let mut z = fresh();
    z.a = 0x50;
    cp(&mut z, 0x28);
    // flags of 0x50 - 0x28, but bits 3 and 5 taken from the operand 0x28
    assert_eq!(z.a, 0x50);
    assert_eq!((z.zf, z.cf, z.nf), (0, 0, 1));
    assert_eq!((z.xf, z.yf), (1, 1));
}

#[test]
fn parity_counts_set_bits() {
    assert!(parity(0x00));
    assert!(!parity(0x01));
    assert!(parity(0x03));
    assert!(!parity(0x07));
    assert!(parity(0xFF));
    assert!(parity(0x81));
}

#[test]
fn carry_extracts_bit_level_carries() {
    // 0x0F + 0x01: carry crosses bit 4 but not bit 8
    assert_eq!(carry(4, 0x0F, 0x01, 0), 1);
    assert_eq!(carry(8, 0x0F, 0x01, 0), 0);
    // 0xFF + 0x01 carries out of bit 8
    assert_eq!(carry(8, 0xFF, 0x01, 0), 1);
    // the carry-in bit participates
    assert_eq!(carry(4, 0x0F, 0x00, 1), 1);
    assert_eq!(carry(4, 0x0E, 0x00, 1), 0);
}

#[test]
fn get_bit_reads_single_bits() {
    assert_eq!(GET_BIT(0, 0x01), 1);
    assert_eq!(GET_BIT(7, 0x80), 1);
    assert_eq!(GET_BIT(3, 0xF7), 0);
    assert_eq!(GET_BIT(5, 0x20), 1);
}

#[test]
fn bcd_correction_fixes_packed_sums() {
    // 0x15 + 0x27 = 0x3C, decimal-adjusted to 0x42
    let mut z = fresh();
    z.a = addb(&mut z, 0x15, 0x27, 0);
    z.a = z.a; // accumulator carries the binary sum
    daa(&mut z);
    assert_eq!(z.a, 0x42);
    assert_eq!(z.cf, 0);

    // 0x91 + 0x19 = 110 decimal: result 0x10 with decimal carry
    let mut z = fresh();
    z.a = addb(&mut z, 0x91, 0x19, 0);
    daa(&mut z);
    assert_eq!(z.a, 0x10);
    assert_eq!(z.cf, 1);

    // 0x99 + 0x99 = 198 decimal: result 0x98 with decimal carry
    let mut z = fresh();
    z.a = addb(&mut z, 0x99, 0x99, 0);
    daa(&mut z);
    assert_eq!(z.a, 0x98);
    assert_eq!(z.cf, 1);

    // subtraction path: 0x42 - 0x15 = 0x27
    let mut z = fresh();
    z.a = subb(&mut z, 0x42, 0x15, 0);
    daa(&mut z);
    assert_eq!(z.a, 0x27);
    assert_eq!(z.cf, 0);
}

#[test]
fn increments_preserve_carry() {
    let mut z = fresh();
    z.cf = 1;
    let r = inc(&mut z, 0xFF);
    assert_eq!(r, 0);
    assert_eq!((z.zf, z.hf, z.cf, z.nf), (1, 1, 1, 0));

    let r = dec(&mut z, 0x00);
    assert_eq!(r, 0xFF);
    assert_eq!((z.zf, z.hf, z.cf, z.nf), (0, 1, 1, 1));
}

#[test]
fn logic_ops_set_parity_and_fixed_flags() {
    let mut z = fresh();
    z.a = 0xF0;
    land(&mut z, 0x3C);
    assert_eq!(z.a, 0x30);
    assert_eq!((z.hf, z.cf, z.nf, z.pf), (1, 0, 0, 1));

    z.a = 0xFF;
    lxor(&mut z, 0xFF);
    assert_eq!(z.a, 0x00);
    assert_eq!((z.zf, z.hf, z.cf, z.pf), (1, 0, 0, 1));

    z.a = 0x80;
    lor(&mut z, 0x01);
    assert_eq!(z.a, 0x81);
    assert_eq!((z.sf, z.zf, z.pf), (1, 0, 1));
}

#[test]
fn rotates_and_shifts_move_the_carry() {
    let mut z = fresh();
    assert_eq!(cb_rlc(&mut z, 0x81), 0x03);
    assert_eq!(z.cf, 1);

    assert_eq!(cb_rrc(&mut z, 0x01), 0x80);
    assert_eq!(z.cf, 1);

    z.cf = 1;
    assert_eq!(cb_rl(&mut z, 0x80), 0x01);
    assert_eq!(z.cf, 1);

    assert_eq!(cb_sra(&mut z, 0x82), 0xC1);
    assert_eq!(z.cf, 0);

    assert_eq!(cb_srl(&mut z, 0x81), 0x40);
    assert_eq!(z.cf, 1);
}

#[test]
fn word_addition_composes_byte_additions() {
    let mut z = fresh();
    let r = addw(&mut z, 0x0FFF, 0x0001, 0);
    assert_eq!(r, 0x1000);
    assert_eq!((z.zf, z.cf), (0, 0));
    // the half-carry looks at the high byte addition
    assert_eq!(z.hf, 1);
    assert_eq!(z.mem_ptr, 0x1000);

    let r = addw(&mut z, 0xFFFF, 0x0001, 0);
    assert_eq!(r, 0x0000);
    assert_eq!((z.zf, z.cf), (1, 1));
}
