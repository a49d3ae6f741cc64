//! The specification of what each instruction does: a spec-level reading of
//! every decoder for the device-free fragment of the instruction set.
//!
//! Port input is the one thing a specification over processor state and
//! memory cannot give a value to -- the device answers -- so the opcodes that
//! read a port (and the unbounded prefix chains) are left out of these
//! functions, and the decoders' contracts claim them only through the
//! predicates below. Everything else -- every base opcode, the whole
//! bit-operation tables, the deterministic extended opcodes, the interrupt
//! machine and the step driver -- is pinned to the functions in this module.

use vstd::prelude::*;

use crate::flags::add_cf;
use crate::flags::add_hf;
use crate::flags::add_pf;
use crate::flags::add_res;
use crate::flags::daa_a;
use crate::flags::daa_cf;
use crate::flags::daa_hf;
use crate::flags::flag_not;
use crate::flags::parity_flag;
use crate::flags::sign_of;
use crate::flags::spec_bit;
use crate::flags::sub_cf;
use crate::flags::sub_hf;
use crate::flags::sub_pf;
use crate::flags::sub_res;
use crate::flags::zero_of;
use crate::alu::addw_carry;
use crate::alu::addw_hi;
use crate::alu::addw_res;
use crate::alu::rl_res;
use crate::alu::rlc_res;
use crate::alu::rr_res;
use crate::alu::rrc_res;
use crate::alu::sign16_of;
use crate::alu::sla_res;
use crate::alu::sll_res;
use crate::alu::sra_res;
use crate::alu::srl_res;
use crate::alu::subw_borrow;
use crate::alu::subw_hi;
use crate::alu::subw_res;
use crate::alu::zero16_of;
use crate::z80::hi_byte;
use crate::z80::lo_byte;
use crate::z80::spec_dec_r;
use crate::z80::spec_inc_r;
use crate::z80::word_at;
use crate::z80::word_from;
use crate::z80::wrap16;
use crate::z80::wrap8;
use crate::z80::written_word;
use crate::z80::z80;

verus! {

/// Base-table cycle costs, entry by entry.
pub open spec fn spec_cyc_00(op: u8) -> u8 {
    match op {
        0x00 => 4,
        0x01 => 10,
        0x02 => 7,
        0x03 => 6,
        0x04 => 4,
        0x05 => 4,
        0x06 => 7,
        0x07 => 4,
        0x08 => 4,
        0x09 => 11,
        0x0A => 7,
        0x0B => 6,
        0x0C => 4,
        0x0D => 4,
        0x0E => 7,
        0x0F => 4,
        0x10 => 8,
        0x11 => 10,
        0x12 => 7,
        0x13 => 6,
        0x14 => 4,
        0x15 => 4,
        0x16 => 7,
        0x17 => 4,
        0x18 => 12,
        0x19 => 11,
        0x1A => 7,
        0x1B => 6,
        0x1C => 4,
        0x1D => 4,
        0x1E => 7,
        0x1F => 4,
        0x20 => 7,
        0x21 => 10,
        0x22 => 16,
        0x23 => 6,
        0x24 => 4,
        0x25 => 4,
        0x26 => 7,
        0x27 => 4,
        0x28 => 7,
        0x29 => 11,
        0x2A => 16,
        0x2B => 6,
        0x2C => 4,
        0x2D => 4,
        0x2E => 7,
        0x2F => 4,
        0x30 => 7,
        0x31 => 10,
        0x32 => 13,
        0x33 => 6,
        0x34 => 11,
        0x35 => 11,
        0x36 => 10,
        0x37 => 4,
        0x38 => 7,
        0x39 => 11,
        0x3A => 13,
        0x3B => 6,
        0x3C => 4,
        0x3D => 4,
        0x3E => 7,
        0x3F => 4,
        0x40 => 4,
        0x41 => 4,
        0x42 => 4,
        0x43 => 4,
        0x44 => 4,
        0x45 => 4,
        0x46 => 7,
        0x47 => 4,
        0x48 => 4,
        0x49 => 4,
        0x4A => 4,
        0x4B => 4,
        0x4C => 4,
        0x4D => 4,
        0x4E => 7,
        0x4F => 4,
        0x50 => 4,
        0x51 => 4,
        0x52 => 4,
        0x53 => 4,
        0x54 => 4,
        0x55 => 4,
        0x56 => 7,
        0x57 => 4,
        0x58 => 4,
        0x59 => 4,
        0x5A => 4,
        0x5B => 4,
        0x5C => 4,
        0x5D => 4,
        0x5E => 7,
        0x5F => 4,
        0x60 => 4,
        0x61 => 4,
        0x62 => 4,
        0x63 => 4,
        0x64 => 4,
        0x65 => 4,
        0x66 => 7,
        0x67 => 4,
        0x68 => 4,
        0x69 => 4,
        0x6A => 4,
        0x6B => 4,
        0x6C => 4,
        0x6D => 4,
        0x6E => 7,
        0x6F => 4,
        0x70 => 7,
        0x71 => 7,
        0x72 => 7,
        0x73 => 7,
        0x74 => 7,
        0x75 => 7,
        0x76 => 4,
        0x77 => 7,
        0x78 => 4,
        0x79 => 4,
        0x7A => 4,
        0x7B => 4,
        0x7C => 4,
        0x7D => 4,
        0x7E => 7,
        0x7F => 4,
        0x80 => 4,
        0x81 => 4,
        0x82 => 4,
        0x83 => 4,
        0x84 => 4,
        0x85 => 4,
        0x86 => 7,
        0x87 => 4,
        0x88 => 4,
        0x89 => 4,
        0x8A => 4,
        0x8B => 4,
        0x8C => 4,
        0x8D => 4,
        0x8E => 7,
        0x8F => 4,
        0x90 => 4,
        0x91 => 4,
        0x92 => 4,
        0x93 => 4,
        0x94 => 4,
        0x95 => 4,
        0x96 => 7,
        0x97 => 4,
        0x98 => 4,
        0x99 => 4,
        0x9A => 4,
        0x9B => 4,
        0x9C => 4,
        0x9D => 4,
        0x9E => 7,
        0x9F => 4,
        0xA0 => 4,
        0xA1 => 4,
        0xA2 => 4,
        0xA3 => 4,
        0xA4 => 4,
        0xA5 => 4,
        0xA6 => 7,
        0xA7 => 4,
        0xA8 => 4,
        0xA9 => 4,
        0xAA => 4,
        0xAB => 4,
        0xAC => 4,
        0xAD => 4,
        0xAE => 7,
        0xAF => 4,
        0xB0 => 4,
        0xB1 => 4,
        0xB2 => 4,
        0xB3 => 4,
        0xB4 => 4,
        0xB5 => 4,
        0xB6 => 7,
        0xB7 => 4,
        0xB8 => 4,
        0xB9 => 4,
        0xBA => 4,
        0xBB => 4,
        0xBC => 4,
        0xBD => 4,
        0xBE => 7,
        0xBF => 4,
        0xC0 => 5,
        0xC1 => 10,
        0xC2 => 10,
        0xC3 => 10,
        0xC4 => 10,
        0xC5 => 11,
        0xC6 => 7,
        0xC7 => 11,
        0xC8 => 5,
        0xC9 => 10,
        0xCA => 10,
        0xCB => 0,
        0xCC => 10,
        0xCD => 17,
        0xCE => 7,
        0xCF => 11,
        0xD0 => 5,
        0xD1 => 10,
        0xD2 => 10,
        0xD3 => 11,
        0xD4 => 10,
        0xD5 => 11,
        0xD6 => 7,
        0xD7 => 11,
        0xD8 => 5,
        0xD9 => 4,
        0xDA => 10,
        0xDB => 11,
        0xDC => 10,
        0xDD => 0,
        0xDE => 7,
        0xDF => 11,
        0xE0 => 5,
        0xE1 => 10,
        0xE2 => 10,
        0xE3 => 19,
        0xE4 => 10,
        0xE5 => 11,
        0xE6 => 7,
        0xE7 => 11,
        0xE8 => 5,
        0xE9 => 4,
        0xEA => 10,
        0xEB => 4,
        0xEC => 10,
        0xED => 0,
        0xEE => 7,
        0xEF => 11,
        0xF0 => 5,
        0xF1 => 10,
        0xF2 => 10,
        0xF3 => 4,
        0xF4 => 10,
        0xF5 => 11,
        0xF6 => 7,
        0xF7 => 11,
        0xF8 => 5,
        0xF9 => 6,
        0xFA => 10,
        0xFB => 4,
        0xFC => 10,
        0xFD => 0,
        0xFE => 7,
        0xFF => 11,
    }
}

/// Extended-table cycle costs, entry by entry.
pub open spec fn spec_cyc_ed(op: u8) -> u8 {
    match op {
        0x00 => 8,
        0x01 => 8,
        0x02 => 8,
        0x03 => 8,
        0x04 => 8,
        0x05 => 8,
        0x06 => 8,
        0x07 => 8,
        0x08 => 8,
        0x09 => 8,
        0x0A => 8,
        0x0B => 8,
        0x0C => 8,
        0x0D => 8,
        0x0E => 8,
        0x0F => 8,
        0x10 => 8,
        0x11 => 8,
        0x12 => 8,
        0x13 => 8,
        0x14 => 8,
        0x15 => 8,
        0x16 => 8,
        0x17 => 8,
        0x18 => 8,
        0x19 => 8,
        0x1A => 8,
        0x1B => 8,
        0x1C => 8,
        0x1D => 8,
        0x1E => 8,
        0x1F => 8,
        0x20 => 8,
        0x21 => 8,
        0x22 => 8,
        0x23 => 8,
        0x24 => 8,
        0x25 => 8,
        0x26 => 8,
        0x27 => 8,
        0x28 => 8,
        0x29 => 8,
        0x2A => 8,
        0x2B => 8,
        0x2C => 8,
        0x2D => 8,
        0x2E => 8,
        0x2F => 8,
        0x30 => 8,
        0x31 => 8,
        0x32 => 8,
        0x33 => 8,
        0x34 => 8,
        0x35 => 8,
        0x36 => 8,
        0x37 => 8,
        0x38 => 8,
        0x39 => 8,
        0x3A => 8,
        0x3B => 8,
        0x3C => 8,
        0x3D => 8,
        0x3E => 8,
        0x3F => 8,
        0x40 => 12,
        0x41 => 12,
        0x42 => 15,
        0x43 => 20,
        0x44 => 8,
        0x45 => 14,
        0x46 => 8,
        0x47 => 9,
        0x48 => 12,
        0x49 => 12,
        0x4A => 15,
        0x4B => 20,
        0x4C => 8,
        0x4D => 14,
        0x4E => 8,
        0x4F => 9,
        0x50 => 12,
        0x51 => 12,
        0x52 => 15,
        0x53 => 20,
        0x54 => 8,
        0x55 => 14,
        0x56 => 8,
        0x57 => 9,
        0x58 => 12,
        0x59 => 12,
        0x5A => 15,
        0x5B => 20,
        0x5C => 8,
        0x5D => 14,
        0x5E => 8,
        0x5F => 9,
        0x60 => 12,
        0x61 => 12,
        0x62 => 15,
        0x63 => 20,
        0x64 => 8,
        0x65 => 14,
        0x66 => 8,
        0x67 => 18,
        0x68 => 12,
        0x69 => 12,
        0x6A => 15,
        0x6B => 20,
        0x6C => 8,
        0x6D => 14,
        0x6E => 8,
        0x6F => 18,
        0x70 => 12,
        0x71 => 12,
        0x72 => 15,
        0x73 => 20,
        0x74 => 8,
        0x75 => 14,
        0x76 => 8,
        0x77 => 8,
        0x78 => 12,
        0x79 => 12,
        0x7A => 15,
        0x7B => 20,
        0x7C => 8,
        0x7D => 14,
        0x7E => 8,
        0x7F => 8,
        0x80 => 8,
        0x81 => 8,
        0x82 => 8,
        0x83 => 8,
        0x84 => 8,
        0x85 => 8,
        0x86 => 8,
        0x87 => 8,
        0x88 => 8,
        0x89 => 8,
        0x8A => 8,
        0x8B => 8,
        0x8C => 8,
        0x8D => 8,
        0x8E => 8,
        0x8F => 8,
        0x90 => 8,
        0x91 => 8,
        0x92 => 8,
        0x93 => 8,
        0x94 => 8,
        0x95 => 8,
        0x96 => 8,
        0x97 => 8,
        0x98 => 8,
        0x99 => 8,
        0x9A => 8,
        0x9B => 8,
        0x9C => 8,
        0x9D => 8,
        0x9E => 8,
        0x9F => 8,
        0xA0 => 16,
        0xA1 => 16,
        0xA2 => 16,
        0xA3 => 16,
        0xA4 => 8,
        0xA5 => 8,
        0xA6 => 8,
        0xA7 => 8,
        0xA8 => 16,
        0xA9 => 16,
        0xAA => 16,
        0xAB => 16,
        0xAC => 8,
        0xAD => 8,
        0xAE => 8,
        0xAF => 8,
        0xB0 => 16,
        0xB1 => 16,
        0xB2 => 16,
        0xB3 => 16,
        0xB4 => 8,
        0xB5 => 8,
        0xB6 => 8,
        0xB7 => 8,
        0xB8 => 16,
        0xB9 => 16,
        0xBA => 16,
        0xBB => 16,
        0xBC => 8,
        0xBD => 8,
        0xBE => 8,
        0xBF => 8,
        0xC0 => 8,
        0xC1 => 8,
        0xC2 => 8,
        0xC3 => 8,
        0xC4 => 8,
        0xC5 => 8,
        0xC6 => 8,
        0xC7 => 8,
        0xC8 => 8,
        0xC9 => 8,
        0xCA => 8,
        0xCB => 8,
        0xCC => 8,
        0xCD => 8,
        0xCE => 8,
        0xCF => 8,
        0xD0 => 8,
        0xD1 => 8,
        0xD2 => 8,
        0xD3 => 8,
        0xD4 => 8,
        0xD5 => 8,
        0xD6 => 8,
        0xD7 => 8,
        0xD8 => 8,
        0xD9 => 8,
        0xDA => 8,
        0xDB => 8,
        0xDC => 8,
        0xDD => 8,
        0xDE => 8,
        0xDF => 8,
        0xE0 => 8,
        0xE1 => 8,
        0xE2 => 8,
        0xE3 => 8,
        0xE4 => 8,
        0xE5 => 8,
        0xE6 => 8,
        0xE7 => 8,
        0xE8 => 8,
        0xE9 => 8,
        0xEA => 8,
        0xEB => 8,
        0xEC => 8,
        0xED => 8,
        0xEE => 8,
        0xEF => 8,
        0xF0 => 8,
        0xF1 => 8,
        0xF2 => 8,
        0xF3 => 8,
        0xF4 => 8,
        0xF5 => 8,
        0xF6 => 8,
        0xF7 => 8,
        0xF8 => 8,
        0xF9 => 8,
        0xFA => 8,
        0xFB => 8,
        0xFC => 8,
        0xFD => 8,
        0xFE => 8,
        0xFF => 8,
    }
}

/// Index-prefixed-table cycle costs, entry by entry.
pub open spec fn spec_cyc_ddfd(op: u8) -> u8 {
    match op {
        0x00 => 4,
        0x01 => 4,
        0x02 => 4,
        0x03 => 4,
        0x04 => 4,
        0x05 => 4,
        0x06 => 4,
        0x07 => 4,
        0x08 => 4,
        0x09 => 15,
        0x0A => 4,
        0x0B => 4,
        0x0C => 4,
        0x0D => 4,
        0x0E => 4,
        0x0F => 4,
        0x10 => 4,
        0x11 => 4,
        0x12 => 4,
        0x13 => 4,
        0x14 => 4,
        0x15 => 4,
        0x16 => 4,
        0x17 => 4,
        0x18 => 4,
        0x19 => 15,
        0x1A => 4,
        0x1B => 4,
        0x1C => 4,
        0x1D => 4,
        0x1E => 4,
        0x1F => 4,
        0x20 => 4,
        0x21 => 14,
        0x22 => 20,
        0x23 => 10,
        0x24 => 8,
        0x25 => 8,
        0x26 => 11,
        0x27 => 4,
        0x28 => 4,
        0x29 => 15,
        0x2A => 20,
        0x2B => 10,
        0x2C => 8,
        0x2D => 8,
        0x2E => 11,
        0x2F => 4,
        0x30 => 4,
        0x31 => 4,
        0x32 => 4,
        0x33 => 4,
        0x34 => 23,
        0x35 => 23,
        0x36 => 19,
        0x37 => 4,
        0x38 => 4,
        0x39 => 15,
        0x3A => 4,
        0x3B => 4,
        0x3C => 4,
        0x3D => 4,
        0x3E => 4,
        0x3F => 4,
        0x40 => 4,
        0x41 => 4,
        0x42 => 4,
        0x43 => 4,
        0x44 => 8,
        0x45 => 8,
        0x46 => 19,
        0x47 => 4,
        0x48 => 4,
        0x49 => 4,
        0x4A => 4,
        0x4B => 4,
        0x4C => 8,
        0x4D => 8,
        0x4E => 19,
        0x4F => 4,
        0x50 => 4,
        0x51 => 4,
        0x52 => 4,
        0x53 => 4,
        0x54 => 8,
        0x55 => 8,
        0x56 => 19,
        0x57 => 4,
        0x58 => 4,
        0x59 => 4,
        0x5A => 4,
        0x5B => 4,
        0x5C => 8,
        0x5D => 8,
        0x5E => 19,
        0x5F => 4,
        0x60 => 8,
        0x61 => 8,
        0x62 => 8,
        0x63 => 8,
        0x64 => 8,
        0x65 => 8,
        0x66 => 19,
        0x67 => 8,
        0x68 => 8,
        0x69 => 8,
        0x6A => 8,
        0x6B => 8,
        0x6C => 8,
        0x6D => 8,
        0x6E => 19,
        0x6F => 8,
        0x70 => 19,
        0x71 => 19,
        0x72 => 19,
        0x73 => 19,
        0x74 => 19,
        0x75 => 19,
        0x76 => 4,
        0x77 => 19,
        0x78 => 4,
        0x79 => 4,
        0x7A => 4,
        0x7B => 4,
        0x7C => 8,
        0x7D => 8,
        0x7E => 19,
        0x7F => 4,
        0x80 => 4,
        0x81 => 4,
        0x82 => 4,
        0x83 => 4,
        0x84 => 8,
        0x85 => 8,
        0x86 => 19,
        0x87 => 4,
        0x88 => 4,
        0x89 => 4,
        0x8A => 4,
        0x8B => 4,
        0x8C => 8,
        0x8D => 8,
        0x8E => 19,
        0x8F => 4,
        0x90 => 4,
        0x91 => 4,
        0x92 => 4,
        0x93 => 4,
        0x94 => 8,
        0x95 => 8,
        0x96 => 19,
        0x97 => 4,
        0x98 => 4,
        0x99 => 4,
        0x9A => 4,
        0x9B => 4,
        0x9C => 8,
        0x9D => 8,
        0x9E => 19,
        0x9F => 4,
        0xA0 => 4,
        0xA1 => 4,
        0xA2 => 4,
        0xA3 => 4,
        0xA4 => 8,
        0xA5 => 8,
        0xA6 => 19,
        0xA7 => 4,
        0xA8 => 4,
        0xA9 => 4,
        0xAA => 4,
        0xAB => 4,
        0xAC => 8,
        0xAD => 8,
        0xAE => 19,
        0xAF => 4,
        0xB0 => 4,
        0xB1 => 4,
        0xB2 => 4,
        0xB3 => 4,
        0xB4 => 8,
        0xB5 => 8,
        0xB6 => 19,
        0xB7 => 4,
        0xB8 => 4,
        0xB9 => 4,
        0xBA => 4,
        0xBB => 4,
        0xBC => 8,
        0xBD => 8,
        0xBE => 19,
        0xBF => 4,
        0xC0 => 4,
        0xC1 => 4,
        0xC2 => 4,
        0xC3 => 4,
        0xC4 => 4,
        0xC5 => 4,
        0xC6 => 4,
        0xC7 => 4,
        0xC8 => 4,
        0xC9 => 4,
        0xCA => 4,
        0xCB => 0,
        0xCC => 4,
        0xCD => 4,
        0xCE => 4,
        0xCF => 4,
        0xD0 => 4,
        0xD1 => 4,
        0xD2 => 4,
        0xD3 => 4,
        0xD4 => 4,
        0xD5 => 4,
        0xD6 => 4,
        0xD7 => 4,
        0xD8 => 4,
        0xD9 => 4,
        0xDA => 4,
        0xDB => 4,
        0xDC => 4,
        0xDD => 4,
        0xDE => 4,
        0xDF => 4,
        0xE0 => 4,
        0xE1 => 14,
        0xE2 => 4,
        0xE3 => 23,
        0xE4 => 4,
        0xE5 => 15,
        0xE6 => 4,
        0xE7 => 4,
        0xE8 => 4,
        0xE9 => 8,
        0xEA => 4,
        0xEB => 4,
        0xEC => 4,
        0xED => 4,
        0xEE => 4,
        0xEF => 4,
        0xF0 => 4,
        0xF1 => 4,
        0xF2 => 4,
        0xF3 => 4,
        0xF4 => 4,
        0xF5 => 4,
        0xF6 => 4,
        0xF7 => 4,
        0xF8 => 4,
        0xF9 => 10,
        0xFA => 4,
        0xFB => 4,
        0xFC => 4,
        0xFD => 4,
        0xFE => 4,
        0xFF => 4,
    }
}

/// The bookkeeping every dispatch starts with: the table's cycle cost and
/// one refresh count.
pub open spec fn charged(z: z80, c: u8) -> z80 {
    z80 { cyc: z.cyc.saturating_add(c as u64), r: spec_inc_r(z.r), ..z }
}

/// State after an 8-bit addition into the accumulator.
pub open spec fn st_add_a(z: z80, v: u8, cy: u8) -> z80 {
    z80 {
        a: add_res(z.a, v, cy),
        sf: sign_of(add_res(z.a, v, cy)),
        zf: zero_of(add_res(z.a, v, cy)),
        hf: add_hf(z.a, v, cy),
        pf: add_pf(z.a, v, cy),
        cf: add_cf(z.a, v, cy),
        nf: 0,
        xf: spec_bit(3, add_res(z.a, v, cy)),
        yf: spec_bit(5, add_res(z.a, v, cy)),
        ..z
    }
}

/// State after an 8-bit subtraction from the accumulator.
pub open spec fn st_sub_a(z: z80, v: u8, cy: u8) -> z80 {
    z80 {
        a: sub_res(z.a, v, cy),
        sf: sign_of(sub_res(z.a, v, cy)),
        zf: zero_of(sub_res(z.a, v, cy)),
        hf: sub_hf(z.a, v, cy),
        pf: sub_pf(z.a, v, cy),
        cf: sub_cf(z.a, v, cy),
        nf: 1,
        xf: spec_bit(3, sub_res(z.a, v, cy)),
        yf: spec_bit(5, sub_res(z.a, v, cy)),
        ..z
    }
}

/// State after a logic AND into the accumulator.
pub open spec fn st_and_a(z: z80, v: u8) -> z80 {
    z80 {
        a: z.a & v,
        sf: sign_of(z.a & v),
        zf: zero_of(z.a & v),
        hf: 1,
        pf: parity_flag(z.a & v),
        nf: 0,
        cf: 0,
        xf: spec_bit(3, z.a & v),
        yf: spec_bit(5, z.a & v),
        ..z
    }
}

/// State after a logic XOR into the accumulator.
pub open spec fn st_xor_a(z: z80, v: u8) -> z80 {
    z80 {
        a: z.a ^ v,
        sf: sign_of(z.a ^ v),
        zf: zero_of(z.a ^ v),
        hf: 0,
        pf: parity_flag(z.a ^ v),
        nf: 0,
        cf: 0,
        xf: spec_bit(3, z.a ^ v),
        yf: spec_bit(5, z.a ^ v),
        ..z
    }
}

/// State after a logic OR into the accumulator.
pub open spec fn st_or_a(z: z80, v: u8) -> z80 {
    z80 {
        a: z.a | v,
        sf: sign_of(z.a | v),
        zf: zero_of(z.a | v),
        hf: 0,
        pf: parity_flag(z.a | v),
        nf: 0,
        cf: 0,
        xf: spec_bit(3, z.a | v),
        yf: spec_bit(5, z.a | v),
        ..z
    }
}

/// State after a compare: subtraction flags, with the undocumented flags
/// copied from the operand.
pub open spec fn st_cp_a(z: z80, v: u8) -> z80 {
    z80 {
        sf: sign_of(sub_res(z.a, v, 0)),
        zf: zero_of(sub_res(z.a, v, 0)),
        hf: sub_hf(z.a, v, 0),
        pf: sub_pf(z.a, v, 0),
        cf: sub_cf(z.a, v, 0),
        nf: 1,
        xf: spec_bit(3, v),
        yf: spec_bit(5, v),
        ..z
    }
}

/// Flag state after incrementing the byte `a`; the carry flag survives.
pub open spec fn st_inc_flags(z: z80, a: u8) -> z80 {
    z80 {
        sf: sign_of(add_res(a, 1, 0)),
        zf: zero_of(add_res(a, 1, 0)),
        hf: add_hf(a, 1, 0),
        pf: add_pf(a, 1, 0),
        nf: 0,
        xf: spec_bit(3, add_res(a, 1, 0)),
        yf: spec_bit(5, add_res(a, 1, 0)),
        ..z
    }
}

/// Flag state after decrementing the byte `a`; the carry flag survives.
pub open spec fn st_dec_flags(z: z80, a: u8) -> z80 {
    z80 {
        sf: sign_of(sub_res(a, 1, 0)),
        zf: zero_of(sub_res(a, 1, 0)),
        hf: sub_hf(a, 1, 0),
        pf: sub_pf(a, 1, 0),
        nf: 1,
        xf: spec_bit(3, sub_res(a, 1, 0)),
        yf: spec_bit(5, sub_res(a, 1, 0)),
        ..z
    }
}

/// State after decimal-adjusting the accumulator.
pub open spec fn st_daa(z: z80) -> z80 {
    z80 {
        a: daa_a(z.a, z.hf, z.cf, z.nf),
        sf: sign_of(daa_a(z.a, z.hf, z.cf, z.nf)),
        zf: zero_of(daa_a(z.a, z.hf, z.cf, z.nf)),
        hf: daa_hf(z.a, z.hf, z.nf),
        pf: parity_flag(daa_a(z.a, z.hf, z.cf, z.nf)),
        cf: daa_cf(z.a, z.cf),
        xf: spec_bit(3, daa_a(z.a, z.hf, z.cf, z.nf)),
        yf: spec_bit(5, daa_a(z.a, z.hf, z.cf, z.nf)),
        ..z
    }
}

/// State after adding a word to HL; sign, zero and parity survive.
pub open spec fn st_addhl(z: z80, val: u16) -> z80 {
    z80 {
        h: hi_byte(addw_res(z.spec_hl(), val, 0)),
        l: lo_byte(addw_res(z.spec_hl(), val, 0)),
        hf: add_hf(hi_byte(z.spec_hl()), hi_byte(val), addw_carry(z.spec_hl(), val, 0)),
        cf: add_cf(hi_byte(z.spec_hl()), hi_byte(val), addw_carry(z.spec_hl(), val, 0)),
        nf: 0,
        xf: spec_bit(3, addw_hi(z.spec_hl(), val, 0)),
        yf: spec_bit(5, addw_hi(z.spec_hl(), val, 0)),
        mem_ptr: wrap16(z.spec_hl() + 1),
        ..z
    }
}

/// State after adding a word and the carry to HL.
pub open spec fn st_adchl(z: z80, val: u16) -> z80 {
    z80 {
        h: hi_byte(addw_res(z.spec_hl(), val, z.cf)),
        l: lo_byte(addw_res(z.spec_hl(), val, z.cf)),
        sf: sign16_of(addw_res(z.spec_hl(), val, z.cf)),
        zf: zero16_of(addw_res(z.spec_hl(), val, z.cf)),
        hf: add_hf(hi_byte(z.spec_hl()), hi_byte(val), addw_carry(z.spec_hl(), val, z.cf)),
        pf: add_pf(hi_byte(z.spec_hl()), hi_byte(val), addw_carry(z.spec_hl(), val, z.cf)),
        cf: add_cf(hi_byte(z.spec_hl()), hi_byte(val), addw_carry(z.spec_hl(), val, z.cf)),
        nf: 0,
        xf: spec_bit(3, addw_hi(z.spec_hl(), val, z.cf)),
        yf: spec_bit(5, addw_hi(z.spec_hl(), val, z.cf)),
        mem_ptr: wrap16(z.spec_hl() + 1),
        ..z
    }
}

/// State after subtracting a word and the carry from HL.
pub open spec fn st_sbchl(z: z80, val: u16) -> z80 {
    z80 {
        h: hi_byte(subw_res(z.spec_hl(), val, z.cf)),
        l: lo_byte(subw_res(z.spec_hl(), val, z.cf)),
        sf: sign16_of(subw_res(z.spec_hl(), val, z.cf)),
        zf: zero16_of(subw_res(z.spec_hl(), val, z.cf)),
        hf: sub_hf(hi_byte(z.spec_hl()), hi_byte(val), subw_borrow(z.spec_hl(), val, z.cf)),
        pf: sub_pf(hi_byte(z.spec_hl()), hi_byte(val), subw_borrow(z.spec_hl(), val, z.cf)),
        cf: sub_cf(hi_byte(z.spec_hl()), hi_byte(val), subw_borrow(z.spec_hl(), val, z.cf)),
        nf: 1,
        xf: spec_bit(3, subw_hi(z.spec_hl(), val, z.cf)),
        yf: spec_bit(5, subw_hi(z.spec_hl(), val, z.cf)),
        mem_ptr: wrap16(z.spec_hl() + 1),
        ..z
    }
}

/// State after one upward block-copy step.
pub open spec fn st_ldi(z: z80, m: Seq<u8>) -> z80 {
    z80 {
        h: hi_byte(wrap16(z.spec_hl() + 1)),
        l: lo_byte(wrap16(z.spec_hl() + 1)),
        d: hi_byte(wrap16(z.spec_de() + 1)),
        e: lo_byte(wrap16(z.spec_de() + 1)),
        b: hi_byte(wrap16(z.spec_bc() - 1)),
        c: lo_byte(wrap16(z.spec_bc() - 1)),
        xf: spec_bit(3, wrap8(m[z.spec_hl() as int] + z.a)),
        yf: spec_bit(1, wrap8(m[z.spec_hl() as int] + z.a)),
        nf: 0,
        hf: 0,
        pf: if wrap16(z.spec_bc() - 1) != 0 {
            1
        } else {
            0
        },
        ..z
    }
}

/// State after one downward block-copy step.
pub open spec fn st_ldd(z: z80, m: Seq<u8>) -> z80 {
    z80 {
        h: hi_byte(wrap16(z.spec_hl() - 1)),
        l: lo_byte(wrap16(z.spec_hl() - 1)),
        d: hi_byte(wrap16(z.spec_de() - 1)),
        e: lo_byte(wrap16(z.spec_de() - 1)),
        ..st_ldi(z, m)
    }
}

/// Memory after one block-copy step, in either direction.
pub open spec fn st_ldi_mem(z: z80, m: Seq<u8>) -> Seq<u8> {
    m.update(z.spec_de() as int, m[z.spec_hl() as int])
}

/// State after one upward block-compare step.
pub open spec fn st_cpi(z: z80, m: Seq<u8>) -> z80 {
    z80 {
        h: hi_byte(wrap16(z.spec_hl() + 1)),
        l: lo_byte(wrap16(z.spec_hl() + 1)),
        b: hi_byte(wrap16(z.spec_bc() - 1)),
        c: lo_byte(wrap16(z.spec_bc() - 1)),
        sf: sign_of(sub_res(z.a, m[z.spec_hl() as int], 0)),
        zf: zero_of(sub_res(z.a, m[z.spec_hl() as int], 0)),
        hf: sub_hf(z.a, m[z.spec_hl() as int], 0),
        nf: 1,
        pf: if wrap16(z.spec_bc() - 1) != 0 {
            1
        } else {
            0
        },
        xf: spec_bit(
            3,
            wrap8(sub_res(z.a, m[z.spec_hl() as int], 0) - sub_hf(z.a, m[z.spec_hl() as int], 0)),
        ),
        yf: spec_bit(
            1,
            wrap8(sub_res(z.a, m[z.spec_hl() as int], 0) - sub_hf(z.a, m[z.spec_hl() as int], 0)),
        ),
        mem_ptr: wrap16(z.mem_ptr + 1),
        ..z
    }
}

/// State after one downward block-compare step.
pub open spec fn st_cpd(z: z80, m: Seq<u8>) -> z80 {
    z80 {
        h: hi_byte(wrap16(z.spec_hl() - 1)),
        l: lo_byte(wrap16(z.spec_hl() - 1)),
        mem_ptr: wrap16(z.mem_ptr - 1),
        ..st_cpi(z, m)
    }
}

/// State after one upward block-output step.
pub open spec fn st_outi(z: z80) -> z80 {
    z80 {
        h: hi_byte(wrap16(z.spec_hl() + 1)),
        l: lo_byte(wrap16(z.spec_hl() + 1)),
        b: wrap8(z.b - 1),
        zf: zero_of(wrap8(z.b - 1)),
        nf: 1,
        mem_ptr: wrap16(word_from(wrap8(z.b - 1), z.c) + 1),
        ..z
    }
}

/// State after one downward block-output step.
pub open spec fn st_outd(z: z80) -> z80 {
    z80 {
        h: hi_byte(wrap16(z.spec_hl() - 1)),
        l: lo_byte(wrap16(z.spec_hl() - 1)),
        mem_ptr: wrap16(word_from(wrap8(z.b - 1), z.c) - 2),
        ..st_outi(z)
    }
}

/// The auto-repeat of the block copies: while the byte counter is nonzero,
/// the program counter is rewound over the instruction and five extra cycles
/// are charged, so the next step fetches it again.
pub open spec fn st_repeat_copy(z1: z80) -> z80 {
    if z1.spec_bc() != 0 {
        z80 {
            pc: wrap16(z1.pc - 2),
            cyc: z1.cyc.saturating_add(5),
            mem_ptr: wrap16(wrap16(z1.pc - 2) + 1),
            ..z1
        }
    } else {
        z1
    }
}

/// The auto-repeat of the upward block compare: it also stops on a match.
pub open spec fn st_repeat_cpi(z1: z80) -> z80 {
    if z1.spec_bc() != 0 && z1.zf == 0 {
        z80 {
            pc: wrap16(z1.pc - 2),
            cyc: z1.cyc.saturating_add(5),
            mem_ptr: wrap16(wrap16(z1.pc - 2) + 1),
            ..z1
        }
    } else {
        z80 { mem_ptr: wrap16(z1.mem_ptr + 1), ..z1 }
    }
}

/// The auto-repeat of the downward block compare; the address register moves
/// only on the final iteration.
pub open spec fn st_repeat_cpd(z1: z80) -> z80 {
    if z1.spec_bc() != 0 && z1.zf == 0 {
        z80 { pc: wrap16(z1.pc - 2), cyc: z1.cyc.saturating_add(5), ..z1 }
    } else {
        z80 { mem_ptr: wrap16(z1.mem_ptr + 1), ..z1 }
    }
}

/// The auto-repeat of the upward block output.
pub open spec fn st_repeat_out(z1: z80) -> z80 {
    if z1.b > 0 {
        z80 { pc: wrap16(z1.pc - 2), cyc: z1.cyc.saturating_add(5), ..z1 }
    } else {
        z1
    }
}

/// The auto-repeat of the downward block output, which charges no extra
/// cycles.
pub open spec fn st_repeat_otdr(z1: z80) -> z80 {
    if z1.b > 0 {
        z80 { pc: wrap16(z1.pc - 2), ..z1 }
    } else {
        z1
    }
}

/// State after a nibble rotate through memory left the accumulator holding
/// `na`: all flags recomputed from it, the address register just past HL.
pub open spec fn st_rrd_flags(z: z80, na: u8) -> z80 {
    z80 {
        a: na,
        nf: 0,
        hf: 0,
        xf: spec_bit(3, na),
        yf: spec_bit(5, na),
        zf: zero_of(na),
        sf: sign_of(na),
        pf: parity_flag(na),
        mem_ptr: wrap16(z.spec_hl() + 1),
        ..z
    }
}

/// The operand slot of a bit operation: one of seven registers or the byte
/// at HL.
pub open spec fn cb_operand(z: z80, m: Seq<u8>, z_: u8) -> u8 {
    if z_ == 0 {
        z.b
    } else if z_ == 1 {
        z.c
    } else if z_ == 2 {
        z.d
    } else if z_ == 3 {
        z.e
    } else if z_ == 4 {
        z.h
    } else if z_ == 5 {
        z.l
    } else if z_ == 6 {
        m[z.spec_hl() as int]
    } else {
        z.a
    }
}

/// The rotate/shift family, selected by the sub-operation field.
pub open spec fn cb_rot(z: z80, y_: u8, v: u8) -> u8 {
    if y_ == 0 {
        rlc_res(v)
    } else if y_ == 1 {
        rrc_res(v)
    } else if y_ == 2 {
        rl_res(v, z.cf)
    } else if y_ == 3 {
        rr_res(v, z.cf)
    } else if y_ == 4 {
        sla_res(v)
    } else if y_ == 5 {
        sra_res(v)
    } else if y_ == 6 {
        sll_res(v)
    } else {
        srl_res(v)
    }
}

/// The carry each rotate/shift throws out: the top bit for the left family,
/// the bottom bit for the right family.
pub open spec fn cb_rot_cf(y_: u8, v: u8) -> u8 {
    if y_ == 0 || y_ == 2 || y_ == 4 || y_ == 6 {
        v >> 7
    } else {
        v & 1
    }
}

/// Flag state every rotate/shift produces.
pub open spec fn st_rot_flags(z: z80, r: u8, cf: u8) -> z80 {
    z80 {
        sf: sign_of(r),
        zf: zero_of(r),
        pf: parity_flag(r),
        nf: 0,
        hf: 0,
        cf: cf,
        xf: spec_bit(3, r),
        yf: spec_bit(5, r),
        ..z
    }
}

/// Flag state of the bit test.
pub open spec fn st_bit_flags(z: z80, v: u8, n: u8) -> z80 {
    z80 {
        sf: sign_of(v & (1u8 << n)),
        zf: zero_of(v & (1u8 << n)),
        yf: spec_bit(5, v),
        hf: 1,
        xf: spec_bit(3, v),
        pf: zero_of(v & (1u8 << n)),
        nf: 0,
        ..z
    }
}

/// The transformed byte a bit-operation class produces from the operand
/// byte `v` (the bit test transforms nothing).
pub open spec fn cb_result_of(z: z80, op: u8, v: u8) -> u8 {
    let x_ = (op >> 6) & 3;
    let y_ = (op >> 3) & 7;
    if x_ == 0 {
        cb_rot(z, y_, v)
    } else if x_ == 1 {
        v
    } else if x_ == 2 {
        v & !(1u8 << y_)
    } else {
        v | (1u8 << y_)
    }
}

/// The transformed byte a bit operation produces.
pub open spec fn cb_result(z: z80, m: Seq<u8>, op: u8) -> u8 {
    cb_result_of(z, op, cb_operand(z, m, op & 7))
}

/// The flag half of a bit operation: the class's flags over the operand
/// byte, including the bit test's memory-operand quirk (undocumented flags
/// from the high byte of the last computed address, and four extra cycles).
pub open spec fn cb_class_state(z: z80, op: u8, v: u8) -> z80 {
    let x_ = (op >> 6) & 3;
    let y_ = (op >> 3) & 7;
    let z_ = op & 7;
    if x_ == 0 {
        st_rot_flags(z, cb_rot(z, y_, v), cb_rot_cf(y_, v))
    } else if x_ == 1 {
        if z_ == 6 {
            z80 {
                yf: spec_bit(5, (z.mem_ptr >> 8) as u8),
                xf: spec_bit(3, (z.mem_ptr >> 8) as u8),
                cyc: z.cyc.saturating_add(4),
                ..st_bit_flags(z, v, y_)
            }
        } else {
            st_bit_flags(z, v, y_)
        }
    } else {
        z
    }
}

/// State the bit-operation decoder leaves behind: its fixed 8-cycle charge
/// and one refresh count, the class's flags, the memory-operand surcharges,
/// and the register write-back (never for the bit test).
pub open spec fn cb_effect(z: z80, m: Seq<u8>, op: u8) -> z80 {
    let zc = z80 { cyc: z.cyc.saturating_add(8), r: spec_inc_r(z.r), ..z };
    let x_ = (op >> 6) & 3;
    let z_ = op & 7;
    let v = cb_operand(zc, m, z_);
    let res = cb_result_of(zc, op, v);
    let z1 = cb_class_state(zc, op, v);
    let z2 = if (x_ == 0 || x_ == 2 || x_ == 3) && z_ == 6 {
        z80 { cyc: z1.cyc.saturating_add(7), ..z1 }
    } else {
        z1
    };
    if x_ != 1 {
        if z_ == 0 {
            z80 { b: res, ..z2 }
        } else if z_ == 1 {
            z80 { c: res, ..z2 }
        } else if z_ == 2 {
            z80 { d: res, ..z2 }
        } else if z_ == 3 {
            z80 { e: res, ..z2 }
        } else if z_ == 4 {
            z80 { h: res, ..z2 }
        } else if z_ == 5 {
            z80 { l: res, ..z2 }
        } else if z_ == 6 {
            z2
        } else {
            z80 { a: res, ..z2 }
        }
    } else {
        z2
    }
}

/// Memory after a bit operation: the memory operand is stored again by every
/// class but the bit test, which never writes back.
pub open spec fn cb_mem(z: z80, m: Seq<u8>, op: u8) -> Seq<u8> {
    let zc = z80 { cyc: z.cyc.saturating_add(8), r: spec_inc_r(z.r), ..z };
    if op & 7 == 6 && (op >> 6) & 3 != 1 {
        m.update(zc.spec_hl() as int, cb_result(zc, m, op))
    } else {
        m
    }
}

/// State the displaced bit-operation decoder leaves behind: the transformed
/// byte additionally lands in a register when the operand field names one,
/// the bit test takes its undocumented flags from the high byte of the
/// address, and a fixed cycle cost replaces the base table's.
pub open spec fn dcb_effect(z: z80, m: Seq<u8>, op: u8, addr: u16) -> z80 {
    let v = m[addr as int];
    let x_ = (op >> 6) & 3;
    let y_ = (op >> 3) & 7;
    let z_ = op & 7;
    let res = if x_ == 0 {
        cb_rot(z, y_, v)
    } else if x_ == 2 {
        v & !(1u8 << y_)
    } else {
        v | (1u8 << y_)
    };
    let z1 = if x_ == 0 {
        st_rot_flags(z, res, cb_rot_cf(y_, v))
    } else if x_ == 1 {
        z80 {
            yf: spec_bit(5, (addr >> 8) as u8),
            xf: spec_bit(3, (addr >> 8) as u8),
            ..st_bit_flags(z, v, y_)
        }
    } else {
        z
    };
    let z2 = if x_ != 1 && z_ != 6 {
        if z_ == 0 {
            z80 { b: res, ..z1 }
        } else if z_ == 1 {
            z80 { c: res, ..z1 }
        } else if z_ == 2 {
            z80 { d: res, ..z1 }
        } else if z_ == 3 {
            z80 { e: res, ..z1 }
        } else if z_ == 4 {
            z80 { h: res, ..z1 }
        } else if z_ == 5 {
            z80 { l: res, ..z1 }
        } else {
            z80 { a: res, ..z1 }
        }
    } else {
        z1
    };
    if x_ == 1 {
        z80 { cyc: z2.cyc.saturating_add(20), ..z2 }
    } else {
        z80 { cyc: z2.cyc.saturating_add(23), ..z2 }
    }
}

/// Memory after a displaced bit operation: written back for every class but
/// the bit test.
pub open spec fn dcb_mem(z: z80, m: Seq<u8>, op: u8, addr: u16) -> Seq<u8> {
    let v = m[addr as int];
    let x_ = (op >> 6) & 3;
    let y_ = (op >> 3) & 7;
    if x_ == 1 {
        m
    } else {
        m.update(
            addr as int,
            if x_ == 0 {
                cb_rot(z, y_, v)
            } else if x_ == 2 {
                v & !(1u8 << y_)
            } else {
                v | (1u8 << y_)
            },
        )
    }
}

/// The extended opcodes whose effect the processor state and memory
/// determine: everything but the port reads (the register inputs and the
/// block inputs).
pub open spec fn ed_deterministic(op: u8) -> bool {
    !(op == 0x40 || op == 0x48 || op == 0x50 || op == 0x58 || op == 0x60 || op == 0x68 || op
        == 0x70 || op == 0x78 || op == 0xA2 || op == 0xAA || op == 0xB2 || op == 0xBA)
}

/// The arm of the extended table, applied to the already charged state `zc`.
#[verifier::opaque]
pub open spec fn ed_arm_effect(zc: z80, m: Seq<u8>, op: u8) -> z80 {
    match op {
        0x42 => st_sbchl(zc, zc.spec_bc()),
        0x43 => z80 { pc: wrap16(zc.pc + 2), mem_ptr: wrap16(word_at(m, zc.pc) + 1), ..zc },
        0x44 => st_sub_a(z80 { a: 0, ..zc }, zc.a, 0),
        0x45 => z80 { iff1: zc.iff2, pc: word_at(m, zc.sp), mem_ptr: word_at(m, zc.sp), sp: wrap16(zc.sp + 2), ..zc },
        0x46 => z80 { interrupt_mode: 0, ..zc },
        0x47 => z80 { i: zc.a, ..zc },
        0x4A => st_adchl(zc, zc.spec_bc()),
        0x4B => z80 { b: hi_byte(word_at(m, word_at(m, zc.pc))), c: lo_byte(word_at(m, word_at(m, zc.pc))), pc: wrap16(zc.pc + 2), mem_ptr: wrap16(word_at(m, zc.pc) + 1), ..zc },
        0x4C => st_sub_a(z80 { a: 0, ..zc }, zc.a, 0),
        0x4D => z80 { pc: word_at(m, zc.sp), mem_ptr: word_at(m, zc.sp), sp: wrap16(zc.sp + 2), ..zc },
        0x4F => z80 { r: zc.a, ..zc },
        0x52 => st_sbchl(zc, zc.spec_de()),
        0x53 => z80 { pc: wrap16(zc.pc + 2), mem_ptr: wrap16(word_at(m, zc.pc) + 1), ..zc },
        0x54 => st_sub_a(z80 { a: 0, ..zc }, zc.a, 0),
        0x55 => z80 { iff1: zc.iff2, pc: word_at(m, zc.sp), mem_ptr: word_at(m, zc.sp), sp: wrap16(zc.sp + 2), ..zc },
        0x56 => z80 { interrupt_mode: 1, ..zc },
        0x57 => z80 { a: zc.i, sf: sign_of(zc.i), zf: zero_of(zc.i), hf: 0, nf: 0, pf: if zc.iff2 { 1 } else { 0 }, ..zc },
        0x5A => st_adchl(zc, zc.spec_de()),
        0x5B => z80 { d: hi_byte(word_at(m, word_at(m, zc.pc))), e: lo_byte(word_at(m, word_at(m, zc.pc))), pc: wrap16(zc.pc + 2), mem_ptr: wrap16(word_at(m, zc.pc) + 1), ..zc },
        0x5C => st_sub_a(z80 { a: 0, ..zc }, zc.a, 0),
        0x5D => z80 { iff1: zc.iff2, pc: word_at(m, zc.sp), mem_ptr: word_at(m, zc.sp), sp: wrap16(zc.sp + 2), ..zc },
        0x5E => z80 { interrupt_mode: 2, ..zc },
        0x5F => z80 { a: zc.r, sf: sign_of(zc.r), zf: zero_of(zc.r), hf: 0, nf: 0, pf: if zc.iff2 { 1 } else { 0 }, ..zc },
        0x62 => st_sbchl(zc, zc.spec_hl()),
        0x63 => z80 { pc: wrap16(zc.pc + 2), mem_ptr: wrap16(word_at(m, zc.pc) + 1), ..zc },
        0x64 => st_sub_a(z80 { a: 0, ..zc }, zc.a, 0),
        0x65 => z80 { iff1: zc.iff2, pc: word_at(m, zc.sp), mem_ptr: word_at(m, zc.sp), sp: wrap16(zc.sp + 2), ..zc },
        0x66 => z80 { interrupt_mode: 0, ..zc },
        0x67 => st_rrd_flags(zc, (zc.a & 0xF0) | (m[zc.spec_hl() as int] & 0xF)),
        0x6A => st_adchl(zc, zc.spec_hl()),
        0x6B => z80 { h: hi_byte(word_at(m, word_at(m, zc.pc))), l: lo_byte(word_at(m, word_at(m, zc.pc))), pc: wrap16(zc.pc + 2), mem_ptr: wrap16(word_at(m, zc.pc) + 1), ..zc },
        0x6C => st_sub_a(z80 { a: 0, ..zc }, zc.a, 0),
        0x6D => z80 { iff1: zc.iff2, pc: word_at(m, zc.sp), mem_ptr: word_at(m, zc.sp), sp: wrap16(zc.sp + 2), ..zc },
        0x6F => st_rrd_flags(zc, (zc.a & 0xF0) | (m[zc.spec_hl() as int] >> 4)),
        0x72 => st_sbchl(zc, zc.sp),
        0x73 => z80 { pc: wrap16(zc.pc + 2), mem_ptr: wrap16(word_at(m, zc.pc) + 1), ..zc },
        0x74 => st_sub_a(z80 { a: 0, ..zc }, zc.a, 0),
        0x75 => z80 { iff1: zc.iff2, pc: word_at(m, zc.sp), mem_ptr: word_at(m, zc.sp), sp: wrap16(zc.sp + 2), ..zc },
        0x76 => z80 { interrupt_mode: 1, ..zc },
        0x79 => z80 { mem_ptr: wrap16(zc.spec_bc() + 1), ..zc },
        0x7A => st_adchl(zc, zc.sp),
        0x7B => z80 { sp: word_at(m, word_at(m, zc.pc)), pc: wrap16(zc.pc + 2), mem_ptr: wrap16(word_at(m, zc.pc) + 1), ..zc },
        0x7C => st_sub_a(z80 { a: 0, ..zc }, zc.a, 0),
        0x7D => z80 { iff1: zc.iff2, pc: word_at(m, zc.sp), mem_ptr: word_at(m, zc.sp), sp: wrap16(zc.sp + 2), ..zc },
        0x7E => z80 { interrupt_mode: 2, ..zc },
        0xA0 => st_ldi(zc, m),
        0xA1 => st_cpi(zc, m),
        0xA3 => st_outi(zc),
        0xA8 => st_ldd(zc, m),
        0xA9 => st_cpd(zc, m),
        0xAB => st_outd(zc),
        0xB0 => st_repeat_copy(st_ldi(zc, m)),
        0xB1 => st_repeat_cpi(st_cpi(zc, m)),
        0xB3 => st_repeat_out(st_outi(zc)),
        0xB8 => st_repeat_copy(st_ldd(zc, m)),
        0xB9 => st_repeat_cpd(st_cpd(zc, m)),
        0xBB => st_repeat_otdr(st_outd(zc)),
        _ => zc,
    }
}

/// Memory after the arm of the extended table, from the charged state `zc`.
#[verifier::opaque]
pub open spec fn ed_arm_mem(zc: z80, m: Seq<u8>, op: u8) -> Seq<u8> {
    match op {
        0x43 => written_word(m, word_at(m, zc.pc), zc.spec_bc()),
        0x53 => written_word(m, word_at(m, zc.pc), zc.spec_de()),
        0x63 => written_word(m, word_at(m, zc.pc), zc.spec_hl()),
        0x67 => m.update(zc.spec_hl() as int, (m[zc.spec_hl() as int] >> 4) | (zc.a << 4)),
        0x6F => m.update(zc.spec_hl() as int, (m[zc.spec_hl() as int] << 4) | (zc.a & 0xF)),
        0x73 => written_word(m, word_at(m, zc.pc), zc.sp),
        0xA0 => st_ldi_mem(zc, m),
        0xA8 => st_ldi_mem(zc, m),
        0xB0 => st_ldi_mem(zc, m),
        0xB8 => st_ldi_mem(zc, m),
        _ => m,
    }
}

/// State the extended decoder leaves behind, for its deterministic opcodes:
/// its cycle charge, one refresh count, and the opcode's arm. An opcode
/// outside the table changes nothing beyond the charge and the count.
pub open spec fn ed_effect(z: z80, m: Seq<u8>, op: u8) -> z80 {
    ed_arm_effect(charged(z, spec_cyc_ed(op)), m, op)
}

/// Memory after an extended opcode, for the deterministic opcodes.
pub open spec fn ed_mem(z: z80, m: Seq<u8>, op: u8) -> Seq<u8> {
    ed_arm_mem(charged(z, spec_cyc_ed(op)), m, op)
}

/// The base decoder's dispatch into the bit-operation table: fetch the
/// second byte, run that decoder, and count the refresh register once for
/// the whole instruction.
pub open spec fn st_after_cb(zc: z80, m: Seq<u8>) -> z80 {
    let z1 = z80 { pc: wrap16(zc.pc + 1), ..zc };
    z80 { r: spec_dec_r(cb_effect(z1, m, m[zc.pc as int]).r), ..cb_effect(z1, m, m[zc.pc as int]) }
}

/// The base decoder's dispatch into the extended table, refresh counted once
/// for the whole instruction.
pub open spec fn st_after_ed(zc: z80, m: Seq<u8>) -> z80 {
    let z1 = z80 { pc: wrap16(zc.pc + 1), ..zc };
    z80 { r: spec_dec_r(ed_effect(z1, m, m[zc.pc as int]).r), ..ed_effect(z1, m, m[zc.pc as int]) }
}

/// The base opcodes whose effect the processor state and memory determine:
/// everything but the port read, the index prefixes (whose chains the bus
/// contents bound), and an extended dispatch onto a port read.
pub open spec fn base_deterministic(z: z80, m: Seq<u8>, op: u8) -> bool {
    op != 0xDB && op != 0xDD && op != 0xFD && (op == 0xED ==> ed_deterministic(m[z.pc as int]))
}

/// The arm of the base table, applied to the already charged state `zc`, opcodes 0x00 through 0x0F.
#[verifier::opaque]
pub open spec fn base_arm_effect_x00(zc: z80, m: Seq<u8>, op: u8) -> z80 {
    match op {
        0x01 => z80 { b: hi_byte(word_at(m, zc.pc)), c: lo_byte(word_at(m, zc.pc)), pc: wrap16(zc.pc + 2), ..zc },
        0x02 => z80 { mem_ptr: ((zc.a as u16) << 8) | (wrap16(zc.spec_bc() + 1) & 0xFF), ..zc },
        0x03 => z80 { b: hi_byte(wrap16(zc.spec_bc() + 1)), c: lo_byte(wrap16(zc.spec_bc() + 1)), ..zc },
        0x04 => z80 { b: add_res(zc.b, 1, 0), ..st_inc_flags(zc, zc.b) },
        0x05 => z80 { b: sub_res(zc.b, 1, 0), ..st_dec_flags(zc, zc.b) },
        0x06 => z80 { b: m[zc.pc as int], pc: wrap16(zc.pc + 1), ..zc },
        0x07 => z80 { a: (zc.a << 1) | (zc.a >> 7), cf: zc.a >> 7, nf: 0, hf: 0, xf: spec_bit(3, (zc.a << 1) | (zc.a >> 7)), yf: spec_bit(5, (zc.a << 1) | (zc.a >> 7)), ..zc },
        0x08 => z80 { a: zc.a_, a_: zc.a, f_: zc.spec_f(), cf: spec_bit(0, zc.f_), nf: spec_bit(1, zc.f_), pf: spec_bit(2, zc.f_), xf: spec_bit(3, zc.f_), hf: spec_bit(4, zc.f_), yf: spec_bit(5, zc.f_), zf: spec_bit(6, zc.f_), sf: spec_bit(7, zc.f_), ..zc },
        0x09 => st_addhl(zc, zc.spec_bc()),
        0x0A => z80 { a: m[zc.spec_bc() as int], mem_ptr: wrap16(zc.spec_bc() + 1), ..zc },
        0x0B => z80 { b: hi_byte(wrap16(zc.spec_bc() - 1)), c: lo_byte(wrap16(zc.spec_bc() - 1)), ..zc },
        0x0C => z80 { c: add_res(zc.c, 1, 0), ..st_inc_flags(zc, zc.c) },
        0x0D => z80 { c: sub_res(zc.c, 1, 0), ..st_dec_flags(zc, zc.c) },
        0x0E => z80 { c: m[zc.pc as int], pc: wrap16(zc.pc + 1), ..zc },
        0x0F => z80 { a: (zc.a >> 1) | ((zc.a & 1) << 7), cf: zc.a & 1, nf: 0, hf: 0, xf: spec_bit(3, (zc.a >> 1) | ((zc.a & 1) << 7)), yf: spec_bit(5, (zc.a >> 1) | ((zc.a & 1) << 7)), ..zc },
        _ => zc,
    }
}

/// The arm of the base table, applied to the already charged state `zc`, opcodes 0x10 through 0x1F.
#[verifier::opaque]
pub open spec fn base_arm_effect_x10(zc: z80, m: Seq<u8>, op: u8) -> z80 {
    match op {
        0x10 => if wrap8(zc.b - 1) != 0 { z80 { b: wrap8(zc.b - 1), pc: wrap16(wrap16(zc.pc + 1) + (m[zc.pc as int] as i8) as u16), mem_ptr: wrap16(wrap16(zc.pc + 1) + (m[zc.pc as int] as i8) as u16), cyc: zc.cyc.saturating_add(5), ..zc } } else { z80 { b: wrap8(zc.b - 1), pc: wrap16(zc.pc + 1), ..zc } },
        0x11 => z80 { d: hi_byte(word_at(m, zc.pc)), e: lo_byte(word_at(m, zc.pc)), pc: wrap16(zc.pc + 2), ..zc },
        0x12 => z80 { mem_ptr: ((zc.a as u16) << 8) | (wrap16(zc.spec_de() + 1) & 0xFF), ..zc },
        0x13 => z80 { d: hi_byte(wrap16(zc.spec_de() + 1)), e: lo_byte(wrap16(zc.spec_de() + 1)), ..zc },
        0x14 => z80 { d: add_res(zc.d, 1, 0), ..st_inc_flags(zc, zc.d) },
        0x15 => z80 { d: sub_res(zc.d, 1, 0), ..st_dec_flags(zc, zc.d) },
        0x16 => z80 { d: m[zc.pc as int], pc: wrap16(zc.pc + 1), ..zc },
        0x17 => z80 { a: (zc.a << 1) | (zc.cf & 1), cf: zc.a >> 7, nf: 0, hf: 0, xf: spec_bit(3, (zc.a << 1) | (zc.cf & 1)), yf: spec_bit(5, (zc.a << 1) | (zc.cf & 1)), ..zc },
        0x18 => z80 { pc: wrap16(wrap16(zc.pc + 1) + (m[zc.pc as int] as i8) as u16), ..zc },
        0x19 => st_addhl(zc, zc.spec_de()),
        0x1A => z80 { a: m[zc.spec_de() as int], mem_ptr: wrap16(zc.spec_de() + 1), ..zc },
        0x1B => z80 { d: hi_byte(wrap16(zc.spec_de() - 1)), e: lo_byte(wrap16(zc.spec_de() - 1)), ..zc },
        0x1C => z80 { e: add_res(zc.e, 1, 0), ..st_inc_flags(zc, zc.e) },
        0x1D => z80 { e: sub_res(zc.e, 1, 0), ..st_dec_flags(zc, zc.e) },
        0x1E => z80 { e: m[zc.pc as int], pc: wrap16(zc.pc + 1), ..zc },
        0x1F => z80 { a: (zc.a >> 1) | ((zc.cf & 1) << 7), cf: zc.a & 1, nf: 0, hf: 0, xf: spec_bit(3, (zc.a >> 1) | ((zc.cf & 1) << 7)), yf: spec_bit(5, (zc.a >> 1) | ((zc.cf & 1) << 7)), ..zc },
        _ => zc,
    }
}

/// The arm of the base table, applied to the already charged state `zc`, opcodes 0x20 through 0x2F.
#[verifier::opaque]
pub open spec fn base_arm_effect_x20(zc: z80, m: Seq<u8>, op: u8) -> z80 {
    match op {
        0x20 => if zc.zf == 0 { z80 { pc: wrap16(wrap16(zc.pc + 1) + (m[zc.pc as int] as i8) as u16), mem_ptr: wrap16(wrap16(zc.pc + 1) + (m[zc.pc as int] as i8) as u16), cyc: zc.cyc.saturating_add(5), ..zc } } else { z80 { pc: wrap16(zc.pc + 1), ..zc } },
        0x21 => z80 { h: hi_byte(word_at(m, zc.pc)), l: lo_byte(word_at(m, zc.pc)), pc: wrap16(zc.pc + 2), ..zc },
        0x22 => z80 { pc: wrap16(zc.pc + 2), mem_ptr: wrap16(word_at(m, zc.pc) + 1), ..zc },
        0x23 => z80 { h: hi_byte(wrap16(zc.spec_hl() + 1)), l: lo_byte(wrap16(zc.spec_hl() + 1)), ..zc },
        0x24 => z80 { h: add_res(zc.h, 1, 0), ..st_inc_flags(zc, zc.h) },
        0x25 => z80 { h: sub_res(zc.h, 1, 0), ..st_dec_flags(zc, zc.h) },
        0x26 => z80 { h: m[zc.pc as int], pc: wrap16(zc.pc + 1), ..zc },
        0x27 => st_daa(zc),
        0x28 => if zc.zf == 1 { z80 { pc: wrap16(wrap16(zc.pc + 1) + (m[zc.pc as int] as i8) as u16), mem_ptr: wrap16(wrap16(zc.pc + 1) + (m[zc.pc as int] as i8) as u16), cyc: zc.cyc.saturating_add(5), ..zc } } else { z80 { pc: wrap16(zc.pc + 1), ..zc } },
        0x29 => st_addhl(zc, zc.spec_hl()),
        0x2A => z80 { h: hi_byte(word_at(m, word_at(m, zc.pc))), l: lo_byte(word_at(m, word_at(m, zc.pc))), pc: wrap16(zc.pc + 2), mem_ptr: wrap16(word_at(m, zc.pc) + 1), ..zc },
        0x2B => z80 { h: hi_byte(wrap16(zc.spec_hl() - 1)), l: lo_byte(wrap16(zc.spec_hl() - 1)), ..zc },
        0x2C => z80 { l: add_res(zc.l, 1, 0), ..st_inc_flags(zc, zc.l) },
        0x2D => z80 { l: sub_res(zc.l, 1, 0), ..st_dec_flags(zc, zc.l) },
        0x2E => z80 { l: m[zc.pc as int], pc: wrap16(zc.pc + 1), ..zc },
        0x2F => z80 { a: !zc.a, nf: 1, hf: 1, xf: spec_bit(3, !zc.a), yf: spec_bit(5, !zc.a), ..zc },
        _ => zc,
    }
}

/// The arm of the base table, applied to the already charged state `zc`, opcodes 0x30 through 0x3F.
#[verifier::opaque]
pub open spec fn base_arm_effect_x30(zc: z80, m: Seq<u8>, op: u8) -> z80 {
    match op {
        0x30 => if zc.cf == 0 { z80 { pc: wrap16(wrap16(zc.pc + 1) + (m[zc.pc as int] as i8) as u16), mem_ptr: wrap16(wrap16(zc.pc + 1) + (m[zc.pc as int] as i8) as u16), cyc: zc.cyc.saturating_add(5), ..zc } } else { z80 { pc: wrap16(zc.pc + 1), ..zc } },
        0x31 => z80 { sp: word_at(m, zc.pc), pc: wrap16(zc.pc + 2), ..zc },
        0x32 => z80 { pc: wrap16(zc.pc + 2), mem_ptr: ((zc.a as u16) << 8) | (wrap16(word_at(m, zc.pc) + 1) & 0xFF), ..zc },
        0x33 => z80 { sp: wrap16(zc.sp + 1), ..zc },
        0x34 => st_inc_flags(zc, m[zc.spec_hl() as int]),
        0x35 => st_dec_flags(zc, m[zc.spec_hl() as int]),
        0x36 => z80 { pc: wrap16(zc.pc + 1), ..zc },
        0x37 => z80 { cf: 1, nf: 0, hf: 0, xf: spec_bit(3, zc.a), yf: spec_bit(5, zc.a), ..zc },
        0x38 => if zc.cf == 1 { z80 { pc: wrap16(wrap16(zc.pc + 1) + (m[zc.pc as int] as i8) as u16), mem_ptr: wrap16(wrap16(zc.pc + 1) + (m[zc.pc as int] as i8) as u16), cyc: zc.cyc.saturating_add(5), ..zc } } else { z80 { pc: wrap16(zc.pc + 1), ..zc } },
        0x39 => st_addhl(zc, zc.sp),
        0x3A => z80 { a: m[word_at(m, zc.pc) as int], pc: wrap16(zc.pc + 2), mem_ptr: wrap16(word_at(m, zc.pc) + 1), ..zc },
        0x3B => z80 { sp: wrap16(zc.sp - 1), ..zc },
        0x3C => z80 { a: add_res(zc.a, 1, 0), ..st_inc_flags(zc, zc.a) },
        0x3D => z80 { a: sub_res(zc.a, 1, 0), ..st_dec_flags(zc, zc.a) },
        0x3E => z80 { a: m[zc.pc as int], pc: wrap16(zc.pc + 1), ..zc },
        0x3F => z80 { hf: zc.cf, cf: flag_not(zc.cf), nf: 0, xf: spec_bit(3, zc.a), yf: spec_bit(5, zc.a), ..zc },
        _ => zc,
    }
}

/// The arm of the base table, applied to the already charged state `zc`, opcodes 0x40 through 0x4F.
#[verifier::opaque]
pub open spec fn base_arm_effect_x40(zc: z80, m: Seq<u8>, op: u8) -> z80 {
    match op {
        0x41 => z80 { b: zc.c, ..zc },
        0x42 => z80 { b: zc.d, ..zc },
        0x43 => z80 { b: zc.e, ..zc },
        0x44 => z80 { b: zc.h, ..zc },
        0x45 => z80 { b: zc.l, ..zc },
        0x46 => z80 { b: m[zc.spec_hl() as int], ..zc },
        0x47 => z80 { b: zc.a, ..zc },
        0x48 => z80 { c: zc.b, ..zc },
        0x4A => z80 { c: zc.d, ..zc },
        0x4B => z80 { c: zc.e, ..zc },
        0x4C => z80 { c: zc.h, ..zc },
        0x4D => z80 { c: zc.l, ..zc },
        0x4E => z80 { c: m[zc.spec_hl() as int], ..zc },
        0x4F => z80 { c: zc.a, ..zc },
        _ => zc,
    }
}

/// The arm of the base table, applied to the already charged state `zc`, opcodes 0x50 through 0x5F.
#[verifier::opaque]
pub open spec fn base_arm_effect_x50(zc: z80, m: Seq<u8>, op: u8) -> z80 {
    match op {
        0x50 => z80 { d: zc.b, ..zc },
        0x51 => z80 { d: zc.c, ..zc },
        0x53 => z80 { d: zc.e, ..zc },
        0x54 => z80 { d: zc.h, ..zc },
        0x55 => z80 { d: zc.l, ..zc },
        0x56 => z80 { d: m[zc.spec_hl() as int], ..zc },
        0x57 => z80 { d: zc.a, ..zc },
        0x58 => z80 { e: zc.b, ..zc },
        0x59 => z80 { e: zc.c, ..zc },
        0x5A => z80 { e: zc.d, ..zc },
        0x5C => z80 { e: zc.h, ..zc },
        0x5D => z80 { e: zc.l, ..zc },
        0x5E => z80 { e: m[zc.spec_hl() as int], ..zc },
        0x5F => z80 { e: zc.a, ..zc },
        _ => zc,
    }
}

/// The arm of the base table, applied to the already charged state `zc`, opcodes 0x60 through 0x6F.
#[verifier::opaque]
pub open spec fn base_arm_effect_x60(zc: z80, m: Seq<u8>, op: u8) -> z80 {
    match op {
        0x60 => z80 { h: zc.b, ..zc },
        0x61 => z80 { h: zc.c, ..zc },
        0x62 => z80 { h: zc.d, ..zc },
        0x63 => z80 { h: zc.e, ..zc },
        0x65 => z80 { h: zc.l, ..zc },
        0x66 => z80 { h: m[zc.spec_hl() as int], ..zc },
        0x67 => z80 { h: zc.a, ..zc },
        0x68 => z80 { l: zc.b, ..zc },
        0x69 => z80 { l: zc.c, ..zc },
        0x6A => z80 { l: zc.d, ..zc },
        0x6B => z80 { l: zc.e, ..zc },
        0x6C => z80 { l: zc.h, ..zc },
        0x6E => z80 { l: m[zc.spec_hl() as int], ..zc },
        0x6F => z80 { l: zc.a, ..zc },
        _ => zc,
    }
}

/// The arm of the base table, applied to the already charged state `zc`, opcodes 0x70 through 0x7F.
#[verifier::opaque]
pub open spec fn base_arm_effect_x70(zc: z80, m: Seq<u8>, op: u8) -> z80 {
    match op {
        0x76 => z80 { halted: true, ..zc },
        0x78 => z80 { a: zc.b, ..zc },
        0x79 => z80 { a: zc.c, ..zc },
        0x7A => z80 { a: zc.d, ..zc },
        0x7B => z80 { a: zc.e, ..zc },
        0x7C => z80 { a: zc.h, ..zc },
        0x7D => z80 { a: zc.l, ..zc },
        0x7E => z80 { a: m[zc.spec_hl() as int], ..zc },
        _ => zc,
    }
}

/// The arm of the base table, applied to the already charged state `zc`, opcodes 0x80 through 0x8F.
#[verifier::opaque]
pub open spec fn base_arm_effect_x80(zc: z80, m: Seq<u8>, op: u8) -> z80 {
    match op {
        0x80 => st_add_a(zc, zc.b, 0),
        0x81 => st_add_a(zc, zc.c, 0),
        0x82 => st_add_a(zc, zc.d, 0),
        0x83 => st_add_a(zc, zc.e, 0),
        0x84 => st_add_a(zc, zc.h, 0),
        0x85 => st_add_a(zc, zc.l, 0),
        0x86 => st_add_a(zc, m[zc.spec_hl() as int], 0),
        0x87 => st_add_a(zc, zc.a, 0),
        0x88 => st_add_a(zc, zc.b, zc.cf),
        0x89 => st_add_a(zc, zc.c, zc.cf),
        0x8A => st_add_a(zc, zc.d, zc.cf),
        0x8B => st_add_a(zc, zc.e, zc.cf),
        0x8C => st_add_a(zc, zc.h, zc.cf),
        0x8D => st_add_a(zc, zc.l, zc.cf),
        0x8E => st_add_a(zc, m[zc.spec_hl() as int], zc.cf),
        0x8F => st_add_a(zc, zc.a, zc.cf),
        _ => zc,
    }
}

/// The arm of the base table, applied to the already charged state `zc`, opcodes 0x90 through 0x9F.
#[verifier::opaque]
pub open spec fn base_arm_effect_x90(zc: z80, m: Seq<u8>, op: u8) -> z80 {
    match op {
        0x90 => st_sub_a(zc, zc.b, 0),
        0x91 => st_sub_a(zc, zc.c, 0),
        0x92 => st_sub_a(zc, zc.d, 0),
        0x93 => st_sub_a(zc, zc.e, 0),
        0x94 => st_sub_a(zc, zc.h, 0),
        0x95 => st_sub_a(zc, zc.l, 0),
        0x96 => st_sub_a(zc, m[zc.spec_hl() as int], 0),
        0x97 => st_sub_a(zc, zc.a, 0),
        0x98 => st_sub_a(zc, zc.b, zc.cf),
        0x99 => st_sub_a(zc, zc.c, zc.cf),
        0x9A => st_sub_a(zc, zc.d, zc.cf),
        0x9B => st_sub_a(zc, zc.e, zc.cf),
        0x9C => st_sub_a(zc, zc.h, zc.cf),
        0x9D => st_sub_a(zc, zc.l, zc.cf),
        0x9E => st_sub_a(zc, m[zc.spec_hl() as int], zc.cf),
        0x9F => st_sub_a(zc, zc.a, zc.cf),
        _ => zc,
    }
}

/// The arm of the base table, applied to the already charged state `zc`, opcodes 0xA0 through 0xAF.
#[verifier::opaque]
pub open spec fn base_arm_effect_xa0(zc: z80, m: Seq<u8>, op: u8) -> z80 {
    match op {
        0xA0 => st_and_a(zc, zc.b),
        0xA1 => st_and_a(zc, zc.c),
        0xA2 => st_and_a(zc, zc.d),
        0xA3 => st_and_a(zc, zc.e),
        0xA4 => st_and_a(zc, zc.h),
        0xA5 => st_and_a(zc, zc.l),
        0xA6 => st_and_a(zc, m[zc.spec_hl() as int]),
        0xA7 => st_and_a(zc, zc.a),
        0xA8 => st_xor_a(zc, zc.b),
        0xA9 => st_xor_a(zc, zc.c),
        0xAA => st_xor_a(zc, zc.d),
        0xAB => st_xor_a(zc, zc.e),
        0xAC => st_xor_a(zc, zc.h),
        0xAD => st_xor_a(zc, zc.l),
        0xAE => st_xor_a(zc, m[zc.spec_hl() as int]),
        0xAF => st_xor_a(zc, zc.a),
        _ => zc,
    }
}

/// The arm of the base table, applied to the already charged state `zc`, opcodes 0xB0 through 0xBF.
#[verifier::opaque]
pub open spec fn base_arm_effect_xb0(zc: z80, m: Seq<u8>, op: u8) -> z80 {
    match op {
        0xB0 => st_or_a(zc, zc.b),
        0xB1 => st_or_a(zc, zc.c),
        0xB2 => st_or_a(zc, zc.d),
        0xB3 => st_or_a(zc, zc.e),
        0xB4 => st_or_a(zc, zc.h),
        0xB5 => st_or_a(zc, zc.l),
        0xB6 => st_or_a(zc, m[zc.spec_hl() as int]),
        0xB7 => st_or_a(zc, zc.a),
        0xB8 => st_cp_a(zc, zc.b),
        0xB9 => st_cp_a(zc, zc.c),
        0xBA => st_cp_a(zc, zc.d),
        0xBB => st_cp_a(zc, zc.e),
        0xBC => st_cp_a(zc, zc.h),
        0xBD => st_cp_a(zc, zc.l),
        0xBE => st_cp_a(zc, m[zc.spec_hl() as int]),
        0xBF => st_cp_a(zc, zc.a),
        _ => zc,
    }
}

/// The arm of the base table, applied to the already charged state `zc`, opcodes 0xC0 through 0xCF.
#[verifier::opaque]
pub open spec fn base_arm_effect_xc0(zc: z80, m: Seq<u8>, op: u8) -> z80 {
    match op {
        0xC0 => if zc.zf == 0 { z80 { pc: word_at(m, zc.sp), mem_ptr: word_at(m, zc.sp), sp: wrap16(zc.sp + 2), cyc: zc.cyc.saturating_add(6), ..zc } } else { zc },
        0xC1 => z80 { b: hi_byte(word_at(m, zc.sp)), c: lo_byte(word_at(m, zc.sp)), sp: wrap16(zc.sp + 2), ..zc },
        0xC2 => z80 { pc: if zc.zf == 0 { word_at(m, zc.pc) } else { wrap16(zc.pc + 2) }, mem_ptr: word_at(m, zc.pc), ..zc },
        0xC3 => z80 { pc: word_at(m, zc.pc), mem_ptr: word_at(m, zc.pc), ..zc },
        0xC4 => z80 { pc: if zc.zf == 0 { word_at(m, zc.pc) } else { wrap16(zc.pc + 2) }, mem_ptr: word_at(m, zc.pc), sp: if zc.zf == 0 { wrap16(zc.sp - 2) } else { zc.sp }, cyc: if zc.zf == 0 { zc.cyc.saturating_add(7) } else { zc.cyc }, ..zc },
        0xC5 => z80 { sp: wrap16(zc.sp - 2), ..zc },
        0xC6 => z80 { pc: wrap16(zc.pc + 1), ..st_add_a(zc, m[zc.pc as int], 0) },
        0xC7 => z80 { pc: 0x00, mem_ptr: 0x00, sp: wrap16(zc.sp - 2), ..zc },
        0xC8 => if zc.zf == 1 { z80 { pc: word_at(m, zc.sp), mem_ptr: word_at(m, zc.sp), sp: wrap16(zc.sp + 2), cyc: zc.cyc.saturating_add(6), ..zc } } else { zc },
        0xC9 => z80 { pc: word_at(m, zc.sp), mem_ptr: word_at(m, zc.sp), sp: wrap16(zc.sp + 2), ..zc },
        0xCA => z80 { pc: if zc.zf == 1 { word_at(m, zc.pc) } else { wrap16(zc.pc + 2) }, mem_ptr: word_at(m, zc.pc), ..zc },
        0xCB => st_after_cb(zc, m),
        0xCC => z80 { pc: if zc.zf == 1 { word_at(m, zc.pc) } else { wrap16(zc.pc + 2) }, mem_ptr: word_at(m, zc.pc), sp: if zc.zf == 1 { wrap16(zc.sp - 2) } else { zc.sp }, cyc: if zc.zf == 1 { zc.cyc.saturating_add(7) } else { zc.cyc }, ..zc },
        0xCD => z80 { pc: word_at(m, zc.pc), mem_ptr: word_at(m, zc.pc), sp: wrap16(zc.sp - 2), ..zc },
        0xCE => z80 { pc: wrap16(zc.pc + 1), ..st_add_a(zc, m[zc.pc as int], zc.cf) },
        0xCF => z80 { pc: 0x08, mem_ptr: 0x08, sp: wrap16(zc.sp - 2), ..zc },
        _ => zc,
    }
}

/// The arm of the base table, applied to the already charged state `zc`, opcodes 0xD0 through 0xDF.
#[verifier::opaque]
pub open spec fn base_arm_effect_xd0(zc: z80, m: Seq<u8>, op: u8) -> z80 {
    match op {
        0xD0 => if zc.cf == 0 { z80 { pc: word_at(m, zc.sp), mem_ptr: word_at(m, zc.sp), sp: wrap16(zc.sp + 2), cyc: zc.cyc.saturating_add(6), ..zc } } else { zc },
        0xD1 => z80 { d: hi_byte(word_at(m, zc.sp)), e: lo_byte(word_at(m, zc.sp)), sp: wrap16(zc.sp + 2), ..zc },
        0xD2 => z80 { pc: if zc.cf == 0 { word_at(m, zc.pc) } else { wrap16(zc.pc + 2) }, mem_ptr: word_at(m, zc.pc), ..zc },
        0xD3 => z80 { pc: wrap16(zc.pc + 1), mem_ptr: ((m[zc.pc as int] as u16 + 1) as u16) | ((zc.a as u16) << 8), ..zc },
        0xD4 => z80 { pc: if zc.cf == 0 { word_at(m, zc.pc) } else { wrap16(zc.pc + 2) }, mem_ptr: word_at(m, zc.pc), sp: if zc.cf == 0 { wrap16(zc.sp - 2) } else { zc.sp }, cyc: if zc.cf == 0 { zc.cyc.saturating_add(7) } else { zc.cyc }, ..zc },
        0xD5 => z80 { sp: wrap16(zc.sp - 2), ..zc },
        0xD6 => z80 { pc: wrap16(zc.pc + 1), ..st_sub_a(zc, m[zc.pc as int], 0) },
        0xD7 => z80 { pc: 0x10, mem_ptr: 0x10, sp: wrap16(zc.sp - 2), ..zc },
        0xD8 => if zc.cf == 1 { z80 { pc: word_at(m, zc.sp), mem_ptr: word_at(m, zc.sp), sp: wrap16(zc.sp + 2), cyc: zc.cyc.saturating_add(6), ..zc } } else { zc },
        0xD9 => z80 { b: zc.b_, c: zc.c_, d: zc.d_, e: zc.e_, h: zc.h_, l: zc.l_, b_: zc.b, c_: zc.c, d_: zc.d, e_: zc.e, h_: zc.h, l_: zc.l, ..zc },
        0xDA => z80 { pc: if zc.cf == 1 { word_at(m, zc.pc) } else { wrap16(zc.pc + 2) }, mem_ptr: word_at(m, zc.pc), ..zc },
        0xDC => z80 { pc: if zc.cf == 1 { word_at(m, zc.pc) } else { wrap16(zc.pc + 2) }, mem_ptr: word_at(m, zc.pc), sp: if zc.cf == 1 { wrap16(zc.sp - 2) } else { zc.sp }, cyc: if zc.cf == 1 { zc.cyc.saturating_add(7) } else { zc.cyc }, ..zc },
        0xDE => z80 { pc: wrap16(zc.pc + 1), ..st_sub_a(zc, m[zc.pc as int], zc.cf) },
        0xDF => z80 { pc: 0x18, mem_ptr: 0x18, sp: wrap16(zc.sp - 2), ..zc },
        _ => zc,
    }
}

/// The arm of the base table, applied to the already charged state `zc`, opcodes 0xE0 through 0xEF.
#[verifier::opaque]
pub open spec fn base_arm_effect_xe0(zc: z80, m: Seq<u8>, op: u8) -> z80 {
    match op {
        0xE0 => if zc.pf == 0 { z80 { pc: word_at(m, zc.sp), mem_ptr: word_at(m, zc.sp), sp: wrap16(zc.sp + 2), cyc: zc.cyc.saturating_add(6), ..zc } } else { zc },
        0xE1 => z80 { h: hi_byte(word_at(m, zc.sp)), l: lo_byte(word_at(m, zc.sp)), sp: wrap16(zc.sp + 2), ..zc },
        0xE2 => z80 { pc: if zc.pf == 0 { word_at(m, zc.pc) } else { wrap16(zc.pc + 2) }, mem_ptr: word_at(m, zc.pc), ..zc },
        0xE3 => z80 { h: hi_byte(word_at(m, zc.sp)), l: lo_byte(word_at(m, zc.sp)), mem_ptr: word_at(m, zc.sp), ..zc },
        0xE4 => z80 { pc: if zc.pf == 0 { word_at(m, zc.pc) } else { wrap16(zc.pc + 2) }, mem_ptr: word_at(m, zc.pc), sp: if zc.pf == 0 { wrap16(zc.sp - 2) } else { zc.sp }, cyc: if zc.pf == 0 { zc.cyc.saturating_add(7) } else { zc.cyc }, ..zc },
        0xE5 => z80 { sp: wrap16(zc.sp - 2), ..zc },
        0xE6 => z80 { pc: wrap16(zc.pc + 1), ..st_and_a(zc, m[zc.pc as int]) },
        0xE7 => z80 { pc: 0x20, mem_ptr: 0x20, sp: wrap16(zc.sp - 2), ..zc },
        0xE8 => if zc.pf == 1 { z80 { pc: word_at(m, zc.sp), mem_ptr: word_at(m, zc.sp), sp: wrap16(zc.sp + 2), cyc: zc.cyc.saturating_add(6), ..zc } } else { zc },
        0xE9 => z80 { pc: zc.spec_hl(), ..zc },
        0xEA => z80 { pc: if zc.pf == 1 { word_at(m, zc.pc) } else { wrap16(zc.pc + 2) }, mem_ptr: word_at(m, zc.pc), ..zc },
        0xEB => z80 { d: zc.h, e: zc.l, h: zc.d, l: zc.e, ..zc },
        0xEC => z80 { pc: if zc.pf == 1 { word_at(m, zc.pc) } else { wrap16(zc.pc + 2) }, mem_ptr: word_at(m, zc.pc), sp: if zc.pf == 1 { wrap16(zc.sp - 2) } else { zc.sp }, cyc: if zc.pf == 1 { zc.cyc.saturating_add(7) } else { zc.cyc }, ..zc },
        0xED => st_after_ed(zc, m),
        0xEE => z80 { pc: wrap16(zc.pc + 1), ..st_xor_a(zc, m[zc.pc as int]) },
        0xEF => z80 { pc: 0x28, mem_ptr: 0x28, sp: wrap16(zc.sp - 2), ..zc },
        _ => zc,
    }
}

/// The arm of the base table, applied to the already charged state `zc`, opcodes 0xF0 through 0xFF.
#[verifier::opaque]
pub open spec fn base_arm_effect_xf0(zc: z80, m: Seq<u8>, op: u8) -> z80 {
    match op {
        0xF0 => if zc.sf == 0 { z80 { pc: word_at(m, zc.sp), mem_ptr: word_at(m, zc.sp), sp: wrap16(zc.sp + 2), cyc: zc.cyc.saturating_add(6), ..zc } } else { zc },
        0xF1 => z80 { a: hi_byte(word_at(m, zc.sp)), sp: wrap16(zc.sp + 2), cf: spec_bit(0, lo_byte(word_at(m, zc.sp))), nf: spec_bit(1, lo_byte(word_at(m, zc.sp))), pf: spec_bit(2, lo_byte(word_at(m, zc.sp))), xf: spec_bit(3, lo_byte(word_at(m, zc.sp))), hf: spec_bit(4, lo_byte(word_at(m, zc.sp))), yf: spec_bit(5, lo_byte(word_at(m, zc.sp))), zf: spec_bit(6, lo_byte(word_at(m, zc.sp))), sf: spec_bit(7, lo_byte(word_at(m, zc.sp))), ..zc },
        0xF2 => z80 { pc: if zc.sf == 0 { word_at(m, zc.pc) } else { wrap16(zc.pc + 2) }, mem_ptr: word_at(m, zc.pc), ..zc },
        0xF3 => z80 { iff1: false, iff2: false, ..zc },
        0xF4 => z80 { pc: if zc.sf == 0 { word_at(m, zc.pc) } else { wrap16(zc.pc + 2) }, mem_ptr: word_at(m, zc.pc), sp: if zc.sf == 0 { wrap16(zc.sp - 2) } else { zc.sp }, cyc: if zc.sf == 0 { zc.cyc.saturating_add(7) } else { zc.cyc }, ..zc },
        0xF5 => z80 { sp: wrap16(zc.sp - 2), ..zc },
        0xF6 => z80 { pc: wrap16(zc.pc + 1), ..st_or_a(zc, m[zc.pc as int]) },
        0xF7 => z80 { pc: 0x30, mem_ptr: 0x30, sp: wrap16(zc.sp - 2), ..zc },
        0xF8 => if zc.sf == 1 { z80 { pc: word_at(m, zc.sp), mem_ptr: word_at(m, zc.sp), sp: wrap16(zc.sp + 2), cyc: zc.cyc.saturating_add(6), ..zc } } else { zc },
        0xF9 => z80 { sp: zc.spec_hl(), ..zc },
        0xFA => z80 { pc: if zc.sf == 1 { word_at(m, zc.pc) } else { wrap16(zc.pc + 2) }, mem_ptr: word_at(m, zc.pc), ..zc },
        0xFB => z80 { iff_delay: 2, ..zc },
        0xFC => z80 { pc: if zc.sf == 1 { word_at(m, zc.pc) } else { wrap16(zc.pc + 2) }, mem_ptr: word_at(m, zc.pc), sp: if zc.sf == 1 { wrap16(zc.sp - 2) } else { zc.sp }, cyc: if zc.sf == 1 { zc.cyc.saturating_add(7) } else { zc.cyc }, ..zc },
        0xFE => z80 { pc: wrap16(zc.pc + 1), ..st_cp_a(zc, m[zc.pc as int]) },
        0xFF => z80 { pc: 0x38, mem_ptr: 0x38, sp: wrap16(zc.sp - 2), ..zc },
        _ => zc,
    }
}

/// The arm of the base table, applied to the already charged state `zc`: the table in sixteen-opcode blocks, selected by range.
pub open spec fn base_arm_effect(zc: z80, m: Seq<u8>, op: u8) -> z80 {
    if op <= 0x0F {
        base_arm_effect_x00(zc, m, op)
    } else if op <= 0x1F {
        base_arm_effect_x10(zc, m, op)
    } else if op <= 0x2F {
        base_arm_effect_x20(zc, m, op)
    } else if op <= 0x3F {
        base_arm_effect_x30(zc, m, op)
    } else if op <= 0x4F {
        base_arm_effect_x40(zc, m, op)
    } else if op <= 0x5F {
        base_arm_effect_x50(zc, m, op)
    } else if op <= 0x6F {
        base_arm_effect_x60(zc, m, op)
    } else if op <= 0x7F {
        base_arm_effect_x70(zc, m, op)
    } else if op <= 0x8F {
        base_arm_effect_x80(zc, m, op)
    } else if op <= 0x9F {
        base_arm_effect_x90(zc, m, op)
    } else if op <= 0xAF {
        base_arm_effect_xa0(zc, m, op)
    } else if op <= 0xBF {
        base_arm_effect_xb0(zc, m, op)
    } else if op <= 0xCF {
        base_arm_effect_xc0(zc, m, op)
    } else if op <= 0xDF {
        base_arm_effect_xd0(zc, m, op)
    } else if op <= 0xEF {
        base_arm_effect_xe0(zc, m, op)
    } else {
        base_arm_effect_xf0(zc, m, op)
    }
}



/// Memory after the arm of the base table, from the charged state `zc`, opcodes 0x00 through 0x0F.
#[verifier::opaque]
pub open spec fn base_arm_mem_x00(zc: z80, m: Seq<u8>, op: u8) -> Seq<u8> {
    match op {
        0x02 => m.update(zc.spec_bc() as int, zc.a),
        _ => m,
    }
}

/// Memory after the arm of the base table, from the charged state `zc`, opcodes 0x10 through 0x1F.
#[verifier::opaque]
pub open spec fn base_arm_mem_x10(zc: z80, m: Seq<u8>, op: u8) -> Seq<u8> {
    match op {
        0x12 => m.update(zc.spec_de() as int, zc.a),
        _ => m,
    }
}

/// Memory after the arm of the base table, from the charged state `zc`, opcodes 0x20 through 0x2F.
#[verifier::opaque]
pub open spec fn base_arm_mem_x20(zc: z80, m: Seq<u8>, op: u8) -> Seq<u8> {
    match op {
        0x22 => written_word(m, word_at(m, zc.pc), zc.spec_hl()),
        _ => m,
    }
}

/// Memory after the arm of the base table, from the charged state `zc`, opcodes 0x30 through 0x3F.
#[verifier::opaque]
pub open spec fn base_arm_mem_x30(zc: z80, m: Seq<u8>, op: u8) -> Seq<u8> {
    match op {
        0x32 => m.update(word_at(m, zc.pc) as int, zc.a),
        0x34 => m.update(zc.spec_hl() as int, add_res(m[zc.spec_hl() as int], 1, 0)),
        0x35 => m.update(zc.spec_hl() as int, sub_res(m[zc.spec_hl() as int], 1, 0)),
        0x36 => m.update(zc.spec_hl() as int, m[zc.pc as int]),
        _ => m,
    }
}

/// Memory after the arm of the base table, from the charged state `zc`, opcodes 0x40 through 0x4F.
#[verifier::opaque]
pub open spec fn base_arm_mem_x40(zc: z80, m: Seq<u8>, op: u8) -> Seq<u8> {
    match op {
        _ => m,
    }
}

/// Memory after the arm of the base table, from the charged state `zc`, opcodes 0x50 through 0x5F.
#[verifier::opaque]
pub open spec fn base_arm_mem_x50(zc: z80, m: Seq<u8>, op: u8) -> Seq<u8> {
    match op {
        _ => m,
    }
}

/// Memory after the arm of the base table, from the charged state `zc`, opcodes 0x60 through 0x6F.
#[verifier::opaque]
pub open spec fn base_arm_mem_x60(zc: z80, m: Seq<u8>, op: u8) -> Seq<u8> {
    match op {
        _ => m,
    }
}

/// Memory after the arm of the base table, from the charged state `zc`, opcodes 0x70 through 0x7F.
#[verifier::opaque]
pub open spec fn base_arm_mem_x70(zc: z80, m: Seq<u8>, op: u8) -> Seq<u8> {
    match op {
        0x70 => m.update(zc.spec_hl() as int, zc.b),
        0x71 => m.update(zc.spec_hl() as int, zc.c),
        0x72 => m.update(zc.spec_hl() as int, zc.d),
        0x73 => m.update(zc.spec_hl() as int, zc.e),
        0x74 => m.update(zc.spec_hl() as int, zc.h),
        0x75 => m.update(zc.spec_hl() as int, zc.l),
        0x77 => m.update(zc.spec_hl() as int, zc.a),
        _ => m,
    }
}

/// Memory after the arm of the base table, from the charged state `zc`, opcodes 0x80 through 0x8F.
#[verifier::opaque]
pub open spec fn base_arm_mem_x80(zc: z80, m: Seq<u8>, op: u8) -> Seq<u8> {
    match op {
        _ => m,
    }
}

/// Memory after the arm of the base table, from the charged state `zc`, opcodes 0x90 through 0x9F.
#[verifier::opaque]
pub open spec fn base_arm_mem_x90(zc: z80, m: Seq<u8>, op: u8) -> Seq<u8> {
    match op {
        _ => m,
    }
}

/// Memory after the arm of the base table, from the charged state `zc`, opcodes 0xA0 through 0xAF.
#[verifier::opaque]
pub open spec fn base_arm_mem_xa0(zc: z80, m: Seq<u8>, op: u8) -> Seq<u8> {
    match op {
        _ => m,
    }
}

/// Memory after the arm of the base table, from the charged state `zc`, opcodes 0xB0 through 0xBF.
#[verifier::opaque]
pub open spec fn base_arm_mem_xb0(zc: z80, m: Seq<u8>, op: u8) -> Seq<u8> {
    match op {
        _ => m,
    }
}

/// Memory after the arm of the base table, from the charged state `zc`, opcodes 0xC0 through 0xCF.
#[verifier::opaque]
pub open spec fn base_arm_mem_xc0(zc: z80, m: Seq<u8>, op: u8) -> Seq<u8> {
    match op {
        0xC4 => if zc.zf == 0 { written_word(m, wrap16(zc.sp - 2), wrap16(zc.pc + 2)) } else { m },
        0xC5 => written_word(m, wrap16(zc.sp - 2), zc.spec_bc()),
        0xC7 => written_word(m, wrap16(zc.sp - 2), zc.pc),
        0xCB => cb_mem(z80 { pc: wrap16(zc.pc + 1), ..zc }, m, m[zc.pc as int]),
        0xCC => if zc.zf == 1 { written_word(m, wrap16(zc.sp - 2), wrap16(zc.pc + 2)) } else { m },
        0xCD => written_word(m, wrap16(zc.sp - 2), wrap16(zc.pc + 2)),
        0xCF => written_word(m, wrap16(zc.sp - 2), zc.pc),
        _ => m,
    }
}

/// Memory after the arm of the base table, from the charged state `zc`, opcodes 0xD0 through 0xDF.
#[verifier::opaque]
pub open spec fn base_arm_mem_xd0(zc: z80, m: Seq<u8>, op: u8) -> Seq<u8> {
    match op {
        0xD4 => if zc.cf == 0 { written_word(m, wrap16(zc.sp - 2), wrap16(zc.pc + 2)) } else { m },
        0xD5 => written_word(m, wrap16(zc.sp - 2), zc.spec_de()),
        0xD7 => written_word(m, wrap16(zc.sp - 2), zc.pc),
        0xDC => if zc.cf == 1 { written_word(m, wrap16(zc.sp - 2), wrap16(zc.pc + 2)) } else { m },
        0xDF => written_word(m, wrap16(zc.sp - 2), zc.pc),
        _ => m,
    }
}

/// Memory after the arm of the base table, from the charged state `zc`, opcodes 0xE0 through 0xEF.
#[verifier::opaque]
pub open spec fn base_arm_mem_xe0(zc: z80, m: Seq<u8>, op: u8) -> Seq<u8> {
    match op {
        0xE3 => written_word(m, zc.sp, zc.spec_hl()),
        0xE4 => if zc.pf == 0 { written_word(m, wrap16(zc.sp - 2), wrap16(zc.pc + 2)) } else { m },
        0xE5 => written_word(m, wrap16(zc.sp - 2), zc.spec_hl()),
        0xE7 => written_word(m, wrap16(zc.sp - 2), zc.pc),
        0xEC => if zc.pf == 1 { written_word(m, wrap16(zc.sp - 2), wrap16(zc.pc + 2)) } else { m },
        0xED => ed_mem(z80 { pc: wrap16(zc.pc + 1), ..zc }, m, m[zc.pc as int]),
        0xEF => written_word(m, wrap16(zc.sp - 2), zc.pc),
        _ => m,
    }
}

/// Memory after the arm of the base table, from the charged state `zc`, opcodes 0xF0 through 0xFF.
#[verifier::opaque]
pub open spec fn base_arm_mem_xf0(zc: z80, m: Seq<u8>, op: u8) -> Seq<u8> {
    match op {
        0xF4 => if zc.sf == 0 { written_word(m, wrap16(zc.sp - 2), wrap16(zc.pc + 2)) } else { m },
        0xF5 => written_word(m, wrap16(zc.sp - 2), word_from(zc.a, zc.spec_f())),
        0xF7 => written_word(m, wrap16(zc.sp - 2), zc.pc),
        0xFC => if zc.sf == 1 { written_word(m, wrap16(zc.sp - 2), wrap16(zc.pc + 2)) } else { m },
        0xFF => written_word(m, wrap16(zc.sp - 2), zc.pc),
        _ => m,
    }
}

/// Memory after the arm of the base table, from the charged state `zc`: the table in sixteen-opcode blocks, selected by range.
pub open spec fn base_arm_mem(zc: z80, m: Seq<u8>, op: u8) -> Seq<u8> {
    if op <= 0x0F {
        base_arm_mem_x00(zc, m, op)
    } else if op <= 0x1F {
        base_arm_mem_x10(zc, m, op)
    } else if op <= 0x2F {
        base_arm_mem_x20(zc, m, op)
    } else if op <= 0x3F {
        base_arm_mem_x30(zc, m, op)
    } else if op <= 0x4F {
        base_arm_mem_x40(zc, m, op)
    } else if op <= 0x5F {
        base_arm_mem_x50(zc, m, op)
    } else if op <= 0x6F {
        base_arm_mem_x60(zc, m, op)
    } else if op <= 0x7F {
        base_arm_mem_x70(zc, m, op)
    } else if op <= 0x8F {
        base_arm_mem_x80(zc, m, op)
    } else if op <= 0x9F {
        base_arm_mem_x90(zc, m, op)
    } else if op <= 0xAF {
        base_arm_mem_xa0(zc, m, op)
    } else if op <= 0xBF {
        base_arm_mem_xb0(zc, m, op)
    } else if op <= 0xCF {
        base_arm_mem_xc0(zc, m, op)
    } else if op <= 0xDF {
        base_arm_mem_xd0(zc, m, op)
    } else if op <= 0xEF {
        base_arm_mem_xe0(zc, m, op)
    } else {
        base_arm_mem_xf0(zc, m, op)
    }
}



/// State the base decoder leaves behind, for its deterministic opcodes: the
/// table's cycle cost, one refresh count per instruction, and the opcode's
/// arm.
pub open spec fn base_op_effect(z: z80, m: Seq<u8>, op: u8) -> z80 {
    base_arm_effect(charged(z, spec_cyc_00(op)), m, op)
}

/// Memory after a base opcode, for the deterministic opcodes.
pub open spec fn base_op_mem(z: z80, m: Seq<u8>, op: u8) -> Seq<u8> {
    base_arm_mem(charged(z, spec_cyc_00(op)), m, op)
}

/// The opcodes the index-prefixed table has an arm for; all others fall
/// through to the base decoder.
pub open spec fn ddfd_has_arm(op: u8) -> bool {
    op == 0x09 || op == 0x19 || op == 0x21 || op == 0x22 || op == 0x23 || op == 0x24 || op == 0x25 || op == 0x26 || op == 0x29 || op == 0x2A || op == 0x2B || op == 0x2C || op == 0x2D || op == 0x2E || op == 0x34 || op == 0x35 || op == 0x36 || op == 0x39 || op == 0x44 || op == 0x45 || op == 0x46 || op == 0x4C || op == 0x4D || op == 0x4E || op == 0x54 || op == 0x55 || op == 0x56 || op == 0x5C || op == 0x5D || op == 0x5E || op == 0x60 || op == 0x61 || op == 0x62 || op == 0x63 || op == 0x64 || op == 0x65 || op == 0x66 || op == 0x67 || op == 0x68 || op == 0x69 || op == 0x6A || op == 0x6B || op == 0x6C || op == 0x6D || op == 0x6E || op == 0x6F || op == 0x70 || op == 0x71 || op == 0x72 || op == 0x73 || op == 0x74 || op == 0x75 || op == 0x77 || op == 0x7C || op == 0x7D || op == 0x7E || op == 0x84 || op == 0x85 || op == 0x86 || op == 0x8C || op == 0x8D || op == 0x8E || op == 0x94 || op == 0x95 || op == 0x96 || op == 0x9C || op == 0x9D || op == 0x9E || op == 0xA4 || op == 0xA5 || op == 0xA6 || op == 0xAC || op == 0xAD || op == 0xAE || op == 0xB4 || op == 0xB5 || op == 0xB6 || op == 0xBC || op == 0xBD || op == 0xBE || op == 0xCB || op == 0xE1 || op == 0xE3 || op == 0xE5 || op == 0xE9 || op == 0xF9
}


/// Flag state after adding a word into an index register; sign, zero and
/// parity survive.
pub open spec fn st_addiz_flags(z: z80, a: u16, b: u16) -> z80 {
    z80 {
        hf: add_hf(hi_byte(a), hi_byte(b), addw_carry(a, b, 0)),
        cf: add_cf(hi_byte(a), hi_byte(b), addw_carry(a, b, 0)),
        nf: 0,
        xf: spec_bit(3, addw_hi(a, b, 0)),
        yf: spec_bit(5, addw_hi(a, b, 0)),
        mem_ptr: wrap16(a + 1),
        ..z
    }
}

/// The arm of the index-prefixed table, applied to the already charged state
/// `zc` and the index register `iz`: HL-indirect addressing becomes displaced
/// indexed addressing, H and L become the halves of `iz`.
#[verifier::opaque]
pub open spec fn ddfd_arm_effect(zc: z80, m: Seq<u8>, op: u8, iz: u16) -> z80 {
    match op {
        0x09 => st_addiz_flags(zc, iz, word_from(zc.b, zc.c)),
        0x19 => st_addiz_flags(zc, iz, word_from(zc.d, zc.e)),
        0x21 => z80 { pc: wrap16(zc.pc + 2), ..zc },
        0x22 => z80 { pc: wrap16(zc.pc + 2), ..zc },
        0x24 => st_inc_flags(zc, (iz >> 8) as u8),
        0x25 => st_dec_flags(zc, (iz >> 8) as u8),
        0x26 => z80 { pc: wrap16(zc.pc + 1), ..zc },
        0x29 => st_addiz_flags(zc, iz, iz),
        0x2A => z80 { pc: wrap16(zc.pc + 2), ..zc },
        0x2C => st_inc_flags(zc, (iz & 0xFF) as u8),
        0x2D => st_dec_flags(zc, (iz & 0xFF) as u8),
        0x2E => z80 { pc: wrap16(zc.pc + 1), ..zc },
        0x34 => z80 { pc: wrap16(zc.pc + 1), mem_ptr: wrap16(iz + ((m[zc.pc as int] as i8) as u16)), ..st_inc_flags(zc, m[wrap16(iz + ((m[zc.pc as int] as i8) as u16)) as int]) },
        0x35 => z80 { pc: wrap16(zc.pc + 1), mem_ptr: wrap16(iz + ((m[zc.pc as int] as i8) as u16)), ..st_dec_flags(zc, m[wrap16(iz + ((m[zc.pc as int] as i8) as u16)) as int]) },
        0x36 => z80 { pc: wrap16(zc.pc + 2), mem_ptr: wrap16(iz + ((m[zc.pc as int] as i8) as u16)), ..zc },
        0x39 => st_addiz_flags(zc, iz, zc.sp),
        0x44 => z80 { b: (iz >> 8) as u8, ..zc },
        0x45 => z80 { b: (iz & 0xFF) as u8, ..zc },
        0x46 => z80 { b: m[wrap16(iz + ((m[zc.pc as int] as i8) as u16)) as int], pc: wrap16(zc.pc + 1), mem_ptr: wrap16(iz + ((m[zc.pc as int] as i8) as u16)), ..zc },
        0x4C => z80 { c: (iz >> 8) as u8, ..zc },
        0x4D => z80 { c: (iz & 0xFF) as u8, ..zc },
        0x4E => z80 { c: m[wrap16(iz + ((m[zc.pc as int] as i8) as u16)) as int], pc: wrap16(zc.pc + 1), mem_ptr: wrap16(iz + ((m[zc.pc as int] as i8) as u16)), ..zc },
        0x54 => z80 { d: (iz >> 8) as u8, ..zc },
        0x55 => z80 { d: (iz & 0xFF) as u8, ..zc },
        0x56 => z80 { d: m[wrap16(iz + ((m[zc.pc as int] as i8) as u16)) as int], pc: wrap16(zc.pc + 1), mem_ptr: wrap16(iz + ((m[zc.pc as int] as i8) as u16)), ..zc },
        0x5C => z80 { e: (iz >> 8) as u8, ..zc },
        0x5D => z80 { e: (iz & 0xFF) as u8, ..zc },
        0x5E => z80 { e: m[wrap16(iz + ((m[zc.pc as int] as i8) as u16)) as int], pc: wrap16(zc.pc + 1), mem_ptr: wrap16(iz + ((m[zc.pc as int] as i8) as u16)), ..zc },
        0x64 => zc,
        0x66 => z80 { h: m[wrap16(iz + ((m[zc.pc as int] as i8) as u16)) as int], pc: wrap16(zc.pc + 1), mem_ptr: wrap16(iz + ((m[zc.pc as int] as i8) as u16)), ..zc },
        0x6D => zc,
        0x6E => z80 { l: m[wrap16(iz + ((m[zc.pc as int] as i8) as u16)) as int], pc: wrap16(zc.pc + 1), mem_ptr: wrap16(iz + ((m[zc.pc as int] as i8) as u16)), ..zc },
        0x70 => z80 { pc: wrap16(zc.pc + 1), mem_ptr: wrap16(iz + ((m[zc.pc as int] as i8) as u16)), ..zc },
        0x71 => z80 { pc: wrap16(zc.pc + 1), mem_ptr: wrap16(iz + ((m[zc.pc as int] as i8) as u16)), ..zc },
        0x72 => z80 { pc: wrap16(zc.pc + 1), mem_ptr: wrap16(iz + ((m[zc.pc as int] as i8) as u16)), ..zc },
        0x73 => z80 { pc: wrap16(zc.pc + 1), mem_ptr: wrap16(iz + ((m[zc.pc as int] as i8) as u16)), ..zc },
        0x74 => z80 { pc: wrap16(zc.pc + 1), mem_ptr: wrap16(iz + ((m[zc.pc as int] as i8) as u16)), ..zc },
        0x75 => z80 { pc: wrap16(zc.pc + 1), mem_ptr: wrap16(iz + ((m[zc.pc as int] as i8) as u16)), ..zc },
        0x77 => z80 { pc: wrap16(zc.pc + 1), mem_ptr: wrap16(iz + ((m[zc.pc as int] as i8) as u16)), ..zc },
        0x7C => z80 { a: (iz >> 8) as u8, ..zc },
        0x7D => z80 { a: (iz & 0xFF) as u8, ..zc },
        0x7E => z80 { a: m[wrap16(iz + ((m[zc.pc as int] as i8) as u16)) as int], pc: wrap16(zc.pc + 1), mem_ptr: wrap16(iz + ((m[zc.pc as int] as i8) as u16)), ..zc },
        0x84 => st_add_a(zc, (iz >> 8) as u8, 0),
        0x85 => st_add_a(zc, (iz & 0xFF) as u8, 0),
        0x86 => z80 { pc: wrap16(zc.pc + 1), mem_ptr: wrap16(iz + ((m[zc.pc as int] as i8) as u16)), ..st_add_a(zc, m[wrap16(iz + ((m[zc.pc as int] as i8) as u16)) as int], 0) },
        0x8C => st_add_a(zc, (iz >> 8) as u8, zc.cf),
        0x8D => st_add_a(zc, (iz & 0xFF) as u8, zc.cf),
        0x8E => z80 { pc: wrap16(zc.pc + 1), mem_ptr: wrap16(iz + ((m[zc.pc as int] as i8) as u16)), ..st_add_a(zc, m[wrap16(iz + ((m[zc.pc as int] as i8) as u16)) as int], zc.cf) },
        0x94 => st_sub_a(zc, (iz >> 8) as u8, 0),
        0x95 => st_sub_a(zc, (iz & 0xFF) as u8, 0),
        0x96 => z80 { pc: wrap16(zc.pc + 1), mem_ptr: wrap16(iz + ((m[zc.pc as int] as i8) as u16)), ..st_sub_a(zc, m[wrap16(iz + ((m[zc.pc as int] as i8) as u16)) as int], 0) },
        0x9C => st_sub_a(zc, (iz >> 8) as u8, zc.cf),
        0x9D => st_sub_a(zc, (iz & 0xFF) as u8, zc.cf),
        0x9E => z80 { pc: wrap16(zc.pc + 1), mem_ptr: wrap16(iz + ((m[zc.pc as int] as i8) as u16)), ..st_sub_a(zc, m[wrap16(iz + ((m[zc.pc as int] as i8) as u16)) as int], zc.cf) },
        0xA4 => st_and_a(zc, (iz >> 8) as u8),
        0xA5 => st_and_a(zc, (iz & 0xFF) as u8),
        0xA6 => z80 { pc: wrap16(zc.pc + 1), mem_ptr: wrap16(iz + ((m[zc.pc as int] as i8) as u16)), ..st_and_a(zc, m[wrap16(iz + ((m[zc.pc as int] as i8) as u16)) as int]) },
        0xAC => st_xor_a(zc, (iz >> 8) as u8),
        0xAD => st_xor_a(zc, (iz & 0xFF) as u8),
        0xAE => z80 { pc: wrap16(zc.pc + 1), mem_ptr: wrap16(iz + ((m[zc.pc as int] as i8) as u16)), ..st_xor_a(zc, m[wrap16(iz + ((m[zc.pc as int] as i8) as u16)) as int]) },
        0xB4 => st_or_a(zc, (iz >> 8) as u8),
        0xB5 => st_or_a(zc, (iz & 0xFF) as u8),
        0xB6 => z80 { pc: wrap16(zc.pc + 1), mem_ptr: wrap16(iz + ((m[zc.pc as int] as i8) as u16)), ..st_or_a(zc, m[wrap16(iz + ((m[zc.pc as int] as i8) as u16)) as int]) },
        0xBC => st_cp_a(zc, (iz >> 8) as u8),
        0xBD => st_cp_a(zc, (iz & 0xFF) as u8),
        0xBE => z80 { pc: wrap16(zc.pc + 1), mem_ptr: wrap16(iz + ((m[zc.pc as int] as i8) as u16)), ..st_cp_a(zc, m[wrap16(iz + ((m[zc.pc as int] as i8) as u16)) as int]) },
        0xCB => dcb_effect((z80 { pc: wrap16(zc.pc + 2), mem_ptr: wrap16(iz + ((m[zc.pc as int] as i8) as u16)), ..zc }), m, m[wrap16(zc.pc + 1) as int], wrap16(iz + ((m[zc.pc as int] as i8) as u16))),
        0xE1 => z80 { sp: wrap16(zc.sp + 2), ..zc },
        0xE3 => z80 { mem_ptr: word_at(m, zc.sp), ..zc },
        0xE5 => z80 { sp: wrap16(zc.sp - 2), ..zc },
        0xE9 => z80 { pc: iz, mem_ptr: iz, ..zc },
        0xF9 => z80 { sp: iz, ..zc },
        _ => zc,
    }
}

/// The index register after an index-prefixed arm.
#[verifier::opaque]
pub open spec fn ddfd_arm_iz(zc: z80, m: Seq<u8>, op: u8, iz: u16) -> u16 {
    match op {
        0x09 => addw_res(iz, word_from(zc.b, zc.c), 0),
        0x19 => addw_res(iz, word_from(zc.d, zc.e), 0),
        0x21 => word_at(m, zc.pc),
        0x23 => wrap16(iz + 1),
        0x24 => (iz & 0xFF) | ((add_res((iz >> 8) as u8, 1, 0) as u16) << 8),
        0x25 => (iz & 0xFF) | ((sub_res((iz >> 8) as u8, 1, 0) as u16) << 8),
        0x26 => (iz & 0xFF) | ((m[zc.pc as int] as u16) << 8),
        0x29 => addw_res(iz, iz, 0),
        0x2A => word_at(m, word_at(m, zc.pc)),
        0x2B => wrap16(iz - 1),
        0x2C => ((iz >> 8) << 8) | (add_res((iz & 0xFF) as u8, 1, 0) as u16),
        0x2D => ((iz >> 8) << 8) | (sub_res((iz & 0xFF) as u8, 1, 0) as u16),
        0x2E => ((iz >> 8) << 8) | m[zc.pc as int] as u16,
        0x39 => addw_res(iz, zc.sp, 0),
        0x60 => (iz & 0xFF) | ((zc.b as u16) << 8),
        0x61 => (iz & 0xFF) | ((zc.c as u16) << 8),
        0x62 => (iz & 0xFF) | ((zc.d as u16) << 8),
        0x63 => (iz & 0xFF) | ((zc.e as u16) << 8),
        0x65 => ((iz & 0xFF) << 8) | (iz & 0xFF),
        0x67 => (iz & 0xFF) | ((zc.a as u16) << 8),
        0x68 => ((iz >> 8) << 8) | zc.b as u16,
        0x69 => ((iz >> 8) << 8) | zc.c as u16,
        0x6A => ((iz >> 8) << 8) | zc.d as u16,
        0x6B => ((iz >> 8) << 8) | zc.e as u16,
        0x6C => ((iz >> 8) << 8) | (iz >> 8),
        0x6F => ((iz >> 8) << 8) | zc.a as u16,
        0xE1 => word_at(m, zc.sp),
        0xE3 => word_at(m, zc.sp),
        _ => iz,
    }
}

/// Memory after an index-prefixed arm.
#[verifier::opaque]
pub open spec fn ddfd_arm_mem(zc: z80, m: Seq<u8>, op: u8, iz: u16) -> Seq<u8> {
    match op {
        0x22 => written_word(m, word_at(m, zc.pc), iz),
        0x34 => m.update(wrap16(iz + ((m[zc.pc as int] as i8) as u16)) as int, add_res(m[wrap16(iz + ((m[zc.pc as int] as i8) as u16)) as int], 1, 0)),
        0x35 => m.update(wrap16(iz + ((m[zc.pc as int] as i8) as u16)) as int, sub_res(m[wrap16(iz + ((m[zc.pc as int] as i8) as u16)) as int], 1, 0)),
        0x36 => m.update(wrap16(iz + ((m[zc.pc as int] as i8) as u16)) as int, m[wrap16(zc.pc + 1) as int]),
        0x70 => m.update(wrap16(iz + ((m[zc.pc as int] as i8) as u16)) as int, zc.b),
        0x71 => m.update(wrap16(iz + ((m[zc.pc as int] as i8) as u16)) as int, zc.c),
        0x72 => m.update(wrap16(iz + ((m[zc.pc as int] as i8) as u16)) as int, zc.d),
        0x73 => m.update(wrap16(iz + ((m[zc.pc as int] as i8) as u16)) as int, zc.e),
        0x74 => m.update(wrap16(iz + ((m[zc.pc as int] as i8) as u16)) as int, zc.h),
        0x75 => m.update(wrap16(iz + ((m[zc.pc as int] as i8) as u16)) as int, zc.l),
        0x77 => m.update(wrap16(iz + ((m[zc.pc as int] as i8) as u16)) as int, zc.a),
        0xCB => dcb_mem((z80 { pc: wrap16(zc.pc + 2), mem_ptr: wrap16(iz + ((m[zc.pc as int] as i8) as u16)), ..zc }), m, m[wrap16(zc.pc + 1) as int], wrap16(iz + ((m[zc.pc as int] as i8) as u16))),
        0xE3 => written_word(m, zc.sp, iz),
        0xE5 => written_word(m, wrap16(zc.sp - 2), iz),
        _ => m,
    }
}

/// The index-prefixed opcodes whose outcome the state and memory determine:
/// every opcode of the table, and every fallback opcode the base table
/// determines.
pub open spec fn ddfd_deterministic(z: z80, m: Seq<u8>, op: u8) -> bool {
    ddfd_has_arm(op) || base_deterministic(z, m, op)
}

/// State the index-prefixed decoder leaves behind: its cycle charge and
/// refresh count, then the opcode's arm; an opcode without one falls through
/// to the base decoder unmodified, with the refresh register compensated so
/// the whole instruction counts it once.
pub open spec fn ddfd_effect(z: z80, m: Seq<u8>, op: u8, iz: u16) -> z80 {
    let zc = charged(z, spec_cyc_ddfd(op));
    if ddfd_has_arm(op) {
        ddfd_arm_effect(zc, m, op, iz)
    } else {
        z80 { r: spec_dec_r(base_op_effect(zc, m, op).r), ..base_op_effect(zc, m, op) }
    }
}

/// The index register after an index-prefixed opcode; the fallback never
/// touches it.
pub open spec fn ddfd_iz(z: z80, m: Seq<u8>, op: u8, iz: u16) -> u16 {
    let zc = charged(z, spec_cyc_ddfd(op));
    if ddfd_has_arm(op) {
        ddfd_arm_iz(zc, m, op, iz)
    } else {
        iz
    }
}

/// Memory after an index-prefixed opcode.
pub open spec fn ddfd_mem(z: z80, m: Seq<u8>, op: u8, iz: u16) -> Seq<u8> {
    let zc = charged(z, spec_cyc_ddfd(op));
    if ddfd_has_arm(op) {
        ddfd_arm_mem(zc, m, op, iz)
    } else {
        base_op_mem(zc, m, op)
    }
}

/// The interrupt situations whose outcome the state and memory determine:
/// everything but a mode-0 service, which executes the attached data byte as
/// an opcode and is covered through the base-table effect instead.
pub open spec fn int_deterministic(z: z80) -> bool {
    !(z.iff_delay == 0 && !z.nmi_pending && z.int_pending && z.iff1 && z.interrupt_mode == 0)
}

/// The bookkeeping every accepted maskable interrupt starts with: the
/// request taken off the queue, the halt and both flip-flops cleared, and a
/// refresh count.
pub open spec fn service_state(z: z80) -> z80 {
    z80 {
        int_pending: false,
        halted: false,
        iff1: false,
        iff2: false,
        r: spec_inc_r(z.r),
        ..z
    }
}

/// State the interrupt machine leaves behind, for its deterministic
/// situations: the enable delay counts down and opens both flip-flops at
/// zero while deferring any pending request; a non-maskable interrupt is
/// always taken through address 0x66; a maskable one is taken only when the
/// primary flip-flop is set, by mode; a mode outside 0, 1 and 2 drops the
/// request.
pub open spec fn int_effect(z: z80, m: Seq<u8>) -> z80 {
    if z.iff_delay > 0 {
        z80 {
            iff_delay: (z.iff_delay - 1) as u8,
            iff1: if z.iff_delay == 1 {
                true
            } else {
                z.iff1
            },
            iff2: if z.iff_delay == 1 {
                true
            } else {
                z.iff2
            },
            ..z
        }
    } else if z.nmi_pending {
        z80 {
            nmi_pending: false,
            halted: false,
            iff1: false,
            r: spec_inc_r(z.r),
            cyc: z.cyc.saturating_add(11),
            pc: 0x66,
            mem_ptr: 0x66,
            sp: wrap16(z.sp - 2),
            ..z
        }
    } else if z.int_pending && z.iff1 {
        if z.interrupt_mode == 1 {
            z80 {
                cyc: z.cyc.saturating_add(13),
                pc: 0x38,
                mem_ptr: 0x38,
                sp: wrap16(z.sp - 2),
                ..service_state(z)
            }
        } else if z.interrupt_mode == 2 {
            z80 {
                cyc: z.cyc.saturating_add(19),
                pc: word_at(m, word_from(z.i, z.int_data)),
                mem_ptr: word_at(m, word_from(z.i, z.int_data)),
                sp: wrap16(z.sp - 2),
                ..service_state(z)
            }
        } else {
            service_state(z)
        }
    } else {
        z
    }
}

/// Memory after the interrupt machine ran: the taken interrupts push the
/// program counter, nothing else moves.
pub open spec fn int_mem(z: z80, m: Seq<u8>) -> Seq<u8> {
    if z.iff_delay > 0 {
        m
    } else if z.nmi_pending {
        written_word(m, wrap16(z.sp - 2), z.pc)
    } else if z.int_pending && z.iff1 && (z.interrupt_mode == 1 || z.interrupt_mode == 2) {
        written_word(m, wrap16(z.sp - 2), z.pc)
    } else {
        m
    }
}

/// The state a step starts decoding from: the opcode consumed.
pub open spec fn step_fetch(z: z80) -> z80 {
    z80 { pc: wrap16(z.pc + 1), ..z }
}

/// The steps whose outcome the state and memory determine: the instruction
/// is device-free and the interrupt phase after it is not a mode-0 service.
pub open spec fn step_deterministic(z: z80, m: Seq<u8>) -> bool {
    if z.halted {
        int_deterministic(charged(z, 4))
    } else {
        base_deterministic(step_fetch(z), m, m[z.pc as int]) && int_deterministic(
            base_op_effect(step_fetch(z), m, m[z.pc as int]),
        )
    }
}

/// One whole step: execute exactly one instruction -- a no-op while halted,
/// else the fetched opcode -- then evaluate interrupts exactly once.
pub open spec fn step_effect(z: z80, m: Seq<u8>) -> z80 {
    if z.halted {
        int_effect(charged(z, 4), m)
    } else {
        int_effect(
            base_op_effect(step_fetch(z), m, m[z.pc as int]),
            base_op_mem(step_fetch(z), m, m[z.pc as int]),
        )
    }
}

/// Memory after one whole step.
pub open spec fn step_mem(z: z80, m: Seq<u8>) -> Seq<u8> {
    if z.halted {
        int_mem(charged(z, 4), m)
    } else {
        int_mem(
            base_op_effect(step_fetch(z), m, m[z.pc as int]),
            base_op_mem(step_fetch(z), m, m[z.pc as int]),
        )
    }
}

} // verus!
