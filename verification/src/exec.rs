//! The instruction decoders: the 256-entry base table, the bit-operation
//! table, the extended table, the index-prefixed table with its fallback, and
//! the displaced bit-operation table; the per-opcode cycle tables; the
//! interrupt state machine; and the step driver the host calls.

use vstd::prelude::*;

use crate::alu::addb;
use crate::alu::addhl;
use crate::alu::addiz;
use crate::alu::adchl;
use crate::alu::cb_bit;
use crate::alu::cb_rl;
use crate::alu::cb_rlc;
use crate::alu::cb_rr;
use crate::alu::cb_rrc;
use crate::alu::cb_sla;
use crate::alu::cb_sll;
use crate::alu::cb_sra;
use crate::alu::cb_srl;
use crate::alu::cp;
use crate::alu::cpd;
use crate::alu::cpi;
use crate::alu::daa;
use crate::alu::dec;
use crate::alu::in_r_c;
use crate::alu::inc;
use crate::alu::ind;
use crate::alu::ini;
use crate::alu::land;
use crate::alu::ldd;
use crate::alu::ldi;
use crate::alu::lor;
use crate::alu::lxor;
use crate::alu::outd;
use crate::alu::outi;
use crate::alu::sbchl;
use crate::alu::subb;
use crate::alu::subw;
use crate::bus::Bus;
use crate::flags::GET_BIT;
use crate::flags::add_cf;
use crate::flags::add_hf;
use crate::flags::add_pf;
use crate::flags::add_res;
use crate::flags::sign_of;
use crate::flags::spec_bit;
use crate::flags::zero_of;
use crate::model::base_deterministic;
use crate::model::base_op_effect;
use crate::model::base_op_mem;
use crate::model::cb_effect;
use crate::model::cb_mem;
use crate::model::dcb_effect;
use crate::model::dcb_mem;
use crate::model::ed_deterministic;
use crate::model::ed_effect;
use crate::model::ed_mem;
use crate::model::int_deterministic;
use crate::model::int_effect;
use crate::model::int_mem;
use crate::model::spec_cyc_00;
use crate::model::spec_cyc_ddfd;
use crate::model::spec_cyc_ed;
use crate::flags::lemma_and1_le_1;
use crate::flags::lemma_and7_lt8;
use crate::flags::lemma_shr7_le_1;
use crate::flags::lemma_spec_bit_le_1;
use crate::flags::parity;
use crate::z80::call;
use crate::z80::cond_call;
use crate::z80::cond_jr;
use crate::z80::cond_jump;
use crate::z80::cond_ret;
use crate::z80::displace;
use crate::z80::get_bc;
use crate::z80::get_de;
use crate::z80::get_f;
use crate::z80::get_hl;
use crate::z80::inc_r;
use crate::z80::jr;
use crate::z80::jump;
use crate::z80::lemma_word_recompose;
use crate::z80::nextb;
use crate::z80::nextw;
use crate::z80::popw;
use crate::z80::pushw;
use crate::z80::rb;
use crate::z80::ret;
use crate::z80::rw;
use crate::z80::set_bc;
use crate::z80::set_de;
use crate::z80::set_f;
use crate::z80::set_hl;
use crate::z80::spec_inc_r;
use crate::z80::wb;
use crate::z80::word_at;
use crate::z80::word_from;
use crate::z80::wrap16;
use crate::z80::written_word;
use crate::z80::ww;
use crate::z80::z80;

verus! {

broadcast use lemma_spec_bit_le_1, lemma_shr7_le_1, lemma_and1_le_1, lemma_word_recompose,
    lemma_and7_lt8, crate::flags::lemma_shr7_div, crate::flags::lemma_and_nibble,
    crate::flags::lemma_and1_mod, crate::flags::lemma_flag_not, crate::z80::lemma_dec_inc_r;

/// Measure that orders the decoders for the prefix fallback: a prefix opcode
/// may re-enter the index decoder once, which may fall back to the base
/// decoder once.
pub open spec fn opcode_rank(opcode: u8) -> int {
    if opcode == 0xDD || opcode == 0xFD {
        2
    } else {
        0
    }
}

/// Base-table cycle cost of each opcode. The four prefix opcodes cost
/// nothing here: their sub-decoders charge instead.
pub fn cyc_00(opcode: u8) -> (c: u8)
    ensures
        opcode == 0x00 ==> c == 4,
        opcode == 0x76 ==> c == 4,
        opcode == 0xF3 ==> c == 4,
        opcode == 0xFB ==> c == 4,
        opcode == 0x78 ==> c == 4,
        opcode == 0x80 ==> c == 4,
        opcode == 0xC3 ==> c == 10,
        (opcode == 0xCB || opcode == 0xDD || opcode == 0xED || opcode == 0xFD) <==> c == 0,
        c == 0 || c >= 4,
        c == spec_cyc_00(opcode),
{
    let t: [u8; 256] = [
        4, 10, 7, 6, 4, 4, 7, 4, 4, 11, 7, 6, 4, 4, 7, 4, 8, 10, 7, 6, 4, 4, 7, 4, 12, 11, 7, 6, 4, 4,
    7, 4, 7, 10, 16, 6, 4, 4, 7, 4, 7, 11, 16, 6, 4, 4, 7, 4, 7, 10, 13, 6, 11, 11, 10, 4, 7, 11,
    13, 6, 4, 4, 7, 4, 4, 4, 4, 4, 4, 4, 7, 4, 4, 4, 4, 4, 4, 4, 7, 4, 4, 4, 4, 4, 4, 4, 7, 4, 4,
    4, 4, 4, 4, 4, 7, 4, 4, 4, 4, 4, 4, 4, 7, 4, 4, 4, 4, 4, 4, 4, 7, 4, 7, 7, 7, 7, 7, 7, 4, 7, 4,
    4, 4, 4, 4, 4, 7, 4, 4, 4, 4, 4, 4, 4, 7, 4, 4, 4, 4, 4, 4, 4, 7, 4, 4, 4, 4, 4, 4, 4, 7, 4, 4,
    4, 4, 4, 4, 4, 7, 4, 4, 4, 4, 4, 4, 4, 7, 4, 4, 4, 4, 4, 4, 4, 7, 4, 4, 4, 4, 4, 4, 4, 7, 4, 4,
    4, 4, 4, 4, 4, 7, 4, 5, 10, 10, 10, 10, 11, 7, 11, 5, 10, 10, 0, 10, 17, 7, 11, 5, 10, 10, 11,
    10, 11, 7, 11, 5, 4, 10, 11, 10, 0, 7, 11, 5, 10, 10, 19, 10, 11, 7, 11, 5, 4, 10, 4, 10, 0, 7,
    11, 5, 10, 10, 4, 10, 11, 7, 11, 5, 6, 10, 4, 10, 0, 7, 11,
    ];
    t[opcode as usize]
}

/// Extended-table cycle cost of each opcode.
pub fn cyc_ed(opcode: u8) -> (c: u8)
    ensures
        c >= 8,
        c == spec_cyc_ed(opcode),
{
    let t: [u8; 256] = [
        8, 8, 8, 8, 8, 8, 8, 8, 8, 8, 8, 8, 8, 8, 8, 8, 8, 8, 8, 8, 8, 8, 8, 8, 8, 8, 8, 8, 8, 8, 8, 8,
    8, 8, 8, 8, 8, 8, 8, 8, 8, 8, 8, 8, 8, 8, 8, 8, 8, 8, 8, 8, 8, 8, 8, 8, 8, 8, 8, 8, 8, 8, 8, 8,
    12, 12, 15, 20, 8, 14, 8, 9, 12, 12, 15, 20, 8, 14, 8, 9, 12, 12, 15, 20, 8, 14, 8, 9, 12, 12,
    15, 20, 8, 14, 8, 9, 12, 12, 15, 20, 8, 14, 8, 18, 12, 12, 15, 20, 8, 14, 8, 18, 12, 12, 15,
    20, 8, 14, 8, 8, 12, 12, 15, 20, 8, 14, 8, 8, 8, 8, 8, 8, 8, 8, 8, 8, 8, 8, 8, 8, 8, 8, 8, 8,
    8, 8, 8, 8, 8, 8, 8, 8, 8, 8, 8, 8, 8, 8, 8, 8, 16, 16, 16, 16, 8, 8, 8, 8, 16, 16, 16, 16, 8,
    8, 8, 8, 16, 16, 16, 16, 8, 8, 8, 8, 16, 16, 16, 16, 8, 8, 8, 8, 8, 8, 8, 8, 8, 8, 8, 8, 8, 8,
    8, 8, 8, 8, 8, 8, 8, 8, 8, 8, 8, 8, 8, 8, 8, 8, 8, 8, 8, 8, 8, 8, 8, 8, 8, 8, 8, 8, 8, 8, 8, 8,
    8, 8, 8, 8, 8, 8, 8, 8, 8, 8, 8, 8, 8, 8, 8, 8, 8, 8, 8, 8, 8, 8,
    ];
    t[opcode as usize]
}

/// Index-prefixed-table cycle cost of each opcode.
pub fn cyc_ddfd(opcode: u8) -> (c: u8)
    ensures
        opcode == 0xCB <==> c == 0,
        c == 0 || c >= 4,
        c == spec_cyc_ddfd(opcode),
{
    let t: [u8; 256] = [
        4, 4, 4, 4, 4, 4, 4, 4, 4, 15, 4, 4, 4, 4, 4, 4, 4, 4, 4, 4, 4, 4, 4, 4, 4, 15, 4, 4, 4, 4, 4,
    4, 4, 14, 20, 10, 8, 8, 11, 4, 4, 15, 20, 10, 8, 8, 11, 4, 4, 4, 4, 4, 23, 23, 19, 4, 4, 15, 4,
    4, 4, 4, 4, 4, 4, 4, 4, 4, 8, 8, 19, 4, 4, 4, 4, 4, 8, 8, 19, 4, 4, 4, 4, 4, 8, 8, 19, 4, 4, 4,
    4, 4, 8, 8, 19, 4, 8, 8, 8, 8, 8, 8, 19, 8, 8, 8, 8, 8, 8, 8, 19, 8, 19, 19, 19, 19, 19, 19, 4,
    19, 4, 4, 4, 4, 8, 8, 19, 4, 4, 4, 4, 4, 8, 8, 19, 4, 4, 4, 4, 4, 8, 8, 19, 4, 4, 4, 4, 4, 8,
    8, 19, 4, 4, 4, 4, 4, 8, 8, 19, 4, 4, 4, 4, 4, 8, 8, 19, 4, 4, 4, 4, 4, 8, 8, 19, 4, 4, 4, 4,
    4, 8, 8, 19, 4, 4, 4, 4, 4, 8, 8, 19, 4, 4, 4, 4, 4, 4, 4, 4, 4, 4, 4, 4, 0, 4, 4, 4, 4, 4, 4,
    4, 4, 4, 4, 4, 4, 4, 4, 4, 4, 4, 4, 4, 4, 4, 14, 4, 23, 4, 15, 4, 4, 4, 8, 4, 4, 4, 4, 4, 4, 4,
    4, 4, 4, 4, 4, 4, 4, 4, 10, 4, 4, 4, 4, 4, 4,
    ];
    t[opcode as usize]
}

/// The base-table opcodes 0x00 through 0x07, from the already
/// charged state.
#[verifier::rlimit(100)]
#[verifier::spinoff_prover]
fn exec_base_00<B: Bus>(z: &mut z80, bus: &mut B, opcode: u8)
    requires
        old(z).flags_wf(),
        old(bus).inv(),
        0x00 <= opcode <= 0x07,
    ensures
        final(z).flags_wf(),
        final(bus).inv(),
        final(z).cyc >= old(z).cyc,
        *final(z) == crate::model::base_arm_effect(*old(z), old(bus).mem(), opcode),
        final(bus).mem() == crate::model::base_arm_mem(*old(z), old(bus).mem(), opcode),
{
    proof {
        reveal(crate::model::base_arm_effect_x00);
        reveal(crate::model::base_arm_mem_x00);
    }
    match opcode {
        0x06 => {
            z.b = nextb(z, bus);
        } // ld b,*
        0x02 => {
            let temp = get_bc(z);
            wb(bus, temp, z.a);
            z.mem_ptr = ((z.a as u16) << 8) | ((get_bc(z).wrapping_add(1)) & 0xFF);
            // ld (bc),a
        }
        0x01 => {
            let temp = nextw(z, bus);
            set_bc(z, temp);
        } // ld bc,**
        0x00 => {} // nop
        0x04 => {
            z.b = inc(z, z.b);
        } // inc b
        0x05 => {
            z.b = dec(z, z.b);
        } // dec b
        0x03 => {
            let temp = get_bc(z);
            set_bc(z, temp.wrapping_add(1));
        } // inc bc
        0x07 => {
            z.cf = z.a >> 7;
            z.a = (z.a << 1) | z.cf;
            z.nf = 0;
            z.hf = 0;
            z.xf = GET_BIT(3, z.a);
            z.yf = GET_BIT(5, z.a);
        } // rlca (rotate left)
        _ => {
        }
    }
}

/// The base-table opcodes 0x08 through 0x0F, from the already
/// charged state.
#[verifier::rlimit(100)]
#[verifier::spinoff_prover]
fn exec_base_08<B: Bus>(z: &mut z80, bus: &mut B, opcode: u8)
    requires
        old(z).flags_wf(),
        old(bus).inv(),
        0x08 <= opcode <= 0x0F,
    ensures
        final(z).flags_wf(),
        final(bus).inv(),
        final(z).cyc >= old(z).cyc,
        *final(z) == crate::model::base_arm_effect(*old(z), old(bus).mem(), opcode),
        final(bus).mem() == crate::model::base_arm_mem(*old(z), old(bus).mem(), opcode),
{
    proof {
        reveal(crate::model::base_arm_effect_x00);
        reveal(crate::model::base_arm_mem_x00);
    }
    match opcode {
        0x0E => {
            z.c = nextb(z, bus);
        } // ld c,*
        0x0A => {
            let temp = get_bc(z);
            z.a = rb(bus, temp);
            z.mem_ptr = get_bc(z).wrapping_add(1);
            // ld a,(bc)
        }
        0x09 => {
            let temp = get_bc(z);
            addhl(z, temp);
        } // add hl,bc
        0x0C => {
            z.c = inc(z, z.c);
        } // inc c
        0x0D => {
            z.c = dec(z, z.c);
        } // dec c
        0x0B => {
            let temp = get_bc(z);
            set_bc(z, temp.wrapping_sub(1));
        } // dec bc
        0x0F => {
            z.cf = z.a & 1;
            z.a = (z.a >> 1) | (z.cf << 7);
            z.nf = 0;
            z.hf = 0;
            z.xf = GET_BIT(3, z.a);
            z.yf = GET_BIT(5, z.a);
        } // rrca (rotate right)
        0x08 => {
            let a: u8 = z.a;
            let f: u8 = get_f(z);

            z.a = z.a_;
            set_f(z, z.f_);

            z.a_ = a;
            z.f_ = f;
        } // ex af,af'
        _ => {
        }
    }
}


/// The base-table opcodes 0x10 through 0x17, from the already
/// charged state.
#[verifier::rlimit(100)]
#[verifier::spinoff_prover]
fn exec_base_10<B: Bus>(z: &mut z80, bus: &mut B, opcode: u8)
    requires
        old(z).flags_wf(),
        old(bus).inv(),
        0x10 <= opcode <= 0x17,
    ensures
        final(z).flags_wf(),
        final(bus).inv(),
        final(z).cyc >= old(z).cyc,
        *final(z) == crate::model::base_arm_effect(*old(z), old(bus).mem(), opcode),
        final(bus).mem() == crate::model::base_arm_mem(*old(z), old(bus).mem(), opcode),
{
    proof {
        reveal(crate::model::base_arm_effect_x10);
        reveal(crate::model::base_arm_mem_x10);
    }
    match opcode {
        0x16 => {
            z.d = nextb(z, bus);
        } // ld d,*
        0x12 => {
            let temp = get_de(z);
            wb(bus, temp, z.a);
            z.mem_ptr = ((z.a as u16) << 8) | ((get_de(z).wrapping_add(1)) & 0xFF);
            // ld (de),a
        }
        0x11 => {
            let temp = nextw(z, bus);
            set_de(z, temp);
        } // ld de,**
        0x14 => {
            z.d = inc(z, z.d);
        } // inc d
        0x15 => {
            z.d = dec(z, z.d);
        } // dec d
        0x13 => {
            let temp = get_de(z);
            set_de(z, temp.wrapping_add(1));
        } // inc de
        0x17 => {
            let cy: u8 = z.cf;
            let cy_ = cy & 0x01;
            z.cf = z.a >> 7;
            z.a = (z.a << 1) | cy_;
            z.nf = 0;
            z.hf = 0;
            z.xf = GET_BIT(3, z.a);
            z.yf = GET_BIT(5, z.a);
        } // rla
        0x10 => {
            let condition: bool;
            z.b = z.b.wrapping_sub(1);
            if z.b != 0 {
                condition = true;
            } else {
                condition = false;
            }
            cond_jr(z, bus, condition);
        } // djnz *
        _ => {
        }
    }
}

/// The base-table opcodes 0x18 through 0x1F, from the already
/// charged state.
#[verifier::rlimit(100)]
#[verifier::spinoff_prover]
fn exec_base_18<B: Bus>(z: &mut z80, bus: &mut B, opcode: u8)
    requires
        old(z).flags_wf(),
        old(bus).inv(),
        0x18 <= opcode <= 0x1F,
    ensures
        final(z).flags_wf(),
        final(bus).inv(),
        final(z).cyc >= old(z).cyc,
        *final(z) == crate::model::base_arm_effect(*old(z), old(bus).mem(), opcode),
        final(bus).mem() == crate::model::base_arm_mem(*old(z), old(bus).mem(), opcode),
{
    proof {
        reveal(crate::model::base_arm_effect_x10);
        reveal(crate::model::base_arm_mem_x10);
    }
    match opcode {
        0x1E => {
            z.e = nextb(z, bus);
        } // ld e,*
        0x1A => {
            let temp = get_de(z);
            z.a = rb(bus, temp);
            z.mem_ptr = get_de(z).wrapping_add(1);
            // ld a,(de)
        }
        0x19 => {
            let temp = get_de(z);
            addhl(z, temp);
        } // add hl,de
        0x1C => {
            z.e = inc(z, z.e);
        } // inc e
        0x1D => {
            z.e = dec(z, z.e);
        } // dec e
        0x1B => {
            let temp = get_de(z);
            set_de(z, temp.wrapping_sub(1));
        } // dec de
        0x1F => {
            let cy: u8 = z.cf;
            let cy_ = cy & 0x01;
            z.cf = z.a & 1;
            z.a = (z.a >> 1) | (cy_ << 7);
            z.nf = 0;
            z.hf = 0;
            z.xf = GET_BIT(3, z.a);
            z.yf = GET_BIT(5, z.a);
        } // rra
        0x18 => {
            let temp = nextb(z, bus) as i8;
            z.pc = z.pc.wrapping_add(temp as u16);
        } // jr *
        _ => {
        }
    }
}


/// The base-table opcodes 0x20 through 0x27, from the already
/// charged state.
#[verifier::rlimit(100)]
#[verifier::spinoff_prover]
fn exec_base_20<B: Bus>(z: &mut z80, bus: &mut B, opcode: u8)
    requires
        old(z).flags_wf(),
        old(bus).inv(),
        0x20 <= opcode <= 0x27,
    ensures
        final(z).flags_wf(),
        final(bus).inv(),
        final(z).cyc >= old(z).cyc,
        *final(z) == crate::model::base_arm_effect(*old(z), old(bus).mem(), opcode),
        final(bus).mem() == crate::model::base_arm_mem(*old(z), old(bus).mem(), opcode),
{
    proof {
        reveal(crate::model::base_arm_effect_x20);
        reveal(crate::model::base_arm_mem_x20);
    }
    match opcode {
        0x26 => {
            z.h = nextb(z, bus);
        } // ld h,*
        0x21 => {
            let temp = nextw(z, bus);
            set_hl(z, temp);
        } // ld hl,**
        0x22 => {
            let addr: u16 = nextw(z, bus);
            let temp = get_hl(z);
            ww(bus, addr, temp);
            z.mem_ptr = addr.wrapping_add(1);
        } // ld (**),hl
        0x24 => {
            z.h = inc(z, z.h);
        } // inc h
        0x25 => {
            z.h = dec(z, z.h);
        } // dec h
        0x23 => {
            let temp = get_hl(z);
            set_hl(z, temp.wrapping_add(1));
        } // inc hl
        0x27 => {
            daa(z);
        } // daa
        0x20 => {
            cond_jr(z, bus, z.zf == 0);
        } // jr nz, *
        _ => {
        }
    }
}

/// The base-table opcodes 0x28 through 0x2F, from the already
/// charged state.
#[verifier::rlimit(100)]
#[verifier::spinoff_prover]
fn exec_base_28<B: Bus>(z: &mut z80, bus: &mut B, opcode: u8)
    requires
        old(z).flags_wf(),
        old(bus).inv(),
        0x28 <= opcode <= 0x2F,
    ensures
        final(z).flags_wf(),
        final(bus).inv(),
        final(z).cyc >= old(z).cyc,
        *final(z) == crate::model::base_arm_effect(*old(z), old(bus).mem(), opcode),
        final(bus).mem() == crate::model::base_arm_mem(*old(z), old(bus).mem(), opcode),
{
    proof {
        reveal(crate::model::base_arm_effect_x20);
        reveal(crate::model::base_arm_mem_x20);
    }
    match opcode {
        0x2E => {
            z.l = nextb(z, bus);
        } // ld l,*
        0x2A => {
            let addr: u16 = nextw(z, bus);
            let temp = rw(bus, addr);
            set_hl(z, temp);
            z.mem_ptr = addr.wrapping_add(1);
        } // ld hl,(**)
        0x29 => {
            let temp = get_hl(z);
            addhl(z, temp);
        } // add hl,hl
        0x2C => {
            z.l = inc(z, z.l);
        } // inc l
        0x2D => {
            z.l = dec(z, z.l);
        } // dec l
        0x2B => {
            let temp = get_hl(z);
            set_hl(z, temp.wrapping_sub(1));
        } // dec hl
        0x2F => {
            z.a = !z.a;
            z.nf = 1;
            z.hf = 1;
            z.xf = GET_BIT(3, z.a);
            z.yf = GET_BIT(5, z.a);
            // cpl
        }
        0x28 => {
            cond_jr(z, bus, z.zf == 1);
        } // jr z, *
        _ => {
        }
    }
}


/// The base-table opcodes 0x30 through 0x37, from the already
/// charged state.
#[verifier::rlimit(100)]
#[verifier::spinoff_prover]
fn exec_base_30<B: Bus>(z: &mut z80, bus: &mut B, opcode: u8)
    requires
        old(z).flags_wf(),
        old(bus).inv(),
        0x30 <= opcode <= 0x37,
    ensures
        final(z).flags_wf(),
        final(bus).inv(),
        final(z).cyc >= old(z).cyc,
        *final(z) == crate::model::base_arm_effect(*old(z), old(bus).mem(), opcode),
        final(bus).mem() == crate::model::base_arm_mem(*old(z), old(bus).mem(), opcode),
{
    proof {
        reveal(crate::model::base_arm_effect_x30);
        reveal(crate::model::base_arm_mem_x30);
    }
    match opcode {
        0x36 => {
            let temp1 = get_hl(z);
            let temp2 = nextb(z, bus);
            wb(bus, temp1, temp2);
        } // ld (hl),*
        0x32 => {
            let addr: u16 = nextw(z, bus);
            wb(bus, addr, z.a);
            z.mem_ptr = ((z.a as u16) << 8) | ((addr.wrapping_add(1)) & 0xFF);
        } // ld (**),a
        0x31 => {
            z.sp = nextw(z, bus);
        } // ld sp,**
        0x34 => {
            let temp1 = get_hl(z);
            let temp2 = rb(bus, temp1);
            let result: u16 = inc(z, temp2) as u16;
            let temp3 = get_hl(z);
            wb(bus, temp3, result as u8);
        } // inc (hl)
        0x35 => {
            let temp1 = get_hl(z);
            let temp2 = rb(bus, temp1);
            let result: u16 = dec(z, temp2) as u16;
            let temp3 = get_hl(z);
            wb(bus, temp3, result as u8);
        } // dec (hl)
        0x33 => {
            z.sp = z.sp.wrapping_add(1);
        } // inc sp
        0x37 => {
            z.cf = 1;
            z.nf = 0;
            z.hf = 0;
            z.xf = GET_BIT(3, z.a);
            z.yf = GET_BIT(5, z.a);
            // scf
        }
        0x30 => {
            cond_jr(z, bus, z.cf == 0);
        } // jr nc, *
        _ => {
        }
    }
}

/// The base-table opcodes 0x38 through 0x3F, from the already
/// charged state.
#[verifier::rlimit(100)]
#[verifier::spinoff_prover]
fn exec_base_38<B: Bus>(z: &mut z80, bus: &mut B, opcode: u8)
    requires
        old(z).flags_wf(),
        old(bus).inv(),
        0x38 <= opcode <= 0x3F,
    ensures
        final(z).flags_wf(),
        final(bus).inv(),
        final(z).cyc >= old(z).cyc,
        *final(z) == crate::model::base_arm_effect(*old(z), old(bus).mem(), opcode),
        final(bus).mem() == crate::model::base_arm_mem(*old(z), old(bus).mem(), opcode),
{
    proof {
        reveal(crate::model::base_arm_effect_x30);
        reveal(crate::model::base_arm_mem_x30);
    }
    match opcode {
        0x3E => {
            z.a = nextb(z, bus);
        } // ld a,*
        0x3A => {
            let addr: u16 = nextw(z, bus);
            z.a = rb(bus, addr);
            z.mem_ptr = addr.wrapping_add(1);
        } // ld a,(**)
        0x39 => {
            addhl(z, z.sp);
        } // add hl,sp
        0x3C => {
            z.a = inc(z, z.a);
        } // inc a
        0x3D => {
            z.a = dec(z, z.a);
        } // dec a
        0x3B => {
            z.sp = z.sp.wrapping_sub(1);
        } // dec sp
        0x3F => {
            z.hf = z.cf;
            z.cf = !z.cf & 0x1;
            z.nf = 0;
            z.xf = GET_BIT(3, z.a);
            z.yf = GET_BIT(5, z.a);
            // ccf
        }
        0x38 => {
            cond_jr(z, bus, z.cf == 1);
        } // jr c, *
        _ => {
        }
    }
}


/// The base-table opcodes 0x40 through 0x4F, from the already
/// charged state.
#[verifier::rlimit(100)]
#[verifier::spinoff_prover]
fn exec_base_40<B: Bus>(z: &mut z80, bus: &mut B, opcode: u8)
    requires
        old(z).flags_wf(),
        old(bus).inv(),
        0x40 <= opcode <= 0x4F,
    ensures
        final(z).flags_wf(),
        final(bus).inv(),
        final(z).cyc >= old(z).cyc,
        *final(z) == crate::model::base_arm_effect(*old(z), old(bus).mem(), opcode),
        final(bus).mem() == crate::model::base_arm_mem(*old(z), old(bus).mem(), opcode),
{
    proof {
        reveal(crate::model::base_arm_effect_x40);
        reveal(crate::model::base_arm_mem_x40);
    }
    match opcode {
        0x47 => {
            z.b = z.a;
        } // ld b,a
        0x40 => {
            z.b = z.b;
        } // ld b,b
        0x41 => {
            z.b = z.c;
        } // ld b,c
        0x42 => {
            z.b = z.d;
        } // ld b,d
        0x43 => {
            z.b = z.e;
        } // ld b,e
        0x44 => {
            z.b = z.h;
        } // ld b,h
        0x45 => {
            z.b = z.l;
        } // ld b,l
        0x4F => {
            z.c = z.a;
        } // ld c,a
        0x48 => {
            z.c = z.b;
        } // ld c,b
        0x49 => {
            z.c = z.c;
        } // ld c,c
        0x4A => {
            z.c = z.d;
        } // ld c,d
        0x4B => {
            z.c = z.e;
        } // ld c,e
        0x4C => {
            z.c = z.h;
        } // ld c,h
        0x4D => {
            z.c = z.l;
        } // ld c,l
        0x46 => {
            let result = get_hl(z);
            z.b = rb(bus, result);
        } // ld b,(hl)
        0x4E => {
            let result = get_hl(z);
            z.c = rb(bus, result);
        } // ld c,(hl)
        _ => {
        }
    }
}

/// The base-table opcodes 0x50 through 0x5F, from the already
/// charged state.
#[verifier::rlimit(100)]
#[verifier::spinoff_prover]
fn exec_base_50<B: Bus>(z: &mut z80, bus: &mut B, opcode: u8)
    requires
        old(z).flags_wf(),
        old(bus).inv(),
        0x50 <= opcode <= 0x5F,
    ensures
        final(z).flags_wf(),
        final(bus).inv(),
        final(z).cyc >= old(z).cyc,
        *final(z) == crate::model::base_arm_effect(*old(z), old(bus).mem(), opcode),
        final(bus).mem() == crate::model::base_arm_mem(*old(z), old(bus).mem(), opcode),
{
    proof {
        reveal(crate::model::base_arm_effect_x50);
        reveal(crate::model::base_arm_mem_x50);
    }
    match opcode {
        0x57 => {
            z.d = z.a;
        } // ld d,a
        0x50 => {
            z.d = z.b;
        } // ld d,b
        0x51 => {
            z.d = z.c;
        } // ld d,c
        0x52 => {
            z.d = z.d;
        } // ld d,d
        0x53 => {
            z.d = z.e;
        } // ld d,e
        0x54 => {
            z.d = z.h;
        } // ld d,h
        0x55 => {
            z.d = z.l;
        } // ld d,l
        0x5F => {
            z.e = z.a;
        } // ld e,a
        0x58 => {
            z.e = z.b;
        } // ld e,b
        0x59 => {
            z.e = z.c;
        } // ld e,c
        0x5A => {
            z.e = z.d;
        } // ld e,d
        0x5B => {
            z.e = z.e;
        } // ld e,e
        0x5C => {
            z.e = z.h;
        } // ld e,h
        0x5D => {
            z.e = z.l;
        } // ld e,l
        0x56 => {
            let result = get_hl(z);
            z.d = rb(bus, result);
        } // ld d,(hl)
        0x5E => {
            let result = get_hl(z);
            z.e = rb(bus, result);
        } // ld e,(hl)
        _ => {
        }
    }
}

/// The base-table opcodes 0x60 through 0x6F, from the already
/// charged state.
#[verifier::rlimit(100)]
#[verifier::spinoff_prover]
fn exec_base_60<B: Bus>(z: &mut z80, bus: &mut B, opcode: u8)
    requires
        old(z).flags_wf(),
        old(bus).inv(),
        0x60 <= opcode <= 0x6F,
    ensures
        final(z).flags_wf(),
        final(bus).inv(),
        final(z).cyc >= old(z).cyc,
        *final(z) == crate::model::base_arm_effect(*old(z), old(bus).mem(), opcode),
        final(bus).mem() == crate::model::base_arm_mem(*old(z), old(bus).mem(), opcode),
{
    proof {
        reveal(crate::model::base_arm_effect_x60);
        reveal(crate::model::base_arm_mem_x60);
    }
    match opcode {
        0x67 => {
            z.h = z.a;
        } // ld h,a
        0x60 => {
            z.h = z.b;
        } // ld h,b
        0x61 => {
            z.h = z.c;
        } // ld h,c
        0x62 => {
            z.h = z.d;
        } // ld h,d
        0x63 => {
            z.h = z.e;
        } // ld h,e
        0x64 => {
            z.h = z.h;
        } // ld h,h
        0x65 => {
            z.h = z.l;
        } // ld h,l
        0x6F => {
            z.l = z.a;
        } // ld l,a
        0x68 => {
            z.l = z.b;
        } // ld l,b
        0x69 => {
            z.l = z.c;
        } // ld l,c
        0x6A => {
            z.l = z.d;
        } // ld l,d
        0x6B => {
            z.l = z.e;
        } // ld l,e
        0x6C => {
            z.l = z.h;
        } // ld l,h
        0x6D => {
            z.l = z.l;
        } // ld l,l
        0x66 => {
            let result = get_hl(z);
            z.h = rb(bus, result);
        } // ld h,(hl)
        0x6E => {
            let result = get_hl(z);
            z.l = rb(bus, result);
        } // ld l,(hl)
        _ => {
        }
    }
}

/// The base-table opcodes 0x70 through 0x7F, from the already
/// charged state.
#[verifier::rlimit(100)]
#[verifier::spinoff_prover]
fn exec_base_70<B: Bus>(z: &mut z80, bus: &mut B, opcode: u8)
    requires
        old(z).flags_wf(),
        old(bus).inv(),
        0x70 <= opcode <= 0x7F,
    ensures
        final(z).flags_wf(),
        final(bus).inv(),
        final(z).cyc >= old(z).cyc,
        *final(z) == crate::model::base_arm_effect(*old(z), old(bus).mem(), opcode),
        final(bus).mem() == crate::model::base_arm_mem(*old(z), old(bus).mem(), opcode),
{
    proof {
        reveal(crate::model::base_arm_effect_x70);
        reveal(crate::model::base_arm_mem_x70);
    }
    match opcode {
        0x7F => {
            z.a = z.a;
        } // ld a,a
        0x78 => {
            z.a = z.b;
        } // ld a,b
        0x79 => {
            z.a = z.c;
        } // ld a,c
        0x7A => {
            z.a = z.d;
        } // ld a,d
        0x7B => {
            z.a = z.e;
        } // ld a,e
        0x7C => {
            z.a = z.h;
        } // ld a,h
        0x7D => {
            z.a = z.l;
        } // ld a,l
        0x7E => {
            let result = get_hl(z);
            z.a = rb(bus, result);
        } // ld a,(hl)
        0x77 => {
            let result = get_hl(z);
            wb(bus, result, z.a);
        } // ld (hl),a
        0x70 => {
            let result = get_hl(z);
            wb(bus, result, z.b);
        } // ld (hl),b
        0x71 => {
            let result = get_hl(z);
            wb(bus, result, z.c);
        } // ld (hl),c
        0x72 => {
            let result = get_hl(z);
            wb(bus, result, z.d);
        } // ld (hl),d
        0x73 => {
            let result = get_hl(z);
            wb(bus, result, z.e);
        } // ld (hl),e
        0x74 => {
            let result = get_hl(z);
            wb(bus, result, z.h);
        } // ld (hl),h
        0x75 => {
            let result = get_hl(z);
            wb(bus, result, z.l);
        } // ld (hl),l
        0x76 => {
            z.halted = true;
        } // halt
        _ => {
        }
    }
}

/// The base-table opcodes 0x80 through 0x8F, from the already
/// charged state.
#[verifier::rlimit(100)]
#[verifier::spinoff_prover]
fn exec_base_80<B: Bus>(z: &mut z80, bus: &mut B, opcode: u8)
    requires
        old(z).flags_wf(),
        old(bus).inv(),
        0x80 <= opcode <= 0x8F,
    ensures
        final(z).flags_wf(),
        final(bus).inv(),
        final(z).cyc >= old(z).cyc,
        *final(z) == crate::model::base_arm_effect(*old(z), old(bus).mem(), opcode),
        final(bus).mem() == crate::model::base_arm_mem(*old(z), old(bus).mem(), opcode),
{
    proof {
        reveal(crate::model::base_arm_effect_x80);
        reveal(crate::model::base_arm_mem_x80);
    }
    match opcode {
        0x87 => {
            z.a = addb(z, z.a, z.a, 0);
        } // add a,a
        0x80 => {
            z.a = addb(z, z.a, z.b, 0);
        } // add a,b
        0x81 => {
            z.a = addb(z, z.a, z.c, 0);
        } // add a,c
        0x82 => {
            z.a = addb(z, z.a, z.d, 0);
        } // add a,d
        0x83 => {
            z.a = addb(z, z.a, z.e, 0);
        } // add a,e
        0x84 => {
            z.a = addb(z, z.a, z.h, 0);
        } // add a,h
        0x85 => {
            z.a = addb(z, z.a, z.l, 0);
        } // add a,l
        0x86 => {
            let temp1 = get_hl(z);
            let temp2 = rb(bus, temp1);
            z.a = addb(z, z.a, temp2, 0);
        } // add a,(hl)
        0x8F => {
            z.a = addb(z, z.a, z.a, z.cf);
        } // adc a,a
        0x88 => {
            z.a = addb(z, z.a, z.b, z.cf);
        } // adc a,b
        0x89 => {
            z.a = addb(z, z.a, z.c, z.cf);
        } // adc a,c
        0x8A => {
            z.a = addb(z, z.a, z.d, z.cf);
        } // adc a,d
        0x8B => {
            z.a = addb(z, z.a, z.e, z.cf);
        } // adc a,e
        0x8C => {
            z.a = addb(z, z.a, z.h, z.cf);
        } // adc a,h
        0x8D => {
            z.a = addb(z, z.a, z.l, z.cf);
        } // adc a,l
        0x8E => {
            let temp1 = get_hl(z);
            let temp2 = rb(bus, temp1);
            z.a = addb(z, z.a, temp2, z.cf);
        } // adc a,(hl)
        _ => {
        }
    }
}

/// The base-table opcodes 0x90 through 0x9F, from the already
/// charged state.
#[verifier::rlimit(100)]
#[verifier::spinoff_prover]
fn exec_base_90<B: Bus>(z: &mut z80, bus: &mut B, opcode: u8)
    requires
        old(z).flags_wf(),
        old(bus).inv(),
        0x90 <= opcode <= 0x9F,
    ensures
        final(z).flags_wf(),
        final(bus).inv(),
        final(z).cyc >= old(z).cyc,
        *final(z) == crate::model::base_arm_effect(*old(z), old(bus).mem(), opcode),
        final(bus).mem() == crate::model::base_arm_mem(*old(z), old(bus).mem(), opcode),
{
    proof {
        reveal(crate::model::base_arm_effect_x90);
        reveal(crate::model::base_arm_mem_x90);
    }
    match opcode {
        0x97 => {
            z.a = subb(z, z.a, z.a, 0);
        } // sub a,a
        0x90 => {
            z.a = subb(z, z.a, z.b, 0);
        } // sub a,b
        0x91 => {
            z.a = subb(z, z.a, z.c, 0);
        } // sub a,c
        0x92 => {
            z.a = subb(z, z.a, z.d, 0);
        } // sub a,d
        0x93 => {
            z.a = subb(z, z.a, z.e, 0);
        } // sub a,e
        0x94 => {
            z.a = subb(z, z.a, z.h, 0);
        } // sub a,h
        0x95 => {
            z.a = subb(z, z.a, z.l, 0);
        } // sub a,l
        0x96 => {
            let temp1 = get_hl(z);
            let temp2 = rb(bus, temp1);
            z.a = subb(z, z.a, temp2, 0);
        } // sub a,(hl)
        0x9F => {
            z.a = subb(z, z.a, z.a, z.cf);
        } // sbc a,a
        0x98 => {
            z.a = subb(z, z.a, z.b, z.cf);
        } // sbc a,b
        0x99 => {
            z.a = subb(z, z.a, z.c, z.cf);
        } // sbc a,c
        0x9A => {
            z.a = subb(z, z.a, z.d, z.cf);
        } // sbc a,d
        0x9B => {
            z.a = subb(z, z.a, z.e, z.cf);
        } // sbc a,e
        0x9C => {
            z.a = subb(z, z.a, z.h, z.cf);
        } // sbc a,h
        0x9D => {
            z.a = subb(z, z.a, z.l, z.cf);
        } // sbc a,l
        0x9E => {
            let temp1 = get_hl(z);
            let temp2 = rb(bus, temp1);
            z.a = subb(z, z.a, temp2, z.cf);
        } // sbc a,(hl)
        _ => {
        }
    }
}

/// The base-table opcodes 0xA0 through 0xAF, from the already
/// charged state.
#[verifier::rlimit(100)]
#[verifier::spinoff_prover]
fn exec_base_a0<B: Bus>(z: &mut z80, bus: &mut B, opcode: u8)
    requires
        old(z).flags_wf(),
        old(bus).inv(),
        0xA0 <= opcode <= 0xAF,
    ensures
        final(z).flags_wf(),
        final(bus).inv(),
        final(z).cyc >= old(z).cyc,
        *final(z) == crate::model::base_arm_effect(*old(z), old(bus).mem(), opcode),
        final(bus).mem() == crate::model::base_arm_mem(*old(z), old(bus).mem(), opcode),
{
    proof {
        reveal(crate::model::base_arm_effect_xa0);
        reveal(crate::model::base_arm_mem_xa0);
    }
    match opcode {
        0xA7 => {
            land(z, z.a);
        } // and a
        0xA0 => {
            land(z, z.b);
        } // and b
        0xA1 => {
            land(z, z.c);
        } // and c
        0xA2 => {
            land(z, z.d);
        } // and d
        0xA3 => {
            land(z, z.e);
        } // and e
        0xA4 => {
            land(z, z.h);
        } // and h
        0xA5 => {
            land(z, z.l);
        } // and l
        0xA6 => {
            let temp1 = get_hl(z);
            let temp2 = rb(bus, temp1);
            land(z, temp2);
        } // and (hl)
        0xAF => {
            lxor(z, z.a);
        } // xor a
        0xA8 => {
            lxor(z, z.b);
        } // xor b
        0xA9 => {
            lxor(z, z.c);
        } // xor c
        0xAA => {
            lxor(z, z.d);
        } // xor d
        0xAB => {
            lxor(z, z.e);
        } // xor e
        0xAC => {
            lxor(z, z.h);
        } // xor h
        0xAD => {
            lxor(z, z.l);
        } // xor l
        0xAE => {
            let temp1 = get_hl(z);
            let temp2 = rb(bus, temp1);
            lxor(z, temp2);
        } // xor (hl)
        _ => {
        }
    }
}

/// The base-table opcodes 0xB0 through 0xBF, from the already
/// charged state.
#[verifier::rlimit(100)]
#[verifier::spinoff_prover]
fn exec_base_b0<B: Bus>(z: &mut z80, bus: &mut B, opcode: u8)
    requires
        old(z).flags_wf(),
        old(bus).inv(),
        0xB0 <= opcode <= 0xBF,
    ensures
        final(z).flags_wf(),
        final(bus).inv(),
        final(z).cyc >= old(z).cyc,
        *final(z) == crate::model::base_arm_effect(*old(z), old(bus).mem(), opcode),
        final(bus).mem() == crate::model::base_arm_mem(*old(z), old(bus).mem(), opcode),
{
    proof {
        reveal(crate::model::base_arm_effect_xb0);
        reveal(crate::model::base_arm_mem_xb0);
    }
    match opcode {
        0xB7 => {
            lor(z, z.a);
        } // or a
        0xB0 => {
            lor(z, z.b);
        } // or b
        0xB1 => {
            lor(z, z.c);
        } // or c
        0xB2 => {
            lor(z, z.d);
        } // or d
        0xB3 => {
            lor(z, z.e);
        } // or e
        0xB4 => {
            lor(z, z.h);
        } // or h
        0xB5 => {
            lor(z, z.l);
        } // or l
        0xB6 => {
            let temp1 = get_hl(z);
            let temp2 = rb(bus, temp1);
            lor(z, temp2);
        } // or (hl)
        0xBF => {
            cp(z, z.a);
        } // cp a
        0xB8 => {
            cp(z, z.b);
        } // cp b
        0xB9 => {
            cp(z, z.c);
        } // cp c
        0xBA => {
            cp(z, z.d);
        } // cp d
        0xBB => {
            cp(z, z.e);
        } // cp e
        0xBC => {
            cp(z, z.h);
        } // cp h
        0xBD => {
            cp(z, z.l);
        } // cp l
        0xBE => {
            let temp1 = get_hl(z);
            let temp2 = rb(bus, temp1);
            cp(z, temp2);
        } // cp (hl)
        _ => {
        }
    }
}

/// The base-table opcodes 0xC0 through 0xCF, from the already
/// charged state.
#[verifier::rlimit(100)]
#[verifier::spinoff_prover]
fn exec_base_c0<B: Bus>(z: &mut z80, bus: &mut B, opcode: u8)
    requires
        old(z).flags_wf(),
        old(bus).inv(),
        0xC0 <= opcode <= 0xCF,
        opcode != 0xCB,
    ensures
        final(z).flags_wf(),
        final(bus).inv(),
        final(z).cyc >= old(z).cyc,
        *final(z) == crate::model::base_arm_effect(*old(z), old(bus).mem(), opcode),
        final(bus).mem() == crate::model::base_arm_mem(*old(z), old(bus).mem(), opcode),
{
    proof {
        reveal(crate::model::base_arm_effect_xc0);
        reveal(crate::model::base_arm_mem_xc0);
    }
    match opcode {
        0xC6 => {
            let temp = nextb(z, bus);
            z.a = addb(z, z.a, temp, 0);
        } // add a,*
        0xCE => {
            let temp = nextb(z, bus);
            z.a = addb(z, z.a, temp, z.cf);
        } // adc a,*
        0xC3 => {
            let temp = nextw(z, bus);
            jump(z, temp);
        } // jm **
        0xC2 => {
            cond_jump(z, bus, z.zf == 0);
        } // jp nz, **
        0xCA => {
            cond_jump(z, bus, z.zf == 1);
        } // jp z, **
        0xCD => {
            let temp = nextw(z, bus);
            call(z, bus, temp);
        } // call
        0xC4 => {
            cond_call(z, bus, z.zf == 0);
        } // cnz
        0xCC => {
            cond_call(z, bus, z.zf == 1);
        } // cz
        0xC9 => {
            ret(z, bus);
        } // ret
        0xC0 => {
            cond_ret(z, bus, z.zf == 0);
        } // ret nz
        0xC8 => {
            cond_ret(z, bus, z.zf == 1);
        } // ret z
        0xC7 => {
            call(z, bus, 0x00);
        } // rst 0
        0xCF => {
            call(z, bus, 0x08);
        } // rst 1
        0xC5 => {
            let temp = get_bc(z);
            pushw(z, bus, temp);
        } // push bc
        0xC1 => {
            let temp = popw(z, bus);
            set_bc(z, temp);
        } // pop bc
        _ => {
        }
    }
}

/// The base-table opcodes 0xD0 through 0xDF, from the already
/// charged state.
#[verifier::rlimit(100)]
#[verifier::spinoff_prover]
fn exec_base_d0<B: Bus>(z: &mut z80, bus: &mut B, opcode: u8)
    requires
        old(z).flags_wf(),
        old(bus).inv(),
        0xD0 <= opcode <= 0xDF,
        opcode != 0xDB,
        opcode != 0xDD,
    ensures
        final(z).flags_wf(),
        final(bus).inv(),
        final(z).cyc >= old(z).cyc,
        *final(z) == crate::model::base_arm_effect(*old(z), old(bus).mem(), opcode),
        final(bus).mem() == crate::model::base_arm_mem(*old(z), old(bus).mem(), opcode),
{
    proof {
        reveal(crate::model::base_arm_effect_xd0);
        reveal(crate::model::base_arm_mem_xd0);
    }
    match opcode {
        0xD6 => {
            let temp = nextb(z, bus);
            z.a = subb(z, z.a, temp, 0);
        } // sub a,*
        0xDE => {
            let temp = nextb(z, bus);
            z.a = subb(z, z.a, temp, z.cf);
        } // sbc a,*
        0xD2 => {
            cond_jump(z, bus, z.cf == 0);
        } // jp nc, **
        0xDA => {
            cond_jump(z, bus, z.cf == 1);
        } // jp c, **
        0xD4 => {
            cond_call(z, bus, z.cf == 0);
        } // cnc
        0xDC => {
            cond_call(z, bus, z.cf == 1);
        } // cc
        0xD0 => {
            cond_ret(z, bus, z.cf == 0);
        } // ret nc
        0xD8 => {
            cond_ret(z, bus, z.cf == 1);
        } // ret c
        0xD7 => {
            call(z, bus, 0x10);
        } // rst 2
        0xDF => {
            call(z, bus, 0x18);
        } // rst 3
        0xD5 => {
            let temp = get_de(z);
            pushw(z, bus, temp);
        } // push de
        0xD1 => {
            let temp = popw(z, bus);
            set_de(z, temp);
        } // pop de
        0xD3 => {
            let port: u8 = nextb(z, bus);
            bus.port_out(port, z.a);
            z.mem_ptr = (port as u16 + 1) | ((z.a as u16) << 8);
        } // out (n), a
        0xD9 => {
            let b: u8 = z.b;
            let c: u8 = z.c;
            let d: u8 = z.d;
            let e: u8 = z.e;
            let h: u8 = z.h;
            let l: u8 = z.l;

            z.b = z.b_;
            z.c = z.c_;
            z.d = z.d_;
            z.e = z.e_;
            z.h = z.h_;
            z.l = z.l_;

            z.b_ = b;
            z.c_ = c;
            z.d_ = d;
            z.e_ = e;
            z.h_ = h;
            z.l_ = l;
        } // exx
        _ => {
        }
    }
}

/// The base-table opcodes 0xE0 through 0xE7, from the already
/// charged state.
#[verifier::rlimit(100)]
#[verifier::spinoff_prover]
fn exec_base_e0<B: Bus>(z: &mut z80, bus: &mut B, opcode: u8)
    requires
        old(z).flags_wf(),
        old(bus).inv(),
        0xE0 <= opcode <= 0xE7,
    ensures
        final(z).flags_wf(),
        final(bus).inv(),
        final(z).cyc >= old(z).cyc,
        *final(z) == crate::model::base_arm_effect(*old(z), old(bus).mem(), opcode),
        final(bus).mem() == crate::model::base_arm_mem(*old(z), old(bus).mem(), opcode),
{
    proof {
        reveal(crate::model::base_arm_effect_xe0);
        reveal(crate::model::base_arm_mem_xe0);
    }
    match opcode {
        0xE3 => {
            let val: u16 = rw(bus, z.sp);
            let temp = get_hl(z);
            ww(bus, z.sp, temp);
            set_hl(z, val);
            z.mem_ptr = val;
        } // ex (sp),hl
        0xE6 => {
            let temp = nextb(z, bus);
            land(z, temp);
        } // and *
        0xE2 => {
            cond_jump(z, bus, z.pf == 0);
        } // jp po, **
        0xE4 => {
            cond_call(z, bus, z.pf == 0);
        } // cpo
        0xE0 => {
            cond_ret(z, bus, z.pf == 0);
        } // ret po
        0xE7 => {
            call(z, bus, 0x20);
        } // rst 4
        0xE5 => {
            let temp = get_hl(z);
            pushw(z, bus, temp);
        } // push hl
        0xE1 => {
            let temp = popw(z, bus);
            set_hl(z, temp);
        } // pop hl
        _ => {
        }
    }
}

/// The base-table opcodes 0xE8 through 0xEF, from the already
/// charged state.
#[verifier::rlimit(100)]
#[verifier::spinoff_prover]
fn exec_base_e8<B: Bus>(z: &mut z80, bus: &mut B, opcode: u8)
    requires
        old(z).flags_wf(),
        old(bus).inv(),
        0xE8 <= opcode <= 0xEF,
        opcode != 0xED,
    ensures
        final(z).flags_wf(),
        final(bus).inv(),
        final(z).cyc >= old(z).cyc,
        *final(z) == crate::model::base_arm_effect(*old(z), old(bus).mem(), opcode),
        final(bus).mem() == crate::model::base_arm_mem(*old(z), old(bus).mem(), opcode),
{
    proof {
        reveal(crate::model::base_arm_effect_xe0);
        reveal(crate::model::base_arm_mem_xe0);
    }
    match opcode {
        0xEB => {
            let de: u16 = get_de(z);
            let temp = get_hl(z);
            set_de(z, temp);
            set_hl(z, de);
        } // ex de,hl
        0xEE => {
            let temp = nextb(z, bus);
            lxor(z, temp);
        } // xor *
        0xEA => {
            cond_jump(z, bus, z.pf == 1);
        } // jp pe, **
        0xE9 => {
            z.pc = get_hl(z);
        } // jp (hl)
        0xEC => {
            cond_call(z, bus, z.pf == 1);
        } // cpe
        0xE8 => {
            cond_ret(z, bus, z.pf == 1);
        } // ret pe
        0xEF => {
            call(z, bus, 0x28);
        } // rst 5
        _ => {
        }
    }
}


/// The base-table opcodes 0xF0 through 0xF7, from the already
/// charged state.
#[verifier::rlimit(100)]
#[verifier::spinoff_prover]
fn exec_base_f0<B: Bus>(z: &mut z80, bus: &mut B, opcode: u8)
    requires
        old(z).flags_wf(),
        old(bus).inv(),
        0xF0 <= opcode <= 0xF7,
    ensures
        final(z).flags_wf(),
        final(bus).inv(),
        final(z).cyc >= old(z).cyc,
        *final(z) == crate::model::base_arm_effect(*old(z), old(bus).mem(), opcode),
        final(bus).mem() == crate::model::base_arm_mem(*old(z), old(bus).mem(), opcode),
{
    proof {
        reveal(crate::model::base_arm_effect_xf0);
        reveal(crate::model::base_arm_mem_xf0);
    }
    match opcode {
        0xF3 => {
            z.iff1 = false;
            z.iff2 = false;
            // di
        }
        0xF6 => {
            let temp = nextb(z, bus);
            lor(z, temp);
        } // or *
        0xF2 => {
            cond_jump(z, bus, z.sf == 0);
        } // jp p, **
        0xF4 => {
            cond_call(z, bus, z.sf == 0);
        } // cp
        0xF0 => {
            cond_ret(z, bus, z.sf == 0);
        } // ret p
        0xF7 => {
            call(z, bus, 0x30);
        } // rst 6
        0xF5 => {
            let temp = get_f(z);
            proof {
                crate::flags::lemma_word_bits(z.a, temp);
            }
            pushw(z, bus, ((z.a as u16) << 8) | temp as u16);
        } // push af
        0xF1 => {
            let val: u16 = popw(z, bus);
            proof {
                crate::flags::lemma_word_split(val);
            }
            z.a = (val >> 8) as u8;
            set_f(z, (val & 0xFF) as u8);
        } // pop af
        _ => {
        }
    }
}

/// The base-table opcodes 0xF8 through 0xFF, from the already
/// charged state.
#[verifier::rlimit(100)]
#[verifier::spinoff_prover]
fn exec_base_f8<B: Bus>(z: &mut z80, bus: &mut B, opcode: u8)
    requires
        old(z).flags_wf(),
        old(bus).inv(),
        0xF8 <= opcode <= 0xFF,
        opcode != 0xFD,
    ensures
        final(z).flags_wf(),
        final(bus).inv(),
        final(z).cyc >= old(z).cyc,
        *final(z) == crate::model::base_arm_effect(*old(z), old(bus).mem(), opcode),
        final(bus).mem() == crate::model::base_arm_mem(*old(z), old(bus).mem(), opcode),
{
    proof {
        reveal(crate::model::base_arm_effect_xf0);
        reveal(crate::model::base_arm_mem_xf0);
    }
    match opcode {
        0xF9 => {
            z.sp = get_hl(z);
        } // ld sp,hl
        0xFB => {
            // the enable is delayed: it comes into force only after the
            // instruction following this one has executed, so a request
            // pending across both is serviced one step later still
            z.iff_delay = 2;
        } // ei
        0xFE => {
            let temp = nextb(z, bus);
            cp(z, temp);
        } // cp *
        0xFA => {
            cond_jump(z, bus, z.sf == 1);
        } // jp m, **
        0xFC => {
            cond_call(z, bus, z.sf == 1);
        } // cm
        0xF8 => {
            cond_ret(z, bus, z.sf == 1);
        } // ret m
        0xFF => {
            call(z, bus, 0x38);
        } // rst 7
        _ => {
        }
    }
}


/// Execute one non-prefixed opcode: charge its base cycles, count the
/// refresh register once for the whole instruction, and dispatch through the
/// base table, re-entering a sub-decoder for the four prefix opcodes. For
/// every opcode whose outcome the processor state and memory determine --
/// all but the port read and an extended dispatch onto one -- the whole
/// effect is the one `base_op_effect` gives.
#[verifier::rlimit(100)]
#[verifier::spinoff_prover]
pub fn exec_opcode<B: Bus>(z: &mut z80, bus: &mut B, opcode: u8)
    requires
        old(z).flags_wf(),
        old(bus).inv(),
    ensures
        final(z).flags_wf(),
        final(bus).inv(),
        final(z).cyc >= old(z).cyc.saturating_add(4),
        base_deterministic(*old(z), old(bus).mem(), opcode) ==> *final(z) == base_op_effect(
            *old(z),
            old(bus).mem(),
            opcode,
        ) && final(bus).mem() == base_op_mem(*old(z), old(bus).mem(), opcode),
    decreases opcode_rank(opcode),
{
    z.cyc = z.cyc.saturating_add(cyc_00(opcode) as u64);
    inc_r(z);

    if opcode == 0xCB {
            proof {
                reveal(crate::model::base_arm_effect_xc0);
                reveal(crate::model::base_arm_mem_xc0);
            }
            let temp = nextb(z, bus);
            exec_opcode_cb(z, bus, temp);
            // the sub-decoder counted the refresh register again; the whole
            // instruction counts it once
            z.r = (z.r & 0x80) | (z.r.wrapping_sub(1) & 0x7f);
            } else if opcode == 0xED {
            proof {
                reveal(crate::model::base_arm_effect_xe0);
                reveal(crate::model::base_arm_mem_xe0);
            }
            let temp = nextb(z, bus);
            exec_opcode_ed(z, bus, temp);
            // counted once for the whole instruction
            z.r = (z.r & 0x80) | (z.r.wrapping_sub(1) & 0x7f);
            } else if opcode == 0xDD || opcode == 0xFD {
            // A prefix byte may be followed by further prefix bytes; each
            // one costs a dispatch through both tables, only the last one
            // selects the index register, and on
            // the way back every level but the innermost restores the
            // register it saved. The walk is bounded by the address space:
            // should every address hold a prefix byte, the instruction
            // stream never reaches an opcode, and the step gives up after
            // one full wrap rather than fetch forever.
            let orig_ix = z.ix;
            let orig_iy = z.iy;
            let mut use_iy: bool = opcode == 0xFD;
            let mut restore_ix: bool = false;
            let mut restore_iy: bool = false;
            let mut fetched: u32 = 0;
            let ghost zsnap = *z;
            let mut op2: u8 = nextb(z, bus);
            while (op2 == 0xDD || op2 == 0xFD) && fetched < 0xFFFF
                invariant
                    z.flags_wf(),
                    bus.inv(),
                    z.ix == zsnap.ix,
                    z.iy == zsnap.iy,
                    z.cyc >= zsnap.cyc,
                    fetched <= 0xFFFF,
                decreases 0xFFFF - fetched,
            {
                if use_iy {
                    restore_iy = true;
                } else {
                    restore_ix = true;
                }
                use_iy = op2 == 0xFD;
                z.cyc = z.cyc.saturating_add(cyc_ddfd(op2) as u64);
                z.cyc = z.cyc.saturating_add(cyc_00(op2) as u64);
                op2 = nextb(z, bus);
                fetched = fetched + 1;
            }
            if op2 == 0xDD || op2 == 0xFD {
                z.cyc = z.cyc.saturating_add(cyc_ddfd(op2) as u64);
                z.cyc = z.cyc.saturating_add(cyc_00(op2) as u64);
            } else {
                if use_iy {
                    let mut temp2 = z.iy;
                    exec_opcode_ddfd(z, bus, op2, &mut temp2);
                    z.iy = temp2;
                } else {
                    let mut temp2 = z.ix;
                    exec_opcode_ddfd(z, bus, op2, &mut temp2);
                    z.ix = temp2;
                }
                // outer levels restore the register they saved -- but never
                // over the one the innermost level executed on
                if restore_ix && use_iy {
                    z.ix = orig_ix;
                }
                if restore_iy && !use_iy {
                    z.iy = orig_iy;
                }
                // the index decoder counted the refresh register again; the
                // whole instruction counts it once
                z.r = (z.r & 0x80) | (z.r.wrapping_sub(1) & 0x7f);
            }
            } else if opcode == 0xDB {
            let port: u8 = nextb(z, bus);
            let a: u8 = z.a;
            z.a = bus.port_in(port);
            z.mem_ptr = ((a as u16) << 8) | (z.a as u16 + 1);
        
    } else if opcode <= 0x07 {
        exec_base_00(z, bus, opcode);
    } else if opcode <= 0x0F {
        exec_base_08(z, bus, opcode);
    } else if opcode <= 0x17 {
        exec_base_10(z, bus, opcode);
    } else if opcode <= 0x1F {
        exec_base_18(z, bus, opcode);
    } else if opcode <= 0x27 {
        exec_base_20(z, bus, opcode);
    } else if opcode <= 0x2F {
        exec_base_28(z, bus, opcode);
    } else if opcode <= 0x37 {
        exec_base_30(z, bus, opcode);
    } else if opcode <= 0x3F {
        exec_base_38(z, bus, opcode);
    } else if opcode <= 0x4F {
        exec_base_40(z, bus, opcode);
    } else if opcode <= 0x5F {
        exec_base_50(z, bus, opcode);
    } else if opcode <= 0x6F {
        exec_base_60(z, bus, opcode);
    } else if opcode <= 0x7F {
        exec_base_70(z, bus, opcode);
    } else if opcode <= 0x8F {
        exec_base_80(z, bus, opcode);
    } else if opcode <= 0x9F {
        exec_base_90(z, bus, opcode);
    } else if opcode <= 0xAF {
        exec_base_a0(z, bus, opcode);
    } else if opcode <= 0xBF {
        exec_base_b0(z, bus, opcode);
    } else if opcode <= 0xCF {
        exec_base_c0(z, bus, opcode);
    } else if opcode <= 0xDF {
        exec_base_d0(z, bus, opcode);
    } else if opcode <= 0xE7 {
        exec_base_e0(z, bus, opcode);
    } else if opcode <= 0xEF {
        exec_base_e8(z, bus, opcode);
    } else if opcode <= 0xF7 {
        exec_base_f0(z, bus, opcode);
    } else if opcode <= 0xFF {
        exec_base_f8(z, bus, opcode);
    }
}

/// The word-add of BC and DE arms of the index-prefixed table, from the already charged
/// state.
#[verifier::rlimit(100)]
#[verifier::spinoff_prover]
fn exec_ddfd_add_bcde<B: Bus>(z: &mut z80, bus: &mut B, opcode: u8, iz: &mut u16)
    requires
        old(z).flags_wf(),
        old(bus).inv(),
        opcode == 0x09 || opcode == 0x19,
    ensures
        final(z).flags_wf(),
        final(bus).inv(),
        final(z).cyc >= old(z).cyc,
        *final(z) == crate::model::ddfd_arm_effect(*old(z), old(bus).mem(), opcode, *old(iz)),
        *final(iz) == crate::model::ddfd_arm_iz(*old(z), old(bus).mem(), opcode, *old(iz)),
        final(bus).mem() == crate::model::ddfd_arm_mem(*old(z), old(bus).mem(), opcode, *old(iz)),
{
    proof {
        reveal(crate::model::ddfd_arm_effect);
        reveal(crate::model::ddfd_arm_iz);
        reveal(crate::model::ddfd_arm_mem);
    }
    match opcode {
        0x09 => {
            let temp = get_bc(z);
            addiz(z, iz, temp);
        } // add iz,bc
        0x19 => {
            let temp = get_de(z);
            addiz(z, iz, temp);
        } // add iz,de
        _ => {
        }
    }
}

/// The word-add of the index register and the stack pointer arms of the index-prefixed table, from the already charged
/// state.
#[verifier::rlimit(100)]
#[verifier::spinoff_prover]
fn exec_ddfd_add_self<B: Bus>(z: &mut z80, bus: &mut B, opcode: u8, iz: &mut u16)
    requires
        old(z).flags_wf(),
        old(bus).inv(),
        opcode == 0x29 || opcode == 0x39,
    ensures
        final(z).flags_wf(),
        final(bus).inv(),
        final(z).cyc >= old(z).cyc,
        *final(z) == crate::model::ddfd_arm_effect(*old(z), old(bus).mem(), opcode, *old(iz)),
        *final(iz) == crate::model::ddfd_arm_iz(*old(z), old(bus).mem(), opcode, *old(iz)),
        final(bus).mem() == crate::model::ddfd_arm_mem(*old(z), old(bus).mem(), opcode, *old(iz)),
{
    proof {
        reveal(crate::model::ddfd_arm_effect);
        reveal(crate::model::ddfd_arm_iz);
        reveal(crate::model::ddfd_arm_mem);
    }
    match opcode {
        0x29 => {
            addiz(z, iz, *iz);
        } // add iz,iz
        0x39 => {
            addiz(z, iz, z.sp);
        } // add iz,sp
        _ => {
        }
    }
}

/// The pointer step arms of the index-prefixed table, from the already charged
/// state.
#[verifier::rlimit(100)]
#[verifier::spinoff_prover]
fn exec_ddfd_step<B: Bus>(z: &mut z80, bus: &mut B, opcode: u8, iz: &mut u16)
    requires
        old(z).flags_wf(),
        old(bus).inv(),
        opcode == 0x23 || opcode == 0x2B,
    ensures
        final(z).flags_wf(),
        final(bus).inv(),
        final(z).cyc >= old(z).cyc,
        *final(z) == crate::model::ddfd_arm_effect(*old(z), old(bus).mem(), opcode, *old(iz)),
        *final(iz) == crate::model::ddfd_arm_iz(*old(z), old(bus).mem(), opcode, *old(iz)),
        final(bus).mem() == crate::model::ddfd_arm_mem(*old(z), old(bus).mem(), opcode, *old(iz)),
{
    proof {
        reveal(crate::model::ddfd_arm_effect);
        reveal(crate::model::ddfd_arm_iz);
        reveal(crate::model::ddfd_arm_mem);
    }
    match opcode {
        0x23 => {
            *iz = iz.wrapping_add(1);
        } // inc iz
        0x2B => {
            *iz = iz.wrapping_sub(1);
        } // dec iz
        _ => {
        }
    }
}


/// The word-load, stack, jump and exchange arms of the index-prefixed table, from the already charged
/// state.
#[verifier::rlimit(100)]
#[verifier::spinoff_prover]
fn exec_ddfd_ldw<B: Bus>(z: &mut z80, bus: &mut B, opcode: u8, iz: &mut u16)
    requires
        old(z).flags_wf(),
        old(bus).inv(),
        opcode == 0x21 || opcode == 0x22 || opcode == 0x2A || opcode == 0xE1 || opcode == 0xE5 || opcode == 0xE9 || opcode == 0xE3 || opcode == 0xF9,
    ensures
        final(z).flags_wf(),
        final(bus).inv(),
        final(z).cyc >= old(z).cyc,
        *final(z) == crate::model::ddfd_arm_effect(*old(z), old(bus).mem(), opcode, *old(iz)),
        *final(iz) == crate::model::ddfd_arm_iz(*old(z), old(bus).mem(), opcode, *old(iz)),
        final(bus).mem() == crate::model::ddfd_arm_mem(*old(z), old(bus).mem(), opcode, *old(iz)),
{
    proof {
        reveal(crate::model::ddfd_arm_effect);
        reveal(crate::model::ddfd_arm_iz);
        reveal(crate::model::ddfd_arm_mem);
    }
    match opcode {
        0x21 => {
            *iz = nextw(z, bus);
        } // ld iz,**
        0x22 => {
            let temp = nextw(z, bus);
            ww(bus, temp, *iz);
        } // ld (**),iz
        0x2A => {
            let temp = nextw(z, bus);
            *iz = rw(bus, temp);
        } // ld iz,(**)
        0xE1 => {
            *iz = popw(z, bus);
        } // pop iz
        0xE5 => {
            pushw(z, bus, *iz);
        } // push iz
        0xE9 => {
            jump(z, *iz);
        } // jp iz
        0xE3 => {
            let val: u16 = rw(bus, z.sp);
            ww(bus, z.sp, *iz);
            *iz = val;
            z.mem_ptr = val;
        } // ex (sp),iz
        0xF9 => {
            z.sp = *iz;
        } // ld sp,iz
        _ => {
        }
    }
}


/// The add and subtract on the index-register halves arms of the index-prefixed table, from the already charged
/// state.
#[verifier::rlimit(100)]
#[verifier::spinoff_prover]
fn exec_ddfd_half_arith<B: Bus>(z: &mut z80, bus: &mut B, opcode: u8, iz: &mut u16)
    requires
        old(z).flags_wf(),
        old(bus).inv(),
        opcode == 0x84 || opcode == 0x85 || opcode == 0x8C || opcode == 0x8D || opcode == 0x94 || opcode == 0x95 || opcode == 0x9C || opcode == 0x9D,
    ensures
        final(z).flags_wf(),
        final(bus).inv(),
        final(z).cyc >= old(z).cyc,
        *final(z) == crate::model::ddfd_arm_effect(*old(z), old(bus).mem(), opcode, *old(iz)),
        *final(iz) == crate::model::ddfd_arm_iz(*old(z), old(bus).mem(), opcode, *old(iz)),
        final(bus).mem() == crate::model::ddfd_arm_mem(*old(z), old(bus).mem(), opcode, *old(iz)),
{
    proof {
        reveal(crate::model::ddfd_arm_effect);
        reveal(crate::model::ddfd_arm_iz);
        reveal(crate::model::ddfd_arm_mem);
    }
    match opcode {
        0x84 => {
            let IZH = *iz >> 8;
            z.a = addb(z, z.a, IZH as u8, 0);
        } // add a,izh
        0x85 => {
            z.a = addb(z, z.a, (*iz & 0xFF) as u8, 0);
        } // add a,izl
        0x8C => {
            let IZH = *iz >> 8;
            z.a = addb(z, z.a, IZH as u8, z.cf);
        } // adc a,izh
        0x8D => {
            z.a = addb(z, z.a, (*iz & 0xFF) as u8, z.cf);
        } // adc a,izl
        0x94 => {
            let IZH = *iz >> 8;
            z.a = subb(z, z.a, IZH as u8, 0);
        } // sub izh
        0x95 => {
            z.a = subb(z, z.a, (*iz & 0xFF) as u8, 0);
        } // sub izl
        0x9C => {
            let IZH = *iz >> 8;
            z.a = subb(z, z.a, IZH as u8, z.cf);
        } // sbc izh
        0x9D => {
            z.a = subb(z, z.a, (*iz & 0xFF) as u8, z.cf);
        } // sbc izl
        _ => {
        }
    }
}

/// The logic and compare on the index-register halves arms of the index-prefixed table, from the already charged
/// state.
#[verifier::rlimit(100)]
#[verifier::spinoff_prover]
fn exec_ddfd_half_logic<B: Bus>(z: &mut z80, bus: &mut B, opcode: u8, iz: &mut u16)
    requires
        old(z).flags_wf(),
        old(bus).inv(),
        opcode == 0xA4 || opcode == 0xA5 || opcode == 0xAC || opcode == 0xAD || opcode == 0xB4 || opcode == 0xB5 || opcode == 0xBC || opcode == 0xBD,
    ensures
        final(z).flags_wf(),
        final(bus).inv(),
        final(z).cyc >= old(z).cyc,
        *final(z) == crate::model::ddfd_arm_effect(*old(z), old(bus).mem(), opcode, *old(iz)),
        *final(iz) == crate::model::ddfd_arm_iz(*old(z), old(bus).mem(), opcode, *old(iz)),
        final(bus).mem() == crate::model::ddfd_arm_mem(*old(z), old(bus).mem(), opcode, *old(iz)),
{
    proof {
        reveal(crate::model::ddfd_arm_effect);
        reveal(crate::model::ddfd_arm_iz);
        reveal(crate::model::ddfd_arm_mem);
    }
    match opcode {
        0xA4 => {
            let IZH = *iz >> 8;
            land(z, IZH as u8);
        } // and izh
        0xA5 => {
            land(z, (*iz & 0xFF) as u8);
        } // and izl
        0xAC => {
            let IZH = *iz >> 8;
            lxor(z, IZH as u8);
        } // xor izh
        0xAD => {
            lxor(z, (*iz & 0xFF) as u8);
        } // xor izl
        0xB4 => {
            let IZH = *iz >> 8;
            lor(z, IZH as u8);
        } // or izh
        0xB5 => {
            lor(z, (*iz & 0xFF) as u8);
        } // or izl
        0xBC => {
            let IZH = *iz >> 8;
            cp(z, IZH as u8);
        } // cp izh
        0xBD => {
            cp(z, (*iz & 0xFF) as u8);
        } // cp izl
        _ => {
        }
    }
}

/// The arithmetic and logic on the displaced byte arms of the index-prefixed table, from the already charged
/// state.
#[verifier::rlimit(100)]
#[verifier::spinoff_prover]
fn exec_ddfd_disp_arith<B: Bus>(z: &mut z80, bus: &mut B, opcode: u8, iz: &mut u16)
    requires
        old(z).flags_wf(),
        old(bus).inv(),
        opcode == 0x86 || opcode == 0x8E || opcode == 0x96 || opcode == 0x9E || opcode == 0xA6 || opcode == 0xAE || opcode == 0xB6 || opcode == 0xBE,
    ensures
        final(z).flags_wf(),
        final(bus).inv(),
        final(z).cyc >= old(z).cyc,
        *final(z) == crate::model::ddfd_arm_effect(*old(z), old(bus).mem(), opcode, *old(iz)),
        *final(iz) == crate::model::ddfd_arm_iz(*old(z), old(bus).mem(), opcode, *old(iz)),
        final(bus).mem() == crate::model::ddfd_arm_mem(*old(z), old(bus).mem(), opcode, *old(iz)),
{
    proof {
        reveal(crate::model::ddfd_arm_effect);
        reveal(crate::model::ddfd_arm_iz);
        reveal(crate::model::ddfd_arm_mem);
    }
    match opcode {
        0x86 => {
            let temp = nextb(z, bus);
            let IZD = displace(z, *iz, temp as i8);
            let temp = rb(bus, IZD);
            z.a = addb(z, z.a, temp, 0);
        } // add a,(iz+*)
        0x8E => {
            let temp = nextb(z, bus);
            let IZD = displace(z, *iz, temp as i8);
            let temp = rb(bus, IZD);
            z.a = addb(z, z.a, temp, z.cf);
        } // adc a,(iz+*)
        0x96 => {
            let temp = nextb(z, bus);
            let IZD = displace(z, *iz, temp as i8);
            let temp = rb(bus, IZD);
            z.a = subb(z, z.a, temp, 0);
        } // sub (iz+*)
        0x9E => {
            let temp = nextb(z, bus);
            let IZD = displace(z, *iz, temp as i8);
            let temp = rb(bus, IZD);
            z.a = subb(z, z.a, temp, z.cf);
        } // sbc (iz+*)
        0xA6 => {
            let temp = nextb(z, bus);
            let IZD = displace(z, *iz, temp as i8);
            let temp = rb(bus, IZD);
            land(z, temp);
        } // and (iz+*)
        0xAE => {
            let temp = nextb(z, bus);
            let IZD = displace(z, *iz, temp as i8);
            let temp = rb(bus, IZD);
            lxor(z, temp);
        } // xor (iz+*)
        0xB6 => {
            let temp = nextb(z, bus);
            let IZD = displace(z, *iz, temp as i8);
            let temp = rb(bus, IZD);
            lor(z, temp);
        } // or (iz+*)
        0xBE => {
            let temp = nextb(z, bus);
            let IZD = displace(z, *iz, temp as i8);
            let temp = rb(bus, IZD);
            cp(z, temp);
        } // cp (iz+*)
        _ => {
        }
    }
}

/// The increment and decrement arms of the index-prefixed table, from the already charged
/// state.
#[verifier::rlimit(100)]
#[verifier::spinoff_prover]
fn exec_ddfd_incdec<B: Bus>(z: &mut z80, bus: &mut B, opcode: u8, iz: &mut u16)
    requires
        old(z).flags_wf(),
        old(bus).inv(),
        opcode == 0x24 || opcode == 0x25 || opcode == 0x2C || opcode == 0x2D || opcode == 0x34 || opcode == 0x35,
    ensures
        final(z).flags_wf(),
        final(bus).inv(),
        final(z).cyc >= old(z).cyc,
        *final(z) == crate::model::ddfd_arm_effect(*old(z), old(bus).mem(), opcode, *old(iz)),
        *final(iz) == crate::model::ddfd_arm_iz(*old(z), old(bus).mem(), opcode, *old(iz)),
        final(bus).mem() == crate::model::ddfd_arm_mem(*old(z), old(bus).mem(), opcode, *old(iz)),
{
    proof {
        reveal(crate::model::ddfd_arm_effect);
        reveal(crate::model::ddfd_arm_iz);
        reveal(crate::model::ddfd_arm_mem);
    }
    match opcode {
        0x24 => {
            let IZL = *iz & 0xFF;
            let IZH = *iz >> 8;
            *iz = IZL | ((inc(z, IZH as u8) as u16) << 8);
        } // inc izh
        0x25 => {
            let IZL = *iz & 0xFF;
            let IZH = *iz >> 8;
            *iz = IZL | ((dec(z, IZH as u8) as u16) << 8);
        } // dec izh
        0x2C => {
            let IZH = *iz >> 8;
            let IZL = *iz & 0xFF;
            *iz = (IZH << 8) | inc(z, IZL as u8) as u16;
        } // inc izl
        0x2D => {
            let IZH = *iz >> 8;
            let IZL = *iz & 0xFF;
            *iz = (IZH << 8) | dec(z, IZL as u8) as u16;
        } // dec izl
        0x34 => {
            let temp = nextb(z, bus);
            let IZD = displace(z, *iz, temp as i8);
            let addr: u16 = IZD;
            let temp1 = rb(bus, addr);
            let temp2 = inc(z, temp1);
            wb(bus, addr, temp2);
        } // inc (iz+*)
        0x35 => {
            let temp = nextb(z, bus);
            let IZD = displace(z, *iz, temp as i8);
            let addr: u16 = IZD;
            let temp1 = rb(bus, addr);
            let temp2 = dec(z, temp1);
            wb(bus, addr, temp2);
        } // dec (iz+*)
        _ => {
        }
    }
}

/// The displaced stores arms of the index-prefixed table, from the already charged
/// state.
#[verifier::rlimit(100)]
#[verifier::spinoff_prover]
fn exec_ddfd_store<B: Bus>(z: &mut z80, bus: &mut B, opcode: u8, iz: &mut u16)
    requires
        old(z).flags_wf(),
        old(bus).inv(),
        opcode == 0x36 || opcode == 0x70 || opcode == 0x71 || opcode == 0x72 || opcode == 0x73 || opcode == 0x74 || opcode == 0x75 || opcode == 0x77,
    ensures
        final(z).flags_wf(),
        final(bus).inv(),
        final(z).cyc >= old(z).cyc,
        *final(z) == crate::model::ddfd_arm_effect(*old(z), old(bus).mem(), opcode, *old(iz)),
        *final(iz) == crate::model::ddfd_arm_iz(*old(z), old(bus).mem(), opcode, *old(iz)),
        final(bus).mem() == crate::model::ddfd_arm_mem(*old(z), old(bus).mem(), opcode, *old(iz)),
{
    proof {
        reveal(crate::model::ddfd_arm_effect);
        reveal(crate::model::ddfd_arm_iz);
        reveal(crate::model::ddfd_arm_mem);
    }
    match opcode {
        0x36 => {
            let temp = nextb(z, bus);
            let IZD = displace(z, *iz, temp as i8);
            let addr: u16 = IZD;
            let temp = nextb(z, bus);
            wb(bus, addr, temp);
        } // ld (iz+*),*
        0x70 => {
            let temp = nextb(z, bus);
            let IZD = displace(z, *iz, temp as i8);
            wb(bus, IZD, z.b);
        } // ld (iz+*),b
        0x71 => {
            let temp = nextb(z, bus);
            let IZD = displace(z, *iz, temp as i8);
            wb(bus, IZD, z.c);
        } // ld (iz+*),c
        0x72 => {
            let temp = nextb(z, bus);
            let IZD = displace(z, *iz, temp as i8);
            wb(bus, IZD, z.d);
        } // ld (iz+*),d
        0x73 => {
            let temp = nextb(z, bus);
            let IZD = displace(z, *iz, temp as i8);
            wb(bus, IZD, z.e);
        } // ld (iz+*),e
        0x74 => {
            let temp = nextb(z, bus);
            let IZD = displace(z, *iz, temp as i8);
            wb(bus, IZD, z.h);
        } // ld (iz+*),h
        0x75 => {
            let temp = nextb(z, bus);
            let IZD = displace(z, *iz, temp as i8);
            wb(bus, IZD, z.l);
        } // ld (iz+*),l
        0x77 => {
            let temp = nextb(z, bus);
            let IZD = displace(z, *iz, temp as i8);
            wb(bus, IZD, z.a);
        } // ld (iz+*),a
        _ => {
        }
    }
}

/// The displaced loads arms of the index-prefixed table, from the already charged
/// state.
#[verifier::rlimit(100)]
#[verifier::spinoff_prover]
fn exec_ddfd_load<B: Bus>(z: &mut z80, bus: &mut B, opcode: u8, iz: &mut u16)
    requires
        old(z).flags_wf(),
        old(bus).inv(),
        opcode == 0x46 || opcode == 0x4E || opcode == 0x56 || opcode == 0x5E || opcode == 0x66 || opcode == 0x6E || opcode == 0x7E,
    ensures
        final(z).flags_wf(),
        final(bus).inv(),
        final(z).cyc >= old(z).cyc,
        *final(z) == crate::model::ddfd_arm_effect(*old(z), old(bus).mem(), opcode, *old(iz)),
        *final(iz) == crate::model::ddfd_arm_iz(*old(z), old(bus).mem(), opcode, *old(iz)),
        final(bus).mem() == crate::model::ddfd_arm_mem(*old(z), old(bus).mem(), opcode, *old(iz)),
{
    proof {
        reveal(crate::model::ddfd_arm_effect);
        reveal(crate::model::ddfd_arm_iz);
        reveal(crate::model::ddfd_arm_mem);
    }
    match opcode {
        0x46 => {
            let temp = nextb(z, bus);
            let IZD = displace(z, *iz, temp as i8);
            z.b = rb(bus, IZD);
        } // ld b,(iz+*)
        0x4E => {
            let temp = nextb(z, bus);
            let IZD = displace(z, *iz, temp as i8);
            z.c = rb(bus, IZD);
        } // ld c,(iz+*)
        0x56 => {
            let temp = nextb(z, bus);
            let IZD = displace(z, *iz, temp as i8);
            z.d = rb(bus, IZD);
        } // ld d,(iz+*)
        0x5E => {
            let temp = nextb(z, bus);
            let IZD = displace(z, *iz, temp as i8);
            z.e = rb(bus, IZD);
        } // ld e,(iz+*)
        0x66 => {
            let temp = nextb(z, bus);
            let IZD = displace(z, *iz, temp as i8);
            z.h = rb(bus, IZD);
        } // ld h,(iz+*)
        0x6E => {
            let temp = nextb(z, bus);
            let IZD = displace(z, *iz, temp as i8);
            z.l = rb(bus, IZD);
        } // ld l,(iz+*)
        0x7E => {
            let temp = nextb(z, bus);
            let IZD = displace(z, *iz, temp as i8);
            z.a = rb(bus, IZD);
        } // ld a,(iz+*)
        _ => {
        }
    }
}

/// The register loads from the index-register halves arms of the index-prefixed table, from the already charged
/// state.
#[verifier::rlimit(100)]
#[verifier::spinoff_prover]
fn exec_ddfd_half_get<B: Bus>(z: &mut z80, bus: &mut B, opcode: u8, iz: &mut u16)
    requires
        old(z).flags_wf(),
        old(bus).inv(),
        opcode == 0x44 || opcode == 0x4C || opcode == 0x54 || opcode == 0x5C || opcode == 0x7C || opcode == 0x45 || opcode == 0x4D || opcode == 0x55 || opcode == 0x5D || opcode == 0x7D,
    ensures
        final(z).flags_wf(),
        final(bus).inv(),
        final(z).cyc >= old(z).cyc,
        *final(z) == crate::model::ddfd_arm_effect(*old(z), old(bus).mem(), opcode, *old(iz)),
        *final(iz) == crate::model::ddfd_arm_iz(*old(z), old(bus).mem(), opcode, *old(iz)),
        final(bus).mem() == crate::model::ddfd_arm_mem(*old(z), old(bus).mem(), opcode, *old(iz)),
{
    proof {
        reveal(crate::model::ddfd_arm_effect);
        reveal(crate::model::ddfd_arm_iz);
        reveal(crate::model::ddfd_arm_mem);
    }
    match opcode {
        0x44 => {
            let IZH = *iz >> 8;
            z.b = IZH as u8;
        } // ld b,izh
        0x4C => {
            let IZH = *iz >> 8;
            z.c = IZH as u8;
        } // ld c,izh
        0x54 => {
            let IZH = *iz >> 8;
            z.d = IZH as u8;
        } // ld d,izh
        0x5C => {
            let IZH = *iz >> 8;
            z.e = IZH as u8;
        } // ld e,izh
        0x7C => {
            let IZH = *iz >> 8;
            z.a = IZH as u8;
        } // ld a,izh
        0x45 => {
            let IZL = *iz & 0xFF;
            z.b = IZL as u8;
        } // ld b,izl
        0x4D => {
            let IZL = *iz & 0xFF;
            z.c = IZL as u8;
        } // ld c,izl
        0x55 => {
            let IZL = *iz & 0xFF;
            z.d = IZL as u8;
        } // ld d,izl
        0x5D => {
            let IZL = *iz & 0xFF;
            z.e = IZL as u8;
        } // ld e,izl
        0x7D => {
            let IZL = *iz & 0xFF;
            z.a = IZL as u8;
        } // ld a,izl
        _ => {
        }
    }
}

/// The loads into the index-register halves arms of the index-prefixed table, from the already charged
/// state.
#[verifier::rlimit(100)]
#[verifier::spinoff_prover]
fn exec_ddfd_half_set<B: Bus>(z: &mut z80, bus: &mut B, opcode: u8, iz: &mut u16)
    requires
        old(z).flags_wf(),
        old(bus).inv(),
        opcode == 0x60 || opcode == 0x61 || opcode == 0x62 || opcode == 0x63 || opcode == 0x64 || opcode == 0x65 || opcode == 0x67 || opcode == 0x26 || opcode == 0x68 || opcode == 0x69 || opcode == 0x6A || opcode == 0x6B || opcode == 0x6C || opcode == 0x6D || opcode == 0x6F || opcode == 0x2E,
    ensures
        final(z).flags_wf(),
        final(bus).inv(),
        final(z).cyc >= old(z).cyc,
        *final(z) == crate::model::ddfd_arm_effect(*old(z), old(bus).mem(), opcode, *old(iz)),
        *final(iz) == crate::model::ddfd_arm_iz(*old(z), old(bus).mem(), opcode, *old(iz)),
        final(bus).mem() == crate::model::ddfd_arm_mem(*old(z), old(bus).mem(), opcode, *old(iz)),
{
    proof {
        reveal(crate::model::ddfd_arm_effect);
        reveal(crate::model::ddfd_arm_iz);
        reveal(crate::model::ddfd_arm_mem);
    }
    match opcode {
        0x60 => {
            let IZL = *iz & 0xFF;
            *iz = IZL | ((z.b as u16) << 8);
        } // ld izh,b
        0x61 => {
            let IZL = *iz & 0xFF;
            *iz = IZL | ((z.c as u16) << 8);
        } // ld izh,c
        0x62 => {
            let IZL = *iz & 0xFF;
            *iz = IZL | ((z.d as u16) << 8);
        } // ld izh,d
        0x63 => {
            let IZL = *iz & 0xFF;
            *iz = IZL | ((z.e as u16) << 8);
        } // ld izh,e
        0x64 => {} // ld izh,izh
        0x65 => {
            let IZL = *iz & 0xFF;
            *iz = (IZL << 8) | IZL;
        } // ld izh,izl
        0x67 => {
            let IZL = *iz & 0xFF;
            *iz = IZL | (((z.a) as u16) << 8);
        } // ld izh,a
        0x26 => {
            let IZL = *iz & 0xFF;
            *iz = IZL | ((nextb(z, bus) as u16) << 8);
        } // ld izh,*
        0x68 => {
            let IZH = *iz >> 8;
            *iz = (IZH << 8) | z.b as u16;
        } // ld izl,b
        0x69 => {
            let IZH = *iz >> 8;
            *iz = (IZH << 8) | z.c as u16;
        } // ld izl,c
        0x6A => {
            let IZH = *iz >> 8;
            *iz = (IZH << 8) | z.d as u16;
        } // ld izl,d
        0x6B => {
            let IZH = *iz >> 8;
            *iz = (IZH << 8) | z.e as u16;
        } // ld izl,e
        0x6C => {
            let IZH = *iz >> 8;
            *iz = (IZH << 8) | IZH as u16;
        } // ld izl,izh
        0x6D => {} // ld izl,izl
        0x6F => {
            let IZH = *iz >> 8;
            *iz = (IZH << 8) | z.a as u16;
        } // ld izl,a
        0x2E => {
            let IZH = *iz >> 8;
            *iz = (IZH << 8) | nextb(z, bus) as u16;
        } // ld izl,*
        _ => {
        }
    }
}

/// The displaced bit-operation dispatch of the index-prefixed table, from
/// the already charged state.
#[verifier::rlimit(100)]
#[verifier::spinoff_prover]
fn exec_ddfd_dcb<B: Bus>(z: &mut z80, bus: &mut B, opcode: u8, iz: &mut u16)
    requires
        old(z).flags_wf(),
        old(bus).inv(),
        opcode == 0xCB,
    ensures
        final(z).flags_wf(),
        final(bus).inv(),
        final(z).cyc >= old(z).cyc.saturating_add(20),
        *final(z) == crate::model::ddfd_arm_effect(*old(z), old(bus).mem(), opcode, *old(iz)),
        *final(iz) == crate::model::ddfd_arm_iz(*old(z), old(bus).mem(), opcode, *old(iz)),
        final(bus).mem() == crate::model::ddfd_arm_mem(*old(z), old(bus).mem(), opcode, *old(iz)),
{
    proof {
        reveal(crate::model::ddfd_arm_effect);
        reveal(crate::model::ddfd_arm_iz);
        reveal(crate::model::ddfd_arm_mem);
    }
    let temp = nextb(z, bus);
    let IZD = displace(z, *iz, temp as i8);
    let addr: u16 = IZD;
    let op: u8 = nextb(z, bus);
    exec_opcode_dcb(z, bus, op, addr);
}

/// Execute an index-prefixed opcode against the index register `iz`: the
/// HL-indirect addressing of the base table becomes displaced indexed
/// addressing, H and L become the halves of `iz`, and any opcode the table
/// does not know falls through to the base decoder unmodified, with the
/// refresh register compensated so the whole instruction counts it once.
/// Chains of further prefix bytes are the base decoder's business, never
/// passed down here. For every opcode whose outcome the state and memory
/// determine, the whole effect is the one `ddfd_effect` gives.
#[verifier::rlimit(100)]
#[verifier::spinoff_prover]
pub fn exec_opcode_ddfd<B: Bus>(z: &mut z80, bus: &mut B, opcode: u8, iz: &mut u16)
    requires
        opcode != 0xDD,
        opcode != 0xFD,
        old(z).flags_wf(),
        old(bus).inv(),
    ensures
        final(z).flags_wf(),
        final(bus).inv(),
        final(z).cyc >= old(z).cyc.saturating_add(4),
        crate::model::ddfd_deterministic(*old(z), old(bus).mem(), opcode) ==> *final(z)
            == crate::model::ddfd_effect(*old(z), old(bus).mem(), opcode, *old(iz)) && *final(iz)
            == crate::model::ddfd_iz(*old(z), old(bus).mem(), opcode, *old(iz))
            && final(bus).mem() == crate::model::ddfd_mem(*old(z), old(bus).mem(), opcode, *old(iz)),
    decreases 1int,
{
    z.cyc = z.cyc.saturating_add(cyc_ddfd(opcode) as u64);
    inc_r(z);

    match opcode {
        0x09 | 0x19 => exec_ddfd_add_bcde(z, bus, opcode, iz),
        0x29 | 0x39 => exec_ddfd_add_self(z, bus, opcode, iz),
        0x23 | 0x2B => exec_ddfd_step(z, bus, opcode, iz),
        0x21 | 0x22 | 0x2A | 0xE1 | 0xE5 | 0xE9 | 0xE3 | 0xF9 => exec_ddfd_ldw(z, bus, opcode, iz),
        0x84 | 0x85 | 0x8C | 0x8D | 0x94 | 0x95 | 0x9C | 0x9D => exec_ddfd_half_arith(z, bus, opcode, iz),
        0xA4 | 0xA5 | 0xAC | 0xAD | 0xB4 | 0xB5 | 0xBC | 0xBD => exec_ddfd_half_logic(z, bus, opcode, iz),
        0x86 | 0x8E | 0x96 | 0x9E | 0xA6 | 0xAE | 0xB6 | 0xBE => exec_ddfd_disp_arith(z, bus, opcode, iz),
        0x24 | 0x25 | 0x2C | 0x2D | 0x34 | 0x35 => exec_ddfd_incdec(z, bus, opcode, iz),
        0x36 | 0x70 | 0x71 | 0x72 | 0x73 | 0x74 | 0x75 | 0x77 => exec_ddfd_store(z, bus, opcode, iz),
        0x46 | 0x4E | 0x56 | 0x5E | 0x66 | 0x6E | 0x7E => exec_ddfd_load(z, bus, opcode, iz),
        0x44 | 0x4C | 0x54 | 0x5C | 0x7C | 0x45 | 0x4D | 0x55 | 0x5D | 0x7D => exec_ddfd_half_get(z, bus, opcode, iz),
        0x60 | 0x61 | 0x62 | 0x63 | 0x64 | 0x65 | 0x67 | 0x26 | 0x68 | 0x69 | 0x6A | 0x6B | 0x6C | 0x6D | 0x6F | 0x2E => exec_ddfd_half_set(z, bus, opcode, iz),
        0xCB => exec_ddfd_dcb(z, bus, opcode, iz),
        _ => {
            // any other opcode behaves as if the prefix were never present:
            exec_opcode(z, bus, opcode);
            // the refresh register must not be counted twice:
            z.r = (z.r & 0x80) | (z.r.wrapping_sub(1) & 0x7f);
                }
    }
}

/// Apply one bit-operation class to an operand byte: the class's flags, the
/// transformed byte, and the bit test's memory-operand quirk.
fn cb_transform(z: &mut z80, opcode: u8, operand: u8) -> (result: u8)
    requires
        old(z).flags_wf(),
    ensures
        final(z).flags_wf(),
        result == crate::model::cb_result_of(*old(z), opcode, operand),
        *final(z) == crate::model::cb_class_state(*old(z), opcode, operand),
{
    let x_: u8 = (opcode >> 6) & 3;
    let y_: u8 = (opcode >> 3) & 7;
    let z_: u8 = opcode & 7;

    let mut result: u8 = operand;
    if x_ == 0 {
        // the rotate/shift family
        result = if y_ == 0 {
            cb_rlc(z, operand)
        } else if y_ == 1 {
            cb_rrc(z, operand)
        } else if y_ == 2 {
            cb_rl(z, operand)
        } else if y_ == 3 {
            cb_rr(z, operand)
        } else if y_ == 4 {
            cb_sla(z, operand)
        } else if y_ == 5 {
            cb_sra(z, operand)
        } else if y_ == 6 {
            cb_sll(z, operand)
        } else {
            cb_srl(z, operand)
        };
    } else if x_ == 1 {
        // bit test
        cb_bit(z, operand, y_);

        // for the memory operand the two undocumented flags are handled
        // differently, and an extra cycle surcharge applies:
        if z_ == 6 {
            z.yf = GET_BIT(5, (z.mem_ptr >> 8) as u8);
            z.xf = GET_BIT(3, (z.mem_ptr >> 8) as u8);
            z.cyc = z.cyc.saturating_add(4);
        }
    } else if x_ == 2 {
        // bit reset
        result = operand & !(1 << y_);
    } else {
        // bit set
        result = operand | (1 << y_);
    }
    result
}

/// Execute a bit-operation opcode: two bits choose the class (rotate/shift,
/// bit test, reset, set), three bits the sub-operation, and three bits the
/// operand, which is a register or the byte at HL. Memory operands are read,
/// transformed and written back -- except by the bit test, which never
/// writes back and takes its undocumented flags from the high byte of the
/// last computed address.
#[verifier::rlimit(100)]
#[verifier::spinoff_prover]
pub fn exec_opcode_cb<B: Bus>(z: &mut z80, bus: &mut B, opcode: u8)
    requires
        old(z).flags_wf(),
        old(bus).inv(),
    ensures
        final(z).flags_wf(),
        final(bus).inv(),
        final(z).cyc >= old(z).cyc.saturating_add(8),
        *final(z) == cb_effect(*old(z), old(bus).mem(), opcode),
        final(bus).mem() == cb_mem(*old(z), old(bus).mem(), opcode),
{
    z.cyc = z.cyc.saturating_add(8);
    inc_r(z);
    let ghost zc = *z;
    let ghost m0 = old(bus).mem();

    let x_: u8 = (opcode >> 6) & 3;
    let z_: u8 = opcode & 7;

    // the operand slot: a register, or a temporary holding the byte at HL
    let operand: u8 = if z_ == 0 {
        z.b
    } else if z_ == 1 {
        z.c
    } else if z_ == 2 {
        z.d
    } else if z_ == 3 {
        z.e
    } else if z_ == 4 {
        z.h
    } else if z_ == 5 {
        z.l
    } else if z_ == 6 {
        let temp = get_hl(z);
        rb(bus, temp)
    } else {
        z.a
    };
    proof {
        assert(operand == crate::model::cb_operand(zc, m0, z_));
    }

    let result = cb_transform(z, opcode, operand);

    if (x_ == 0 || x_ == 2 || x_ == 3) && z_ == 6 {
        z.cyc = z.cyc.saturating_add(7);
    }

    // write the slot back; the bit test writes nothing
    if x_ != 1 {
        if z_ == 0 {
            z.b = result;
        } else if z_ == 1 {
            z.c = result;
        } else if z_ == 2 {
            z.d = result;
        } else if z_ == 3 {
            z.e = result;
        } else if z_ == 4 {
            z.h = result;
        } else if z_ == 5 {
            z.l = result;
        } else if z_ == 7 {
            z.a = result;
        }
        if z_ == 6 {
            let temp = get_hl(z);
            wb(bus, temp, result);
        }
    }
}

/// Execute a displaced bit-operation opcode on the byte at the already
/// computed indexed address. The transformed byte is written back to memory
/// (never for the bit test) and additionally lands in a register when the
/// operand field names one; the bit test takes its undocumented flags from
/// the high byte of the address. A fixed cycle cost replaces the base
/// table's: 20 for the bit test, 23 for the rest.
#[verifier::rlimit(100)]
#[verifier::spinoff_prover]
pub fn exec_opcode_dcb<B: Bus>(z: &mut z80, bus: &mut B, opcode: u8, addr: u16)
    requires
        old(z).flags_wf(),
        old(bus).inv(),
    ensures
        final(z).flags_wf(),
        final(bus).inv(),
        final(z).cyc >= old(z).cyc.saturating_add(20),
        *final(z) == dcb_effect(*old(z), old(bus).mem(), opcode, addr),
        final(bus).mem() == dcb_mem(*old(z), old(bus).mem(), opcode, addr),
{
    let val: u8 = rb(bus, addr);
    let mut result: u8 = 0;

    let x_: u8 = (opcode >> 6) & 3;
    let y_: u8 = (opcode >> 3) & 7;
    let z_: u8 = opcode & 7;

    if x_ == 0 {
        // the rotate/shift family on the displaced byte
        result = if y_ == 0 {
            cb_rlc(z, val)
        } else if y_ == 1 {
            cb_rrc(z, val)
        } else if y_ == 2 {
            cb_rl(z, val)
        } else if y_ == 3 {
            cb_rr(z, val)
        } else if y_ == 4 {
            cb_sla(z, val)
        } else if y_ == 5 {
            cb_sra(z, val)
        } else if y_ == 6 {
            cb_sll(z, val)
        } else {
            cb_srl(z, val)
        };
    } else if x_ == 1 {
        // bit test on the displaced byte
        result = cb_bit(z, val, y_);
        z.yf = GET_BIT(5, (addr >> 8) as u8);
        z.xf = GET_BIT(3, (addr >> 8) as u8);
    } else if x_ == 2 {
        // bit reset
        result = val & !(1 << y_);
    } else {
        // bit set
        result = val | (1 << y_);
    }

    // the result additionally lands in the register the operand field names
    if x_ != 1 && z_ != 6 {
        if z_ == 0 {
            z.b = result;
        } else if z_ == 1 {
            z.c = result;
        } else if z_ == 2 {
            z.d = result;
        } else if z_ == 3 {
            z.e = result;
        } else if z_ == 4 {
            z.h = result;
        } else if z_ == 5 {
            z.l = result;
        } else {
            z.a = result;
        }
    }

    if x_ == 1 {
        // bit instructions take 20 cycles and never write back
        z.cyc = z.cyc.saturating_add(20);
    } else {
        wb(bus, addr, result);
        z.cyc = z.cyc.saturating_add(23);
    }
}

/// The register-load and return arms of the extended table, from the already charged state.
#[verifier::rlimit(100)]
#[verifier::spinoff_prover]
fn exec_opcode_ed_loads<B: Bus>(z: &mut z80, bus: &mut B, opcode: u8)
    requires
        old(z).flags_wf(),
        old(bus).inv(),
        opcode == 0x47 || opcode == 0x4F || opcode == 0x57 || opcode == 0x5F || opcode == 0x45 || opcode == 0x55 || opcode == 0x5D || opcode == 0x65 || opcode == 0x6D || opcode == 0x75 || opcode == 0x7D || opcode == 0x4D,
    ensures
        final(z).flags_wf(),
        final(bus).inv(),
        final(z).cyc >= old(z).cyc,
        ed_deterministic(opcode) ==> *final(z) == crate::model::ed_arm_effect(
            *old(z),
            old(bus).mem(),
            opcode,
        ) && final(bus).mem() == crate::model::ed_arm_mem(*old(z), old(bus).mem(), opcode),
{
    proof {
        reveal(crate::model::ed_arm_effect);
        reveal(crate::model::ed_arm_mem);
    }
    match opcode {
        0x47 => {
            z.i = z.a;
        } // ld i,a
        0x4F => {
            z.r = z.a;
        } // ld r,a

        0x57 => {
            z.a = z.i;
            z.sf = z.a >> 7;
            if z.a == 0 {
                z.zf = 1;
            } else {
                z.zf = 0;
            }
            z.hf = 0;
            z.nf = 0;
            if z.iff2 {
                z.pf = 1;
            } else {
                z.pf = 0;
            }
            // ld a,i
        }
        0x5F => {
            z.a = z.r;
            z.sf = z.a >> 7;
            if z.a == 0 {
                z.zf = 1;
            } else {
                z.zf = 0;
            }
            z.hf = 0;
            z.nf = 0;
            if z.iff2 {
                z.pf = 1;
            } else {
                z.pf = 0;
            }
            // ld a,r
        }
        0x45 | 0x55 | 0x5D | 0x65 | 0x6D | 0x75 | 0x7D => {
            z.iff1 = z.iff2;
            ret(z, bus);
            // retn
        }
        0x4D => {
            ret(z, bus);
        } // reti

        _ => {
        }
    }
}

/// The port arms of the extended table, from the already charged state.
#[verifier::rlimit(100)]
#[verifier::spinoff_prover]
fn exec_opcode_ed_ports<B: Bus>(z: &mut z80, bus: &mut B, opcode: u8)
    requires
        old(z).flags_wf(),
        old(bus).inv(),
        opcode == 0x40 || opcode == 0x48 || opcode == 0x50 || opcode == 0x58 || opcode == 0x60 || opcode == 0x68 || opcode == 0x70 || opcode == 0x78 || opcode == 0x41 || opcode == 0x49 || opcode == 0x51 || opcode == 0x59 || opcode == 0x61 || opcode == 0x69 || opcode == 0x71 || opcode == 0x79,
    ensures
        final(z).flags_wf(),
        final(bus).inv(),
        final(z).cyc >= old(z).cyc,
        final(bus).mem() == old(bus).mem(),
        ed_deterministic(opcode) ==> *final(z) == crate::model::ed_arm_effect(
            *old(z),
            old(bus).mem(),
            opcode,
        ) && final(bus).mem() == crate::model::ed_arm_mem(*old(z), old(bus).mem(), opcode),
{
    proof {
        reveal(crate::model::ed_arm_effect);
        reveal(crate::model::ed_arm_mem);
    }
    match opcode {
        0x40 => {
            let mut value = z.b;
            in_r_c(z, bus, &mut value);
            z.b = value;
        } // in b, (c)
        0x48 => {
            let mut value = z.c;
            in_r_c(z, bus, &mut value);
            z.c = value;
        } // in c, (c)
        0x50 => {
            let mut value = z.d;
            in_r_c(z, bus, &mut value);
            z.d = value;
        } // in d, (c)
        0x58 => {
            let mut value = z.e;
            in_r_c(z, bus, &mut value);
            z.e = value;
        } // in e, (c)
        0x60 => {
            let mut value = z.h;
            in_r_c(z, bus, &mut value);
            z.h = value;
        } // in h, (c)
        0x68 => {
            let mut value = z.l;
            in_r_c(z, bus, &mut value);
            z.l = value;
        } // in l, (c)
        0x70 => {
            let mut val: u8 = 0;
            in_r_c(z, bus, &mut val);
        } // in (c)
        0x78 => {
            let mut value = z.a;
            in_r_c(z, bus, &mut value);
            z.a = value;
            z.mem_ptr = get_bc(z).wrapping_add(1);
            // in a, (c)
        }
        0x41 => {
            bus.port_out(z.c, z.b);
        } // out (c), b
        0x49 => {
            bus.port_out(z.c, z.c);
        } // out (c), c
        0x51 => {
            bus.port_out(z.c, z.d);
        } // out (c), d
        0x59 => {
            bus.port_out(z.c, z.e);
        } // out (c), e
        0x61 => {
            bus.port_out(z.c, z.h);
        } // out (c), h
        0x69 => {
            bus.port_out(z.c, z.l);
        } // out (c), l
        0x71 => {
            bus.port_out(z.c, 0);
        } // out (c), 0
        0x79 => {
            bus.port_out(z.c, z.a);
            z.mem_ptr = get_bc(z).wrapping_add(1);
            // out (c), a
        }
        _ => {
        }
    }
}

/// The word add and subtract with carry arms of the extended table, from the already charged state.
#[verifier::rlimit(100)]
#[verifier::spinoff_prover]
fn exec_opcode_ed_arith<B: Bus>(z: &mut z80, bus: &mut B, opcode: u8)
    requires
        old(z).flags_wf(),
        old(bus).inv(),
        opcode == 0x42 || opcode == 0x52 || opcode == 0x62 || opcode == 0x72 || opcode == 0x4A || opcode == 0x5A || opcode == 0x6A || opcode == 0x7A,
    ensures
        final(z).flags_wf(),
        final(bus).inv(),
        final(z).cyc >= old(z).cyc,
        ed_deterministic(opcode) ==> *final(z) == crate::model::ed_arm_effect(
            *old(z),
            old(bus).mem(),
            opcode,
        ) && final(bus).mem() == crate::model::ed_arm_mem(*old(z), old(bus).mem(), opcode),
{
    proof {
        reveal(crate::model::ed_arm_effect);
        reveal(crate::model::ed_arm_mem);
    }
    match opcode {
        0x42 => {
            let result = get_bc(z);
            sbchl(z, result);
        } // sbc hl,bc
        0x52 => {
            let result = get_de(z);
            sbchl(z, result);
        } // sbc hl,de
        0x62 => {
            let result = get_hl(z);
            sbchl(z, result);
        } // sbc hl,hl
        0x72 => {
            sbchl(z, z.sp);
        } // sbc hl,sp
        0x4A => {
            let result = get_bc(z);
            adchl(z, result);
        } // adc hl,bc
        0x5A => {
            let result = get_de(z);
            adchl(z, result);
        } // adc hl,de
        0x6A => {
            let result = get_hl(z);
            adchl(z, result);
        } // adc hl,hl
        0x7A => {
            adchl(z, z.sp);
        } // adc hl,sp
        _ => {
        }
    }
}

/// The absolute word-load arms of the extended table, from the already charged state.
#[verifier::rlimit(100)]
#[verifier::spinoff_prover]
fn exec_opcode_ed_ldabs<B: Bus>(z: &mut z80, bus: &mut B, opcode: u8)
    requires
        old(z).flags_wf(),
        old(bus).inv(),
        opcode == 0x43 || opcode == 0x53 || opcode == 0x63 || opcode == 0x73 || opcode == 0x4B || opcode == 0x5B || opcode == 0x6B || opcode == 0x7B,
    ensures
        final(z).flags_wf(),
        final(bus).inv(),
        final(z).cyc >= old(z).cyc,
        ed_deterministic(opcode) ==> *final(z) == crate::model::ed_arm_effect(
            *old(z),
            old(bus).mem(),
            opcode,
        ) && final(bus).mem() == crate::model::ed_arm_mem(*old(z), old(bus).mem(), opcode),
{
    proof {
        reveal(crate::model::ed_arm_effect);
        reveal(crate::model::ed_arm_mem);
    }
    match opcode {
        0x43 => {
            let addr: u16 = nextw(z, bus);
            let result = get_bc(z);
            ww(bus, addr, result);
            z.mem_ptr = addr.wrapping_add(1);
        } // ld (**), bc
        0x53 => {
            let addr: u16 = nextw(z, bus);
            let result = get_de(z);
            ww(bus, addr, result);
            z.mem_ptr = addr.wrapping_add(1);
        } // ld (**), de
        0x63 => {
            let addr: u16 = nextw(z, bus);
            let result = get_hl(z);
            ww(bus, addr, result);
            z.mem_ptr = addr.wrapping_add(1);
        } // ld (**), hl
        0x73 => {
            let addr: u16 = nextw(z, bus);
            ww(bus, addr, z.sp);
            z.mem_ptr = addr.wrapping_add(1);
        } // ld (**),sp
        0x4B => {
            let addr: u16 = nextw(z, bus);
            let result = rw(bus, addr);
            set_bc(z, result);
            z.mem_ptr = addr.wrapping_add(1);
        } // ld bc, (**)
        0x5B => {
            let addr: u16 = nextw(z, bus);
            let result = rw(bus, addr);
            set_de(z, result);
            z.mem_ptr = addr.wrapping_add(1);
        } // ld de, (**)
        0x6B => {
            let addr: u16 = nextw(z, bus);
            let result = rw(bus, addr);
            set_hl(z, result);
            z.mem_ptr = addr.wrapping_add(1);
        } // ld hl, (**)
        0x7B => {
            let addr: u16 = nextw(z, bus);
            z.sp = rw(bus, addr);
            z.mem_ptr = addr.wrapping_add(1);
        } // ld sp,(**)
        _ => {
        }
    }
}


/// The negate, interrupt-mode and nibble-rotate arms of the extended table, from the already charged state.
#[verifier::rlimit(100)]
#[verifier::spinoff_prover]
fn exec_opcode_ed_misc<B: Bus>(z: &mut z80, bus: &mut B, opcode: u8)
    requires
        old(z).flags_wf(),
        old(bus).inv(),
        opcode == 0x44 || opcode == 0x54 || opcode == 0x64 || opcode == 0x74 || opcode == 0x4C || opcode == 0x5C || opcode == 0x6C || opcode == 0x7C || opcode == 0x46 || opcode == 0x66 || opcode == 0x56 || opcode == 0x76 || opcode == 0x5E || opcode == 0x7E || opcode == 0x67 || opcode == 0x6F,
    ensures
        final(z).flags_wf(),
        final(bus).inv(),
        final(z).cyc >= old(z).cyc,
        ed_deterministic(opcode) ==> *final(z) == crate::model::ed_arm_effect(
            *old(z),
            old(bus).mem(),
            opcode,
        ) && final(bus).mem() == crate::model::ed_arm_mem(*old(z), old(bus).mem(), opcode),
{
    proof {
        reveal(crate::model::ed_arm_effect);
        reveal(crate::model::ed_arm_mem);
    }
    match opcode {
        0x44 | 0x54 | 0x64 | 0x74 | 0x4C | 0x5C | 0x6C | 0x7C => {
            z.a = subb(z, 0, z.a, 0);
        } // neg
        0x46 | 0x66 => {
            z.interrupt_mode = 0;
        } // im 0
        0x56 | 0x76 => {
            z.interrupt_mode = 1;
        } // im 1
        0x5E | 0x7E => {
            z.interrupt_mode = 2;
        } // im 2
        0x67 => {
            let a: u8 = z.a;
            let result = get_hl(z);
            let val: u8 = rb(bus, result);
            z.a = (a & 0xF0) | (val & 0xF);
            let result = get_hl(z);
            wb(bus, result, (val >> 4) | (a << 4));

            z.nf = 0;
            z.hf = 0;
            z.xf = GET_BIT(3, z.a);
            z.yf = GET_BIT(5, z.a);
            if z.a == 0 {
                z.zf = 1;
            } else {
                z.zf = 0;
            }

            z.sf = z.a >> 7;
            if parity(z.a) {
                z.pf = 1;
            } else {
                z.pf = 0;
            }
            z.mem_ptr = get_hl(z).wrapping_add(1);
        } // rrd
        0x6F => {
            let a: u8 = z.a;
            let result = get_hl(z);
            let val: u8 = rb(bus, result);
            z.a = (a & 0xF0) | (val >> 4);
            let result = get_hl(z);
            wb(bus, result, (val << 4) | (a & 0xF));

            z.nf = 0;
            z.hf = 0;
            z.xf = GET_BIT(3, z.a);
            z.yf = GET_BIT(5, z.a);
            if z.a == 0 {
                z.zf = 1;
            } else {
                z.zf = 0;
            }
            z.sf = z.a >> 7;
            if parity(z.a) {
                z.pf = 1;
            } else {
                z.pf = 0;
            }

            z.mem_ptr = get_hl(z).wrapping_add(1);
        } // rld
        _ => {
        }
    }
}

/// The single block-copy arms of the extended table, from the already charged state.
#[verifier::rlimit(100)]
#[verifier::spinoff_prover]
fn exec_opcode_ed_ld_one<B: Bus>(z: &mut z80, bus: &mut B, opcode: u8)
    requires
        old(z).flags_wf(),
        old(bus).inv(),
        opcode == 0xA0 || opcode == 0xA8,
    ensures
        final(z).flags_wf(),
        final(bus).inv(),
        final(z).cyc >= old(z).cyc,
        ed_deterministic(opcode) ==> *final(z) == crate::model::ed_arm_effect(
            *old(z),
            old(bus).mem(),
            opcode,
        ) && final(bus).mem() == crate::model::ed_arm_mem(*old(z), old(bus).mem(), opcode),
{
    proof {
        reveal(crate::model::ed_arm_effect);
        reveal(crate::model::ed_arm_mem);
    }
    match opcode {
        0xA0 => {
            ldi(z, bus);
        } // ldi
        0xA8 => {
            ldd(z, bus);
        } // ldd
        _ => {
        }
    }
}

/// The upward auto-repeating block-copy arm of the extended table, from the already charged state.
#[verifier::rlimit(100)]
#[verifier::spinoff_prover]
fn exec_opcode_ed_ldir<B: Bus>(z: &mut z80, bus: &mut B, opcode: u8)
    requires
        old(z).flags_wf(),
        old(bus).inv(),
        opcode == 0xB0,
    ensures
        final(z).flags_wf(),
        final(bus).inv(),
        final(z).cyc >= old(z).cyc,
        ed_deterministic(opcode) ==> *final(z) == crate::model::ed_arm_effect(
            *old(z),
            old(bus).mem(),
            opcode,
        ) && final(bus).mem() == crate::model::ed_arm_mem(*old(z), old(bus).mem(), opcode),
{
    proof {
        reveal(crate::model::ed_arm_effect);
        reveal(crate::model::ed_arm_mem);
    }
    match opcode {
        0xB0 => {
            ldi(z, bus);
            let ghost z1 = crate::model::st_ldi(*old(z), old(bus).mem());
            proof {
                assert(*z == z1);
            }
            if get_bc(z) != 0 {
                z.pc = z.pc.wrapping_sub(2);
                z.cyc = z.cyc.saturating_add(5);
                z.mem_ptr = z.pc.wrapping_add(1);
            }
            proof {
                assert(*z == crate::model::st_repeat_copy(z1));
            }
        } // ldir
        _ => {
        }
    }
}

/// The downward auto-repeating block-copy arm of the extended table, from the already charged state.
#[verifier::rlimit(100)]
#[verifier::spinoff_prover]
fn exec_opcode_ed_lddr<B: Bus>(z: &mut z80, bus: &mut B, opcode: u8)
    requires
        old(z).flags_wf(),
        old(bus).inv(),
        opcode == 0xB8,
    ensures
        final(z).flags_wf(),
        final(bus).inv(),
        final(z).cyc >= old(z).cyc,
        ed_deterministic(opcode) ==> *final(z) == crate::model::ed_arm_effect(
            *old(z),
            old(bus).mem(),
            opcode,
        ) && final(bus).mem() == crate::model::ed_arm_mem(*old(z), old(bus).mem(), opcode),
{
    match opcode {
        0xB8 => {
            ldd(z, bus);
            let ghost z1 = crate::model::st_ldd(*old(z), old(bus).mem());
            proof {
                assert(*z == z1);
            }
            if get_bc(z) != 0 {
                z.pc = z.pc.wrapping_sub(2);
                z.cyc = z.cyc.saturating_add(5);
                z.mem_ptr = z.pc.wrapping_add(1);
            }
            proof {
                assert(*z == crate::model::st_repeat_copy(z1));
                assert(crate::model::ed_arm_effect(*old(z), old(bus).mem(), opcode)
                    == crate::model::st_repeat_copy(z1)) by {
                    reveal(crate::model::ed_arm_effect);
                }
                assert(crate::model::ed_arm_mem(*old(z), old(bus).mem(), opcode)
                    == crate::model::st_ldi_mem(*old(z), old(bus).mem())) by {
                    reveal(crate::model::ed_arm_mem);
                }
            }
        } // lddr
        _ => {
        }
    }
}



/// The single block-compare arms of the extended table, from the already charged state.
#[verifier::rlimit(100)]
#[verifier::spinoff_prover]
fn exec_opcode_ed_cp_one<B: Bus>(z: &mut z80, bus: &mut B, opcode: u8)
    requires
        old(z).flags_wf(),
        old(bus).inv(),
        opcode == 0xA1 || opcode == 0xA9,
    ensures
        final(z).flags_wf(),
        final(bus).inv(),
        final(z).cyc >= old(z).cyc,
        ed_deterministic(opcode) ==> *final(z) == crate::model::ed_arm_effect(
            *old(z),
            old(bus).mem(),
            opcode,
        ) && final(bus).mem() == crate::model::ed_arm_mem(*old(z), old(bus).mem(), opcode),
{
    proof {
        reveal(crate::model::ed_arm_effect);
        reveal(crate::model::ed_arm_mem);
    }
    match opcode {
        0xA1 => {
            cpi(z, bus);
        } // cpi
        0xA9 => {
            cpd(z, bus);
        } // cpd
        _ => {
        }
    }
}

/// The upward auto-repeating block-compare arm of the extended table, from the already charged state.
#[verifier::rlimit(100)]
#[verifier::spinoff_prover]
fn exec_opcode_ed_cpir<B: Bus>(z: &mut z80, bus: &mut B, opcode: u8)
    requires
        old(z).flags_wf(),
        old(bus).inv(),
        opcode == 0xB1,
    ensures
        final(z).flags_wf(),
        final(bus).inv(),
        final(z).cyc >= old(z).cyc,
        ed_deterministic(opcode) ==> *final(z) == crate::model::ed_arm_effect(
            *old(z),
            old(bus).mem(),
            opcode,
        ) && final(bus).mem() == crate::model::ed_arm_mem(*old(z), old(bus).mem(), opcode),
{
    proof {
        reveal(crate::model::ed_arm_effect);
        reveal(crate::model::ed_arm_mem);
    }
    match opcode {
        0xB1 => {
            cpi(z, bus);
            let ghost z1 = crate::model::st_cpi(*old(z), old(bus).mem());
            proof {
                assert(*z == z1);
            }
            if get_bc(z) != 0 && z.zf == 0 {
                z.pc = z.pc.wrapping_sub(2);
                z.cyc = z.cyc.saturating_add(5);
                z.mem_ptr = z.pc.wrapping_add(1);
            } else {
                z.mem_ptr = z.mem_ptr.wrapping_add(1);
            }
            proof {
                assert(*z == crate::model::st_repeat_cpi(z1));
            }
        } // cpir
        _ => {
        }
    }
}

/// The downward auto-repeating block-compare arm of the extended table, from the already charged state.
#[verifier::rlimit(100)]
#[verifier::spinoff_prover]
fn exec_opcode_ed_cpdr<B: Bus>(z: &mut z80, bus: &mut B, opcode: u8)
    requires
        old(z).flags_wf(),
        old(bus).inv(),
        opcode == 0xB9,
    ensures
        final(z).flags_wf(),
        final(bus).inv(),
        final(z).cyc >= old(z).cyc,
        ed_deterministic(opcode) ==> *final(z) == crate::model::ed_arm_effect(
            *old(z),
            old(bus).mem(),
            opcode,
        ) && final(bus).mem() == crate::model::ed_arm_mem(*old(z), old(bus).mem(), opcode),
{
    proof {
        reveal(crate::model::ed_arm_effect);
        reveal(crate::model::ed_arm_mem);
    }
    match opcode {
        0xB9 => {
            cpd(z, bus);
            let ghost z1 = crate::model::st_cpd(*old(z), old(bus).mem());
            proof {
                assert(*z == z1);
            }
            if get_bc(z) != 0 && z.zf == 0 {
                z.pc = z.pc.wrapping_sub(2);
                z.cyc = z.cyc.saturating_add(5);
            } else {
                z.mem_ptr = z.mem_ptr.wrapping_add(1);
            }
            proof {
                assert(*z == crate::model::st_repeat_cpd(z1));
            }
        } // cpdr
        _ => {
        }
    }
}




/// The block-input arms of the extended table, from the already charged state.
#[verifier::rlimit(100)]
#[verifier::spinoff_prover]
fn exec_opcode_ed_ins<B: Bus>(z: &mut z80, bus: &mut B, opcode: u8)
    requires
        old(z).flags_wf(),
        old(bus).inv(),
        opcode == 0xA2 || opcode == 0xB2 || opcode == 0xAA || opcode == 0xBA,
    ensures
        final(z).flags_wf(),
        final(bus).inv(),
        final(z).cyc >= old(z).cyc,
        *final(z) == (if opcode == 0xA2 {
            crate::model::st_outi(*old(z))
        } else if opcode == 0xAA {
            crate::model::st_outd(*old(z))
        } else if opcode == 0xB2 {
            crate::model::st_repeat_out(crate::model::st_outi(*old(z)))
        } else {
            crate::model::st_repeat_out(crate::model::st_outd(*old(z)))
        }),
        exists|v: u8|
            final(bus).mem() == old(bus).mem().update(old(z).spec_hl() as int, v),
        ed_deterministic(opcode) ==> *final(z) == crate::model::ed_arm_effect(
            *old(z),
            old(bus).mem(),
            opcode,
        ) && final(bus).mem() == crate::model::ed_arm_mem(*old(z), old(bus).mem(), opcode),
{
    proof {
        reveal(crate::model::ed_arm_effect);
        reveal(crate::model::ed_arm_mem);
    }
    match opcode {
        0xA2 => {
            ini(z, bus);
        } // ini}
        0xB2 => {
            ini(z, bus);
            if z.b > 0 {
                z.pc = z.pc.wrapping_sub(2);
                z.cyc = z.cyc.saturating_add(5);
            }
            // inir
        }
        0xAA => {
            ind(z, bus);
        } // ind}
        0xBA => {
            ind(z, bus);
            if z.b > 0 {
                z.pc = z.pc.wrapping_sub(2);
                z.cyc = z.cyc.saturating_add(5);
            }
            // indr
        }
        _ => {
        }
    }
}

/// The single upward block-output arm of the extended table, from the already charged state.
#[verifier::rlimit(100)]
#[verifier::spinoff_prover]
fn exec_opcode_ed_outi<B: Bus>(z: &mut z80, bus: &mut B, opcode: u8)
    requires
        old(z).flags_wf(),
        old(bus).inv(),
        opcode == 0xA3,
    ensures
        final(z).flags_wf(),
        final(bus).inv(),
        final(z).cyc >= old(z).cyc,
        ed_deterministic(opcode) ==> *final(z) == crate::model::ed_arm_effect(
            *old(z),
            old(bus).mem(),
            opcode,
        ) && final(bus).mem() == crate::model::ed_arm_mem(*old(z), old(bus).mem(), opcode),
{
    proof {
        reveal(crate::model::ed_arm_effect);
        reveal(crate::model::ed_arm_mem);
    }
    match opcode {
        0xA3 => {
            outi(z, bus);
        } // outi
        _ => {
        }
    }
}

/// The auto-repeating upward block-output arm of the extended table, from the already charged state.
#[verifier::rlimit(100)]
#[verifier::spinoff_prover]
fn exec_opcode_ed_otir<B: Bus>(z: &mut z80, bus: &mut B, opcode: u8)
    requires
        old(z).flags_wf(),
        old(bus).inv(),
        opcode == 0xB3,
    ensures
        final(z).flags_wf(),
        final(bus).inv(),
        final(z).cyc >= old(z).cyc,
        ed_deterministic(opcode) ==> *final(z) == crate::model::ed_arm_effect(
            *old(z),
            old(bus).mem(),
            opcode,
        ) && final(bus).mem() == crate::model::ed_arm_mem(*old(z), old(bus).mem(), opcode),
{
    proof {
        reveal(crate::model::ed_arm_effect);
        reveal(crate::model::ed_arm_mem);
    }
    match opcode {
        0xB3 => {
            outi(z, bus);
            let ghost z1 = crate::model::st_outi(*old(z));
            proof {
                assert(*z == z1);
            }
            if z.b > 0 {
                z.pc = z.pc.wrapping_sub(2);
                z.cyc = z.cyc.saturating_add(5);
            }
            proof {
                assert(*z == crate::model::st_repeat_out(z1));
            }
        } // otir
        _ => {
        }
    }
}

/// The single downward block-output arm of the extended table, from the already charged state.
#[verifier::rlimit(100)]
#[verifier::spinoff_prover]
fn exec_opcode_ed_outd<B: Bus>(z: &mut z80, bus: &mut B, opcode: u8)
    requires
        old(z).flags_wf(),
        old(bus).inv(),
        opcode == 0xAB,
    ensures
        final(z).flags_wf(),
        final(bus).inv(),
        final(z).cyc >= old(z).cyc,
        ed_deterministic(opcode) ==> *final(z) == crate::model::ed_arm_effect(
            *old(z),
            old(bus).mem(),
            opcode,
        ) && final(bus).mem() == crate::model::ed_arm_mem(*old(z), old(bus).mem(), opcode),
{
    proof {
        reveal(crate::model::ed_arm_effect);
        reveal(crate::model::ed_arm_mem);
    }
    match opcode {
        0xAB => {
            outd(z, bus);
        } // outd
        _ => {
        }
    }
}

/// The auto-repeating downward block-output arm of the extended table, from the already charged state.
#[verifier::rlimit(100)]
#[verifier::spinoff_prover]
fn exec_opcode_ed_otdr<B: Bus>(z: &mut z80, bus: &mut B, opcode: u8)
    requires
        old(z).flags_wf(),
        old(bus).inv(),
        opcode == 0xBB,
    ensures
        final(z).flags_wf(),
        final(bus).inv(),
        final(z).cyc >= old(z).cyc,
        ed_deterministic(opcode) ==> *final(z) == crate::model::ed_arm_effect(
            *old(z),
            old(bus).mem(),
            opcode,
        ) && final(bus).mem() == crate::model::ed_arm_mem(*old(z), old(bus).mem(), opcode),
{
    proof {
        reveal(crate::model::ed_arm_effect);
        reveal(crate::model::ed_arm_mem);
    }
    match opcode {
        0xBB => {
            outd(z, bus);
            let ghost z1 = crate::model::st_outd(*old(z));
            proof {
                assert(*z == z1);
            }
            if z.b > 0 {
                z.pc = z.pc.wrapping_sub(2);
            }
            proof {
                assert(*z == crate::model::st_repeat_otdr(z1));
            }
        } // otdr
        _ => {
        }
    }
}



/// Execute an extended-table opcode. The table is the one decoder that is
/// not total: an unknown opcode is treated as a no-op beyond its cycle cost
/// and the refresh count, and execution continues. For every opcode that
/// reads no port, the whole effect is the one `ed_effect` gives.
pub fn exec_opcode_ed<B: Bus>(z: &mut z80, bus: &mut B, opcode: u8)
    requires
        old(z).flags_wf(),
        old(bus).inv(),
    ensures
        final(z).flags_wf(),
        final(bus).inv(),
        final(z).cyc >= old(z).cyc.saturating_add(8),
        ed_deterministic(opcode) ==> *final(z) == ed_effect(*old(z), old(bus).mem(), opcode)
            && final(bus).mem() == ed_mem(*old(z), old(bus).mem(), opcode),
        (opcode == 0x40 || opcode == 0x48 || opcode == 0x50 || opcode == 0x58 || opcode == 0x60
            || opcode == 0x68 || opcode == 0x70 || opcode == 0x78) ==> final(bus).mem() == old(
            bus,
        ).mem(),
        (opcode == 0xA2 || opcode == 0xAA || opcode == 0xB2 || opcode == 0xBA) ==> (*final(z) == (
        if opcode == 0xA2 {
            crate::model::st_outi(crate::model::charged(*old(z), crate::model::spec_cyc_ed(opcode)))
        } else if opcode == 0xAA {
            crate::model::st_outd(crate::model::charged(*old(z), crate::model::spec_cyc_ed(opcode)))
        } else if opcode == 0xB2 {
            crate::model::st_repeat_out(
                crate::model::st_outi(
                    crate::model::charged(*old(z), crate::model::spec_cyc_ed(opcode)),
                ),
            )
        } else {
            crate::model::st_repeat_out(
                crate::model::st_outd(
                    crate::model::charged(*old(z), crate::model::spec_cyc_ed(opcode)),
                ),
            )
        }) && (exists|v: u8|
            final(bus).mem() == old(bus).mem().update(old(z).spec_hl() as int, v))),
{
    z.cyc = z.cyc.saturating_add(cyc_ed(opcode) as u64);
    inc_r(z);
    match opcode {
        0x47 | 0x4F | 0x57 | 0x5F | 0x45 | 0x55 | 0x5D | 0x65 | 0x6D | 0x75 | 0x7D | 0x4D => exec_opcode_ed_loads(z, bus, opcode),
        0x40 | 0x48 | 0x50 | 0x58 | 0x60 | 0x68 | 0x70 | 0x78 | 0x41 | 0x49 | 0x51 | 0x59 | 0x61 | 0x69 | 0x71 | 0x79 => exec_opcode_ed_ports(z, bus, opcode),
        0x42 | 0x52 | 0x62 | 0x72 | 0x4A | 0x5A | 0x6A | 0x7A => exec_opcode_ed_arith(z, bus, opcode),
        0x43 | 0x53 | 0x63 | 0x73 | 0x4B | 0x5B | 0x6B | 0x7B => exec_opcode_ed_ldabs(z, bus, opcode),
        0x44 | 0x54 | 0x64 | 0x74 | 0x4C | 0x5C | 0x6C | 0x7C | 0x46 | 0x66 | 0x56 | 0x76 | 0x5E | 0x7E | 0x67 | 0x6F => exec_opcode_ed_misc(z, bus, opcode),
        0xA0 | 0xA8 => exec_opcode_ed_ld_one(z, bus, opcode),
        0xB0 => exec_opcode_ed_ldir(z, bus, opcode),
        0xB8 => exec_opcode_ed_lddr(z, bus, opcode),
        0xA1 | 0xA9 => exec_opcode_ed_cp_one(z, bus, opcode),
        0xB1 => exec_opcode_ed_cpir(z, bus, opcode),
        0xB9 => exec_opcode_ed_cpdr(z, bus, opcode),
        0xA2 | 0xB2 | 0xAA | 0xBA => {
            let ghost hl0 = z.spec_hl();
            let ghost m0 = bus.mem();
            exec_opcode_ed_ins(z, bus, opcode);
            proof {
                let v = choose|v: u8| bus.mem() == m0.update(hl0 as int, v);
                assert(bus.mem() == old(bus).mem().update(old(z).spec_hl() as int, v));
            }
        },
        0xA3 => exec_opcode_ed_outi(z, bus, opcode),
        0xB3 => exec_opcode_ed_otir(z, bus, opcode),
        0xAB => exec_opcode_ed_outd(z, bus, opcode),
        0xBB => exec_opcode_ed_otdr(z, bus, opcode),
        _ => {
            // unknown extended opcode: treated as a no-op
            proof {
                reveal(crate::model::ed_arm_effect);
                reveal(crate::model::ed_arm_mem);
            }
        }
    }
}



/// Evaluate pending interrupts, once per step, after the instruction.
///
/// A pending enable-interrupts delay wins over everything: it counts down,
/// enables both flip-flops when it reaches zero, and defers any pending
/// interrupt to the next step. A non-maskable interrupt is serviced
/// regardless of the enable state, jumping through the fixed address 0x66
/// and leaving the secondary flip-flop to remember the prior enable state. A
/// maskable interrupt is serviced only when the primary flip-flop is set,
/// vectoring by the current mode: mode 0 executes the attached data byte as
/// an opcode, mode 1 calls the fixed address 0x38, and mode 2 calls through
/// the vector table at the interrupt-vector register page. A mode outside
/// 0, 1 and 2 is unsupported: the interrupt is taken off the queue and
/// nothing else happens.
#[verifier::rlimit(100)]
#[verifier::spinoff_prover]
pub fn process_interrupts<B: Bus>(z: &mut z80, bus: &mut B)
    requires
        old(z).flags_wf(),
        old(bus).inv(),
    ensures
        final(z).flags_wf(),
        final(bus).inv(),
        final(z).cyc >= old(z).cyc,
        int_deterministic(*old(z)) ==> *final(z) == int_effect(*old(z), old(bus).mem())
            && final(bus).mem() == int_mem(*old(z), old(bus).mem()),
        !int_deterministic(*old(z)) && crate::model::base_deterministic(
            *old(z),
            old(bus).mem(),
            old(z).int_data,
        ) ==> *final(z) == crate::model::base_op_effect(
            (z80 {
                cyc: old(z).cyc.saturating_add(11),
                ..crate::model::service_state(*old(z))
            }),
            old(bus).mem(),
            old(z).int_data,
        ) && final(bus).mem() == crate::model::base_op_mem(
            (z80 {
                cyc: old(z).cyc.saturating_add(11),
                ..crate::model::service_state(*old(z))
            }),
            old(bus).mem(),
            old(z).int_data,
        ),
{
    // a freshly executed enable-interrupts instruction keeps any pending
    // request waiting until one more instruction has run
    if z.iff_delay > 0 {
        z.iff_delay -= 1;
        if z.iff_delay == 0 {
            z.iff1 = true;
            z.iff2 = true;
        }
        return ;
    }
    if z.nmi_pending {
        z.nmi_pending = false;
        z.halted = false;
        z.iff1 = false;
        inc_r(z);

        z.cyc = z.cyc.saturating_add(11);
        call(z, bus, 0x66);
        return ;
    }
    if z.int_pending && z.iff1 {
        z.int_pending = false;
        z.halted = false;
        z.iff1 = false;
        z.iff2 = false;
        inc_r(z);

        if z.interrupt_mode == 0 {
            z.cyc = z.cyc.saturating_add(11);
            let data = z.int_data;
            exec_opcode(z, bus, data);
        } else if z.interrupt_mode == 1 {
            z.cyc = z.cyc.saturating_add(13);
            call(z, bus, 0x38);
        } else if z.interrupt_mode == 2 {
            z.cyc = z.cyc.saturating_add(19);
            proof {
                crate::flags::lemma_word_bits(old(z).i, old(z).int_data);
            }
            let temp = rw(bus, ((z.i as u16) << 8) | z.int_data as u16);
            call(z, bus, temp);
        } else {
            // unsupported interrupt mode: the request is dropped
        }
        return ;
    }
}

/// Execute the next instruction, then run the interrupt state machine once.
/// This is the host's single entry point for driving the processor. While
/// halted, the processor re-executes a no-op -- four cycles per step, the
/// program counter pinned -- until an interrupt clears the halt.
pub fn z80_step<B: Bus>(z: &mut z80, bus: &mut B)
    requires
        old(z).flags_wf(),
        old(bus).inv(),
    ensures
        final(z).flags_wf(),
        final(bus).inv(),
        final(z).cyc >= old(z).cyc.saturating_add(4),
        crate::model::step_deterministic(*old(z), old(bus).mem()) ==> *final(z)
            == crate::model::step_effect(*old(z), old(bus).mem()) && final(bus).mem()
            == crate::model::step_mem(*old(z), old(bus).mem()),
        old(z).halted && old(z).iff_delay == 0 && !old(z).nmi_pending && !(old(z).int_pending
            && old(z).iff1) ==> *final(z) == (z80 {
            cyc: old(z).cyc.saturating_add(4),
            r: spec_inc_r(old(z).r),
            ..*old(z)
        }) && final(bus).mem() == old(bus).mem(),
        old(z).halted && int_deterministic(*old(z)) ==> *final(z) == int_effect(
            (z80 { cyc: old(z).cyc.saturating_add(4), r: spec_inc_r(old(z).r), ..*old(z) }),
            old(bus).mem(),
        ) && final(bus).mem() == int_mem(
            (z80 { cyc: old(z).cyc.saturating_add(4), r: spec_inc_r(old(z).r), ..*old(z) }),
            old(bus).mem(),
        ),
{
    if z.halted {
        exec_opcode(z, bus, 0x00);
        proof {
            reveal(crate::model::base_arm_effect_x00);
            reveal(crate::model::base_arm_mem_x00);
            assert(*z == (z80 {
                cyc: old(z).cyc.saturating_add(4),
                r: spec_inc_r(old(z).r),
                ..*old(z)
            }));
            assert(bus.mem() == old(bus).mem());
        }
    } else {
        let opcode: u8 = nextb(z, bus);
        exec_opcode(z, bus, opcode);
    }

    process_interrupts(z, bus);
}

/// The text the state dump renders from the register words, the four bytes
/// at the program counter and the cycle counter: a function of its arguments
/// alone.
pub uninterp spec fn rendered_of(
    pc: u16,
    af: u16,
    bc: u16,
    de: u16,
    hl: u16,
    sp: u16,
    ix: u16,
    iy: u16,
    iv: u8,
    rfsh: u8,
    m0: u8,
    m1: u8,
    m2: u8,
    m3: u8,
    cyc: u64,
) -> Seq<char>;

/// Renders the processor state as one line of text. Relies on std's `format`
/// macro for the hexadecimal formatting; its result depends on the arguments
/// alone.
#[verifier::external_body]
fn render_state(
    pc: u16,
    af: u16,
    bc: u16,
    de: u16,
    hl: u16,
    sp: u16,
    ix: u16,
    iy: u16,
    iv: u8,
    rfsh: u8,
    m0: u8,
    m1: u8,
    m2: u8,
    m3: u8,
    cyc: u64,
) -> (s: String)
    ensures
        s@ == rendered_of(pc, af, bc, de, hl, sp, ix, iy, iv, rfsh, m0, m1, m2, m3, cyc),
{
    format!(
        "PC: {:04X}, AF: {:04X}, BC: {:04X}, DE: {:04X}, HL: {:04X}, SP: {:04X}, IX: {:04X}, IY: {:04X}, I: {:02X}, R: {:02X}\t({:02X} {:02X} {:02X} {:02X}), cyc: {}",
        pc, af, bc, de, hl, sp, ix, iy, iv, rfsh, m0, m1, m2, m3, cyc,
    )
}

/// A diagnostic dump of all registers, flags, the cycle counter and the four
/// bytes at the program counter. It reads over the bus but changes nothing.
pub fn z80_debug_output<B: Bus>(z: &mut z80, bus: &mut B) -> (s: String)
    requires
        old(z).flags_wf(),
        old(bus).inv(),
    ensures
        *final(z) == *old(z),
        final(bus).inv(),
        final(bus).mem() == old(bus).mem(),
        s@ == rendered_of(
            old(z).pc,
            word_from(old(z).a, old(z).spec_f()),
            old(z).spec_bc(),
            old(z).spec_de(),
            old(z).spec_hl(),
            old(z).sp,
            old(z).ix,
            old(z).iy,
            old(z).i,
            old(z).r,
            old(bus).mem()[old(z).pc as int],
            old(bus).mem()[wrap16(old(z).pc + 1) as int],
            old(bus).mem()[wrap16(old(z).pc + 2) as int],
            old(bus).mem()[wrap16(old(z).pc + 3) as int],
            old(z).cyc,
        ),
{
    let f = get_f(z);
    let a = z.a;
    proof {
        crate::flags::lemma_word_bits(a, f);
    }
    let af: u16 = ((a as u16) << 8) | f as u16;
    let bcv = get_bc(z);
    let dev = get_de(z);
    let hlv = get_hl(z);
    let m0 = rb(bus, z.pc);
    let m1 = rb(bus, z.pc.wrapping_add(1));
    let m2 = rb(bus, z.pc.wrapping_add(2));
    let m3 = rb(bus, z.pc.wrapping_add(3));
    render_state(z.pc, af, bcv, dev, hlv, z.sp, z.ix, z.iy, z.i, z.r, m0, m1, m2, m3, z.cyc)
}

} // verus!
