//! The processor state and the helpers every instruction is built from:
//! register-pair access, the packed flag byte, bus access, the stack, and
//! the jump/call/return primitives.

use vstd::prelude::*;

use crate::bus::Bus;
use crate::flags::lemma_spec_bit_le_1;
use crate::flags::lemma_word_bits;
use crate::flags::lemma_word_split;
use crate::flags::spec_bit;

verus! {

broadcast use lemma_spec_bit_le_1;

/// `v` reduced modulo the 16-bit register width.
pub open spec fn wrap16(v: int) -> u16 {
    (v % 0x10000) as u16
}

/// `v` reduced modulo the 8-bit register width.
pub open spec fn wrap8(v: int) -> u8 {
    (v % 0x100) as u8
}

/// Low byte of a 16-bit word.
pub open spec fn lo_byte(v: u16) -> u8 {
    (v as int % 256) as u8
}

/// High byte of a 16-bit word.
pub open spec fn hi_byte(v: u16) -> u8 {
    (v as int / 256) as u8
}

/// The word formed by a high and a low byte.
pub open spec fn word_from(hi: u8, lo: u8) -> u16 {
    (hi * 256 + lo) as u16
}

/// The little-endian word stored at `addr` (the high byte sits one address
/// up, wrapping around the top of the address space).
pub open spec fn word_at(mem: Seq<u8>, addr: u16) -> u16 {
    word_from(mem[wrap16(addr + 1) as int], mem[addr as int])
}

/// Memory after the little-endian word `val` is stored at `addr`.
pub open spec fn written_word(mem: Seq<u8>, addr: u16, val: u16) -> Seq<u8> {
    mem.update(addr as int, lo_byte(val)).update(wrap16(addr + 1) as int, hi_byte(val))
}

/// Stepping the refresh register back undoes one increment exactly.
pub broadcast proof fn lemma_dec_inc_r(r: u8)
    ensures
        #[trigger] spec_dec_r(spec_inc_r(r)) == r,
{
    let i = spec_inc_r(r);
    assert(((((r & 0x80) | (((r + 1) % 256) as u8 & 0x7f)) & 0x80) | ((((((r & 0x80) | ((((r + 1)
        % 256) as u8) & 0x7f)) - 1) % 256) as u8) & 0x7f)) == r) by (bit_vector);
}

/// Byte wraparound spelled out for the one-step overflow and underflow the
/// instructions produce.
pub proof fn lemma_wrap8_range(v: int)
    requires
        -0x100 <= v < 0x200,
    ensures
        wrap8(v) == if v < 0 {
            v + 0x100
        } else if v >= 0x100 {
            v - 0x100
        } else {
            v
        },
{
    if v < 0 {
        vstd::arithmetic::div_mod::lemma_mod_add_multiples_vanish(v, 0x100);
        vstd::arithmetic::div_mod::lemma_small_mod((v + 0x100) as nat, 0x100);
    } else if v >= 0x100 {
        vstd::arithmetic::div_mod::lemma_mod_sub_multiples_vanish(v, 0x100);
        vstd::arithmetic::div_mod::lemma_small_mod((v - 0x100) as nat, 0x100);
    } else {
        vstd::arithmetic::div_mod::lemma_small_mod(v as nat, 0x100);
    }
}

/// Word wraparound spelled out for the one-step overflow and underflow the
/// instructions produce.
pub proof fn lemma_wrap16_range(v: int)
    requires
        -0x10000 <= v < 0x20000,
    ensures
        wrap16(v) == if v < 0 {
            v + 0x10000
        } else if v >= 0x10000 {
            v - 0x10000
        } else {
            v
        },
{
    if v < 0 {
        vstd::arithmetic::div_mod::lemma_mod_add_multiples_vanish(v, 0x10000);
        vstd::arithmetic::div_mod::lemma_small_mod((v + 0x10000) as nat, 0x10000);
    } else if v >= 0x10000 {
        vstd::arithmetic::div_mod::lemma_mod_sub_multiples_vanish(v, 0x10000);
        vstd::arithmetic::div_mod::lemma_small_mod((v - 0x10000) as nat, 0x10000);
    } else {
        vstd::arithmetic::div_mod::lemma_small_mod(v as nat, 0x10000);
    }
}

/// A word is exactly its two bytes put back together.
pub broadcast proof fn lemma_word_recompose(v: u16)
    ensures
        #[trigger] word_from(hi_byte(v), lo_byte(v)) == v,
{
    vstd::arithmetic::div_mod::lemma_fundamental_div_mod(v as int, 256);
}

/// Wrapping already-wrapped values composes: offsetting a reduced value and
/// reducing again is one reduction of the whole sum.
pub proof fn lemma_wrap16_add(x: int, k: int)
    ensures
        wrap16(wrap16(x) + k) == wrap16(x + k),
{
    let m = 0x10000int;
    vstd::arithmetic::div_mod::lemma_mod_bound(x, m);
    vstd::arithmetic::div_mod::lemma_fundamental_div_mod(x, m);
    vstd::arithmetic::div_mod::lemma_mod_multiples_vanish(x / m, x % m + k, m);
    vstd::arithmetic::div_mod::lemma_mod_bound(x % m + k, m);
    vstd::arithmetic::div_mod::lemma_mod_bound(x + k, m);
}

/// The refresh register incremented: the low seven bits step with wraparound,
/// the high bit never moves.
pub open spec fn spec_inc_r(r: u8) -> u8 {
    (r & 0x80) | (wrap8(r + 1) & 0x7f)
}

/// The refresh register stepped back, undoing one `spec_inc_r`.
pub open spec fn spec_dec_r(r: u8) -> u8 {
    (r & 0x80) | (wrap8(r - 1) & 0x7f)
}

/// The complete processor state. Every register wraps modulo its width; the
/// eight flags are individual bits (the packed flag byte is a derived view,
/// never the source of truth). The bus is not part of the state: the host
/// passes it to every call that touches memory or ports.
pub struct z80 {
    /// Cycle counter (t-states), monotonically increasing.
    pub cyc: u64,
    pub pc: u16,
    pub sp: u16,
    pub ix: u16,
    pub iy: u16,
    /// Internal address-tracking register ("wz"): the last address formed by
    /// an address-computing instruction. Feeds the undocumented flags of a
    /// few instructions.
    pub mem_ptr: u16,
    // main registers
    pub a: u8,
    pub b: u8,
    pub c: u8,
    pub d: u8,
    pub e: u8,
    pub h: u8,
    pub l: u8,
    // shadow registers
    pub a_: u8,
    pub b_: u8,
    pub c_: u8,
    pub d_: u8,
    pub e_: u8,
    pub h_: u8,
    pub l_: u8,
    pub f_: u8,
    /// Interrupt vector register.
    pub i: u8,
    /// Memory refresh register: low 7 bits increment once per instruction.
    pub r: u8,
    // flags: sign, zero, bit-5 copy, half-carry, bit-3 copy, parity/overflow,
    // subtract, carry
    pub sf: u8,
    pub zf: u8,
    pub yf: u8,
    pub hf: u8,
    pub xf: u8,
    pub pf: u8,
    pub nf: u8,
    pub cf: u8,
    /// Delay counter for the enable-interrupts instruction.
    pub iff_delay: u8,
    pub interrupt_mode: u8,
    /// Data byte attached to a pending maskable interrupt.
    pub int_data: u8,
    pub iff1: bool,
    pub iff2: bool,
    pub halted: bool,
    pub int_pending: bool,
    pub nmi_pending: bool,
}

impl z80 {
    /// Each flag holds a single bit.
    pub open spec fn flags_wf(&self) -> bool {
        self.sf <= 1 && self.zf <= 1 && self.yf <= 1 && self.hf <= 1 && self.xf <= 1 && self.pf
            <= 1 && self.nf <= 1 && self.cf <= 1
    }

    /// The BC register pair.
    pub open spec fn spec_bc(&self) -> u16 {
        word_from(self.b, self.c)
    }

    /// The DE register pair.
    pub open spec fn spec_de(&self) -> u16 {
        word_from(self.d, self.e)
    }

    /// The HL register pair.
    pub open spec fn spec_hl(&self) -> u16 {
        word_from(self.h, self.l)
    }

    /// The packed flag byte, derived from the individual bits.
    pub open spec fn spec_f(&self) -> u8 {
        (self.cf + self.nf * 2 + self.pf * 4 + self.xf * 8 + self.hf * 16 + self.yf * 32 + self.zf
            * 64 + self.sf * 128) as u8
    }

    /// A state with every register, flag and pending-interrupt bit cleared.
    /// The host runs a reset (`z80_init`) before first use.
    pub fn new() -> (r: Self)
        ensures
            r == (z80 {
                cyc: 0,
                pc: 0,
                sp: 0,
                ix: 0,
                iy: 0,
                mem_ptr: 0,
                a: 0,
                b: 0,
                c: 0,
                d: 0,
                e: 0,
                h: 0,
                l: 0,
                a_: 0,
                b_: 0,
                c_: 0,
                d_: 0,
                e_: 0,
                h_: 0,
                l_: 0,
                f_: 0,
                i: 0,
                r: 0,
                sf: 0,
                zf: 0,
                yf: 0,
                hf: 0,
                xf: 0,
                pf: 0,
                nf: 0,
                cf: 0,
                iff_delay: 0,
                interrupt_mode: 0,
                int_data: 0,
                iff1: false,
                iff2: false,
                halted: false,
                int_pending: false,
                nmi_pending: false,
            }),
    {
        z80 {
            cyc: 0,
            pc: 0,
            sp: 0,
            ix: 0,
            iy: 0,
            mem_ptr: 0,
            a: 0,
            b: 0,
            c: 0,
            d: 0,
            e: 0,
            h: 0,
            l: 0,
            a_: 0,
            b_: 0,
            c_: 0,
            d_: 0,
            e_: 0,
            h_: 0,
            l_: 0,
            f_: 0,
            i: 0,
            r: 0,
            sf: 0,
            zf: 0,
            yf: 0,
            hf: 0,
            xf: 0,
            pf: 0,
            nf: 0,
            cf: 0,
            iff_delay: 0,
            interrupt_mode: 0,
            int_data: 0,
            iff1: false,
            iff2: false,
            halted: false,
            int_pending: false,
            nmi_pending: false,
        }
    }
}

/// Power-on reset: program counter zero, stack pointer and accumulator/flags
/// all ones, interrupts disabled in mode 0, nothing pending.
pub fn z80_init(z: &mut z80)
    ensures
        *final(z) == (z80 {
            cyc: 0,
            pc: 0,
            sp: 0xFFFF,
            ix: 0,
            iy: 0,
            mem_ptr: 0,
            a: 0xFF,
            b: 0,
            c: 0,
            d: 0,
            e: 0,
            h: 0,
            l: 0,
            a_: 0,
            b_: 0,
            c_: 0,
            d_: 0,
            e_: 0,
            h_: 0,
            l_: 0,
            f_: 0,
            i: 0,
            r: 0,
            sf: 1,
            zf: 1,
            yf: 1,
            hf: 1,
            xf: 1,
            pf: 1,
            nf: 1,
            cf: 1,
            iff_delay: 0,
            interrupt_mode: 0,
            int_data: 0,
            iff1: false,
            iff2: false,
            halted: false,
            int_pending: false,
            nmi_pending: false,
        }),
        final(z).flags_wf(),
{
    z.cyc = 0;

    z.pc = 0;
    z.sp = 0xFFFF;
    z.ix = 0;
    z.iy = 0;
    z.mem_ptr = 0;

    // af and sp read as all ones after reset; the general registers are
    // architecturally undefined and start as zero here
    z.a = 0xFF;
    z.b = 0;
    z.c = 0;
    z.d = 0;
    z.e = 0;
    z.h = 0;
    z.l = 0;

    z.a_ = 0;
    z.b_ = 0;
    z.c_ = 0;
    z.d_ = 0;
    z.e_ = 0;
    z.h_ = 0;
    z.l_ = 0;
    z.f_ = 0;

    z.i = 0;
    z.r = 0;

    z.sf = 1;
    z.zf = 1;
    z.yf = 1;
    z.hf = 1;
    z.xf = 1;
    z.pf = 1;
    z.nf = 1;
    z.cf = 1;

    z.iff_delay = 0;
    z.interrupt_mode = 0;
    z.iff1 = false;
    z.iff2 = false;
    z.halted = false;
    z.int_pending = false;
    z.nmi_pending = false;
    z.int_data = 0;
}

/// Mark a non-maskable interrupt pending; it is serviced after the current
/// step's instruction.
pub fn z80_gen_nmi(z: &mut z80)
    ensures
        *final(z) == (z80 { nmi_pending: true, ..*old(z) }),
{
    z.nmi_pending = true;
}

/// Mark a maskable interrupt pending with its attached data byte (used for
/// vectoring in modes 0 and 2).
pub fn z80_gen_int(z: &mut z80, data: u8)
    ensures
        *final(z) == (z80 { int_pending: true, int_data: data, ..*old(z) }),
{
    z.int_pending = true;
    z.int_data = data;
}

/// Read one byte over the bus.
pub fn rb<B: Bus>(bus: &mut B, addr: u16) -> (r: u8)
    requires
        old(bus).inv(),
    ensures
        final(bus).inv(),
        final(bus).mem() == old(bus).mem(),
        r == old(bus).mem()[addr as int],
{
    bus.read_byte(addr)
}

/// Write one byte over the bus.
pub fn wb<B: Bus>(bus: &mut B, addr: u16, val: u8)
    requires
        old(bus).inv(),
    ensures
        final(bus).inv(),
        final(bus).mem() == old(bus).mem().update(addr as int, val),
{
    bus.write_byte(addr, val);
}

/// Read the little-endian word at `addr` (high byte first, as the hardware
/// core issues it).
pub fn rw<B: Bus>(bus: &mut B, addr: u16) -> (r: u16)
    requires
        old(bus).inv(),
    ensures
        final(bus).inv(),
        final(bus).mem() == old(bus).mem(),
        r == word_at(old(bus).mem(), addr),
{
    let value1 = (bus.read_byte(addr.wrapping_add(1)) as u16) << 8;
    let value2 = bus.read_byte(addr) as u16;
    proof {
        lemma_word_bits(old(bus).mem()[wrap16(addr + 1) as int], old(bus).mem()[addr as int]);
    }
    value1 | value2
}

/// Write the little-endian word `val` at `addr` (low byte first).
pub fn ww<B: Bus>(bus: &mut B, addr: u16, val: u16)
    requires
        old(bus).inv(),
    ensures
        final(bus).inv(),
        final(bus).mem() == written_word(old(bus).mem(), addr, val),
{
    proof {
        lemma_word_split(val);
    }
    bus.write_byte(addr, (val & 0xFF) as u8);
    bus.write_byte(addr.wrapping_add(1), (val >> 8) as u8);
}

/// Push a word: the stack pointer moves down by two, then the word is stored
/// there.
pub fn pushw<B: Bus>(z: &mut z80, bus: &mut B, val: u16)
    requires
        old(bus).inv(),
    ensures
        final(bus).inv(),
        *final(z) == (z80 { sp: wrap16(old(z).sp - 2), ..*old(z) }),
        final(bus).mem() == written_word(old(bus).mem(), wrap16(old(z).sp - 2), val),
{
    z.sp = z.sp.wrapping_sub(2);
    ww(bus, z.sp, val);
}

/// Pop a word from the stack; the stack pointer moves up by two.
pub fn popw<B: Bus>(z: &mut z80, bus: &mut B) -> (r: u16)
    requires
        old(bus).inv(),
    ensures
        final(bus).inv(),
        final(bus).mem() == old(bus).mem(),
        *final(z) == (z80 { sp: wrap16(old(z).sp + 2), ..*old(z) }),
        r == word_at(old(bus).mem(), old(z).sp),
{
    z.sp = z.sp.wrapping_add(2);
    rw(bus, z.sp.wrapping_sub(2))
}

/// Fetch the byte at the program counter and advance it.
pub fn nextb<B: Bus>(z: &mut z80, bus: &mut B) -> (r: u8)
    requires
        old(bus).inv(),
    ensures
        final(bus).inv(),
        final(bus).mem() == old(bus).mem(),
        *final(z) == (z80 { pc: wrap16(old(z).pc + 1), ..*old(z) }),
        r == old(bus).mem()[old(z).pc as int],
{
    let temp = rb(bus, z.pc);
    z.pc = z.pc.wrapping_add(1);
    temp
}

/// Fetch the word at the program counter and advance it by two.
pub fn nextw<B: Bus>(z: &mut z80, bus: &mut B) -> (r: u16)
    requires
        old(bus).inv(),
    ensures
        final(bus).inv(),
        final(bus).mem() == old(bus).mem(),
        *final(z) == (z80 { pc: wrap16(old(z).pc + 2), ..*old(z) }),
        r == word_at(old(bus).mem(), old(z).pc),
{
    z.pc = z.pc.wrapping_add(2);
    rw(bus, z.pc.wrapping_sub(2))
}

/// The BC register pair as a word.
pub fn get_bc(z: &mut z80) -> (r: u16)
    ensures
        *final(z) == *old(z),
        r == old(z).spec_bc(),
{
    proof {
        lemma_word_bits(z.b, z.c);
    }
    ((z.b as u16) << 8) | (z.c as u16)
}

/// The DE register pair as a word.
pub fn get_de(z: &mut z80) -> (r: u16)
    ensures
        *final(z) == *old(z),
        r == old(z).spec_de(),
{
    proof {
        lemma_word_bits(z.d, z.e);
    }
    ((z.d as u16) << 8) | (z.e as u16)
}

/// The HL register pair as a word.
pub fn get_hl(z: &mut z80) -> (r: u16)
    ensures
        *final(z) == *old(z),
        r == old(z).spec_hl(),
{
    proof {
        lemma_word_bits(z.h, z.l);
    }
    ((z.h as u16) << 8) | (z.l as u16)
}

/// Store a word into the BC register pair.
pub fn set_bc(z: &mut z80, val: u16)
    ensures
        *final(z) == (z80 { b: hi_byte(val), c: lo_byte(val), ..*old(z) }),
        final(z).spec_bc() == val,
{
    proof {
        lemma_word_split(val);
    }
    z.b = (val >> 8) as u8;
    z.c = (val & 0xFF) as u8;
}

/// Store a word into the DE register pair.
pub fn set_de(z: &mut z80, val: u16)
    ensures
        *final(z) == (z80 { d: hi_byte(val), e: lo_byte(val), ..*old(z) }),
        final(z).spec_de() == val,
{
    proof {
        lemma_word_split(val);
    }
    z.d = (val >> 8) as u8;
    z.e = (val & 0xFF) as u8;
}

/// Store a word into the HL register pair.
pub fn set_hl(z: &mut z80, val: u16)
    ensures
        *final(z) == (z80 { h: hi_byte(val), l: lo_byte(val), ..*old(z) }),
        final(z).spec_hl() == val,
{
    proof {
        lemma_word_split(val);
    }
    z.h = (val >> 8) as u8;
    z.l = (val & 0xFF) as u8;
}

/// The packed flag byte, assembled from the eight flag bits.
pub fn get_f(z: &mut z80) -> (r: u8)
    requires
        old(z).flags_wf(),
    ensures
        *final(z) == *old(z),
        r == old(z).spec_f(),
{
    let mut val: u8 = 0;
    val |= z.cf << 0;
    val |= z.nf << 1;
    val |= z.pf << 2;
    val |= z.xf << 3;
    val |= z.hf << 4;
    val |= z.yf << 5;
    val |= z.zf << 6;
    val |= z.sf << 7;
    proof {
        let (cf, nf, pf, xf, hf, yf, zf, sf) = (z.cf, z.nf, z.pf, z.xf, z.hf, z.yf, z.zf, z.sf);
        assert(((((((((0 | (cf << 0)) | (nf << 1)) | (pf << 2)) | (xf << 3)) | (hf << 4)) | (yf
            << 5)) | (zf << 6)) | (sf << 7)) == (cf + nf * 2 + pf * 4 + xf * 8 + hf * 16 + yf * 32
            + zf * 64 + sf * 128) as u8) by (bit_vector)
            requires
                cf <= 1 && nf <= 1 && pf <= 1 && xf <= 1 && hf <= 1 && yf <= 1 && zf <= 1 && sf
                    <= 1,
        ;
    }
    val
}

/// Scatter a packed flag byte into the eight flag bits.
pub fn set_f(z: &mut z80, val: u8)
    ensures
        *final(z) == (z80 {
            cf: spec_bit(0, val),
            nf: spec_bit(1, val),
            pf: spec_bit(2, val),
            xf: spec_bit(3, val),
            hf: spec_bit(4, val),
            yf: spec_bit(5, val),
            zf: spec_bit(6, val),
            sf: spec_bit(7, val),
            ..*old(z)
        }),
        final(z).flags_wf(),
{
    proof {
        assert forall|n: u8| #[trigger] ((val >> n) & 1) <= 1 by {
            crate::flags::lemma_and1_le_1(val >> n);
        }
    }
    z.cf = (val >> 0) & 1;
    z.nf = (val >> 1) & 1;
    z.pf = (val >> 2) & 1;
    z.xf = (val >> 3) & 1;
    z.hf = (val >> 4) & 1;
    z.yf = (val >> 5) & 1;
    z.zf = (val >> 6) & 1;
    z.sf = (val >> 7) & 1;
}

/// Increment the refresh register, keeping its highest bit intact.
pub fn inc_r(z: &mut z80)
    ensures
        *final(z) == (z80 { r: spec_inc_r(old(z).r), ..*old(z) }),
        final(z).r & 0x80 == old(z).r & 0x80,
{
    z.r = (z.r & 0x80) | (z.r.wrapping_add(1) & 0x7f);
    proof {
        let r0 = old(z).r;
        assert(((r0 & 0x80) | (((r0 + 1) % 256) as u8 & 0x7f)) & 0x80 == r0 & 0x80) by (bit_vector);
    }
}

/// Jump to an address, recording it in the address-tracking register.
pub fn jump(z: &mut z80, addr: u16)
    ensures
        *final(z) == (z80 { pc: addr, mem_ptr: addr, ..*old(z) }),
{
    z.pc = addr;
    z.mem_ptr = addr;
}

/// Jump to the next word in memory when the condition holds; the fetched
/// address always lands in the address-tracking register.
pub fn cond_jump<B: Bus>(z: &mut z80, bus: &mut B, condition: bool)
    requires
        old(bus).inv(),
    ensures
        final(bus).inv(),
        final(bus).mem() == old(bus).mem(),
        *final(z) == (z80 {
            pc: if condition {
                word_at(old(bus).mem(), old(z).pc)
            } else {
                wrap16(old(z).pc + 2)
            },
            mem_ptr: word_at(old(bus).mem(), old(z).pc),
            ..*old(z)
        }),
{
    let addr: u16 = nextw(z, bus);
    if condition {
        jump(z, addr);
    }
    z.mem_ptr = addr;
}

/// Call an address: the current program counter is pushed, then control
/// moves to `addr`.
pub fn call<B: Bus>(z: &mut z80, bus: &mut B, addr: u16)
    requires
        old(bus).inv(),
    ensures
        final(bus).inv(),
        *final(z) == (z80 { pc: addr, mem_ptr: addr, sp: wrap16(old(z).sp - 2), ..*old(z) }),
        final(bus).mem() == written_word(old(bus).mem(), wrap16(old(z).sp - 2), old(z).pc),
{
    let pc = z.pc;
    pushw(z, bus, pc);
    z.pc = addr;
    z.mem_ptr = addr;
}

/// Call the next word in memory when the condition holds, charging the
/// taken-call cycle surcharge.
pub fn cond_call<B: Bus>(z: &mut z80, bus: &mut B, condition: bool)
    requires
        old(bus).inv(),
    ensures
        final(bus).inv(),
        *final(z) == (z80 {
            pc: if condition {
                word_at(old(bus).mem(), old(z).pc)
            } else {
                wrap16(old(z).pc + 2)
            },
            mem_ptr: word_at(old(bus).mem(), old(z).pc),
            sp: if condition {
                wrap16(old(z).sp - 2)
            } else {
                old(z).sp
            },
            cyc: if condition {
                old(z).cyc.saturating_add(7)
            } else {
                old(z).cyc
            },
            ..*old(z)
        }),
        final(bus).mem() == if condition {
            written_word(old(bus).mem(), wrap16(old(z).sp - 2), wrap16(old(z).pc + 2))
        } else {
            old(bus).mem()
        },
{
    let addr: u16 = nextw(z, bus);
    if condition {
        call(z, bus, addr);
        z.cyc = z.cyc.saturating_add(7);
    }
    z.mem_ptr = addr;
}

/// Return: the program counter is popped from the stack.
pub fn ret<B: Bus>(z: &mut z80, bus: &mut B)
    requires
        old(bus).inv(),
    ensures
        final(bus).inv(),
        final(bus).mem() == old(bus).mem(),
        *final(z) == (z80 {
            pc: word_at(old(bus).mem(), old(z).sp),
            mem_ptr: word_at(old(bus).mem(), old(z).sp),
            sp: wrap16(old(z).sp + 2),
            ..*old(z)
        }),
{
    z.pc = popw(z, bus);
    z.mem_ptr = z.pc;
}

/// Return when the condition holds, charging the taken-return cycle
/// surcharge.
pub fn cond_ret<B: Bus>(z: &mut z80, bus: &mut B, condition: bool)
    requires
        old(bus).inv(),
    ensures
        final(bus).inv(),
        final(bus).mem() == old(bus).mem(),
        *final(z) == if condition {
            (z80 {
                pc: word_at(old(bus).mem(), old(z).sp),
                mem_ptr: word_at(old(bus).mem(), old(z).sp),
                sp: wrap16(old(z).sp + 2),
                cyc: old(z).cyc.saturating_add(6),
                ..*old(z)
            })
        } else {
            *old(z)
        },
{
    if condition {
        ret(z, bus);
        z.cyc = z.cyc.saturating_add(6);
    }
}

/// Relative jump by a signed displacement.
pub fn jr(z: &mut z80, displacement: i8)
    ensures
        *final(z) == (z80 {
            pc: wrap16(old(z).pc + displacement as u16),
            mem_ptr: wrap16(old(z).pc + displacement as u16),
            ..*old(z)
        }),
{
    z.pc = z.pc.wrapping_add(displacement as u16);

    z.mem_ptr = z.pc;
}

/// Fetch a displacement byte and jump relatively when the condition holds,
/// charging the taken-branch cycle surcharge.
pub fn cond_jr<B: Bus>(z: &mut z80, bus: &mut B, condition: bool)
    requires
        old(bus).inv(),
    ensures
        final(bus).inv(),
        final(bus).mem() == old(bus).mem(),
        *final(z) == if condition {
            (z80 {
                pc: wrap16(
                    wrap16(old(z).pc + 1) + (old(bus).mem()[old(z).pc as int] as i8) as u16,
                ),
                mem_ptr: wrap16(
                    wrap16(old(z).pc + 1) + (old(bus).mem()[old(z).pc as int] as i8) as u16,
                ),
                cyc: old(z).cyc.saturating_add(5),
                ..*old(z)
            })
        } else {
            (z80 { pc: wrap16(old(z).pc + 1), ..*old(z) })
        },
{
    let b: i8 = nextb(z, bus) as i8;
    if condition {
        jr(z, b);
        z.cyc = z.cyc.saturating_add(5);
    }
}

/// Form a displaced address from an index register and a signed
/// displacement, recording it in the address-tracking register.
pub fn displace(z: &mut z80, base_addr: u16, displacement: i8) -> (r: u16)
    ensures
        r == wrap16(base_addr + displacement as u16),
        *final(z) == (z80 { mem_ptr: r, ..*old(z) }),
{
    let addr: u16 = base_addr.wrapping_add(displacement as u16);
    z.mem_ptr = addr;
    addr
}

} // verus!
