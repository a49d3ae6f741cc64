use pacz80::bus::Bus;
use pacz80::bus::Ram;
use pacz80::z80::popw;
use pacz80::z80::pushw;
use pacz80::z80::z80;
use pacz80::z80::z80_init;
use pacz80::z80::z80_gen_int;
use pacz80::z80::z80_gen_nmi;
use pacz80::exec::z80_debug_output;
use pacz80::exec::z80_step;

fn machine() -> (z80, Ram) {
    let mut z = z80::new();
    z80_init(&mut z);
    (z, Ram::new())
}

fn load(ram: &mut Ram, base: u16, bytes: &[u8]) {
    let mut a = base;
    for &b in bytes {
        ram.write_byte(a, b);
        a = a.wrapping_add(1);
    }
}

#[test]
fn push_pop_round_trip() {
    let (mut z, mut ram) = machine();
    z.sp = 0x8000;
    pushw(&mut z, &mut ram, 0xBEEF);
    assert_eq!(z.sp, 0x7FFE);
    let v = popw(&mut z, &mut ram);
    assert_eq!(v, 0xBEEF);
    assert_eq!(z.sp, 0x8000);

    // near the bottom of the address space the pointer wraps
    z.sp = 0x0000;
    pushw(&mut z, &mut ram, 0x1234);
    assert_eq!(z.sp, 0xFFFE);
    assert_eq!(popw(&mut z, &mut ram), 0x1234);
    assert_eq!(z.sp, 0x0000);
}

#[test]
fn block_copy_runs_to_completion() {
    let (mut z, mut ram) = machine();
    // auto-repeating block copy with a byte counter of 3
    load(&mut ram, 0x0000, &[0xED, 0xB0]);
    load(&mut ram, 0x8000, &[0x11, 0x22, 0x33]);
    z.b = 0x00;
    z.c = 0x03;
    z.h = 0x80;
    z.l = 0x00;
    z.d = 0x90;
    z.e = 0x00;

    // each step performs one iteration and rewinds the program counter while
    // the counter is nonzero
    z80_step(&mut z, &mut ram);
    assert_eq!(z.pc, 0x0000);
    assert_eq!((z.b, z.c), (0x00, 0x02));
    z80_step(&mut z, &mut ram);
    assert_eq!(z.pc, 0x0000);
    z80_step(&mut z, &mut ram);

    assert_eq!(ram.read_byte(0x9000), 0x11);
    assert_eq!(ram.read_byte(0x9001), 0x22);
    assert_eq!(ram.read_byte(0x9002), 0x33);
    assert_eq!((z.b, z.c), (0x00, 0x00));
    // the counter hit zero: the program counter is left just past the
    // instruction, not rewound again
    assert_eq!(z.pc, 0x0002);
    assert_eq!(z.pf, 0);
}

#[test]
fn delayed_interrupt_waits_one_instruction() {
    let (mut z, mut ram) = machine();
    // enable interrupts, then no-ops, under interrupt mode 1
    load(&mut ram, 0x0000, &[0xFB, 0x00, 0x00, 0x00]);
    z.interrupt_mode = 1;

    // the enable-interrupts step leaves the primary flip-flop off
    z80_step(&mut z, &mut ram);
    assert!(!z.iff1);
    z80_gen_int(&mut z, 0x00);

    // the following instruction executes with the request still unserviced
    z80_step(&mut z, &mut ram);
    assert_eq!(z.pc, 0x0002);
    assert!(z.int_pending);

    // only one additional step accepts it, clearing the flip-flop again
    z80_step(&mut z, &mut ram);
    assert_eq!(z.pc, 0x0038);
    assert!(!z.int_pending);
    assert!(!z.iff1);
}

#[test]
fn immediate_load_and_increment() {
    let (mut z, mut ram) = machine();
    // load 5 into the accumulator, then increment it
    load(&mut ram, 0x0000, &[0x3E, 0x05, 0x3C]);

    z80_step(&mut z, &mut ram);
    assert_eq!(z.a, 5);
    assert_eq!(z.pc, 2);
    assert_eq!(z.cyc, 7);

    z80_step(&mut z, &mut ram);
    assert_eq!(z.a, 6);
    assert_eq!(z.zf, 0);
    assert_eq!(z.sf, 0);
    assert_eq!(z.pc, 3);
    assert_eq!(z.cyc, 11);
}

#[test]
fn halt_repeats_no_ops() {
    let (mut z, mut ram) = machine();
    load(&mut ram, 0x0000, &[0x76]);

    z80_step(&mut z, &mut ram);
    assert!(z.halted);
    let pc = z.pc;
    let mut cyc = z.cyc;
    for _ in 0..3 {
        z80_step(&mut z, &mut ram);
        assert!(z.halted);
        assert_eq!(z.pc, pc);
        assert_eq!(z.cyc, cyc + 4);
        cyc = z.cyc;
    }
}

#[test]
fn nmi_breaks_halt() {
    let (mut z, mut ram) = machine();
    load(&mut ram, 0x0000, &[0x76]);
    z80_step(&mut z, &mut ram);
    assert!(z.halted);

    z80_gen_nmi(&mut z);
    z80_step(&mut z, &mut ram);
    assert!(!z.halted);
    // the non-maskable interrupt vectors through the fixed address
    assert_eq!(z.pc, 0x0066);
    assert!(!z.iff1);
}

#[test]
fn interrupt_mode_two_vectors_through_table() {
    let (mut z, mut ram) = machine();
    load(&mut ram, 0x0000, &[0x00, 0x00]);
    // vector table entry at 0x40F0 points at 0x1234
    load(&mut ram, 0x40F0, &[0x34, 0x12]);
    z.interrupt_mode = 2;
    z.i = 0x40;
    z.iff1 = true;
    z.iff2 = true;
    z80_gen_int(&mut z, 0xF0);

    z80_step(&mut z, &mut ram);
    assert_eq!(z.pc, 0x1234);
    assert!(!z.iff1 && !z.iff2);
}

#[test]
fn conditional_jumps_and_calls_charge_taken_surcharge() {
    let (mut z, mut ram) = machine();
    // jp nz,0x0010 with the zero flag clear: taken
    load(&mut ram, 0x0000, &[0xC2, 0x10, 0x00]);
    z.zf = 0;
    z80_step(&mut z, &mut ram);
    assert_eq!(z.pc, 0x0010);
    assert_eq!(z.cyc, 10);

    // call nz,0x0030 taken: base 10 plus the 7-cycle surcharge
    let (mut z, mut ram) = machine();
    load(&mut ram, 0x0000, &[0xC4, 0x30, 0x00]);
    z.zf = 0;
    z.sp = 0x8000;
    z80_step(&mut z, &mut ram);
    assert_eq!(z.pc, 0x0030);
    assert_eq!(z.cyc, 17);
    assert_eq!(z.sp, 0x7FFE);
    // the return address is the byte after the call operands
    assert_eq!(ram.read_byte(0x7FFE), 0x03);
    assert_eq!(ram.read_byte(0x7FFF), 0x00);

    // ret z not taken costs the base alone
    let (mut z, mut ram) = machine();
    load(&mut ram, 0x0000, &[0xC8]);
    z.zf = 0;
    z80_step(&mut z, &mut ram);
    assert_eq!(z.pc, 0x0001);
    assert_eq!(z.cyc, 5);
}

#[test]
fn relative_jumps_and_djnz() {
    let (mut z, mut ram) = machine();
    // jr -2 loops back onto itself
    load(&mut ram, 0x0000, &[0x18, 0xFE]);
    z80_step(&mut z, &mut ram);
    assert_eq!(z.pc, 0x0000);

    // djnz with b=2 takes the branch once
    let (mut z, mut ram) = machine();
    load(&mut ram, 0x0000, &[0x10, 0x10]);
    z.b = 2;
    z80_step(&mut z, &mut ram);
    assert_eq!(z.b, 1);
    assert_eq!(z.pc, 0x0012);
    assert_eq!(z.cyc, 13);
}

#[test]
fn indexed_addressing_displaces_from_index_register() {
    let (mut z, mut ram) = machine();
    // ld ix,0x8000 ; add a,(ix-1)
    load(&mut ram, 0x0000, &[0xDD, 0x21, 0x00, 0x80, 0xDD, 0x86, 0xFF]);
    ram.write_byte(0x7FFF, 0x21);
    z.a = 0x10;
    z80_step(&mut z, &mut ram);
    assert_eq!(z.ix, 0x8000);
    z80_step(&mut z, &mut ram);
    assert_eq!(z.a, 0x31);
    assert_eq!(z.mem_ptr, 0x7FFF);
}

#[test]
fn prefix_fallback_reaches_base_table() {
    let (mut z, mut ram) = machine();
    // 0x47 (ld b,a) is absent from the index table: DD 47 must execute it
    // as if the prefix were never present, counting the refresh register
    // exactly once for the whole instruction, not per dispatch level
    load(&mut ram, 0x0000, &[0xDD, 0x47]);
    z.a = 0x5A;
    z80_step(&mut z, &mut ram);
    assert_eq!(z.b, 0x5A);
    assert_eq!(z.pc, 0x0002);
    assert_eq!(z.r, 1);
}

#[test]
fn displaced_bit_operations_write_memory() {
    let (mut z, mut ram) = machine();
    // ld ix,0x8000 ; set 7,(ix+2) ; bit 7,(ix+2)
    load(
        &mut ram,
        0x0000,
        &[0xDD, 0x21, 0x00, 0x80, 0xDD, 0xCB, 0x02, 0xFE, 0xDD, 0xCB, 0x02, 0x7E],
    );
    ram.write_byte(0x8002, 0x01);
    z80_step(&mut z, &mut ram);
    z80_step(&mut z, &mut ram);
    assert_eq!(ram.read_byte(0x8002), 0x81);
    z80_step(&mut z, &mut ram);
    // bit 7 of 0x81 is set: zero flag clear, sign set
    assert_eq!(z.zf, 0);
    assert_eq!(z.sf, 1);
    assert_eq!(z.hf, 1);
}

#[test]
fn bit_table_rotates_memory_operand() {
    let (mut z, mut ram) = machine();
    // rlc (hl)
    load(&mut ram, 0x0000, &[0xCB, 0x06]);
    z.h = 0x80;
    z.l = 0x00;
    ram.write_byte(0x8000, 0x81);
    z80_step(&mut z, &mut ram);
    assert_eq!(ram.read_byte(0x8000), 0x03);
    assert_eq!(z.cf, 1);
    assert_eq!(z.cyc, 15);
}

#[test]
fn extended_table_word_loads_and_sbc() {
    let (mut z, mut ram) = machine();
    // ld (0x9000),bc ; sbc hl,de
    load(&mut ram, 0x0000, &[0xED, 0x43, 0x00, 0x90, 0xED, 0x52]);
    z.b = 0x12;
    z.c = 0x34;
    z80_step(&mut z, &mut ram);
    assert_eq!(ram.read_byte(0x9000), 0x34);
    assert_eq!(ram.read_byte(0x9001), 0x12);

    z.h = 0x40;
    z.l = 0x00;
    z.d = 0x10;
    z.e = 0x01;
    z.cf = 0;
    z80_step(&mut z, &mut ram);
    assert_eq!((z.h, z.l), (0x2F, 0xFF));
    assert_eq!(z.nf, 1);
}

#[test]
fn unknown_extended_opcode_is_a_no_op() {
    let (mut z, mut ram) = machine();
    // 0xED 0x00 is not part of the extended table
    load(&mut ram, 0x0000, &[0xED, 0x00]);
    let a = z.a;
    z80_step(&mut z, &mut ram);
    assert_eq!(z.pc, 0x0002);
    assert_eq!(z.a, a);
    assert_eq!(z.cyc, 8);
}

#[test]
fn unsupported_interrupt_mode_drops_the_request() {
    let (mut z, mut ram) = machine();
    load(&mut ram, 0x0000, &[0x00, 0x00]);
    z.interrupt_mode = 5;
    z.iff1 = true;
    z80_gen_int(&mut z, 0x00);
    z80_step(&mut z, &mut ram);
    // the request is consumed but nothing is vectored
    assert!(!z.int_pending);
    assert_eq!(z.pc, 0x0001);
}

#[test]
fn exchange_and_shadow_registers() {
    let (mut z, mut ram) = machine();
    // ex af,af' ; exx
    load(&mut ram, 0x0000, &[0x08, 0xD9]);
    z.a = 0x11;
    z.a_ = 0x22;
    z.b = 0x33;
    z.b_ = 0x44;
    z80_step(&mut z, &mut ram);
    assert_eq!(z.a, 0x22);
    assert_eq!(z.a_, 0x11);
    z80_step(&mut z, &mut ram);
    assert_eq!(z.b, 0x44);
    assert_eq!(z.b_, 0x33);
}

#[test]
fn refresh_register_keeps_high_bit() {
    let (mut z, mut ram) = machine();
    load(&mut ram, 0x0000, &[0x00, 0x00]);
    z.r = 0xFF;
    z80_step(&mut z, &mut ram);
    assert_eq!(z.r, 0x80);
    z80_step(&mut z, &mut ram);
    assert_eq!(z.r, 0x81);
}

#[test]
fn debug_output_renders_registers() {
    let (mut z, mut ram) = machine();
    load(&mut ram, 0x0000, &[0x3E, 0x05]);
    let s = z80_debug_output(&mut z, &mut ram);
    assert!(s.contains("PC: 0000"));
    assert!(s.contains("SP: FFFF"));
    assert!(s.contains("3E 05"));
}

#[test]
fn reset_state_matches_power_on() {
    let (mut z, _) = machine();
    assert_eq!(z.pc, 0);
    assert_eq!(z.sp, 0xFFFF);
    assert_eq!(z.a, 0xFF);
    assert_eq!(
        (z.sf, z.zf, z.yf, z.hf, z.xf, z.pf, z.nf, z.cf),
        (1, 1, 1, 1, 1, 1, 1, 1)
    );
    assert!(!z.iff1 && !z.iff2 && !z.halted);
    assert_eq!(z.interrupt_mode, 0);
    assert_eq!(z.cyc, 0);
}

#[test]
fn nibble_rotate_through_memory() {
    let (mut z, mut ram) = machine();
    // rrd: low nibble of (hl) moves into a, a's low nibble into the high
    // nibble of (hl)
    load(&mut ram, 0x0000, &[0xED, 0x67]);
    z.a = 0x84;
    z.h = 0x80;
    z.l = 0x00;
    ram.write_byte(0x8000, 0x20);
    z80_step(&mut z, &mut ram);
    assert_eq!(z.a, 0x80);
    assert_eq!(ram.read_byte(0x8000), 0x42);
    assert_eq!(z.nf, 0);
}

#[test]
fn negate_accumulator() {
    let (mut z, mut ram) = machine();
    load(&mut ram, 0x0000, &[0xED, 0x44]);
    z.a = 0x01;
    z80_step(&mut z, &mut ram);
    assert_eq!(z.a, 0xFF);
    assert_eq!((z.nf, z.cf, z.sf), (1, 1, 1));
}

#[test]
fn block_compare_stops_on_match() {
    let (mut z, mut ram) = machine();
    // cpir: bc=3, hl=0x8000, a=0x22; the match sits at the second byte
    load(&mut ram, 0x0000, &[0xED, 0xB1]);
    load(&mut ram, 0x8000, &[0x11, 0x22, 0x33]);
    z.a = 0x22;
    z.b = 0x00;
    z.c = 0x03;
    z.h = 0x80;
    z.l = 0x00;
    z80_step(&mut z, &mut ram);
    assert_eq!(z.pc, 0x0000);
    assert_eq!(z.zf, 0);
    z80_step(&mut z, &mut ram);
    // found: zero flag set, no rewind, counter still nonzero
    assert_eq!(z.zf, 1);
    assert_eq!(z.pc, 0x0002);
    assert_eq!((z.b, z.c), (0x00, 0x01));
    assert_eq!((z.h, z.l), (0x80, 0x02));
}

#[test]
fn add_hl_keeps_sign_zero_parity() {
    let (mut z, mut ram) = machine();
    // add hl,de with flags preset: sign, zero and parity must survive
    load(&mut ram, 0x0000, &[0x19]);
    z.h = 0x0F;
    z.l = 0xFF;
    z.d = 0x00;
    z.e = 0x01;
    z.sf = 1;
    z.zf = 1;
    z.pf = 1;
    z80_step(&mut z, &mut ram);
    assert_eq!((z.h, z.l), (0x10, 0x00));
    assert_eq!((z.sf, z.zf, z.pf), (1, 1, 1));
    assert_eq!(z.hf, 1);
    assert_eq!(z.cf, 0);
}

#[test]
fn port_output_reaches_the_bus() {
    let (mut z, mut ram) = machine();
    // out (0x42),a then in a,(0x42): the plain RAM bus answers zero
    load(&mut ram, 0x0000, &[0xD3, 0x42, 0xDB, 0x42]);
    z.a = 0x55;
    z80_step(&mut z, &mut ram);
    assert_eq!(z.pc, 2);
    z80_step(&mut z, &mut ram);
    assert_eq!(z.a, 0x00);
}

#[test]
fn flag_byte_packs_and_scatters() {
    let (mut z, mut ram) = machine();
    // push af ; pop af round-trips the packed flag byte
    load(&mut ram, 0x0000, &[0xF5, 0xF1]);
    z.sp = 0x8000;
    z.a = 0x9C;
    z.sf = 1;
    z.zf = 0;
    z.yf = 1;
    z.hf = 0;
    z.xf = 1;
    z.pf = 0;
    z.nf = 1;
    z.cf = 0;
    z80_step(&mut z, &mut ram);
    z80_step(&mut z, &mut ram);
    assert_eq!(z.a, 0x9C);
    assert_eq!(
        (z.sf, z.zf, z.yf, z.hf, z.xf, z.pf, z.nf, z.cf),
        (1, 0, 1, 0, 1, 0, 1, 0)
    );
    assert_eq!(z.sp, 0x8000);
}

#[test]
fn same_prefix_chain_executes_the_last_level() {
    let (mut z, mut ram) = machine();
    // a repeated prefix costs four cycles and falls through to one indexed
    // instruction: DD DD 23 equals DD 23 (inc ix)
    load(&mut ram, 0x0000, &[0xDD, 0xDD, 0x23]);
    z.ix = 0x1000;
    z80_step(&mut z, &mut ram);
    assert_eq!(z.ix, 0x1001);
    assert_eq!(z.pc, 0x0003);
    assert_eq!(z.r, 1);
    assert_eq!(z.cyc, 4 + 10);
}
