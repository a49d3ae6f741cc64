//! The bus capability a host supplies to the processor core, and a plain
//! RAM-backed realisation of it.

use vstd::prelude::*;

verus! {

/// Byte-addressed memory access over 16-bit addresses and port input/output
/// over 8-bit ports, supplied by the host once and threaded through every
/// step of the core.
///
/// `mem()` is the implementor's model of what each of the 65536 addresses
/// currently holds, and `inv()` its well-formedness. The core performs no
/// buffering: every access is a synchronous call. What a port answers is
/// deliberately left open — a device may answer anything — but no access may
/// move the visible memory model other than in the stated way. Address
/// decoding (mirroring, unused bits) is entirely the implementor's concern:
/// the core passes addresses through unmodified.
pub trait Bus: Sized {
    /// The byte each address currently reads as. The defaults describe no
    /// memory at all: an implementor that wants verified callers overrides
    /// both `mem` and `inv`, as the RAM bus below does; a host-side
    /// implementor outside the verified world leaves them be.
    open spec fn mem(&self) -> Seq<u8> {
        Seq::empty()
    }

    /// Well-formedness of the bus state.
    open spec fn inv(&self) -> bool {
        false
    }

    /// Read one byte.
    fn read_byte(&mut self, addr: u16) -> (b: u8)
        requires
            old(self).inv(),
        ensures
            final(self).inv(),
            final(self).mem() == old(self).mem(),
            b == old(self).mem()[addr as int],
    ;

    /// Write one byte.
    fn write_byte(&mut self, addr: u16, val: u8)
        requires
            old(self).inv(),
        ensures
            final(self).inv(),
            final(self).mem() == old(self).mem().update(addr as int, val),
    ;

    /// Read one byte from a port. The device decides the value.
    fn port_in(&mut self, port: u8) -> (b: u8)
        requires
            old(self).inv(),
        ensures
            final(self).inv(),
            final(self).mem() == old(self).mem(),
    ;

    /// Write one byte to a port.
    fn port_out(&mut self, port: u8, val: u8)
        requires
            old(self).inv(),
        ensures
            final(self).inv(),
            final(self).mem() == old(self).mem(),
    ;
}

/// A flat 64 KiB memory covering the whole address space, with ports that
/// read as zero and ignore writes.
pub struct Ram {
    pub bytes: Vec<u8>,
}

impl Ram {
    /// A fresh memory holding zero at every address.
    pub fn new() -> (r: Ram)
        ensures
            r.inv(),
            forall|i: int| 0 <= i < 0x10000 ==> r.mem()[i] == 0u8,
    {
        let mut bytes: Vec<u8> = Vec::new();
        let mut i: usize = 0;
        while i < 0x10000
            invariant
                bytes@.len() == i,
                i <= 0x10000,
                forall|j: int| 0 <= j < i ==> bytes@[j] == 0u8,
            decreases 0x10000 - i,
        {
            bytes.push(0u8);
            i += 1;
        }
        Ram { bytes }
    }
}

impl Bus for Ram {
    open spec fn mem(&self) -> Seq<u8> {
        self.bytes@
    }

    open spec fn inv(&self) -> bool {
        self.bytes@.len() == 0x10000
    }

    fn read_byte(&mut self, addr: u16) -> (b: u8) {
        self.bytes[addr as usize]
    }

    fn write_byte(&mut self, addr: u16, val: u8) {
        self.bytes[addr as usize] = val;
    }

    fn port_in(&mut self, port: u8) -> (b: u8) {
        0
    }

    fn port_out(&mut self, port: u8, val: u8) {
    }
}

} // verus!
