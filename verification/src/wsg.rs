//! The three-voice waveform sound generator that sits beside the processor
//! on the board: a bank of write-only registers (frequency, accumulator,
//! waveform and volume nibbles per voice) and a mixer that renders signed
//! samples from a 32-step waveform table.

use vstd::prelude::*;

verus! {

broadcast use vstd::array::group_array_axioms;

pub const WSG_SAMPLE_RATE: u32 = 96000;

/// One voice: a 20-bit phase accumulator stepped by a 20-bit frequency, a
/// 3-bit waveform selector and a 4-bit volume.
#[derive(Copy, Clone)]
pub struct wsg_voice {
    pub frequency: u32,
    pub accumulator: u32,
    pub waveform_no: u8,
    pub volume: u8,
}

/// Each voice field stays inside its hardware width.
pub open spec fn voice_wf(v: wsg_voice) -> bool {
    v.frequency < 0x100000 && v.accumulator < 0x100000 && v.waveform_no <= 7 && v.volume <= 0xF
}

impl wsg_voice {
    /// A silent voice with every field zero.
    pub fn new() -> (r: Self)
        ensures
            r == (wsg_voice { frequency: 0, accumulator: 0, waveform_no: 0, volume: 0 }),
            voice_wf(r),
    {
        Self { frequency: 0, accumulator: 0, waveform_no: 0, volume: 0 }
    }
}

/// The sound chip: three voices, a 256-byte waveform table, and an output
/// gain.
pub struct wsg {
    pub voices: [wsg_voice; 3],
    pub sound_rom: [u8; 0x100],
    pub gain: i32,
}

impl wsg {
    /// Every voice is in range and the gain is bounded so a mixed sample
    /// scaled by it fits the machine's arithmetic.
    pub open spec fn wf(&self) -> bool {
        voice_wf(self.voices[0]) && voice_wf(self.voices[1]) && voice_wf(self.voices[2]) && 0
            <= self.gain <= 100000
    }

    /// A chip with silent voices, an all-zero waveform table and no gain.
    pub fn new() -> (r: Self)
        ensures
            r.voices[0] == (wsg_voice { frequency: 0, accumulator: 0, waveform_no: 0, volume: 0 }),
            r.voices[1] == r.voices[0],
            r.voices[2] == r.voices[0],
            forall|i: int| 0 <= i < 0x100 ==> r.sound_rom[i] == 0u8,
            r.gain == 0,
            r.wf(),
    {
        let zv = wsg_voice::new();
        Self { voices: [zv;3], sound_rom: [0;0x100], gain: 0 }
    }
}

/// One phase step of a voice: a sounding voice advances its accumulator by
/// its frequency modulo the 20-bit width; a silent one does not move.
pub open spec fn step_voice(v: wsg_voice) -> wsg_voice {
    if v.frequency == 0 || v.volume == 0 {
        v
    } else {
        wsg_voice { accumulator: ((v.accumulator + v.frequency) as u32) & 0xfffff, ..v }
    }
}

/// A voice after `n` phase steps.
pub open spec fn play_voice(v: wsg_voice, n: int) -> wsg_voice
    decreases n,
{
    if n <= 0 {
        v
    } else {
        step_voice(play_voice(v, n - 1))
    }
}

/// The contribution of one voice: the highest five accumulator bits select a
/// sample of its 32-step waveform, recentred and scaled by the volume; a
/// silent voice contributes nothing.
pub open spec fn voice_out(v: wsg_voice, rom: [u8; 0x100]) -> int {
    if v.frequency == 0 || v.volume == 0 {
        0
    } else {
        (rom[(v.waveform_no * 32 + (v.accumulator >> 15)) as int] - 8) * v.volume
    }
}

/// The sample the chip emits at position `n` of a rendering run: each voice
/// stepped `n + 1` times, mixed, scaled by the gain, and truncated to a
/// 16-bit sample.
pub open spec fn wsg_sample_at(w: wsg, n: int) -> i16 {
    ((voice_out(play_voice(w.voices[0], n + 1), w.sound_rom) + voice_out(
        play_voice(w.voices[1], n + 1),
        w.sound_rom,
    ) + voice_out(play_voice(w.voices[2], n + 1), w.sound_rom)) * w.gain) as i16
}

/// Reset the chip: silence all voices, install the waveform table, set the
/// fixed hardware gain.
pub fn wsg_init(w: &mut wsg, sound_rom: [u8; 0x100])
    ensures
        final(w).voices[0] == (wsg_voice {
            frequency: 0,
            accumulator: 0,
            waveform_no: 0,
            volume: 0,
        }),
        final(w).voices[1] == final(w).voices[0],
        final(w).voices[2] == final(w).voices[0],
        final(w).sound_rom == sound_rom,
        final(w).gain == 25,
        final(w).wf(),
{
    let zv = wsg_voice::new();
    w.voices = [zv;3];
    w.sound_rom = sound_rom;
    w.gain = 25;
}

/// Which voice a register address belongs to; -1 when the address is not a
/// chip register.
pub open spec fn wsg_target(address: u8) -> int {
    if address <= 0x5 || (0x10 <= address && address <= 0x15) {
        0
    } else if (0x6 <= address && address <= 0xa) || (0x16 <= address && address <= 0x1a) {
        1
    } else if (0xb <= address && address <= 0xf) || (0x1b <= address && address <= 0x1f) {
        2
    } else {
        -1
    }
}

/// A 4-bit field of `value` stored into nibble `idx` of a 20-bit register.
pub open spec fn set_nibble(cur: u32, idx: u8, value: u8) -> u32 {
    (cur & !(0xFu32 << (idx * 4))) | (((value & 0xF) as u32) << (idx * 4))
}

/// The voice that owns `address`, after the write: the waveform and volume
/// registers take 3 and 4 bits, and the accumulator and frequency registers
/// take one nibble each — the second and third voice cannot address their
/// lowest nibble.
pub open spec fn wsg_voice_written(v: wsg_voice, address: u8, value: u8) -> wsg_voice {
    if address == 0x5 || address == 0xa || address == 0xf {
        wsg_voice { waveform_no: value & 0x7, ..v }
    } else if address == 0x15 || address == 0x1a || address == 0x1f {
        wsg_voice { volume: value & 0xF, ..v }
    } else if address <= 0x4 {
        wsg_voice { accumulator: set_nibble(v.accumulator, address, value), ..v }
    } else if 0x6 <= address && address <= 0x9 {
        wsg_voice { accumulator: set_nibble(v.accumulator, (address - 0x6 + 1) as u8, value), ..v }
    } else if 0xb <= address && address <= 0xe {
        wsg_voice { accumulator: set_nibble(v.accumulator, (address - 0xb + 1) as u8, value), ..v }
    } else if 0x10 <= address && address <= 0x14 {
        wsg_voice { frequency: set_nibble(v.frequency, (address - 0x10) as u8, value), ..v }
    } else if 0x16 <= address && address <= 0x19 {
        wsg_voice { frequency: set_nibble(v.frequency, (address - 0x16 + 1) as u8, value), ..v }
    } else if 0x1b <= address && address <= 0x1e {
        wsg_voice { frequency: set_nibble(v.frequency, (address - 0x1b + 1) as u8, value), ..v }
    } else {
        v
    }
}

/// Storing a nibble keeps a 20-bit register inside its width.
proof fn lemma_set_nibble_wf(cur: u32, idx: u8, value: u8)
    requires
        idx <= 4,
        cur < 0x100000,
    ensures
        set_nibble(cur, idx, value) < 0x100000,
{
    assert(((cur & !(0xFu32 << (idx * 4))) | (((value & 0xF) as u32) << (idx * 4))) < 0x100000)
        by (bit_vector)
        requires
            idx <= 4 && cur < 0x100000,
    ;
}

/// Write one chip register: exactly one field of one voice changes, chosen
/// by the address; addresses past the register bank change nothing.
pub fn wsg_write(w: &mut wsg, address: u8, value: u8)
    ensures
        final(w).sound_rom == old(w).sound_rom,
        final(w).gain == old(w).gain,
        forall|j: int|
            0 <= j < 3 && j != wsg_target(address) ==> final(w).voices[j] == old(w).voices[j],
        wsg_target(address) >= 0 ==> final(w).voices[wsg_target(address)] == wsg_voice_written(
            old(w).voices[wsg_target(address)],
            address,
            value,
        ),
        old(w).wf() ==> final(w).wf(),
{
    proof {
        if old(w).wf() {
            if address <= 0x4 {
                lemma_set_nibble_wf(old(w).voices[0].accumulator, address, value);
            }
            if 0x10 <= address && address <= 0x14 {
                lemma_set_nibble_wf(old(w).voices[0].frequency, (address - 0x10) as u8, value);
            }
            if 0x6 <= address && address <= 0x9 {
                lemma_set_nibble_wf(
                    old(w).voices[1].accumulator,
                    (address - 0x6 + 1) as u8,
                    value,
                );
            }
            if 0x16 <= address && address <= 0x19 {
                lemma_set_nibble_wf(old(w).voices[1].frequency, (address - 0x16 + 1) as u8, value);
            }
            if 0xb <= address && address <= 0xe {
                lemma_set_nibble_wf(
                    old(w).voices[2].accumulator,
                    (address - 0xb + 1) as u8,
                    value,
                );
            }
            if 0x1b <= address && address <= 0x1e {
                lemma_set_nibble_wf(old(w).voices[2].frequency, (address - 0x1b + 1) as u8, value);
            }
            assert((value & 0x7) <= 7 && (value & 0xF) <= 0xF) by (bit_vector);
        }
    }

    // first voice
    if address == 0x5 {
        let mut v = w.voices[0];
        v.waveform_no = value & 0b111;
        w.voices[0] = v;
    } else if address >= 0x10 && address <= 0x14 {
        let sample_no: u8 = address - 0x10;
        let mut v = w.voices[0];
        v.frequency &= !(0b1111 << (sample_no * 4));
        v.frequency |= (value as u32 & 0b1111) << (sample_no * 4);
        w.voices[0] = v;
    } else if address == 0x15 {
        let mut v = w.voices[0];
        v.volume = value & 0xf;
        w.voices[0] = v;
    } else if address <= 0x4 {
        let sample_no: u8 = address;
        let mut v = w.voices[0];
        v.accumulator &= !(0b1111 << (sample_no * 4));
        v.accumulator |= (value as u32 & 0b1111) << (sample_no * 4);
        w.voices[0] = v;
    }

    // second voice: it cannot address the lowest nibble of its frequency or
    // accumulator
    if address == 0xa {
        let mut v = w.voices[1];
        v.waveform_no = value & 0b111;
        w.voices[1] = v;
    } else if address >= 0x16 && address <= 0x19 {
        let sample_no: u8 = address - 0x16 + 1;
        let mut v = w.voices[1];
        v.frequency &= !(0b1111 << (sample_no * 4));
        v.frequency |= (value as u32 & 0b1111) << (sample_no * 4);
        w.voices[1] = v;
    } else if address == 0x1a {
        let mut v = w.voices[1];
        v.volume = value & 0xf;
        w.voices[1] = v;
    } else if address >= 0x6 && address <= 0x9 {
        let sample_no: u8 = address - 0x6 + 1;
        let mut v = w.voices[1];
        v.accumulator &= !(0b1111 << (sample_no * 4));
        v.accumulator |= (value as u32 & 0b1111) << (sample_no * 4);
        w.voices[1] = v;
    }

    // third voice: likewise without its lowest nibble
    if address == 0xf {
        let mut v = w.voices[2];
        v.waveform_no = value & 0b111;
        w.voices[2] = v;
    } else if address >= 0x1b && address <= 0x1e {
        let sample_no: u8 = address - 0x1b + 1;
        let mut v = w.voices[2];
        v.frequency &= !(0b1111 << (sample_no * 4));
        v.frequency |= (value as u32 & 0b1111) << (sample_no * 4);
        w.voices[2] = v;
    } else if address == 0x1f {
        let mut v = w.voices[2];
        v.volume = value & 0xf;
        w.voices[2] = v;
    } else if address >= 0xb && address <= 0xe {
        let sample_no: u8 = address - 0xb + 1;
        let mut v = w.voices[2];
        v.accumulator &= !(0b1111 << (sample_no * 4));
        v.accumulator |= (value as u32 & 0b1111) << (sample_no * 4);
        w.voices[2] = v;
    }
}

/// Step one voice and return its sample contribution.
fn voice_sample(v: &mut wsg_voice, sound_rom: &[u8; 0x100]) -> (s: i16)
    requires
        voice_wf(*old(v)),
    ensures
        voice_wf(*final(v)),
        *final(v) == step_voice(*old(v)),
        s == voice_out(step_voice(*old(v)), *sound_rom),
        -120 <= s <= 3705,
{
    if v.frequency == 0 || v.volume == 0 {
        return 0;
    }
    proof {
        assert(forall|x: u32| #[trigger] (x & 0xfffff) < 0x100000) by (bit_vector);
        assert(forall|x: u32| x < 0x100000 ==> #[trigger] (x >> 15) <= 31) by (bit_vector);
    }
    v.accumulator = (v.accumulator + v.frequency) & 0xfffff;
    // the highest 5 bits of the 20-bit accumulator select one of 32 steps of
    // the chosen waveform in the table
    let sample_pos: usize = (v.waveform_no * 32) as usize + (v.accumulator >> 15) as usize;

    // the unsigned table byte becomes a signed sample, scaled by the volume
    let rom_byte: u8 = sound_rom[sample_pos];
    proof {
        assert((rom_byte as i16 - 8) * (v.volume as i16) <= 3705 && (rom_byte as i16 - 8) * (
        v.volume as i16) >= -120) by (nonlinear_arith)
            requires
                rom_byte <= 255 && 0 <= v.volume <= 15,
        ;
    }
    let voice_sample: i16 = ((rom_byte as i16) - 8) * (v.volume as i16);
    voice_sample
}

/// Render `buffer_len` samples into the front of `buffer`: each sample mixes
/// the three voices after one phase step each and scales the sum by the
/// gain, truncated to 16 bits. The rest of the buffer is untouched.
pub fn wsg_play(w: &mut wsg, buffer: &mut Vec<i16>, buffer_len: i32)
    requires
        old(w).wf(),
        buffer_len <= old(buffer)@.len(),
    ensures
        final(w).wf(),
        final(w).sound_rom == old(w).sound_rom,
        final(w).gain == old(w).gain,
        final(w).voices[0] == play_voice(old(w).voices[0], buffer_len as int),
        final(w).voices[1] == play_voice(old(w).voices[1], buffer_len as int),
        final(w).voices[2] == play_voice(old(w).voices[2], buffer_len as int),
        final(buffer)@.len() == old(buffer)@.len(),
        forall|k: int| 0 <= k < buffer_len ==> final(buffer)@[k] == wsg_sample_at(*old(w), k),
        forall|k: int|
            buffer_len <= k < old(buffer)@.len() ==> final(buffer)@[k] == old(buffer)@[k],
{
    let mut i: i32 = 0;
    if buffer_len <= 0 {
        return ;
    }
    while i < buffer_len
        invariant
            0 <= i <= buffer_len,
            buffer_len <= buffer@.len(),
            buffer@.len() == old(buffer)@.len(),
            w.wf(),
            w.sound_rom == old(w).sound_rom,
            w.gain == old(w).gain,
            w.voices[0] == play_voice(old(w).voices[0], i as int),
            w.voices[1] == play_voice(old(w).voices[1], i as int),
            w.voices[2] == play_voice(old(w).voices[2], i as int),
            forall|k: int| 0 <= k < i ==> buffer@[k] == wsg_sample_at(*old(w), k),
            forall|k: int| i <= k < buffer@.len() ==> buffer@[k] == old(buffer)@[k],
        decreases buffer_len - i,
    {
        let mut sample: i16 = 0;

        let mut v0 = w.voices[0];
        sample = sample + voice_sample(&mut v0, &w.sound_rom);
        w.voices[0] = v0;
        let mut v1 = w.voices[1];
        sample = sample + voice_sample(&mut v1, &w.sound_rom);
        w.voices[1] = v1;
        let mut v2 = w.voices[2];
        sample = sample + voice_sample(&mut v2, &w.sound_rom);
        w.voices[2] = v2;

        proof {
            assert(sample * w.gain <= 11115 * 100000 && sample * w.gain >= -360 * 100000)
                by (nonlinear_arith)
                requires
                    -360 <= sample <= 11115 && 0 <= w.gain <= 100000,
            ;
        }
        #[verifier::truncate]
        let out: i16 = (sample as i32 * w.gain) as i16;
        buffer[i as usize] = out;
        i = i + 1;
    }
}

} // verus!
