use pacz80::wsg::WSG_SAMPLE_RATE;
use pacz80::wsg::wsg;
use pacz80::wsg::wsg_init;
use pacz80::wsg::wsg_play;
use pacz80::wsg::wsg_write;

fn chip() -> wsg {
    let mut w = wsg::new();
    let mut rom = [0u8; 0x100];
    let mut i = 0usize;
    while i < 0x100 {
        rom[i] = (i % 16) as u8;
        i += 1;
    }
    wsg_init(&mut w, rom);
    w
}

#[test]
fn sample_rate_is_the_hardware_rate() {
    assert_eq!(WSG_SAMPLE_RATE, 96000);
}

#[test]
fn init_sets_gain_and_silences_voices() {
    let w = chip();
    assert_eq!(w.gain, 25);
    for v in w.voices.iter() {
        assert_eq!(v.frequency, 0);
        assert_eq!(v.accumulator, 0);
        assert_eq!(v.waveform_no, 0);
        assert_eq!(v.volume, 0);
    }
}

#[test]
fn register_writes_land_in_nibbles() {
    let mut w = chip();
    // frequency of the first voice, nibble by nibble
    wsg_write(&mut w, 0x10, 0x0F);
    wsg_write(&mut w, 0x11, 0x02);
    assert_eq!(w.voices[0].frequency, 0x0002F);
    wsg_write(&mut w, 0x14, 0x0A);
    assert_eq!(w.voices[0].frequency, 0xA002F);
    // overwrite one nibble
    wsg_write(&mut w, 0x10, 0x01);
    assert_eq!(w.voices[0].frequency, 0xA0021);

    // waveform and volume take 3 and 4 bits
    wsg_write(&mut w, 0x05, 0xFF);
    assert_eq!(w.voices[0].waveform_no, 0x7);
    wsg_write(&mut w, 0x15, 0xFF);
    assert_eq!(w.voices[0].volume, 0xF);

    // the second voice cannot address its lowest frequency nibble
    wsg_write(&mut w, 0x16, 0x03);
    assert_eq!(w.voices[1].frequency, 0x00030);
    // the third voice's accumulator likewise starts one nibble up
    wsg_write(&mut w, 0x0B, 0x05);
    assert_eq!(w.voices[2].accumulator, 0x00050);

    // other voices are untouched
    assert_eq!(w.voices[0].frequency, 0xA0021);
}

#[test]
fn play_mixes_and_advances_the_accumulator() {
    let mut w = chip();
    // one sounding voice: frequency steps the accumulator straight into the
    // sample-select bits
    wsg_write(&mut w, 0x13, 0x08); // frequency 0x08000
    wsg_write(&mut w, 0x15, 0x02); // volume 2
    let mut buffer: Vec<i16> = vec![0i16; 4];
    wsg_play(&mut w, &mut buffer, 4);

    // accumulator after four steps of 0x8000
    assert_eq!(w.voices[0].accumulator, 0x20000);
    // sample k reads waveform byte (acc >> 15) = k + 1 of waveform 0, which
    // holds (k + 1) % 16; recentred by 8, scaled by volume 2 and gain 25
    assert_eq!(buffer[0], (1 - 8) * 2 * 25);
    assert_eq!(buffer[1], (2 - 8) * 2 * 25);
    assert_eq!(buffer[2], (3 - 8) * 2 * 25);
    assert_eq!(buffer[3], (4 - 8) * 2 * 25);
}

#[test]
fn silent_voices_hold_still() {
    let mut w = chip();
    // volume set but frequency zero: the voice does not advance or sound
    wsg_write(&mut w, 0x15, 0x0F);
    let mut buffer: Vec<i16> = vec![7i16; 3];
    wsg_play(&mut w, &mut buffer, 2);
    assert_eq!(w.voices[0].accumulator, 0);
    assert_eq!(buffer[0], 0);
    assert_eq!(buffer[1], 0);
    // beyond the requested length the buffer is untouched
    assert_eq!(buffer[2], 7);
}
