//! End-to-end tests of the interpreter. Programs are assembled into ROM
//! bytes, loaded, and driven through `tick`; results are observed
//! through the framebuffer and through the error a failing cycle
//! reports. Register probes draw a one-pixel marker that a skip
//! instruction suppresses exactly when the probed register holds the
//! expected value, so an unlit marker means the probe passed; every
//! probing program ends with an unconditional sentinel dot that proves
//! the program ran to its end.

use chip8_core::Chip8Error;
use chip8_core::Emu;

/// Address of the all-ones sprite row byte in ROMs built by `rom_with_sprites`.
const FULL_ROW: u16 = 0x202;

/// Address of the single-pixel sprite byte in ROMs built by `rom_with_sprites`.
const DOT: u16 = 0x203;

fn push_op(rom: &mut Vec<u8>, op: u16) {
    rom.push((op >> 8) as u8);
    rom.push((op & 0xFF) as u8);
}

/// A ROM that starts by jumping over two sprite data bytes: 0xFF at
/// `FULL_ROW` and 0x80 at `DOT`.
fn rom_with_sprites() -> Vec<u8> {
    let mut rom = Vec::new();
    push_op(&mut rom, 0x1204);
    rom.push(0xFF);
    rom.push(0x80);
    rom
}

/// Five instructions: draw a dot at (mx, my) unless Vx == nn, so the
/// dot stays unlit exactly when the register holds the expected value.
/// Clobbers VA, VB and I.
fn probe_reg_eq(rom: &mut Vec<u8>, x: u8, nn: u8, mx: u8, my: u8) {
    push_op(rom, 0x6A00 | mx as u16);
    push_op(rom, 0x6B00 | my as u16);
    push_op(rom, 0xA000 | DOT);
    push_op(rom, 0x3000 | ((x as u16) << 8) | nn as u16);
    push_op(rom, 0xDAB1);
}

/// Four instructions: draw a dot at (mx, my) unconditionally.
fn sentinel(rom: &mut Vec<u8>, mx: u8, my: u8) {
    push_op(rom, 0x6A00 | mx as u16);
    push_op(rom, 0x6B00 | my as u16);
    push_op(rom, 0xA000 | DOT);
    push_op(rom, 0xDAB1);
}

/// Run `n` instruction cycles, failing the test on any error. Cycles
/// beyond the program's end execute zero words, which are no-ops.
fn run(emu: &mut Emu, n: usize) {
    for _ in 0..n {
        emu.tick().expect("instruction cycle failed");
    }
}

fn pixel(emu: &Emu, x: usize, y: usize) -> bool {
    emu.get_display()[x + 64 * y]
}

fn fresh_with(rom: &[u8]) -> Emu {
    let mut emu = Emu::new();
    emu.load(rom);
    emu
}

#[test]
fn test_new_display_blank() {
    let emu = Emu::new();
    let disp = emu.get_display();
    assert_eq!(disp.len(), 64 * 32);
    assert!(disp.iter().all(|p| !p));
}

#[test]
fn test_push_pop_roundtrip() {
    let mut emu = Emu::new();
    emu.push(0x0ABC);
    emu.push(0x0DEF);
    assert_eq!(emu.pop(), 0x0DEF);
    assert_eq!(emu.pop(), 0x0ABC);
}

#[test]
fn test_load_capacity() {
    let mut emu = Emu::new();
    let data = vec![0u8; 4096 - 0x200];
    emu.load(&data);
    assert!(emu.tick().is_ok());
}

#[test]
fn test_add_imm_wraps() {
    let mut rom = rom_with_sprites();
    push_op(&mut rom, 0x60C8); // V0 = 200
    push_op(&mut rom, 0x7064); // V0 += 100 -> 300 mod 256 = 44
    probe_reg_eq(&mut rom, 0, 44, 0, 31);
    probe_reg_eq(&mut rom, 0, 45, 1, 31);
    let mut emu = fresh_with(&rom);
    run(&mut emu, 40);
    assert!(!pixel(&emu, 0, 31), "V0 should be 44");
    assert!(pixel(&emu, 1, 31), "V0 should not be 45");
}

#[test]
fn test_add_reg_carry() {
    let mut rom = rom_with_sprites();
    push_op(&mut rom, 0x60C8); // V0 = 200
    push_op(&mut rom, 0x6164); // V1 = 100
    push_op(&mut rom, 0x8014); // V0 += V1 -> 44, carry
    push_op(&mut rom, 0x82F0); // V2 = VF
    push_op(&mut rom, 0x6305); // V3 = 5
    push_op(&mut rom, 0x6406); // V4 = 6
    push_op(&mut rom, 0x8344); // V3 += V4 -> 11, no carry
    push_op(&mut rom, 0x85F0); // V5 = VF
    probe_reg_eq(&mut rom, 0, 44, 0, 31);
    probe_reg_eq(&mut rom, 2, 1, 1, 31);
    probe_reg_eq(&mut rom, 3, 11, 2, 31);
    probe_reg_eq(&mut rom, 5, 0, 3, 31);
    sentinel(&mut rom, 10, 31);
    let mut emu = fresh_with(&rom);
    run(&mut emu, 60);
    assert!(!pixel(&emu, 0, 31), "V0 should be 44");
    assert!(!pixel(&emu, 1, 31), "VF should be 1 after a carry");
    assert!(!pixel(&emu, 2, 31), "V3 should be 11");
    assert!(!pixel(&emu, 3, 31), "VF should be 0 without a carry");
    assert!(pixel(&emu, 10, 31), "program should reach its end");
}

#[test]
fn test_sub_borrow() {
    let mut rom = rom_with_sprites();
    push_op(&mut rom, 0x6005); // V0 = 5
    push_op(&mut rom, 0x610A); // V1 = 10
    push_op(&mut rom, 0x8015); // V0 -= V1 -> 251, borrow
    push_op(&mut rom, 0x82F0); // V2 = VF
    push_op(&mut rom, 0x630A); // V3 = 10
    push_op(&mut rom, 0x6405); // V4 = 5
    push_op(&mut rom, 0x8345); // V3 -= V4 -> 5, no borrow
    push_op(&mut rom, 0x85F0); // V5 = VF
    probe_reg_eq(&mut rom, 0, 251, 0, 31);
    probe_reg_eq(&mut rom, 2, 0, 1, 31);
    probe_reg_eq(&mut rom, 3, 5, 2, 31);
    probe_reg_eq(&mut rom, 5, 1, 3, 31);
    sentinel(&mut rom, 10, 31);
    let mut emu = fresh_with(&rom);
    run(&mut emu, 60);
    assert!(!pixel(&emu, 0, 31), "V0 should wrap to 251");
    assert!(!pixel(&emu, 1, 31), "VF should be 0 after a borrow");
    assert!(!pixel(&emu, 2, 31), "V3 should be 5");
    assert!(!pixel(&emu, 3, 31), "VF should be 1 without a borrow");
    assert!(pixel(&emu, 10, 31), "program should reach its end");
}

#[test]
fn test_sub_from_reg() {
    let mut rom = rom_with_sprites();
    push_op(&mut rom, 0x6003); // V0 = 3
    push_op(&mut rom, 0x610A); // V1 = 10
    push_op(&mut rom, 0x8017); // V0 = V1 - V0 -> 7, no borrow
    push_op(&mut rom, 0x82F0); // V2 = VF
    probe_reg_eq(&mut rom, 0, 7, 0, 31);
    probe_reg_eq(&mut rom, 2, 1, 1, 31);
    sentinel(&mut rom, 10, 31);
    let mut emu = fresh_with(&rom);
    run(&mut emu, 40);
    assert!(!pixel(&emu, 0, 31), "V0 should be 7");
    assert!(!pixel(&emu, 1, 31), "VF should be 1 without a borrow");
    assert!(pixel(&emu, 10, 31));
}

#[test]
fn test_bitwise_ops() {
    let mut rom = rom_with_sprites();
    push_op(&mut rom, 0x600C); // V0 = 0b1100
    push_op(&mut rom, 0x610A); // V1 = 0b1010
    push_op(&mut rom, 0x8011); // V0 |= V1 -> 0b1110
    push_op(&mut rom, 0x620C); // V2 = 0b1100
    push_op(&mut rom, 0x8212); // V2 &= V1 -> 0b1000
    push_op(&mut rom, 0x630C); // V3 = 0b1100
    push_op(&mut rom, 0x8313); // V3 ^= V1 -> 0b0110
    push_op(&mut rom, 0x8410); // V4 = V1
    probe_reg_eq(&mut rom, 0, 0x0E, 0, 31);
    probe_reg_eq(&mut rom, 2, 0x08, 1, 31);
    probe_reg_eq(&mut rom, 3, 0x06, 2, 31);
    probe_reg_eq(&mut rom, 4, 0x0A, 3, 31);
    sentinel(&mut rom, 10, 31);
    let mut emu = fresh_with(&rom);
    run(&mut emu, 60);
    assert!(!pixel(&emu, 0, 31), "OR result");
    assert!(!pixel(&emu, 1, 31), "AND result");
    assert!(!pixel(&emu, 2, 31), "XOR result");
    assert!(!pixel(&emu, 3, 31), "copy result");
    assert!(pixel(&emu, 10, 31));
}

#[test]
fn test_shift_right_flag() {
    let mut rom = rom_with_sprites();
    push_op(&mut rom, 0x6005); // V0 = 5
    push_op(&mut rom, 0x8006); // V0 >>= 1 -> 2, VF = 1
    push_op(&mut rom, 0x82F0); // V2 = VF
    push_op(&mut rom, 0x6104); // V1 = 4
    push_op(&mut rom, 0x8116); // V1 >>= 1 -> 2, VF = 0
    push_op(&mut rom, 0x83F0); // V3 = VF
    probe_reg_eq(&mut rom, 0, 2, 0, 31);
    probe_reg_eq(&mut rom, 2, 1, 1, 31);
    probe_reg_eq(&mut rom, 1, 2, 2, 31);
    probe_reg_eq(&mut rom, 3, 0, 3, 31);
    sentinel(&mut rom, 10, 31);
    let mut emu = fresh_with(&rom);
    run(&mut emu, 60);
    assert!(!pixel(&emu, 0, 31), "V0 should be 2");
    assert!(!pixel(&emu, 1, 31), "VF should capture the low bit 1");
    assert!(!pixel(&emu, 2, 31), "V1 should be 2");
    assert!(!pixel(&emu, 3, 31), "VF should capture the low bit 0");
    assert!(pixel(&emu, 10, 31));
}

#[test]
fn test_shift_left_flag() {
    let mut rom = rom_with_sprites();
    push_op(&mut rom, 0x6081); // V0 = 0x81
    push_op(&mut rom, 0x800E); // V0 <<= 1 -> 2, VF = 1
    push_op(&mut rom, 0x82F0); // V2 = VF
    push_op(&mut rom, 0x6140); // V1 = 0x40
    push_op(&mut rom, 0x811E); // V1 <<= 1 -> 0x80, VF = 0
    push_op(&mut rom, 0x83F0); // V3 = VF
    probe_reg_eq(&mut rom, 0, 2, 0, 31);
    probe_reg_eq(&mut rom, 2, 1, 1, 31);
    probe_reg_eq(&mut rom, 1, 0x80, 2, 31);
    probe_reg_eq(&mut rom, 3, 0, 3, 31);
    sentinel(&mut rom, 10, 31);
    let mut emu = fresh_with(&rom);
    run(&mut emu, 60);
    assert!(!pixel(&emu, 0, 31), "V0 should wrap to 2");
    assert!(!pixel(&emu, 1, 31), "VF should capture the high bit 1");
    assert!(!pixel(&emu, 2, 31), "V1 should be 0x80");
    assert!(!pixel(&emu, 3, 31), "VF should capture the high bit 0");
    assert!(pixel(&emu, 10, 31));
}

#[test]
fn test_skip_instructions() {
    let mut rom = rom_with_sprites();
    push_op(&mut rom, 0x6007); // V0 = 7
    push_op(&mut rom, 0x6107); // V1 = 7
    push_op(&mut rom, 0x6209); // V2 = 9
    // each case arms a dot draw and lets the skip decide whether it runs
    let cases: [(u16, u8); 8] = [
        (0x3007, 0), // V0 == 7: skip, dot unlit
        (0x3008, 1), // V0 != 8: no skip, dot lit
        (0x4008, 2), // V0 != 8: skip, dot unlit
        (0x4007, 3), // V0 == 7: no skip, dot lit
        (0x5010, 4), // V0 == V1: skip, dot unlit
        (0x5020, 5), // V0 != V2: no skip, dot lit
        (0x9020, 6), // V0 != V2: skip, dot unlit
        (0x9010, 7), // V0 == V1: no skip, dot lit
    ];
    for (skip_op, mx) in cases {
        push_op(&mut rom, 0x6A00 | mx as u16);
        push_op(&mut rom, 0x6B1E); // VB = 30
        push_op(&mut rom, 0xA000 | DOT);
        push_op(&mut rom, skip_op);
        push_op(&mut rom, 0xDAB1);
    }
    sentinel(&mut rom, 10, 31);
    let mut emu = fresh_with(&rom);
    run(&mut emu, 80);
    for (expected_lit, mx) in [false, true, false, true, false, true, false, true]
        .into_iter()
        .zip(0usize..8)
    {
        assert_eq!(
            pixel(&emu, mx, 30),
            expected_lit,
            "skip case at column {mx}"
        );
    }
    assert!(pixel(&emu, 10, 31));
}

#[test]
fn test_sprite_wraparound_collision() {
    let mut rom = rom_with_sprites();
    push_op(&mut rom, 0x603F); // V0 = 63
    push_op(&mut rom, 0x6100); // V1 = 0
    push_op(&mut rom, 0xA000 | FULL_ROW); // I -> 0xFF row
    push_op(&mut rom, 0xD011); // first draw
    push_op(&mut rom, 0x82F0); // V2 = VF
    push_op(&mut rom, 0xD011); // second draw, same origin
    push_op(&mut rom, 0x83F0); // V3 = VF
    probe_reg_eq(&mut rom, 2, 0, 0, 31);
    probe_reg_eq(&mut rom, 3, 1, 1, 31);
    sentinel(&mut rom, 10, 31);
    let mut emu = fresh_with(&rom);
    run(&mut emu, 4); // jump, V0, V1, I
    run(&mut emu, 1); // first draw
    let lit: Vec<usize> = (0..64).filter(|&x| pixel(&emu, x, 0)).collect();
    assert_eq!(lit, vec![0, 1, 2, 3, 4, 5, 6, 63], "sprite wraps at x = 63");
    for y in 1..32 {
        for x in 0..64 {
            assert!(!pixel(&emu, x, y), "only row 0 is drawn");
        }
    }
    run(&mut emu, 2); // VF copy, second draw
    for x in 0..64 {
        assert!(!pixel(&emu, x, 0), "second draw erases the row");
    }
    run(&mut emu, 40);
    assert!(!pixel(&emu, 0, 31), "first draw reports no collision");
    assert!(!pixel(&emu, 1, 31), "second draw reports a collision");
    assert!(pixel(&emu, 10, 31));
}

#[test]
fn test_clear_screen() {
    let mut rom = rom_with_sprites();
    push_op(&mut rom, 0x6A05); // VA = 5
    push_op(&mut rom, 0x6B06); // VB = 6
    push_op(&mut rom, 0xA000 | DOT);
    push_op(&mut rom, 0xDAB1);
    push_op(&mut rom, 0x00E0);
    let mut emu = fresh_with(&rom);
    run(&mut emu, 5);
    assert!(pixel(&emu, 5, 6));
    run(&mut emu, 1);
    assert!(emu.get_display().iter().all(|p| !p));
}

#[test]
fn test_bcd_255() {
    let mut rom = rom_with_sprites();
    push_op(&mut rom, 0x60FF); // V0 = 255
    push_op(&mut rom, 0xA300); // I = 0x300
    push_op(&mut rom, 0xF033); // digits 2,5,5 into memory
    push_op(&mut rom, 0xF265); // V0..V2 = mem[I..I+3)
    probe_reg_eq(&mut rom, 0, 2, 0, 29);
    probe_reg_eq(&mut rom, 1, 5, 1, 29);
    probe_reg_eq(&mut rom, 2, 5, 2, 29);
    sentinel(&mut rom, 10, 29);
    let mut emu = fresh_with(&rom);
    run(&mut emu, 60);
    assert!(!pixel(&emu, 0, 29), "hundreds digit of 255");
    assert!(!pixel(&emu, 1, 29), "tens digit of 255");
    assert!(!pixel(&emu, 2, 29), "ones digit of 255");
    assert!(pixel(&emu, 10, 29));
}

#[test]
fn test_bcd_7() {
    let mut rom = rom_with_sprites();
    push_op(&mut rom, 0x6007); // V0 = 7
    push_op(&mut rom, 0xA300); // I = 0x300
    push_op(&mut rom, 0xF033); // digits 0,0,7 into memory
    push_op(&mut rom, 0xF265);
    probe_reg_eq(&mut rom, 0, 0, 0, 29);
    probe_reg_eq(&mut rom, 1, 0, 1, 29);
    probe_reg_eq(&mut rom, 2, 7, 2, 29);
    sentinel(&mut rom, 10, 29);
    let mut emu = fresh_with(&rom);
    run(&mut emu, 60);
    assert!(!pixel(&emu, 0, 29), "hundreds digit of 7");
    assert!(!pixel(&emu, 1, 29), "tens digit of 7");
    assert!(!pixel(&emu, 2, 29), "ones digit of 7");
    assert!(pixel(&emu, 10, 29));
}

#[test]
fn test_store_and_load_regs() {
    let mut rom = rom_with_sprites();
    push_op(&mut rom, 0x6011); // V0 = 0x11
    push_op(&mut rom, 0x6122); // V1 = 0x22
    push_op(&mut rom, 0x6233); // V2 = 0x33
    push_op(&mut rom, 0xA310); // I = 0x310
    push_op(&mut rom, 0xF255); // store V0..V2
    push_op(&mut rom, 0x6000); // clobber
    push_op(&mut rom, 0x6100);
    push_op(&mut rom, 0x6200);
    push_op(&mut rom, 0xF265); // reload V0..V2
    probe_reg_eq(&mut rom, 0, 0x11, 0, 28);
    probe_reg_eq(&mut rom, 1, 0x22, 1, 28);
    probe_reg_eq(&mut rom, 2, 0x33, 2, 28);
    sentinel(&mut rom, 10, 28);
    let mut emu = fresh_with(&rom);
    run(&mut emu, 60);
    assert!(!pixel(&emu, 0, 28));
    assert!(!pixel(&emu, 1, 28));
    assert!(!pixel(&emu, 2, 28));
    assert!(pixel(&emu, 10, 28));
}

#[test]
fn test_font_addressing() {
    // the glyph for each digit, 5 rows of 8 bits, high bit leftmost
    let font: [[u8; 5]; 16] = [
        [0xF0, 0x90, 0x90, 0x90, 0xF0],
        [0x20, 0x60, 0x20, 0x20, 0x70],
        [0xF0, 0x10, 0xF0, 0x80, 0xF0],
        [0xF0, 0x10, 0xF0, 0x10, 0xF0],
        [0x90, 0x90, 0xF0, 0x10, 0x10],
        [0xF0, 0x80, 0xF0, 0x10, 0xF0],
        [0xF0, 0x80, 0xF0, 0x90, 0xF0],
        [0xF0, 0x10, 0x20, 0x40, 0x40],
        [0xF0, 0x90, 0xF0, 0x90, 0xF0],
        [0xF0, 0x90, 0xF0, 0x10, 0xF0],
        [0xF0, 0x90, 0xF0, 0x90, 0x90],
        [0xE0, 0x90, 0xE0, 0x90, 0xE0],
        [0xF0, 0x80, 0x80, 0x80, 0xF0],
        [0xE0, 0x90, 0x90, 0x90, 0xE0],
        [0xF0, 0x80, 0xF0, 0x80, 0xF0],
        [0xF0, 0x80, 0xF0, 0x80, 0x80],
    ];
    for digit in [0u8, 5, 0xA, 0xF] {
        let mut rom = Vec::new();
        push_op(&mut rom, 0x6000 | digit as u16); // V0 = digit
        push_op(&mut rom, 0xF029); // I = 5 * digit
        push_op(&mut rom, 0x6A00); // VA = 0
        push_op(&mut rom, 0x6B00); // VB = 0
        push_op(&mut rom, 0xDAB5); // draw the 5-row glyph at (0, 0)
        let mut emu = fresh_with(&rom);
        run(&mut emu, 5);
        for y in 0..5 {
            for x in 0..8 {
                let expected = font[digit as usize][y] & (0x80 >> x) != 0;
                assert_eq!(
                    pixel(&emu, x, y),
                    expected,
                    "digit {digit:X}, row {y}, column {x}"
                );
            }
        }
    }
}

#[test]
fn test_key_wait_retry() {
    let mut rom = rom_with_sprites();
    push_op(&mut rom, 0xF30A); // V3 = next pressed key, retrying
    probe_reg_eq(&mut rom, 3, 5, 0, 31);
    sentinel(&mut rom, 1, 31);
    let mut emu = fresh_with(&rom);
    run(&mut emu, 1); // jump over the sprite data
    run(&mut emu, 10); // ten retries with no key pressed
    assert!(
        emu.get_display().iter().all(|p| !p),
        "no progress while no key is pressed"
    );
    emu.keypress(5, true);
    run(&mut emu, 30);
    assert!(!pixel(&emu, 0, 31), "V3 should hold the pressed key index");
    assert!(pixel(&emu, 1, 31), "program resumes after the key press");
}

#[test]
fn test_skip_on_key() {
    let mut rom = rom_with_sprites();
    push_op(&mut rom, 0x6007); // V0 = 7
    // key 7 released: EX9E falls through, EXA1 skips
    push_op(&mut rom, 0x6A00);
    push_op(&mut rom, 0x6B1E);
    push_op(&mut rom, 0xA000 | DOT);
    push_op(&mut rom, 0xE09E);
    push_op(&mut rom, 0xDAB1); // lit: key not pressed
    push_op(&mut rom, 0x6A01);
    push_op(&mut rom, 0xE0A1);
    push_op(&mut rom, 0xDAB1); // skipped
    // key 7 pressed below: EX9E skips, EXA1 falls through
    push_op(&mut rom, 0x6A02);
    push_op(&mut rom, 0xE09E);
    push_op(&mut rom, 0xDAB1); // skipped
    push_op(&mut rom, 0x6A03);
    push_op(&mut rom, 0xE0A1);
    push_op(&mut rom, 0xDAB1); // lit: key pressed
    let mut emu = fresh_with(&rom);
    run(&mut emu, 9); // through the two released-key cases
    emu.keypress(7, true);
    run(&mut emu, 40);
    assert!(pixel(&emu, 0, 30), "EX9E must not skip while released");
    assert!(!pixel(&emu, 1, 30), "EXA1 must skip while released");
    assert!(!pixel(&emu, 2, 30), "EX9E must skip while pressed");
    assert!(pixel(&emu, 3, 30), "EXA1 must not skip while pressed");
}

#[test]
fn test_timer_decrements_once() {
    let mut rom = rom_with_sprites();
    push_op(&mut rom, 0x6005); // V0 = 5
    push_op(&mut rom, 0xF015); // delay timer = 5
    push_op(&mut rom, 0xF107); // V1 = delay timer
    probe_reg_eq(&mut rom, 1, 4, 0, 31);
    sentinel(&mut rom, 1, 31);
    let mut emu = fresh_with(&rom);
    run(&mut emu, 3); // jump, V0, set timer
    emu.tick_timers();
    run(&mut emu, 40);
    assert!(!pixel(&emu, 0, 31), "one tick takes the timer from 5 to 4");
    assert!(pixel(&emu, 1, 31));
}

#[test]
fn test_timer_floor() {
    let mut rom = rom_with_sprites();
    push_op(&mut rom, 0x6002); // V0 = 2
    push_op(&mut rom, 0xF015); // delay timer = 2
    push_op(&mut rom, 0x6305); // V3 = 5
    push_op(&mut rom, 0xF318); // sound timer = 5; decays unobserved
    push_op(&mut rom, 0xF107); // V1 = delay timer
    probe_reg_eq(&mut rom, 1, 0, 0, 31);
    sentinel(&mut rom, 1, 31);
    let mut emu = fresh_with(&rom);
    run(&mut emu, 5); // jump, V0, set delay, V3, set sound
    for _ in 0..9 {
        emu.tick_timers();
    }
    run(&mut emu, 40);
    assert!(
        !pixel(&emu, 0, 31),
        "nine ticks leave a timer started at 2 exactly at 0"
    );
    assert!(pixel(&emu, 1, 31));
}

#[test]
fn test_jump_plus_v0() {
    let mut rom = rom_with_sprites();
    push_op(&mut rom, 0x6004); // 0x204: V0 = 4
    push_op(&mut rom, 0x6A00); // 0x206: VA = 0
    push_op(&mut rom, 0x6B1F); // 0x208: VB = 31
    push_op(&mut rom, 0xA000 | DOT); // 0x20A: I -> dot
    push_op(&mut rom, 0xB20C); // 0x20C: jump to V0 + 0x20C = 0x210
    push_op(&mut rom, 0x6A01); // 0x20E: jumped over
    push_op(&mut rom, 0xDAB1); // 0x210: dot at (VA, VB)
    let mut emu = fresh_with(&rom);
    run(&mut emu, 40);
    assert!(pixel(&emu, 0, 31), "landing instruction draws at (0, 31)");
    assert!(!pixel(&emu, 1, 31), "the jumped-over write must not run");
}

#[test]
fn test_call_and_return() {
    let mut rom = rom_with_sprites();
    push_op(&mut rom, 0x2212); // 0x204: call 0x212
    push_op(&mut rom, 0x6A00); // 0x206: VA = 0, after returning
    push_op(&mut rom, 0x6B1F); // 0x208
    push_op(&mut rom, 0xA000 | DOT); // 0x20A
    push_op(&mut rom, 0x3009); // 0x20C: skip if V0 == 9
    push_op(&mut rom, 0xDAB1); // 0x20E: unlit when the subroutine ran
    push_op(&mut rom, 0x1216); // 0x210: jump to the sentinel
    push_op(&mut rom, 0x6009); // 0x212: subroutine: V0 = 9
    push_op(&mut rom, 0x00EE); // 0x214: return
    push_op(&mut rom, 0x6A02); // 0x216: sentinel
    push_op(&mut rom, 0xDAB1); // 0x218
    let mut emu = fresh_with(&rom);
    run(&mut emu, 40);
    assert!(!pixel(&emu, 0, 31), "the subroutine set V0 to 9");
    assert!(pixel(&emu, 2, 31), "execution continues after the return");
}

#[test]
fn test_add_index() {
    let mut rom = rom_with_sprites();
    // point I one byte before the dot sprite, then step it forward
    push_op(&mut rom, 0xA000 | (DOT - 1)); // I = 0x202
    push_op(&mut rom, 0x6001); // V0 = 1
    push_op(&mut rom, 0xF01E); // I += V0 -> the dot sprite
    push_op(&mut rom, 0x6A04);
    push_op(&mut rom, 0x6B05);
    push_op(&mut rom, 0xDAB1);
    let mut emu = fresh_with(&rom);
    run(&mut emu, 7);
    assert!(pixel(&emu, 4, 5), "I stepped onto the one-pixel sprite");
    assert_eq!(
        emu.get_display().iter().filter(|p| **p).count(),
        1,
        "a dot, not the full row at 0x202"
    );
}

#[test]
fn test_random_masked() {
    let mut rom = rom_with_sprites();
    push_op(&mut rom, 0x6377); // V3 = 0x77
    push_op(&mut rom, 0xC300); // V3 = random & 0x00 = 0
    probe_reg_eq(&mut rom, 3, 0, 0, 31);
    sentinel(&mut rom, 1, 31);
    let mut emu = fresh_with(&rom);
    run(&mut emu, 40);
    assert!(!pixel(&emu, 0, 31), "a random byte masked by 0 is 0");
    assert!(pixel(&emu, 1, 31));
}

#[test]
fn test_reset_restores_initial() {
    let mut rom = rom_with_sprites();
    push_op(&mut rom, 0x6A05);
    push_op(&mut rom, 0x6B06);
    push_op(&mut rom, 0xA000 | DOT);
    push_op(&mut rom, 0xDAB1);
    let mut emu = fresh_with(&rom);
    run(&mut emu, 5);
    assert!(pixel(&emu, 5, 6));
    emu.keypress(0, true);
    emu.reset();
    assert!(
        emu.get_display().iter().all(|p| !p),
        "reset clears the framebuffer"
    );
    // the program counter is back at the load offset: reloading and
    // rerunning reproduces the first run
    emu.load(&rom);
    run(&mut emu, 5);
    assert!(pixel(&emu, 5, 6), "the reloaded program runs from the start");
    // keys were cleared too: a fresh key wait blocks although key 0
    // was pressed before the reset
    emu.reset();
    let mut waiting = rom_with_sprites();
    push_op(&mut waiting, 0xF00A);
    sentinel(&mut waiting, 0, 0);
    emu.load(&waiting);
    run(&mut emu, 10);
    assert!(
        emu.get_display().iter().all(|p| !p),
        "reset releases every key, so the wait blocks"
    );
}

#[test]
fn test_unknown_opcode_faults() {
    for op in [0x5001u16, 0x00FF, 0x800F, 0xE000, 0xF0FF] {
        let mut rom = Vec::new();
        push_op(&mut rom, op);
        let mut emu = fresh_with(&rom);
        assert_eq!(emu.tick(), Err(Chip8Error::UnknownOpcode(op)));
        // the failed cycle had no effect, so it fails identically again
        assert_eq!(emu.tick(), Err(Chip8Error::UnknownOpcode(op)));
    }
}

#[test]
fn test_stack_underflow() {
    let mut rom = Vec::new();
    push_op(&mut rom, 0x00EE);
    let mut emu = fresh_with(&rom);
    assert_eq!(emu.tick(), Err(Chip8Error::StackUnderflow));
}

#[test]
fn test_stack_overflow() {
    let mut rom = Vec::new();
    for k in 0..17u16 {
        // each call targets the next instruction, never returning
        push_op(&mut rom, 0x2000 | (0x202 + 2 * k));
    }
    let mut emu = fresh_with(&rom);
    run(&mut emu, 16);
    assert_eq!(emu.tick(), Err(Chip8Error::StackOverflow));
}

#[test]
fn test_memory_out_of_bounds() {
    // BCD write past the end of memory
    let mut rom = Vec::new();
    push_op(&mut rom, 0xAFFF);
    push_op(&mut rom, 0xF033);
    let mut emu = fresh_with(&rom);
    run(&mut emu, 1);
    assert_eq!(emu.tick(), Err(Chip8Error::MemoryOutOfBounds));

    // sprite read past the end of memory
    let mut rom = Vec::new();
    push_op(&mut rom, 0xAFFF);
    push_op(&mut rom, 0xD002);
    let mut emu = fresh_with(&rom);
    run(&mut emu, 1);
    assert_eq!(emu.tick(), Err(Chip8Error::MemoryOutOfBounds));

    // a one-row sprite at the last byte is still in bounds
    let mut rom = Vec::new();
    push_op(&mut rom, 0xAFFF);
    push_op(&mut rom, 0xD001);
    let mut emu = fresh_with(&rom);
    run(&mut emu, 2);
    assert!(emu.get_display().iter().all(|p| !p));

    // a zero-row sprite reads nothing wherever I points
    let mut rom = Vec::new();
    push_op(&mut rom, 0xAFFF);
    push_op(&mut rom, 0xD000);
    let mut emu = fresh_with(&rom);
    run(&mut emu, 2);

    // register store and load past the end of memory
    for op in [0xF155u16, 0xF165] {
        let mut rom = Vec::new();
        push_op(&mut rom, 0xAFFF);
        push_op(&mut rom, op);
        let mut emu = fresh_with(&rom);
        run(&mut emu, 1);
        assert_eq!(emu.tick(), Err(Chip8Error::MemoryOutOfBounds));
    }

    // the program counter walking off the end of memory
    let mut rom = Vec::new();
    push_op(&mut rom, 0x1FFE); // jump to 4094
    let mut emu = fresh_with(&rom);
    run(&mut emu, 1);
    run(&mut emu, 1); // the zero word at 4094 is a no-op
    assert_eq!(emu.tick(), Err(Chip8Error::MemoryOutOfBounds));
}

#[test]
fn test_key_out_of_range() {
    for op in [0xE09Eu16, 0xE0A1] {
        let mut rom = Vec::new();
        push_op(&mut rom, 0x60FF); // V0 = 255: not a key index
        push_op(&mut rom, op);
        let mut emu = fresh_with(&rom);
        run(&mut emu, 1);
        assert_eq!(emu.tick(), Err(Chip8Error::KeyOutOfRange));
    }
}
