//! The save-state codec: round trips and each rejection.

use gameroy_core::cartridge::Cartridge;
use gameroy_core::gameboy::GameBoy;
use gameroy_core::save_state::LoadStateError;

fn running_machine() -> GameBoy {
    let mut rom = vec![0u8; 0x8000];
    // a small busy loop: LD A,0x21 ; ADD A,0x17 ; JP 0x0103
    let program = [0x3E, 0x21, 0xC6, 0x17, 0xC3, 0x03, 0x01];
    rom[0x100..0x100 + program.len()].copy_from_slice(&program);
    let mut gb = GameBoy::new(None, Cartridge::new(rom));
    gb.write(0xA123, 0x5A);
    gb.write(0xC456, 0xA5);
    gb.write(0xFF80, 0x3C);
    for _ in 0..500 {
        gb.step();
    }
    gb
}

#[test]
fn save_load_save_is_byte_identical() {
    let gb = running_machine();
    let mut first = Vec::new();
    gb.save_state(&mut first);

    let mut other = running_machine();
    // drift the second machine before loading, so the load has work
    for _ in 0..100 {
        other.step();
    }
    let mut pos = 0usize;
    other.load_state(&first, &mut pos).expect("a fresh snapshot loads");
    assert_eq!(pos, first.len());

    let mut second = Vec::new();
    other.save_state(&mut second);
    assert_eq!(first, second);
    assert!(other == running_machine());
}

#[test]
fn loaded_machine_runs_like_its_source() {
    let mut gb = running_machine();
    let mut snap = Vec::new();
    gb.save_state(&mut snap);
    let mut copy = running_machine();
    let mut pos = 0usize;
    copy.load_state(&snap, &mut pos).unwrap();
    for _ in 0..300 {
        gb.step();
        copy.step();
    }
    assert!(gb == copy);
}

#[test]
fn truncated_snapshot_is_refused() {
    let gb = running_machine();
    let mut data = Vec::new();
    gb.save_state(&mut data);
    data.truncate(data.len() - 1);
    let mut target = running_machine();
    let mut pos = 0usize;
    assert_eq!(
        target.load_state(&data, &mut pos),
        Err(LoadStateError::UnexpectedEof)
    );
}

#[test]
fn sound_clock_mismatch_is_refused() {
    let gb = running_machine();
    let mut data = Vec::new();
    gb.save_state(&mut data);
    // the sound controller's clock sits right before the picture unit:
    // 14 + 0x2000 + 0x2000 + 0x7F + 1 + 8 + 14 + 0x30 bytes in
    let off = 14 + 0x2000 + 0x2000 + 0x7F + 1 + 8 + 14 + 0x30;
    data[off] ^= 0xFF;
    let mut target = running_machine();
    let mut pos = 0usize;
    match target.load_state(&data, &mut pos) {
        Err(LoadStateError::SoundControllerDesync(found, expected)) => {
            assert_ne!(found, expected);
        }
        other => panic!("expected a desync, got {other:?}"),
    }
}

#[test]
fn clock_behind_timer_is_refused() {
    let gb = running_machine();
    let mut data = Vec::new();
    gb.save_state(&mut data);
    // zero the board clock while the timer keeps its later clock
    let off = 14 + 0x2000 + 0x2000 + 0x7F + 1;
    for i in 0..8 {
        data[off + i] = 0;
    }
    let mut target = running_machine();
    let mut pos = 0usize;
    assert_eq!(
        target.load_state(&data, &mut pos),
        Err(LoadStateError::ClockBackwards)
    );
}

#[test]
fn impossible_ppu_state_is_refused() {
    let gb = running_machine();
    let mut data = Vec::new();
    gb.save_state(&mut data);
    // the macro state byte of the picture unit
    let ppu_base = 14 + 0x2000 + 0x2000 + 0x7F + 1 + 8 + 14 + 0x38;
    let state_off = ppu_base + 0x2000 + 0xA0 + 0x5A00 + 40 + 13;
    data[state_off] = 27;
    let mut target = running_machine();
    let mut pos = 0usize;
    assert_eq!(
        target.load_state(&data, &mut pos),
        Err(LoadStateError::InvalidPpuMode(27))
    );
}

#[test]
fn reset_returns_to_the_post_boot_state() {
    let mut gb = running_machine();
    gb.reset();
    let fresh = GameBoy::new(None, {
        let mut rom = vec![0u8; 0x8000];
        let program = [0x3E, 0x21, 0xC6, 0x17, 0xC3, 0x03, 0x01];
        rom[0x100..0x100 + program.len()].copy_from_slice(&program);
        Cartridge::new(rom)
    });
    assert_eq!(gb.clock_count, fresh.clock_count);
    assert_eq!(gb.cpu, fresh.cpu);
}
