//! Board and processor behaviour on concrete programs.

use gameroy_core::cartridge::Cartridge;
use gameroy_core::gameboy::{GameBoy, Timer};

/// A cartridge whose program starts at 0x0100.
fn cart_with_program(program: &[u8]) -> Cartridge {
    let mut rom = vec![0u8; 0x8000];
    for (i, b) in program.iter().enumerate() {
        rom[0x100 + i] = *b;
    }
    Cartridge::new(rom)
}

fn boot_skipped(program: &[u8]) -> GameBoy {
    GameBoy::new(None, cart_with_program(program))
}

#[test]
fn clock_is_nondecreasing_and_submachines_catch_up() {
    let mut gb = boot_skipped(&[0x00]);
    let mut prev = gb.clock_count;
    for _ in 0..100 {
        gb.tick(7);
        assert!(gb.clock_count > prev);
        assert_eq!(gb.timer.last_clock_count, gb.clock_count);
        assert!(gb.ppu.next_clock_count >= gb.clock_count);
        prev = gb.clock_count;
    }
}

#[test]
fn scenario_ld_a_then_nop() {
    // LD A,0x42 ; NOP
    let mut gb = boot_skipped(&[0x3E, 0x42, 0x00]);
    let start = gb.clock_count;
    gb.step();
    gb.step();
    assert_eq!(gb.clock_count - start, 12);
    assert_eq!(gb.cpu.a, 0x42);
    assert_eq!(gb.cpu.pc, 0x0103);
}

#[test]
fn scenario_inc_b() {
    // LD B,5 ; INC B
    let mut gb = boot_skipped(&[0x06, 0x05, 0x04]);
    let start = gb.clock_count;
    gb.step();
    gb.step();
    assert_eq!(gb.clock_count - start, 12);
    assert_eq!(gb.cpu.b, 6);
    assert_eq!(gb.cpu.f & 0x80, 0, "Z clear");
    assert_eq!(gb.cpu.f & 0x40, 0, "N clear");
    assert_eq!(gb.cpu.f & 0x20, 0, "H clear");
}

#[test]
fn scenario_xor_a() {
    // XOR A
    let mut gb = boot_skipped(&[0xAF]);
    let start = gb.clock_count;
    gb.step();
    assert_eq!(gb.clock_count - start, 4);
    assert_eq!(gb.cpu.a, 0);
    assert_eq!(gb.cpu.f, 0x80);
}

#[test]
fn scenario_add_a_c() {
    // LD C,0x10 ; LD A,5 ; ADD A,C
    let mut gb = boot_skipped(&[0x0E, 0x10, 0x3E, 0x05, 0x81]);
    let start = gb.clock_count;
    gb.step();
    gb.step();
    gb.step();
    assert_eq!(gb.clock_count - start, 20);
    assert_eq!(gb.cpu.a, 0x15);
    assert_eq!(gb.cpu.f, 0x00);
}

#[test]
fn timer_disabled_tap_never_interrupts() {
    // with TAC's enable bit clear the counter bit is always low, so a
    // long burst of cycles never raises the timer interrupt
    let mut gb = boot_skipped(&[0x00]);
    gb.write(0xFF07, 0x00);
    gb.write(0xFF04, 0x00);
    gb.write(0xFF0F, 0x00);
    for _ in 0..(1 << 14) {
        gb.tick(64);
    }
    assert_eq!(gb.interrupt_flag & 4, 0);
}

#[test]
fn timer_enabled_tap_interrupts_after_4096_cycles() {
    let mut gb = boot_skipped(&[0x00]);
    gb.write(0xFF07, 0x05);
    gb.write(0xFF04, 0x00);
    gb.write(0xFF0F, 0x00);
    let mut cycles = 0u64;
    while gb.interrupt_flag & 4 == 0 {
        gb.tick(1);
        cycles += 1;
        assert!(cycles <= 1 << 20, "interrupt never came");
    }
    // 256 TIMA increments, one every 16 T-cycles
    assert_eq!(cycles, 4096);
    assert_eq!(cycles, 1024 + 256 * 12);
}

#[test]
fn tima_increments_every_16_cycles_with_fast_tap() {
    let mut t = Timer {
        div: 0,
        tima: 0,
        tma: 0,
        tac: 0x05,
        last_counter_bit: false,
        last_clock_count: 0,
    };
    for k in 1..=200u64 {
        t.update(16 * k);
        assert_eq!(t.tima as u64, k);
        t.update(16 * k + 15);
        assert_eq!(t.tima as u64, k, "no increment before the edge");
    }
}

#[test]
fn echo_region_mirrors_work_ram() {
    let mut gb = boot_skipped(&[0x00]);
    for v in [0x00u8, 0x42, 0xFF] {
        gb.write(0xC000, v);
        assert_eq!(gb.read(0xE000), v);
        assert_eq!(gb.read(0xE000), gb.read(0xC000));
    }
    gb.write(0xE123, 0x77);
    assert_eq!(gb.read(0xC123), 0x77);
}

#[test]
fn dma_copies_work_ram_to_oam_in_full() {
    let mut gb = boot_skipped(&[0x00]);
    for i in 0..0xA0u16 {
        gb.write(0xC000 + i, (i as u8).wrapping_mul(3).wrapping_add(7));
    }
    gb.write(0xFF46, 0xC0);
    for i in 0..0xA0u16 {
        assert_eq!(
            gb.read(0xFE00 + i),
            (i as u8).wrapping_mul(3).wrapping_add(7),
            "byte {i} of the object table"
        );
    }
}

#[test]
fn boot_rom_flag_is_one_way() {
    let boot = vec![0xAAu8; 0x100];
    let mut gb = GameBoy::new(Some(boot), cart_with_program(&[0x00]));
    assert!(gb.boot_rom_active);
    assert_eq!(gb.read(0x0000), 0xAA);
    // writes without bit 0 do nothing
    gb.write(0xFF50, 0x02);
    assert!(gb.boot_rom_active);
    gb.write(0xFF50, 0x01);
    assert!(!gb.boot_rom_active);
    assert_eq!(gb.cpu.pc, 0x100);
    // and there is no way back
    gb.write(0xFF50, 0x00);
    assert!(!gb.boot_rom_active);
}

#[test]
fn interrupt_flag_reads_upper_bits_set() {
    let mut gb = boot_skipped(&[0x00]);
    gb.write(0xFF0F, 0x00);
    assert_eq!(gb.read(0xFF0F) & 0xE0, 0xE0);
    gb.write(0xFF0F, 0x05);
    assert_eq!(gb.read(0xFF0F), 0xE5);
}

#[test]
fn masked_interrupts_do_not_dispatch() {
    // upper IF bits never dispatch: IF = 0xE0, IE = 0xE0, IME on via EI; NOP
    let mut gb = boot_skipped(&[0xFB, 0x00, 0x00, 0x00]);
    gb.write(0xFF0F, 0xE0);
    gb.write(0xFFFF, 0xE0);
    let pc_before = gb.cpu.pc;
    gb.step(); // EI
    gb.step(); // NOP; IME becomes enabled after this
    gb.step(); // NOP, would dispatch if the upper bits counted
    assert_eq!(gb.cpu.pc, pc_before + 3, "no interrupt vector was taken");
}

#[test]
fn vblank_interrupt_dispatches_to_vector() {
    let mut gb = boot_skipped(&[0xFB, 0x00, 0x00]);
    gb.write(0xFFFF, 0x01);
    gb.write(0xFF0F, 0x00);
    gb.step(); // EI
    gb.step(); // NOP
    gb.write(0xFF0F, 0x01);
    gb.step();
    assert_eq!(gb.cpu.pc, 0x40);
    assert_eq!(gb.interrupt_flag & 0x01, 0, "the request bit was cleared");
}

#[test]
fn deterministic_execution_keeps_machines_equal() {
    let program = [0x3E, 0x10, 0x06, 0x22, 0x80, 0xC3, 0x00, 0x01];
    let mut a = boot_skipped(&program);
    let mut b = boot_skipped(&program);
    assert!(a == b);
    for _ in 0..1000 {
        a.step();
        b.step();
    }
    assert!(a == b);
    assert_eq!(a.cpu, b.cpu);
}

#[test]
fn halt_wakes_on_pending_interrupt() {
    // HALT with IME off, nothing pending: the machine idles
    let mut gb = boot_skipped(&[0x76, 0x00]);
    gb.write(0xFF0F, 0x00);
    gb.write(0xFFFF, 0x04);
    gb.step(); // HALT
    let pc = gb.cpu.pc;
    gb.step();
    assert_eq!(gb.cpu.pc, pc, "halted: PC stands still");
    // a pending enabled interrupt wakes it
    gb.write(0xFF0F, 0x04);
    gb.step();
    assert_eq!(gb.cpu.pc, pc + 1, "woke and ran the NOP");
}

#[test]
fn serial_transfer_latches_outgoing_byte() {
    let mut gb = boot_skipped(&[0x00]);
    gb.write(0xFF01, b'G');
    gb.write(0xFF02, 0x81);
    assert_eq!(gb.serial_transfer, vec![b'G']);
    gb.write(0xFF02, 0x00);
    assert_eq!(gb.serial_transfer.len(), 1);
}

#[test]
fn joypad_select_is_active_low() {
    let mut gb = boot_skipped(&[0x00]);
    // from bit 7 down: Start, Select, B, A, Down, Up, Left, Right
    gb.joypad = 0b1010_0101;
    // bit 4 low selects the matrix's high nibble
    gb.write(0xFF00, 0x20);
    assert_eq!(gb.read(0xFF00), 0xC0 | 0x20 | 0b1010);
    // bit 5 low selects the matrix's low nibble
    gb.write(0xFF00, 0x10);
    assert_eq!(gb.read(0xFF00), 0xC0 | 0x10 | 0b0101);
    // both high: no nibble is merged in
    gb.write(0xFF00, 0x30);
    assert_eq!(gb.read(0xFF00), 0xC0 | 0x30);
}

#[test]
fn sound_holes_read_fixed_despite_the_latch() {
    let mut gb = boot_skipped(&[0x00]);
    gb.write(0xFF16, 0x42);
    assert_eq!(gb.read(0xFF16), 0x42);
    for hole in [0xFF15u16, 0xFF1F, 0xFF27, 0xFF2A, 0xFF2F] {
        gb.write(hole, 0x42);
        assert_eq!(gb.read(hole), 0xFF, "hole {hole:#06X}");
    }
}

#[test]
fn stack_push_pop_round_trip() {
    // LD SP,0xD000 ; LD BC,0x1234 ; PUSH BC ; POP DE
    let mut gb = boot_skipped(&[0x31, 0x00, 0xD0, 0x01, 0x34, 0x12, 0xC5, 0xD1]);
    gb.step();
    gb.step();
    gb.step();
    gb.step();
    assert_eq!(gb.cpu.de(), 0x1234);
    assert_eq!(gb.cpu.sp, 0xD000);
}

#[test]
fn sixteen_bit_bus_access_is_little_endian() {
    let mut gb = boot_skipped(&[0x00]);
    gb.write16(0xC100, 0xBEEF);
    assert_eq!(gb.read(0xC100), 0xEF);
    assert_eq!(gb.read(0xC101), 0xBE);
    assert_eq!(gb.read16(0xC100), 0xBEEF);
}

#[test]
fn unusable_and_unmapped_regions_read_fixed() {
    let mut gb = boot_skipped(&[0x00]);
    gb.write(0xFEA5, 0x12);
    assert_eq!(gb.read(0xFEA5), 0xFF);
    assert_eq!(gb.read(0xFF03), 0xFF);
    assert_eq!(gb.read(0xFF4D), 0xFF);
}

#[test]
fn undefined_opcode_stops_the_processor() {
    let mut gb = boot_skipped(&[0xD3, 0x00]);
    gb.step();
    let pc = gb.cpu.pc;
    gb.step();
    assert_eq!(gb.cpu.pc, pc, "stopped: nothing executes");
}
