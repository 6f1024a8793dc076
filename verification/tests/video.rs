//! Picture-unit behaviour: the dot machine, the object scan, the pixel
//! pipeline and the tile viewers.

use gameroy_core::cartridge::Cartridge;
use gameroy_core::gameboy::GameBoy;
use gameroy_core::ppu::{draw_tile, tick_lcd_fifo, Canvas, Ppu, PixelFifo};

fn boot_skipped() -> GameBoy {
    GameBoy::new(None, Cartridge::new(vec![0u8; 0x8000]))
}

const FRAME_DOTS: u64 = 70224;

fn run_dots(gb: &mut GameBoy, dots: u64) {
    let mut left = dots;
    while left > 0 {
        let n = if left > 200 { 200 } else { left };
        gb.tick(n as u8);
        left -= n;
    }
}

#[test]
fn uniform_background_paints_the_whole_frame() {
    let mut gb = boot_skipped();
    gb.write(0xFF40, 0x91);
    gb.write(0xFF47, 0xE4);
    for a in 0x9800u16..0x9C00 {
        gb.write(a, 0x01);
    }
    for a in 0x8010u16..0x8020 {
        gb.write(a, 0xFF);
    }
    run_dots(&mut gb, 2 * FRAME_DOTS);
    for (i, px) in gb.ppu.screen.iter().enumerate() {
        assert_eq!(*px, 3, "pixel {i}");
    }
}

#[test]
fn every_screen_pixel_stays_a_shade() {
    let mut gb = boot_skipped();
    gb.write(0xFF40, 0x93);
    gb.write(0xFF47, 0x1B);
    for a in 0x8000u16..0x9FFF {
        gb.write(a, (a as u8).wrapping_mul(37));
    }
    run_dots(&mut gb, 2 * FRAME_DOTS);
    for px in gb.ppu.screen.iter() {
        assert!(*px < 4);
    }
}

#[test]
fn disabling_the_lcd_parks_the_machine() {
    let mut gb = boot_skipped();
    run_dots(&mut gb, 456 * 7);
    gb.write(0xFF40, 0x11);
    assert_eq!(gb.ppu.ly, 0);
    assert_eq!(gb.ppu.stat & 3, 0);
    assert_eq!(gb.ppu.state, 0);
    // frozen while disabled
    let screen_before = gb.ppu.screen.clone();
    run_dots(&mut gb, FRAME_DOTS);
    assert_eq!(gb.ppu.ly, 0);
    assert_eq!(gb.ppu.screen, screen_before);
    // re-enabling restarts from the parked state
    gb.write(0xFF40, 0x91);
    assert_eq!(gb.ppu.state, 0);
    assert_eq!(gb.ppu.ly, 0);
    assert_eq!(gb.ppu.stat & 3, 0);
    run_dots(&mut gb, FRAME_DOTS);
    assert!(gb.ppu.ly <= 153);
}

#[test]
fn vblank_flag_latches_each_frame() {
    let mut gb = boot_skipped();
    gb.v_blank = false;
    run_dots(&mut gb, 2 * FRAME_DOTS);
    assert!(gb.v_blank);
}

#[test]
fn frames_are_70224_dots_apart() {
    let mut gb = boot_skipped();
    gb.v_blank = false;
    while !gb.v_blank {
        gb.tick(1);
    }
    let first = gb.clock_count;
    gb.v_blank = false;
    while !gb.v_blank {
        gb.tick(1);
    }
    assert_eq!(gb.clock_count - first, FRAME_DOTS);
}

#[test]
fn lyc_coincidence_raises_the_stat_interrupt() {
    let mut gb = boot_skipped();
    gb.write(0xFF45, 42); // LYC
    gb.write(0xFF41, 0x40); // enable the LY==LYC source
    gb.write(0xFF0F, 0x00);
    let mut seen = false;
    for _ in 0..2 * FRAME_DOTS {
        gb.tick(1);
        if gb.read(0xFF44) == 42 && gb.read(0xFF41) & 0x04 != 0 {
            seen = true;
            break;
        }
    }
    assert!(seen, "the coincidence flag rose on line 42");
    assert_ne!(gb.interrupt_flag & 0x02, 0, "and the STAT interrupt with it");
}

#[test]
fn div_register_counts_and_clears() {
    let mut gb = boot_skipped();
    gb.write(0xFF04, 0x00);
    assert_eq!(gb.read(0xFF04), 0);
    for _ in 0..4 {
        gb.tick(128);
    }
    assert_eq!(gb.read(0xFF04), 2);
    gb.write(0xFF04, 0x55);
    assert_eq!(gb.read(0xFF04), 0, "any write clears the divider");
}

#[test]
fn stat_write_preserves_low_bits() {
    let mut gb = boot_skipped();
    let mode = gb.ppu.stat & 0x07;
    gb.write(0xFF41, 0xFF);
    assert_eq!(gb.ppu.stat & 0x07, mode);
    assert_eq!(gb.ppu.stat & 0x78, 0x78);
    assert_eq!(gb.read(0xFF41) & 0x80, 0x80);
}

#[test]
fn ly_is_read_only() {
    let mut gb = boot_skipped();
    let ly = gb.read(0xFF44);
    gb.write(0xFF44, 0x7F);
    assert_eq!(gb.read(0xFF44), ly);
}

#[test]
fn object_scan_selects_at_most_ten_in_priority_order() {
    let mut ppu = Ppu::default();
    ppu.lcdc = 0x91;
    // 14 sprites covering line 0 (sy = 16), columns descending
    for i in 0..14usize {
        ppu.oam[4 * i] = 16;
        ppu.oam[4 * i + 1] = (200 - 10 * i) as u8;
        ppu.oam[4 * i + 2] = i as u8;
        ppu.oam[4 * i + 3] = 0;
    }
    ppu.ly = 0;
    ppu.search_objects();
    assert_eq!(ppu.sprite_buffer_len, 10);
    // only the first ten table entries joined, ordered by falling column
    for w in 0..9usize {
        assert!(ppu.sprite_buffer[w].sx >= ppu.sprite_buffer[w + 1].sx);
    }
    // the back holds the smallest column among those selected
    assert_eq!(ppu.sprite_buffer[9].sx, 110);
}

#[test]
fn window_at_wx_zero_begins_at_the_first_pixel() {
    let mut ppu = Ppu::default();
    ppu.lcdc = 0xB1; // LCD on, window on, background on
    ppu.stat = 0x03; // drawing
    ppu.wx = 0;
    ppu.wy = 0;
    ppu.reach_window = true;
    ppu.is_in_window = false;
    ppu.state = 24;
    ppu.curr_x = 0;
    ppu.ly = 0;
    tick_lcd_fifo(&mut ppu, 0);
    assert!(ppu.is_in_window, "the window took over at the very first dot");
}

#[test]
fn fifo_orders_background_pixels_most_significant_first() {
    let mut fifo = PixelFifo::new();
    assert!(fifo.is_empty());
    // low = 0b01010101, high = 0b00110011
    fifo.push_background(0x55, 0x33);
    let expect = [0u8, 1, 2, 3, 0, 1, 2, 3];
    for e in expect {
        assert_eq!(fifo.pop_front(), Some(e));
    }
    assert_eq!(fifo.pop_front(), None);
}

#[test]
fn draw_tile_paints_shaded_pixels() {
    let mut ppu = Ppu::default();
    // tile 2: all pixels color 2 (low plane 0, high plane 0xFF)
    for row in 0..8usize {
        ppu.vram[2 * 0x10 + row * 2] = 0x00;
        ppu.vram[2 * 0x10 + row * 2 + 1] = 0xFF;
    }
    let mut canvas = Canvas::new(16, 16);
    // palette maps color 2 to shade 1
    draw_tile(&ppu, &mut canvas, 4, 4, 2, 0b0001_0000, false);
    assert_eq!(canvas.data[4 * 16 + 4], 1);
    assert_eq!(canvas.data[11 * 16 + 11], 1);
    assert_eq!(canvas.data[0], 0, "outside the tile nothing changed");
    // clipped drawing stays inside
    draw_tile(&ppu, &mut canvas, -4, -4, 2, 0b0001_0000, false);
    assert_eq!(canvas.data[3 * 16 + 3], 1);
}

#[test]
fn draw_scan_line_renders_one_row() {
    let mut ppu = Ppu::default();
    ppu.lcdc = 0x91;
    ppu.bgp = 0xE4;
    for a in 0x1800..0x1C00 {
        ppu.vram[a] = 0x01;
    }
    for a in 0x10..0x20 {
        ppu.vram[a] = 0xFF;
    }
    ppu.ly = 5;
    gameroy_core::ppu::draw_scan_line(&mut ppu);
    for x in 0..160usize {
        assert_eq!(ppu.screen[5 * 160 + x], 3);
    }
    for x in 0..160usize {
        assert_eq!(ppu.screen[6 * 160 + x], 0, "other rows untouched");
    }
}
