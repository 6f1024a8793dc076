//! Cycle-accurate core of a monochrome handheld game console emulator.
//!
//! The board (`gameboy`) owns the CPU, timer, picture processing unit,
//! cartridge and sound register file, and advances them in lock step by a
//! shared 64-bit clock counter.  The save-state codec (`save_state`)
//! serialises the whole machine byte by byte and is proved to round-trip.

pub mod cartridge;
pub mod cpu;
pub mod gameboy;
pub mod interpreter;
pub mod ppu;
pub mod save_state;
pub mod sound_controller;
