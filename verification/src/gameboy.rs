//! The board: the shared clock, the timer, and the bus that routes 16-bit
//! addresses to the cartridge, video RAM, work RAM, object attribute
//! memory, I/O registers, high RAM and the interrupt-enable register.

use vstd::prelude::*;

use crate::cartridge::Cartridge;
use crate::cpu::Cpu;
use crate::ppu::Ppu;
use crate::save_state::{
    load_u64, load_u8, save_u64, save_u8, u64_from_le, u64_le, LoadStateError,
};
use crate::sound_controller::SoundController;

verus! {

/// DIV/TIMA/TMA/TAC divider and timer unit.
///
/// `div` is the 16-bit internal counter; the visible DIV register is its
/// upper byte.  TIMA increments on every falling edge of the "counter
/// bit", which is bit `tap(tac)` of `div` masked by the TAC enable bit.
#[derive(Clone, Copy, Debug, PartialEq, Eq, Structural)]
pub struct Timer {
    pub div: u16,
    pub tima: u8,
    pub tma: u8,
    pub tac: u8,
    pub last_counter_bit: bool,
    /// The last clock cycle at which the timer was advanced.
    pub last_clock_count: u64,
}

/// Which bit of `div` the timer watches: 9, 3, 5 or 7, selected by the low
/// two bits of TAC (divider taps 1024, 16, 64, 256).
pub open spec fn spec_timer_tap(tac: u8) -> u16 {
    if tac & 3 == 0 {
        9
    } else if tac & 3 == 1 {
        3
    } else if tac & 3 == 2 {
        5
    } else {
        7
    }
}

/// The level the falling-edge detector watches: the tapped bit of `div`
/// ANDed with the TAC enable bit.
pub open spec fn spec_counter_bit(div: u16, tac: u8) -> bool {
    ((div >> spec_timer_tap(tac)) as u8) & (tac >> 2) & 1 != 0
}

/// One T-cycle of the timer: `div` increments (wrapping); on a falling
/// edge of the counter bit TIMA increments, reloading from TMA and
/// flagging an interrupt on overflow.  `last_clock_count` is untouched.
pub open spec fn spec_timer_step(t: Timer) -> (Timer, bool) {
    let div = if t.div == 0xFFFF {
        0u16
    } else {
        (t.div + 1) as u16
    };
    let bit = spec_counter_bit(div, t.tac);
    if t.last_counter_bit && !bit {
        if t.tima == 0xFF {
            (
                Timer {
                    div,
                    tima: t.tma,
                    last_counter_bit: bit,
                    ..t
                },
                true,
            )
        } else {
            (
                Timer {
                    div,
                    tima: (t.tima + 1) as u8,
                    last_counter_bit: bit,
                    ..t
                },
                false,
            )
        }
    } else {
        (
            Timer { div, last_counter_bit: bit, ..t },
            false,
        )
    }
}

/// `n` T-cycles of the timer; the flag is true when any of them overflowed
/// TIMA.
pub open spec fn spec_timer_advance(t: Timer, n: nat) -> (Timer, bool)
    decreases n,
{
    if n == 0 {
        (t, false)
    } else {
        let (t1, i1) = spec_timer_advance(t, (n - 1) as nat);
        let (t2, i2) = spec_timer_step(t1);
        (t2, i1 || i2)
    }
}

impl Default for Timer {
    /// The cold-boot timer: everything zero.
    fn default() -> (t: Timer)
        ensures
            t == (Timer {
                div: 0,
                tima: 0,
                tma: 0,
                tac: 0,
                last_counter_bit: false,
                last_clock_count: 0,
            }),
    {
        Timer { div: 0, tima: 0, tma: 0, tac: 0, last_counter_bit: false, last_clock_count: 0 }
    }
}

impl Timer {
    /// Advance the timer by one T-cycle at a time up to `clock_count`.
    /// Returns true when a TIMA overflow in that span asks for an
    /// interrupt.
    pub fn update(&mut self, clock_count: u64) -> (interrupt: bool)
        requires
            old(self).last_clock_count <= clock_count,
        ensures
            ({
                let (t, intr) = spec_timer_advance(
                    *old(self),
                    (clock_count - old(self).last_clock_count) as nat,
                );
                *final(self) == (Timer { last_clock_count: clock_count, ..t }) && interrupt == intr
            }),
    {
        let ghost t0 = *self;
        let mut interrupt = false;
        let mut c = self.last_clock_count;
        while c < clock_count
            invariant
                t0.last_clock_count <= c <= clock_count,
                spec_timer_advance(t0, (c - t0.last_clock_count) as nat) == (*self, interrupt),
            decreases clock_count - c,
        {
            self.div = if self.div == 0xFFFF {
                0
            } else {
                self.div + 1
            };

            let f: u16 = if self.tac & 3 == 0 {
                9
            } else if self.tac & 3 == 1 {
                3
            } else if self.tac & 3 == 2 {
                5
            } else {
                7
            };
            let counter_bit = ((self.div >> f) as u8) & (self.tac >> 2) & 1 != 0;

            if self.last_counter_bit && !counter_bit {
                if self.tima == 0xFF {
                    self.tima = self.tma;
                    interrupt = true;
                } else {
                    self.tima = self.tima + 1;
                }
            }
            self.last_counter_bit = counter_bit;
            c = c + 1;

            proof {
                let n = (c - t0.last_clock_count) as nat;
                assert(spec_timer_advance(t0, n) == (*self, interrupt));
            }
        }
        self.last_clock_count = clock_count;
        interrupt
    }

    /// DIV as the CPU sees it: the high byte of the internal counter.
    pub fn read_div(&self) -> (r: u8)
        ensures
            r == (self.div >> 8) as u8,
    {
        (self.div >> 8) as u8
    }

    /// Writing any value to DIV clears the whole internal counter.  If the
    /// counter bit was high, the falling-edge detector still holds it, so
    /// the next update surfaces the induced edge.
    pub fn write_div(&mut self, div: u8)
        ensures
            *final(self) == (Timer { div: 0, ..*old(self) }),
    {
        let _ = div;
        self.div = 0;
    }

    pub fn read_tima(&self) -> (r: u8)
        ensures
            r == self.tima,
    {
        self.tima
    }

    pub fn write_tima(&mut self, tima: u8)
        ensures
            *final(self) == (Timer { tima, ..*old(self) }),
    {
        self.tima = tima;
    }

    pub fn read_tma(&self) -> (r: u8)
        ensures
            r == self.tma,
    {
        self.tma
    }

    pub fn write_tma(&mut self, tma: u8)
        ensures
            *final(self) == (Timer { tma, ..*old(self) }),
    {
        self.tma = tma;
    }

    pub fn read_tac(&self) -> (r: u8)
        ensures
            r == self.tac,
    {
        self.tac
    }

    pub fn write_tac(&mut self, tac: u8)
        ensures
            *final(self) == (Timer { tac, ..*old(self) }),
    {
        self.tac = tac;
    }
}

/// The serialised form of the timer: div, tima, tma, tac, the detector
/// bit, then the clock of its last advance.
pub open spec fn spec_timer_bytes(t: Timer) -> Seq<u8> {
    crate::save_state::u16_le(t.div) + seq![t.tima, t.tma, t.tac, if t.last_counter_bit {
        1u8
    } else {
        0u8
    }] + u64_le(t.last_clock_count)
}

/// The timer encoded in 14 bytes (any byte whose low bit is set counts as
/// a set detector bit).
pub open spec fn spec_timer_parse(b: Seq<u8>) -> Timer {
    Timer {
        div: crate::save_state::u16_from_le(b[0], b[1]),
        tima: b[2],
        tma: b[3],
        tac: b[4],
        last_counter_bit: b[5] & 1 != 0,
        last_clock_count: u64_from_le(b.subrange(6, 14)),
    }
}

/// Decoding a timer's own serialisation gives the timer back.
pub proof fn lemma_timer_bytes_roundtrip(t: Timer)
    ensures
        spec_timer_parse(spec_timer_bytes(t)) == t,
{
    crate::save_state::lemma_u16_le_roundtrip(t.div);
    crate::save_state::lemma_u64_le_roundtrip(t.last_clock_count);
    assert(1u8 & 1 != 0 && 0u8 & 1 == 0) by (bit_vector);
    assert(spec_timer_bytes(t).subrange(6, 14) =~= u64_le(t.last_clock_count));
}

impl Timer {
    /// Append the 14-byte serialisation of the timer.
    pub fn save_state(&self, data: &mut Vec<u8>)
        ensures
            final(data)@ == old(data)@ + spec_timer_bytes(*self),
    {
        crate::save_state::save_u16(data, self.div);
        save_u8(data, self.tima);
        save_u8(data, self.tma);
        save_u8(data, self.tac);
        save_u8(data, if self.last_counter_bit {
            1
        } else {
            0
        });
        save_u64(data, self.last_clock_count);
        assert(data@ =~= old(data)@ + spec_timer_bytes(*self));
    }

    /// Read the timer back from its 14-byte serialisation.
    pub fn load_state(&mut self, data: &Vec<u8>, pos: &mut usize) -> (r: Result<
        (),
        LoadStateError,
    >)
        ensures
            *old(pos) + 14 <= data@.len() ==> r == Ok::<(), LoadStateError>(()) && *final(pos)
                == *old(pos) + 14 && *final(self) == spec_timer_parse(
                data@.subrange(*old(pos) as int, *old(pos) + 14),
            ),
            *old(pos) + 14 > data@.len() ==> r == Err::<(), LoadStateError>(
                LoadStateError::UnexpectedEof,
            ),
    {
        let ghost start = *pos;
        let div = match crate::save_state::load_u16(data, pos) {
            Ok(v) => v,
            Err(e) => return Err(e),
        };
        let tima = match load_u8(data, pos) {
            Ok(v) => v,
            Err(e) => return Err(e),
        };
        let tma = match load_u8(data, pos) {
            Ok(v) => v,
            Err(e) => return Err(e),
        };
        let tac = match load_u8(data, pos) {
            Ok(v) => v,
            Err(e) => return Err(e),
        };
        let bits = match load_u8(data, pos) {
            Ok(v) => v,
            Err(e) => return Err(e),
        };
        let last_clock_count = match load_u64(data, pos) {
            Ok(v) => v,
            Err(e) => return Err(e),
        };
        *self = Timer {
            div,
            tima,
            tma,
            tac,
            last_counter_bit: bits & 1 != 0,
            last_clock_count,
        };
        proof {
            let b = data@.subrange(start as int, start + 14);
            assert(b[0] == data@[start as int]);
            assert(b[1] == data@[start + 1]);
            assert(b[2] == data@[start + 2]);
            assert(b[3] == data@[start + 3]);
            assert(b[4] == data@[start + 4]);
            assert(b[5] == data@[start + 5]);
            assert(b.subrange(6, 14) =~= data@.subrange(start + 6, start + 14));
        }
        Ok(())
    }
}

/// The board: every sub-machine, the shared clock, and the bus.
///
/// The clock is the sole time base; `tick` advances it and pulls the
/// timer and the picture processing unit up to it, so any read that
/// follows observes their state at the current cycle.
pub struct GameBoy {
    pub cpu: Cpu,
    pub cartridge: Cartridge,
    /// 0xC000..0xE000: work RAM.
    pub wram: Vec<u8>,
    /// 0xFF80..0xFFFF: high RAM.
    pub hram: Vec<u8>,
    /// The 256-byte boot ROM, if one was provided.
    pub boot_rom: Option<Vec<u8>>,
    /// While set, the boot ROM shadows 0x0000..0x0100.  Cleared once,
    /// for good, by setting bit 0 of I/O register 0x50.
    pub boot_rom_active: bool,
    pub clock_count: u64,
    pub timer: Timer,
    pub sound: SoundController,
    pub ppu: Ppu,
    /// One bit per button, 0 = pressed; from bit 7 down: Start, Select,
    /// B, A, Down, Up, Left, Right.
    pub joypad: u8,
    /// 0xFF00: which joypad nibble is selected.
    pub joypad_io: u8,
    /// 0xFF01: serial data.
    pub serial_data: u8,
    /// 0xFF02: serial control.
    pub serial_control: u8,
    /// Every byte sent out the serial port, for the host to drain.
    pub serial_transfer: Vec<u8>,
    /// 0xFF0F: interrupt request bits; only the low five mean anything.
    pub interrupt_flag: u8,
    /// 0xFFFF: interrupt enable bits.
    pub interrupt_enabled: u8,
    /// Latched on the rising edge of vertical blank; the host clears it
    /// after taking the frame.
    pub v_blank: bool,
}

impl GameBoy {
    pub open spec fn wf(self) -> bool {
        &&& self.wram@.len() == 0x2000
        &&& self.hram@.len() == 0x7F
        &&& (self.boot_rom is Some ==> self.boot_rom->0@.len() == 0x100)
        &&& (self.boot_rom_active ==> self.boot_rom is Some)
        &&& self.cpu.wf()
        &&& self.cartridge.wf()
        &&& self.sound.wf()
        &&& self.ppu.wf()
        &&& self.timer.last_clock_count <= self.clock_count
    }

    /// The whole machine as the boot ROM hands it over: the documented
    /// register file, cleared memories but for the three seeded high-RAM
    /// bytes, the divider at 0xD2, every sub-machine at the fixed
    /// post-boot cycle, and the shadow lifted.  Only the live host-facing
    /// state (serial, interrupt registers, the frame flag) is carried
    /// over.
    pub open spec fn spec_post_boot(pre: GameBoy, post: GameBoy) -> bool {
        &&& post.cpu == (Cpu {
            a: 0x01,
            f: 0xB0,
            b: 0x00,
            c: 0x13,
            d: 0x00,
            e: 0xD8,
            h: 0x01,
            l: 0x4D,
            sp: 0xFFFE,
            pc: 0x0100,
            ime: crate::cpu::ImeState::Disabled,
            state: crate::cpu::CpuState::Running,
        })
        &&& post.cartridge == pre.cartridge
        &&& post.wram@ == Seq::new(0x2000, |i: int| 0u8)
        &&& post.hram@ == Seq::new(
            0x7F,
            |i: int|
                if i == 0x7A {
                    0x39u8
                } else if i == 0x7B {
                    0x01u8
                } else if i == 0x7C {
                    0x2Eu8
                } else {
                    0u8
                },
        )
        &&& post.boot_rom == pre.boot_rom
        &&& !post.boot_rom_active
        &&& post.clock_count == 23_384_580
        &&& post.timer == (Timer {
            div: 0xD2,
            tima: 0,
            tma: 0,
            tac: 0,
            last_counter_bit: false,
            last_clock_count: 23_384_580,
        })
        &&& post.sound@.regs == Seq::new(0x30, |i: int| 0u8)
        &&& post.sound@.last_clock == 23_384_580
        &&& post.ppu@ == crate::ppu::spec_ppu_after_boot()
        &&& post.joypad == 0xFF
        &&& post.joypad_io == 0x00
        &&& post.serial_data == pre.serial_data
        &&& post.serial_control == pre.serial_control
        &&& post.serial_transfer == pre.serial_transfer
        &&& post.interrupt_flag == pre.interrupt_flag
        &&& post.interrupt_enabled == pre.interrupt_enabled
        &&& post.v_blank == pre.v_blank
    }

    /// The whole machine cold-booted under a boot ROM: everything
    /// cleared, the clock at zero, the shadow active.  As with the
    /// post-boot reset, only the live host-facing state is carried over.
    pub open spec fn spec_cold_reset(pre: GameBoy, post: GameBoy) -> bool {
        &&& post.cpu == (Cpu {
            a: 0,
            f: 0,
            b: 0,
            c: 0,
            d: 0,
            e: 0,
            h: 0,
            l: 0,
            sp: 0,
            pc: 0,
            ime: crate::cpu::ImeState::Disabled,
            state: crate::cpu::CpuState::Running,
        })
        &&& post.cartridge == pre.cartridge
        &&& post.wram@ == Seq::new(0x2000, |i: int| 0u8)
        &&& post.hram@ == Seq::new(0x7F, |i: int| 0u8)
        &&& post.boot_rom == pre.boot_rom
        &&& post.boot_rom_active
        &&& post.clock_count == 0
        &&& post.timer == (Timer {
            div: 0,
            tima: 0,
            tma: 0,
            tac: 0,
            last_counter_bit: false,
            last_clock_count: 0,
        })
        &&& post.sound@.regs == Seq::new(0x30, |i: int| 0u8)
        &&& post.sound@.last_clock == 0
        &&& post.ppu@ == crate::ppu::spec_ppu_default()
        &&& post.joypad == 0xFF
        &&& post.joypad_io == 0x00
        &&& post.serial_data == pre.serial_data
        &&& post.serial_control == pre.serial_control
        &&& post.serial_transfer == pre.serial_transfer
        &&& post.interrupt_flag == pre.interrupt_flag
        &&& post.interrupt_enabled == pre.interrupt_enabled
        &&& post.v_blank == pre.v_blank
    }

    /// What a read of I/O register `0xFF00 + address` returns (with
    /// `address` 0xFF standing for the interrupt-enable register).
    pub open spec fn spec_read_io(self, address: u8) -> u8 {
        if address == 0x00 {
            // a select bit of 0 picks its nibble of the matrix
            (((self.joypad_io & 0x30) | 0xC0) | (if self.joypad_io & 0x10 == 0 {
                ((self.joypad & 0xF0) >> 4) as u8
            } else {
                0
            }) | (if self.joypad_io & 0x20 == 0 {
                (self.joypad & 0x0F) as u8
            } else {
                0
            })) as u8
        } else if address == 0x01 {
            self.serial_data
        } else if address == 0x02 {
            self.serial_control
        } else if address == 0x04 {
            (self.timer.div >> 8) as u8
        } else if address == 0x05 {
            self.timer.tima
        } else if address == 0x06 {
            self.timer.tma
        } else if address == 0x07 {
            self.timer.tac
        } else if address == 0x0F {
            // the upper three request bits read as set
            (self.interrupt_flag | 0xE0) as u8
        } else if Self::spec_sound_addr(address) {
            self.sound@.regs[address - 0x10]
        } else if address == 0x40 {
            self.ppu.lcdc
        } else if address == 0x41 {
            (self.ppu.stat | 0x80) as u8
        } else if address == 0x42 {
            self.ppu.scy
        } else if address == 0x43 {
            self.ppu.scx
        } else if address == 0x44 {
            self.ppu.ly
        } else if address == 0x45 {
            self.ppu.lyc
        } else if address == 0x47 {
            self.ppu.bgp
        } else if address == 0x48 {
            self.ppu.obp0
        } else if address == 0x49 {
            self.ppu.obp1
        } else if address == 0x4A {
            self.ppu.wy
        } else if address == 0x4B {
            self.ppu.wx
        } else if 0x80 <= address < 0xFF {
            self.hram@[address - 0x80]
        } else if address == 0xFF {
            self.interrupt_enabled
        } else {
            0xFF
        }
    }

    /// The echo region 0xE000..0xFE00 is the work RAM seen again 0x2000
    /// lower.
    pub open spec fn spec_echo(address: u16) -> u16 {
        if 0xE000 <= address <= 0xFDFF {
            (address - 0x2000) as u16
        } else {
            address
        }
    }

    /// What a read of the 16-bit bus returns: the boot ROM shadow, then
    /// the address map.
    pub open spec fn spec_read(self, address: u16) -> u8 {
        if self.boot_rom_active && address < 0x100 {
            if self.boot_rom is Some {
                self.boot_rom->0@[address as int]
            } else {
                0xFF
            }
        } else {
            let a = Self::spec_echo(address);
            if a < 0x8000 {
                self.cartridge.spec_read(a)
            } else if a < 0xA000 {
                self.ppu@.vram[a - 0x8000]
            } else if a < 0xC000 {
                self.cartridge.spec_read(a)
            } else if a < 0xE000 {
                self.wram@[a - 0xC000]
            } else if a < 0xFE00 {
                0xFF
            } else if a < 0xFEA0 {
                self.ppu@.oam[a - 0xFE00]
            } else if a < 0xFF00 {
                0xFF
            } else if a < 0xFF80 {
                self.spec_read_io((a - 0xFF00) as u8)
            } else if a < 0xFFFF {
                self.hram@[a - 0xFF80]
            } else {
                self.spec_read_io(0xFF)
            }
        }
    }

    /// Read one byte off the bus.  The board keeps the timer and the
    /// picture unit caught up to the clock in `tick`, so the values this
    /// reveals are those of the current cycle.
    pub fn read(&self, address: u16) -> (r: u8)
        requires
            self.wf(),
        ensures
            r == self.spec_read(address),
    {
        if self.boot_rom_active && address < 0x100 {
            return match &self.boot_rom {
                Some(rom) => rom[address as usize],
                None => 0xFF,
            };
        }
        let address = if 0xE000 <= address && address <= 0xFDFF {
            address - 0x2000
        } else {
            address
        };
        if address < 0x8000 {
            self.cartridge.read(address)
        } else if address < 0xA000 {
            self.ppu.vram[(address - 0x8000) as usize]
        } else if address < 0xC000 {
            self.cartridge.read(address)
        } else if address < 0xE000 {
            self.wram[(address - 0xC000) as usize]
        } else if address < 0xFE00 {
            0xFF
        } else if address < 0xFEA0 {
            self.ppu.oam[(address - 0xFE00) as usize]
        } else if address < 0xFF00 {
            0xFF
        } else if address < 0xFF80 {
            self.read_io((address - 0xFF00) as u8)
        } else if address < 0xFFFF {
            self.hram[(address - 0xFF80) as usize]
        } else {
            self.read_io(0xFF)
        }
    }

    /// Read an I/O register.
    pub fn read_io(&self, address: u8) -> (r: u8)
        requires
            self.wf(),
        ensures
            r == self.spec_read_io(address),
    {
        if address == 0x00 {
            proof {
                assert(forall|z: u8| #[trigger] (z | 0u8) == z) by (bit_vector);
            }
            let v = self.joypad_io;
            let mut r = (v & 0x30) | 0xC0;
            if v & 0x10 == 0 {
                r = r | ((self.joypad & 0xF0) >> 4);
            }
            if v & 0x20 == 0 {
                r = r | (self.joypad & 0x0F);
            }
            r
        } else if address == 0x01 {
            self.serial_data
        } else if address == 0x02 {
            self.serial_control
        } else if address == 0x04 {
            self.timer.read_div()
        } else if address == 0x05 {
            self.timer.read_tima()
        } else if address == 0x06 {
            self.timer.read_tma()
        } else if address == 0x07 {
            self.timer.read_tac()
        } else if address == 0x0F {
            self.interrupt_flag | 0xE0
        } else if (0x10 <= address && address <= 0x14) || (0x16 <= address && address <= 0x1E) || (
        0x20 <= address && address <= 0x26) || (0x30 <= address && address <= 0x3F) {
            self.sound.regs[(address - 0x10) as usize]
        } else if (0x40 <= address && address <= 0x45) || (0x47 <= address && address <= 0x4B) {
            self.ppu.read(address)
        } else if 0x80 <= address && address < 0xFF {
            self.hram[(address - 0x80) as usize]
        } else if address == 0xFF {
            self.interrupt_enabled
        } else {
            0xFF
        }
    }

    /// Fresh 8 KiB of work RAM, 127 bytes of high RAM.
    fn fresh_wram() -> (v: Vec<u8>)
        ensures
            v@ == Seq::new(0x2000, |i: int| 0u8),
    {
        let v: Vec<u8> = vec![0u8; 0x2000];
        proof {
            assert(v@ =~= Seq::new(0x2000, |i: int| 0u8));
        }
        v
    }

    fn fresh_hram() -> (v: Vec<u8>)
        ensures
            v@ == Seq::new(0x7F, |i: int| 0u8),
    {
        let v: Vec<u8> = vec![0u8; 0x7F];
        proof {
            assert(v@ =~= Seq::new(0x7F, |i: int| 0u8));
        }
        v
    }

    /// A board around a cartridge, cold-booted: with a boot ROM the
    /// machine starts at address 0 under its shadow, without one it
    /// starts as the boot ROM would have left it.
    pub fn new(boot_rom: Option<Vec<u8>>, cartridge: Cartridge) -> (gb: GameBoy)
        requires
            cartridge.wf(),
            boot_rom is Some ==> boot_rom->0@.len() == 0x100,
        ensures
            gb.wf(),
            gb.cartridge == cartridge,
            gb.boot_rom == boot_rom,
            gb.boot_rom_active == (boot_rom is Some),
            gb.serial_data == 0,
            gb.serial_control == 0,
            gb.serial_transfer@ == Seq::<u8>::empty(),
            gb.interrupt_flag == 0,
            gb.interrupt_enabled == 0,
            !gb.v_blank,
            // with a boot ROM the machine cold-boots under its shadow
            boot_rom is Some ==> gb.cpu == (Cpu {
                a: 0,
                f: 0,
                b: 0,
                c: 0,
                d: 0,
                e: 0,
                h: 0,
                l: 0,
                sp: 0,
                pc: 0,
                ime: crate::cpu::ImeState::Disabled,
                state: crate::cpu::CpuState::Running,
            }) && gb.wram@ == Seq::new(0x2000, |i: int| 0u8) && gb.hram@ == Seq::new(
                0x7F,
                |i: int| 0u8,
            ) && gb.clock_count == 0 && gb.timer == (Timer {
                div: 0,
                tima: 0,
                tma: 0,
                tac: 0,
                last_counter_bit: false,
                last_clock_count: 0,
            }) && gb.sound@.regs == Seq::new(0x30, |i: int| 0u8) && gb.sound@.last_clock == 0
                && gb.ppu@ == crate::ppu::spec_ppu_default() && gb.joypad == 0xFF && gb.joypad_io
                == 0xFF,
            // without one it starts where the boot ROM would have left it
            boot_rom is None ==> Self::spec_post_boot(gb, gb),
    {
        let has_boot = boot_rom.is_some();
        let mut gb = GameBoy {
            cpu: Cpu::default(),
            cartridge,
            wram: Self::fresh_wram(),
            hram: Self::fresh_hram(),
            boot_rom,
            boot_rom_active: true,
            clock_count: 0,
            timer: Timer::default(),
            sound: SoundController::new(),
            ppu: Ppu::default(),
            joypad: 0xFF,
            joypad_io: 0xFF,
            serial_data: 0,
            serial_control: 0,
            serial_transfer: Vec::new(),
            interrupt_flag: 0,
            interrupt_enabled: 0,
            v_blank: false,
        };
        if !has_boot {
            gb.reset_after_boot();
        }
        gb
    }

    /// Back to the starting state: the cold boot under the boot ROM
    /// where there is one, else the post-boot state.  The cartridge
    /// keeps its RAM, and the live host-facing state is left alone.
    pub fn reset(&mut self)
        requires
            old(self).wf(),
        ensures
            final(self).wf(),
            old(self).boot_rom is Some ==> Self::spec_cold_reset(*old(self), *final(self)),
            old(self).boot_rom is None ==> Self::spec_post_boot(*old(self), *final(self)),
    {
        if self.boot_rom.is_none() {
            self.reset_after_boot();
            return;
        }
        self.cpu = Cpu::default();
        self.wram = Self::fresh_wram();
        self.hram = Self::fresh_hram();
        self.boot_rom_active = true;
        self.clock_count = 0;
        self.timer = Timer::default();
        self.sound = SoundController::new();
        self.ppu = Ppu::default();
        self.joypad = 0xFF;
        self.joypad_io = 0x00;
    }

    /// The state the boot ROM hands over: registers set, the shadow
    /// lifted, the clock at the fixed post-boot cycle.
    pub fn reset_after_boot(&mut self)
        requires
            old(self).cartridge.wf(),
            old(self).boot_rom is Some ==> old(self).boot_rom->0@.len() == 0x100,
        ensures
            final(self).wf(),
            Self::spec_post_boot(*old(self), *final(self)),
    {
        self.cpu = Cpu {
            a: 0x01,
            f: 0xB0,
            b: 0x00,
            c: 0x13,
            d: 0x00,
            e: 0xD8,
            h: 0x01,
            l: 0x4D,
            sp: 0xFFFE,
            pc: 0x0100,
            ime: crate::cpu::ImeState::Disabled,
            state: crate::cpu::CpuState::Running,
        };
        proof {
            assert(0xB0u8 & 0x0F == 0) by (bit_vector);
        }
        self.wram = Self::fresh_wram();
        self.hram = Self::fresh_hram();
        self.hram[0x7A] = 0x39;
        self.hram[0x7B] = 0x01;
        self.hram[0x7C] = 0x2E;
        self.boot_rom_active = false;
        self.clock_count = 23_384_580;
        self.timer = Timer {
            div: 0xD2,
            tima: 0x00,
            tma: 0x00,
            tac: 0x00,
            last_counter_bit: false,
            last_clock_count: 23_384_580,
        };
        self.sound = SoundController::new();
        self.sound.update(23_384_580);
        self.ppu.reset_after_boot();
        self.joypad = 0xFF;
        self.joypad_io = 0x00;
        proof {
            assert(self.hram@ =~= Seq::new(
                0x7F,
                |i: int|
                    if i == 0x7A {
                        0x39u8
                    } else if i == 0x7B {
                        0x01u8
                    } else if i == 0x7C {
                        0x2Eu8
                    } else {
                        0u8
                    },
            ));
        }
    }

    /// Advance the clock by `count` T-cycles and pull the timer and the
    /// picture unit up to it; interrupt edges found on the way land in
    /// the request register, and a vertical-blank edge latches the frame
    /// flag.
    pub fn tick(&mut self, count: u8)
        requires
            old(self).wf(),
            old(self).clock_count + count <= u64::MAX - 512,
        ensures
            final(self).wf(),
            // the clock only moves forward
            final(self).clock_count == old(self).clock_count + count,
            // every sub-machine has caught up
            final(self).timer.last_clock_count == final(self).clock_count,
            final(self).ppu.next_clock_count >= final(self).clock_count,
            // the timer advanced cycle by cycle, flagging its overflows
            ({
                let (t, intr) = spec_timer_advance(
                    old(self).timer,
                    (old(self).clock_count + count - old(self).timer.last_clock_count) as nat,
                );
                final(self).timer == (Timer {
                    last_clock_count: (old(self).clock_count + count) as u64,
                    ..t
                }) && final(self).interrupt_flag & 4 == ((old(self).interrupt_flag & 4) | (
                if intr {
                    4u8
                } else {
                    0u8
                }))
            }),
            // request bits are only ever added here
            final(self).interrupt_flag & old(self).interrupt_flag == old(self).interrupt_flag,
            final(self).interrupt_flag & 0xF8 == old(self).interrupt_flag & 0xF8,
            // the sound controller is carried along to the same cycle
            final(self).sound == (SoundController {
                last_clock: final(self).clock_count,
                ..old(self).sound
            }),
            // nothing else moves
            *final(self) == (GameBoy {
                clock_count: final(self).clock_count,
                timer: final(self).timer,
                sound: final(self).sound,
                ppu: final(self).ppu,
                interrupt_flag: final(self).interrupt_flag,
                v_blank: final(self).v_blank,
                ..*old(self)
            }),
            final(self).ppu@.vram == old(self).ppu@.vram,
            final(self).ppu@.oam == old(self).ppu@.oam,
            final(self).ppu.lcdc == old(self).ppu.lcdc,
            final(self).ppu.scy == old(self).ppu.scy,
            final(self).ppu.scx == old(self).ppu.scx,
            final(self).ppu.lyc == old(self).ppu.lyc,
            final(self).ppu.bgp == old(self).ppu.bgp,
            final(self).ppu.obp0 == old(self).ppu.obp0,
            final(self).ppu.obp1 == old(self).ppu.obp1,
            final(self).ppu.wy == old(self).ppu.wy,
            final(self).ppu.wx == old(self).ppu.wx,
            // every pixel the frame gained is a shade
            forall|i: int|
                0 <= i < 0x5A00 && final(self).ppu@.screen[i] != old(self).ppu@.screen[i]
                    ==> final(self).ppu@.screen[i] < 4,
            // the frame flag only latches
            old(self).v_blank ==> final(self).v_blank,
    {
        self.clock_count = self.clock_count + count as u64;
        let timer_int = self.timer.update(self.clock_count);
        self.sound.update(self.clock_count);
        let ghost g0 = old(self).interrupt_flag;
        if timer_int {
            self.interrupt_flag = self.interrupt_flag | 4;
        }
        let ghost g1 = self.interrupt_flag;
        let (vb, st) = self.ppu.update(self.clock_count);
        if vb {
            self.v_blank = true;
            self.interrupt_flag = self.interrupt_flag | 1;
        }
        let ghost g2 = self.interrupt_flag;
        if st {
            self.interrupt_flag = self.interrupt_flag | 2;
        }
        proof {
            let g3 = self.interrupt_flag;
            assert((g0 | 4) & 4 == ((g0 & 4) | 4) && (g0 | 4) & g0 == g0 && (g0 | 4) & 0xF8 == g0
                & 0xF8) by (bit_vector);
            assert(g1 & 4 == ((g0 & 4) | (if timer_int {
                4u8
            } else {
                0u8
            })) && g1 & g0 == g0 && g1 & 0xF8 == g0 & 0xF8) by (bit_vector)
                requires
                    g1 == if timer_int {
                        (g0 | 4) as u8
                    } else {
                        g0
                    },
            ;
            assert(g2 & 4 == g1 & 4 && g2 & g1 == g1 && g2 & 0xF8 == g1 & 0xF8 && (g1 & g0 == g0
                ==> g2 & g0 == g0)) by (bit_vector)
                requires
                    g2 == if vb {
                        (g1 | 1) as u8
                    } else {
                        g1
                    },
            ;
            assert(g3 & 4 == g2 & 4 && g3 & g2 == g2 && g3 & 0xF8 == g2 & 0xF8 && (g2 & g0 == g0
                ==> g3 & g0 == g0) && (g2 & 4 == g1 & 4 ==> g3 & 4 == g1 & 4)) by (bit_vector)
                requires
                    g3 == if st {
                        (g2 | 2) as u8
                    } else {
                        g2
                    },
            ;
        }
    }

    /// Two bus writes, little-endian: the low byte at `address`, the
    /// high byte one above it (wrapping past 0xFFFF).
    pub fn write16(&mut self, address: u16, value: u16)
        requires
            old(self).wf(),
            old(self).clock_count <= u64::MAX - 512,
        ensures
            final(self).wf(),
            final(self).clock_count == old(self).clock_count,
            final(self).boot_rom_active ==> old(self).boot_rom_active,
            exists|mid: GameBoy|
                #[trigger] Self::spec_written(*old(self), mid, address, value as u8)
                    && Self::spec_written(
                    mid,
                    *final(self),
                    if address == 0xFFFF {
                        0u16
                    } else {
                        (address + 1) as u16
                    },
                    (value >> 8) as u8,
                ),
    {
        self.write(address, value as u8);
        let ghost mid = *self;
        self.write(
            if address == 0xFFFF {
                0u16
            } else {
                address + 1
            },
            (value >> 8) as u8,
        );
        proof {
            assert(Self::spec_written(*old(self), mid, address, value as u8));
        }
    }

    /// Write an I/O register.
    pub fn write_io(&mut self, address: u8, value: u8)
        requires
            old(self).wf(),
            old(self).clock_count <= u64::MAX - 512,
        ensures
            final(self).wf(),
            Self::spec_io_written(*old(self), *final(self), address, value),
    {
        if address == 0x00 {
            self.joypad_io = 0xCF | (value & 0x30);
        } else if address == 0x01 {
            self.serial_data = value;
        } else if address == 0x02 {
            self.serial_control = value;
            if value == 0x81 {
                // the host drains this queue: the one-shot transmit
                self.serial_transfer.push(self.serial_data);
            }
        } else if address == 0x04 {
            self.timer.write_div(value);
        } else if address == 0x05 {
            self.timer.write_tima(value);
        } else if address == 0x06 {
            self.timer.write_tma(value);
        } else if address == 0x07 {
            self.timer.write_tac(value);
        } else if address == 0x0F {
            self.interrupt_flag = value;
        } else if (0x10 <= address && address <= 0x14) || (0x16 <= address && address <= 0x1E) || (
        0x20 <= address && address <= 0x26) || (0x30 <= address && address <= 0x3F) {
            self.sound.write(self.clock_count, address, value);
        } else if (0x40 <= address && address <= 0x45) || (0x47 <= address && address <= 0x4B) {
            self.ppu.write(self.clock_count, address, value);
        } else if address == 0x46 {
            // OAM DMA: copy 160 bytes from `value << 8` into the object
            // table, complete within this write
            let src = (value as u16) * 0x100;
            let ghost pre = *old(self);
            let mut i: usize = 0;
            while i < 0xA0
                invariant
                    i <= 0xA0,
                    self.wf(),
                    src == (value as u16) * 0x100,
                    *self == (GameBoy { ppu: self.ppu, ..pre }),
                    self.ppu == (Ppu { oam: self.ppu.oam, ..pre.ppu }),
                    self.ppu@.oam.len() == 0xA0,
                    forall|j: int|
                        0 <= j < i ==> self.ppu@.oam[j] == pre.spec_read((src + j) as u16),
                    forall|j: int| i <= j < 0xA0 ==> self.ppu@.oam[j] == pre.ppu@.oam[j],
                decreases 0xA0 - i,
            {
                let b = self.read(src + i as u16);
                proof {
                    // the copy so far has only touched entries of the
                    // object table below `i`, which this read does not
                    // see
                    assert(self.spec_read((src + i) as u16) == pre.spec_read((src + i) as u16));
                }
                self.ppu.oam[i] = b;
                i += 1;
            }
            proof {
                assert(self.ppu@.oam =~= Seq::new(
                    0xA0,
                    |j: int| pre.spec_read(((value as u16) * 0x100 + j) as u16),
                ));
            }
        } else if address == 0x50 {
            if value & 1 != 0 {
                // the boot ROM shadow lifts for good
                self.boot_rom_active = false;
                self.cpu.pc = 0x100;
            }
        } else if 0x80 <= address && address < 0xFF {
            self.hram[(address - 0x80) as usize] = value;
        } else if address == 0xFF {
            self.interrupt_enabled = value;
        } else {
            // 0x03, 0x08..0x0E, 0x15, 0x1F, 0x27..0x2F, 0x4C..0x4F,
            // 0x51..0x7F: unmapped, writes are ignored
        }
    }

    /// The I/O addresses the sound controller answers.
    pub open spec fn spec_sound_addr(address: u8) -> bool {
        ||| 0x10 <= address <= 0x14
        ||| 0x16 <= address <= 0x1E
        ||| 0x20 <= address <= 0x26
        ||| 0x30 <= address <= 0x3F
    }

    /// The I/O addresses that ignore writes.
    pub open spec fn spec_io_ignored(address: u8) -> bool {
        ||| address == 0x03
        ||| 0x08 <= address <= 0x0E
        ||| address == 0x15
        ||| address == 0x1F
        ||| 0x27 <= address <= 0x2F
        ||| 0x4C <= address <= 0x4F
        ||| 0x51 <= address <= 0x7F
    }

    /// What writing I/O register `0xFF00 + address` (0xFF standing for
    /// the interrupt-enable register) leaves behind.
    pub open spec fn spec_io_written(pre: GameBoy, post: GameBoy, address: u8, value: u8) -> bool {
        &&& post.clock_count == pre.clock_count
        &&& (post.boot_rom_active ==> pre.boot_rom_active)
        &&& (address == 0x00 ==> post == (GameBoy {
            joypad_io: (0xCF | (value & 0x30)) as u8,
            ..pre
        }))
        &&& (address == 0x01 ==> post == (GameBoy { serial_data: value, ..pre }))
        &&& (address == 0x02 ==> post == (GameBoy {
            serial_control: value,
            serial_transfer: post.serial_transfer,
            ..pre
        }) && (value == 0x81 ==> post.serial_transfer@ == pre.serial_transfer@.push(
            pre.serial_data,
        )) && (value != 0x81 ==> post.serial_transfer@ == pre.serial_transfer@))
        &&& (address == 0x04 ==> post == (GameBoy {
            timer: (Timer { div: 0, ..pre.timer }),
            ..pre
        }))
        &&& (address == 0x05 ==> post == (GameBoy {
            timer: (Timer { tima: value, ..pre.timer }),
            ..pre
        }))
        &&& (address == 0x06 ==> post == (GameBoy {
            timer: (Timer { tma: value, ..pre.timer }),
            ..pre
        }))
        &&& (address == 0x07 ==> post == (GameBoy {
            timer: (Timer { tac: value, ..pre.timer }),
            ..pre
        }))
        &&& (address == 0x0F ==> post == (GameBoy { interrupt_flag: value, ..pre }))
        &&& (Self::spec_sound_addr(address) ==> post == (GameBoy { sound: post.sound, ..pre })
            && post.sound@.regs == pre.sound@.regs.update(address - 0x10, value)
            && post.sound@.last_clock == pre.clock_count)
        &&& ((0x40 <= address <= 0x45 || 0x47 <= address <= 0x4B) ==> post == (GameBoy {
            ppu: post.ppu,
            ..pre
        }) && post.ppu@.vram == pre.ppu@.vram && post.ppu@.oam == pre.ppu@.oam && (address == 0x40
            ==> post.ppu.lcdc == value) && (address == 0x42 ==> post.ppu.scy == value) && (address
            == 0x43 ==> post.ppu.scx == value) && (address == 0x45 ==> post.ppu.lyc == value) && (
        address == 0x47 ==> post.ppu.bgp == value) && (address == 0x48 ==> post.ppu.obp0 == value)
            && (address == 0x49 ==> post.ppu.obp1 == value) && (address == 0x4A ==> post.ppu.wy
            == value) && (address == 0x4B ==> post.ppu.wx == value) && (address == 0x40 && value
            & 0x80 == 0 ==> post.ppu.ly == 0 && post.ppu.stat & 3 == 0 && post.ppu.state == 0) && (
        address == 0x40 && value & 0x80 == 0 && pre.ppu.lcdc & 0x80 != 0
            ==> post.ppu.line_start_clock_count == 0) && (address == 0x40 && value & 0x80 != 0
            && pre.ppu.lcdc & 0x80 == 0 ==> post.ppu.ly == 0 && post.ppu.stat & 3 == 0
            && post.ppu.state == 0 && post.ppu.next_clock_count == pre.clock_count
            && post.ppu.ly_for_compare == 0) && (pre.ppu.lcdc & 0x80 != 0
            && pre.ppu.next_clock_count >= pre.clock_count
            ==> post.ppu@ == crate::ppu::spec_ppu_reg_written(
            crate::ppu::spec_ppu_refreshed(pre.ppu@),
            pre.clock_count,
            address,
            value,
        )) && (pre.ppu.lcdc & 0x80 == 0 ==> post.ppu@ == crate::ppu::spec_ppu_reg_written(
            (crate::ppu::PpuModel { next_clock_count: pre.clock_count, ..pre.ppu@ }),
            pre.clock_count,
            address,
            value,
        )))
        &&& (address == 0x46 ==> post == (GameBoy { ppu: post.ppu, ..pre }) && post.ppu == (Ppu {
            oam: post.ppu.oam,
            ..pre.ppu
        }) && post.ppu@.oam == Seq::new(
            0xA0,
            |i: int| pre.spec_read(((value as u16) * 0x100 + i) as u16),
        ))
        &&& (address == 0x50 ==> (value & 1 != 0 ==> post == (GameBoy {
            boot_rom_active: false,
            cpu: (Cpu { pc: 0x100, ..pre.cpu }),
            ..pre
        })) && (value & 1 == 0 ==> post == pre))
        &&& (0x80 <= address < 0xFF ==> post == (GameBoy { hram: post.hram, ..pre })
            && post.hram@ == pre.hram@.update(address - 0x80, value))
        &&& (address == 0xFF ==> post == (GameBoy { interrupt_enabled: value, ..pre }))
        &&& (Self::spec_io_ignored(address) ==> post == pre)
    }

    /// What one bus write leaves behind, by region of the (echo-folded)
    /// address.
    pub open spec fn spec_written(pre: GameBoy, post: GameBoy, address: u16, value: u8) -> bool {
        let a = Self::spec_echo(address);
        &&& post.clock_count == pre.clock_count
        &&& (post.boot_rom_active ==> pre.boot_rom_active)
        &&& (a < 0x8000 ==> post == pre)
        &&& (0x8000 <= a < 0xA000 ==> post == (GameBoy { ppu: post.ppu, ..pre }) && post.ppu
            == (Ppu { vram: post.ppu.vram, ..pre.ppu }) && post.ppu@.vram == pre.ppu@.vram.update(
            a - 0x8000,
            value,
        ))
        &&& (0xA000 <= a < 0xC000 ==> post == (GameBoy { cartridge: post.cartridge, ..pre })
            && post.cartridge@.rom == pre.cartridge@.rom && post.cartridge@.ram
            == pre.cartridge@.ram.update(a - 0xA000, value))
        &&& (0xC000 <= a < 0xE000 ==> post == (GameBoy { wram: post.wram, ..pre }) && post.wram@
            == pre.wram@.update(a - 0xC000, value))
        &&& (0xFE00 <= a < 0xFEA0 ==> post == (GameBoy { ppu: post.ppu, ..pre }) && post.ppu
            == (Ppu { oam: post.ppu.oam, ..pre.ppu }) && post.ppu@.oam == pre.ppu@.oam.update(
            a - 0xFE00,
            value,
        ))
        &&& (0xFEA0 <= a < 0xFF00 ==> post == pre)
        &&& (0xFF00 <= a < 0xFF80 ==> Self::spec_io_written(pre, post, (a - 0xFF00) as u8, value))
        &&& (0xFF80 <= a < 0xFFFF ==> post == (GameBoy { hram: post.hram, ..pre }) && post.hram@
            == pre.hram@.update(a - 0xFF80, value))
        &&& (a == 0xFFFF ==> Self::spec_io_written(pre, post, 0xFF, value))
    }

    /// Write one byte over the bus.
    pub fn write(&mut self, address: u16, value: u8)
        requires
            old(self).wf(),
            old(self).clock_count <= u64::MAX - 512,
        ensures
            final(self).wf(),
            Self::spec_written(*old(self), *final(self), address, value),
    {
        let address = if 0xE000 <= address && address <= 0xFDFF {
            address - 0x2000
        } else {
            address
        };
        if address < 0x8000 {
            self.cartridge.write(address, value);
        } else if address < 0xA000 {
            self.ppu.vram[(address - 0x8000) as usize] = value;
        } else if address < 0xC000 {
            self.cartridge.write(address, value);
        } else if address < 0xE000 {
            self.wram[(address - 0xC000) as usize] = value;
        } else if address < 0xFE00 {
            // the echo rewrite leaves nothing here
        } else if address < 0xFEA0 {
            self.ppu.oam[(address - 0xFE00) as usize] = value;
        } else if address < 0xFF00 {
            // unusable: writes are ignored
        } else if address < 0xFF80 {
            self.write_io((address - 0xFF00) as u8, value);
        } else if address < 0xFFFF {
            self.hram[(address - 0xFF80) as usize] = value;
        } else {
            self.write_io(0xFF, value);
        }
    }

    /// Two bus reads, little-endian.
    pub fn read16(&self, address: u16) -> (r: u16)
        requires
            self.wf(),
        ensures
            r == crate::save_state::u16_from_le(
                self.spec_read(address),
                self.spec_read((address + 1) as u16 & 0xFFFF),
            ),
    {
        let lo = self.read(address);
        let hi = self.read(if address == 0xFFFF {
            0u16
        } else {
            address + 1
        });
        proof {
            let a = address;
            assert((a != 0xFFFF ==> ((a + 1) as u16 & 0xFFFF) == a + 1) && (a == 0xFFFF ==> ((
            a + 1) as u16 & 0xFFFF) == 0)) by (bit_vector);
        }
        lo as u16 | ((hi as u16) << 8)
    }
}

/// The view of the optional boot ROM.
pub open spec fn spec_boot_rom_view(b: Option<Vec<u8>>) -> Option<Seq<u8>> {
    match b {
        Some(v) => Some(v@),
        None => None,
    }
}

impl PartialEq for GameBoy {
    /// Two boards are equal when every piece of machine state a snapshot
    /// covers agrees, together with the boot ROM; the host-facing queues
    /// (serial output, the frame flag) and the live interrupt registers
    /// stay out of the comparison.
    fn eq(&self, other: &GameBoy) -> (r: bool) {
        let boot_eq = match (&self.boot_rom, &other.boot_rom) {
            (Some(a), Some(b)) => crate::save_state::bytes_eq(a, b),
            (None, None) => true,
            _ => false,
        };
        self.cpu == other.cpu && self.cartridge == other.cartridge
            && crate::save_state::bytes_eq(&self.wram, &other.wram) && crate::save_state::bytes_eq(
            &self.hram,
            &other.hram,
        ) && boot_eq && self.boot_rom_active == other.boot_rom_active && self.clock_count
            == other.clock_count && self.timer == other.timer && self.sound == other.sound
            && self.ppu == other.ppu && self.joypad == other.joypad && self.joypad_io
            == other.joypad_io
    }
}

impl vstd::std_specs::cmp::PartialEqSpecImpl for GameBoy {
    open spec fn obeys_eq_spec() -> bool {
        true
    }

    open spec fn eq_spec(&self, other: &GameBoy) -> bool {
        &&& self.cpu == other.cpu
        &&& self.cartridge@ == other.cartridge@
        &&& self.wram@ == other.wram@
        &&& self.hram@ == other.hram@
        &&& spec_boot_rom_view(self.boot_rom) == spec_boot_rom_view(other.boot_rom)
        &&& self.boot_rom_active == other.boot_rom_active
        &&& self.clock_count == other.clock_count
        &&& self.timer == other.timer
        &&& self.sound@ == other.sound@
        &&& self.ppu@ == other.ppu@
        &&& self.joypad == other.joypad
        &&& self.joypad_io == other.joypad_io
    }
}

/// The serialised form of the whole machine: the register file, the
/// cartridge RAM, the two board memories, the boot flag, the clock, the
/// timer, the sound registers pinned at the board's clock, the LCD
/// controller, and the joypad pair.  The interrupt registers and the
/// host-facing queues are live state, not machine snapshot, and stay
/// out.
pub open spec fn spec_gb_bytes(gb: GameBoy) -> Seq<u8> {
    crate::cpu::spec_cpu_bytes(gb.cpu) + gb.cartridge@.ram + gb.wram@ + gb.hram@ + seq![
        if gb.boot_rom_active {
            1u8
        } else {
            0u8
        },
    ] + u64_le(gb.clock_count) + spec_timer_bytes(gb.timer) + gb.sound@.regs + u64_le(
        gb.clock_count,
    ) + crate::ppu::spec_ppu_bytes(gb.ppu@) + seq![gb.joypad, gb.joypad_io]
}

/// How many bytes a machine snapshot takes.
pub const GB_STATE_BYTES: usize = 14 + 0x2000 + 0x2000 + 0x7F + 1 + 8 + 14 + 0x30 + 8
    + crate::ppu::PPU_STATE_BYTES + 2;

/// What loading the snapshot `b` into the machine `pre` leaves behind:
/// every serialised field decoded, the rest (the ROMs, the live
/// interrupt registers, the host queues) kept.
pub open spec fn spec_gb_loaded(pre: GameBoy, b: Seq<u8>, post: GameBoy) -> bool {
    &&& post.cpu == crate::cpu::spec_cpu_parse(b.subrange(0, 14))
    &&& post.cartridge@.rom == pre.cartridge@.rom
    &&& post.cartridge@.ram == b.subrange(14, 0x200E)
    &&& post.wram@ == b.subrange(0x200E, 0x400E)
    &&& post.hram@ == b.subrange(0x400E, 0x408D)
    &&& post.boot_rom == pre.boot_rom
    &&& post.boot_rom_active == (b[0x408D] & 1 != 0)
    &&& post.clock_count == u64_from_le(b.subrange(0x408E, 0x4096))
    &&& post.timer == spec_timer_parse(b.subrange(0x4096, 0x40A4))
    &&& post.sound@.regs == b.subrange(0x40A4, 0x40D4)
    &&& post.sound@.last_clock == u64_from_le(b.subrange(0x40D4, 0x40DC))
    &&& post.ppu@ == crate::ppu::spec_ppu_parse(
        b.subrange(0x40DC, 0x40DC + crate::ppu::PPU_STATE_BYTES as int),
    )
    &&& post.joypad == b[0x40DC + crate::ppu::PPU_STATE_BYTES as int]
    &&& post.joypad_io == b[0x40DD + crate::ppu::PPU_STATE_BYTES as int]
    &&& post.serial_data == pre.serial_data
    &&& post.serial_control == pre.serial_control
    &&& post.serial_transfer == pre.serial_transfer
    &&& post.interrupt_flag == pre.interrupt_flag
    &&& post.interrupt_enabled == pre.interrupt_enabled
    &&& post.v_blank == pre.v_blank
}

impl GameBoy {
    /// Append the snapshot of the whole machine, the sound controller
    /// pinned at the current clock as the codec demands.
    #[verifier::loop_isolation(false)]
    pub fn save_state(&self, data: &mut Vec<u8>)
        requires
            self.wf(),
        ensures
            final(data)@ == old(data)@ + spec_gb_bytes(*self),
    {
        let ghost h0 = old(data)@;
        self.cpu.save_state(data);
        self.cartridge.save_state(data);
        crate::save_state::save_bytes(data, &self.wram);
        crate::save_state::save_bytes(data, &self.hram);
        let ghost p1 = crate::cpu::spec_cpu_bytes(self.cpu) + self.cartridge@.ram + self.wram@
            + self.hram@;
        proof {
            assert(data@ =~= h0 + p1);
        }
        save_u8(data, if self.boot_rom_active {
            1
        } else {
            0
        });
        save_u64(data, self.clock_count);
        self.timer.save_state(data);
        let ghost p2 = p1 + seq![
            if self.boot_rom_active {
                1u8
            } else {
                0u8
            },
        ] + u64_le(self.clock_count) + spec_timer_bytes(self.timer);
        proof {
            assert(data@ =~= h0 + p2);
        }
        // the sound controller is serialised as caught up to the clock
        crate::save_state::save_bytes(data, &self.sound.regs);
        save_u64(data, self.clock_count);
        let ghost p3 = p2 + self.sound@.regs + u64_le(self.clock_count);
        proof {
            assert(data@ =~= h0 + p3);
        }
        self.ppu.save_state(data);
        let ghost p4 = p3 + crate::ppu::spec_ppu_bytes(self.ppu@);
        proof {
            assert(data@ =~= h0 + p4);
        }
        save_u8(data, self.joypad);
        save_u8(data, self.joypad_io);
        let ghost p5 = p4 + seq![self.joypad, self.joypad_io];
        proof {
            assert(data@ =~= h0 + p5);
            assert(p5 == spec_gb_bytes(*self));
        }
    }

    /// Read the whole machine back from a snapshot.  The sound
    /// controller must arrive at the board's clock, no sub-machine may
    /// arrive ahead of it, and the LCD controller must decode to a state
    /// its dot machine can stand in; otherwise the machine is left
    /// unspecified and the caller must discard it.
    #[verifier::rlimit(100)]
    pub fn load_state(&mut self, data: &Vec<u8>, pos: &mut usize) -> (r: Result<
        (),
        LoadStateError,
    >)
        requires
            old(self).wf(),
        ensures
            ({
                let enough = *old(pos) + GB_STATE_BYTES as int <= data@.len();
                let b = data@.subrange(*old(pos) as int, *old(pos) + GB_STATE_BYTES as int);
                let active = b[0x408D] & 1 != 0;
                let clock = u64_from_le(b.subrange(0x408E, 0x4096));
                let timer = spec_timer_parse(b.subrange(0x4096, 0x40A4));
                let sound_clock = u64_from_le(b.subrange(0x40D4, 0x40DC));
                let pm = crate::ppu::spec_ppu_parse(
                    b.subrange(0x40DC, 0x40DC + crate::ppu::PPU_STATE_BYTES as int),
                );
                let boot_ok = !(active && old(self).boot_rom is None);
                let timer_ok = timer.last_clock_count <= clock;
                let sound_ok = sound_clock == clock;
                let ppu_ok = crate::ppu::spec_ppu_wf(pm);
                &&& !enough ==> r == Err::<(), LoadStateError>(LoadStateError::UnexpectedEof)
                &&& (enough && !boot_ok) ==> r == Err::<(), LoadStateError>(
                    LoadStateError::MissingBootRom,
                )
                &&& (enough && boot_ok && !timer_ok) ==> r == Err::<(), LoadStateError>(
                    LoadStateError::ClockBackwards,
                )
                &&& (enough && boot_ok && timer_ok && !sound_ok) ==> r == Err::<(
                    ),
                    LoadStateError,
                >(LoadStateError::SoundControllerDesync(sound_clock, clock))
                &&& (enough && boot_ok && timer_ok && sound_ok && !ppu_ok) ==> r == Err::<(
                    ),
                    LoadStateError,
                >(LoadStateError::InvalidPpuMode(pm.state))
                &&& (enough && boot_ok && timer_ok && sound_ok && ppu_ok) ==> (r == Ok::<(
                    ),
                    LoadStateError,
                >(()) && *final(pos) == *old(pos) + GB_STATE_BYTES as int && spec_gb_loaded(
                    *old(self),
                    b,
                    *final(self),
                ) && final(self).wf())
            }),
            final(self).cartridge@.rom == old(self).cartridge@.rom,
            final(self).boot_rom == old(self).boot_rom,
    {
        if *pos > data.len() || data.len() - *pos < GB_STATE_BYTES {
            return Err(LoadStateError::UnexpectedEof);
        }
        let ghost start = *pos;
        let ghost b = data@.subrange(start as int, start + GB_STATE_BYTES as int);
        proof {
            assert(b[0x408D] == data@[start + 0x408D]);
            assert(b.subrange(0x408E, 0x4096) =~= data@.subrange(start + 0x408E, start + 0x4096));
            assert(b.subrange(0x4096, 0x40A4) =~= data@.subrange(start + 0x4096, start + 0x40A4));
            assert(b.subrange(0x40D4, 0x40DC) =~= data@.subrange(start + 0x40D4, start + 0x40DC));
            assert(b.subrange(0x40DC, 0x40DC + crate::ppu::PPU_STATE_BYTES as int)
                =~= data@.subrange(
                start + 0x40DC,
                start + 0x40DC + crate::ppu::PPU_STATE_BYTES as int,
            ));
        }

        match self.cpu.load_state(data, pos) {
            Ok(()) => {},
            Err(e) => return Err(e),
        }
        match self.cartridge.load_state(data, pos) {
            Ok(()) => {},
            Err(e) => return Err(e),
        }
        match crate::save_state::load_bytes(data, pos, &mut self.wram) {
            Ok(()) => {},
            Err(e) => return Err(e),
        }
        match crate::save_state::load_bytes(data, pos, &mut self.hram) {
            Ok(()) => {},
            Err(e) => return Err(e),
        }
        let active = match load_u8(data, pos) {
            Ok(v) => v,
            Err(e) => return Err(e),
        };
        self.boot_rom_active = active & 1 != 0;
        if self.boot_rom_active && self.boot_rom.is_none() {
            // the shadow cannot be restored without a boot ROM behind it
            return Err(LoadStateError::MissingBootRom);
        }
        let clock = match load_u64(data, pos) {
            Ok(v) => v,
            Err(e) => return Err(e),
        };
        self.clock_count = clock;
        match self.timer.load_state(data, pos) {
            Ok(()) => {},
            Err(e) => return Err(e),
        }
        if self.timer.last_clock_count > self.clock_count {
            // a sub-machine may not arrive ahead of the board
            return Err(LoadStateError::ClockBackwards);
        }
        match self.sound.load_state(data, pos) {
            Ok(()) => {},
            Err(e) => return Err(e),
        }
        if self.sound.last_clock != self.clock_count {
            return Err(
                LoadStateError::SoundControllerDesync(self.sound.last_clock, self.clock_count),
            );
        }
        match self.ppu.load_state(data, pos) {
            Ok(()) => {},
            Err(e) => return Err(e),
        }
        let joypad = match load_u8(data, pos) {
            Ok(v) => v,
            Err(e) => return Err(e),
        };
        self.joypad = joypad;
        let joypad_io = match load_u8(data, pos) {
            Ok(v) => v,
            Err(e) => return Err(e),
        };
        self.joypad_io = joypad_io;
        proof {
            assert(b.subrange(0, 14) =~= data@.subrange(start as int, start + 14));
            assert(b.subrange(14, 0x200E) =~= data@.subrange(start + 14, start + 0x200E));
            assert(b.subrange(0x200E, 0x400E) =~= data@.subrange(
                start + 0x200E,
                start + 0x400E,
            ));
            assert(b.subrange(0x400E, 0x408D) =~= data@.subrange(
                start + 0x400E,
                start + 0x408D,
            ));
            assert(b.subrange(0x408E, 0x4096) =~= data@.subrange(
                start + 0x408E,
                start + 0x4096,
            ));
            assert(b.subrange(0x4096, 0x40A4) =~= data@.subrange(
                start + 0x4096,
                start + 0x40A4,
            ));
            assert(b.subrange(0x40A4, 0x40D4) =~= data@.subrange(
                start + 0x40A4,
                start + 0x40D4,
            ));
            assert(b.subrange(0x40D4, 0x40DC) =~= data@.subrange(
                start + 0x40D4,
                start + 0x40DC,
            ));
            assert(b.subrange(0x40DC, 0x40DC + crate::ppu::PPU_STATE_BYTES as int)
                =~= data@.subrange(
                start + 0x40DC,
                start + 0x40DC + crate::ppu::PPU_STATE_BYTES as int,
            ));
            assert(b[0x408D] == data@[start + 0x408D]);
            assert(b[0x40DC + crate::ppu::PPU_STATE_BYTES as int] == data@[start + 0x40DC
                + crate::ppu::PPU_STATE_BYTES as int]);
            assert(b[0x40DD + crate::ppu::PPU_STATE_BYTES as int] == data@[start + 0x40DD
                + crate::ppu::PPU_STATE_BYTES as int]);
        }
        Ok(())
    }
}

/// A read anywhere in the echo region answers with the work RAM byte
/// 0x2000 below it, whatever the machine holds.
pub proof fn lemma_echo_read(gb: GameBoy, offset: u16)
    requires
        offset <= 0x1DFF,
    ensures
        gb.spec_read((0xE000 + offset) as u16) == gb.spec_read((0xC000 + offset) as u16),
{
}

/// A well-formed machine's own snapshot passes every acceptance check
/// of the loader: so loading it into any machine that holds a boot ROM
/// whenever the snapshot's shadow is active is owed an Ok.
pub proof fn lemma_own_snapshot_accepted(gb: GameBoy)
    requires
        gb.wf(),
    ensures
        ({
            let b = spec_gb_bytes(gb);
            &&& b.len() == GB_STATE_BYTES as int
            &&& (b[0x408D] & 1 != 0) == gb.boot_rom_active
            &&& spec_timer_parse(b.subrange(0x4096, 0x40A4)).last_clock_count <= u64_from_le(
                b.subrange(0x408E, 0x4096),
            )
            &&& u64_from_le(b.subrange(0x40D4, 0x40DC)) == u64_from_le(
                b.subrange(0x408E, 0x4096),
            )
            &&& crate::ppu::spec_ppu_wf(
                crate::ppu::spec_ppu_parse(
                    b.subrange(0x40DC, 0x40DC + crate::ppu::PPU_STATE_BYTES as int),
                ),
            )
        }),
{
    lemma_gb_bytes_layout(gb);
    lemma_timer_bytes_roundtrip(gb.timer);
    crate::save_state::lemma_u64_le_roundtrip(gb.clock_count);
    crate::ppu::lemma_ppu_bytes_roundtrip(gb.ppu@);
    assert(1u8 & 1 != 0 && 0u8 & 1 == 0) by (bit_vector);
}

/// Decoding a machine's own snapshot, into any machine that shares its
/// ROMs, rebuilds the machine: so a snapshot taken right after loading
/// one is identical to the snapshot loaded, byte for byte.
pub proof fn lemma_save_load_save(gb: GameBoy, pre: GameBoy, loaded: GameBoy)
    requires
        gb.wf(),
        spec_gb_loaded(pre, spec_gb_bytes(gb), loaded),
    ensures
        spec_gb_bytes(loaded) == spec_gb_bytes(gb),
{
    let b = spec_gb_bytes(gb);
    lemma_gb_bytes_layout(gb);
    assert(1u8 & 1 != 0 && 0u8 & 1 == 0) by (bit_vector);
    crate::cpu::lemma_cpu_bytes_roundtrip(gb.cpu);
    lemma_timer_bytes_roundtrip(gb.timer);
    crate::save_state::lemma_u64_le_roundtrip(gb.clock_count);
    crate::ppu::lemma_ppu_bytes_roundtrip(gb.ppu@);
    assert(spec_gb_bytes(loaded) =~= spec_gb_bytes(gb));
}

/// Where each field of a machine snapshot lands.
pub proof fn lemma_gb_bytes_layout(gb: GameBoy)
    requires
        gb.wf(),
    ensures
        spec_gb_bytes(gb).len() == GB_STATE_BYTES as int,
        spec_gb_bytes(gb).subrange(0, 14) == crate::cpu::spec_cpu_bytes(gb.cpu),
        spec_gb_bytes(gb).subrange(14, 0x200E) == gb.cartridge@.ram,
        spec_gb_bytes(gb).subrange(0x200E, 0x400E) == gb.wram@,
        spec_gb_bytes(gb).subrange(0x400E, 0x408D) == gb.hram@,
        spec_gb_bytes(gb)[0x408D] == (if gb.boot_rom_active {
            1u8
        } else {
            0u8
        }),
        spec_gb_bytes(gb).subrange(0x408E, 0x4096) == u64_le(gb.clock_count),
        spec_gb_bytes(gb).subrange(0x4096, 0x40A4) == spec_timer_bytes(gb.timer),
        spec_gb_bytes(gb).subrange(0x40A4, 0x40D4) == gb.sound@.regs,
        spec_gb_bytes(gb).subrange(0x40D4, 0x40DC) == u64_le(gb.clock_count),
        spec_gb_bytes(gb).subrange(0x40DC, 0x40DC + crate::ppu::PPU_STATE_BYTES as int)
            == crate::ppu::spec_ppu_bytes(gb.ppu@),
        spec_gb_bytes(gb)[0x40DC + crate::ppu::PPU_STATE_BYTES as int] == gb.joypad,
        spec_gb_bytes(gb)[0x40DD + crate::ppu::PPU_STATE_BYTES as int] == gb.joypad_io,
{
    let b = spec_gb_bytes(gb);
    assert(crate::cpu::spec_cpu_bytes(gb.cpu).len() == 14);
    assert(spec_timer_bytes(gb.timer).len() == 14);
    crate::ppu::lemma_ppu_bytes_len(gb.ppu@);
    assert(b.subrange(0, 14) =~= crate::cpu::spec_cpu_bytes(gb.cpu));
    assert(b.subrange(14, 0x200E) =~= gb.cartridge@.ram);
    assert(b.subrange(0x200E, 0x400E) =~= gb.wram@);
    assert(b.subrange(0x400E, 0x408D) =~= gb.hram@);
    assert(b.subrange(0x408E, 0x4096) =~= u64_le(gb.clock_count));
    assert(b.subrange(0x4096, 0x40A4) =~= spec_timer_bytes(gb.timer));
    assert(b.subrange(0x40A4, 0x40D4) =~= gb.sound@.regs);
    assert(b.subrange(0x40D4, 0x40DC) =~= u64_le(gb.clock_count));
    assert(b.subrange(0x40DC, 0x40DC + crate::ppu::PPU_STATE_BYTES as int)
        =~= crate::ppu::spec_ppu_bytes(gb.ppu@));
}

} // verus!
