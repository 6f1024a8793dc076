//! The LR35902 interpreter: one `step` decodes the byte at PC (with the
//! CB-prefix page), executes it, and pays the documented T-cycles in
//! four-cycle calls to the board's `tick`, so the timer and the picture
//! unit observe every memory access at its true cycle.
//!
//! The arithmetic helpers carry exact contracts for the value and every
//! flag bit; the step itself guarantees that the machine stays
//! well-formed, that the clock moves, and that it moves by at most one
//! instruction's worth of cycles.

use vstd::prelude::*;

use crate::cpu::{Cpu, CpuState, ImeState};
use crate::gameboy::GameBoy;

verus! {

/// The flag byte assembled from the four flag bits: Z, N, H, C from bit
/// 7 down; the low nibble is always clear.
pub open spec fn spec_flags(z: bool, n: bool, h: bool, c: bool) -> u8 {
    ((if z {
        0x80u8
    } else {
        0u8
    }) | (if n {
        0x40u8
    } else {
        0u8
    }) | (if h {
        0x20u8
    } else {
        0u8
    }) | (if c {
        0x10u8
    } else {
        0u8
    })) as u8
}

/// Build the flag byte.
pub fn flags(z: bool, n: bool, h: bool, c: bool) -> (r: u8)
    ensures
        r == spec_flags(z, n, h, c),
        r & 0x0F == 0,
{
    let r = (if z {
        0x80u8
    } else {
        0
    }) | (if n {
        0x40u8
    } else {
        0
    }) | (if h {
        0x20u8
    } else {
        0
    }) | (if c {
        0x10u8
    } else {
        0
    });
    proof {
        let b0: u8 = if z {
            0x80
        } else {
            0
        };
        let b1: u8 = if n {
            0x40
        } else {
            0
        };
        let b2: u8 = if h {
            0x20
        } else {
            0
        };
        let b3: u8 = if c {
            0x10
        } else {
            0
        };
        assert((b0 | b1 | b2 | b3) & 0x0F == 0) by (bit_vector)
            requires
                (b0 == 0 || b0 == 0x80) && (b1 == 0 || b1 == 0x40) && (b2 == 0 || b2 == 0x20) && (
                b3 == 0 || b3 == 0x10),
        ;
    }
    r
}

/// 8-bit addition with carry in: the truncated sum, with Z, half-carry
/// out of bit 3, and carry out of bit 7.
pub fn add8(a: u8, b: u8, cin: u8) -> (r: (u8, u8))
    requires
        cin <= 1,
    ensures
        r.0 == ((a + b + cin) % 256) as u8,
        r.1 == spec_flags(
            (a + b + cin) % 256 == 0,
            false,
            (a & 0xF) + (b & 0xF) + cin > 0xF,
            a + b + cin > 0xFF,
        ),
        r.1 & 0x0F == 0,
{
    let wide = a as u16 + b as u16 + cin as u16;
    let v = (wide % 256) as u8;
    let h = (a & 0xF) as u16 + (b & 0xF) as u16 + cin as u16 > 0xF;
    let f = flags(v == 0, false, h, wide > 0xFF);
    (v, f)
}

/// 8-bit subtraction with borrow in: the truncated difference, with Z,
/// the N mark, borrow into bit 4, and borrow out.
pub fn sub8(a: u8, b: u8, cin: u8) -> (r: (u8, u8))
    requires
        cin <= 1,
    ensures
        r.0 == ((a + 256 - b - cin) % 256) as u8,
        r.1 == spec_flags(
            (a + 256 - b - cin) % 256 == 0,
            true,
            (a & 0xF) < (b & 0xF) + cin,
            a < b + cin,
        ),
        r.1 & 0x0F == 0,
{
    let wide = (a as u16 + 256) - (b as u16) - (cin as u16);
    let v = (wide % 256) as u8;
    let h = ((a & 0xF) as u16) < ((b & 0xF) as u16) + cin as u16;
    let f = flags(v == 0, true, h, (a as u16) < b as u16 + cin as u16);
    (v, f)
}

/// The dispatch vector of the highest-priority pending source: bit 0
/// (vertical blank) at 0x40 down to bit 4 (joypad) at 0x60.
pub open spec fn spec_int_vector(pending: u8) -> u16 {
    if pending & 1 != 0 {
        0x40
    } else if pending & 2 != 0 {
        0x48
    } else if pending & 4 != 0 {
        0x50
    } else if pending & 8 != 0 {
        0x58
    } else {
        0x60
    }
}

/// The request bit a dispatch clears.
pub open spec fn spec_int_mask(pending: u8) -> u8 {
    if pending & 1 != 0 {
        1
    } else if pending & 2 != 0 {
        2
    } else if pending & 4 != 0 {
        4
    } else if pending & 8 != 0 {
        8
    } else {
        16
    }
}

/// Operand `idx` of the register file order B, C, D, E, H, L, -, A.
pub open spec fn spec_reg8(c: Cpu, idx: u8) -> u8 {
    if idx == 0 {
        c.b
    } else if idx == 1 {
        c.c
    } else if idx == 2 {
        c.d
    } else if idx == 3 {
        c.e
    } else if idx == 4 {
        c.h
    } else if idx == 5 {
        c.l
    } else {
        c.a
    }
}

/// The register file with operand `idx` replaced.
pub open spec fn spec_reg8_set(c: Cpu, idx: u8, v: u8) -> Cpu {
    if idx == 0 {
        Cpu { b: v, ..c }
    } else if idx == 1 {
        Cpu { c: v, ..c }
    } else if idx == 2 {
        Cpu { d: v, ..c }
    } else if idx == 3 {
        Cpu { e: v, ..c }
    } else if idx == 4 {
        Cpu { h: v, ..c }
    } else if idx == 5 {
        Cpu { l: v, ..c }
    } else {
        Cpu { a: v, ..c }
    }
}

impl GameBoy {
    /// Four T-cycles pass.
    fn cycle(&mut self)
        requires
            old(self).wf(),
            old(self).clock_count <= u64::MAX - 1_000,
        ensures
            final(self).wf(),
            final(self).clock_count == old(self).clock_count + 4,
            final(self).boot_rom_active == old(self).boot_rom_active,
            final(self).cpu == old(self).cpu,
            final(self).interrupt_enabled == old(self).interrupt_enabled,
            final(self).boot_rom == old(self).boot_rom,
            final(self).cartridge == old(self).cartridge,
    {
        self.tick(4);
    }

    /// A memory read in its own machine cycle.
    fn read_cycle(&mut self, address: u16) -> (r: u8)
        requires
            old(self).wf(),
            old(self).clock_count <= u64::MAX - 1_000,
        ensures
            final(self).wf(),
            final(self).clock_count == old(self).clock_count + 4,
            final(self).boot_rom_active == old(self).boot_rom_active,
            final(self).cpu == old(self).cpu,
            r == final(self).spec_read(address),
    {
        self.tick(4);
        self.read(address)
    }

    /// A memory write in its own machine cycle.
    fn write_cycle(&mut self, address: u16, value: u8)
        requires
            old(self).wf(),
            old(self).clock_count <= u64::MAX - 1_000,
        ensures
            final(self).wf(),
            final(self).clock_count == old(self).clock_count + 4,
            final(self).boot_rom_active ==> old(self).boot_rom_active,
            final(self).cpu.f == old(self).cpu.f,
            final(self).cpu.wf() == old(self).cpu.wf(),
            // a bus write can reach the processor only through the
            // boot-disable register, which forces the program counter
            final(self).cpu == (Cpu { pc: final(self).cpu.pc, ..old(self).cpu }),
    {
        self.tick(4);
        let ghost mid = *self;
        self.write(address, value);
        proof {
            let a = GameBoy::spec_echo(address);
            if 0xFF00 <= a < 0xFF80 || a == 0xFFFF {
                let io = if a == 0xFFFF {
                    0xFFu8
                } else {
                    (a - 0xFF00) as u8
                };
                assert(GameBoy::spec_io_written(mid, *self, io, value));
            }
        }
    }

    /// Fetch the byte at PC; PC advances, except on the fetch after the
    /// halt bug, which leaves it behind.
    fn fetch(&mut self) -> (op: u8)
        requires
            old(self).wf(),
            old(self).clock_count <= u64::MAX - 2_000,
        ensures
            final(self).wf(),
            final(self).clock_count == old(self).clock_count + 4,
            final(self).cpu.f == old(self).cpu.f,
            final(self).cpu.wf() == old(self).cpu.wf(),
    {
        let op = self.read_cycle(self.cpu.pc);
        if matches!(self.cpu.state, CpuState::HaltBug) {
            self.cpu.state = CpuState::Running;
        } else {
            self.cpu.pc = if self.cpu.pc == 0xFFFF {
                0
            } else {
                self.cpu.pc + 1
            };
        }
        op
    }

    /// Fetch a 16-bit immediate, low byte first.
    fn fetch16(&mut self) -> (v: u16)
        requires
            old(self).wf(),
            old(self).clock_count <= u64::MAX - 3_000,
        ensures
            final(self).wf(),
            final(self).clock_count == old(self).clock_count + 8,
            final(self).cpu.f == old(self).cpu.f,
            final(self).cpu.wf() == old(self).cpu.wf(),
    {
        let lo = self.fetch();
        let hi = self.fetch();
        lo as u16 | ((hi as u16) << 8)
    }

    /// Push a 16-bit value, high byte first, in two machine cycles.
    fn push16(&mut self, v: u16)
        requires
            old(self).wf(),
            old(self).clock_count <= u64::MAX - 3_000,
        ensures
            final(self).wf(),
            final(self).clock_count == old(self).clock_count + 8,
            final(self).cpu.f == old(self).cpu.f,
            final(self).cpu.wf() == old(self).cpu.wf(),
            final(self).cpu == (Cpu {
                sp: sub16(old(self).cpu.sp, 2),
                pc: final(self).cpu.pc,
                ..old(self).cpu
            }),
    {
        let sp1 = if self.cpu.sp == 0 {
            0xFFFFu16
        } else {
            self.cpu.sp - 1
        };
        self.write_cycle(sp1, (v >> 8) as u8);
        let sp2 = if sp1 == 0 {
            0xFFFFu16
        } else {
            sp1 - 1
        };
        self.write_cycle(sp2, v as u8);
        self.cpu.sp = sp2;
        proof {
            let s0 = old(self).cpu.sp;
            assert(sub16(s0, 2) == if s0 == 0 {
                0xFFFEu16
            } else if s0 == 1 {
                0xFFFFu16
            } else {
                (s0 - 2) as u16
            });
        }
    }

    /// Pop a 16-bit value, low byte first, in two machine cycles.
    fn pop16(&mut self) -> (v: u16)
        requires
            old(self).wf(),
            old(self).clock_count <= u64::MAX - 3_000,
        ensures
            final(self).wf(),
            final(self).clock_count == old(self).clock_count + 8,
            final(self).cpu.f == old(self).cpu.f,
            final(self).cpu.wf() == old(self).cpu.wf(),
    {
        let lo = self.read_cycle(self.cpu.sp);
        self.cpu.sp = if self.cpu.sp == 0xFFFF {
            0
        } else {
            self.cpu.sp + 1
        };
        let hi = self.read_cycle(self.cpu.sp);
        self.cpu.sp = if self.cpu.sp == 0xFFFF {
            0
        } else {
            self.cpu.sp + 1
        };
        lo as u16 | ((hi as u16) << 8)
    }

    /// Read operand `idx` of the register file order B, C, D, E, H, L,
    /// (HL), A; the memory operand costs its machine cycle.
    fn get_reg(&mut self, idx: u8) -> (r: u8)
        requires
            old(self).wf(),
            old(self).clock_count <= u64::MAX - 2_000,
            idx <= 7,
        ensures
            final(self).wf(),
            final(self).clock_count <= old(self).clock_count + 4,
            old(self).clock_count <= final(self).clock_count,
            final(self).cpu == old(self).cpu,
            idx != 6 ==> *final(self) == *old(self) && r == spec_reg8(old(self).cpu, idx),
    {
        if idx == 0 {
            self.cpu.b
        } else if idx == 1 {
            self.cpu.c
        } else if idx == 2 {
            self.cpu.d
        } else if idx == 3 {
            self.cpu.e
        } else if idx == 4 {
            self.cpu.h
        } else if idx == 5 {
            self.cpu.l
        } else if idx == 6 {
            self.read_cycle(self.cpu.hl())
        } else {
            self.cpu.a
        }
    }

    /// Write operand `idx`; the memory operand costs its machine cycle.
    fn set_reg(&mut self, idx: u8, v: u8)
        requires
            old(self).wf(),
            old(self).clock_count <= u64::MAX - 2_000,
            idx <= 7,
        ensures
            final(self).wf(),
            final(self).clock_count <= old(self).clock_count + 4,
            old(self).clock_count <= final(self).clock_count,
            final(self).cpu.f == old(self).cpu.f,
            final(self).cpu.wf() == old(self).cpu.wf(),
            idx != 6 ==> *final(self) == (GameBoy {
                cpu: spec_reg8_set(old(self).cpu, idx, v),
                ..*old(self)
            }),
    {
        if idx == 0 {
            self.cpu.b = v;
        } else if idx == 1 {
            self.cpu.c = v;
        } else if idx == 2 {
            self.cpu.d = v;
        } else if idx == 3 {
            self.cpu.e = v;
        } else if idx == 4 {
            self.cpu.h = v;
        } else if idx == 5 {
            self.cpu.l = v;
        } else if idx == 6 {
            let a = self.cpu.hl();
            self.write_cycle(a, v);
        } else {
            self.cpu.a = v;
        }
    }

    /// Whether condition `cc` (NZ, Z, NC, C) holds of the flags.
    fn condition(&self, cc: u8) -> bool
        requires
            cc <= 3,
    {
        if cc == 0 {
            self.cpu.f & 0x80 == 0
        } else if cc == 1 {
            self.cpu.f & 0x80 != 0
        } else if cc == 2 {
            self.cpu.f & 0x10 == 0
        } else {
            self.cpu.f & 0x10 != 0
        }
    }

    /// The arithmetic/logic operation `y` (ADD, ADC, SUB, SBC, AND, XOR,
    /// OR, CP) applied to A and `operand`, flags per the book.
    fn alu(&mut self, y: u8, operand: u8)
        requires
            old(self).wf(),
            y <= 7,
        ensures
            final(self).wf(),
            *final(self) == (GameBoy { cpu: final(self).cpu, ..*old(self) }),
            final(self).cpu == (Cpu { a: final(self).cpu.a, f: final(self).cpu.f, ..old(self).cpu }),
            final(self).cpu.wf(),
            ({
                let a = old(self).cpu.a;
                let cin: u8 = if old(self).cpu.f & 0x10 != 0 {
                    1
                } else {
                    0
                };
                let fa = final(self).cpu.a;
                let ff = final(self).cpu.f;
                &&& (y == 0 ==> fa == ((a + operand) % 256) as u8 && ff == spec_flags(
                    (a + operand) % 256 == 0,
                    false,
                    (a & 0xF) + (operand & 0xF) > 0xF,
                    a + operand > 0xFF,
                ))
                &&& (y == 1 ==> fa == ((a + operand + cin) % 256) as u8 && ff == spec_flags(
                    (a + operand + cin) % 256 == 0,
                    false,
                    (a & 0xF) + (operand & 0xF) + cin > 0xF,
                    a + operand + cin > 0xFF,
                ))
                &&& (y == 2 ==> fa == ((a + 256 - operand) % 256) as u8 && ff == spec_flags(
                    (a + 256 - operand) % 256 == 0,
                    true,
                    (a & 0xF) < (operand & 0xF),
                    a < operand,
                ))
                &&& (y == 3 ==> fa == ((a + 256 - operand - cin) % 256) as u8 && ff == spec_flags(
                    (a + 256 - operand - cin) % 256 == 0,
                    true,
                    (a & 0xF) < (operand & 0xF) + cin,
                    a < operand + cin,
                ))
                &&& (y == 4 ==> fa == (a & operand) && ff == spec_flags(
                    a & operand == 0,
                    false,
                    true,
                    false,
                ))
                &&& (y == 5 ==> fa == (a ^ operand) && ff == spec_flags(
                    a ^ operand == 0,
                    false,
                    false,
                    false,
                ))
                &&& (y == 6 ==> fa == (a | operand) && ff == spec_flags(
                    a | operand == 0,
                    false,
                    false,
                    false,
                ))
                &&& (y == 7 ==> fa == a && ff == spec_flags(
                    (a + 256 - operand) % 256 == 0,
                    true,
                    (a & 0xF) < (operand & 0xF),
                    a < operand,
                ))
            }),
    {
        let a = self.cpu.a;
        let carry: u8 = if self.cpu.f & 0x10 != 0 {
            1
        } else {
            0
        };
        if y == 0 {
            let (v, f) = add8(a, operand, 0);
            self.cpu.a = v;
            self.cpu.f = f;
        } else if y == 1 {
            let (v, f) = add8(a, operand, carry);
            self.cpu.a = v;
            self.cpu.f = f;
        } else if y == 2 {
            let (v, f) = sub8(a, operand, 0);
            self.cpu.a = v;
            self.cpu.f = f;
        } else if y == 3 {
            let (v, f) = sub8(a, operand, carry);
            self.cpu.a = v;
            self.cpu.f = f;
        } else if y == 4 {
            self.cpu.a = a & operand;
            self.cpu.f = flags(self.cpu.a == 0, false, true, false);
        } else if y == 5 {
            self.cpu.a = a ^ operand;
            self.cpu.f = flags(self.cpu.a == 0, false, false, false);
        } else if y == 6 {
            self.cpu.a = a | operand;
            self.cpu.f = flags(self.cpu.a == 0, false, false, false);
        } else {
            let (_, f) = sub8(a, operand, 0);
            self.cpu.f = f;
        }
    }

    /// INC r: Z, clears N, half-carry; keeps C.
    fn inc8(&mut self, v: u8) -> (r: u8)
        requires
            old(self).wf(),
        ensures
            final(self).wf(),
            *final(self) == (GameBoy { cpu: final(self).cpu, ..*old(self) }),
            final(self).cpu == (Cpu { f: final(self).cpu.f, ..old(self).cpu }),
            r == ((v + 1) % 256) as u8,
            final(self).cpu.f == (spec_flags((v + 1) % 256 == 0, false, (v & 0xF) + 1 > 0xF, false)
                | (old(self).cpu.f & 0x10)) as u8,
            final(self).cpu.wf(),
    {
        let r = if v == 0xFF {
            0
        } else {
            v + 1
        };
        let keep_c = self.cpu.f & 0x10;
        let f = flags(r == 0, false, (v & 0xF) as u16 + 1 > 0xF, false);
        self.cpu.f = f | keep_c;
        proof {
            let ff = f;
            let kc = keep_c;
            let ofv = old(self).cpu.f;
            assert((ff | kc) & 0x0F == 0) by (bit_vector)
                requires
                    ff & 0x0F == 0,
                    kc == ofv & 0x10,
            ;
        }
        r
    }

    /// DEC r: Z, sets N, half-borrow; keeps C.
    fn dec8(&mut self, v: u8) -> (r: u8)
        requires
            old(self).wf(),
        ensures
            final(self).wf(),
            *final(self) == (GameBoy { cpu: final(self).cpu, ..*old(self) }),
            final(self).cpu == (Cpu { f: final(self).cpu.f, ..old(self).cpu }),
            r == ((v + 255) % 256) as u8,
            final(self).cpu.f == (spec_flags((v + 255) % 256 == 0, true, v & 0xF == 0, false) | (
            old(self).cpu.f & 0x10)) as u8,
            final(self).cpu.wf(),
    {
        let r = if v == 0 {
            0xFF
        } else {
            v - 1
        };
        let keep_c = self.cpu.f & 0x10;
        let f = flags(r == 0, true, v & 0xF == 0, false);
        self.cpu.f = f | keep_c;
        proof {
            let ff = f;
            let kc = keep_c;
            let ofv = old(self).cpu.f;
            assert((ff | kc) & 0x0F == 0) by (bit_vector)
                requires
                    ff & 0x0F == 0,
                    kc == ofv & 0x10,
            ;
        }
        r
    }

    /// ADD HL,rr: keeps Z; clears N; half-carry out of bit 11, carry out
    /// of bit 15.
    fn add_hl(&mut self, rr: u16)
        requires
            old(self).wf(),
            old(self).clock_count <= u64::MAX - 2_000,
        ensures
            final(self).wf(),
            final(self).clock_count == old(self).clock_count + 4,
            final(self).cpu.wf(),
    {
        let hl = self.cpu.hl();
        let wide = hl as u32 + rr as u32;
        let v = (wide % 0x10000) as u16;
        let h = (hl & 0x0FFF) as u32 + (rr & 0x0FFF) as u32 > 0x0FFF;
        let keep_z = self.cpu.f & 0x80;
        let f = flags(false, false, h, wide > 0xFFFF);
        self.cpu.set_hl(v);
        self.cpu.f = f | keep_z;
        proof {
            let ff = f;
            let kz = keep_z;
            let ofv = old(self).cpu.f;
            assert((ff | kz) & 0x0F == 0) by (bit_vector)
                requires
                    ff & 0x0F == 0,
                    kz == ofv & 0x80,
            ;
        }
        self.cycle();
    }
}

impl GameBoy {
    /// One CB-page operation: a rotate or shift, a bit test, a bit
    /// clear or a bit set, on operand `op & 7`.
    fn execute_cb(&mut self, op: u8)
        requires
            old(self).wf(),
            old(self).clock_count <= u64::MAX - 50_000,
        ensures
            final(self).wf(),
            old(self).clock_count <= final(self).clock_count <= old(self).clock_count + 8,
    {
        let z = op & 7;
        let x = op >> 6;
        let y = (op >> 3) & 7;
        proof {
            let o = op;
            assert(o & 7 <= 7 && (o >> 3) & 7 <= 7 && o >> 6 <= 3) by (bit_vector);
        }
        if x == 0 {
            let v = self.get_reg(z);
            let carry_in: u8 = if self.cpu.f & 0x10 != 0 {
                1
            } else {
                0
            };
            let (r, carry) = if y == 0 {
                // RLC
                ((v << 1) | (v >> 7), v & 0x80 != 0)
            } else if y == 1 {
                // RRC
                ((v >> 1) | (v << 7), v & 1 != 0)
            } else if y == 2 {
                // RL
                ((v << 1) | carry_in, v & 0x80 != 0)
            } else if y == 3 {
                // RR
                ((v >> 1) | (carry_in << 7), v & 1 != 0)
            } else if y == 4 {
                // SLA
                (v << 1, v & 0x80 != 0)
            } else if y == 5 {
                // SRA
                ((v >> 1) | (v & 0x80), v & 1 != 0)
            } else if y == 6 {
                // SWAP
                ((v << 4) | (v >> 4), false)
            } else {
                // SRL
                (v >> 1, v & 1 != 0)
            };
            self.cpu.f = flags(r == 0, false, false, carry);
            self.set_reg(z, r);
        } else if x == 1 {
            // BIT y
            let v = self.get_reg(z);
            let keep_c = self.cpu.f & 0x10;
            let f = flags(v & (1u8 << y) == 0, false, true, false);
            self.cpu.f = f | keep_c;
            proof {
                let ff = f;
                let kc = keep_c;
                let ofv = old(self).cpu.f;
                assert((ff | kc) & 0x0F == 0) by (bit_vector)
                    requires
                        ff & 0x0F == 0,
                        kc == ofv & 0x10,
                ;
            }
        } else if x == 2 {
            // RES y
            let v = self.get_reg(z);
            self.set_reg(z, v & !(1u8 << y));
        } else {
            // SET y
            let v = self.get_reg(z);
            self.set_reg(z, v | (1u8 << y));
        }
    }

    /// Execute the already-fetched operation `op`.
    #[verifier::rlimit(100)]
    #[verifier::loop_isolation(false)]
    fn execute(&mut self, op: u8)
        requires
            old(self).wf(),
            old(self).clock_count <= u64::MAX - 60_000,
        ensures
            final(self).wf(),
            old(self).clock_count <= final(self).clock_count <= old(self).clock_count + 24,
    {
        proof {
            let o = op;
            assert(o & 7 <= 7 && (o >> 3) & 7 <= 7 && (o >> 4) & 3 <= 3 && (o >> 3) & 3 <= 3)
                by (bit_vector);
        }
        if op == 0x00 {
            // NOP
        } else if op == 0x76 {
            // HALT, with the halt bug when interrupts are pending but
            // masked off
            let pending = self.interrupt_flag & self.interrupt_enabled & 0x1F;
            if matches!(self.cpu.ime, ImeState::Enabled) {
                if pending == 0 {
                    self.cpu.state = CpuState::Halt;
                }
            } else {
                if pending != 0 {
                    self.cpu.state = CpuState::HaltBug;
                } else {
                    self.cpu.state = CpuState::Halt;
                }
            }
        } else if 0x40 <= op && op <= 0x7F {
            // LD r, r'
            let v = self.get_reg(op & 7);
            self.set_reg((op >> 3) & 7, v);
        } else if 0x80 <= op && op <= 0xBF {
            // the arithmetic/logic block
            let v = self.get_reg(op & 7);
            self.alu((op >> 3) & 7, v);
        } else if op == 0x01 || op == 0x11 || op == 0x21 || op == 0x31 {
            // LD rr, d16
            let v = self.fetch16();
            if op == 0x01 {
                self.cpu.set_bc(v);
            } else if op == 0x11 {
                self.cpu.set_de(v);
            } else if op == 0x21 {
                self.cpu.set_hl(v);
            } else {
                self.cpu.sp = v;
            }
        } else if op == 0x02 || op == 0x12 || op == 0x22 || op == 0x32 {
            // LD (rr), A
            let a = self.cpu.a;
            if op == 0x02 {
                let addr = self.cpu.bc();
                self.write_cycle(addr, a);
            } else if op == 0x12 {
                let addr = self.cpu.de();
                self.write_cycle(addr, a);
            } else {
                let addr = self.cpu.hl();
                self.write_cycle(addr, a);
                self.cpu.set_hl(if op == 0x22 {
                    inc16(addr)
                } else {
                    dec16(addr)
                });
            }
        } else if op == 0x0A || op == 0x1A || op == 0x2A || op == 0x3A {
            // LD A, (rr)
            let addr = if op == 0x0A {
                self.cpu.bc()
            } else if op == 0x1A {
                self.cpu.de()
            } else {
                self.cpu.hl()
            };
            let v = self.read_cycle(addr);
            self.cpu.a = v;
            if op == 0x2A {
                self.cpu.set_hl(inc16(addr));
            } else if op == 0x3A {
                self.cpu.set_hl(dec16(addr));
            }
        } else if op == 0x03 || op == 0x13 || op == 0x23 || op == 0x33 {
            // INC rr
            if op == 0x03 {
                let v = inc16(self.cpu.bc());
                self.cpu.set_bc(v);
            } else if op == 0x13 {
                let v = inc16(self.cpu.de());
                self.cpu.set_de(v);
            } else if op == 0x23 {
                let v = inc16(self.cpu.hl());
                self.cpu.set_hl(v);
            } else {
                self.cpu.sp = inc16(self.cpu.sp);
            }
            self.cycle();
        } else if op == 0x0B || op == 0x1B || op == 0x2B || op == 0x3B {
            // DEC rr
            if op == 0x0B {
                let v = dec16(self.cpu.bc());
                self.cpu.set_bc(v);
            } else if op == 0x1B {
                let v = dec16(self.cpu.de());
                self.cpu.set_de(v);
            } else if op == 0x2B {
                let v = dec16(self.cpu.hl());
                self.cpu.set_hl(v);
            } else {
                self.cpu.sp = dec16(self.cpu.sp);
            }
            self.cycle();
        } else if op & 0xC7 == 0x04 {
            // INC r
            let idx = (op >> 3) & 7;
            let v = self.get_reg(idx);
            let r = self.inc8(v);
            self.set_reg(idx, r);
        } else if op & 0xC7 == 0x05 {
            // DEC r
            let idx = (op >> 3) & 7;
            let v = self.get_reg(idx);
            let r = self.dec8(v);
            self.set_reg(idx, r);
        } else if op & 0xC7 == 0x06 {
            // LD r, d8
            let v = self.fetch();
            self.set_reg((op >> 3) & 7, v);
        } else if op == 0x07 || op == 0x0F || op == 0x17 || op == 0x1F {
            // the rotates of A clear Z
            let a = self.cpu.a;
            let carry_in: u8 = if self.cpu.f & 0x10 != 0 {
                1
            } else {
                0
            };
            let (r, carry) = if op == 0x07 {
                ((a << 1) | (a >> 7), a & 0x80 != 0)
            } else if op == 0x0F {
                ((a >> 1) | (a << 7), a & 1 != 0)
            } else if op == 0x17 {
                ((a << 1) | carry_in, a & 0x80 != 0)
            } else {
                ((a >> 1) | (carry_in << 7), a & 1 != 0)
            };
            self.cpu.a = r;
            self.cpu.f = flags(false, false, false, carry);
        } else if op == 0x08 {
            // LD (a16), SP
            let addr = self.fetch16();
            let sp = self.cpu.sp;
            self.write_cycle(addr, sp as u8);
            self.write_cycle(inc16(addr), (sp >> 8) as u8);
        } else if op == 0x09 || op == 0x19 || op == 0x29 || op == 0x39 {
            // ADD HL, rr
            let rr = if op == 0x09 {
                self.cpu.bc()
            } else if op == 0x19 {
                self.cpu.de()
            } else if op == 0x29 {
                self.cpu.hl()
            } else {
                self.cpu.sp
            };
            self.add_hl(rr);
        } else if op == 0x10 {
            // STOP, with no wake source
            self.cpu.state = CpuState::Stopped;
        } else if op == 0x18 {
            // JR r8
            let off = self.fetch();
            self.cycle();
            self.cpu.pc = rel_jump(self.cpu.pc, off);
        } else if op == 0x20 || op == 0x28 || op == 0x30 || op == 0x38 {
            // JR cc, r8
            let off = self.fetch();
            if self.condition((op >> 3) & 3) {
                self.cycle();
                self.cpu.pc = rel_jump(self.cpu.pc, off);
            }
        } else if op == 0x27 {
            // DAA: fold the binary result back to packed decimal
            let n = self.cpu.f & 0x40 != 0;
            let h = self.cpu.f & 0x20 != 0;
            let c = self.cpu.f & 0x10 != 0;
            let a = self.cpu.a;
            let mut adjust: u8 = 0;
            if h || (!n && a & 0xF > 9) {
                adjust = 6;
            }
            let mut carry = false;
            if c || (!n && a > 0x99) {
                adjust = adjust | 0x60;
                carry = true;
            }
            proof {
                let ad = adjust;
                let aa = a;
                assert(ad <= 0x66 && aa & 0xF <= 0xF) by (bit_vector)
                    requires
                        ad == 0 || ad == 6 || ad == (0u8 | 0x60) || ad == (6u8 | 0x60),
                ;
            }
            let r: u8 = if n {
                (((a as u16) + 256 - adjust as u16) % 256) as u8
            } else {
                (((a as u16) + adjust as u16) % 256) as u8
            };
            self.cpu.a = r;
            self.cpu.f = flags(r == 0, n, false, carry);
        } else if op == 0x2F {
            // CPL: complement A, set N and H
            self.cpu.a = !self.cpu.a;
            let keep = self.cpu.f & 0x90;
            self.cpu.f = keep | 0x60;
            proof {
                let k = keep;
                let ofv = old(self).cpu.f;
                assert((k | 0x60u8) & 0x0F == 0) by (bit_vector)
                    requires
                        k == ofv & 0x90,
                ;
            }
        } else if op == 0x37 {
            // SCF
            let keep = self.cpu.f & 0x80;
            self.cpu.f = keep | 0x10;
            proof {
                let k = keep;
                let ofv = old(self).cpu.f;
                assert((k | 0x10u8) & 0x0F == 0) by (bit_vector)
                    requires
                        k == ofv & 0x80,
                ;
            }
        } else if op == 0x3F {
            // CCF
            let keep = self.cpu.f & 0x80;
            let toggled = (self.cpu.f & 0x10) ^ 0x10;
            self.cpu.f = keep | toggled;
            proof {
                let k = keep;
                let t = toggled;
                let ofv = old(self).cpu.f;
                assert((k | t) & 0x0F == 0) by (bit_vector)
                    requires
                        k == ofv & 0x80,
                        t == (ofv & 0x10) ^ 0x10,
                ;
            }
        } else if op == 0xC9 || op == 0xD9 {
            // RET / RETI
            let pc = self.pop16();
            self.cycle();
            self.cpu.pc = pc;
            if op == 0xD9 {
                self.cpu.ime = ImeState::Enabled;
            }
        } else if op & 0xE7 == 0xC0 {
            // RET cc
            self.cycle();
            if self.condition((op >> 3) & 3) {
                let pc = self.pop16();
                self.cycle();
                self.cpu.pc = pc;
            }
        } else if op == 0xC1 || op == 0xD1 || op == 0xE1 || op == 0xF1 {
            // POP rr
            let v = self.pop16();
            if op == 0xC1 {
                self.cpu.set_bc(v);
            } else if op == 0xD1 {
                self.cpu.set_de(v);
            } else if op == 0xE1 {
                self.cpu.set_hl(v);
            } else {
                self.cpu.set_af(v);
            }
        } else if op == 0xC5 || op == 0xD5 || op == 0xE5 || op == 0xF5 {
            // PUSH rr
            let v = if op == 0xC5 {
                self.cpu.bc()
            } else if op == 0xD5 {
                self.cpu.de()
            } else if op == 0xE5 {
                self.cpu.hl()
            } else {
                self.cpu.af()
            };
            self.cycle();
            self.push16(v);
        } else if op == 0xC3 {
            // JP a16
            let addr = self.fetch16();
            self.cycle();
            self.cpu.pc = addr;
        } else if op & 0xE7 == 0xC2 {
            // JP cc, a16
            let addr = self.fetch16();
            if self.condition((op >> 3) & 3) {
                self.cycle();
                self.cpu.pc = addr;
            }
        } else if op == 0xE9 {
            // JP HL
            self.cpu.pc = self.cpu.hl();
        } else if op == 0xCD {
            // CALL a16
            let addr = self.fetch16();
            self.cycle();
            let pc = self.cpu.pc;
            self.push16(pc);
            self.cpu.pc = addr;
        } else if op & 0xE7 == 0xC4 {
            // CALL cc, a16
            let addr = self.fetch16();
            if self.condition((op >> 3) & 3) {
                self.cycle();
                let pc = self.cpu.pc;
                self.push16(pc);
                self.cpu.pc = addr;
            }
        } else if op & 0xC7 == 0xC6 {
            // the arithmetic/logic block on an immediate
            let v = self.fetch();
            self.alu((op >> 3) & 7, v);
        } else if op & 0xC7 == 0xC7 {
            // RST
            self.cycle();
            let pc = self.cpu.pc;
            self.push16(pc);
            self.cpu.pc = (((op >> 3) & 7) as u16) * 8;
        } else if op == 0xCB {
            let op2 = self.fetch();
            self.execute_cb(op2);
        } else if op == 0xE0 || op == 0xF0 {
            // LDH
            let lo = self.fetch();
            let addr = 0xFF00u16 | lo as u16;
            if op == 0xE0 {
                let a = self.cpu.a;
                self.write_cycle(addr, a);
            } else {
                let v = self.read_cycle(addr);
                self.cpu.a = v;
            }
        } else if op == 0xE2 || op == 0xF2 {
            // LD (C) / LD A,(C)
            let addr = 0xFF00u16 | self.cpu.c as u16;
            if op == 0xE2 {
                let a = self.cpu.a;
                self.write_cycle(addr, a);
            } else {
                let v = self.read_cycle(addr);
                self.cpu.a = v;
            }
        } else if op == 0xEA || op == 0xFA {
            // LD (a16),A / LD A,(a16)
            let addr = self.fetch16();
            if op == 0xEA {
                let a = self.cpu.a;
                self.write_cycle(addr, a);
            } else {
                let v = self.read_cycle(addr);
                self.cpu.a = v;
            }
        } else if op == 0xE8 || op == 0xF8 {
            // ADD SP,r8 / LD HL,SP+r8, with byte-level flags
            let off = self.fetch();
            let sp = self.cpu.sp;
            proof {
                let s = self.cpu.sp;
                assert(s & 0xF <= 0xF && s & 0xFF <= 0xFF) by (bit_vector);
            }
            let h = (sp & 0xF) + ((off & 0xF) as u16) > 0xF;
            let c = (sp & 0xFF) + off as u16 > 0xFF;
            let v = rel_jump(sp, off);
            self.cpu.f = flags(false, false, h, c);
            if op == 0xE8 {
                self.cycle();
                self.cycle();
                self.cpu.sp = v;
            } else {
                self.cycle();
                self.cpu.set_hl(v);
            }
        } else if op == 0xF9 {
            // LD SP,HL
            self.cycle();
            self.cpu.sp = self.cpu.hl();
        } else if op == 0xF3 {
            // DI
            self.cpu.ime = ImeState::Disabled;
        } else if op == 0xFB {
            // EI takes effect after the next instruction
            if matches!(self.cpu.ime, ImeState::Disabled) {
                self.cpu.ime = ImeState::ToBeEnabled;
            }
        } else {
            // an undefined operation halts the processor for good
            self.cpu.state = CpuState::Stopped;
        }
    }

    /// One instruction, or one interrupt dispatch, or one idle machine
    /// cycle of a halted or stopped processor.  The clock always moves.
    pub fn step(&mut self)
        requires
            old(self).wf(),
            old(self).clock_count <= u64::MAX - 100_000,
        ensures
            final(self).wf(),
            old(self).clock_count < final(self).clock_count <= old(self).clock_count + 60,
            // a stopped processor only lets the clock run
            old(self).cpu.state is Stopped ==> final(self).cpu == old(self).cpu
                && final(self).clock_count == old(self).clock_count + 4,
            // a halted one with nothing pending idles one machine cycle
            (old(self).cpu.state is Halt && old(self).interrupt_flag
                & old(self).interrupt_enabled & 0x1F == 0) ==> final(self).cpu == old(self).cpu
                && final(self).clock_count == old(self).clock_count + 4,
            // with the master enable on and a source pending, the step is
            // the dispatch: 20 T-cycles, the return address pushed, the
            // highest-priority request bit cleared, the enable dropped,
            // and control at the source's vector
            ({
                let pending = old(self).interrupt_flag & old(self).interrupt_enabled & 0x1F;
                ((old(self).cpu.state is Running || old(self).cpu.state is Halt)
                    && old(self).cpu.ime is Enabled && pending != 0) ==> (final(self).cpu == (Cpu {
                    pc: spec_int_vector(pending),
                    sp: sub16(old(self).cpu.sp, 2),
                    ime: ImeState::Disabled,
                    state: CpuState::Running,
                    ..old(self).cpu
                }) && final(self).clock_count == old(self).clock_count + 20
                    && final(self).interrupt_flag & spec_int_mask(pending) == 0)
            }),
    {
        let ime_was_pending = matches!(self.cpu.ime, ImeState::ToBeEnabled);

        if matches!(self.cpu.state, CpuState::Stopped) {
            self.cycle();
            return ;
        }
        let pending = self.interrupt_flag & self.interrupt_enabled & 0x1F;
        if matches!(self.cpu.state, CpuState::Halt) {
            if pending != 0 {
                self.cpu.state = CpuState::Running;
            } else {
                self.cycle();
                return ;
            }
        }
        if matches!(self.cpu.ime, ImeState::Enabled) {
            if pending != 0 {
                // dispatch: 20 T-cycles, push PC, take the highest
                // priority source, clear its request bit, jump
                self.cycle();
                self.cycle();
                let pc = self.cpu.pc;
                self.push16(pc);
                self.cycle();
                proof {
                    let g = self.interrupt_flag;
                    assert((g & 0xFE) & 1 == 0 && (g & 0xFD) & 2 == 0 && (g & 0xFB) & 4 == 0 && (g
                        & 0xF7) & 8 == 0 && (g & 0xEF) & 16 == 0) by (bit_vector);
                }
                if pending & 1 != 0 {
                    self.interrupt_flag = self.interrupt_flag & 0xFE;
                    self.cpu.pc = 0x40;
                } else if pending & 2 != 0 {
                    self.interrupt_flag = self.interrupt_flag & 0xFD;
                    self.cpu.pc = 0x48;
                } else if pending & 4 != 0 {
                    self.interrupt_flag = self.interrupt_flag & 0xFB;
                    self.cpu.pc = 0x50;
                } else if pending & 8 != 0 {
                    self.interrupt_flag = self.interrupt_flag & 0xF7;
                    self.cpu.pc = 0x58;
                } else {
                    self.interrupt_flag = self.interrupt_flag & 0xEF;
                    self.cpu.pc = 0x60;
                }
                self.cpu.ime = ImeState::Disabled;
                return ;
            }
        }

        let op = self.fetch();
        self.execute(op);

        if ime_was_pending && matches!(self.cpu.ime, ImeState::ToBeEnabled) {
            self.cpu.ime = ImeState::Enabled;
        }
    }
}

/// The 16-bit address `off` bytes (as a signed byte) past `base`,
/// wrapping.
pub fn rel_jump(base: u16, off: u8) -> (r: u16)
    ensures
        off < 0x80 ==> r == add16(base, off as u16),
        off >= 0x80 ==> r == sub16(base, (0x100 - off) as u16),
{
    if off < 0x80 {
        let d = off as u16;
        if base as u32 + d as u32 <= 0xFFFF {
            base + d
        } else {
            ((base as u32 + d as u32) - 0x10000) as u16
        }
    } else {
        let d = (0x100 - off as u16) as u16;
        if base >= d {
            base - d
        } else {
            ((base as u32 + 0x10000) - d as u32) as u16
        }
    }
}

/// 16-bit wrapping increment and decrement.
pub open spec fn add16(v: u16, d: u16) -> u16 {
    ((v + d) % 0x10000) as u16
}

pub open spec fn sub16(v: u16, d: u16) -> u16 {
    ((v + 0x10000 - d) % 0x10000) as u16
}

/// Wrapping 16-bit increment.
pub fn inc16(v: u16) -> (r: u16)
    ensures
        r == add16(v, 1),
{
    if v == 0xFFFF {
        0
    } else {
        v + 1
    }
}

/// Wrapping 16-bit decrement.
pub fn dec16(v: u16) -> (r: u16)
    ensures
        r == sub16(v, 1),
{
    if v == 0 {
        0xFFFF
    } else {
        v - 1
    }
}

} // verus!
