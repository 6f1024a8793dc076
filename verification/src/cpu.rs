//! The LR35902 register file.
//!
//! Eight 8-bit registers, the flag register F (Z, N, H, C in the upper
//! nibble; the low nibble is always zero), SP and PC, the three-valued
//! interrupt-master-enable state modelling the one-instruction delay of
//! EI, and the run state.

use vstd::prelude::*;

use crate::save_state::{load_u16, load_u64, load_u8, save_u16, save_u8, LoadStateError};

verus! {

/// Interrupt-master-enable: EI only takes effect after the following
/// instruction, which the middle state models.
#[derive(Clone, Copy, Debug, PartialEq, Eq, Structural)]
pub enum ImeState {
    Disabled,
    ToBeEnabled,
    Enabled,
}

/// The run state: HALT with pending masked interrupts and IME off causes
/// the halt bug (the next fetch fails to advance PC); STOP has no wake
/// source.
#[derive(Clone, Copy, Debug, PartialEq, Eq, Structural)]
pub enum CpuState {
    Running,
    Halt,
    HaltBug,
    Stopped,
}

#[derive(Clone, Copy, Debug, PartialEq, Eq, Structural)]
pub struct Cpu {
    pub a: u8,
    pub f: u8,
    pub b: u8,
    pub c: u8,
    pub d: u8,
    pub e: u8,
    pub h: u8,
    pub l: u8,
    pub sp: u16,
    pub pc: u16,
    pub ime: ImeState,
    pub state: CpuState,
}

impl Cpu {
    /// The low nibble of F never holds a bit.
    pub open spec fn wf(self) -> bool {
        self.f & 0x0F == 0
    }
}

impl Default for Cpu {
    /// The cold-boot register file: everything zero, running, IME off.
    fn default() -> (c: Cpu)
        ensures
            c == (Cpu {
                a: 0,
                f: 0,
                b: 0,
                c: 0,
                d: 0,
                e: 0,
                h: 0,
                l: 0,
                sp: 0,
                pc: 0,
                ime: ImeState::Disabled,
                state: CpuState::Running,
            }),
            c.wf(),
    {
        proof {
            assert(0u8 & 0x0F == 0) by (bit_vector);
        }
        Cpu {
            a: 0,
            f: 0,
            b: 0,
            c: 0,
            d: 0,
            e: 0,
            h: 0,
            l: 0,
            sp: 0,
            pc: 0,
            ime: ImeState::Disabled,
            state: CpuState::Running,
        }
    }
}

/// The paired register `high << 8 | low`.
pub open spec fn spec_pair(high: u8, low: u8) -> u16 {
    (((high as u16) << 8) | (low as u16)) as u16
}

/// Each paired register reads as `high << 8 | low`; each paired write
/// splits the value back, F keeping its low nibble clear.
impl Cpu {
    pub fn af(&self) -> (r: u16)
        ensures
            r == spec_pair(self.a, self.f),
    {
        ((self.a as u16) << 8) | (self.f as u16)
    }

    pub fn bc(&self) -> (r: u16)
        ensures
            r == spec_pair(self.b, self.c),
    {
        ((self.b as u16) << 8) | (self.c as u16)
    }

    pub fn de(&self) -> (r: u16)
        ensures
            r == spec_pair(self.d, self.e),
    {
        ((self.d as u16) << 8) | (self.e as u16)
    }

    pub fn hl(&self) -> (r: u16)
        ensures
            r == spec_pair(self.h, self.l),
    {
        ((self.h as u16) << 8) | (self.l as u16)
    }

    pub fn set_af(&mut self, v: u16)
        ensures
            *final(self) == (Cpu {
                a: (v >> 8) as u8,
                f: (v as u8) & 0xF0,
                ..*old(self)
            }),
            final(self).wf(),
    {
        self.a = (v >> 8) as u8;
        self.f = (v as u8) & 0xF0;
        proof {
            let f = self.f;
            assert(((v as u8) & 0xF0) & 0x0F == 0) by (bit_vector);
        }
    }

    pub fn set_bc(&mut self, v: u16)
        ensures
            *final(self) == (Cpu { b: (v >> 8) as u8, c: v as u8, ..*old(self) }),
    {
        self.b = (v >> 8) as u8;
        self.c = v as u8;
    }

    pub fn set_de(&mut self, v: u16)
        ensures
            *final(self) == (Cpu { d: (v >> 8) as u8, e: v as u8, ..*old(self) }),
    {
        self.d = (v >> 8) as u8;
        self.e = v as u8;
    }

    pub fn set_hl(&mut self, v: u16)
        ensures
            *final(self) == (Cpu { h: (v >> 8) as u8, l: v as u8, ..*old(self) }),
    {
        self.h = (v >> 8) as u8;
        self.l = v as u8;
    }
}

/// One byte per 8-bit register, SP and PC little-endian, then the IME and
/// run states.
pub open spec fn spec_cpu_bytes(c: Cpu) -> Seq<u8> {
    seq![c.a, c.f, c.b, c.c, c.d, c.e, c.h, c.l] + crate::save_state::u16_le(c.sp)
        + crate::save_state::u16_le(c.pc) + seq![spec_ime_byte(c.ime), spec_cpu_state_byte(c.state)]
}

pub open spec fn spec_ime_byte(i: ImeState) -> u8 {
    match i {
        ImeState::Disabled => 0,
        ImeState::ToBeEnabled => 1,
        ImeState::Enabled => 2,
    }
}

pub open spec fn spec_cpu_state_byte(s: CpuState) -> u8 {
    match s {
        CpuState::Running => 0,
        CpuState::Halt => 1,
        CpuState::HaltBug => 2,
        CpuState::Stopped => 3,
    }
}

/// Decoding is total: F drops its low nibble, and bytes beyond the named
/// states fall to the last state.
pub open spec fn spec_ime_parse(b: u8) -> ImeState {
    if b == 0 {
        ImeState::Disabled
    } else if b == 1 {
        ImeState::ToBeEnabled
    } else {
        ImeState::Enabled
    }
}

pub open spec fn spec_cpu_state_parse(b: u8) -> CpuState {
    if b == 0 {
        CpuState::Running
    } else if b == 1 {
        CpuState::Halt
    } else if b == 2 {
        CpuState::HaltBug
    } else {
        CpuState::Stopped
    }
}

/// The register file encoded in 14 bytes.
pub open spec fn spec_cpu_parse(b: Seq<u8>) -> Cpu {
    Cpu {
        a: b[0],
        f: b[1] & 0xF0,
        b: b[2],
        c: b[3],
        d: b[4],
        e: b[5],
        h: b[6],
        l: b[7],
        sp: crate::save_state::u16_from_le(b[8], b[9]),
        pc: crate::save_state::u16_from_le(b[10], b[11]),
        ime: spec_ime_parse(b[12]),
        state: spec_cpu_state_parse(b[13]),
    }
}

/// Decoding a register file's own serialisation gives it back.
pub proof fn lemma_cpu_bytes_roundtrip(c: Cpu)
    requires
        c.wf(),
    ensures
        spec_cpu_parse(spec_cpu_bytes(c)) == c,
{
    crate::save_state::lemma_u16_le_roundtrip(c.sp);
    crate::save_state::lemma_u16_le_roundtrip(c.pc);
    let f = c.f;
    assert(f & 0x0F == 0 ==> f & 0xF0 == f) by (bit_vector);
}

impl Cpu {
    /// Append the 14-byte serialisation of the register file.
    pub fn save_state(&self, data: &mut Vec<u8>)
        ensures
            final(data)@ == old(data)@ + spec_cpu_bytes(*self),
    {
        save_u8(data, self.a);
        save_u8(data, self.f);
        save_u8(data, self.b);
        save_u8(data, self.c);
        save_u8(data, self.d);
        save_u8(data, self.e);
        save_u8(data, self.h);
        save_u8(data, self.l);
        save_u16(data, self.sp);
        save_u16(data, self.pc);
        save_u8(data, match self.ime {
            ImeState::Disabled => 0,
            ImeState::ToBeEnabled => 1,
            ImeState::Enabled => 2,
        });
        save_u8(data, match self.state {
            CpuState::Running => 0,
            CpuState::Halt => 1,
            CpuState::HaltBug => 2,
            CpuState::Stopped => 3,
        });
        assert(data@ =~= old(data)@ + spec_cpu_bytes(*self));
    }

    /// Read the register file back from its 14-byte serialisation.
    pub fn load_state(&mut self, data: &Vec<u8>, pos: &mut usize) -> (r: Result<
        (),
        LoadStateError,
    >)
        ensures
            *old(pos) + 14 <= data@.len() ==> r == Ok::<(), LoadStateError>(()) && *final(pos)
                == *old(pos) + 14 && *final(self) == spec_cpu_parse(
                data@.subrange(*old(pos) as int, *old(pos) + 14),
            ) && final(self).wf(),
            *old(pos) + 14 > data@.len() ==> r == Err::<(), LoadStateError>(
                LoadStateError::UnexpectedEof,
            ),
    {
        let ghost start = *pos;
        let a = match load_u8(data, pos) {
            Ok(v) => v,
            Err(e) => return Err(e),
        };
        let f = match load_u8(data, pos) {
            Ok(v) => v,
            Err(e) => return Err(e),
        };
        let b = match load_u8(data, pos) {
            Ok(v) => v,
            Err(e) => return Err(e),
        };
        let c = match load_u8(data, pos) {
            Ok(v) => v,
            Err(e) => return Err(e),
        };
        let d = match load_u8(data, pos) {
            Ok(v) => v,
            Err(e) => return Err(e),
        };
        let e = match load_u8(data, pos) {
            Ok(v) => v,
            Err(e) => return Err(e),
        };
        let h = match load_u8(data, pos) {
            Ok(v) => v,
            Err(e) => return Err(e),
        };
        let l = match load_u8(data, pos) {
            Ok(v) => v,
            Err(e) => return Err(e),
        };
        let sp = match load_u16(data, pos) {
            Ok(v) => v,
            Err(e) => return Err(e),
        };
        let pc = match load_u16(data, pos) {
            Ok(v) => v,
            Err(e) => return Err(e),
        };
        let ime_b = match load_u8(data, pos) {
            Ok(v) => v,
            Err(e) => return Err(e),
        };
        let state_b = match load_u8(data, pos) {
            Ok(v) => v,
            Err(e) => return Err(e),
        };
        *self = Cpu {
            a,
            f: f & 0xF0,
            b,
            c,
            d,
            e,
            h,
            l,
            sp,
            pc,
            ime: if ime_b == 0 {
                ImeState::Disabled
            } else if ime_b == 1 {
                ImeState::ToBeEnabled
            } else {
                ImeState::Enabled
            },
            state: if state_b == 0 {
                CpuState::Running
            } else if state_b == 1 {
                CpuState::Halt
            } else if state_b == 2 {
                CpuState::HaltBug
            } else {
                CpuState::Stopped
            },
        };
        proof {
            let fb = f;
            assert((fb & 0xF0) & 0x0F == 0) by (bit_vector);
        }
        Ok(())
    }
}

} // verus!
