//! The sound controller's register file.
//!
//! The mixing DSP is out of scope: the core only drives the controller
//! through `write(clock, addr, val)`, `read(clock, addr)` and
//! `update(clock)`, so this one latches the 48 registers at
//! 0xFF10..=0xFF3F and remembers the clock it was last advanced to.

use vstd::prelude::*;

use crate::save_state::{load_bytes, load_u64, save_bytes, save_u64, u64_from_le, LoadStateError};

verus! {

pub struct SoundController {
    /// The bytes written to 0xFF10..=0xFF3F, indexed by `address - 0x10`.
    pub regs: Vec<u8>,
    /// The last clock cycle this controller was advanced to.
    pub last_clock: u64,
}

/// The ghost image of the sound controller.
pub struct SoundModel {
    pub regs: Seq<u8>,
    pub last_clock: u64,
}

impl View for SoundController {
    type V = SoundModel;

    open spec fn view(&self) -> SoundModel {
        SoundModel { regs: self.regs@, last_clock: self.last_clock }
    }
}

impl PartialEq for SoundController {
    fn eq(&self, other: &SoundController) -> (r: bool) {
        crate::save_state::bytes_eq(&self.regs, &other.regs) && self.last_clock
            == other.last_clock
    }
}

impl vstd::std_specs::cmp::PartialEqSpecImpl for SoundController {
    open spec fn obeys_eq_spec() -> bool {
        true
    }

    open spec fn eq_spec(&self, other: &SoundController) -> bool {
        self@ == other@
    }
}

impl SoundController {
    pub open spec fn wf(self) -> bool {
        self@.regs.len() == 0x30
    }

    /// A cleared register file at clock 0.
    pub fn new() -> (s: SoundController)
        ensures
            s.wf(),
            s@.regs == Seq::<u8>::new(0x30, |i: int| 0u8),
            s@.last_clock == 0,
    {
        let regs: Vec<u8> = vec![0u8; 0x30];
        proof {
            assert(regs@ =~= Seq::<u8>::new(0x30, |i: int| 0u8));
        }
        SoundController { regs, last_clock: 0 }
    }

    /// Catch up to the board's clock.  Sample mixing is out of scope, so
    /// only the clock moves.
    pub fn update(&mut self, clock_count: u64)
        ensures
            *final(self) == (SoundController { last_clock: clock_count, ..*old(self) }),
    {
        self.last_clock = clock_count;
    }

    /// Latch a register write at `address` in 0x10..=0x3F.
    pub fn write(&mut self, clock_count: u64, address: u8, value: u8)
        requires
            old(self).wf(),
            0x10 <= address < 0x40,
        ensures
            final(self).wf(),
            final(self)@.last_clock == clock_count,
            final(self)@.regs == old(self)@.regs.update(address - 0x10, value),
    {
        self.update(clock_count);
        self.regs[(address - 0x10) as usize] = value;
    }

    /// Read a register at `address` in 0x10..=0x3F.
    pub fn read(&mut self, clock_count: u64, address: u8) -> (r: u8)
        requires
            old(self).wf(),
            0x10 <= address < 0x40,
        ensures
            final(self).wf(),
            *final(self) == (SoundController { last_clock: clock_count, ..*old(self) }),
            r == old(self)@.regs[address - 0x10],
    {
        self.update(clock_count);
        self.regs[(address - 0x10) as usize]
    }

    /// Append the serialisation: the 48 registers, then the clock.
    pub fn save_state(&self, data: &mut Vec<u8>)
        requires
            self.wf(),
        ensures
            final(data)@ == old(data)@ + self@.regs + crate::save_state::u64_le(self@.last_clock),
    {
        save_bytes(data, &self.regs);
        save_u64(data, self.last_clock);
        assert(data@ =~= old(data)@ + self@.regs + crate::save_state::u64_le(self@.last_clock));
    }

    /// Read the register file and clock back.
    pub fn load_state(&mut self, data: &Vec<u8>, pos: &mut usize) -> (r: Result<
        (),
        LoadStateError,
    >)
        requires
            old(self).wf(),
        ensures
            *old(pos) + 0x38 <= data@.len() ==> r == Ok::<(), LoadStateError>(()) && *final(pos)
                == *old(pos) + 0x38 && final(self).wf() && final(self)@.regs == data@.subrange(
                *old(pos) as int,
                *old(pos) + 0x30,
            ) && final(self)@.last_clock == u64_from_le(
                data@.subrange(*old(pos) + 0x30, *old(pos) + 0x38),
            ),
            *old(pos) + 0x38 > data@.len() ==> r == Err::<(), LoadStateError>(
                LoadStateError::UnexpectedEof,
            ) && final(self).wf(),
    {
        match load_bytes(data, pos, &mut self.regs) {
            Ok(()) => {},
            Err(e) => return Err(e),
        }
        let last_clock = match load_u64(data, pos) {
            Ok(v) => v,
            Err(e) => return Err(e),
        };
        self.last_clock = last_clock;
        Ok(())
    }
}

} // verus!
