//! The cartridge: ROM plus 8 KiB of external RAM behind a flat mapper.
//!
//! Mapper variants and header parsing are out of scope; the cartridge only
//! has to answer reads and writes on its two address windows
//! deterministically.  Reads outside the ROM image return 0xFF, and
//! writes into the ROM window (which would configure a mapper) are
//! ignored.

use vstd::prelude::*;

use crate::save_state::{load_bytes, save_bytes, LoadStateError};

verus! {

pub struct Cartridge {
    pub rom: Vec<u8>,
    pub ram: Vec<u8>,
}

/// The ghost image of a cartridge: its two byte arrays.
pub struct CartridgeModel {
    pub rom: Seq<u8>,
    pub ram: Seq<u8>,
}

impl View for Cartridge {
    type V = CartridgeModel;

    open spec fn view(&self) -> CartridgeModel {
        CartridgeModel { rom: self.rom@, ram: self.ram@ }
    }
}

impl PartialEq for Cartridge {
    fn eq(&self, other: &Cartridge) -> (r: bool) {
        crate::save_state::bytes_eq(&self.rom, &other.rom) && crate::save_state::bytes_eq(
            &self.ram,
            &other.ram,
        )
    }
}

impl vstd::std_specs::cmp::PartialEqSpecImpl for Cartridge {
    open spec fn obeys_eq_spec() -> bool {
        true
    }

    open spec fn eq_spec(&self, other: &Cartridge) -> bool {
        self@.rom == other@.rom && self@.ram == other@.ram
    }
}

impl Cartridge {
    /// The RAM window is always 8 KiB.
    pub open spec fn wf(self) -> bool {
        self@.ram.len() == 0x2000
    }

    /// What a read at `address` returns: the ROM byte under 0x8000 (0xFF
    /// past the image's end), the RAM byte in 0xA000..0xC000, and 0xFF
    /// anywhere else.
    pub open spec fn spec_read(self, address: u16) -> u8 {
        if address < 0x8000 {
            if address < self@.rom.len() {
                self@.rom[address as int]
            } else {
                0xFF
            }
        } else if 0xA000 <= address < 0xC000 {
            self@.ram[address - 0xA000]
        } else {
            0xFF
        }
    }

    /// A cartridge around a ROM image, with cleared RAM.
    pub fn new(rom: Vec<u8>) -> (c: Cartridge)
        ensures
            c.wf(),
            c@.rom == rom@,
            c@.ram == Seq::<u8>::new(0x2000, |i: int| 0u8),
    {
        let ram: Vec<u8> = vec![0u8; 0x2000];
        proof {
            assert(ram@ =~= Seq::<u8>::new(0x2000, |i: int| 0u8));
        }
        Cartridge { rom, ram }
    }

    pub fn read(&self, address: u16) -> (r: u8)
        requires
            self.wf(),
        ensures
            r == self.spec_read(address),
    {
        if address < 0x8000 {
            if (address as usize) < self.rom.len() {
                self.rom[address as usize]
            } else {
                0xFF
            }
        } else if 0xA000 <= address && address < 0xC000 {
            self.ram[(address - 0xA000) as usize]
        } else {
            0xFF
        }
    }

    /// Writes land only in the RAM window; the flat mapper has no
    /// registers in the ROM window.
    pub fn write(&mut self, address: u16, value: u8)
        requires
            old(self).wf(),
        ensures
            final(self).wf(),
            final(self)@.rom == old(self)@.rom,
            0xA000 <= address < 0xC000 ==> final(self)@.ram == old(self)@.ram.update(
                address - 0xA000,
                value,
            ),
            !(0xA000 <= address < 0xC000) ==> *final(self) == *old(self),
    {
        if 0xA000 <= address && address < 0xC000 {
            self.ram[(address - 0xA000) as usize] = value;
        }
    }

    /// The bank mapped at 0x4000..0x8000; the flat mapper always shows
    /// bank 1.
    pub fn curr_bank(&self) -> (r: u8)
        ensures
            r == 1,
    {
        1
    }

    /// How many 16 KiB banks the ROM image holds.
    pub fn num_banks(&self) -> (r: u8)
        ensures
            r == ((self@.rom.len() / 0x4000) as u8),
    {
        (self.rom.len() / 0x4000) as u8
    }

    /// Mutable access to the RAM image, for battery-backed save files.
    pub fn ram_mut(&mut self) -> (r: &mut Vec<u8>)
        ensures
            *r == old(self).ram,
            final(self).ram == *final(r),
            final(self).rom == old(self).rom,
    {
        &mut self.ram
    }

    /// Append the serialisation of the cartridge: the 8 KiB RAM image
    /// (the ROM comes back from construction, not from a snapshot).
    pub fn save_state(&self, data: &mut Vec<u8>)
        requires
            self.wf(),
        ensures
            final(data)@ == old(data)@ + self@.ram,
    {
        save_bytes(data, &self.ram);
    }

    /// Read the RAM image back; the ROM is kept.
    pub fn load_state(&mut self, data: &Vec<u8>, pos: &mut usize) -> (r: Result<
        (),
        LoadStateError,
    >)
        requires
            old(self).wf(),
        ensures
            *old(pos) + 0x2000 <= data@.len() ==> r == Ok::<(), LoadStateError>(()) && *final(pos)
                == *old(pos) + 0x2000 && final(self)@.ram == data@.subrange(
                *old(pos) as int,
                *old(pos) + 0x2000,
            ) && final(self)@.rom == old(self)@.rom && final(self).wf(),
            *old(pos) + 0x2000 > data@.len() ==> r == Err::<(), LoadStateError>(
                LoadStateError::UnexpectedEof,
            ) && final(self).wf() && final(self)@.rom == old(self)@.rom,
    {
        load_bytes(data, pos, &mut self.ram)
    }
}

} // verus!
