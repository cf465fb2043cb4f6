//! ROM-only cartridges (32 KiB, no banking, no external RAM).

use vstd::prelude::*;

use super::header::{cgb_support_of, CgbSupport};
use super::rom_byte;

verus! {

/// ROM only (32–256 KiB), no banking.
#[derive(Debug)]
pub struct NoMbc {
    rom: Vec<u8>,
}

impl View for NoMbc {
    type V = Seq<u8>;

    /// The ROM image.
    closed spec fn view(&self) -> Seq<u8> {
        self.rom@
    }
}

impl NoMbc {
    /// Length of the ROM image.
    pub fn rom_len(&self) -> (r: usize)
        ensures
            r == self@.len(),
    {
        self.rom.len()
    }

    pub fn new(rom: Vec<u8>) -> (r: Self)
        ensures
            r@ == rom@,
    {
        NoMbc { rom }
    }

    pub fn read_rom(&self, addr: u16) -> (r: u8)
        ensures
            r == rom_byte(self@, addr as int),
    {
        let i = addr as usize;
        if i < self.rom.len() {
            self.rom[i]
        } else {
            0xFF
        }
    }

    pub fn cgb_support(&self) -> (r: CgbSupport)
        ensures
            r == cgb_support_of(if self@.len() > 0x143 { self@[0x143] } else { 0 }),
    {
        let b = if self.rom.len() > 0x143 { self.rom[0x143] } else { 0 };
        CgbSupport::from_header_byte(b)
    }
}

} // verus!
