//! MBC5: 9-bit ROM bank, 4-bit RAM bank.

use vstd::prelude::*;

use crate::bits::{lemma_u8_fields, lemma_usize_fields};
use super::header::{cgb_support_of, CgbSupport};
use super::{bank_count, copy_prefix, is_ram_enable, loaded, ram_enable_value, rom_bank_count, rom_byte};

verus! {

/// Replacing the low byte, or bit 8, of the 9-bit ROM bank register.
proof fn lemma_bank_register_bits()
    by (bit_vector)
    ensures
        forall|r: u16, w: u16| w < 256 ==> #[trigger] ((r & 0x100u16) | w) == (r / 256) % 2 * 256 + w,
        forall|r: u16, h: u16| h < 2 ==> #[trigger] ((r & 0xFFu16) | (h << 8u16)) == h * 256 + r % 256,
{
}

/// Abstract state of an MBC5 controller.
pub struct Mbc5State {
    pub rom: Seq<u8>,
    pub ram: Seq<u8>,
    pub ram_enabled: bool,
    pub rom_bank: u16,
    pub ram_bank: u8,
    pub battery: bool,
}

impl Mbc5State {
    pub open spec fn banks(self) -> nat {
        bank_count(self.rom.len())
    }

    pub open spec fn effective_rom_bank(self) -> nat {
        self.rom_bank as nat % self.banks()
    }

    pub open spec fn rom_read_ok(self, addr: u16) -> bool {
        addr >= 0x4000 || addr < self.rom.len()
    }

    pub open spec fn read_rom(self, addr: u16) -> u8 {
        if addr < 0x4000 {
            self.rom[addr as int]
        } else {
            rom_byte(self.rom, self.effective_rom_bank() * 0x4000 + (addr - 0x4000))
        }
    }

    pub open spec fn write_rom(self, addr: u16, v: u8) -> Mbc5State {
        if addr < 0x2000 {
            Mbc5State { ram_enabled: ram_enable_value(v), ..self }
        } else if addr < 0x3000 {
            Mbc5State { rom_bank: ((self.rom_bank / 256) % 2 * 256 + v) as u16, ..self }
        } else if addr < 0x4000 {
            Mbc5State { rom_bank: ((v % 2) as int * 256 + self.rom_bank % 256) as u16, ..self }
        } else if addr < 0x6000 {
            Mbc5State { ram_bank: v % 16, ..self }
        } else {
            self
        }
    }

    pub open spec fn ram_access_ok(self, addr: u16) -> bool {
        addr >= 0xA000 || !self.ram_enabled || self.ram.len() == 0
    }

    pub open spec fn ram_offset(self, addr: u16) -> int {
        self.ram_bank as int * 0x2000 + (addr - 0xA000) % 0x2000
    }

    pub open spec fn read_ram(self, addr: u16) -> u8 {
        if !self.ram_enabled || self.ram.len() == 0 {
            0xFF
        } else {
            rom_byte(self.ram, self.ram_offset(addr))
        }
    }

    pub open spec fn write_ram(self, addr: u16, v: u8) -> Mbc5State {
        if !self.ram_enabled || self.ram.len() == 0 {
            self
        } else if 0 <= self.ram_offset(addr) < self.ram.len() {
            Mbc5State { ram: self.ram.update(self.ram_offset(addr), v), ..self }
        } else {
            self
        }
    }
}

#[derive(Debug)]
pub struct Mbc5 {
    rom: Vec<u8>,
    ram: Vec<u8>,
    ram_enabled: bool,
    rom_bank: u16,
    ram_bank: u8,
    battery: bool,
}

impl View for Mbc5 {
    type V = Mbc5State;

    closed spec fn view(&self) -> Mbc5State {
        Mbc5State {
            rom: self.rom@,
            ram: self.ram@,
            ram_enabled: self.ram_enabled,
            rom_bank: self.rom_bank,
            ram_bank: self.ram_bank,
            battery: self.battery,
        }
    }
}

impl Mbc5 {
    /// Length of the ROM image.
    pub fn rom_len(&self) -> (r: usize)
        ensures
            r == self@.rom.len(),
    {
        self.rom.len()
    }

    pub fn new(rom: Vec<u8>, ram_size: usize, battery: bool) -> (r: Self)
        ensures
            r@ == (Mbc5State {
                rom: rom@,
                ram: Seq::new(if ram_size >= 0x2000 { ram_size as nat } else { 0x2000 }, |i: int| 0u8),
                ram_enabled: false,
                rom_bank: 1,
                ram_bank: 0,
                battery,
            }),
    {
        let n = if ram_size >= 0x2000 { ram_size } else { 0x2000 };
        let ram = vec![0u8; n];
        let r = Mbc5 { rom, ram, ram_enabled: false, rom_bank: 1, ram_bank: 0, battery };
        assert(r.ram@ =~= Seq::new(n as nat, |i: int| 0u8));
        r
    }

    fn rom_banks(&self) -> (r: usize)
        ensures
            r == self@.banks(),
    {
        rom_bank_count(self.rom.len())
    }

    fn effective_rom_bank(&self) -> (r: usize)
        ensures
            r == self@.effective_rom_bank(),
            r < self@.banks(),
    {
        (self.rom_bank as usize) % self.rom_banks()
    }

    pub fn read_rom(&self, addr: u16) -> (r: u8)
        requires
            self@.rom_read_ok(addr),
        ensures
            r == self@.read_rom(addr),
    {
        let a = addr as usize;
        if a < 0x4000 {
            self.rom[a]
        } else {
            let bank = self.effective_rom_bank();
            let len = self.rom.len();
            proof {
                super::mbc1::lemma_bank_base_fits(bank as nat, self.rom@.len());
            }
            let base = bank * 0x4000;
            let off = a - 0x4000;
            if off < len - base {
                self.rom[base + off]
            } else {
                0xFF
            }
        }
    }

    pub fn write_rom(&mut self, addr: u16, value: u8)
        ensures
            final(self)@ == old(self)@.write_rom(addr, value),
    {
        let rb = self.rom_bank;
        let v = value as u16;
        assert(value & 0x0Fu8 == value % 16 && value & 1u8 == value % 2) by {
            lemma_u8_fields();
        }
        let high: u16 = (value & 1) as u16;
        assert(v < 256 && high < 2);
        assert((rb & 0x100u16) | v == (rb / 256) % 2 * 256 + v && (rb & 0xFFu16) | (high << 8u16)
            == high * 256 + rb % 256) by {
            lemma_bank_register_bits();
        }
        if addr < 0x2000 {
            self.ram_enabled = is_ram_enable(value);
        } else if addr < 0x3000 {
            self.rom_bank = (self.rom_bank & 0x100) | (value as u16);
        } else if addr < 0x4000 {
            self.rom_bank = (self.rom_bank & 0xFF) | (high << 8u16);
        } else if addr < 0x6000 {
            self.ram_bank = value & 0x0F;
        }
    }

    fn ram_offset(&self, addr: u16) -> (r: usize)
        requires
            addr >= 0xA000,
        ensures
            r == self@.ram_offset(addr),
    {
        let rel = (addr - 0xA000) as usize;
        assert(rel & 0x1FFFusize == rel % 0x2000) by { lemma_usize_fields(); }
        (self.ram_bank as usize) * 0x2000 + (rel & 0x1FFF)
    }

    pub fn read_ram(&self, addr: u16) -> (r: u8)
        requires
            self@.ram_access_ok(addr),
        ensures
            r == self@.read_ram(addr),
    {
        if !self.ram_enabled || self.ram.len() == 0 {
            return 0xFF;
        }
        let offset = self.ram_offset(addr);
        if offset < self.ram.len() {
            self.ram[offset]
        } else {
            0xFF
        }
    }

    pub fn write_ram(&mut self, addr: u16, value: u8)
        requires
            old(self)@.ram_access_ok(addr),
        ensures
            final(self)@ == old(self)@.write_ram(addr, value),
    {
        if !self.ram_enabled || self.ram.len() == 0 {
            return;
        }
        let offset = self.ram_offset(addr);
        if offset < self.ram.len() {
            self.ram.set(offset, value);
        }
    }

    pub fn battery_backed(&self) -> (r: bool)
        ensures
            r == self@.battery,
    {
        self.battery
    }

    pub fn external_ram(&self) -> (r: Option<&[u8]>)
        ensures
            self@.ram.len() == 0 ==> r is None,
            self@.ram.len() > 0 ==> r is Some && r->Some_0@ == self@.ram,
    {
        if self.ram.len() == 0 {
            None
        } else {
            Some(self.ram.as_slice())
        }
    }

    pub fn load_ram(&mut self, data: &[u8])
        ensures
            final(self)@ == (Mbc5State { ram: loaded(old(self)@.ram, data@), ..old(self)@ }),
    {
        if self.ram.len() == 0 {
            assert(loaded(self.ram@, data@) =~= self.ram@);
            return;
        }
        copy_prefix(&mut self.ram, data);
    }

    pub fn cgb_support(&self) -> (r: CgbSupport)
        ensures
            r == cgb_support_of(if self@.rom.len() > 0x143 { self@.rom[0x143] } else { 0 }),
    {
        let b = if self.rom.len() > 0x143 { self.rom[0x143] } else { 0 };
        CgbSupport::from_header_byte(b)
    }
}

/// ROM bank switching: writing the low eight bits of a bank number `n` (0–0x1FF) to
/// `2000–2FFF` and its ninth bit to `3000–3FFF` makes `4000–7FFF` show bank `n` of a ROM
/// with more than `n` banks (bank 0 included), whichever write comes first.
#[verifier::spinoff_prover]
pub proof fn lemma_mbc5_rom_bank_switch(s: Mbc5State, n: int, k: int)
    requires
        0 <= n < 0x200,
        0 <= k < 0x4000,
        s.rom.len() >= (n + 1) * 0x4000,
    ensures
        s.write_rom(0x2000, (n % 256) as u8).write_rom(0x3000, (n / 256) as u8).read_rom(
            (0x4000 + k) as u16,
        ) == s.rom[n * 0x4000 + k],
        s.write_rom(0x3000, (n / 256) as u8).write_rom(0x2000, (n % 256) as u8).read_rom(
            (0x4000 + k) as u16,
        ) == s.rom[n * 0x4000 + k],
{
    let t1 = s.write_rom(0x2000, (n % 256) as u8).write_rom(0x3000, (n / 256) as u8);
    let t2 = s.write_rom(0x3000, (n / 256) as u8).write_rom(0x2000, (n % 256) as u8);
    assert(((0x4000 + k) as u16) - 0x4000 == k);
    assert(t1.rom_bank == n);
    assert(t2.rom_bank == n);
    assert(t1.banks() >= n + 1);
    vstd::arithmetic::div_mod::lemma_small_mod(n as nat, t1.banks());
    assert(t1.effective_rom_bank() == n);
    assert(t2.effective_rom_bank() == n);
}

/// External RAM banking: with RAM enabled and RAM bank `b` selected (the register keeps
/// the low four bits written to `4000–5FFF`), `A000 + k` reads and writes byte
/// `b * 0x2000 + k` of the RAM; with RAM disabled reads give 0xFF and writes do nothing.
pub proof fn lemma_mbc5_ram_banking(s: Mbc5State, k: int, v: u8, w: u8)
    requires
        0 <= k < 0x2000,
    ensures
        s.ram_enabled && s.ram.len() >= (s.ram_bank as int + 1) * 0x2000 ==> {
            &&& s.read_ram((0xA000 + k) as u16) == s.ram[s.ram_bank * 0x2000 + k]
            &&& s.write_ram((0xA000 + k) as u16, v).ram == s.ram.update(s.ram_bank * 0x2000 + k, v)
        },
        !s.ram_enabled ==> s.read_ram((0xA000 + k) as u16) == 0xFF && s.write_ram(
            (0xA000 + k) as u16,
            v,
        ) == s,
        s.write_rom(0x4000, w).ram_bank == w % 16,
        w < 0xF0 ==> s.write_rom(0x4000, (w + 16) as u8) == s.write_rom(0x4000, w),
{
    assert(((0xA000 + k) as u16) - 0xA000 == k);
}

} // verus!
