//! MBC1 (also used for MBC2 cartridges, whose 512 nibbles are mapped as bytes).

use vstd::prelude::*;

use crate::bits::{lemma_u8_fields, lemma_usize_fields};
use super::header::{cgb_support_of, CgbSupport};
use super::{bank_count, copy_prefix, is_ram_enable, ram_enable_value, rom_bank_count, rom_byte};

verus! {

/// Abstract state of an MBC1 controller.
pub struct Mbc1State {
    pub rom: Seq<u8>,
    pub ram: Seq<u8>,
    pub ram_enabled: bool,
    pub rom_bank: u8,
    pub ram_bank: u8,
    pub banking_mode: u8,
    pub battery: bool,
}

impl Mbc1State {
    pub open spec fn banks(self) -> nat {
        bank_count(self.rom.len())
    }

    /// Mask of valid low bank bits: the bank count truncated to a byte, minus one (saturating).
    pub open spec fn rom_bank_mask(self) -> u8 {
        let n = (self.banks() % 256) as u8;
        if n == 0 {
            0
        } else {
            (n - 1) as u8
        }
    }

    /// Low five bank bits (0 reads as 1), masked to the ROM size.
    pub open spec fn rom_bank_lo(self) -> u8 {
        let b = self.rom_bank % 32;
        let b = if b == 0 {
            1u8
        } else {
            b
        };
        b & self.rom_bank_mask()
    }

    /// Upper bank bits taken from the RAM bank register.
    pub open spec fn rom_bank_hi(self) -> nat {
        (self.ram_bank % 4) as nat * 32
    }

    /// Bank mapped at `4000–7FFF`.
    pub open spec fn effective_rom_bank(self) -> nat {
        let hi = if self.banking_mode == 1 {
            self.rom_bank_hi()
        } else {
            0
        };
        (self.rom_bank_lo() + hi) as nat % self.banks()
    }

    /// Bank mapped at `0000–3FFF`.
    pub open spec fn low_bank(self) -> nat {
        if self.banking_mode == 1 {
            self.rom_bank_hi() % self.banks()
        } else {
            0
        }
    }

    /// ROM index a read of `addr` looks at.
    pub open spec fn rom_index(self, addr: u16) -> int {
        if addr < 0x4000 {
            self.low_bank() * 0x4000 + addr
        } else {
            self.effective_rom_bank() * 0x4000 + (addr - 0x4000)
        }
    }

    /// Reads of `0000–3FFF` index the ROM directly and need the index to be in range.
    pub open spec fn rom_read_ok(self, addr: u16) -> bool {
        addr >= 0x4000 || self.rom_index(addr) < self.rom.len()
    }

    pub open spec fn read_rom(self, addr: u16) -> u8 {
        rom_byte(self.rom, self.rom_index(addr))
    }

    pub open spec fn write_rom(self, addr: u16, v: u8) -> Mbc1State {
        if addr < 0x2000 {
            Mbc1State { ram_enabled: ram_enable_value(v), ..self }
        } else if addr < 0x4000 {
            Mbc1State { rom_bank: if v % 32 == 0 { 1 } else { v % 32 }, ..self }
        } else if addr < 0x6000 {
            Mbc1State { ram_bank: v % 4, ..self }
        } else if addr < 0x8000 {
            Mbc1State { banking_mode: v % 2, ..self }
        } else {
            self
        }
    }

    /// External RAM index for `addr` (in `A000–BFFF`).
    pub open spec fn ram_offset(self, addr: u16) -> int {
        if self.banking_mode == 0 {
            (((addr - 0xA000) as usize) & ((self.ram.len() - 1) as usize)) as int
        } else {
            (self.ram_bank % 4) as int * 0x2000 + (addr - 0xA000) % 0x2000
        }
    }

    /// RAM accesses subtract `0xA000` from the address once RAM is enabled.
    pub open spec fn ram_access_ok(self, addr: u16) -> bool {
        addr >= 0xA000 || !self.ram_enabled || self.ram.len() == 0
    }

    pub open spec fn read_ram(self, addr: u16) -> u8 {
        if !self.ram_enabled || self.ram.len() == 0 {
            0xFF
        } else {
            rom_byte(self.ram, self.ram_offset(addr))
        }
    }

    pub open spec fn write_ram(self, addr: u16, v: u8) -> Mbc1State {
        if !self.ram_enabled || self.ram.len() == 0 {
            self
        } else if 0 <= self.ram_offset(addr) < self.ram.len() {
            Mbc1State { ram: self.ram.update(self.ram_offset(addr), v), ..self }
        } else {
            self
        }
    }
}

#[derive(Debug)]
pub struct Mbc1 {
    rom: Vec<u8>,
    ram: Vec<u8>,
    ram_enabled: bool,
    rom_bank: u8,
    ram_bank: u8,
    banking_mode: u8,
    battery: bool,
}

impl View for Mbc1 {
    type V = Mbc1State;

    closed spec fn view(&self) -> Mbc1State {
        Mbc1State {
            rom: self.rom@,
            ram: self.ram@,
            ram_enabled: self.ram_enabled,
            rom_bank: self.rom_bank,
            ram_bank: self.ram_bank,
            banking_mode: self.banking_mode,
            battery: self.battery,
        }
    }
}

impl Mbc1 {
    /// Length of the ROM image.
    pub fn rom_len(&self) -> (r: usize)
        ensures
            r == self@.rom.len(),
    {
        self.rom.len()
    }

    pub fn new(rom: Vec<u8>, ram_size: usize, battery: bool) -> (r: Self)
        ensures
            r@ == (Mbc1State {
                rom: rom@,
                ram: Seq::new(if ram_size >= 0x2000 { ram_size as nat } else { 0x2000 }, |i: int| 0u8),
                ram_enabled: false,
                rom_bank: 1,
                ram_bank: 0,
                banking_mode: 0,
                battery,
            }),
    {
        let n = if ram_size >= 0x2000 { ram_size } else { 0x2000 };
        let ram = vec![0u8; n];
        let r = Mbc1 { rom, ram, ram_enabled: false, rom_bank: 1, ram_bank: 0, banking_mode: 0, battery };
        assert(r.ram@ =~= Seq::new(n as nat, |i: int| 0u8));
        r
    }

    fn rom_bank_mask(&self) -> (r: u8)
        ensures
            r == self@.rom_bank_mask(),
    {
        let banks = rom_bank_count(self.rom.len());
        let b = (banks & 0xFF) as u8;
        assert(banks & 0xFFusize == banks % 256) by {
            lemma_usize_fields();
        }
        if b == 0 {
            0
        } else {
            b - 1
        }
    }

    fn rom_bank_lo(&self) -> (r: u8)
        ensures
            r == self@.rom_bank_lo(),
            r < 32,
    {
        let rb = self.rom_bank;
        assert(rb & 0x1Fu8 == rb % 32) by { lemma_u8_fields(); }
        let mut b = self.rom_bank & 0x1F;
        if b == 0 {
            b = 1;
        }
        let m = self.rom_bank_mask();
        assert(b & m <= b) by { lemma_u8_fields(); }
        b & m
    }

    fn rom_bank_hi_bits(&self) -> (r: usize)
        ensures
            r == self@.rom_bank_hi(),
    {
        let rb = self.ram_bank as usize;
        assert((rb & 0x03usize) << 5usize == (rb % 4) * 32) by { lemma_usize_fields(); }
        (rb & 0x03) << 5
    }

    fn effective_rom_bank_n(&self) -> (r: usize)
        ensures
            r == self@.effective_rom_bank(),
            r < self@.banks(),
    {
        let num = rom_bank_count(self.rom.len());
        let lo = self.rom_bank_lo() as usize;
        let mut bank = lo;
        if self.banking_mode == 1 {
            let hi = self.rom_bank_hi_bits();
            assert(lo | hi == lo + hi) by { lemma_usize_fields(); }
            bank = lo | hi;
        }
        bank % num
    }

    pub fn read_rom(&self, addr: u16) -> (r: u8)
        requires
            self@.rom_read_ok(addr),
        ensures
            r == self@.read_rom(addr),
    {
        let a = addr as usize;
        if a < 0x4000 {
            let num = rom_bank_count(self.rom.len());
            let bank0 = if self.banking_mode == 1 {
                self.rom_bank_hi_bits() % num
            } else {
                0
            };
            self.rom[bank0 * 0x4000 + a]
        } else {
            let bank = self.effective_rom_bank_n();
            let len = self.rom.len();
            proof {
                lemma_bank_base_fits(bank as nat, self.rom@.len());
            }
            let base = bank * 0x4000;
            let off = a - 0x4000;
            if off < len - base {
                self.rom[base + off]
            } else {
                0xFF
            }
        }
    }

    pub fn write_rom(&mut self, addr: u16, value: u8)
        ensures
            final(self)@ == old(self)@.write_rom(addr, value),
    {
        assert(value & 0x1Fu8 == value % 32) by { lemma_u8_fields(); }
        assert(value & 0x03u8 == value % 4) by { lemma_u8_fields(); }
        assert(value & 0x01u8 == value % 2) by { lemma_u8_fields(); }
        if addr < 0x2000 {
            self.ram_enabled = is_ram_enable(value);
        } else if addr < 0x4000 {
            let mut bank = value & 0x1F;
            if bank == 0 {
                bank = 1;
            }
            self.rom_bank = bank;
        } else if addr < 0x6000 {
            self.ram_bank = value & 0x03;
        } else if addr < 0x8000 {
            self.banking_mode = value & 0x01;
        }
    }

    fn ram_offset(&self, addr: u16) -> (r: usize)
        requires
            addr >= 0xA000,
            self.ram@.len() > 0,
        ensures
            r == self@.ram_offset(addr),
    {
        let rel = (addr - 0xA000) as usize;
        if self.banking_mode == 0 {
            rel & (self.ram.len() - 1)
        } else {
            let bank = (self.ram_bank as usize) & 0x03;
            let rb = self.ram_bank as usize;
            assert(rb & 0x03usize == rb % 4) by { lemma_usize_fields(); }
            assert(rel & 0x1FFFusize == rel % 0x2000) by { lemma_usize_fields(); }
            bank * 0x2000 + (rel & 0x1FFF)
        }
    }

    pub fn read_ram(&self, addr: u16) -> (r: u8)
        requires
            self@.ram_access_ok(addr),
        ensures
            r == self@.read_ram(addr),
    {
        if !self.ram_enabled || self.ram.len() == 0 {
            return 0xFF;
        }
        let offset = self.ram_offset(addr);
        if offset < self.ram.len() {
            self.ram[offset]
        } else {
            0xFF
        }
    }

    pub fn write_ram(&mut self, addr: u16, value: u8)
        requires
            old(self)@.ram_access_ok(addr),
        ensures
            final(self)@ == old(self)@.write_ram(addr, value),
    {
        if !self.ram_enabled || self.ram.len() == 0 {
            return;
        }
        let offset = self.ram_offset(addr);
        if offset < self.ram.len() {
            self.ram.set(offset, value);
        }
    }

    pub fn battery_backed(&self) -> (r: bool)
        ensures
            r == self@.battery,
    {
        self.battery
    }

    pub fn external_ram(&self) -> (r: Option<&[u8]>)
        ensures
            self@.ram.len() == 0 ==> r is None,
            self@.ram.len() > 0 ==> r is Some && r->Some_0@ == self@.ram,
    {
        if self.ram.len() == 0 {
            None
        } else {
            Some(self.ram.as_slice())
        }
    }

    pub fn load_ram(&mut self, data: &[u8])
        ensures
            final(self)@ == (Mbc1State { ram: super::loaded(old(self)@.ram, data@), ..old(self)@ }),
    {
        if self.ram.len() == 0 {
            assert(super::loaded(self.ram@, data@) =~= self.ram@);
            return;
        }
        copy_prefix(&mut self.ram, data);
    }

    pub fn cgb_support(&self) -> (r: CgbSupport)
        ensures
            r == cgb_support_of(if self@.rom.len() > 0x143 { self@.rom[0x143] } else { 0 }),
    {
        let b = if self.rom.len() > 0x143 { self.rom[0x143] } else { 0 };
        CgbSupport::from_header_byte(b)
    }
}

/// A bank index below the bank count starts inside the ROM (or is bank 0).
pub proof fn lemma_bank_base_fits(bank: nat, len: nat)
    requires
        bank < bank_count(len),
    ensures
        bank * 0x4000 <= len,
{
    if len / 0x4000 >= 1 {
        assert(bank * 0x4000 <= (len / 0x4000) * 0x4000) by (nonlinear_arith)
            requires bank < len / 0x4000;
        assert((len / 0x4000) * 0x4000 <= len) by (nonlinear_arith);
    }
}

/// ROM bank switching in the default mode: on a ROM of `2^m` banks (2 to 32), after
/// writing `n` (1 to `2^m - 1`) to `2000–3FFF`, `4000–7FFF` shows bank `n`; writing 0
/// selects bank 1; and only the low five bits of the value count.
#[verifier::spinoff_prover]
pub proof fn lemma_mbc1_rom_bank_switch(s: Mbc1State, addr: u16, n: u8, m: nat, k: int)
    requires
        0x2000 <= addr < 0x4000,
        s.banking_mode == 0,
        1 <= m <= 5,
        s.rom.len() == 0x4000 * crate::bits::pow2_u8(m as int),
        0 <= k < 0x4000,
    ensures
        1 <= n < crate::bits::pow2_u8(m as int) ==> s.write_rom(addr, n).read_rom((0x4000 + k) as u16)
            == s.rom[n * 0x4000 + k],
        n == 0 ==> s.write_rom(addr, n).read_rom((0x4000 + k) as u16) == s.rom[0x4000 + k],
        s.write_rom(addr, (n % 32) as u8) == s.write_rom(addr, n),
{
    reveal_with_fuel(crate::bits::pow2_u8, 6);
    lemma_u8_fields();
    let b = crate::bits::pow2_u8(m as int);
    let t = s.write_rom(addr, n);
    assert(t.banks() == b);
    assert(t.rom_bank_mask() == b - 1);
    assert(((0x4000 + k) as u16) - 0x4000 == k);
    let lo = if n % 32 == 0 { 1u8 } else { (n % 32) as u8 };
    assert(t.rom_bank % 32 == lo);
    assert(lo & ((b - 1) as u8) == lo % (b as u8)) by {
        assert(m == 1 || m == 2 || m == 3 || m == 4 || m == 5);
    }
    if 1 <= n < b {
        assert(t.rom_bank_lo() == n);
        vstd::arithmetic::div_mod::lemma_small_mod(n as nat, b as nat);
    }
    if n == 0 {
        assert(lo == 1);
        assert(b >= 2);
        assert(lo % (b as u8) == 1);
        assert(t.rom_bank_lo() == 1);
        vstd::arithmetic::div_mod::lemma_small_mod(1, b as nat);
    }
}

/// External RAM banking in the RAM banking mode (mode 1): with RAM enabled and RAM bank
/// `b` (the low two bits of the register) selected, `A000 + k` reads and writes byte
/// `b * 0x2000 + k` of the RAM; with RAM disabled reads give 0xFF and writes do nothing.
pub proof fn lemma_mbc1_ram_banking(s: Mbc1State, k: int, v: u8)
    requires
        0 <= k < 0x2000,
    ensures
        s.ram_enabled && s.banking_mode == 1 && s.ram.len() >= ((s.ram_bank % 4) as int + 1) * 0x2000
            ==> {
            &&& s.read_ram((0xA000 + k) as u16) == s.ram[(s.ram_bank % 4) * 0x2000 + k]
            &&& s.write_ram((0xA000 + k) as u16, v).ram == s.ram.update((s.ram_bank % 4) * 0x2000 + k, v)
        },
        !s.ram_enabled ==> s.read_ram((0xA000 + k) as u16) == 0xFF && s.write_ram(
            (0xA000 + k) as u16,
            v,
        ) == s,
{
    assert(((0xA000 + k) as u16) - 0xA000 == k);
}

} // verus!
