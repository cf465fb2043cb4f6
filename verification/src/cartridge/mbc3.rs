//! MBC3 with the optional real-time clock.

use vstd::prelude::*;

use crate::bits::{lemma_u8_fields, lemma_usize_fields};
use crate::clock::unix_time_secs;

use super::header::{cgb_support_of, CgbSupport};
use super::mbc1::lemma_bank_base_fits;
use super::{bank_count, copy_prefix, is_ram_enable, loaded, ram_enable_value, rom_bank_count, rom_byte};

verus! {

/// RTC registers `[S, M, H, DL, DH]` for a wall clock of `t` seconds since the Unix epoch:
/// a 9-bit day counter, with the DH carry and halt bits clear.
pub open spec fn rtc_registers(t: u64) -> Seq<u8> {
    let days = (t / 86400) % 512;
    let sec_day = t % 86400;
    seq![
        (sec_day % 60) as u8,
        ((sec_day % 3600) / 60) as u8,
        (sec_day / 3600) as u8,
        (days % 256) as u8,
        (days / 256) as u8,
    ]
}

/// Abstract state of an MBC3 controller.
pub struct Mbc3State {
    pub rom: Seq<u8>,
    pub ram: Seq<u8>,
    pub ram_enabled: bool,
    pub rom_bank: u8,
    pub ram_bank: u8,
    pub battery: bool,
    /// A `00` was written to `6000–7FFF`; a following `01` latches the clock.
    pub rtc_latch_saw_zero: bool,
    /// Clock registers frozen by the last latch.
    pub rtc_latched: Option<Seq<u8>>,
}

impl Mbc3State {
    pub open spec fn banks(self) -> nat {
        bank_count(self.rom.len())
    }

    /// Bank mapped at `4000–7FFF`.
    pub open spec fn effective_rom_bank(self) -> nat {
        if self.rom_bank == 0 {
            1
        } else {
            self.rom_bank as nat % self.banks()
        }
    }

    pub open spec fn rom_read_ok(self, addr: u16) -> bool {
        addr >= 0x4000 || addr < self.rom.len()
    }

    pub open spec fn read_rom(self, addr: u16) -> u8 {
        if addr < 0x4000 {
            self.rom[addr as int]
        } else {
            rom_byte(self.rom, self.effective_rom_bank() * 0x4000 + (addr - 0x4000))
        }
    }

    /// State after a write of `v` to `addr` in `0000–7FFF`, with the wall clock at `now`.
    pub open spec fn write_rom_at(self, addr: u16, v: u8, now: u64) -> Mbc3State {
        if addr < 0x2000 {
            Mbc3State { ram_enabled: ram_enable_value(v), ..self }
        } else if addr < 0x4000 {
            Mbc3State { rom_bank: if v % 128 == 0 { 1 } else { v % 128 }, ..self }
        } else if addr < 0x6000 {
            Mbc3State { ram_bank: v, ..self }
        } else if addr < 0x8000 {
            if v == 0 {
                Mbc3State { rtc_latch_saw_zero: true, ..self }
            } else if v == 1 && self.rtc_latch_saw_zero {
                Mbc3State { rtc_latched: Some(rtc_registers(now)), rtc_latch_saw_zero: false, ..self }
            } else {
                Mbc3State { rtc_latch_saw_zero: false, ..self }
            }
        } else {
            self
        }
    }

    /// Whether RAM bank register selects a clock register (`08–0C`).
    pub open spec fn rtc_mapped(self) -> bool {
        0x08 <= self.ram_bank && self.ram_bank <= 0x0C
    }

    pub open spec fn ram_access_ok(self, addr: u16) -> bool {
        addr >= 0xA000 || !self.ram_enabled || self.rtc_mapped() || self.ram.len() == 0
    }

    pub open spec fn ram_offset(self, addr: u16) -> int {
        (self.ram_bank % 8) as int * 0x2000 + (addr - 0xA000) % 0x2000
    }

    /// Value read at `addr` in `A000–BFFF` with the wall clock at `now`.
    pub open spec fn read_ram_at(self, addr: u16, now: u64) -> u8 {
        if !self.ram_enabled {
            0xFF
        } else if self.rtc_mapped() {
            let regs = match self.rtc_latched {
                Some(l) => l,
                None => rtc_registers(now),
            };
            regs[self.ram_bank - 8]
        } else if self.ram.len() == 0 {
            0xFF
        } else {
            rom_byte(self.ram, self.ram_offset(addr))
        }
    }

    pub open spec fn write_ram(self, addr: u16, v: u8) -> Mbc3State {
        if !self.ram_enabled || self.rtc_mapped() || self.ram.len() == 0 {
            self
        } else if 0 <= self.ram_offset(addr) < self.ram.len() {
            Mbc3State { ram: self.ram.update(self.ram_offset(addr), v), ..self }
        } else {
            self
        }
    }

    pub open spec fn wf(self) -> bool {
        self.rtc_latched matches Some(l) ==> l.len() == 5
    }
}


/// Clock registers for a wall clock of `t` seconds since the Unix epoch.
pub fn rtc_registers_from_secs(t: u64) -> (r: [u8; 5])
    ensures
        r@ == rtc_registers(t),
{
    let days = (t / 86400) % 512;
    let sec_day = t % 86400;
    let h = (sec_day / 3600) as u8;
    let m = ((sec_day % 3600) / 60) as u8;
    let s = (sec_day % 60) as u8;
    let dl = (days % 256) as u8;
    let dh = (days / 256) as u8;
    let r = [s, m, h, dl, dh];
    assert(r@ =~= rtc_registers(t));
    r
}

#[derive(Debug)]
pub struct Mbc3 {
    rom: Vec<u8>,
    ram: Vec<u8>,
    ram_enabled: bool,
    rom_bank: u8,
    ram_bank: u8,
    battery: bool,
    rtc_latch_saw_zero: bool,
    rtc_latched: Option<[u8; 5]>,
}

impl View for Mbc3 {
    type V = Mbc3State;

    closed spec fn view(&self) -> Mbc3State {
        Mbc3State {
            rom: self.rom@,
            ram: self.ram@,
            ram_enabled: self.ram_enabled,
            rom_bank: self.rom_bank,
            ram_bank: self.ram_bank,
            battery: self.battery,
            rtc_latch_saw_zero: self.rtc_latch_saw_zero,
            rtc_latched: match self.rtc_latched {
                Some(l) => Some(l@),
                None => None,
            },
        }
    }
}

impl Mbc3 {
    /// Length of the ROM image.
    pub fn rom_len(&self) -> (r: usize)
        ensures
            r == self@.rom.len(),
    {
        self.rom.len()
    }

    pub fn new(rom: Vec<u8>, ram_size: usize, battery: bool) -> (r: Self)
        ensures
            r@ == (Mbc3State {
                rom: rom@,
                ram: Seq::new(if ram_size >= 0x2000 { ram_size as nat } else { 0x2000 }, |i: int| 0u8),
                ram_enabled: false,
                rom_bank: 1,
                ram_bank: 0,
                battery,
                rtc_latch_saw_zero: false,
                rtc_latched: None,
            }),
            r@.wf(),
    {
        let n = if ram_size >= 0x2000 { ram_size } else { 0x2000 };
        let ram = vec![0u8; n];
        let r = Mbc3 {
            rom,
            ram,
            ram_enabled: false,
            rom_bank: 1,
            ram_bank: 0,
            battery,
            rtc_latch_saw_zero: false,
            rtc_latched: None,
        };
        assert(r.ram@ =~= Seq::new(n as nat, |i: int| 0u8));
        r
    }

    /// Live clock registers read from the system clock.
    fn rtc_live_registers(&self) -> (r: [u8; 5])
        ensures
            exists|t: u64| r@ == rtc_registers(t),
    {
        let t = unix_time_secs();
        rtc_registers_from_secs(t)
    }

    fn rom_banks(&self) -> (r: usize)
        ensures
            r == self@.banks(),
    {
        rom_bank_count(self.rom.len())
    }

    pub fn read_rom(&self, addr: u16) -> (r: u8)
        requires
            self@.rom_read_ok(addr),
        ensures
            r == self@.read_rom(addr),
    {
        let a = addr as usize;
        if a < 0x4000 {
            self.rom[a]
        } else {
            let bank = if self.rom_bank == 0 {
                1
            } else {
                self.rom_bank as usize % self.rom_banks()
            };
            let len = self.rom.len();
            if bank * 0x4000 > len {
                return 0xFF;
            }
            let base = bank * 0x4000;
            let off = a - 0x4000;
            if off < len - base {
                self.rom[base + off]
            } else {
                0xFF
            }
        }
    }

    /// Write to `0000–7FFF` with the wall clock at `now`.
    pub fn write_rom_at(&mut self, addr: u16, value: u8, now: u64)
        ensures
            final(self)@ == old(self)@.write_rom_at(addr, value, now),
            old(self)@.wf() ==> final(self)@.wf(),
    {
        assert(value & 0x7Fu8 == value % 128) by { lemma_u8_fields(); }
        if addr < 0x2000 {
            self.ram_enabled = is_ram_enable(value);
        } else if addr < 0x4000 {
            self.rom_bank = value & 0x7F;
            if self.rom_bank == 0 {
                self.rom_bank = 1;
            }
        } else if addr < 0x6000 {
            self.ram_bank = value;
        } else if addr < 0x8000 {
            if value == 0 {
                self.rtc_latch_saw_zero = true;
            } else if value == 1 && self.rtc_latch_saw_zero {
                self.rtc_latched = Some(rtc_registers_from_secs(now));
                self.rtc_latch_saw_zero = false;
            } else {
                self.rtc_latch_saw_zero = false;
            }
        }
    }

    /// Write to `0000–7FFF`; a latch command freezes the clock as read from the system clock.
    pub fn write_rom(&mut self, addr: u16, value: u8)
        ensures
            exists|t: u64| final(self)@ == old(self)@.write_rom_at(addr, value, t),
            old(self)@.wf() ==> final(self)@.wf(),
    {
        let now = if addr >= 0x6000 && addr < 0x8000 && value == 1 && self.rtc_latch_saw_zero {
            unix_time_secs()
        } else {
            0
        };
        self.write_rom_at(addr, value, now);
    }

    /// Read of `A000–BFFF` with the wall clock at `now`.
    pub fn read_ram_at(&self, addr: u16, now: u64) -> (r: u8)
        requires
            self@.ram_access_ok(addr),
            self@.wf(),
        ensures
            r == self@.read_ram_at(addr, now),
    {
        if !self.ram_enabled {
            return 0xFF;
        }
        if self.ram_bank >= 0x08 && self.ram_bank <= 0x0C {
            let regs = match self.rtc_latched {
                Some(l) => l,
                None => rtc_registers_from_secs(now),
            };
            let idx = (self.ram_bank - 0x08) as usize;
            return regs[idx];
        }
        if self.ram.len() == 0 {
            return 0xFF;
        }
        let offset = self.ram_offset(addr);
        if offset < self.ram.len() {
            self.ram[offset]
        } else {
            0xFF
        }
    }

    /// Read of `A000–BFFF`; unlatched clock registers come from the system clock.
    pub fn read_ram(&self, addr: u16) -> (r: u8)
        requires
            self@.ram_access_ok(addr),
            self@.wf(),
        ensures
            exists|t: u64| r == self@.read_ram_at(addr, t),
    {
        let now = if self.ram_enabled && self.ram_bank >= 0x08 && self.ram_bank <= 0x0C
            && self.rtc_latched.is_none() {
            unix_time_secs()
        } else {
            0
        };
        self.read_ram_at(addr, now)
    }

    fn ram_offset(&self, addr: u16) -> (r: usize)
        requires
            addr >= 0xA000,
        ensures
            r == self@.ram_offset(addr),
    {
        let rel = (addr - 0xA000) as usize;
        let rb = self.ram_bank as usize;
        assert(rb & 0x07usize == rb % 8) by { lemma_usize_fields(); }
        assert(rel & 0x1FFFusize == rel % 0x2000) by { lemma_usize_fields(); }
        (rb & 0x07) * 0x2000 + (rel & 0x1FFF)
    }

    pub fn write_ram(&mut self, addr: u16, value: u8)
        requires
            old(self)@.ram_access_ok(addr),
        ensures
            final(self)@ == old(self)@.write_ram(addr, value),
    {
        if !self.ram_enabled {
            return;
        }
        if self.ram_bank >= 0x08 && self.ram_bank <= 0x0C {
            return;
        }
        if self.ram.len() == 0 {
            return;
        }
        let offset = self.ram_offset(addr);
        if offset < self.ram.len() {
            self.ram.set(offset, value);
        }
    }

    pub fn battery_backed(&self) -> (r: bool)
        ensures
            r == self@.battery,
    {
        self.battery
    }

    pub fn external_ram(&self) -> (r: Option<&[u8]>)
        ensures
            self@.ram.len() == 0 ==> r is None,
            self@.ram.len() > 0 ==> r is Some && r->Some_0@ == self@.ram,
    {
        if self.ram.len() == 0 {
            None
        } else {
            Some(self.ram.as_slice())
        }
    }

    pub fn load_ram(&mut self, data: &[u8])
        ensures
            final(self)@ == (Mbc3State { ram: loaded(old(self)@.ram, data@), ..old(self)@ }),
    {
        if self.ram.len() == 0 {
            assert(loaded(self.ram@, data@) =~= self.ram@);
            return;
        }
        copy_prefix(&mut self.ram, data);
    }

    pub fn cgb_support(&self) -> (r: CgbSupport)
        ensures
            r == cgb_support_of(if self@.rom.len() > 0x143 { self@.rom[0x143] } else { 0 }),
    {
        let b = if self.rom.len() > 0x143 { self.rom[0x143] } else { 0 };
        CgbSupport::from_header_byte(b)
    }
}

/// ROM bank switching: after writing `n` (1–0x7F) to `2000–3FFF` of a ROM with more than `n`
/// banks, `4000–7FFF` shows bank `n`; writing 0 selects bank 1; and bit 7 of the value is
/// ignored, so `v` and `v + 0x80` select the same bank.
#[verifier::spinoff_prover]
pub proof fn lemma_mbc3_rom_bank_switch(s: Mbc3State, addr: u16, v: u8, now: u64, k: int)
    requires
        0x2000 <= addr < 0x4000,
        0 <= k < 0x4000,
    ensures
        1 <= v <= 0x7F && s.rom.len() >= (v as int + 1) * 0x4000 ==> s.write_rom_at(addr, v, now).read_rom(
            (0x4000 + k) as u16,
        ) == s.rom[v as int * 0x4000 + k],
        v == 0 && s.rom.len() >= 0x8000 ==> s.write_rom_at(addr, v, now).read_rom((0x4000 + k) as u16)
            == s.rom[0x4000 + k],
        v < 0x80 ==> s.write_rom_at(addr, (v + 0x80) as u8, now) == s.write_rom_at(addr, v, now),
{
    let t = s.write_rom_at(addr, v, now);
    assert(((0x4000 + k) as u16) - 0x4000 == k);
    if 1 <= v <= 0x7F && s.rom.len() >= (v as int + 1) * 0x4000 {
        assert(t.rom_bank == v);
        assert(t.banks() >= v as int + 1);
        vstd::arithmetic::div_mod::lemma_small_mod(v as nat, t.banks());
        assert(t.effective_rom_bank() == v as nat);
    }
    if v == 0 && s.rom.len() >= 0x8000 {
        assert(t.rom_bank == 1);
        assert(t.banks() >= 2);
        vstd::arithmetic::div_mod::lemma_small_mod(1, t.banks());
        assert(t.effective_rom_bank() == 1);
    }
}

/// External RAM banking: with RAM enabled and RAM bank `b` (0–7, not a clock register)
/// selected, `A000 + k` reads and writes byte `b * 0x2000 + k` of the RAM; with RAM
/// disabled reads give 0xFF and writes do nothing.
pub proof fn lemma_mbc3_ram_banking(s: Mbc3State, k: int, v: u8, now: u64)
    requires
        0 <= k < 0x2000,
    ensures
        s.ram_enabled && s.ram_bank < 8 && s.ram.len() >= (s.ram_bank as int + 1) * 0x2000 ==> {
            &&& s.read_ram_at((0xA000 + k) as u16, now) == s.ram[s.ram_bank * 0x2000 + k]
            &&& s.write_ram((0xA000 + k) as u16, v).ram == s.ram.update(s.ram_bank * 0x2000 + k, v)
        },
        !s.ram_enabled ==> s.read_ram_at((0xA000 + k) as u16, now) == 0xFF && s.write_ram(
            (0xA000 + k) as u16,
            v,
        ) == s,
{
    assert(((0xA000 + k) as u16) - 0xA000 == k);
}

} // verus!
