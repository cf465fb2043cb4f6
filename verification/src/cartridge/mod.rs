//! Cartridges: header parsing and the memory bank controllers.

pub mod header;
pub mod mbc1;
pub mod mbc3;
pub mod mbc5;
pub mod no_mbc;

pub use header::{CartridgeType, CgbSupport, Header, HeaderError};
pub use mbc1::Mbc1;
pub use mbc3::Mbc3;
pub use mbc5::Mbc5;
pub use no_mbc::NoMbc;

use vstd::prelude::*;

use crate::bits::lemma_u8_fields;
use header::{cgb_support_of, ram_size_of};
use mbc1::Mbc1State;
use mbc3::Mbc3State;
use mbc5::Mbc5State;

verus! {

/// Why a ROM image could not be turned into a cartridge.
#[derive(Debug, Clone, Copy, PartialEq, Eq, Structural)]
pub enum CartridgeError {
    Header(HeaderError),
    UnsupportedType(CartridgeType),
}

/// A cartridge: the ROM image behind one of the supported bank controllers.
#[derive(Debug)]
pub enum Cartridge {
    NoMbc(NoMbc),
    Mbc1(Mbc1),
    Mbc3(Mbc3),
    Mbc5(Mbc5),
}

/// Abstract state of a cartridge.
pub enum CartridgeState {
    NoMbc(Seq<u8>),
    Mbc1(Mbc1State),
    Mbc3(Mbc3State),
    Mbc5(Mbc5State),
}

impl View for Cartridge {
    type V = CartridgeState;

    open spec fn view(&self) -> CartridgeState {
        match self {
            Cartridge::NoMbc(c) => CartridgeState::NoMbc(c@),
            Cartridge::Mbc1(c) => CartridgeState::Mbc1(c@),
            Cartridge::Mbc3(c) => CartridgeState::Mbc3(c@),
            Cartridge::Mbc5(c) => CartridgeState::Mbc5(c@),
        }
    }
}

impl CartridgeState {
    pub open spec fn wf(self) -> bool {
        self matches CartridgeState::Mbc3(s) ==> s.wf()
    }

    pub open spec fn rom(self) -> Seq<u8> {
        match self {
            CartridgeState::NoMbc(r) => r,
            CartridgeState::Mbc1(s) => s.rom,
            CartridgeState::Mbc3(s) => s.rom,
            CartridgeState::Mbc5(s) => s.rom,
        }
    }

    /// Reads of `0000–3FFF` that index past the ROM panic in the bank controllers.
    pub open spec fn rom_read_ok(self, addr: u16) -> bool {
        match self {
            CartridgeState::NoMbc(_) => true,
            CartridgeState::Mbc1(s) => s.rom_read_ok(addr),
            CartridgeState::Mbc3(s) => s.rom_read_ok(addr),
            CartridgeState::Mbc5(s) => s.rom_read_ok(addr),
        }
    }

    pub open spec fn read_rom(self, addr: u16) -> u8 {
        match self {
            CartridgeState::NoMbc(r) => rom_byte(r, addr as int),
            CartridgeState::Mbc1(s) => s.read_rom(addr),
            CartridgeState::Mbc3(s) => s.read_rom(addr),
            CartridgeState::Mbc5(s) => s.read_rom(addr),
        }
    }

    /// State after writing `v` to `addr` in `0000–7FFF`, with the wall clock at `now`.
    pub open spec fn write_rom_at(self, addr: u16, v: u8, now: u64) -> CartridgeState {
        match self {
            CartridgeState::NoMbc(r) => CartridgeState::NoMbc(r),
            CartridgeState::Mbc1(s) => CartridgeState::Mbc1(s.write_rom(addr, v)),
            CartridgeState::Mbc3(s) => CartridgeState::Mbc3(s.write_rom_at(addr, v, now)),
            CartridgeState::Mbc5(s) => CartridgeState::Mbc5(s.write_rom(addr, v)),
        }
    }

    pub open spec fn ram_access_ok(self, addr: u16) -> bool {
        match self {
            CartridgeState::NoMbc(_) => true,
            CartridgeState::Mbc1(s) => s.ram_access_ok(addr),
            CartridgeState::Mbc3(s) => s.ram_access_ok(addr),
            CartridgeState::Mbc5(s) => s.ram_access_ok(addr),
        }
    }

    /// Value read at `addr` in `A000–BFFF`, with the wall clock at `now`.
    pub open spec fn read_ram_at(self, addr: u16, now: u64) -> u8 {
        match self {
            CartridgeState::NoMbc(_) => 0xFF,
            CartridgeState::Mbc1(s) => s.read_ram(addr),
            CartridgeState::Mbc3(s) => s.read_ram_at(addr, now),
            CartridgeState::Mbc5(s) => s.read_ram(addr),
        }
    }

    pub open spec fn write_ram(self, addr: u16, v: u8) -> CartridgeState {
        match self {
            CartridgeState::NoMbc(r) => CartridgeState::NoMbc(r),
            CartridgeState::Mbc1(s) => CartridgeState::Mbc1(s.write_ram(addr, v)),
            CartridgeState::Mbc3(s) => CartridgeState::Mbc3(s.write_ram(addr, v)),
            CartridgeState::Mbc5(s) => CartridgeState::Mbc5(s.write_ram(addr, v)),
        }
    }

    pub open spec fn battery(self) -> bool {
        match self {
            CartridgeState::NoMbc(_) => false,
            CartridgeState::Mbc1(s) => s.battery,
            CartridgeState::Mbc3(s) => s.battery,
            CartridgeState::Mbc5(s) => s.battery,
        }
    }

    /// Battery-backed external RAM image (empty when the cartridge has none).
    pub open spec fn ram(self) -> Seq<u8> {
        match self {
            CartridgeState::NoMbc(_) => Seq::empty(),
            CartridgeState::Mbc1(s) => s.ram,
            CartridgeState::Mbc3(s) => s.ram,
            CartridgeState::Mbc5(s) => s.ram,
        }
    }

    pub open spec fn load_ram(self, data: Seq<u8>) -> CartridgeState {
        match self {
            CartridgeState::NoMbc(r) => CartridgeState::NoMbc(r),
            CartridgeState::Mbc1(s) => CartridgeState::Mbc1(Mbc1State { ram: loaded(s.ram, data), ..s }),
            CartridgeState::Mbc3(s) => CartridgeState::Mbc3(Mbc3State { ram: loaded(s.ram, data), ..s }),
            CartridgeState::Mbc5(s) => CartridgeState::Mbc5(Mbc5State { ram: loaded(s.ram, data), ..s }),
        }
    }

    /// Every ROM read is in range and every state invariant holds: a controller needs at
    /// least one full 16 KiB bank behind `0000–3FFF`.
    pub open spec fn reads_ok(self) -> bool {
        &&& self.wf()
        &&& (self is NoMbc || self.rom().len() >= 0x4000)
    }

    pub open spec fn has_clock(self) -> bool {
        self is Mbc3
    }

    pub open spec fn cgb_support(self) -> CgbSupport {
        cgb_support_of(if self.rom().len() > 0x143 { self.rom()[0x143] } else { 0 })
    }
}

/// Whether an access to `addr` in `A000–BFFF` reaches a byte of external RAM: RAM enabled
/// and present, not an MBC3 clock register, and the bank offset inside the RAM.
pub open spec fn ram_mapped(c: CartridgeState, addr: u16) -> bool {
    match c {
        CartridgeState::NoMbc(_) => false,
        CartridgeState::Mbc1(s) => s.ram_enabled && s.ram.len() > 0 && 0 <= s.ram_offset(addr) < s.ram.len(),
        CartridgeState::Mbc3(s) => s.ram_enabled && !s.rtc_mapped() && s.ram.len() > 0 && 0 <= s.ram_offset(
            addr,
        ) < s.ram.len(),
        CartridgeState::Mbc5(s) => s.ram_enabled && s.ram.len() > 0 && 0 <= s.ram_offset(addr) < s.ram.len(),
    }
}

/// External RAM reads back what was written to it, whatever the clock.
pub proof fn lemma_ram_read_after_write(c: CartridgeState, addr: u16, v: u8, t: u64)
    requires
        ram_mapped(c, addr),
    ensures
        c.write_ram(addr, v).read_ram_at(addr, t) == v,
{
}

/// Loading a cartridge's own RAM image back changes nothing: a save restores exactly.
pub proof fn lemma_load_own_ram(c: CartridgeState)
    ensures
        c.load_ram(c.ram()) == c,
{
    match c {
        CartridgeState::Mbc1(s) => {
            assert(loaded(s.ram, s.ram) =~= s.ram);
        },
        CartridgeState::Mbc3(s) => {
            assert(loaded(s.ram, s.ram) =~= s.ram);
        },
        CartridgeState::Mbc5(s) => {
            assert(loaded(s.ram, s.ram) =~= s.ram);
        },
        _ => {},
    }
}

/// Loading saved RAM keeps its size, so a save of the loaded cartridge is as long as before.
pub proof fn lemma_load_keeps_ram_size(c: CartridgeState, data: Seq<u8>)
    ensures
        c.load_ram(data).ram().len() == c.ram().len(),
        c.load_ram(data).rom() == c.rom(),
{
}

/// A cartridge that `reads_ok` can serve a read of any address in `0000–7FFF` and any
/// external RAM access in `A000–BFFF`.
pub broadcast proof fn lemma_reads_ok(c: CartridgeState, addr: u16)
    requires
        c.reads_ok(),
    ensures
        #[trigger] c.rom_read_ok(addr),
        addr >= 0xA000 ==> c.ram_access_ok(addr),
{
    match c {
        CartridgeState::Mbc1(s) => {
            if addr < 0x4000 && s.banking_mode == 1 {
                let b = s.banks();
                let lb = s.rom_bank_hi() % b;
                assert(b == s.rom.len() / 0x4000);
                assert(lb < b);
                assert(lb * 0x4000 + addr < s.rom.len()) by (nonlinear_arith)
                    requires
                        lb < b,
                        b == s.rom.len() / 0x4000,
                        addr < 0x4000,
                ;
            }
        },
        _ => {},
    }
}

impl Cartridge {
    /// Whether the cartridge is a plain ROM without a bank controller.
    pub fn is_rom_only(&self) -> (r: bool)
        ensures
            r == (self@ is NoMbc),
    {
        match self {
            Cartridge::NoMbc(_) => true,
            _ => false,
        }
    }

    /// Length of the ROM image.
    pub fn rom_len(&self) -> (r: usize)
        ensures
            r == self@.rom().len(),
    {
        match self {
            Cartridge::NoMbc(c) => c.rom_len(),
            Cartridge::Mbc1(c) => c.rom_len(),
            Cartridge::Mbc3(c) => c.rom_len(),
            Cartridge::Mbc5(c) => c.rom_len(),
        }
    }

    /// Whether the controller has a real-time clock (MBC3).
    pub fn has_clock(&self) -> (r: bool)
        ensures
            r == self@.has_clock(),
    {
        match self {
            Cartridge::Mbc3(_) => true,
            _ => false,
        }
    }

    pub fn read_rom(&self, addr: u16) -> (r: u8)
        requires
            self@.rom_read_ok(addr),
        ensures
            r == self@.read_rom(addr),
    {
        match self {
            Cartridge::NoMbc(c) => c.read_rom(addr),
            Cartridge::Mbc1(c) => c.read_rom(addr),
            Cartridge::Mbc3(c) => c.read_rom(addr),
            Cartridge::Mbc5(c) => c.read_rom(addr),
        }
    }

    /// Bank-controller register write, with the wall clock at `now` for an MBC3 latch.
    pub fn write_rom_at(&mut self, addr: u16, value: u8, now: u64)
        ensures
            final(self)@ == old(self)@.write_rom_at(addr, value, now),
            old(self)@.wf() ==> final(self)@.wf(),
    {
        match self {
            Cartridge::NoMbc(_) => {},
            Cartridge::Mbc1(c) => c.write_rom(addr, value),
            Cartridge::Mbc3(c) => c.write_rom_at(addr, value, now),
            Cartridge::Mbc5(c) => c.write_rom(addr, value),
        }
    }

    /// Bank-controller register write; an MBC3 clock latch reads the system clock.
    pub fn write_rom(&mut self, addr: u16, value: u8)
        ensures
            exists|t: u64| final(self)@ == old(self)@.write_rom_at(addr, value, t),
            old(self)@.wf() ==> final(self)@.wf(),
    {
        let ghost mut t: u64 = 0;
        match self {
            Cartridge::Mbc3(c) => {
                let ghost before = c@;
                c.write_rom(addr, value);
                proof {
                    t = choose|t: u64| c@ == before.write_rom_at(addr, value, t);
                }
            },
            _ => {
                self.write_rom_at(addr, value, 0);
            },
        }
        assert(self@ == old(self)@.write_rom_at(addr, value, t));
    }

    /// External RAM read with the wall clock at `now` for MBC3 clock registers.
    pub fn read_ram_at(&self, addr: u16, now: u64) -> (r: u8)
        requires
            self@.ram_access_ok(addr),
            self@.wf(),
        ensures
            r == self@.read_ram_at(addr, now),
    {
        match self {
            Cartridge::NoMbc(_) => 0xFF,
            Cartridge::Mbc1(c) => c.read_ram(addr),
            Cartridge::Mbc3(c) => c.read_ram_at(addr, now),
            Cartridge::Mbc5(c) => c.read_ram(addr),
        }
    }

    /// External RAM read; unlatched MBC3 clock registers come from the system clock.
    pub fn read_ram(&self, addr: u16) -> (r: u8)
        requires
            self@.ram_access_ok(addr),
            self@.wf(),
        ensures
            exists|t: u64| r == self@.read_ram_at(addr, t),
    {
        let ghost mut t: u64 = 0;
        let r = match self {
            Cartridge::Mbc3(c) => {
                let r = c.read_ram(addr);
                proof {
                    t = choose|t: u64| r == c@.read_ram_at(addr, t);
                }
                r
            },
            _ => self.read_ram_at(addr, 0),
        };
        assert(r == self@.read_ram_at(addr, t));
        r
    }

    pub fn write_ram(&mut self, addr: u16, value: u8)
        requires
            old(self)@.ram_access_ok(addr),
        ensures
            final(self)@ == old(self)@.write_ram(addr, value),
            old(self)@.wf() ==> final(self)@.wf(),
    {
        match self {
            Cartridge::NoMbc(_) => {},
            Cartridge::Mbc1(c) => c.write_ram(addr, value),
            Cartridge::Mbc3(c) => c.write_ram(addr, value),
            Cartridge::Mbc5(c) => c.write_ram(addr, value),
        }
    }

    pub fn battery_backed(&self) -> (r: bool)
        ensures
            r == self@.battery(),
    {
        match self {
            Cartridge::NoMbc(_) => false,
            Cartridge::Mbc1(c) => c.battery_backed(),
            Cartridge::Mbc3(c) => c.battery_backed(),
            Cartridge::Mbc5(c) => c.battery_backed(),
        }
    }

    pub fn external_ram(&self) -> (r: Option<&[u8]>)
        ensures
            self@.ram().len() == 0 ==> r is None,
            self@.ram().len() > 0 ==> r is Some && r->Some_0@ == self@.ram(),
    {
        match self {
            Cartridge::NoMbc(_) => None,
            Cartridge::Mbc1(c) => c.external_ram(),
            Cartridge::Mbc3(c) => c.external_ram(),
            Cartridge::Mbc5(c) => c.external_ram(),
        }
    }

    pub fn load_ram(&mut self, data: &[u8])
        ensures
            final(self)@ == old(self)@.load_ram(data@),
            old(self)@.wf() ==> final(self)@.wf(),
    {
        match self {
            Cartridge::NoMbc(_) => {},
            Cartridge::Mbc1(c) => c.load_ram(data),
            Cartridge::Mbc3(c) => c.load_ram(data),
            Cartridge::Mbc5(c) => c.load_ram(data),
        }
    }

    /// Cartridge header byte `0x0143` (CGB compatibility).
    pub fn cgb_support(&self) -> (r: CgbSupport)
        ensures
            r == self@.cgb_support(),
    {
        match self {
            Cartridge::NoMbc(c) => c.cgb_support(),
            Cartridge::Mbc1(c) => c.cgb_support(),
            Cartridge::Mbc3(c) => c.cgb_support(),
            Cartridge::Mbc5(c) => c.cgb_support(),
        }
    }
}

/// External RAM size requested from the bank controller for a cartridge type.
pub open spec fn requested_ram_size(t: CartridgeType, header_ram: usize) -> usize {
    if t.spec_has_ram() {
        if t == CartridgeType::Mbc2 || t == CartridgeType::Mbc2Battery {
            512
        } else if header_ram >= 0x2000 {
            header_ram
        } else {
            0x2000
        }
    } else {
        0
    }
}

/// A zero-filled external RAM of at least 8 KiB for a requested size.
pub open spec fn zero_ram(size: usize) -> Seq<u8> {
    Seq::new(if size >= 0x2000 { size as nat } else { 0x2000 }, |i: int| 0u8)
}

/// The cartridge `from_rom` builds for a ROM whose header names type `t`.
pub open spec fn cartridge_for(rom: Seq<u8>, t: CartridgeType) -> Option<CartridgeState> {
    let size = requested_ram_size(t, ram_size_of(rom[0x149]));
    let battery = t.spec_has_battery();
    match t {
        CartridgeType::RomOnly => Some(CartridgeState::NoMbc(rom)),
        CartridgeType::Mbc1 | CartridgeType::Mbc1Ram | CartridgeType::Mbc1RamBattery
        | CartridgeType::Mbc2 | CartridgeType::Mbc2Battery => Some(
            CartridgeState::Mbc1(
                Mbc1State {
                    rom,
                    ram: zero_ram(size),
                    ram_enabled: false,
                    rom_bank: 1,
                    ram_bank: 0,
                    banking_mode: 0,
                    battery,
                },
            ),
        ),
        CartridgeType::Mbc3 | CartridgeType::Mbc3Ram | CartridgeType::Mbc3RamBattery
        | CartridgeType::Mbc3TimerBattery | CartridgeType::Mbc3TimerRamBattery => Some(
            CartridgeState::Mbc3(
                Mbc3State {
                    rom,
                    ram: zero_ram(size),
                    ram_enabled: false,
                    rom_bank: 1,
                    ram_bank: 0,
                    battery,
                    rtc_latch_saw_zero: false,
                    rtc_latched: None,
                },
            ),
        ),
        CartridgeType::Mbc5 | CartridgeType::Mbc5Ram | CartridgeType::Mbc5RamBattery
        | CartridgeType::Mbc5Rumble | CartridgeType::Mbc5RumbleRam
        | CartridgeType::Mbc5RumbleRamBattery => Some(
            CartridgeState::Mbc5(
                Mbc5State {
                    rom,
                    ram: zero_ram(size),
                    ram_enabled: false,
                    rom_bank: 1,
                    ram_bank: 0,
                    battery,
                },
            ),
        ),
        CartridgeType::Unknown(_) => None,
    }
}

/// Builds the cartridge named by the ROM's header.
pub fn from_rom(rom: Vec<u8>) -> (r: Result<Cartridge, CartridgeError>)
    ensures
        rom@.len() < 0x150 <==> r == Err::<Cartridge, CartridgeError>(
            CartridgeError::Header(HeaderError::TooSmall),
        ),
        rom@.len() >= 0x150 ==> match cartridge_for(rom@, header::cartridge_type_of(rom@[0x147])) {
            Some(c) => r is Ok && r->Ok_0@ == c,
            None => r == Err::<Cartridge, CartridgeError>(
                CartridgeError::UnsupportedType(header::cartridge_type_of(rom@[0x147])),
            ),
        },
        r is Ok ==> r->Ok_0@.wf(),
{
    let header = match Header::parse(rom.as_slice()) {
        Ok(h) => h,
        Err(e) => return Err(CartridgeError::Header(e)),
    };
    let ct = header.cartridge_type;
    let ram_size: usize = if ct.has_ram() {
        match ct {
            CartridgeType::Mbc2 | CartridgeType::Mbc2Battery => 512,
            _ => if header.ram_size_bytes >= 0x2000 {
                header.ram_size_bytes
            } else {
                0x2000
            },
        }
    } else {
        0
    };
    let battery = ct.has_battery();
    match ct {
        CartridgeType::RomOnly => Ok(Cartridge::NoMbc(NoMbc::new(rom))),
        CartridgeType::Mbc1 | CartridgeType::Mbc1Ram | CartridgeType::Mbc1RamBattery => Ok(
            Cartridge::Mbc1(Mbc1::new(rom, ram_size, battery)),
        ),
        CartridgeType::Mbc2 | CartridgeType::Mbc2Battery => Ok(
            Cartridge::Mbc1(Mbc1::new(rom, 512, battery)),
        ),
        CartridgeType::Mbc3 | CartridgeType::Mbc3Ram | CartridgeType::Mbc3RamBattery
        | CartridgeType::Mbc3TimerBattery | CartridgeType::Mbc3TimerRamBattery => Ok(
            Cartridge::Mbc3(Mbc3::new(rom, ram_size, battery)),
        ),
        CartridgeType::Mbc5 | CartridgeType::Mbc5Ram | CartridgeType::Mbc5RamBattery
        | CartridgeType::Mbc5Rumble | CartridgeType::Mbc5RumbleRam
        | CartridgeType::Mbc5RumbleRamBattery => Ok(Cartridge::Mbc5(Mbc5::new(rom, ram_size, battery))),
        CartridgeType::Unknown(_) => Err(CartridgeError::UnsupportedType(ct)),
    }
}

/// Byte `i` of `s`, or `0xFF` (open bus) when `i` is out of range.
pub open spec fn rom_byte(s: Seq<u8>, i: int) -> u8 {
    if 0 <= i < s.len() {
        s[i]
    } else {
        0xFF
    }
}

/// Number of 16 KiB banks in a ROM of `len` bytes (at least one).
pub open spec fn bank_count(len: nat) -> nat {
    if len / 0x4000 >= 1 {
        len / 0x4000
    } else {
        1
    }
}

/// Whether a value written to `0000–1FFF` enables external RAM.
pub open spec fn ram_enable_value(v: u8) -> bool {
    v % 16 == 0x0A
}

pub fn rom_bank_count(len: usize) -> (r: usize)
    ensures
        r == bank_count(len as nat),
{
    let n = len / 0x4000;
    if n >= 1 {
        n
    } else {
        1
    }
}

pub fn is_ram_enable(v: u8) -> (r: bool)
    ensures
        r == ram_enable_value(v),
{
    assert((v & 0x0Fu8) == v % 16) by { lemma_u8_fields(); }
    (v & 0x0F) == 0x0A
}

/// External RAM after loading `data`: its first `min(len)` bytes are replaced.
pub open spec fn loaded(ram: Seq<u8>, data: Seq<u8>) -> Seq<u8> {
    if data.len() >= ram.len() {
        data.subrange(0, ram.len() as int)
    } else {
        data + ram.subrange(data.len() as int, ram.len() as int)
    }
}

/// Copies the first `min(ram.len(), data.len())` bytes of `data` over `ram`.
pub fn copy_prefix(ram: &mut Vec<u8>, data: &[u8])
    ensures
        final(ram)@ == loaded(old(ram)@, data@),
{
    let n = if data.len() < ram.len() { data.len() } else { ram.len() };
    let mut i: usize = 0;
    while i < n
        invariant
            n <= ram@.len(),
            n <= data@.len(),
            n == data@.len() || n == ram@.len(),
            ram@.len() == old(ram)@.len(),
            i <= n,
            forall|k: int| 0 <= k < i ==> ram@[k] == data@[k],
            forall|k: int| i <= k < ram@.len() ==> ram@[k] == old(ram)@[k],
        decreases n - i,
    {
        ram.set(i, data[i]);
        i = i + 1;
    }
    assert(ram@ =~= loaded(old(ram)@, data@));
}

} // verus!
