//! Memory bus: address decoding, work RAM banking, CGB registers and the DMA engines.

use vstd::prelude::*;

use crate::apu::Apu;
use crate::bits::{lemma_u16_fields, lemma_u8_fields};
use crate::clock::unix_time_secs;
use crate::cartridge::{Cartridge, CartridgeState, CgbSupport};
use crate::interrupts::Interrupts;
use crate::joypad::Joypad;
use crate::ppu::{next_palette_index, Ppu};
use crate::serial::{starts_transfer, Serial, SerialState};
use crate::timer::Timer;

verus! {

broadcast use vstd::array::group_array_axioms;

/// Active CGB HBlank DMA (FF55 bit 7).
#[derive(Debug, Clone, Copy, PartialEq, Eq, Structural)]
pub struct HdmaState {
    pub src: u16,
    pub dst: u16,
    /// 16-byte blocks left to transfer.
    pub blocks_remaining: u8,
    /// VBK latched when the transfer started.
    pub vram_bank: u8,
}

pub struct Bus {
    pub cartridge: Cartridge,
    /// DMG: 8 KiB at `C000–DFFF` (echoed at `E000–FDFF`). CGB: 32 KiB; `C000–CFFF` is
    /// bank 0 and `D000–DFFF` the bank SVBK selects (0 selects 1).
    pub wram: [u8; 0x8000],
    pub hram: [u8; 0x7F],
    pub ppu: Ppu,
    pub timer: Timer,
    pub joypad: Joypad,
    pub interrupts: Interrupts,
    pub serial: Serial,
    pub apu: Apu,
    /// The cartridge asks for CGB features (header `0x0143`).
    pub cgb_mode: bool,
    /// KEY1 bit 0: a speed switch is armed for the next `STOP`.
    pub prepare_speed_switch: bool,
    /// KEY1 bit 7.
    pub double_speed: bool,
    /// FF70 (low 3 bits).
    pub svbk: u8,
    /// FF51–FF54: VRAM DMA source and destination.
    pub hdma1: u8,
    pub hdma2: u8,
    pub hdma3: u8,
    pub hdma4: u8,
    pub hdma: Option<HdmaState>,
    /// T-cycles the CPU stays stalled by a general-purpose VRAM DMA.
    pub gdma_stall_t_cycles: u32,
}

/// Abstract state of the bus.
pub struct BusState {
    pub cart: CartridgeState,
    pub wram: [u8; 0x8000],
    pub hram: [u8; 0x7F],
    pub ppu: Ppu,
    pub timer: Timer,
    pub joypad: Joypad,
    pub interrupts: Interrupts,
    pub serial: SerialState,
    pub apu: Apu,
    pub cgb_mode: bool,
    pub prepare_speed_switch: bool,
    pub double_speed: bool,
    pub svbk: u8,
    pub hdma1: u8,
    pub hdma2: u8,
    pub hdma3: u8,
    pub hdma4: u8,
    pub hdma: Option<HdmaState>,
    pub gdma_stall_t_cycles: u32,
}

impl View for Bus {
    type V = BusState;

    open spec fn view(&self) -> BusState {
        BusState {
            cart: self.cartridge@,
            wram: self.wram,
            hram: self.hram,
            ppu: self.ppu,
            timer: self.timer,
            joypad: self.joypad,
            interrupts: self.interrupts,
            serial: self.serial@,
            apu: self.apu,
            cgb_mode: self.cgb_mode,
            prepare_speed_switch: self.prepare_speed_switch,
            double_speed: self.double_speed,
            svbk: self.svbk,
            hdma1: self.hdma1,
            hdma2: self.hdma2,
            hdma3: self.hdma3,
            hdma4: self.hdma4,
            hdma: self.hdma,
            gdma_stall_t_cycles: self.gdma_stall_t_cycles,
        }
    }
}

/// `a + b` modulo 2^16.
pub open spec fn wrap16(a: u16, b: int) -> u16 {
    ((a + b) % 0x10000) as u16
}

/// VRAM DMA source base: FF51/FF52 with the low four bits cleared.
pub open spec fn hdma_source(h1: u8, h2: u8) -> u16 {
    (h1 as int * 256 + (h2 as int / 16) * 16) as u16
}

/// VRAM DMA destination: FF53/FF54 with the low four bits cleared, inside `8000–9FF0`.
pub open spec fn hdma_dest(h3: u8, h4: u8) -> u16 {
    (0x8000 + (h3 as int % 32) * 256 + (h4 as int / 16) * 16) as u16
}

impl BusState {
    /// The cartridge, APU and PPU invariants hold (the PPU's dot counter is within a
    /// scanline).
    pub open spec fn core_wf(self) -> bool {
        &&& self.cart.wf()
        &&& self.apu.wf()
        &&& self.ppu.dot <= 456
    }

    /// `core_wf`, and every ROM read the cartridge can be asked for is in range.
    pub open spec fn wf(self) -> bool {
        &&& self.core_wf()
        &&& self.cart.reads_ok()
    }

    /// A read of `addr` stays inside the ROM image (a bank controller reading past it
    /// panics).
    pub open spec fn read_ok(self, addr: u16) -> bool {
        addr >= 0x8000 || self.cart.rom_read_ok(addr)
    }

    /// Every source byte that a VRAM copy of `n` bytes from `src` to `dst` reads (one for
    /// each destination inside `8000–9FFF`) is readable.
    pub open spec fn copy_reads_ok(self, src: u16, dst: u16, n: int) -> bool {
        forall|i: int|
            0 <= i < n && 0x8000 <= wrap16(dst, i) <= 0x9FFF ==> #[trigger] self.read_ok(
                wrap16(src, i),
            )
    }

    /// The reads a CPU write of `v` to `addr` makes are in range: an OAM DMA reads 160
    /// bytes of page `v`, a general-purpose VRAM DMA reads its source blocks.
    pub open spec fn write_ok(self, addr: u16, v: u8) -> bool {
        &&& addr == 0xFF46 ==> forall|i: int|
            0 <= i < 0xA0 ==> #[trigger] self.read_ok(wrap16((v as int * 256) as u16, i))
        &&& addr == 0xFF55 && self.cgb_mode && 0 < v < 0x80 ==> self.copy_reads_ok(
            hdma_source(self.hdma1, self.hdma2),
            hdma_dest(self.hdma3, self.hdma4),
            (v as int + 1) * 16,
        )
    }

    /// The reads of the next HBlank DMA chunk are in range.
    pub open spec fn hdma_step_ok(self) -> bool {
        match self.hdma {
            None => true,
            Some(h) => self.copy_reads_ok(h.src, h.dst, 16),
        }
    }

    /// WRAM bank mapped at `D000–DFFF` in CGB mode.
    pub open spec fn svbk_bank(self) -> int {
        if self.svbk % 8 == 0 {
            1
        } else {
            (self.svbk % 8) as int
        }
    }

    /// Index into `wram` of an address in `C000–FDFF` (the echo maps `E000–` onto `C000–`).
    pub open spec fn wram_index(self, addr: u16) -> int {
        let a: int = if 0xE000 <= addr { addr - 0x2000 } else { addr as int };
        if !self.cgb_mode {
            (a - 0xC000) % 0x2000
        } else if a < 0xD000 {
            a - 0xC000
        } else {
            self.svbk_bank() * 0x1000 + (a - 0xD000)
        }
    }

    pub open spec fn key1(self) -> u8 {
        (0x7Eu8 | (if self.double_speed { 0x80u8 } else { 0 })) | (if self.prepare_speed_switch {
            0x01u8
        } else {
            0
        })
    }

    pub open spec fn palette_ok(self) -> bool {
        self.cgb_mode && self.ppu.spec_cpu_can_access_cgb_palette()
    }

    /// Value of an I/O register in `FF00–FF7F` outside the APU.
    pub closed spec fn io_value(self, addr: u16) -> u8 {
        if addr == 0xFF00 {
            self.joypad.spec_read()
        } else if addr == 0xFF01 {
            self.serial.sb
        } else if addr == 0xFF02 {
            self.serial.sc | 0x7E
        } else if addr == 0xFF04 {
            (self.timer.counter / 256) as u8
        } else if addr == 0xFF05 {
            self.timer.tima
        } else if addr == 0xFF06 {
            self.timer.tma
        } else if addr == 0xFF07 {
            self.timer.tac | 0xF8
        } else if addr == 0xFF0F {
            self.interrupts.if_ | 0xE0
        } else if addr == 0xFF40 {
            self.ppu.lcdc
        } else if addr == 0xFF41 {
            self.ppu.spec_read_stat()
        } else if addr == 0xFF42 {
            self.ppu.scy
        } else if addr == 0xFF43 {
            self.ppu.scx
        } else if addr == 0xFF44 {
            self.ppu.ly
        } else if addr == 0xFF45 {
            self.ppu.lyc
        } else if addr == 0xFF46 {
            self.ppu.dma
        } else if addr == 0xFF47 {
            self.ppu.bgp
        } else if addr == 0xFF48 {
            self.ppu.obp0
        } else if addr == 0xFF49 {
            self.ppu.obp1
        } else if addr == 0xFF4A {
            self.ppu.wy
        } else if addr == 0xFF4B {
            self.ppu.wx
        } else if !self.cgb_mode {
            0xFF
        } else if addr == 0xFF4D {
            self.key1()
        } else if addr == 0xFF4F {
            self.ppu.vram_bank | 0xFE
        } else if addr == 0xFF70 {
            self.svbk | 0xF8
        } else if addr == 0xFF51 {
            self.hdma1
        } else if addr == 0xFF52 {
            self.hdma2
        } else if addr == 0xFF53 {
            self.hdma3
        } else if addr == 0xFF54 {
            self.hdma4
        } else if addr == 0xFF55 {
            match self.hdma {
                None => 0xFF,
                Some(h) => (if h.blocks_remaining > 0 { h.blocks_remaining - 1 } else { 0 }) as u8 % 128,
            }
        } else if !self.ppu.spec_cpu_can_access_cgb_palette() {
            0xFF
        } else if addr == 0xFF68 {
            self.ppu.bcps | 0x40
        } else if addr == 0xFF69 {
            self.ppu.bg_palette_ram@[(self.ppu.bcps % 64) as int]
        } else if addr == 0xFF6A {
            self.ppu.ocps | 0x40
        } else if addr == 0xFF6B {
            self.ppu.obj_palette_ram@[(self.ppu.ocps % 64) as int]
        } else {
            0xFF
        }
    }

    /// Value a CPU read of `addr` returns, with the wall clock at `t`.
    pub closed spec fn read_value(self, addr: u16, t: u64) -> u8 {
        if addr < 0x8000 {
            self.cart.read_rom(addr)
        } else if addr < 0xA000 {
            if self.ppu.spec_cpu_can_access_vram() {
                self.ppu.vram@[self.ppu.spec_vram_offset(addr)]
            } else {
                0xFF
            }
        } else if addr < 0xC000 {
            self.cart.read_ram_at(addr, t)
        } else if addr < 0xFE00 {
            self.wram@[self.wram_index(addr)]
        } else if addr < 0xFEA0 {
            if self.ppu.spec_cpu_can_access_oam() {
                self.ppu.oam@[addr - 0xFE00]
            } else {
                0xFF
            }
        } else if addr < 0xFF00 {
            0
        } else if addr == 0xFFFF {
            self.interrupts.ie
        } else if addr >= 0xFF80 {
            self.hram@[addr - 0xFF80]
        } else if 0xFF10 <= addr <= 0xFF3F {
            self.apu.spec_read(addr)
        } else {
            self.io_value(addr)
        }
    }

    /// State after a CPU read of `addr`: only a palette data port read advances its index.
    pub closed spec fn after_read(self, addr: u16) -> BusState {
        if addr == 0xFF69 && self.palette_ok() {
            BusState { ppu: Ppu { bcps: next_palette_index(self.ppu.bcps), ..self.ppu }, ..self }
        } else if addr == 0xFF6B && self.palette_ok() {
            BusState { ppu: Ppu { ocps: next_palette_index(self.ppu.ocps), ..self.ppu }, ..self }
        } else {
            self
        }
    }

    /// Byte a DMA engine reads at `addr` (VRAM is readable in any mode).
    pub closed spec fn dma_source(self, addr: u16, t: u64) -> u8 {
        if addr < 0x8000 {
            self.cart.read_rom(addr)
        } else if addr < 0xA000 {
            self.ppu.vram@[self.ppu.spec_vram_offset(addr)]
        } else if addr < 0xC000 {
            self.cart.read_ram_at(addr, t)
        } else if addr < 0xFE00 {
            self.wram@[self.wram_index(addr)]
        } else {
            0xFF
        }
    }

    /// PPU after the first `n` bytes of an OAM DMA from `base`.
    pub closed spec fn oam_copy(self, base: u16, n: nat, t: u64) -> Ppu
        decreases n,
    {
        if n == 0 {
            self.ppu
        } else {
            let p = self.oam_copy(base, (n - 1) as nat, t);
            Ppu {
                oam: vstd::array::spec_array_update(
                    p.oam,
                    n - 1,
                    self.dma_source(wrap16(base, n - 1), t),
                ),
                ..p
            }
        }
    }

    /// PPU after copying up to `n` bytes from `src` to VRAM bank `bank` at `dst`, and whether
    /// every destination so far lay inside `8000–9FFF` (the copy stops at the first that
    /// does not). Each byte is read from the state the earlier bytes left.
    pub closed spec fn vram_copy(self, src: u16, dst: u16, bank: u8, n: nat, t: u64) -> (Ppu, bool)
        decreases n,
    {
        if n == 0 {
            (self.ppu, true)
        } else {
            let (p, ok) = self.vram_copy(src, dst, bank, (n - 1) as nat, t);
            let d = wrap16(dst, n - 1);
            if !ok || d < 0x8000 || d > 0x9FFF {
                (p, false)
            } else {
                let b = (BusState { ppu: p, ..self }).dma_source(wrap16(src, n - 1), t);
                (
                    Ppu {
                        vram: vstd::array::spec_array_update(
                            p.vram,
                            (bank % 2) as int * 0x2000 + d as int % 0x2000,
                            b,
                        ),
                        ..p
                    },
                    true,
                )
            }
        }
    }

    /// One HBlank DMA chunk (16 bytes), with the wall clock at `t`.
    pub closed spec fn hdma_step(self, t: u64) -> BusState {
        match self.hdma {
            None => self,
            Some(h) => {
                let (p, ok) = self.vram_copy(h.src, h.dst, h.vram_bank, 16, t);
                if !ok {
                    BusState { ppu: p, hdma: None, ..self }
                } else {
                    let src = wrap16(h.src, 16);
                    let dst = wrap16(h.dst, 16);
                    let rem: u8 = if h.blocks_remaining > 0 {
                        (h.blocks_remaining - 1) as u8
                    } else {
                        0
                    };
                    BusState {
                        ppu: p,
                        hdma1: (src / 256) as u8,
                        hdma2: (src % 256) as u8,
                        hdma3: (dst / 256) as u8,
                        hdma4: (dst % 256) as u8,
                        hdma: if rem > 0 {
                            Some(HdmaState { src, dst, blocks_remaining: rem, vram_bank: h.vram_bank })
                        } else {
                            None
                        },
                        ..self
                    }
                }
            },
        }
    }

    /// `n` HBlank DMA chunks in a row.
    pub open spec fn hdma_steps(self, n: nat, t: u64) -> BusState
        decreases n,
    {
        if n == 0 {
            self
        } else {
            self.hdma_steps((n - 1) as nat, t).hdma_step(t)
        }
    }

    /// State after a write of `v` to FF55 (VRAM DMA control).
    pub closed spec fn write_hdma5(self, v: u8, t: u64) -> BusState {
        let src = hdma_source(self.hdma1, self.hdma2);
        let dst = hdma_dest(self.hdma3, self.hdma4);
        if !self.cgb_mode {
            self
        } else if v == 0 {
            BusState { hdma: None, ..self }
        } else if v >= 0x80 {
            BusState {
                hdma: Some(
                    HdmaState {
                        src,
                        dst,
                        blocks_remaining: (v % 128 + 1) as u8,
                        vram_bank: self.ppu.vram_bank % 2,
                    },
                ),
                ..self
            }
        } else {
            let blocks = v as int + 1;
            let (p, _) = self.vram_copy(src, dst, self.ppu.vram_bank % 2, (blocks * 16) as nat, t);
            BusState { ppu: p, hdma: None, gdma_stall_t_cycles: (blocks * 32) as u32, ..self }
        }
    }

    /// State after a write of `v` to an I/O register in `FF00–FF7F` outside the APU.
    pub closed spec fn write_io(self, addr: u16, v: u8, t: u64) -> BusState {
        let ppu = self.ppu;
        if addr == 0xFF00 {
            BusState { joypad: Joypad { p1: v & 0x30, ..self.joypad }, ..self }
        } else if addr == 0xFF01 {
            BusState { serial: SerialState { sb: v, ..self.serial }, ..self }
        } else if addr == 0xFF02 {
            BusState {
                serial: self.serial.write_sc(v),
                interrupts: Interrupts {
                    if_: if starts_transfer(self.serial.sc, v) {
                        self.interrupts.if_ | crate::interrupts::SERIAL
                    } else {
                        self.interrupts.if_
                    },
                    ..self.interrupts
                },
                ..self
            }
        } else if addr == 0xFF04 {
            BusState { timer: Timer { counter: 0, ..self.timer }, ..self }
        } else if addr == 0xFF05 {
            BusState { timer: Timer { tima: v, ..self.timer }, ..self }
        } else if addr == 0xFF06 {
            BusState { timer: Timer { tma: v, ..self.timer }, ..self }
        } else if addr == 0xFF07 {
            BusState { timer: Timer { tac: v % 8, ..self.timer }, ..self }
        } else if addr == 0xFF0F {
            BusState { interrupts: Interrupts { if_: v & 0x1F, ..self.interrupts }, ..self }
        } else if addr == 0xFF40 {
            BusState { ppu: Ppu { lcdc: v, ..ppu }, ..self }
        } else if addr == 0xFF41 {
            BusState { ppu: Ppu { stat: (v & 0xF8) | (ppu.stat & 0x07), ..ppu }, ..self }
        } else if addr == 0xFF42 {
            BusState { ppu: Ppu { scy: v, ..ppu }, ..self }
        } else if addr == 0xFF43 {
            BusState { ppu: Ppu { scx: v, ..ppu }, ..self }
        } else if addr == 0xFF45 {
            BusState { ppu: Ppu { lyc: v, ..ppu }, ..self }
        } else if addr == 0xFF46 {
            let s = BusState { ppu: Ppu { dma: v, ..ppu }, ..self };
            BusState { ppu: s.oam_copy((v as int * 256) as u16, 0xA0, t), ..s }
        } else if addr == 0xFF47 {
            BusState { ppu: Ppu { bgp: v, ..ppu }, ..self }
        } else if addr == 0xFF48 {
            BusState { ppu: Ppu { obp0: v, ..ppu }, ..self }
        } else if addr == 0xFF49 {
            BusState { ppu: Ppu { obp1: v, ..ppu }, ..self }
        } else if addr == 0xFF4A {
            BusState { ppu: Ppu { wy: v, ..ppu }, ..self }
        } else if addr == 0xFF4B {
            BusState { ppu: Ppu { wx: v, ..ppu }, ..self }
        } else if addr == 0xFF55 {
            self.write_hdma5(v, t)
        } else if !self.cgb_mode {
            self
        } else if addr == 0xFF4D {
            BusState { prepare_speed_switch: v % 2 == 1, ..self }
        } else if addr == 0xFF4F {
            BusState { ppu: Ppu { vram_bank: v % 2, ..ppu }, ..self }
        } else if addr == 0xFF70 {
            BusState { svbk: v % 8, ..self }
        } else if addr == 0xFF51 {
            BusState { hdma1: v, ..self }
        } else if addr == 0xFF52 {
            BusState { hdma2: v, ..self }
        } else if addr == 0xFF53 {
            BusState { hdma3: v, ..self }
        } else if addr == 0xFF54 {
            BusState { hdma4: v, ..self }
        } else if !ppu.spec_cpu_can_access_cgb_palette() {
            self
        } else if addr == 0xFF68 {
            BusState { ppu: Ppu { bcps: v & 0xBF, ..ppu }, ..self }
        } else if addr == 0xFF69 {
            BusState {
                ppu: Ppu {
                    bg_palette_ram: vstd::array::spec_array_update(
                        ppu.bg_palette_ram,
                        (ppu.bcps % 64) as int,
                        v,
                    ),
                    bcps: next_palette_index(ppu.bcps),
                    ..ppu
                },
                ..self
            }
        } else if addr == 0xFF6A {
            BusState { ppu: Ppu { ocps: v & 0xBF, ..ppu }, ..self }
        } else if addr == 0xFF6B {
            BusState {
                ppu: Ppu {
                    obj_palette_ram: vstd::array::spec_array_update(
                        ppu.obj_palette_ram,
                        (ppu.ocps % 64) as int,
                        v,
                    ),
                    ocps: next_palette_index(ppu.ocps),
                    ..ppu
                },
                ..self
            }
        } else {
            self
        }
    }

    /// State after a CPU write of `v` to `addr`, with the wall clock at `t`.
    pub closed spec fn write(self, addr: u16, v: u8, t: u64) -> BusState {
        let ppu = self.ppu;
        if addr < 0x8000 {
            BusState { cart: self.cart.write_rom_at(addr, v, t), ..self }
        } else if addr < 0xA000 {
            if ppu.spec_cpu_can_access_vram() {
                BusState {
                    ppu: Ppu {
                        vram: vstd::array::spec_array_update(ppu.vram, ppu.spec_vram_offset(addr), v),
                        ..ppu
                    },
                    ..self
                }
            } else {
                self
            }
        } else if addr < 0xC000 {
            BusState { cart: self.cart.write_ram(addr, v), ..self }
        } else if addr < 0xFE00 {
            BusState {
                wram: vstd::array::spec_array_update(self.wram, self.wram_index(addr), v),
                ..self
            }
        } else if addr < 0xFEA0 {
            if ppu.spec_cpu_can_access_oam() {
                BusState {
                    ppu: Ppu { oam: vstd::array::spec_array_update(ppu.oam, addr - 0xFE00, v), ..ppu },
                    ..self
                }
            } else {
                self
            }
        } else if addr < 0xFF00 {
            self
        } else if addr == 0xFFFF {
            BusState { interrupts: Interrupts { ie: v & 0x1F, ..self.interrupts }, ..self }
        } else if addr >= 0xFF80 {
            BusState { hram: vstd::array::spec_array_update(self.hram, addr - 0xFF80, v), ..self }
        } else if 0xFF10 <= addr <= 0xFF3F {
            BusState { apu: self.apu.spec_write(addr, v), ..self }
        } else {
            self.write_io(addr, v, t)
        }
    }
}

impl BusState {
    /// State after a CGB `STOP`: an armed speed switch toggles the speed and disarms.
    pub open spec fn stop_speed_switch(self) -> BusState {
        if self.cgb_mode && self.prepare_speed_switch {
            BusState { double_speed: !self.double_speed, prepare_speed_switch: false, ..self }
        } else {
            self
        }
    }
}

/// Once a VRAM copy has stopped, copying more bytes changes nothing.
proof fn lemma_vram_copy_stopped(s: BusState, src: u16, dst: u16, bank: u8, k: nat, n: nat, t: u64)
    requires
        k <= n,
        !s.vram_copy(src, dst, bank, k, t).1,
    ensures
        s.vram_copy(src, dst, bank, n, t) == s.vram_copy(src, dst, bank, k, t),
    decreases n - k,
{
    if k < n {
        lemma_vram_copy_stopped(s, src, dst, bank, k, (n - 1) as nat, t);
    }
}

/// An OAM DMA changes nothing in the PPU but OAM.
proof fn lemma_oam_copy_frame(s: BusState, base: u16, n: nat, t: u64)
    ensures
        s.oam_copy(base, n, t) == (Ppu { oam: s.oam_copy(base, n, t).oam, ..s.ppu }),
    decreases n,
{
    if n > 0 {
        lemma_oam_copy_frame(s, base, (n - 1) as nat, t);
    }
}

/// A VRAM copy changes nothing in the PPU but VRAM.
proof fn lemma_vram_copy_frame(s: BusState, src: u16, dst: u16, bank: u8, n: nat, t: u64)
    ensures
        s.vram_copy(src, dst, bank, n, t).0 == (Ppu {
            vram: s.vram_copy(src, dst, bank, n, t).0.vram,
            ..s.ppu
        }),
    decreases n,
{
    if n > 0 {
        lemma_vram_copy_frame(s, src, dst, bank, (n - 1) as nat, t);
    }
}

/// HDMA source and destination registers masked to 16-byte blocks (the destination inside
/// VRAM).
proof fn lemma_hdma_address_bits()
    by (bit_vector)
    ensures
        forall|a: u16, b: u16| a < 256 && b < 256 ==> #[trigger] (((a << 8u16) | b) & 0xFFF0u16) == a
            * 256 + (b / 16) * 16,
        forall|a: u16, b: u16| a < 256 && b < 256 ==> #[trigger] (0x8000u16 | (((a << 8u16) | b)
            & 0x1FF0u16)) == 0x8000 + (a % 32) * 256 + (b / 16) * 16,
{
}

fn hdma_source_base(h1: u8, h2: u8) -> (r: u16)
    ensures
        r == hdma_source(h1, h2),
{
    let a: u16 = h1 as u16;
    let b: u16 = h2 as u16;
    assert(((a << 8u16) | b) & 0xFFF0u16 == a * 256 + (b / 16) * 16) by {
        lemma_hdma_address_bits();
    }
    ((a << 8) | b) & 0xFFF0
}

fn hdma_dest_base(h3: u8, h4: u8) -> (r: u16)
    ensures
        r == hdma_dest(h3, h4),
{
    let a: u16 = h3 as u16;
    let b: u16 = h4 as u16;
    assert(0x8000u16 | (((a << 8u16) | b) & 0x1FF0u16) == 0x8000 + (a % 32) * 256 + (b / 16) * 16)
        by {
        lemma_hdma_address_bits();
    }
    0x8000u16 | (((a << 8) | b) & 0x1FF0)
}

impl Bus {
    /// A bus around `cartridge` in its power-on state; CGB mode follows the header.
    pub fn new(cartridge: Cartridge) -> (r: Self)
        ensures
            r@.wf() == cartridge@.reads_ok(),
            r.cartridge@ == cartridge@,
            r.cgb_mode == (cartridge@.cgb_support() is Dual || cartridge@.cgb_support() is GbcOnly),
            r.ppu.cgb_mode == r.cgb_mode,
            (Ppu { cgb_mode: false, ..r.ppu }).spec_is_power_on(),
            r.timer == (Timer { counter: 0, tima: 0, tma: 0, tac: 0 }),
            r.joypad == (Joypad { p1: 0xCF, buttons: 0x0F, directions: 0x0F }),
            r.interrupts == (Interrupts { ie: 0, if_: 0 }),
            r.serial@ == (SerialState {
                sb: 0,
                sc: 0,
                buffer: Seq::empty(),
                link: false,
                inbox: Seq::empty(),
                outbox: Seq::empty(),
            }),
            !r.apu.enabled,
            forall|i: int| 0 <= i < 0x8000 ==> r.wram@[i] == 0,
            forall|i: int| 0 <= i < 0x7F ==> r.hram@[i] == 0,
            !r.prepare_speed_switch && !r.double_speed,
            r.svbk == 0 && r.hdma1 == 0 && r.hdma2 == 0 && r.hdma3 == 0 && r.hdma4 == 0,
            r.hdma is None,
            r.gdma_stall_t_cycles == 0,
    {
        let cgb_mode = match cartridge.cgb_support() {
            CgbSupport::Dual | CgbSupport::GbcOnly => true,
            CgbSupport::NoCgb => false,
        };
        let mut ppu = Ppu::default();
        ppu.cgb_mode = cgb_mode;
        let serial = Serial::default();
        assert(serial.buffer@ =~= Seq::<char>::empty());
        assert(serial.link_inbox@ =~= Seq::<u8>::empty());
        assert(serial.link_outbox@ =~= Seq::<u8>::empty());
        Bus {
            cartridge,
            wram: [0; 0x8000],
            hram: [0; 0x7F],
            ppu,
            timer: Timer::default(),
            joypad: Joypad::default(),
            interrupts: Interrupts::default(),
            serial,
            apu: Apu::default(),
            cgb_mode,
            prepare_speed_switch: false,
            double_speed: false,
            svbk: 0,
            hdma1: 0,
            hdma2: 0,
            hdma3: 0,
            hdma4: 0,
            hdma: None,
            gdma_stall_t_cycles: 0,
        }
    }

    pub fn gdma_stall_active(&self) -> (r: bool)
        ensures
            r == (self.gdma_stall_t_cycles > 0),
    {
        self.gdma_stall_t_cycles > 0
    }

    /// Spends up to `t_cycles` of the general-purpose DMA stall; returns what was spent.
    pub fn consume_gdma_stall(&mut self, t_cycles: u32) -> (r: u32)
        ensures
            r == if t_cycles < old(self).gdma_stall_t_cycles {
                t_cycles
            } else {
                old(self).gdma_stall_t_cycles
            },
            final(self)@ == (BusState {
                gdma_stall_t_cycles: (old(self).gdma_stall_t_cycles - r) as u32,
                ..old(self)@
            }),
    {
        let take = if t_cycles < self.gdma_stall_t_cycles {
            t_cycles
        } else {
            self.gdma_stall_t_cycles
        };
        self.gdma_stall_t_cycles = self.gdma_stall_t_cycles - take;
        take
    }

    fn svbk_bank_index(&self) -> (r: usize)
        ensures
            r == self@.svbk_bank(),
            1 <= r <= 7,
    {
        let v = self.svbk;
        assert(v & 0x07u8 == v % 8) by { lemma_u8_fields(); }
        let b = self.svbk & 0x07;
        if b == 0 {
            1
        } else {
            b as usize
        }
    }

    /// Index into `wram` for an address in `C000–FDFF`.
    fn wram_index(&self, addr: u16) -> (r: usize)
        requires
            0xC000 <= addr < 0xFE00,
        ensures
            r == self@.wram_index(addr),
            r < 0x8000,
    {
        let a = if addr >= 0xE000 {
            addr - 0x2000
        } else {
            addr
        };
        if !self.cgb_mode {
            let d = a - 0xC000;
            assert(d & 0x1FFFu16 == d % 0x2000) by { lemma_u16_fields(); }
            (d & 0x1FFF) as usize
        } else if a < 0xD000 {
            (a - 0xC000) as usize
        } else {
            let bank = self.svbk_bank_index();
            bank * 0x1000 + (a - 0xD000) as usize
        }
    }

    fn read_key1(&self) -> (r: u8)
        ensures
            r == self@.key1(),
    {
        let speed: u8 = if self.double_speed { 0x80 } else { 0 };
        let armed: u8 = if self.prepare_speed_switch { 0x01 } else { 0 };
        (0x7Eu8 | speed) | armed
    }

    /// CGB `STOP` after arming KEY1: toggles the speed and disarms.
    pub fn cgb_stop_speed_switch(&mut self)
        ensures
            final(self)@ == old(self)@.stop_speed_switch(),
    {
        if !self.cgb_mode || !self.prepare_speed_switch {
            return;
        }
        self.double_speed = !self.double_speed;
        self.prepare_speed_switch = false;
    }

    /// Byte a DMA engine reads at `addr`, with the wall clock at `now`.
    fn read_dma_source_at(&self, addr: u16, now: u64) -> (r: u8)
        requires
            self@.core_wf(),
            self@.read_ok(addr),
        ensures
            r == self@.dma_source(addr, now),
    {
        if addr < 0x8000 {
            self.cartridge.read_rom(addr)
        } else if addr < 0xA000 {
            self.ppu.read_vram(addr)
        } else if addr < 0xC000 {
            self.cartridge.read_ram_at(addr, now)
        } else if addr < 0xFE00 {
            self.wram[self.wram_index(addr)]
        } else {
            0xFF
        }
    }

    /// Copies up to `n` bytes from `src` to VRAM bank `bank` at `dst`, stopping at the first
    /// destination outside `8000–9FFF`; returns whether no destination was out of range.
    fn copy_to_vram(&mut self, src: u16, dst: u16, bank: u8, n: u32, now: u64) -> (ok: bool)
        requires
            old(self)@.core_wf(),
            old(self)@.copy_reads_ok(src, dst, n as int),
            n <= 0x800,
        ensures
            (final(self).ppu, ok) == old(self)@.vram_copy(src, dst, bank, n as nat, now),
            final(self)@ == (BusState { ppu: final(self).ppu, ..old(self)@ }),
            final(self).ppu.dot == old(self).ppu.dot,
            final(self)@.core_wf(),
    {
        let mut i: u32 = 0;
        while i < n
            invariant
                i <= n <= 0x800,
                old(self)@.core_wf(),
                old(self)@.copy_reads_ok(src, dst, n as int),
                self@ == (BusState { ppu: self.ppu, ..old(self)@ }),
                self.ppu.dot == old(self).ppu.dot,
                old(self)@.vram_copy(src, dst, bank, i as nat, now) == (self.ppu, true),
            decreases n - i,
        {
            let d = dst.wrapping_add(i as u16);
            assert(d == wrap16(dst, i as int));
            if d < 0x8000 || d > 0x9FFF {
                proof {
                    lemma_vram_copy_stopped(old(self)@, src, dst, bank, (i + 1) as nat, n as nat, now);
                }
                return false;
            }
            let s = src.wrapping_add(i as u16);
            assert(s == wrap16(src, i as int));
            assert(old(self)@.read_ok(wrap16(src, i as int)));
            let b = self.read_dma_source_at(s, now);
            let ghost p = self.ppu;
            self.ppu.write_vram_dma(d, b, bank);
            proof {
                let idx = (bank % 2) as int * 0x2000 + d as int % 0x2000;
                assert(self.ppu.vram =~= vstd::array::spec_array_update(p.vram, idx, b));
            }
            i = i + 1;
        }
        true
    }

    /// OAM DMA from page `v`: copies 160 bytes from `v00` to OAM.
    fn run_oam_dma(&mut self, v: u8, now: u64)
        requires
            old(self)@.core_wf(),
            old(self)@.write_ok(0xFF46, v),
        ensures
            final(self)@ == (BusState {
                ppu: old(self)@.oam_copy((v as int * 256) as u16, 0xA0, now),
                ..old(self)@
            }),
            final(self)@.core_wf(),
    {
        let base: u16 = (v as u16) << 8;
        let vv = v as u16;
        assert(vv << 8u16 == vv * 256) by { lemma_u16_fields(); }
        let mut i: u16 = 0;
        while i < 0xA0
            invariant
                i <= 0xA0,
                base as int == v as int * 256,
                old(self)@.core_wf(),
                old(self)@.write_ok(0xFF46, v),
                self@ == (BusState { ppu: old(self)@.oam_copy(base, i as nat, now), ..old(self)@ }),
            decreases 0xA0 - i,
        {
            proof {
                lemma_oam_copy_frame(old(self)@, base, i as nat, now);
            }
            assert(old(self)@.read_ok(wrap16((v as int * 256) as u16, i as int)));
            let b = self.read_dma_source_at(base + i, now);
            assert(b == old(self)@.dma_source(wrap16(base, i as int), now));
            let ghost p = self.ppu;
            self.ppu.write_oam(0xFE00 + i, b);
            proof {
                assert(self.ppu.oam =~= vstd::array::spec_array_update(p.oam, i as int, b));
            }
            i = i + 1;
        }
        proof {
            lemma_oam_copy_frame(old(self)@, base, 0xA0, now);
        }
    }

    /// General-purpose VRAM DMA (FF55 bit 7 clear): copies `(ctrl + 1) × 16` bytes at once,
    /// dropping what would land past `9FFF`, and stalls the CPU 8 M-cycles per block.
    fn run_vram_dma(&mut self, ctrl: u8, now: u64)
        requires
            old(self)@.core_wf(),
            old(self)@.copy_reads_ok(
                hdma_source(old(self).hdma1, old(self).hdma2),
                hdma_dest(old(self).hdma3, old(self).hdma4),
                (ctrl as int + 1) * 16,
            ),
            ctrl < 0x80,
        ensures
            final(self)@ == (BusState {
                ppu: old(self)@.vram_copy(
                    hdma_source(old(self).hdma1, old(self).hdma2),
                    hdma_dest(old(self).hdma3, old(self).hdma4),
                    old(self).ppu.vram_bank % 2,
                    ((ctrl + 1) * 16) as nat,
                    now,
                ).0,
                gdma_stall_t_cycles: ((ctrl + 1) * 32) as u32,
                ..old(self)@
            }),
            final(self)@.core_wf(),
    {
        let blocks = ctrl as u32 + 1;
        let len = blocks * 0x10;
        let src = hdma_source_base(self.hdma1, self.hdma2);
        let dst = hdma_dest_base(self.hdma3, self.hdma4);
        let vb = self.ppu.vram_bank;
        assert(vb & 1u8 == vb % 2) by { lemma_u8_fields(); }
        let bank = self.ppu.vram_bank & 1;
        let _ = self.copy_to_vram(src, dst, bank, len, now);
        self.gdma_stall_t_cycles = blocks * 8 * 4;
    }

    /// One HBlank DMA chunk: 16 bytes, then the next source and destination are written back
    /// to FF51–FF54. A destination past `9FFF` ends the transfer.
    pub fn hdma_hblank_step_at(&mut self, now: u64)
        requires
            old(self)@.core_wf(),
            old(self)@.hdma_step_ok(),
        ensures
            final(self)@ == old(self)@.hdma_step(now),
            final(self)@.core_wf(),
            old(self)@.wf() ==> final(self)@.wf(),
    {
        let h = match self.hdma {
            None => return,
            Some(h) => h,
        };
        let ok = self.copy_to_vram(h.src, h.dst, h.vram_bank, 16, now);
        if !ok {
            self.hdma = None;
            return;
        }
        let src = h.src.wrapping_add(16);
        let dst = h.dst.wrapping_add(16);
        let rem = if h.blocks_remaining > 0 {
            h.blocks_remaining - 1
        } else {
            0
        };
        assert((src >> 8u16) as u8 == (src / 256) as u8 && (src & 0xFFu16) as u8 == (src % 256) as u8)
            by {
            lemma_u16_fields();
        }
        assert((dst >> 8u16) as u8 == (dst / 256) as u8 && (dst & 0xFFu16) as u8 == (dst % 256) as u8)
            by {
            lemma_u16_fields();
        }
        self.hdma1 = (src >> 8) as u8;
        self.hdma2 = (src & 0xFF) as u8;
        self.hdma3 = (dst >> 8) as u8;
        self.hdma4 = (dst & 0xFF) as u8;
        if rem > 0 {
            self.hdma = Some(HdmaState { src, dst, blocks_remaining: rem, vram_bank: h.vram_bank });
        } else {
            self.hdma = None;
        }
    }

    /// One HBlank DMA chunk; source reads of an MBC3 clock use the system clock.
    pub fn hdma_hblank_step(&mut self)
        requires
            old(self)@.core_wf(),
            old(self)@.hdma_step_ok(),
        ensures
            exists|t: u64| final(self)@ == old(self)@.hdma_step(t),
            final(self)@.core_wf(),
            old(self)@.wf() ==> final(self)@.wf(),
    {
        let now = if self.cartridge.has_clock() {
            unix_time_secs()
        } else {
            0
        };
        self.hdma_hblank_step_at(now);
    }
}

impl Bus {
    /// I/O register read in `FF00–FF7F` outside the APU.
    fn read_io(&mut self, addr: u16) -> (r: u8)
        requires
            0xFF00 <= addr < 0xFF80,
            !(0xFF10 <= addr <= 0xFF3F),
        ensures
            r == old(self)@.io_value(addr),
            final(self)@ == old(self)@.after_read(addr),
    {
        if addr == 0xFF00 {
            self.joypad.read()
        } else if addr == 0xFF01 {
            self.serial.sb
        } else if addr == 0xFF02 {
            self.serial.sc | 0x7E
        } else if addr == 0xFF04 {
            self.timer.read_div()
        } else if addr == 0xFF05 {
            self.timer.read_tima()
        } else if addr == 0xFF06 {
            self.timer.read_tma()
        } else if addr == 0xFF07 {
            self.timer.read_tac()
        } else if addr == 0xFF0F {
            self.interrupts.if_ | 0xE0
        } else if addr == 0xFF40 {
            self.ppu.lcdc
        } else if addr == 0xFF41 {
            self.ppu.read_stat()
        } else if addr == 0xFF42 {
            self.ppu.scy
        } else if addr == 0xFF43 {
            self.ppu.scx
        } else if addr == 0xFF44 {
            self.ppu.ly
        } else if addr == 0xFF45 {
            self.ppu.lyc
        } else if addr == 0xFF46 {
            self.ppu.dma
        } else if addr == 0xFF47 {
            self.ppu.bgp
        } else if addr == 0xFF48 {
            self.ppu.obp0
        } else if addr == 0xFF49 {
            self.ppu.obp1
        } else if addr == 0xFF4A {
            self.ppu.wy
        } else if addr == 0xFF4B {
            self.ppu.wx
        } else if !self.cgb_mode {
            0xFF
        } else if addr == 0xFF4D {
            self.read_key1()
        } else if addr == 0xFF4F {
            self.ppu.vram_bank | 0xFE
        } else if addr == 0xFF70 {
            self.svbk | 0xF8
        } else if addr == 0xFF51 {
            self.hdma1
        } else if addr == 0xFF52 {
            self.hdma2
        } else if addr == 0xFF53 {
            self.hdma3
        } else if addr == 0xFF54 {
            self.hdma4
        } else if addr == 0xFF55 {
            match &self.hdma {
                None => 0xFF,
                Some(h) => {
                    let rem = if h.blocks_remaining > 0 {
                        h.blocks_remaining - 1
                    } else {
                        0
                    };
                    assert(rem & 0x7Fu8 == rem % 128) by { lemma_u8_fields(); }
                    rem & 0x7F
                },
            }
        } else if !self.ppu.cpu_can_access_cgb_palette() {
            0xFF
        } else if addr == 0xFF68 {
            self.ppu.read_bcps()
        } else if addr == 0xFF69 {
            self.ppu.read_bcpd()
        } else if addr == 0xFF6A {
            self.ppu.read_ocps()
        } else if addr == 0xFF6B {
            self.ppu.read_ocpd()
        } else {
            0xFF
        }
    }

    /// CPU read of `addr` with the wall clock at `now` (for MBC3 clock registers).
    pub fn read_at(&mut self, addr: u16, now: u64) -> (r: u8)
        requires
            old(self)@.core_wf(),
            old(self)@.read_ok(addr),
        ensures
            r == old(self)@.read_value(addr, now),
            final(self)@ == old(self)@.after_read(addr),
            final(self)@.core_wf(),
            old(self)@.wf() ==> final(self)@.wf(),
    {
        if addr < 0x8000 {
            self.cartridge.read_rom(addr)
        } else if addr < 0xA000 {
            if self.ppu.cpu_can_access_vram() {
                self.ppu.read_vram(addr)
            } else {
                0xFF
            }
        } else if addr < 0xC000 {
            self.cartridge.read_ram_at(addr, now)
        } else if addr < 0xFE00 {
            self.wram[self.wram_index(addr)]
        } else if addr < 0xFEA0 {
            if self.ppu.cpu_can_access_oam() {
                self.ppu.read_oam(addr)
            } else {
                0xFF
            }
        } else if addr < 0xFF00 {
            0
        } else if addr == 0xFFFF {
            self.interrupts.ie
        } else if addr >= 0xFF80 {
            self.hram[(addr - 0xFF80) as usize]
        } else if addr >= 0xFF10 && addr <= 0xFF3F {
            self.apu.read(addr)
        } else {
            self.read_io(addr)
        }
    }

    /// CPU read of `addr`. Unlatched MBC3 clock registers come from the system clock.
    pub fn read(&mut self, addr: u16) -> (r: u8)
        requires
            old(self)@.core_wf(),
            old(self)@.read_ok(addr),
        ensures
            exists|t: u64| r == old(self)@.read_value(addr, t),
            final(self)@ == old(self)@.after_read(addr),
            final(self)@.core_wf(),
            old(self)@.wf() ==> final(self)@.wf(),
    {
        if addr >= 0xA000 && addr < 0xC000 {
            let r = self.cartridge.read_ram(addr);
            proof {
                let t = choose|t: u64| r == self.cartridge@.read_ram_at(addr, t);
                assert(r == old(self)@.read_value(addr, t));
            }
            r
        } else {
            self.read_at(addr, 0)
        }
    }
}

impl Bus {
    /// FF55 write: `00` cancels an HBlank DMA, bit 7 starts one, anything else runs a
    /// general-purpose DMA at once (ending any HBlank DMA).
    fn write_hdma5_at(&mut self, v: u8, now: u64)
        requires
            old(self)@.core_wf(),
            old(self)@.write_ok(0xFF55, v),
        ensures
            final(self)@ == old(self)@.write_hdma5(v, now),
            final(self)@.core_wf(),
    {
        if !self.cgb_mode {
            return;
        }
        if v == 0 {
            self.hdma = None;
            return;
        }
        assert(v & 0x80u8 != 0 <==> v >= 0x80) by { lemma_u8_fields(); }
        assert(v & 0x7Fu8 == v % 128) by { lemma_u8_fields(); }
        if (v & 0x80) != 0 {
            let src = hdma_source_base(self.hdma1, self.hdma2);
            let dst = hdma_dest_base(self.hdma3, self.hdma4);
            let vb = self.ppu.vram_bank;
            assert(vb & 1u8 == vb % 2) by { lemma_u8_fields(); }
            let blocks = (v & 0x7F) + 1;
            self.hdma = Some(
                HdmaState { src, dst, blocks_remaining: blocks, vram_bank: self.ppu.vram_bank & 1 },
            );
            return;
        }
        self.run_vram_dma(v, now);
        self.hdma = None;
    }

    /// I/O register write in `FF00–FF7F` outside the APU.
    #[verifier::rlimit(40)]
    fn write_io_at(&mut self, addr: u16, v: u8, now: u64)
        requires
            old(self)@.core_wf(),
            old(self)@.write_ok(addr, v),
            0xFF00 <= addr < 0xFF80,
            !(0xFF10 <= addr <= 0xFF3F),
        ensures
            final(self)@ == old(self)@.write_io(addr, v, now),
            final(self)@.core_wf(),
    {
        if addr == 0xFF00 {
            self.joypad.write(v);
        } else if addr == 0xFF01 {
            self.serial.write_sb(v);
        } else if addr == 0xFF02 {
            self.serial.write_sc(v, &mut self.interrupts.if_);
        } else if addr == 0xFF04 {
            self.timer.write_div();
        } else if addr == 0xFF05 {
            self.timer.write_tima(v);
        } else if addr == 0xFF06 {
            self.timer.write_tma(v);
        } else if addr == 0xFF07 {
            self.timer.write_tac(v);
        } else if addr == 0xFF0F {
            self.interrupts.if_ = v & 0x1F;
        } else if addr == 0xFF40 {
            self.ppu.lcdc = v;
        } else if addr == 0xFF41 {
            self.ppu.write_stat(v);
        } else if addr == 0xFF42 {
            self.ppu.scy = v;
        } else if addr == 0xFF43 {
            self.ppu.scx = v;
        } else if addr == 0xFF45 {
            self.ppu.lyc = v;
        } else if addr == 0xFF46 {
            self.ppu.dma = v;
            assert forall|i: int| 0 <= i < 0xA0 implies #[trigger] self@.read_ok(
                wrap16((v as int * 256) as u16, i),
            ) by {
                assert(old(self)@.read_ok(wrap16((v as int * 256) as u16, i)));
            }
            self.run_oam_dma(v, now);
        } else if addr == 0xFF47 {
            self.ppu.bgp = v;
        } else if addr == 0xFF48 {
            self.ppu.obp0 = v;
        } else if addr == 0xFF49 {
            self.ppu.obp1 = v;
        } else if addr == 0xFF4A {
            self.ppu.wy = v;
        } else if addr == 0xFF4B {
            self.ppu.wx = v;
        } else if addr == 0xFF55 {
            self.write_hdma5_at(v, now);
        } else if !self.cgb_mode {
        } else if addr == 0xFF4D {
            assert((v & 0x01u8 != 0) == (v % 2 == 1)) by { lemma_u8_fields(); }
            self.prepare_speed_switch = (v & 0x01) != 0;
        } else if addr == 0xFF4F {
            assert(v & 0x01u8 == v % 2) by { lemma_u8_fields(); }
            self.ppu.vram_bank = v & 0x01;
        } else if addr == 0xFF70 {
            assert(v & 0x07u8 == v % 8) by { lemma_u8_fields(); }
            self.svbk = v & 0x07;
        } else if addr == 0xFF51 {
            self.hdma1 = v;
        } else if addr == 0xFF52 {
            self.hdma2 = v;
        } else if addr == 0xFF53 {
            self.hdma3 = v;
        } else if addr == 0xFF54 {
            self.hdma4 = v;
        } else if !self.ppu.cpu_can_access_cgb_palette() {
        } else if addr == 0xFF68 {
            self.ppu.write_bcps(v);
        } else if addr == 0xFF69 {
            let ghost p = self.ppu;
            self.ppu.write_bcpd(v);
            assert(self.ppu.bg_palette_ram =~= vstd::array::spec_array_update(
                p.bg_palette_ram,
                (p.bcps % 64) as int,
                v,
            ));
        } else if addr == 0xFF6A {
            self.ppu.write_ocps(v);
        } else if addr == 0xFF6B {
            let ghost p = self.ppu;
            self.ppu.write_ocpd(v);
            assert(self.ppu.obj_palette_ram =~= vstd::array::spec_array_update(
                p.obj_palette_ram,
                (p.ocps % 64) as int,
                v,
            ));
        }
    }

    /// CPU write of `v` to `addr` with the wall clock at `now` (for an MBC3 latch and DMA
    /// reads of its clock registers).
    pub fn write_at(&mut self, addr: u16, v: u8, now: u64)
        requires
            old(self)@.core_wf(),
            old(self)@.write_ok(addr, v),
        ensures
            final(self)@ == old(self)@.write(addr, v, now),
            final(self)@.core_wf(),
            old(self)@.wf() ==> final(self)@.wf(),
    {
        if addr < 0x8000 {
            self.cartridge.write_rom_at(addr, v, now);
        } else if addr < 0xA000 {
            if self.ppu.cpu_can_access_vram() {
                let ghost p = self.ppu;
                self.ppu.write_vram(addr, v);
                assert(self.ppu.vram =~= vstd::array::spec_array_update(
                    p.vram,
                    p.spec_vram_offset(addr),
                    v,
                ));
            }
        } else if addr < 0xC000 {
            self.cartridge.write_ram(addr, v);
        } else if addr < 0xFE00 {
            let i = self.wram_index(addr);
            let ghost w = self.wram;
            self.wram[i] = v;
            assert(self.wram =~= vstd::array::spec_array_update(w, i as int, v));
        } else if addr < 0xFEA0 {
            if self.ppu.cpu_can_access_oam() {
                let ghost p = self.ppu;
                self.ppu.write_oam(addr, v);
                assert(self.ppu.oam =~= vstd::array::spec_array_update(p.oam, addr - 0xFE00, v));
            }
        } else if addr < 0xFF00 {
        } else if addr == 0xFFFF {
            self.interrupts.ie = v & 0x1F;
        } else if addr >= 0xFF80 {
            let ghost h = self.hram;
            self.hram[(addr - 0xFF80) as usize] = v;
            assert(self.hram =~= vstd::array::spec_array_update(h, addr - 0xFF80, v));
        } else if addr >= 0xFF10 && addr <= 0xFF3F {
            self.apu.write(addr, v);
        } else {
            self.write_io_at(addr, v, now);
        }
    }

    /// CPU write of `v` to `addr`. With an MBC3 cartridge, a write that may latch its clock
    /// or start a DMA reads the system clock once.
    pub fn write(&mut self, addr: u16, v: u8)
        requires
            old(self)@.core_wf(),
            old(self)@.write_ok(addr, v),
        ensures
            exists|t: u64| final(self)@ == old(self)@.write(addr, v, t),
            final(self)@.core_wf(),
            old(self)@.wf() ==> final(self)@.wf(),
    {
        let now = if self.cartridge.has_clock() && (addr < 0x8000 || addr == 0xFF46 || addr
            == 0xFF55) {
            unix_time_secs()
        } else {
            0
        };
        self.write_at(addr, v, now);
    }
}

/// The echo area `E000–FDFF` reads the work RAM 8 KiB below it.
pub proof fn lemma_wram_echo(b: BusState, addr: u16, t: u64)
    requires
        0xE000 <= addr <= 0xFDFF,
    ensures
        b.read_value(addr, t) == b.read_value((addr - 0x2000) as u16, t),
{
}

/// A write to work RAM (or its echo) reads back.
pub proof fn lemma_wram_read_after_write(b: BusState, addr: u16, v: u8, t: u64, t2: u64)
    requires
        0xC000 <= addr < 0xFE00,
    ensures
        b.write(addr, v, t).read_value(addr, t2) == v,
{
    assert(0 <= b.wram_index(addr) < 0x8000);
}

/// A write to high RAM reads back.
pub proof fn lemma_hram_read_after_write(b: BusState, addr: u16, v: u8, t: u64, t2: u64)
    requires
        0xFF80 <= addr <= 0xFFFE,
    ensures
        b.write(addr, v, t).read_value(addr, t2) == v,
{
}

/// A write to one high-RAM address leaves every other high-RAM address as it was.
pub proof fn lemma_hram_write_other(b: BusState, a1: u16, a2: u16, v: u8, t: u64, t2: u64)
    requires
        0xFF80 <= a1 <= 0xFFFE,
        0xFF80 <= a2 <= 0xFFFE,
        a1 != a2,
    ensures
        b.write(a1, v, t).read_value(a2, t2) == b.read_value(a2, t2),
{
}

/// Reading high RAM changes nothing.
pub proof fn lemma_hram_read_pure(b: BusState, addr: u16)
    requires
        0xFF80 <= addr <= 0xFFFE,
    ensures
        b.after_read(addr) == b,
{
}

/// In CGB mode, SVBK = 0 selects WRAM bank 1 at `D000–DFFF`.
pub proof fn lemma_svbk_zero_is_bank_one(b: BusState, addr: u16, t: u64)
    requires
        b.cgb_mode,
        0xD000 <= addr <= 0xDFFF,
        b.svbk % 8 == 0,
    ensures
        b.read_value(addr, t) == (BusState { svbk: 1, ..b }).read_value(addr, t),
{
}

/// A VRAM write the PPU lets through reads back.
pub proof fn lemma_vram_read_after_write(b: BusState, addr: u16, v: u8, t: u64, t2: u64)
    requires
        0x8000 <= addr < 0xA000,
        b.ppu.spec_cpu_can_access_vram(),
    ensures
        b.write(addr, v, t).read_value(addr, t2) == v,
{
    assert(0 <= b.ppu.spec_vram_offset(addr) < 0x4000);
}

/// An OAM write the PPU lets through reads back.
pub proof fn lemma_oam_read_after_write(b: BusState, addr: u16, v: u8, t: u64, t2: u64)
    requires
        0xFE00 <= addr < 0xFEA0,
        b.ppu.spec_cpu_can_access_oam(),
    ensures
        b.write(addr, v, t).read_value(addr, t2) == v,
{
}

/// Any write to DIV resets it: DIV then reads 0.
pub proof fn lemma_div_reset(b: BusState, v: u8, t: u64, t2: u64)
    ensures
        b.write(0xFF04, v, t).read_value(0xFF04, t2) == 0,
{
}

/// IE keeps only the five interrupt bits written to it.
pub proof fn lemma_ie_mask(b: BusState, v: u8, t: u64, t2: u64)
    ensures
        b.write(0xFFFF, v, t).read_value(0xFFFF, t2) == v & 0x1F,
{
}

/// IF keeps only the five interrupt bits written to it; its top three bits read as 1.
pub proof fn lemma_if_mask(b: BusState, v: u8, t: u64, t2: u64)
    ensures
        b.write(0xFF0F, v, t).read_value(0xFF0F, t2) == (v & 0x1F) | 0xE0,
{
}

/// LY is read-only: a write to FF44 changes nothing.
pub proof fn lemma_ly_read_only(b: BusState, v: u8, t: u64)
    ensures
        b.write(0xFF44, v, t) == b,
        b.read_value(0xFF44, t) == b.ppu.ly,
{
}

/// Reading any address but the two CGB palette data ports changes nothing.
pub proof fn lemma_read_pure(b: BusState, addr: u16)
    requires
        addr != 0xFF69,
        addr != 0xFF6B,
    ensures
        b.after_read(addr) == b,
{
}

/// A byte that an OAM DMA reads from ROM or work RAM is what a CPU read of it gives.
pub proof fn lemma_dma_source_reads(b: BusState, addr: u16, t: u64)
    requires
        addr < 0x8000 || 0xC000 <= addr < 0xFE00,
    ensures
        b.dma_source(addr, t) == b.read_value(addr, t),
{
}

/// After the first `n` bytes of an OAM DMA from `base`, OAM byte `i` holds the byte at
/// `base + i` for `i < n` and is unchanged above.
proof fn lemma_oam_copy_bytes(s: BusState, base: u16, n: nat, t: u64)
    requires
        n <= 0xA0,
    ensures
        forall|i: int|
            0 <= i < n ==> #[trigger] s.oam_copy(base, n, t).oam@[i] == s.dma_source(
                wrap16(base, i),
                t,
            ),
        forall|i: int| n <= i < 0xA0 ==> #[trigger] s.oam_copy(base, n, t).oam@[i] == s.ppu.oam@[i],
    decreases n,
{
    if n > 0 {
        lemma_oam_copy_bytes(s, base, (n - 1) as nat, t);
        let p = s.oam_copy(base, (n - 1) as nat, t);
        let b = s.dma_source(wrap16(base, n - 1), t);
        assert(s.oam_copy(base, n, t).oam@ == p.oam@.update(n - 1, b)) by {
            assert(s.oam_copy(base, n, t).oam == vstd::array::spec_array_update(p.oam, n - 1, b));
        }
    }
}

/// A write of `v` to FF46 records `v` and copies the 160 bytes at `v * 0x100` into OAM,
/// leaving the rest of the PPU as it was.
pub proof fn lemma_oam_dma(b: BusState, v: u8, t: u64)
    ensures
        ({
            let s = b.write(0xFF46, v, t);
            &&& s.ppu.dma == v
            &&& s.ppu == (Ppu { dma: v, oam: s.ppu.oam, ..b.ppu })
            &&& forall|i: int|
                0 <= i < 0xA0 ==> #[trigger] s.ppu.oam@[i] == b.dma_source(
                    (v as int * 256 + i) as u16,
                    t,
                )
            &&& s == (BusState { ppu: s.ppu, ..b })
        }),
{
    let s0 = BusState { ppu: Ppu { dma: v, ..b.ppu }, ..b };
    let base = (v as int * 256) as u16;
    lemma_oam_copy_frame(s0, base, 0xA0, t);
    lemma_oam_copy_bytes(s0, base, 0xA0, t);
    assert forall|i: int| 0 <= i < 0xA0 implies wrap16(base, i) == (v as int * 256 + i) as u16 by {
    }
    assert forall|a: u16| #![auto] s0.dma_source(a, t) == b.dma_source(a, t) by {
    }
}

/// Home address of a work-RAM byte: the echo `E000–FDFF` maps onto `C000–DDFF`.
pub open spec fn wram_home(a: u16) -> int {
    if 0xE000 <= a < 0xFE00 {
        a - 0x2000
    } else {
        a as int
    }
}

/// WRAM bank that a write of `v` to SVBK selects at `D000–DFFF` in CGB mode (0 acts as 1).
pub open spec fn svbk_bank_of(v: u8) -> int {
    if v % 8 == 0 {
        1
    } else {
        (v % 8) as int
    }
}

/// A write that leaves the byte at `a` (work RAM or high RAM) alone, on a machine in CGB
/// mode `cgb` with WRAM bank `bank` selected: it goes to another address (counting the echo
/// as the same byte), and in CGB mode it does not switch SVBK to another bank.
pub open spec fn write_spares(a: u16, w: (u16, u8, u64), cgb: bool, bank: int) -> bool {
    &&& wram_home(w.0) != wram_home(a)
    &&& (cgb && w.0 == 0xFF70 ==> svbk_bank_of(w.1) == bank)
}

/// The state after the writes `ws`, in order.
pub open spec fn apply_writes(b: BusState, ws: Seq<(u16, u8, u64)>) -> BusState
    decreases ws.len(),
{
    if ws.len() == 0 {
        b
    } else {
        let w = ws.last();
        apply_writes(b, ws.drop_last()).write(w.0, w.1, w.2)
    }
}

/// A VRAM DMA write changes only the PPU, the DMA registers and the stall counter.
proof fn lemma_write_hdma5_frame(s: BusState, v: u8, t: u64)
    ensures
        s.write_hdma5(v, t).wram == s.wram,
        s.write_hdma5(v, t).hram == s.hram,
        s.write_hdma5(v, t).cgb_mode == s.cgb_mode,
        s.write_hdma5(v, t).svbk == s.svbk,
{
}

/// An I/O write keeps work RAM, high RAM and the mode; only FF70 in CGB mode moves SVBK.
proof fn lemma_write_io_frame(s: BusState, addr: u16, v: u8, t: u64)
    ensures
        s.write_io(addr, v, t).wram == s.wram,
        s.write_io(addr, v, t).hram == s.hram,
        s.write_io(addr, v, t).cgb_mode == s.cgb_mode,
        s.write_io(addr, v, t).svbk == (if addr == 0xFF70 && s.cgb_mode {
            v % 8
        } else {
            s.svbk
        }),
{
    lemma_write_hdma5_frame(s, v, t);
}

/// One write that spares `a` keeps what a read of `a` gives, the mode and the bank choice.
proof fn lemma_write_spares(s: BusState, a: u16, w: (u16, u8, u64), t2: u64)
    requires
        0xC000 <= a < 0xFE00 || 0xFF80 <= a <= 0xFFFE,
        write_spares(a, w, s.cgb_mode, s.svbk_bank()),
    ensures
        s.write(w.0, w.1, w.2).read_value(a, t2) == s.read_value(a, t2),
        s.write(w.0, w.1, w.2).cgb_mode == s.cgb_mode,
        s.write(w.0, w.1, w.2).svbk_bank() == s.svbk_bank(),
{
    let s2 = s.write(w.0, w.1, w.2);
    lemma_write_io_frame(s, w.0, w.1, w.2);
    assert(s2.cgb_mode == s.cgb_mode);
    assert(s2.svbk_bank() == s.svbk_bank());
    if 0xC000 <= w.0 < 0xFE00 {
        lemma_wram_write_frame(s, w.0, w.1, w.2);
    } else if 0xFF80 <= w.0 <= 0xFFFE {
        assert(s2 == (BusState {
            hram: vstd::array::spec_array_update(s.hram, w.0 - 0xFF80, w.1),
            ..s
        }));
    } else {
        assert(s2.wram == s.wram && s2.hram == s.hram);
    }
    if 0xC000 <= a < 0xFE00 {
        assert(s.read_value(a, t2) == s.wram@[s.wram_index(a)]);
        assert(s2.read_value(a, t2) == s2.wram@[s2.wram_index(a)]);
        assert(s2.wram_index(a) == s.wram_index(a));
        if 0xC000 <= w.0 < 0xFE00 {
            lemma_wram_index_distinct(s, w.0, a);
        }
    } else {
        assert(s.read_value(a, t2) == s.hram@[a - 0xFF80]);
        assert(s2.read_value(a, t2) == s2.hram@[a - 0xFF80]);
    }
}

/// Work RAM and high RAM keep what was written, in every WRAM bank: after a write of `v`
/// to `a`, any run of later writes that go elsewhere (the echo counts as the same byte)
/// and, in CGB mode, leave the selected WRAM bank as it was (SVBK 0 and 1 select the same
/// bank) leaves `a` reading `v`; a work-RAM byte reads the same at its echo, and these
/// reads change no state.
pub proof fn lemma_ram_keeps_write(
    b: BusState,
    a: u16,
    v: u8,
    t: u64,
    ws: Seq<(u16, u8, u64)>,
    t2: u64,
)
    requires
        0xC000 <= a <= 0xDDFF || 0xFF80 <= a <= 0xFFFE,
        forall|k: int|
            0 <= k < ws.len() ==> write_spares(a, #[trigger] ws[k], b.cgb_mode, b.svbk_bank()),
    ensures
        apply_writes(b.write(a, v, t), ws).read_value(a, t2) == v,
        a <= 0xDDFF ==> apply_writes(b.write(a, v, t), ws).read_value((a + 0x2000) as u16, t2)
            == v,
        apply_writes(b.write(a, v, t), ws).after_read(a) == apply_writes(b.write(a, v, t), ws),
    decreases ws.len(),
{
    let s0 = b.write(a, v, t);
    if ws.len() == 0 {
        if a <= 0xDDFF {
            lemma_wram_read_after_write(b, a, v, t, t2);
            lemma_wram_echo(s0, (a + 0x2000) as u16, t2);
        } else {
            lemma_hram_read_after_write(b, a, v, t, t2);
        }
    } else {
        let rest = ws.drop_last();
        assert forall|k: int| 0 <= k < rest.len() implies write_spares(
            a,
            #[trigger] rest[k],
            b.cgb_mode,
            b.svbk_bank(),
        ) by {
            assert(rest[k] == ws[k]);
        }
        lemma_ram_keeps_write(b, a, v, t, rest, t2);
        lemma_apply_writes_bank(b, a, v, t, rest);
        let s = apply_writes(s0, rest);
        assert(write_spares(a, ws[ws.len() - 1], b.cgb_mode, b.svbk_bank()));
        lemma_write_spares(s, a, ws.last(), t2);
        if a <= 0xDDFF {
            lemma_wram_echo(s.write(ws.last().0, ws.last().1, ws.last().2), (a + 0x2000) as u16, t2);
            lemma_wram_echo(s, (a + 0x2000) as u16, t2);
        }
    }
}

/// The mode and the selected WRAM bank survive a write to `a` and any run of writes that
/// spare it.
proof fn lemma_apply_writes_bank(b: BusState, a: u16, v: u8, t: u64, ws: Seq<(u16, u8, u64)>)
    requires
        0xC000 <= a <= 0xDDFF || 0xFF80 <= a <= 0xFFFE,
        forall|k: int|
            0 <= k < ws.len() ==> write_spares(a, #[trigger] ws[k], b.cgb_mode, b.svbk_bank()),
    ensures
        apply_writes(b.write(a, v, t), ws).cgb_mode == b.cgb_mode,
        apply_writes(b.write(a, v, t), ws).svbk_bank() == b.svbk_bank(),
    decreases ws.len(),
{
    if ws.len() == 0 {
        lemma_write_io_frame(b, a, v, t);
    } else {
        let rest = ws.drop_last();
        assert forall|k: int| 0 <= k < rest.len() implies write_spares(
            a,
            #[trigger] rest[k],
            b.cgb_mode,
            b.svbk_bank(),
        ) by {
            assert(rest[k] == ws[k]);
        }
        lemma_apply_writes_bank(b, a, v, t, rest);
        assert(write_spares(a, ws[ws.len() - 1], b.cgb_mode, b.svbk_bank()));
        lemma_write_spares(apply_writes(b.write(a, v, t), rest), a, ws.last(), 0);
    }
}

/// A write to one work-RAM or high-RAM byte leaves every other such byte as it was (the
/// echo counts as the same byte).
pub proof fn lemma_ram_write_other(b: BusState, a1: u16, a2: u16, v: u8, t: u64, t2: u64)
    requires
        0xC000 <= a1 < 0xFE00 || 0xFF80 <= a1 <= 0xFFFE,
        0xC000 <= a2 < 0xFE00 || 0xFF80 <= a2 <= 0xFFFE,
        wram_home(a1) != wram_home(a2),
    ensures
        b.write(a1, v, t).read_value(a2, t2) == b.read_value(a2, t2),
{
    let s2 = b.write(a1, v, t);
    lemma_write_io_frame(b, a1, v, t);
    if 0xC000 <= a1 < 0xFE00 {
        lemma_wram_write_frame(b, a1, v, t);
    } else {
        assert(s2 == (BusState {
            hram: vstd::array::spec_array_update(b.hram, a1 - 0xFF80, v),
            ..b
        }));
    }
    if 0xC000 <= a2 < 0xFE00 {
        assert(b.read_value(a2, t2) == b.wram@[b.wram_index(a2)]);
        assert(s2.read_value(a2, t2) == s2.wram@[s2.wram_index(a2)]);
        if 0xC000 <= a1 < 0xFE00 {
            lemma_wram_index_distinct(b, a1, a2);
        }
    } else {
        assert(b.read_value(a2, t2) == b.hram@[a2 - 0xFF80]);
        assert(s2.read_value(a2, t2) == s2.hram@[a2 - 0xFF80]);
    }
}

/// A work-RAM write stores into the byte its address maps to and changes nothing else.
proof fn lemma_wram_write_frame(b: BusState, a: u16, v: u8, t: u64)
    requires
        0xC000 <= a < 0xFE00,
    ensures
        0 <= b.wram_index(a) < 0x8000,
        b.write(a, v, t) == (BusState {
            wram: vstd::array::spec_array_update(b.wram, b.wram_index(a), v),
            ..b
        }),
{
}

/// Two work-RAM addresses with different home addresses map to different bytes.
proof fn lemma_wram_index_distinct(b: BusState, a1: u16, a2: u16)
    requires
        0xC000 <= a1 < 0xFE00,
        0xC000 <= a2 < 0xFE00,
        wram_home(a1) != wram_home(a2),
    ensures
        b.wram_index(a1) != b.wram_index(a2),
{
}

/// A write to memory outside the I/O registers (and IE) leaves the interrupt registers alone.
pub proof fn lemma_write_keeps_interrupts(b: BusState, addr: u16, v: u8, t: u64)
    requires
        addr < 0xFF00 || 0xFF80 <= addr <= 0xFFFE,
    ensures
        b.write(addr, v, t).interrupts == b.interrupts,
{
}

} // verus!
