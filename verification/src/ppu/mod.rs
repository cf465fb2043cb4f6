//! Picture processing unit: LCD timing, STAT/VBlank interrupts, VRAM/OAM/palette ports and
//! the scanline renderer.

pub mod render;

use vstd::prelude::*;

use crate::bits::{lemma_u16_fields, lemma_u8_fields, lemma_usize_fields};
use crate::interrupts;

verus! {

pub const LCD_WIDTH: usize = 160;
pub const LCD_HEIGHT: usize = 144;
pub const FRAMEBUFFER_LEN: usize = 92160;

const MODE2_END: u32 = 80;
const MODE3_END: u32 = 252;
const LINE_CYCLES: u32 = 456;
const VBLANK_START: u8 = 144;

#[derive(Debug, Clone, Copy)]
pub struct Ppu {
    pub lcdc: u8,
    pub stat: u8,
    pub scy: u8,
    pub scx: u8,
    pub ly: u8,
    pub lyc: u8,
    pub dma: u8,
    pub bgp: u8,
    pub obp0: u8,
    pub obp1: u8,
    pub wy: u8,
    pub wx: u8,
    /// Dot counter within the current scanline (0–455).
    pub dot: u32,
    pub mode: u8,
    /// CGB: 8 KiB × 2 banks (VBK @ FF4F). DMG uses bank 0 only.
    pub vram: [u8; 0x4000],
    pub vram_bank: u8,
    pub cgb_mode: bool,
    /// FF68 — BG palette index (bits 0–5), bit 7 auto-increment after BCPD access.
    pub bcps: u8,
    /// FF6A — OBJ palette index (bits 0–5), bit 7 auto-increment after OCPD access.
    pub ocps: u8,
    /// 64 bytes: 8 palettes × 4 colors × 2 bytes (RGB555 little-endian).
    pub bg_palette_ram: [u8; 64],
    pub obj_palette_ram: [u8; 64],
    pub oam: [u8; 0xA0],
    pub framebuffer: [u8; FRAMEBUFFER_LEN],
    /// Previous composite STAT interrupt line (edge detection).
    pub prev_stat_line: bool,
    /// The LCD was off at the last step.
    pub lcd_was_off: bool,
    /// HBlank starts seen on visible lines since the last `take_hblank_dma_edges`.
    pub hblank_dma_edges: u32,
}

/// Palette index register after a data-port access: with auto-increment (bit 7) the index
/// (bits 0–5) advances modulo 64.
pub open spec fn next_palette_index(p: u8) -> u8 {
    if p & 0x80 != 0 {
        (p & 0x80) | (((p % 64) + 1) % 64) as u8
    } else {
        p
    }
}

/// LCD mode for scanline `ly` at dot `dot`.
pub open spec fn mode_for(ly: u8, dot: u32) -> u8 {
    if ly >= 144 {
        1
    } else if dot < 80 {
        2
    } else if dot < 252 {
        3
    } else {
        0
    }
}

impl Ppu {
    pub open spec fn spec_lcd_on(self) -> bool {
        self.lcdc & 0x80 != 0
    }

    /// VRAM index for a CPU access to `addr` (`8000–9FFF`, mirrored every 8 KiB).
    pub open spec fn spec_vram_offset(self, addr: u16) -> int {
        let bank = if self.cgb_mode {
            (self.vram_bank % 2) as int
        } else {
            0
        };
        bank * 0x2000 + addr as int % 0x2000
    }

    pub open spec fn spec_cpu_can_access_vram(self) -> bool {
        !self.spec_lcd_on() || self.mode != 3
    }

    pub open spec fn spec_cpu_can_access_oam(self) -> bool {
        !self.spec_lcd_on() || self.mode == 0 || self.mode == 1
    }

    pub open spec fn spec_cpu_can_access_cgb_palette(self) -> bool {
        !self.cgb_mode || !self.spec_lcd_on() || self.mode != 3
    }

    pub open spec fn spec_read_stat(self) -> u8 {
        (self.stat & 0xF8) | (self.mode & 0x03) | (if self.ly == self.lyc { 0x04u8 } else { 0 }) | 0x80
    }

    /// Composite STAT interrupt line.
    pub open spec fn spec_stat_irq_line(self) -> bool {
        ||| (self.stat & 0x40 != 0 && self.ly == self.lyc)
        ||| (self.stat & 0x20 != 0 && self.mode == 2 && self.ly < 144)
        ||| (self.stat & 0x08 != 0 && self.mode == 0 && self.ly < 144)
        ||| (self.stat & 0x10 != 0 && self.mode == 1)
    }

    pub fn lcd_on(&self) -> (r: bool)
        ensures
            r == self.spec_lcd_on(),
    {
        (self.lcdc & 0x80) != 0
    }

    fn vram_offset(&self, addr: u16) -> (r: usize)
        ensures
            r == self.spec_vram_offset(addr),
            r < 0x4000,
    {
        let bank: usize = if self.cgb_mode {
            (self.vram_bank & 1) as usize
        } else {
            0
        };
        let vb = self.vram_bank;
        assert(vb & 1u8 == vb % 2) by { lemma_u8_fields(); }
        let rel = (addr & 0x1FFF) as usize;
        assert(addr & 0x1FFFu16 == addr % 0x2000) by {
            lemma_u16_fields();
        }
        bank * 0x2000 + rel
    }

    /// Tile VRAM offset within one 8 KiB bank (mirrors `8000–9FFF`).
    fn vram_tile_rel(tile_addr: u16) -> (r: usize)
        ensures
            r == tile_addr as int % 0x2000,
    {
        assert(tile_addr & 0x1FFFu16 == tile_addr % 0x2000) by {
            lemma_u16_fields();
        }
        (tile_addr & 0x1FFF) as usize
    }

    /// Two consecutive tile bytes (a pattern row); indices are clamped to the end of VRAM.
    fn vram_tile_row_pair(&self, tile_bank: usize, tile_addr: u16) -> (r: (u8, u8))
        ensures
            r == self.spec_row_pair(tile_bank as int, tile_addr),
    {
        assert(tile_bank & 1usize == tile_bank % 2) by { lemma_usize_fields(); }
        let b = tile_bank & 1;
        let base = b * 0x2000 + Self::vram_tile_rel(tile_addr);
        let max = 0x3FFFusize;
        let i0 = if base < max { base } else { max };
        let i1 = if base + 1 < max { base + 1 } else { max };
        (self.vram[i0], self.vram[i1])
    }

    pub open spec fn spec_row_pair(self, tile_bank: int, tile_addr: u16) -> (u8, u8) {
        let base = (tile_bank % 2) * 0x2000 + tile_addr as int % 0x2000;
        let i0 = if base < 0x3FFF { base } else { 0x3FFF };
        let i1 = if base + 1 < 0x3FFF { base + 1 } else { 0x3FFF };
        (self.vram@[i0], self.vram@[i1])
    }

    pub fn read_vram(&self, addr: u16) -> (r: u8)
        ensures
            r == self.vram@[self.spec_vram_offset(addr)],
    {
        self.vram[self.vram_offset(addr)]
    }

    pub fn write_vram(&mut self, addr: u16, v: u8)
        ensures
            final(self).vram@ == old(self).vram@.update(old(self).spec_vram_offset(addr), v),
            *final(self) == (Ppu { vram: final(self).vram, ..*old(self) }),
    {
        let o = self.vram_offset(addr);
        self.vram[o] = v;
    }

    /// VRAM DMA write: uses the bank latched when the transfer started.
    pub fn write_vram_dma(&mut self, addr: u16, v: u8, bank: u8)
        ensures
            final(self).vram@ == old(self).vram@.update(
                (bank % 2) as int * 0x2000 + addr as int % 0x2000,
                v,
            ),
            *final(self) == (Ppu { vram: final(self).vram, ..*old(self) }),
    {
        let rel = Self::vram_tile_rel(addr);
        assert(bank & 1u8 == bank % 2) by { lemma_u8_fields(); }
        let o = ((bank & 1) as usize) * 0x2000 + rel;
        self.vram[o] = v;
    }

    /// CPU VRAM accesses are ignored during mode 3 (LCD draw).
    pub fn cpu_can_access_vram(&self) -> (r: bool)
        ensures
            r == self.spec_cpu_can_access_vram(),
    {
        !self.lcd_on() || self.mode != 3
    }

    /// OAM is CPU-accessible only during HBlank and VBlank.
    pub fn cpu_can_access_oam(&self) -> (r: bool)
        ensures
            r == self.spec_cpu_can_access_oam(),
    {
        !self.lcd_on() || self.mode == 0 || self.mode == 1
    }

    /// CGB palette ports (FF68–FF6B) are blocked during mode 3.
    pub fn cpu_can_access_cgb_palette(&self) -> (r: bool)
        ensures
            r == self.spec_cpu_can_access_cgb_palette(),
    {
        !self.cgb_mode || !self.lcd_on() || self.mode != 3
    }

    pub fn read_bcps(&self) -> (r: u8)
        ensures
            r == self.bcps | 0x40,
    {
        self.bcps | 0x40
    }

    pub fn write_bcps(&mut self, v: u8)
        ensures
            *final(self) == (Ppu { bcps: v & 0xBF, ..*old(self) }),
    {
        assert((v & 0xBFu8) | (v & 0x80u8) == v & 0xBFu8) by { lemma_u8_fields(); }
        self.bcps = (v & 0xBF) | (v & 0x80);
    }

    pub fn read_bcpd(&mut self) -> (r: u8)
        ensures
            r == old(self).bg_palette_ram@[(old(self).bcps % 64) as int],
            *final(self) == (Ppu { bcps: next_palette_index(old(self).bcps), ..*old(self) }),
    {
        let p = self.bcps;
        assert(p & 0x3Fu8 == p % 64) by { lemma_u8_fields(); }
        let i = (self.bcps & 0x3F) as usize;
        let v = self.bg_palette_ram[i];
        self.bcps = advance_palette_index(self.bcps);
        v
    }

    pub fn write_bcpd(&mut self, v: u8)
        ensures
            final(self).bg_palette_ram@ == old(self).bg_palette_ram@.update((old(self).bcps % 64) as int, v),
            *final(self) == (Ppu {
                bcps: next_palette_index(old(self).bcps),
                bg_palette_ram: final(self).bg_palette_ram,
                ..*old(self)
            }),
    {
        let p = self.bcps;
        assert(p & 0x3Fu8 == p % 64) by { lemma_u8_fields(); }
        let i = (self.bcps & 0x3F) as usize;
        self.bg_palette_ram[i] = v;
        self.bcps = advance_palette_index(self.bcps);
    }

    pub fn read_ocps(&self) -> (r: u8)
        ensures
            r == self.ocps | 0x40,
    {
        self.ocps | 0x40
    }

    pub fn write_ocps(&mut self, v: u8)
        ensures
            *final(self) == (Ppu { ocps: v & 0xBF, ..*old(self) }),
    {
        assert((v & 0xBFu8) | (v & 0x80u8) == v & 0xBFu8) by { lemma_u8_fields(); }
        self.ocps = (v & 0xBF) | (v & 0x80);
    }

    pub fn read_ocpd(&mut self) -> (r: u8)
        ensures
            r == old(self).obj_palette_ram@[(old(self).ocps % 64) as int],
            *final(self) == (Ppu { ocps: next_palette_index(old(self).ocps), ..*old(self) }),
    {
        let p = self.ocps;
        assert(p & 0x3Fu8 == p % 64) by { lemma_u8_fields(); }
        let i = (self.ocps & 0x3F) as usize;
        let v = self.obj_palette_ram[i];
        self.ocps = advance_palette_index(self.ocps);
        v
    }

    pub fn write_ocpd(&mut self, v: u8)
        ensures
            final(self).obj_palette_ram@ == old(self).obj_palette_ram@.update((old(self).ocps % 64) as int, v),
            *final(self) == (Ppu {
                ocps: next_palette_index(old(self).ocps),
                obj_palette_ram: final(self).obj_palette_ram,
                ..*old(self)
            }),
    {
        let p = self.ocps;
        assert(p & 0x3Fu8 == p % 64) by { lemma_u8_fields(); }
        let i = (self.ocps & 0x3F) as usize;
        self.obj_palette_ram[i] = v;
        self.ocps = advance_palette_index(self.ocps);
    }

    pub fn read_oam(&self, addr: u16) -> (r: u8)
        requires
            0xFE00 <= addr < 0xFEA0,
        ensures
            r == self.oam@[addr - 0xFE00],
    {
        self.oam[(addr - 0xFE00) as usize]
    }

    pub fn write_oam(&mut self, addr: u16, v: u8)
        requires
            0xFE00 <= addr < 0xFEA0,
        ensures
            final(self).oam@ == old(self).oam@.update(addr - 0xFE00, v),
            *final(self) == (Ppu { oam: final(self).oam, ..*old(self) }),
    {
        self.oam[(addr - 0xFE00) as usize] = v;
    }

    fn stat_mode_bits(&self) -> (r: u8)
        ensures
            r == self.mode & 0x03,
    {
        self.mode & 0x03
    }

    pub fn read_stat(&self) -> (r: u8)
        ensures
            r == self.spec_read_stat(),
    {
        let coincidence: u8 = if self.ly == self.lyc { 0x04 } else { 0 };
        (self.stat & 0xF8) | self.stat_mode_bits() | coincidence | 0x80
    }

    /// Only bits 3–7 of STAT are writable.
    pub fn write_stat(&mut self, v: u8)
        ensures
            *final(self) == (Ppu { stat: (v & 0xF8) | (old(self).stat & 0x07), ..*old(self) }),
    {
        self.stat = (v & 0xF8) | (self.stat & 0x07);
    }

    /// Consumes the count of visible-scanline HBlank starts (one HDMA chunk each).
    pub fn take_hblank_dma_edges(&mut self) -> (r: u32)
        ensures
            r == old(self).hblank_dma_edges,
            *final(self) == (Ppu { hblank_dma_edges: 0, ..*old(self) }),
    {
        let n = self.hblank_dma_edges;
        self.hblank_dma_edges = 0;
        n
    }

    fn update_mode_for_dot(&mut self)
        ensures
            *final(self) == (Ppu { mode: mode_for(old(self).ly, old(self).dot), ..*old(self) }),
    {
        if self.ly >= VBLANK_START {
            self.mode = 1;
        } else if self.dot < MODE2_END {
            self.mode = 2;
        } else if self.dot < MODE3_END {
            self.mode = 3;
        } else {
            self.mode = 0;
        }
    }

    fn stat_irq_line(&self) -> (r: bool)
        ensures
            r == self.spec_stat_irq_line(),
    {
        let lyc = (self.stat & 0x40) != 0 && self.ly == self.lyc;
        let m2 = (self.stat & 0x20) != 0 && self.mode == 2 && self.ly < VBLANK_START;
        let m0 = (self.stat & 0x08) != 0 && self.mode == 0 && self.ly < VBLANK_START;
        let m1 = (self.stat & 0x10) != 0 && self.mode == 1;
        lyc || m2 || m0 || m1
    }

    /// Requests the STAT interrupt on a rising edge of the STAT line.
    fn check_stat_irq(&mut self, if_: &mut u8)
        ensures
            *final(self) == (Ppu { prev_stat_line: old(self).spec_stat_irq_line(), ..*old(self) }),
            *final(if_) == if old(self).spec_stat_irq_line() && !old(self).prev_stat_line {
                *old(if_) | interrupts::LCD_STAT
            } else {
                *old(if_)
            },
    {
        let line = self.stat_irq_line();
        if line && !self.prev_stat_line {
            *if_ = *if_ | interrupts::LCD_STAT;
        }
        self.prev_stat_line = line;
    }
}

impl Default for Ppu {
    /// Post-boot register values, blank memories, LCD considered off until the first step.
    fn default() -> (r: Self)
        ensures
            r.spec_is_power_on(),
    {
        Ppu {
            lcdc: 0x91,
            stat: 0x85,
            scy: 0,
            scx: 0,
            ly: 0,
            lyc: 0,
            dma: 0,
            bgp: 0xFC,
            obp0: 0xFF,
            obp1: 0xFF,
            wy: 0,
            wx: 0,
            dot: 0,
            mode: 0,
            vram: [0; 0x4000],
            vram_bank: 0,
            cgb_mode: false,
            bcps: 0,
            ocps: 0,
            bg_palette_ram: [0; 64],
            obj_palette_ram: [0; 64],
            oam: [0; 0xA0],
            framebuffer: [0; FRAMEBUFFER_LEN],
            prev_stat_line: false,
            lcd_was_off: true,
            hblank_dma_edges: 0,
        }
    }
}

impl Ppu {
    /// The state `default` produces.
    pub open spec fn spec_is_power_on(self) -> bool {
        &&& self.lcdc == 0x91 && self.stat == 0x85 && self.scy == 0 && self.scx == 0
        &&& self.ly == 0 && self.lyc == 0 && self.dma == 0 && self.bgp == 0xFC
        &&& self.obp0 == 0xFF && self.obp1 == 0xFF && self.wy == 0 && self.wx == 0
        &&& self.dot == 0 && self.mode == 0 && self.vram_bank == 0 && !self.cgb_mode
        &&& self.bcps == 0 && self.ocps == 0 && !self.prev_stat_line && self.lcd_was_off
        &&& self.hblank_dma_edges == 0
        &&& forall|i: int| 0 <= i < 0x4000 ==> self.vram@[i] == 0
        &&& forall|i: int| 0 <= i < 64 ==> self.bg_palette_ram@[i] == 0
        &&& forall|i: int| 0 <= i < 64 ==> self.obj_palette_ram@[i] == 0
        &&& forall|i: int| 0 <= i < 0xA0 ==> self.oam@[i] == 0
        &&& forall|i: int| 0 <= i < 92160 ==> self.framebuffer@[i] == 0
    }

    /// End of a scanline: render it if visible, advance LY (mod 154), and request VBlank
    /// when LY goes from 143 to 144.
    pub open spec fn end_of_line(self, if_: u8) -> (Ppu, u8) {
        let fb = if self.ly < 144 && self.spec_lcd_on() {
            self.rendered_framebuffer()
        } else {
            self.framebuffer@
        };
        let ly = ((self.ly as int + 1) % 154) as u8;
        let if2 = if ly == 144 && self.ly == 143 {
            if_ | interrupts::VBLANK
        } else {
            if_
        };
        (Ppu { ly, framebuffer: framebuffer_with_view(self.framebuffer, fb), ..self }, if2)
    }

    /// One pass of the dot loop with `rem > 0` dots left: advance to the end of the line at
    /// most, count an HBlank start on a visible line, update the mode and STAT line, and finish
    /// the line when its 456 dots are done. Returns the new state, IF and dots left.
    pub open spec fn dot_chunk(self, rem: u32, if_: u8) -> (Ppu, u8, u32) {
        let take: u32 = if self.dot >= 456 {
            0
        } else if rem < 456 - self.dot {
            rem
        } else {
            (456 - self.dot) as u32
        };
        let dot1 = (self.dot + take) as u32;
        let edges = if self.ly < 144 && self.dot < 252 && dot1 >= 252 {
            if self.hblank_dma_edges < u32::MAX {
                (self.hblank_dma_edges + 1) as u32
            } else {
                self.hblank_dma_edges
            }
        } else {
            self.hblank_dma_edges
        };
        let p2 = Ppu { dot: dot1, hblank_dma_edges: edges, mode: mode_for(self.ly, dot1), ..self };
        let line = p2.spec_stat_irq_line();
        let if2 = if line && !p2.prev_stat_line {
            if_ | interrupts::LCD_STAT
        } else {
            if_
        };
        let p3 = Ppu { prev_stat_line: line, ..p2 };
        if dot1 >= 456 {
            let (p4, if3) = Ppu { dot: 0, ..p3 }.end_of_line(if2);
            (p4, if3, (rem - take) as u32)
        } else {
            (p3, if2, (rem - take) as u32)
        }
    }

    /// State and IF after `rem` more dots with the LCD on.
    pub open spec fn run_dots(self, rem: u32, if_: u8) -> (Ppu, u8)
        decreases rem, (if self.dot >= 456 { 1int } else { 0int }),
    {
        if rem == 0 {
            (self, if_)
        } else {
            let (p, i, r) = self.dot_chunk(rem, if_);
            if r < rem || (r == rem && p.dot < 456 && self.dot >= 456) {
                p.run_dots(r, i)
            } else {
                (p, i)
            }
        }
    }

    /// State and IF after `step(t_cycles)`.
    pub open spec fn spec_step(self, t_cycles: u32, if_: u8) -> (Ppu, u8) {
        if !self.spec_lcd_on() {
            (Ppu { lcd_was_off: true, ly: 0, dot: 0, mode: 0, prev_stat_line: false, ..self }, if_)
        } else {
            Ppu { lcd_was_off: false, ..self }.run_dots(t_cycles, if_)
        }
    }

    pub open spec fn step_ok(self) -> bool {
        self.spec_lcd_on() ==> self.dot <= 456
    }

    fn end_of_scanline(&mut self, if_: &mut u8)
        ensures
            (*final(self), *final(if_)) == old(self).end_of_line(*old(if_)),
    {
        let ghost fb0 = self.framebuffer;
        if self.ly < VBLANK_START && self.lcd_on() {
            self.render_scanline();
        }
        let prev = self.ly;
        self.ly = ((self.ly as u16 + 1) % 154) as u8;
        if self.ly == VBLANK_START && prev == VBLANK_START - 1 {
            *if_ = *if_ | interrupts::VBLANK;
        }
        proof {
            lemma_framebuffer_with_view(fb0, self.framebuffer@);
            assert(self.framebuffer =~= framebuffer_with_view(fb0, self.framebuffer@));
        }
    }

    /// Advances the PPU by `t_cycles` T-states, requesting STAT and VBlank interrupts in `if_`.
    pub fn step(&mut self, t_cycles: u32, if_: &mut u8)
        requires
            old(self).step_ok(),
        ensures
            (*final(self), *final(if_)) == old(self).spec_step(t_cycles, *old(if_)),
            final(self).step_ok(),
            final(self).dot <= 456,
            final(self).spec_lcd_on() && t_cycles > 0 ==> final(self).dot < 456,
    {
        if !self.lcd_on() {
            self.lcd_was_off = true;
            self.ly = 0;
            self.dot = 0;
            self.mode = 0;
            self.prev_stat_line = false;
            return;
        }
        self.lcd_was_off = false;
        let mut remaining = t_cycles;
        while remaining > 0
            invariant
                self.spec_lcd_on(),
                self.dot <= 456,
                remaining < t_cycles ==> self.dot < 456,
                self.run_dots(remaining, *if_) == old(self).spec_step(t_cycles, *old(if_)),
            decreases remaining, (if self.dot >= 456 { 1int } else { 0int }),
        {
            let ghost before = (*self, *if_, remaining);
            let dot_before = self.dot;
            let take = if remaining < LINE_CYCLES - self.dot { remaining } else { LINE_CYCLES - self.dot };
            self.dot = self.dot + take;
            remaining = remaining - take;
            if self.ly < VBLANK_START && dot_before < MODE3_END && self.dot >= MODE3_END {
                if self.hblank_dma_edges < u32::MAX {
                    self.hblank_dma_edges = self.hblank_dma_edges + 1;
                }
            }
            self.update_mode_for_dot();
            self.check_stat_irq(if_);
            if self.dot >= LINE_CYCLES {
                self.dot = 0;
                self.end_of_scanline(if_);
            }
            assert((*self, *if_, remaining) == before.0.dot_chunk(before.2, before.1));
        }
    }
}

/// `a` with its first `k` bytes replaced by those of `s`.
pub open spec fn array_prefix_from(a: [u8; FRAMEBUFFER_LEN], s: Seq<u8>, k: int) -> [u8; FRAMEBUFFER_LEN]
    decreases k,
{
    if k <= 0 {
        a
    } else {
        vstd::array::spec_array_update(array_prefix_from(a, s, k - 1), k - 1, s[k - 1])
    }
}

/// The framebuffer array whose bytes are `s` (`a` when `s` has the wrong length).
pub open spec fn framebuffer_with_view(a: [u8; FRAMEBUFFER_LEN], s: Seq<u8>) -> [u8; FRAMEBUFFER_LEN] {
    if s.len() == FRAMEBUFFER_LEN {
        array_prefix_from(a, s, FRAMEBUFFER_LEN as int)
    } else {
        a
    }
}

proof fn lemma_array_prefix_from(a: [u8; FRAMEBUFFER_LEN], s: Seq<u8>, k: int)
    requires
        s.len() == FRAMEBUFFER_LEN,
        0 <= k <= FRAMEBUFFER_LEN,
    ensures
        array_prefix_from(a, s, k)@ == s.subrange(0, k) + a@.subrange(k, FRAMEBUFFER_LEN as int),
    decreases k,
{
    if k > 0 {
        lemma_array_prefix_from(a, s, k - 1);
        vstd::array::axiom_spec_array_update(array_prefix_from(a, s, k - 1), k - 1, s[k - 1]);
        assert(array_prefix_from(a, s, k)@ =~= s.subrange(0, k) + a@.subrange(k, FRAMEBUFFER_LEN as int));
    } else {
        assert(array_prefix_from(a, s, k)@ =~= s.subrange(0, k) + a@.subrange(k, FRAMEBUFFER_LEN as int));
    }
}

pub proof fn lemma_framebuffer_with_view(a: [u8; FRAMEBUFFER_LEN], s: Seq<u8>)
    requires
        s.len() == FRAMEBUFFER_LEN,
    ensures
        framebuffer_with_view(a, s)@ == s,
{
    lemma_array_prefix_from(a, s, FRAMEBUFFER_LEN as int);
    assert(s.subrange(0, FRAMEBUFFER_LEN as int) + a@.subrange(FRAMEBUFFER_LEN as int, FRAMEBUFFER_LEN as int) =~= s);
}

/// Advances a palette index register after a data-port access.
fn advance_palette_index(p: u8) -> (r: u8)
    ensures
        r == next_palette_index(p),
{
    if (p & 0x80) != 0 {
        assert(p & 0x3Fu8 == p % 64) by { lemma_u8_fields(); }
        let ni = ((p & 0x3F) + 1) & 0x3F;
        assert((((p & 0x3Fu8) + 1u8) as u8) & 0x3Fu8 == ((p % 64) + 1) % 64) by { lemma_u8_fields(); }
        (p & 0x80) | ni
    } else {
        p
    }
}

/// Position of the PPU inside a frame: dots since the start of line 0.
pub open spec fn frame_position(p: Ppu) -> int {
    p.ly * 456 + p.dot
}

/// `g` is `f` with at most the VBlank and STAT request bits newly set.
pub open spec fn only_raises_lcd_bits(f: u8, g: u8) -> bool {
    g | f == g && g & 0xFC == f & 0xFC
}

/// Setting the VBlank or STAT bit only raises those bits.
proof fn lemma_raise_lcd_bit(f: u8)
    by (bit_vector)
    ensures
        (f | 1u8) | f == (f | 1u8) && (f | 1u8) & 0xFCu8 == f & 0xFCu8,
        (f | 2u8) | f == (f | 2u8) && (f | 2u8) & 0xFCu8 == f & 0xFCu8,
        (f | 1u8) & 1u8 == 1u8,
        f | f == f && f & 0xFCu8 == f & 0xFCu8,
{
}

/// Raising bits twice raises bits, and a raised bit stays raised.
proof fn lemma_raise_lcd_trans(a: u8, b: u8, c: u8)
    by (bit_vector)
    requires
        b | a == b,
        b & 0xFCu8 == a & 0xFCu8,
        c | b == c,
        c & 0xFCu8 == b & 0xFCu8,
    ensures
        c | a == c,
        c & 0xFCu8 == a & 0xFCu8,
        b & 1u8 == 1u8 ==> c & 1u8 == 1u8,
{
}

/// One pass of the dot loop moves the frame position forward by the dots it took (wrapping
/// at the end of the frame), raises at most the VBlank and STAT requests, and raises VBlank
/// when it finishes line 143.
proof fn lemma_dot_chunk_position(p: Ppu, rem: u32, f: u8)
    requires
        p.spec_lcd_on(),
        p.dot < 456,
        p.ly < 154,
        rem > 0,
    ensures
        ({
            let (q, g, r) = p.dot_chunk(rem, f);
            let take = rem - r;
            &&& 0 < take <= 456 - p.dot
            &&& r < rem
            &&& q.spec_lcd_on() && q.dot < 456 && q.ly < 154
            &&& frame_position(q) == (frame_position(p) + take) % 70224
            &&& only_raises_lcd_bits(f, g)
            &&& (p.ly == 143 && take == 456 - p.dot ==> g & 1 == 1)
        }),
{
    lemma_raise_lcd_bit(f);
    lemma_raise_lcd_bit(f | 2);
    lemma_raise_lcd_trans(f, f | 2, (f | 2) | 1);
    let (q, g, r) = p.dot_chunk(rem, f);
    let take: int = if rem < 456 - p.dot { rem as int } else { 456 - p.dot };
    if p.dot + take >= 456 {
        assert(frame_position(p) + take == (p.ly + 1) * 456);
        if p.ly == 153 {
            assert(frame_position(q) == 0);
        }
    }
}

/// Frame position `k` (counted from the start of line 0, over any number of frames) is the
/// first dot of HBlank on a visible line.
pub open spec fn is_hblank_start(k: int) -> bool {
    k % 456 == 252 && (k % 70224) / 456 < 144
}

/// Number of HBlank starts on visible lines at positions in `(a, b]`.
pub open spec fn hblank_starts(a: int, b: int) -> nat
    decreases b - a,
{
    if b <= a {
        0
    } else {
        hblank_starts(a, b - 1) + if is_hblank_start(b) {
            1nat
        } else {
            0nat
        }
    }
}

/// Counting over `(a, c]` is counting over `(a, b]` and then `(b, c]`.
proof fn lemma_hblank_starts_split(a: int, b: int, c: int)
    requires
        a <= b <= c,
    ensures
        hblank_starts(a, c) == hblank_starts(a, b) + hblank_starts(b, c),
    decreases c - b,
{
    if c > b {
        lemma_hblank_starts_split(a, b, c - 1);
    }
}

/// The count repeats every frame.
proof fn lemma_hblank_starts_period(a: int, b: int)
    requires
        a <= b,
    ensures
        hblank_starts(a + 70224, b + 70224) == hblank_starts(a, b),
    decreases b - a,
{
    if b > a {
        lemma_hblank_starts_period(a, b - 1);
        let k = b;
        assert((k + 70224) % 456 == k % 456) by {
            vstd::arithmetic::div_mod::lemma_mod_multiples_vanish(154, k, 456);
        }
        assert((k + 70224) % 70224 == k % 70224) by {
            vstd::arithmetic::div_mod::lemma_mod_add_multiples_vanish(k, 70224);
        }
    }
}

/// Within one line, the dots `(dot, dot + take]` hold an HBlank start exactly when the line
/// is visible and they pass dot 252.
proof fn lemma_hblank_starts_in_line(ly: int, dot: int, take: int)
    requires
        0 <= ly < 154,
        0 <= dot,
        0 <= take,
        dot + take <= 456,
    ensures
        hblank_starts(456 * ly + dot, 456 * ly + dot + take) == if ly < 144 && dot < 252 <= dot
            + take {
            1nat
        } else {
            0nat
        },
    decreases take,
{
    if take > 0 {
        lemma_hblank_starts_in_line(ly, dot, take - 1);
        let k = 456 * ly + dot + take;
        if dot + take < 456 {
            assert(k % 456 == dot + take);
            assert(k % 70224 == k);
            assert(k / 456 == ly);
        } else {
            assert(k % 456 == 0);
        }
    }
}

/// `rem` more dots with the LCD on move the frame position forward by `rem` (modulo a
/// frame of 154 lines of 456 dots), raise at most the VBlank and STAT requests, and raise
/// VBlank whenever the span reaches the start of line 144.
proof fn lemma_run_dots_position(p: Ppu, rem: u32, f: u8)
    requires
        p.spec_lcd_on(),
        p.dot < 456,
        p.ly < 154,
    ensures
        ({
            let (q, g) = p.run_dots(rem, f);
            &&& q.spec_lcd_on() && q.dot < 456 && q.ly < 154
            &&& frame_position(q) == (frame_position(p) + rem) % 70224
            &&& only_raises_lcd_bits(f, g)
            &&& (exists|k: int|
                frame_position(p) < k <= frame_position(p) + rem && #[trigger] (k % 70224)
                    == 65664) ==> g & 1 == 1
        }),
    decreases rem,
{
    let l0 = frame_position(p);
    if rem == 0 {
        lemma_raise_lcd_bit(f);
    } else {
        lemma_dot_chunk_position(p, rem, f);
        let (p1, f1, r) = p.dot_chunk(rem, f);
        let take: int = rem - r;
        lemma_run_dots_position(p1, r, f1);
        let (q, g) = p1.run_dots(r, f1);
        assert(p.run_dots(rem, f) == (q, g));
        let l1 = frame_position(p1);
        if l0 + take == 70224 {
            assert(l1 == 0);
        } else {
            assert(l1 == l0 + take);
        }
        assert(frame_position(q) == (l0 + rem) % 70224);
        lemma_raise_lcd_trans(f, f1, g);
        if exists|k: int| l0 < k <= l0 + rem && #[trigger] (k % 70224) == 65664 {
            let k = choose|k: int| l0 < k <= l0 + rem && #[trigger] (k % 70224) == 65664;
            let j = k / 70224;
            assert(k == 70224 * j + 65664);
            assert(k == 456 * (154 * j + 144));
            if k <= l0 + take {
                // Within one line only its end is a line start.
                let m = 154 * j + 144;
                assert(456 * p.ly < 456 * m <= 456 * p.ly + 456);
                assert(m == p.ly + 1) by (nonlinear_arith)
                    requires 456 * p.ly < 456 * m <= 456 * p.ly + 456;
                assert(p.ly == 143);
                assert(take == 456 - p.dot);
            } else {
                let k1 = if l0 + take == 70224 { k - 70224 } else { k };
                assert(l1 < k1 <= l1 + r);
                assert(k1 % 70224 == 65664);
            }
        }
    }
}

/// `rem` more dots with the LCD on count one HBlank start for each visible line whose
/// dot 252 they pass, unless the counter would go past `u32::MAX`.
proof fn lemma_run_dots_edges(p: Ppu, rem: u32, f: u8)
    requires
        p.spec_lcd_on(),
        p.dot < 456,
        p.ly < 154,
        p.hblank_dma_edges + hblank_starts(frame_position(p), frame_position(p) + rem)
            <= u32::MAX,
    ensures
        p.run_dots(rem, f).0.hblank_dma_edges == p.hblank_dma_edges + hblank_starts(
            frame_position(p),
            frame_position(p) + rem,
        ),
    decreases rem,
{
    let l0 = frame_position(p);
    if rem > 0 {
        lemma_dot_chunk_position(p, rem, f);
        let (p1, f1, r) = p.dot_chunk(rem, f);
        let take: int = rem - r;
        lemma_hblank_starts_in_line(p.ly as int, p.dot as int, take);
        lemma_hblank_starts_split(l0, l0 + take, l0 + rem);
        let l1 = frame_position(p1);
        if l0 + take == 70224 {
            assert(l1 == 0);
            lemma_hblank_starts_period(0, r as int);
        } else {
            assert(l1 == l0 + take);
        }
        assert(hblank_starts(l1, l1 + r) == hblank_starts(l0 + take, l0 + rem));
        assert(p1.hblank_dma_edges == p.hblank_dma_edges + hblank_starts(l0, l0 + take));
        lemma_run_dots_edges(p1, r, f1);
        assert(p.run_dots(rem, f) == p1.run_dots(r, f1));
    }
}

/// A step with the LCD on counts, for the HBlank DMA, one HBlank start for each visible
/// line (LY 0–143) whose dot 252 the step passes, unless the counter would go past
/// `u32::MAX`; over a whole frame from any position that is 144.
pub proof fn lemma_ppu_step_hblank_edges(p: Ppu, t: u32, f: u8)
    requires
        p.spec_lcd_on(),
        p.dot < 456,
        p.ly < 154,
        p.hblank_dma_edges + hblank_starts(frame_position(p), frame_position(p) + t)
            <= u32::MAX,
    ensures
        p.spec_step(t, f).0.hblank_dma_edges == p.hblank_dma_edges + hblank_starts(
            frame_position(p),
            frame_position(p) + t,
        ),
        t == 70224 ==> hblank_starts(frame_position(p), frame_position(p) + t) == 144,
{
    lemma_run_dots_edges(Ppu { lcd_was_off: false, ..p }, t, f);
    if t == 70224 {
        lemma_hblank_starts_frame(frame_position(p));
    }
}

/// Lines `0..n` hold `min(n, 144)` HBlank starts.
proof fn lemma_hblank_starts_lines(n: int)
    requires
        0 <= n <= 154,
    ensures
        hblank_starts(0, 456 * n) == if n < 144 { n } else { 144 },
    decreases n,
{
    if n > 0 {
        lemma_hblank_starts_lines(n - 1);
        lemma_hblank_starts_split(0, 456 * (n - 1), 456 * n);
        lemma_hblank_starts_in_line(n - 1, 0, 456);
    }
}

/// Any span of one frame holds 144 HBlank starts.
proof fn lemma_hblank_starts_frame(a: int)
    requires
        0 <= a < 70224,
    ensures
        hblank_starts(a, a + 70224) == 144,
{
    lemma_hblank_starts_lines(154);
    lemma_hblank_starts_split(0, a, 70224);
    lemma_hblank_starts_split(a, 70224, a + 70224);
    lemma_hblank_starts_period(0, a);
}

/// Stepping the PPU keeps its dot and line counters on the frame's clock: with the LCD
/// off it holds line 0, dot 0, mode 0 and requests nothing; with it on, the position
/// `LY * 456 + dot` moves forward by the T-cycles given, modulo a frame of 154 lines of
/// 456 dots, and VBlank is requested whenever the span reaches the start of line 144. Only
/// the VBlank and STAT request bits are ever raised, and none is cleared.
pub proof fn lemma_ppu_step_position(p: Ppu, t: u32, f: u8)
    requires
        p.dot < 456,
        p.ly < 154,
    ensures
        ({
            let (q, g) = p.spec_step(t, f);
            &&& !p.spec_lcd_on() ==> q.ly == 0 && q.dot == 0 && q.mode == 0 && g == f
            &&& p.spec_lcd_on() ==> q.dot < 456 && q.ly < 154 && frame_position(q) == (
            frame_position(p) + t) % 70224
            &&& only_raises_lcd_bits(f, g)
            &&& p.spec_lcd_on() && (exists|k: int|
                frame_position(p) < k <= frame_position(p) + t && #[trigger] (k % 70224)
                    == 65664) ==> g & 1 == 1
        }),
{
    lemma_raise_lcd_bit(f);
    if p.spec_lcd_on() {
        lemma_run_dots_position(Ppu { lcd_was_off: false, ..p }, t, f);
    }
}

} // verus!
