//! Scanline renderer: background, window and sprites into the RGBA framebuffer.

use vstd::prelude::*;

use super::Ppu;
use crate::bits::{lemma_byte_pair, lemma_u16_fields, lemma_u8_fields, pow2_u8};

verus! {

/// White, used for a blank line and for a disabled background.
pub open spec fn white() -> [u8; 4] {
    [0xFF, 0xFF, 0xFF, 0xFF]
}

/// The four DMG shades, lightest first.
pub open spec fn dmg_shade_rgba(idx: u8) -> [u8; 4] {
    if idx == 0 {
        [0xE0, 0xF8, 0xD0, 0xFF]
    } else if idx == 1 {
        [0x88, 0xC0, 0x70, 0xFF]
    } else if idx == 2 {
        [0x34, 0x68, 0x56, 0xFF]
    } else {
        [0x08, 0x18, 0x10, 0xFF]
    }
}

/// Colour of index `ci` (0–3) through DMG palette register `pal` (two bits per index).
pub open spec fn dmg_palette_color(pal: u8, ci: u8) -> [u8; 4] {
    let shade = if ci == 0 {
        pal % 4
    } else if ci == 1 {
        (pal / 4) % 4
    } else if ci == 2 {
        (pal / 16) % 4
    } else {
        pal / 64
    };
    dmg_shade_rgba(shade)
}

/// 5-bit channel scaled to 8 bits, rounded.
pub open spec fn scale5(c: int) -> u8 {
    ((c * 255 + 15) / 31) as u8
}

/// RGB555 colour stored little-endian as `lo`, `hi`.
pub open spec fn rgb555_color(lo: u8, hi: u8) -> [u8; 4] {
    let w = lo as int + hi as int * 256;
    [scale5(w % 32), scale5((w / 32) % 32), scale5((w / 1024) % 32), 0xFF]
}

/// Tile data address of row `fy` of tile `tile_id`: `8000` addressing when `unsigned`,
/// otherwise signed ids relative to `9000`, clamped to `8000–9FFF`.
pub open spec fn tile_row_addr(unsigned: bool, tile_id: u8, fy: int) -> u16 {
    if unsigned {
        (0x8000 + tile_id as int * 16 + fy * 2) as u16
    } else {
        let id = if tile_id >= 128 {
            tile_id as int - 256
        } else {
            tile_id as int
        };
        let a = 0x9000 + id * 16 + fy * 2;
        (if a < 0x8000 {
            0x8000
        } else if a > 0x9FFF {
            0x9FFF
        } else {
            a
        }) as u16
    }
}

/// Colour index of bit `n` of a tile row pair.
pub open spec fn color_index(a: u8, b: u8, n: u8) -> u8 {
    ((a >> n) & 1) | (((b >> n) & 1) << 1)
}

/// A layer pixel: colour, colour index, and the CGB BG-over-OBJ attribute.
pub struct LayerPixel {
    pub color: [u8; 4],
    pub index: u8,
    pub priority: bool,
}

impl Ppu {
    pub open spec fn cgb_bg_color(self, pal: u8, ci: u8) -> [u8; 4] {
        let i = (pal % 8) as int * 8 + (ci % 4) as int * 2;
        rgb555_color(self.bg_palette_ram@[i], self.bg_palette_ram@[i + 1])
    }

    pub open spec fn cgb_obj_color(self, pal: u8, ci: u8) -> [u8; 4] {
        let i = (pal % 8) as int * 8 + (ci % 4) as int * 2;
        rgb555_color(self.obj_palette_ram@[i], self.obj_palette_ram@[i + 1])
    }

    /// Pixel `(px, py)` of the 256×256 tile map at VRAM offset `map_base`.
    pub open spec fn tile_map_pixel(self, map_base: int, px: u8, py: u8) -> LayerPixel {
        let map_off = map_base + ((py / 8) % 32) as int * 32 + ((px / 8) % 32) as int;
        let tile_id = self.vram@[map_off];
        let unsigned = self.lcdc & 0x10 != 0;
        let fine_x = px % 8;
        let fine_y = py % 8;
        if self.cgb_mode {
            let attr = self.vram@[0x2000 + map_off];
            let fy = if attr & 0x40 != 0 {
                7 - fine_y
            } else {
                fine_y as int
            };
            let fx = if attr & 0x20 != 0 {
                fine_x
            } else {
                (7 - fine_x) as u8
            };
            let pair = self.spec_row_pair(((attr >> 3) & 1) as int, tile_row_addr(unsigned, tile_id, fy));
            let ci = color_index(pair.0, pair.1, fx);
            LayerPixel { color: self.cgb_bg_color(attr & 0x07, ci), index: ci, priority: attr & 0x80 != 0 }
        } else {
            let pair = self.spec_row_pair(0, tile_row_addr(unsigned, tile_id, fine_y as int));
            let ci = color_index(pair.0, pair.1, (7 - fine_x) as u8);
            LayerPixel { color: dmg_palette_color(self.bgp, ci), index: ci, priority: false }
        }
    }

    pub open spec fn bg_enabled(self) -> bool {
        self.cgb_mode || self.lcdc & 0x01 != 0
    }

    pub open spec fn window_active(self) -> bool {
        self.lcdc & 0x20 != 0 && self.ly >= self.wy && self.bg_enabled()
    }

    /// First screen column covered by the window.
    pub open spec fn window_x0(self) -> int {
        if self.wx >= 7 {
            self.wx - 7
        } else {
            0
        }
    }

    /// Background/window pixel at screen column `x` of the current line.
    pub open spec fn layer_pixel(self, x: int) -> LayerPixel {
        if self.window_active() && x >= self.window_x0() {
            self.tile_map_pixel(
                if self.lcdc & 0x40 != 0 { 0x1C00 } else { 0x1800 },
                (x - self.window_x0()) as u8,
                (self.ly - self.wy) as u8,
            )
        } else if self.bg_enabled() {
            self.tile_map_pixel(
                if self.lcdc & 0x08 != 0 { 0x1C00 } else { 0x1800 },
                ((x + self.scx) % 256) as u8,
                ((self.ly + self.scy) % 256) as u8,
            )
        } else {
            LayerPixel { color: white(), index: 0, priority: false }
        }
    }

    pub open spec fn sprite_height(self) -> u8 {
        if self.lcdc & 0x04 != 0 {
            16
        } else {
            8
        }
    }

    /// Whether the OAM entry at byte offset `i` covers the current line.
    pub open spec fn sprite_on_line(self, i: int) -> bool {
        let sy = self.oam@[i];
        !(self.ly + 16 < sy || self.ly + 16 >= (sy + self.sprite_height()) % 256)
    }

    /// Byte offsets of the sprites drawn on this line: among the first `k` OAM entries, the
    /// first ten (in OAM order) that cover the line.
    pub open spec fn line_sprites(self, k: int) -> Seq<int>
        decreases k,
    {
        if k <= 0 {
            Seq::empty()
        } else {
            let prev = self.line_sprites(k - 1);
            if prev.len() < 10 && self.sprite_on_line(4 * (k - 1)) {
                prev.push(4 * (k - 1))
            } else {
                prev
            }
        }
    }

    /// Left edge of the sprite at byte offset `i` (the X byte minus 8, wrapping within a byte).
    pub open spec fn sprite_left(self, i: int) -> int {
        (self.oam@[i + 1] as int + 248) % 256
    }

    /// Tile row and bank the sprite at offset `i` shows on the current line.
    pub open spec fn sprite_row(self, i: int) -> (u8, u8) {
        let flags = self.oam@[i + 3];
        let h = self.sprite_height();
        let py0 = (self.ly as int + 16 - self.oam@[i] as int) % 256;
        let tile0 = self.oam@[i + 2];
        let tile = if h == 16 {
            if py0 >= 8 {
                (tile0 & 0xFE) + 1
            } else {
                (tile0 & 0xFE) as int
            }
        } else {
            tile0 as int
        };
        let py1 = if h == 16 && py0 >= 8 {
            py0 - 8
        } else {
            py0
        };
        let py = if flags & 0x40 != 0 {
            h - 1 - py1
        } else {
            py1
        };
        let addr = (0x8000 + tile * 16 + py * 2) as u16;
        let bank = if self.cgb_mode {
            ((flags >> 3) & 1) as int
        } else {
            0
        };
        self.spec_row_pair(bank, addr)
    }

    /// Colour index of the sprite at offset `i` at screen column `x` (0 = transparent or
    /// not covered).
    pub open spec fn sprite_index_at(self, i: int, x: int) -> u8 {
        let left = self.sprite_left(i);
        if left <= x < left + 8 && x < 160 {
            let fx = (x - left) as u8;
            let bit = if self.oam@[i + 3] & 0x20 != 0 {
                fx
            } else {
                (7 - fx) as u8
            };
            let pair = self.sprite_row(i);
            color_index(pair.0, pair.1, bit)
        } else {
            0
        }
    }

    /// Whether the sprite at offset `i` shows at column `x` over the layer pixel there.
    pub open spec fn sprite_paints(self, i: int, x: int) -> bool {
        let ci = self.sprite_index_at(i, x);
        let behind = self.oam@[i + 3] & 0x80 != 0;
        let layer = self.layer_pixel(x);
        ci != 0 && if self.cgb_mode {
            !(self.lcdc & 0x01 != 0 && ((behind && layer.index != 0) || (layer.priority
                && layer.index != 0)))
        } else {
            !(behind && layer.index != 0)
        }
    }

    pub open spec fn sprite_color(self, i: int, x: int) -> [u8; 4] {
        let flags = self.oam@[i + 3];
        let ci = self.sprite_index_at(i, x);
        if self.cgb_mode {
            self.cgb_obj_color(flags & 0x07, ci)
        } else {
            dmg_palette_color(if flags & 0x10 != 0 { self.obp1 } else { self.obp0 }, ci)
        }
    }

    /// The first sprite of `list[j..]` that shows at column `x`.
    pub open spec fn first_painter(self, list: Seq<int>, j: int, x: int) -> Option<int>
        decreases list.len() - j,
    {
        if j >= list.len() || j < 0 {
            None
        } else if self.sprite_paints(list[j], x) {
            Some(list[j])
        } else {
            self.first_painter(list, j + 1, x)
        }
    }

    /// Final colour of column `x` on the current line.
    pub open spec fn line_pixel(self, x: int) -> [u8; 4] {
        if !self.cgb_mode && self.lcdc & 0x01 == 0 && self.lcdc & 0x21 == 0 {
            white()
        } else if self.lcdc & 0x02 != 0 {
            match self.first_painter(self.line_sprites(40), 0, x) {
                Some(i) => self.sprite_color(i, x),
                None => self.layer_pixel(x).color,
            }
        } else {
            self.layer_pixel(x).color
        }
    }

    /// Framebuffer after rendering line `ly` (unchanged when `ly` is past the visible lines).
    pub open spec fn rendered_framebuffer(self) -> Seq<u8> {
        let base = self.ly as int * 640;
        if self.ly >= 144 {
            self.framebuffer@
        } else {
            Seq::new(
                92160,
                |i: int|
                    if base <= i < base + 640 {
                        self.line_pixel((i - base) / 4)@[(i - base) % 4]
                    } else {
                        self.framebuffer@[i]
                    },
            )
        }
    }
}


/// A pixel's colour number from its two bit planes is below four.
proof fn lemma_pixel_bits()
    by (bit_vector)
    ensures
        forall|a: u8, b: u8, k: u8| #[trigger] (((a >> k) & 1u8) | (((b >> k) & 1u8) << 1u8)) < 4u8,
{
}

/// The two-bit colour made of bit `k` of a tile row's low plane `lo` (value 1) and of its
/// high plane `hi` (value 2).
pub open spec fn plane_bits(lo: u8, hi: u8, k: int) -> int {
    (lo as int / pow2_u8(k)) % 2 + 2 * ((hi as int / pow2_u8(k)) % 2)
}

/// Bit `k` of a byte read by shifting is its `2^k` digit.
proof fn lemma_plane_bits(a: u8, b: u8, k: u8)
    requires
        k < 8,
    ensures
        color_index(a, b, k) as int == plane_bits(a, b, k as int),
{
    reveal_with_fuel(pow2_u8, 8);
    assert(((a >> k) & 1u8) | (((b >> k) & 1u8) << 1u8) == ((a >> k) & 1u8) + 2 * ((b >> k) & 1u8))
        by (bit_vector);
    lemma_u8_fields();
    assert(a >> 0u8 == a && b >> 0u8 == b) by (bit_vector);
    assert(k == 0 || k == 1 || k == 2 || k == 3 || k == 4 || k == 5 || k == 6 || k == 7);
}

/// CGB colours: the little-endian word `lo`, `hi` holds red in bits 0–4, green in bits
/// 5–9 and blue in bits 10–14, each 5-bit channel scaled so that 0 is 0, 31 is 255 and a
/// larger channel is never darker; alpha is opaque.
pub proof fn lemma_rgb555_channels(lo: u8, hi: u8)
    ensures
        rgb555_color(lo, hi)[0] == scale5((lo % 32) as int),
        rgb555_color(lo, hi)[1] == scale5((lo / 32) as int + (hi % 4) as int * 8),
        rgb555_color(lo, hi)[2] == scale5(((hi / 4) % 32) as int),
        rgb555_color(lo, hi)[3] == 0xFF,
        scale5(0) == 0 && scale5(31) == 255,
        forall|a: int, b: int| 0 <= a < b <= 31 ==> #[trigger] scale5(a) < #[trigger] scale5(b),
{
    let w = lo as int + hi as int * 256;
    assert(w % 32 == lo % 32);
    assert((w / 32) % 32 == (lo / 32) as int + (hi % 4) as int * 8);
    assert((w / 1024) % 32 == (hi / 4) % 32);
    assert forall|a: int, b: int| 0 <= a < b <= 31 implies #[trigger] scale5(a) < #[trigger] scale5(b) by {
        assert((a * 255 + 15) / 31 < (b * 255 + 15) / 31) by (nonlinear_arith)
            requires 0 <= a < b <= 31;
        assert(0 <= (a * 255 + 15) / 31 <= 255 && 0 <= (b * 255 + 15) / 31 <= 255) by (nonlinear_arith)
            requires 0 <= a < b <= 31;
    }
}

/// Sprites for a line: at most ten, in OAM order, each covering the line; and while fewer
/// than ten are taken, every sprite covering the line is taken.
pub proof fn lemma_line_sprites(p: Ppu, k: int)
    requires
        0 <= k <= 40,
    ensures
        p.line_sprites(k).len() <= 10,
        forall|j: int| 0 <= j < p.line_sprites(k).len() ==> {
            let i = #[trigger] p.line_sprites(k)[j];
            &&& 0 <= i < 4 * k && i % 4 == 0
            &&& p.sprite_on_line(i)
        },
        forall|j1: int, j2: int|
            0 <= j1 < j2 < p.line_sprites(k).len() ==> #[trigger] p.line_sprites(k)[j1]
                < #[trigger] p.line_sprites(k)[j2],
        p.line_sprites(k).len() < 10 ==> forall|n: int|
            0 <= n < k && #[trigger] p.sprite_on_line(4 * n) ==> p.line_sprites(k).contains(4 * n),
    decreases k,
{
    if k > 0 {
        lemma_line_sprites(p, k - 1);
        let prev = p.line_sprites(k - 1);
        if prev.len() < 10 && p.sprite_on_line(4 * (k - 1)) {
            assert(p.line_sprites(k) == prev.push(4 * (k - 1)));
            assert forall|n: int| 0 <= n < k && #[trigger] p.sprite_on_line(4 * n) implies p.line_sprites(
                k,
            ).contains(4 * n) by {
                if n < k - 1 {
                    let j = choose|j: int| 0 <= j < prev.len() && prev[j] == 4 * n;
                    assert(p.line_sprites(k)[j] == 4 * n);
                } else {
                    assert(p.line_sprites(k)[prev.len() as int] == 4 * n);
                }
            }
        }
    }
}

/// Tile data addressing: with LCDC bit 4 set, tile `id` row `fy` lies at
/// `0x8000 + 16 id + 2 fy`; with it clear, ids 128–255 address the same tiles
/// (`8800–8FFF`) and ids 0–127 the tiles 0x1000 higher (`9000–97FF`).
pub proof fn lemma_tile_addressing_modes(id: u8, fy: int)
    requires
        0 <= fy < 8,
    ensures
        tile_row_addr(true, id, fy) == 0x8000 + 16 * id + 2 * fy,
        id >= 128 ==> tile_row_addr(false, id, fy) == tile_row_addr(true, id, fy),
        id < 128 ==> tile_row_addr(false, id, fy) == tile_row_addr(true, id, fy) + 0x1000,
{
}

/// DMG palettes: colour index `ci` takes the shade in bits `2ci..2ci+1` of the palette
/// register, and the four shades go from lightest (0) to darkest (3), every channel
/// strictly darker, all opaque.
pub proof fn lemma_dmg_palette(pal: u8, ci: u8)
    requires
        ci < 4,
    ensures
        dmg_palette_color(pal, ci) == dmg_shade_rgba(((pal as int / pow2_u8(2 * ci as int)) % 4) as u8),
        forall|s: u8| s < 3 ==> {
            &&& (#[trigger] dmg_shade_rgba(s))[0] > dmg_shade_rgba((s + 1) as u8)[0]
            &&& dmg_shade_rgba(s)[1] > dmg_shade_rgba((s + 1) as u8)[1]
            &&& dmg_shade_rgba(s)[2] > dmg_shade_rgba((s + 1) as u8)[2]
        },
        forall|s: u8| s < 4 ==> (#[trigger] dmg_shade_rgba(s))[3] == 0xFF,
{
    reveal_with_fuel(pow2_u8, 8);
}

/// Sprite rows are drawn most significant bit first: at a column `x` the sprite covers,
/// its colour index is bit `7 - (x - left)` of the row planes, or bit `x - left` when the
/// sprite's X-flip flag (bit 5) is set.
pub proof fn lemma_sprite_pixel_bit_order(p: Ppu, i: int, x: int)
    requires
        p.sprite_left(i) <= x < p.sprite_left(i) + 8,
        x < 160,
    ensures
        ({
            let c = x - p.sprite_left(i);
            let row = p.sprite_row(i);
            p.sprite_index_at(i, x) as int == plane_bits(
                row.0,
                row.1,
                if p.oam@[i + 3] & 0x20 != 0 { c } else { 7 - c },
            )
        }),
{
    let c = x - p.sprite_left(i);
    let row = p.sprite_row(i);
    if p.oam@[i + 3] & 0x20 != 0 {
        lemma_plane_bits(row.0, row.1, c as u8);
    } else {
        lemma_plane_bits(row.0, row.1, (7 - c) as u8);
    }
}

/// Tile rows are drawn most significant bit first: in DMG mode the colour index of map
/// column `px` is bit `7 - px % 8` of the tile row's two planes; in CGB mode too, unless
/// the tile's X-flip attribute (bit 5) is set, in which case it is bit `px % 8`.
#[verifier::spinoff_prover]
pub proof fn lemma_tile_pixel_bit_order(p: Ppu, map_base: int, px: u8, py: u8)
    ensures
        ({
            let map_off = map_base + ((py / 8) % 32) as int * 32 + ((px / 8) % 32) as int;
            let id = p.vram@[map_off];
            let unsigned = p.lcdc & 0x10 != 0;
            let col = (px % 8) as int;
            &&& !p.cgb_mode ==> {
                let row = p.spec_row_pair(0, tile_row_addr(unsigned, id, (py % 8) as int));
                p.tile_map_pixel(map_base, px, py).index as int == plane_bits(row.0, row.1, 7 - col)
            }
            &&& p.cgb_mode ==> {
                let attr = p.vram@[0x2000 + map_off];
                let fy = if attr & 0x40 != 0 { 7 - (py % 8) as int } else { (py % 8) as int };
                let row = p.spec_row_pair(((attr >> 3) & 1) as int, tile_row_addr(unsigned, id, fy));
                p.tile_map_pixel(map_base, px, py).index as int == plane_bits(
                    row.0,
                    row.1,
                    if attr & 0x20 != 0 { col } else { 7 - col },
                )
            }
        }),
{
    let map_off = map_base + ((py / 8) % 32) as int * 32 + ((px / 8) % 32) as int;
    let id = p.vram@[map_off];
    let unsigned = p.lcdc & 0x10 != 0;
    if !p.cgb_mode {
        let row = p.spec_row_pair(0, tile_row_addr(unsigned, id, (py % 8) as int));
        lemma_plane_bits(row.0, row.1, (7 - px % 8) as u8);
    } else {
        let attr = p.vram@[0x2000 + map_off];
        let fy = if attr & 0x40 != 0 { 7 - (py % 8) as int } else { (py % 8) as int };
        let row = p.spec_row_pair(((attr >> 3) & 1) as int, tile_row_addr(unsigned, id, fy));
        if attr & 0x20 != 0 {
            lemma_plane_bits(row.0, row.1, px % 8);
        } else {
            lemma_plane_bits(row.0, row.1, (7 - px % 8) as u8);
        }
    }
}

/// In DMG mode, with the background on and the window not covering column `x`, the
/// background colour index at screen column `x` is bit `7 - (x + SCX) % 8` of the row
/// planes of the tile under `(x + SCX, LY + SCY)` (modulo 256): the leftmost pixel of a
/// tile is the most significant bit of its row.
pub proof fn lemma_dmg_background_column(p: Ppu, x: int)
    requires
        !p.cgb_mode,
        p.lcdc & 0x01 != 0,
        0 <= x < 160,
        !(p.window_active() && x >= p.window_x0()),
    ensures
        ({
            let bx = (x + p.scx) % 256;
            let by = (p.ly + p.scy) % 256;
            let map_base: int = if p.lcdc & 0x08 != 0 { 0x1C00 } else { 0x1800 };
            let id = p.vram@[map_base + (by / 8) * 32 + bx / 8];
            let row = p.spec_row_pair(0, tile_row_addr(p.lcdc & 0x10 != 0, id, by % 8));
            p.layer_pixel(x).index as int == plane_bits(row.0, row.1, 7 - (x + p.scx) % 8)
        }),
{
    let map_base: int = if p.lcdc & 0x08 != 0 { 0x1C00 } else { 0x1800 };
    let bx = ((x + p.scx) % 256) as u8;
    let by = ((p.ly + p.scy) % 256) as u8;
    lemma_tile_pixel_bit_order(p, map_base, bx, by);
    assert(bx % 8 == (x + p.scx) % 8);
    assert((bx / 8) % 32 == bx / 8);
    assert((by / 8) % 32 == by / 8);
}

impl Ppu {
    fn dmg_palette(&self, pal: u8, color_index: u8) -> (r: [u8; 4])
        requires
            color_index < 4,
        ensures
            r == dmg_palette_color(pal, color_index),
    {
        let idx = match color_index {
            0 => pal & 0x03,
            1 => (pal >> 2) & 0x03,
            2 => (pal >> 4) & 0x03,
            _ => pal >> 6,
        };
        assert(idx == if color_index == 0 {
            pal % 4
        } else if color_index == 1 {
            (pal / 4) % 4
        } else if color_index == 2 {
            (pal / 16) % 4
        } else {
            pal / 64
        }) by {
            lemma_u8_fields();
        }
        match idx {
            0 => [0xE0, 0xF8, 0xD0, 0xFF],
            1 => [0x88, 0xC0, 0x70, 0xFF],
            2 => [0x34, 0x68, 0x56, 0xFF],
            _ => [0x08, 0x18, 0x10, 0xFF],
        }
    }

    fn rgb555(lo: u8, hi: u8) -> (r: [u8; 4])
        ensures
            r == rgb555_color(lo, hi),
    {
        let w = ((hi as u16) << 8u16) | (lo as u16);
        assert(((hi as u16) << 8u16) | (lo as u16) == lo as int + hi as int * 256) by {
            lemma_byte_pair();
        }
        assert(w & 0x1Fu16 == w % 32 && (w >> 5u16) & 0x1Fu16 == (w / 32) % 32 && (w >> 10u16)
            & 0x1Fu16 == (w / 1024) % 32) by {
            lemma_u16_fields();
        }
        let r = (w & 0x1F) as u32;
        let g = ((w >> 5) & 0x1F) as u32;
        let b = ((w >> 10) & 0x1F) as u32;
        [((r * 255 + 15) / 31) as u8, ((g * 255 + 15) / 31) as u8, ((b * 255 + 15) / 31) as u8, 0xFF]
    }

    fn cgb_bg_px(&self, pal: u8, ci: u8) -> (r: [u8; 4])
        ensures
            r == self.cgb_bg_color(pal, ci),
    {
        assert(pal & 7u8 == pal % 8 && ci & 3u8 == ci % 4) by {
            lemma_u8_fields();
        }
        let i = (pal as usize & 7) * 8 + (ci as usize & 3) * 2;
        Self::rgb555(self.bg_palette_ram[i], self.bg_palette_ram[i + 1])
    }

    fn cgb_obj_px(&self, pal: u8, ci: u8) -> (r: [u8; 4])
        ensures
            r == self.cgb_obj_color(pal, ci),
    {
        assert(pal & 7u8 == pal % 8 && ci & 3u8 == ci % 4) by {
            lemma_u8_fields();
        }
        let i = (pal as usize & 7) * 8 + (ci as usize & 3) * 2;
        Self::rgb555(self.obj_palette_ram[i], self.obj_palette_ram[i + 1])
    }

    fn tile_row_address(unsigned: bool, tile_id: u8, fy: u8) -> (r: u16)
        requires
            fy < 8,
        ensures
            r == tile_row_addr(unsigned, tile_id, fy as int),
    {
        if unsigned {
            0x8000u16 + (tile_id as u16 * 16 + fy as u16 * 2)
        } else {
            let id: i32 = if tile_id >= 128 {
                tile_id as i32 - 256
            } else {
                tile_id as i32
            };
            let a: i32 = 0x9000 + id * 16 + fy as i32 * 2;
            let c: i32 = if a < 0x8000 {
                0x8000
            } else if a > 0x9FFF {
                0x9FFF
            } else {
                a
            };
            c as u16
        }
    }

    /// Pixel `(px, py)` of the tile map at VRAM offset `map_base`.
    fn tile_map_pixel_at(&self, map_base: usize, px: u8, py: u8) -> (r: ([u8; 4], u8, bool))
        requires
            map_base == 0x1800 || map_base == 0x1C00,
        ensures
            r.0 == self.tile_map_pixel(map_base as int, px, py).color,
            r.1 == self.tile_map_pixel(map_base as int, px, py).index,
            r.2 == self.tile_map_pixel(map_base as int, px, py).priority,
            r.1 < 4,
    {
        let tile_x = (px as usize / 8) % 32;
        let tile_y = (py as usize / 8) % 32;
        let fine_x = px % 8;
        let fine_y = py % 8;
        let map_off = map_base + tile_y * 32 + tile_x;
        let tile_id = self.vram[map_off];
        let unsigned = (self.lcdc & 0x10) != 0;
        if self.cgb_mode {
            let attr = self.vram[0x2000 + map_off];
            let tile_bank = (attr >> 3) & 1;
            let fy = if (attr & 0x40) != 0 {
                7 - fine_y
            } else {
                fine_y
            };
            let fx = if (attr & 0x20) != 0 {
                fine_x
            } else {
                7 - fine_x
            };
            let tile_addr = Self::tile_row_address(unsigned, tile_id, fy);
            let (a, b) = self.vram_tile_row_pair(tile_bank as usize, tile_addr);
            let c0 = ((a >> fx) & 1) | (((b >> fx) & 1) << 1);
            assert(((a >> fx) & 1u8) | (((b >> fx) & 1u8) << 1u8) < 4u8) by { lemma_pixel_bits(); }
            (self.cgb_bg_px(attr & 0x07, c0), c0, (attr & 0x80) != 0)
        } else {
            let tile_addr = Self::tile_row_address(unsigned, tile_id, fine_y);
            let (a, b) = self.vram_tile_row_pair(0, tile_addr);
            let bit = 7 - fine_x;
            let c0 = ((a >> bit) & 1) | (((b >> bit) & 1) << 1);
            assert(((a >> bit) & 1u8) | (((b >> bit) & 1u8) << 1u8) < 4u8) by { lemma_pixel_bits(); }
            (self.dmg_palette(self.bgp, c0), c0, false)
        }
    }

    /// Background/window pixel at column `x` of the current line.
    fn layer_pixel_at(&self, x: usize) -> (r: ([u8; 4], u8, bool))
        requires
            x < 160,
        ensures
            r.0 == self.layer_pixel(x as int).color,
            r.1 == self.layer_pixel(x as int).index,
            r.2 == self.layer_pixel(x as int).priority,
            r.1 < 4,
    {
        let bg_enabled = self.cgb_mode || (self.lcdc & 0x01) != 0;
        let window_active = (self.lcdc & 0x20) != 0 && self.ly >= self.wy && bg_enabled;
        let wx0: usize = if self.wx >= 7 { (self.wx - 7) as usize } else { 0 };
        if window_active && x >= wx0 {
            let map_base: usize = if (self.lcdc & 0x40) != 0 { 0x1C00 } else { 0x1800 };
            self.tile_map_pixel_at(map_base, (x - wx0) as u8, self.ly - self.wy)
        } else if bg_enabled {
            let map_base: usize = if (self.lcdc & 0x08) != 0 { 0x1C00 } else { 0x1800 };
            let px = (x as u8).wrapping_add(self.scx);
            let py = self.ly.wrapping_add(self.scy);
            assert(px == (x + self.scx) % 256);
            assert(py == (self.ly + self.scy) % 256);
            self.tile_map_pixel_at(map_base, px, py)
        } else {
            ([0xFF, 0xFF, 0xFF, 0xFF], 0, false)
        }
    }

    /// Tile row pair shown by the sprite at OAM offset `i` on the current line.
    fn sprite_row_pair(&self, i: usize) -> (r: (u8, u8))
        requires
            i + 3 < 0xA0,
            self.ly < 144,
            self.sprite_on_line(i as int),
        ensures
            r == self.sprite_row(i as int),
    {
        let h: u8 = if (self.lcdc & 0x04) != 0 { 16 } else { 8 };
        let y = self.oam[i];
        let tile = self.oam[i + 2];
        let flags = self.oam[i + 3];
        let y_flip = (flags & 0x40) != 0;
        let mut tile_id = tile;
        let mut py = self.ly.wrapping_add(16).wrapping_sub(y);
        assert(py == (self.ly as int + 16 - y as int) % 256);
        assert(py < h);
        if h == 16 {
            tile_id = tile_id & 0xFE;
            assert(tile & 0xFEu8 < 255u8) by { lemma_u8_fields(); }
            if py >= 8 {
                tile_id = tile_id.wrapping_add(1);
                py = py - 8;
            }
        }
        if y_flip {
            py = h - 1 - py;
        }
        let tile_addr = 0x8000u16 + (tile_id as u16 * 16 + py as u16 * 2);
        let bank: usize = if self.cgb_mode { ((flags >> 3) & 1) as usize } else { 0 };
        self.vram_tile_row_pair(bank, tile_addr)
    }
}

impl Ppu {
    /// Renders line `ly` into the framebuffer (does nothing past the visible lines).
    pub(crate) fn render_scanline(&mut self)
        ensures
            final(self).framebuffer@ == old(self).rendered_framebuffer(),
            *final(self) == (Ppu { framebuffer: final(self).framebuffer, ..*old(self) }),
    {
        let y = self.ly as usize;
        if y >= 144 {
            return;
        }
        let ghost old_fb = self.framebuffer@;
        let ghost snap = *self;
        let mut line_bg: [[u8; 4]; 160] = [[0xFF; 4]; 160];
        let blank = !self.cgb_mode && (self.lcdc & 0x01) == 0 && (self.lcdc & 0x21) == 0;
        if !blank {
            let mut line_bg_idx: [u8; 160] = [0; 160];
            let mut line_bg_prio: [bool; 160] = [false; 160];
            let mut x: usize = 0;
            while x < 160
                invariant
                    x <= 160,
                    *self == snap,
                    forall|k: int| 0 <= k < x ==> line_bg@[k] == self.layer_pixel(k).color,
                    forall|k: int| 0 <= k < x ==> line_bg_idx@[k] == self.layer_pixel(k).index,
                    forall|k: int| 0 <= k < x ==> line_bg_prio@[k] == self.layer_pixel(k).priority,
                decreases 160 - x,
            {
                let (c, i, p) = self.layer_pixel_at(x);
                line_bg[x] = c;
                line_bg_idx[x] = i;
                line_bg_prio[x] = p;
                x = x + 1;
            }
            if (self.lcdc & 0x02) != 0 {
                let h: u8 = if (self.lcdc & 0x04) != 0 { 16 } else { 8 };
                let mut sprites: Vec<usize> = Vec::new();
                let mut k: usize = 0;
                while k < 40 && sprites.len() < 10
                    invariant
                        k <= 40,
                        *self == snap,
                        y < 144,
                        y == self.ly,
                        h == self.sprite_height(),
                        sprites@.len() == self.line_sprites(k as int).len(),
                        forall|j: int| 0 <= j < sprites@.len() ==> sprites@[j] as int == #[trigger] self.line_sprites(k as int)[j],
                    decreases 40 - k,
                {
                    let i = k * 4;
                    let sy = self.oam[i];
                    let ly = self.ly;
                    let visible = !(ly + 16 < sy || ly + 16 >= sy.wrapping_add(h));
                    assert(visible == self.sprite_on_line(i as int));
                    if visible {
                        sprites.push(i);
                    }
                    k = k + 1;
                }
                proof {
                    lemma_line_sprites_saturate(snap, k as int);
                    lemma_line_sprites_facts(snap, 40);
                }
                let n = sprites.len();
                let mut j: usize = n;
                while j > 0
                    invariant
                        j <= n,
                        n == sprites@.len(),
                        n <= 10,
                        *self == snap,
                        y < 144,
                        y == self.ly,
                        self.lcdc & 0x02 != 0,
                        forall|q: int| 0 <= q < n ==> sprites@[q] as int == #[trigger] self.line_sprites(40)[q],
                        self.line_sprites(40).len() == n,
                        forall|q: int| 0 <= q < n ==> {
                            let o = #[trigger] self.line_sprites(40)[q];
                            0 <= o && o + 3 < 0xA0 && o % 4 == 0 && self.sprite_on_line(o)
                        },
                        forall|k: int| 0 <= k < 160 ==> line_bg_idx@[k] == self.layer_pixel(k).index,
                        forall|k: int| 0 <= k < 160 ==> line_bg_prio@[k] == self.layer_pixel(k).priority,
                        forall|x: int|
                            0 <= x < 160 ==> line_bg@[x] == match self.first_painter(
                                self.line_sprites(40),
                                j as int,
                                x,
                            ) {
                                Some(i) => self.sprite_color(i, x),
                                None => self.layer_pixel(x).color,
                            },
                    decreases j,
                {
                    j = j - 1;
                    let i = sprites[j];
                    assert(i as int == self.line_sprites(40)[j as int]);
                    let ghost before = line_bg@;
                    let flags = self.oam[i + 3];
                    let x_flip = (flags & 0x20) != 0;
                    let priority = (flags & 0x80) != 0;
                    let left: usize = (self.oam[i + 1].wrapping_sub(8)) as usize;
                    assert(left == self.sprite_left(i as int));
                    let (a, b) = self.sprite_row_pair(i);
                    let mut fx: u8 = 0;
                    while fx < 8
                        invariant
                            fx <= 8,
                            *self == snap,
                            i + 3 < 0xA0,
                            left == self.sprite_left(i as int),
                            (a, b) == self.sprite_row(i as int),
                            x_flip == (self.oam@[i + 3] & 0x20 != 0),
                            priority == (self.oam@[i + 3] & 0x80 != 0),
                            flags == self.oam@[i + 3],
                            forall|k: int| 0 <= k < 160 ==> line_bg_idx@[k] == self.layer_pixel(k).index,
                            forall|k: int| 0 <= k < 160 ==> line_bg_prio@[k] == self.layer_pixel(k).priority,
                            forall|x: int|
                                0 <= x < 160 ==> line_bg@[x] == if left <= x < left + fx
                                    && self.sprite_paints(i as int, x) {
                                    self.sprite_color(i as int, x)
                                } else {
                                    before[x]
                                },
                        decreases 8 - fx,
                    {
                        let sx = left + fx as usize;
                        if sx < 160 {
                            let bit = if x_flip { fx } else { 7 - fx };
                            let c0 = ((a >> bit) & 1) | (((b >> bit) & 1) << 1);
                            assert(((a >> bit) & 1u8) | (((b >> bit) & 1u8) << 1u8) < 4u8) by { lemma_pixel_bits(); }
                            assert(c0 == self.sprite_index_at(i as int, sx as int));
                            let bg_ci = line_bg_idx[sx];
                            let hidden = if self.cgb_mode {
                                (self.lcdc & 0x01) != 0 && ((priority && bg_ci != 0) || (line_bg_prio[sx]
                                    && bg_ci != 0))
                            } else {
                                priority && bg_ci != 0
                            };
                            if c0 != 0 && !hidden {
                                let color = if self.cgb_mode {
                                    self.cgb_obj_px(flags & 0x07, c0)
                                } else {
                                    let p = if (flags & 0x10) != 0 { self.obp1 } else { self.obp0 };
                                    self.dmg_palette(p, c0)
                                };
                                line_bg[sx] = color;
                            }
                        }
                        fx = fx + 1;
                    }
                    assert forall|x: int| 0 <= x < 160 implies line_bg@[x] == match self.first_painter(
                        self.line_sprites(40),
                        j as int,
                        x,
                    ) {
                        Some(i) => self.sprite_color(i, x),
                        None => self.layer_pixel(x).color,
                    } by {
                        if !(left <= x < left + 8) {
                            assert(self.sprite_index_at(i as int, x) == 0);
                        }
                    }
                }
            }
        }
        assert forall|x: int| 0 <= x < 160 implies line_bg@[x] == self.line_pixel(x) by {}
        let mut x: usize = 0;
        while x < 160
            invariant
                x <= 160,
                y < 144,
                y == snap.ly,
                *self == (Ppu { framebuffer: self.framebuffer, ..snap }),
                old_fb == snap.framebuffer@,
                forall|k: int| 0 <= k < 160 ==> line_bg@[k] == snap.line_pixel(k),
                forall|i: int|
                    0 <= i < 92160 ==> self.framebuffer@[i] == if y * 640 <= i < y * 640 + 4 * x {
                        snap.line_pixel((i - y * 640) / 4)@[(i - y * 640) % 4]
                    } else {
                        old_fb[i]
                    },
            decreases 160 - x,
        {
            let idx = (y * 160 + x) * 4;
            let px = line_bg[x];
            self.framebuffer[idx] = px[0];
            self.framebuffer[idx + 1] = px[1];
            self.framebuffer[idx + 2] = px[2];
            self.framebuffer[idx + 3] = px[3];
            x = x + 1;
        }
        assert(self.framebuffer@ =~= snap.rendered_framebuffer());
    }
}

/// Once ten sprites are selected, later entries are not.
proof fn lemma_line_sprites_saturate(p: Ppu, k: int)
    requires
        0 <= k <= 40,
        k == 40 || p.line_sprites(k).len() >= 10,
    ensures
        p.line_sprites(40) == p.line_sprites(k),
    decreases 40 - k,
{
    lemma_line_sprites_facts(p, k);
    if k < 40 {
        assert(p.line_sprites(k + 1) == p.line_sprites(k));
        lemma_line_sprites_saturate(p, k + 1);
    }
}

/// Selected sprites are at most ten, in range, and cover the line.
proof fn lemma_line_sprites_facts(p: Ppu, k: int)
    requires
        0 <= k <= 40,
    ensures
        p.line_sprites(k).len() <= 10,
        p.line_sprites(k).len() <= k,
        forall|q: int| 0 <= q < p.line_sprites(k).len() ==> {
            let o = #[trigger] p.line_sprites(k)[q];
            0 <= o && o + 3 < 4 * k && o % 4 == 0 && p.sprite_on_line(o)
        },
    decreases k,
{
    if k > 0 {
        lemma_line_sprites_facts(p, k - 1);
    }
}

} // verus!
