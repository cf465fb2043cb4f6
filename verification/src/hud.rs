//! The HUD strip drawn under the 160×144 game picture in an RGBA frame: a status line,
//! a rotating hint and chips for the hot keys, fast forward and autosave.

use vstd::prelude::*;

use crate::bits::lemma_u8_fields;
use crate::ppu::LCD_HEIGHT;
use crate::text::{chars_of, is_white_space, is_ws, string_from_chars};

verus! {

pub const SHELL_BG: [u8; 4] = [18, 18, 20, 245];
pub const SHELL_SURFACE: [u8; 4] = [44, 42, 57, 255];
pub const SHELL_BORDER: [u8; 4] = [84, 79, 96, 255];
pub const SHELL_FG: [u8; 4] = [243, 242, 247, 255];
pub const SHELL_MUTED: [u8; 4] = [162, 155, 178, 255];
pub const SHELL_SHADOW: [u8; 4] = [12, 10, 14, 255];
pub const SUCCESS_BG: [u8; 4] = [42, 74, 54, 255];
pub const SUCCESS_BORDER: [u8; 4] = [84, 160, 104, 255];
pub const WARNING_BG: [u8; 4] = [74, 58, 30, 255];
pub const WARNING_BORDER: [u8; 4] = [168, 130, 70, 255];
pub const FF_ACTIVE_BG: [u8; 4] = [200, 55, 115, 255];
pub const FF_ACTIVE_FG: [u8; 4] = [255, 245, 248, 255];
pub const CLEAR_BG: [u8; 4] = [18, 18, 20, 255];

/// The HUD is drawn at most this wide.
pub const HUD_MAX_W: usize = 320;

pub const HUD_STRIP_HEIGHT: u32 = 52;

/// Height of the frame: the game picture and the HUD strip.
pub fn framebuffer_height() -> (r: u32)
    ensures
        r == LCD_HEIGHT + HUD_STRIP_HEIGHT,
{
    LCD_HEIGHT as u32 + HUD_STRIP_HEIGHT
}

/// Pixel `p` of a frame `width` wide lies in columns `x0..x1` and rows `y0..y1`.
pub open spec fn in_box(width: int, p: int, x0: int, y0: int, x1: int, y1: int) -> bool {
    x0 <= p % width < x1 && y0 <= p / width < y1
}

pub open spec fn min_int(a: int, b: int) -> int {
    if a < b {
        a
    } else {
        b
    }
}

/// `frame` with the rectangle at `(x, y)` of size `w × h`, clipped to `width × height`,
/// painted `color`.
pub open spec fn rect_filled(
    frame: Seq<u8>,
    width: int,
    height: int,
    x: int,
    y: int,
    w: int,
    h: int,
    color: [u8; 4],
) -> Seq<u8> {
    Seq::new(
        frame.len(),
        |i: int|
            if width > 0 && in_box(width, i / 4, x, y, min_int(x + w, width), min_int(y + h, height)) {
                color@[i % 4]
            } else {
                frame[i]
            },
    )
}

/// Byte offset of pixel `(px, py)` and its column and row again.
pub proof fn lemma_pixel_index(px: int, py: int, w: int, h: int, len: int)
    requires
        0 <= px < w,
        0 <= py < h,
        w * h * 4 <= len,
    ensures
        0 <= py * w + px,
        (py * w + px) * 4 + 3 < len,
        (py * w + px) % w == px,
        (py * w + px) / w == py,
{
    assert(py * w + px < h * w) by (nonlinear_arith)
        requires
            0 <= px < w,
            0 <= py < h,
    ;
    assert(0 <= py * w) by (nonlinear_arith)
        requires
            0 <= py,
            0 <= w,
    ;
    assert(h * w == w * h) by (nonlinear_arith);
    vstd::arithmetic::div_mod::lemma_fundamental_div_mod_converse(py * w + px, w, py, px);
}

/// Byte `i` lies in pixel `p`, channel `c`.
proof fn lemma_byte_of_pixel(i: int, p: int, c: int)
    requires
        0 <= c < 4,
        i == p * 4 + c,
    ensures
        i / 4 == p,
        i % 4 == c,
{
    vstd::arithmetic::div_mod::lemma_fundamental_div_mod_converse(i, 4, p, c);
}

/// Sets the four bytes of pixel `p` to `color`.
fn paint_pixel(frame: &mut [u8], p: usize, color: [u8; 4])
    requires
        p * 4 + 3 < old(frame)@.len(),
    ensures
        final(frame)@.len() == old(frame)@.len(),
        forall|i: int|
            0 <= i < old(frame)@.len() ==> #[trigger] final(frame)@[i] == if i / 4 == p {
                color@[i % 4]
            } else {
                old(frame)@[i]
            },
{
    let i = p * 4;
    frame[i] = color[0];
    frame[i + 1] = color[1];
    frame[i + 2] = color[2];
    frame[i + 3] = color[3];
    proof {
        assert forall|k: int| 0 <= k < old(frame)@.len() implies frame@[k] == if k / 4 == p {
            color@[k % 4]
        } else {
            old(frame)@[k]
        } by {
            if i <= k < i + 4 {
                lemma_byte_of_pixel(k, p as int, k - i);
            }
        }
    }
}

/// Paints the rectangle at `(x, y)` of size `w × h`, clipped to the frame.
pub fn fill_rect(
    frame: &mut [u8],
    width: usize,
    height: usize,
    x: usize,
    y: usize,
    w: usize,
    h: usize,
    color: [u8; 4],
)
    requires
        width * height * 4 <= old(frame)@.len(),
        x + w <= usize::MAX,
        y + h <= usize::MAX,
    ensures
        final(frame)@ == rect_filled(old(frame)@, width as int, height as int, x as int, y as int, w as int, h as int, color),
{
    let ghost len = old(frame)@.len() as int;
    let flen = frame.len();
    assert(flen == len);
    let x2 = if x + w < width {
        x + w
    } else {
        width
    };
    let y2 = if y + h < height {
        y + h
    } else {
        height
    };
    let mut py = y;
    while py < y2
        invariant
            frame@.len() == len,
            len <= usize::MAX,
            width * height * 4 <= len,
            x2 == min_int(x + w, width as int),
            y2 == min_int(y + h, height as int),
            y <= py,
            py <= y2 || py == y,
            forall|i: int|
                0 <= i < len ==> #[trigger] frame@[i] == if width > 0 && in_box(width as int, i / 4, x as int, y as int, x2 as int, py as int) {
                    color@[i % 4]
                } else {
                    old(frame)@[i]
                },
        decreases y2 - py,
    {
        let mut px = x;
        while px < x2
            invariant
                frame@.len() == len,
                len <= usize::MAX,
                width * height * 4 <= len,
                x2 == min_int(x + w, width as int),
                y2 == min_int(y + h, height as int),
                y <= py < y2,
                x <= px,
                px <= x2 || px == x,
                forall|i: int|
                    0 <= i < len ==> #[trigger] frame@[i] == if width > 0 && (in_box(width as int, i / 4, x as int, y as int, x2 as int, py as int)
                        || in_box(width as int, i / 4, x as int, py as int, px as int, py + 1)) {
                        color@[i % 4]
                    } else {
                        old(frame)@[i]
                    },
            decreases x2 - px,
        {
            proof {
                lemma_pixel_index(px as int, py as int, width as int, height as int, len);
            }
            let p = py * width + px;
            let ghost before = frame@;
            paint_pixel(frame, p, color);
            proof {
                assert forall|i: int| 0 <= i < len implies #[trigger] frame@[i] == if width > 0 && (in_box(width as int, i / 4, x as int, y as int, x2 as int, py as int)
                    || in_box(width as int, i / 4, x as int, py as int, px + 1, py + 1)) {
                    color@[i % 4]
                } else {
                    old(frame)@[i]
                } by {
                    let q = i / 4;
                    vstd::arithmetic::div_mod::lemma_fundamental_div_mod(q, width as int);
                    assert(q == (width as int) * (q / (width as int)) + q % (width as int));
                    if q % (width as int) == px && q / (width as int) == py {
                        assert((width as int) * (py as int) == (py as int) * (width as int)) by (nonlinear_arith);
                        assert(q == p);
                    }
                }
            }
            px = px + 1;
        }
        py = py + 1;
    }
    assert(frame@ =~= rect_filled(old(frame)@, width as int, height as int, x as int, y as int, w as int, h as int, color));
}

/// The 3×5 glyph of `ch` as five rows of three bits (bit 2 is the left column). Lower-case
/// ASCII letters use the upper-case glyph, middle dot and bullet a centred dot; anything
/// else is blank.
pub open spec fn glyph_rows_spec(ch: char) -> [u8; 5] {
    let c = if 'a' <= ch <= 'z' {
        ((ch as u32) - 32) as char
    } else {
        ch
    };
    if c == '\u{b7}' || c == '\u{2022}' {
        [0b000, 0b000, 0b010, 0b000, 0b000]
    } else if c == 'A' {
        [0b010, 0b101, 0b111, 0b101, 0b101]
    } else if c == 'B' {
        [0b110, 0b101, 0b110, 0b101, 0b110]
    } else if c == 'C' {
        [0b011, 0b100, 0b100, 0b100, 0b011]
    } else if c == 'D' {
        [0b110, 0b101, 0b101, 0b101, 0b110]
    } else if c == 'E' {
        [0b111, 0b100, 0b110, 0b100, 0b111]
    } else if c == 'F' {
        [0b111, 0b100, 0b110, 0b100, 0b100]
    } else if c == 'G' {
        [0b011, 0b100, 0b101, 0b101, 0b011]
    } else if c == 'H' {
        [0b101, 0b101, 0b111, 0b101, 0b101]
    } else if c == 'I' {
        [0b111, 0b010, 0b010, 0b010, 0b111]
    } else if c == 'J' {
        [0b011, 0b001, 0b001, 0b101, 0b011]
    } else if c == 'K' {
        [0b101, 0b101, 0b110, 0b101, 0b101]
    } else if c == 'L' {
        [0b100, 0b100, 0b100, 0b100, 0b111]
    } else if c == 'M' {
        [0b101, 0b111, 0b111, 0b101, 0b101]
    } else if c == 'N' {
        [0b101, 0b111, 0b111, 0b111, 0b101]
    } else if c == 'O' {
        [0b111, 0b101, 0b101, 0b101, 0b111]
    } else if c == 'P' {
        [0b110, 0b101, 0b110, 0b100, 0b100]
    } else if c == 'Q' {
        [0b111, 0b101, 0b101, 0b111, 0b001]
    } else if c == 'R' {
        [0b110, 0b101, 0b110, 0b101, 0b101]
    } else if c == 'S' {
        [0b011, 0b100, 0b010, 0b001, 0b110]
    } else if c == 'T' {
        [0b111, 0b010, 0b010, 0b010, 0b010]
    } else if c == 'U' {
        [0b101, 0b101, 0b101, 0b101, 0b111]
    } else if c == 'V' {
        [0b101, 0b101, 0b101, 0b101, 0b010]
    } else if c == 'W' {
        [0b101, 0b101, 0b111, 0b111, 0b101]
    } else if c == 'X' {
        [0b101, 0b101, 0b010, 0b101, 0b101]
    } else if c == 'Y' {
        [0b101, 0b101, 0b010, 0b010, 0b010]
    } else if c == 'Z' {
        [0b111, 0b001, 0b010, 0b100, 0b111]
    } else if c == '0' {
        [0b111, 0b101, 0b101, 0b101, 0b111]
    } else if c == '1' {
        [0b010, 0b110, 0b010, 0b010, 0b111]
    } else if c == '2' {
        [0b110, 0b001, 0b111, 0b100, 0b111]
    } else if c == '3' {
        [0b111, 0b001, 0b011, 0b001, 0b111]
    } else if c == '4' {
        [0b101, 0b101, 0b111, 0b001, 0b001]
    } else if c == '5' {
        [0b111, 0b100, 0b111, 0b001, 0b111]
    } else if c == '6' {
        [0b011, 0b100, 0b111, 0b101, 0b111]
    } else if c == '7' {
        [0b111, 0b001, 0b010, 0b010, 0b010]
    } else if c == '8' {
        [0b111, 0b101, 0b111, 0b101, 0b111]
    } else if c == '9' {
        [0b111, 0b101, 0b111, 0b001, 0b110]
    } else if c == ':' {
        [0b000, 0b010, 0b000, 0b010, 0b000]
    } else if c == '.' {
        [0b000, 0b000, 0b000, 0b000, 0b010]
    } else if c == ',' {
        [0b000, 0b000, 0b000, 0b010, 0b010]
    } else if c == '-' {
        [0b000, 0b000, 0b111, 0b000, 0b000]
    } else if c == '|' {
        [0b010, 0b010, 0b010, 0b010, 0b010]
    } else if c == '/' {
        [0b001, 0b001, 0b010, 0b100, 0b100]
    } else {
        [0b000, 0b000, 0b000, 0b000, 0b000]
    }
}

pub fn glyph_rows(ch: char) -> (r: [u8; 5])
    ensures
        r == glyph_rows_spec(ch),
{
    let c = if 'a' <= ch && ch <= 'z' {
        ((ch as u8) - 32) as char
    } else {
        ch
    };
    if c == '\u{b7}' || c == '\u{2022}' {
        return [0b000, 0b000, 0b010, 0b000, 0b000];
    }
    match c {
        'A' => [0b010, 0b101, 0b111, 0b101, 0b101],
        'B' => [0b110, 0b101, 0b110, 0b101, 0b110],
        'C' => [0b011, 0b100, 0b100, 0b100, 0b011],
        'D' => [0b110, 0b101, 0b101, 0b101, 0b110],
        'E' => [0b111, 0b100, 0b110, 0b100, 0b111],
        'F' => [0b111, 0b100, 0b110, 0b100, 0b100],
        'G' => [0b011, 0b100, 0b101, 0b101, 0b011],
        'H' => [0b101, 0b101, 0b111, 0b101, 0b101],
        'I' => [0b111, 0b010, 0b010, 0b010, 0b111],
        'J' => [0b011, 0b001, 0b001, 0b101, 0b011],
        'K' => [0b101, 0b101, 0b110, 0b101, 0b101],
        'L' => [0b100, 0b100, 0b100, 0b100, 0b111],
        'M' => [0b101, 0b111, 0b111, 0b101, 0b101],
        'N' => [0b101, 0b111, 0b111, 0b111, 0b101],
        'O' => [0b111, 0b101, 0b101, 0b101, 0b111],
        'P' => [0b110, 0b101, 0b110, 0b100, 0b100],
        'Q' => [0b111, 0b101, 0b101, 0b111, 0b001],
        'R' => [0b110, 0b101, 0b110, 0b101, 0b101],
        'S' => [0b011, 0b100, 0b010, 0b001, 0b110],
        'T' => [0b111, 0b010, 0b010, 0b010, 0b010],
        'U' => [0b101, 0b101, 0b101, 0b101, 0b111],
        'V' => [0b101, 0b101, 0b101, 0b101, 0b010],
        'W' => [0b101, 0b101, 0b111, 0b111, 0b101],
        'X' => [0b101, 0b101, 0b010, 0b101, 0b101],
        'Y' => [0b101, 0b101, 0b010, 0b010, 0b010],
        'Z' => [0b111, 0b001, 0b010, 0b100, 0b111],
        '0' => [0b111, 0b101, 0b101, 0b101, 0b111],
        '1' => [0b010, 0b110, 0b010, 0b010, 0b111],
        '2' => [0b110, 0b001, 0b111, 0b100, 0b111],
        '3' => [0b111, 0b001, 0b011, 0b001, 0b111],
        '4' => [0b101, 0b101, 0b111, 0b001, 0b001],
        '5' => [0b111, 0b100, 0b111, 0b001, 0b111],
        '6' => [0b011, 0b100, 0b111, 0b101, 0b111],
        '7' => [0b111, 0b001, 0b010, 0b010, 0b010],
        '8' => [0b111, 0b101, 0b111, 0b101, 0b111],
        '9' => [0b111, 0b101, 0b111, 0b001, 0b110],
        ':' => [0b000, 0b010, 0b000, 0b010, 0b000],
        '.' => [0b000, 0b000, 0b000, 0b000, 0b010],
        ',' => [0b000, 0b000, 0b000, 0b010, 0b010],
        '-' => [0b000, 0b000, 0b111, 0b000, 0b000],
        '|' => [0b010, 0b010, 0b010, 0b010, 0b010],
        '/' => [0b001, 0b001, 0b010, 0b100, 0b100],
        _ => [0b000, 0b000, 0b000, 0b000, 0b000],
    }
}

/// Whether column `col` of row `row` of the glyph of `ch` is set.
pub open spec fn glyph_bit(ch: char, row: int, col: int) -> bool {
    0 <= row < 5 && 0 <= col < 3 && (glyph_rows_spec(ch)[row] >> ((2 - col) as u8)) % 2 == 1
}

/// Whether the glyph of `ch` drawn at `(x, y)` at `scale` covers pixel `(px, py)`: each glyph
/// cell is a `scale × scale` square.
pub open spec fn glyph_covers(ch: char, x: int, y: int, scale: int, px: int, py: int) -> bool {
    scale > 0 && px >= x && py >= y && glyph_bit(ch, (py - y) / scale, (px - x) / scale)
}

/// `frame` with the glyph of `ch` drawn at `(x, y)` at `scale` in `color`, clipped to
/// `width × height`.
pub open spec fn glyph_drawn(
    frame: Seq<u8>,
    width: int,
    height: int,
    x: int,
    y: int,
    ch: char,
    color: [u8; 4],
    scale: int,
) -> Seq<u8> {
    Seq::new(
        frame.len(),
        |i: int|
            if width > 0 && (i / 4) / width < height && glyph_covers(ch, x, y, scale, (i / 4) % width, (i / 4) / width) {
                color@[i % 4]
            } else {
                frame[i]
            },
    )
}

/// For `s > 0` and `0 <= d`: `d / s < k` exactly when `d < k * s`.
proof fn lemma_div_lt(d: int, s: int, k: int)
    requires
        s > 0,
        d >= 0,
        k >= 0,
    ensures
        (d / s < k) <==> (d < k * s),
        d / s >= 0,
{
    vstd::arithmetic::div_mod::lemma_fundamental_div_mod(d, s);
    let q = d / s;
    let r = d % s;
    assert(0 <= r < s);
    assert(d == s * q + r);
    if q < k {
        assert(s * q + r < k * s) by (nonlinear_arith)
            requires
                q < k,
                0 <= r < s,
        ;
    } else {
        assert(s * q + r >= k * s) by (nonlinear_arith)
            requires
                q >= k,
                0 <= r,
                s > 0,
        ;
    }
    assert(q >= 0) by (nonlinear_arith)
        requires
            d == s * q + r,
            r < s,
            d >= 0,
            s > 0,
    ;
}

/// Draws the glyph of `ch` at `(x, y)`, each glyph cell `scale × scale` pixels.
pub fn draw_glyph(
    frame: &mut [u8],
    width: usize,
    height: usize,
    x: usize,
    y: usize,
    ch: char,
    color: [u8; 4],
    scale: usize,
)
    requires
        width * height * 4 <= old(frame)@.len(),
        x + 3 * scale <= usize::MAX,
        y + 5 * scale <= usize::MAX,
    ensures
        final(frame)@ == glyph_drawn(old(frame)@, width as int, height as int, x as int, y as int, ch, color, scale as int),
{
    let ghost len = old(frame)@.len() as int;
    let flen = frame.len();
    assert(flen == len);
    let rows = glyph_rows(ch);
    let xe = if x + 3 * scale < width {
        x + 3 * scale
    } else {
        width
    };
    let ye = if y + 5 * scale < height {
        y + 5 * scale
    } else {
        height
    };
    let mut py = y;
    while py < ye
        invariant
            frame@.len() == len,
            len <= usize::MAX,
            width * height * 4 <= len,
            rows == glyph_rows_spec(ch),
            xe == min_int(x + 3 * scale, width as int),
            ye == min_int(y + 5 * scale, height as int),
            y <= py,
            py <= ye || py == y,
            forall|i: int|
                0 <= i < len ==> #[trigger] frame@[i] == if width > 0 && in_box(width as int, i / 4, x as int, y as int, xe as int, py as int)
                    && glyph_covers(ch, x as int, y as int, scale as int, (i / 4) % (width as int), (i / 4) / (width as int)) {
                    color@[i % 4]
                } else {
                    old(frame)@[i]
                },
        decreases ye - py,
    {
        let mut px = x;
        while px < xe
            invariant
                frame@.len() == len,
                len <= usize::MAX,
                width * height * 4 <= len,
                rows == glyph_rows_spec(ch),
                xe == min_int(x + 3 * scale, width as int),
                ye == min_int(y + 5 * scale, height as int),
                y <= py < ye,
                x <= px,
                px <= xe || px == x,
                forall|i: int|
                    0 <= i < len ==> #[trigger] frame@[i] == if width > 0 && (in_box(width as int, i / 4, x as int, y as int, xe as int, py as int)
                        || in_box(width as int, i / 4, x as int, py as int, px as int, py + 1))
                        && glyph_covers(ch, x as int, y as int, scale as int, (i / 4) % (width as int), (i / 4) / (width as int)) {
                        color@[i % 4]
                    } else {
                        old(frame)@[i]
                    },
            decreases xe - px,
        {
            proof {
                lemma_pixel_index(px as int, py as int, width as int, height as int, len);
                lemma_div_lt((px - x) as int, scale as int, 3);
                lemma_div_lt((py - y) as int, scale as int, 5);
            }
            let ry = (py - y) / scale;
            let rx = (px - x) / scale;
            let row = rows[ry];
            let sh = (2 - rx) as u8;
            assert((row >> sh) & 1u8 == (row >> sh) % 2) by { lemma_u8_fields(); }
            let set = (row >> sh) & 1 == 1;
            let p = py * width + px;
            let ghost before = frame@;
            if set {
                paint_pixel(frame, p, color);
            }
            proof {
                assert forall|i: int| 0 <= i < len implies #[trigger] frame@[i] == if width > 0 && (in_box(width as int, i / 4, x as int, y as int, xe as int, py as int)
                    || in_box(width as int, i / 4, x as int, py as int, px + 1, py + 1))
                    && glyph_covers(ch, x as int, y as int, scale as int, (i / 4) % (width as int), (i / 4) / (width as int)) {
                    color@[i % 4]
                } else {
                    old(frame)@[i]
                } by {
                    let q = i / 4;
                    vstd::arithmetic::div_mod::lemma_fundamental_div_mod(q, width as int);
                    if q % (width as int) == px && q / (width as int) == py {
                        assert((width as int) * (py as int) == (py as int) * (width as int)) by (nonlinear_arith);
                        assert(q == p);
                    }
                }
            }
            px = px + 1;
        }
        py = py + 1;
    }
    proof {
        assert forall|i: int| 0 <= i < len implies #[trigger] frame@[i] == glyph_drawn(
            old(frame)@,
            width as int,
            height as int,
            x as int,
            y as int,
            ch,
            color,
            scale as int,
        )[i] by {
            let q = i / 4;
            if width > 0 && q / (width as int) < height && glyph_covers(ch, x as int, y as int, scale as int, q % (width as int), q / (width as int)) {
                vstd::arithmetic::div_mod::lemma_fundamental_div_mod(q, width as int);
                lemma_div_lt(q % (width as int) - x, scale as int, 3);
                lemma_div_lt(q / (width as int) - y, scale as int, 5);
            }
        }
        assert(frame@ =~= glyph_drawn(old(frame)@, width as int, height as int, x as int, y as int, ch, color, scale as int));
    }
}

/// `frame` with `text` drawn from `(x, y)`: each character as a glyph over its shadow one
/// pixel down and right, the pen advancing four cells per character.
pub open spec fn text_drawn(
    frame: Seq<u8>,
    width: int,
    height: int,
    x: int,
    y: int,
    text: Seq<char>,
    color: [u8; 4],
    shadow: [u8; 4],
    scale: int,
) -> Seq<u8>
    decreases text.len(),
{
    if text.len() == 0 {
        frame
    } else {
        let f = text_drawn(frame, width, height, x, y, text.drop_last(), color, shadow, scale);
        let pen = x + 4 * scale * (text.len() - 1);
        glyph_drawn(
            glyph_drawn(f, width, height, pen + 1, y + 1, text.last(), shadow, scale),
            width,
            height,
            pen,
            y,
            text.last(),
            color,
            scale,
        )
    }
}

/// Draws `text` from `(x, y)` (see `text_drawn`).
pub fn draw_text(
    frame: &mut [u8],
    width: usize,
    height: usize,
    x: usize,
    y: usize,
    text: &[char],
    color: [u8; 4],
    shadow_color: [u8; 4],
    scale: usize,
)
    requires
        width * height * 4 <= old(frame)@.len(),
        x + 4 * scale * (text@.len() + 1) + 1 <= usize::MAX,
        y + 5 * scale + 1 <= usize::MAX,
    ensures
        final(frame)@ == text_drawn(old(frame)@, width as int, height as int, x as int, y as int, text@, color, shadow_color, scale as int),
        final(frame)@.len() == old(frame)@.len(),
{
    let n = text.len();
    let mut pen = x;
    let mut i: usize = 0;
    while i < n
        invariant
            n == text@.len(),
            i <= n,
            frame@.len() == old(frame)@.len(),
            width * height * 4 <= old(frame)@.len(),
            x + 4 * scale * (n + 1) + 1 <= usize::MAX,
            y + 5 * scale + 1 <= usize::MAX,
            pen == x + 4 * scale * i,
            frame@ == text_drawn(old(frame)@, width as int, height as int, x as int, y as int, text@.subrange(0, i as int), color, shadow_color, scale as int),
        decreases n - i,
    {
        assert(4 * scale * i + 4 * scale <= 4 * scale * (n + 1)) by (nonlinear_arith)
            requires
                i < n,
        ;
        assert(4 * scale * i + 4 * scale == 4 * scale * (i + 1)) by (nonlinear_arith);
        let ch = text[i];
        draw_glyph(frame, width, height, pen + 1, y + 1, ch, shadow_color, scale);
        draw_glyph(frame, width, height, pen, y, ch, color, scale);
        assert(text@.subrange(0, i + 1).drop_last() =~= text@.subrange(0, i as int));
        pen = pen + 3 * scale + scale;
        i = i + 1;
    }
    assert(text@.subrange(0, n as int) =~= text@);
}

/// `a - b`, or 0 when `b` is larger.
pub open spec fn sat_sub(a: int, b: int) -> int {
    if a >= b {
        a - b
    } else {
        0
    }
}

/// `frame` with a chip: a filled box, a one-pixel border and `text` inside it.
pub open spec fn chip_drawn(
    frame: Seq<u8>,
    width: int,
    height: int,
    x: int,
    y: int,
    w: int,
    h: int,
    bg: [u8; 4],
    border: [u8; 4],
    text: Seq<char>,
    text_color: [u8; 4],
    shadow: [u8; 4],
) -> Seq<u8> {
    let f1 = rect_filled(frame, width, height, x, y, w, h, bg);
    let f2 = rect_filled(f1, width, height, x, y, w, 1, border);
    let f3 = rect_filled(f2, width, height, x, y + sat_sub(h, 1), w, 1, border);
    let f4 = rect_filled(f3, width, height, x, y, 1, h, border);
    let f5 = rect_filled(f4, width, height, x + sat_sub(w, 1), y, 1, h, border);
    text_drawn(f5, width, height, x + 3, y + 2, text, text_color, shadow, 1)
}

fn draw_chip(
    frame: &mut [u8],
    width: usize,
    height: usize,
    x: usize,
    y: usize,
    w: usize,
    h: usize,
    bg: [u8; 4],
    border: [u8; 4],
    text: &[char],
    text_color: [u8; 4],
    shadow_color: [u8; 4],
)
    requires
        width * height * 4 <= old(frame)@.len(),
        x + w + 4 * (text@.len() + 2) <= usize::MAX,
        y + h + 8 <= usize::MAX,
    ensures
        final(frame)@ == chip_drawn(old(frame)@, width as int, height as int, x as int, y as int, w as int, h as int, bg, border, text@, text_color, shadow_color),
        final(frame)@.len() == old(frame)@.len(),
{
    fill_rect(frame, width, height, x, y, w, h, bg);
    fill_rect(frame, width, height, x, y, w, 1, border);
    let hb = if h >= 1 { h - 1 } else { 0 };
    fill_rect(frame, width, height, x, y + hb, w, 1, border);
    fill_rect(frame, width, height, x, y, 1, h, border);
    let wb = if w >= 1 { w - 1 } else { 0 };
    fill_rect(frame, width, height, x + wb, y, 1, h, border);
    draw_text(frame, width, height, x + 3, y + 2, text, text_color, shadow_color, 1);
}

/// Clears the HUD strip below the game picture (at most the HUD width).
pub fn clear_hud_strip(frame: &mut [u8], width: usize, buffer_height: usize, game_height: usize)
    requires
        width * buffer_height * 4 <= old(frame)@.len(),
    ensures
        final(frame)@ == if width == 0 || buffer_height <= game_height {
            old(frame)@
        } else {
            rect_filled(
                old(frame)@,
                width as int,
                buffer_height as int,
                0,
                game_height as int,
                min_int(width as int, HUD_MAX_W as int),
                buffer_height - game_height,
                CLEAR_BG,
            )
        },
{
    if width == 0 || buffer_height <= game_height {
        return;
    }
    let h = buffer_height - game_height;
    let w = if width < HUD_MAX_W { width } else { HUD_MAX_W };
    fill_rect(frame, width, buffer_height, 0, game_height, w, h, CLEAR_BG);
}

/// A status-line character as the HUD font shows it: dots and dashes become `-`, ASCII is
/// upper-cased, anything else becomes a space.
pub open spec fn hud_char(c: char) -> char {
    if c == '\u{b7}' || c == '\u{2022}' || c == '\u{2014}' || c == '\u{2013}' {
        '-'
    } else if (c as u32) < 128 {
        if 'a' <= c <= 'z' {
            ((c as u32) - 32) as char
        } else {
            c
        }
    } else {
        ' '
    }
}

fn to_hud_char(c: char) -> (r: char)
    ensures
        r == hud_char(c),
{
    if c == '\u{b7}' || c == '\u{2022}' || c == '\u{2014}' || c == '\u{2013}' {
        '-'
    } else if (c as u32) < 128 {
        if 'a' <= c && c <= 'z' {
            ((c as u8) - 32) as char
        } else {
            c
        }
    } else {
        ' '
    }
}

/// Words of `s` so far (runs of non-white-space): the finished words and the one being read.
pub open spec fn words_acc(s: Seq<char>) -> (Seq<Seq<char>>, Seq<char>)
    decreases s.len(),
{
    if s.len() == 0 {
        (Seq::empty(), Seq::empty())
    } else {
        let (done, cur) = words_acc(s.drop_last());
        if is_white_space(s.last()) {
            if cur.len() > 0 {
                (done.push(cur), Seq::empty())
            } else {
                (done, cur)
            }
        } else {
            (done, cur.push(s.last()))
        }
    }
}

/// The white-space separated words of `s`.
pub open spec fn words(s: Seq<char>) -> Seq<Seq<char>> {
    let (done, cur) = words_acc(s);
    if cur.len() > 0 {
        done.push(cur)
    } else {
        done
    }
}

/// `ws` joined with single spaces.
pub open spec fn join_words(ws: Seq<Seq<char>>) -> Seq<char>
    decreases ws.len(),
{
    if ws.len() == 0 {
        Seq::empty()
    } else if ws.len() == 1 {
        ws[0]
    } else {
        join_words(ws.drop_last()) + seq![' '] + ws.last()
    }
}

/// The status line in the HUD font: characters mapped by `hud_char`, white space collapsed
/// to single spaces and trimmed.
pub open spec fn hud_text(s: Seq<char>) -> Seq<char> {
    join_words(words(s.map_values(|c: char| hud_char(c))))
}

/// Appends `w` to `out`, with a space first unless `out` holds no word yet.
fn push_word(out: &mut Vec<char>, w: &[char], first: bool)
    ensures
        final(out)@ == if first {
            old(out)@ + w@
        } else {
            old(out)@ + seq![' '] + w@
        },
{
    if !first {
        out.push(' ');
    }
    let ghost base = out@;
    let mut j: usize = 0;
    while j < w.len()
        invariant
            j <= w@.len(),
            out@ == base + w@.subrange(0, j as int),
        decreases w@.len() - j,
    {
        out.push(w[j]);
        j = j + 1;
        assert(w@.subrange(0, j as int) =~= w@.subrange(0, j - 1).push(w@[j - 1]));
    }
    assert(w@.subrange(0, w@.len() as int) =~= w@);
}

/// The status line in the HUD font (see `hud_text`).
fn hud_ascii(s: &[char]) -> (r: Vec<char>)
    ensures
        r@ == hud_text(s@),
{
    let ghost m = s@.map_values(|c: char| hud_char(c));
    let n = s.len();
    let mut out: Vec<char> = Vec::new();
    let mut cur: Vec<char> = Vec::new();
    let mut any = false;
    let mut i: usize = 0;
    while i < n
        invariant
            n == s@.len(),
            m == s@.map_values(|c: char| hud_char(c)),
            i <= n,
            out@ == join_words(words_acc(m.subrange(0, i as int)).0),
            cur@ == words_acc(m.subrange(0, i as int)).1,
            any == (words_acc(m.subrange(0, i as int)).0.len() > 0),
        decreases n - i,
    {
        let c = to_hud_char(s[i]);
        assert(m.subrange(0, i + 1).drop_last() =~= m.subrange(0, i as int));
        assert(m.subrange(0, i + 1).last() == c);
        if is_ws(c) {
            if cur.len() > 0 {
                let ghost done = words_acc(m.subrange(0, i as int)).0;
                push_word(&mut out, cur.as_slice(), !any);
                proof {
                    assert(done.push(cur@).drop_last() =~= done);
                    if !any {
                        assert(done.len() == 0);
                    }
                }
                cur = Vec::new();
                any = true;
            }
        } else {
            cur.push(c);
        }
        i = i + 1;
    }
    assert(m.subrange(0, n as int) =~= m);
    if cur.len() > 0 {
        let ghost done = words_acc(m).0;
        push_word(&mut out, cur.as_slice(), !any);
        proof {
            assert(done.push(cur@).drop_last() =~= done);
        }
    }
    out
}

/// `s` cut to `max(limit, 8)` characters, the last three of them `...` when cut.
pub open spec fn truncated(s: Seq<char>, limit: int) -> Seq<char> {
    let m = if limit > 8 {
        limit
    } else {
        8
    };
    if s.len() <= m {
        s
    } else {
        s.subrange(0, m - 3) + seq!['.', '.', '.']
    }
}

fn truncate_text(s: &[char], max_chars: usize) -> (r: Vec<char>)
    ensures
        r@ == truncated(s@, max_chars as int),
{
    let m = if max_chars > 8 { max_chars } else { 8 };
    let mut out: Vec<char> = Vec::new();
    let take = if s.len() <= m { s.len() } else { m - 3 };
    let mut j: usize = 0;
    while j < take
        invariant
            take <= s@.len(),
            j <= take,
            out@ == s@.subrange(0, j as int),
        decreases take - j,
    {
        out.push(s[j]);
        j = j + 1;
        assert(s@.subrange(0, j as int) =~= s@.subrange(0, j - 1).push(s@[j - 1]));
    }
    if s.len() > m {
        out.push('.');
        out.push('.');
        out.push('.');
    } else {
        assert(s@.subrange(0, take as int) =~= s@);
    }
    out
}

/// The hint shown for a frame count: it changes every 120 frames.
pub open spec fn hud_hint(rendered_frames: u64) -> Seq<char> {
    let k = (rendered_frames / 120) % 4;
    if k == 0 {
        seq!['F', '1', '2', ' ', 'S', 'H', 'O', 'T']
    } else if k == 1 {
        seq!['F', '2', ' ', ' ', 'R', 'O', 'M']
    } else if k == 2 {
        seq!['T', 'A', 'B', ' ', 'H', 'U', 'D']
    } else {
        seq!['F', '6', ' ', 'F', 'O', 'L', 'D', 'E', 'R']
    }
}

fn hint_chars(rendered_frames: u64) -> (r: Vec<char>)
    ensures
        r@ == hud_hint(rendered_frames),
{
    match (rendered_frames / 120) % 4 {
        0 => vec!['F', '1', '2', ' ', 'S', 'H', 'O', 'T'],
        1 => vec!['F', '2', ' ', ' ', 'R', 'O', 'M'],
        2 => vec!['T', 'A', 'B', ' ', 'H', 'U', 'D'],
        _ => vec!['F', '6', ' ', 'F', 'O', 'L', 'D', 'E', 'R'],
    }
}

/// The whole HUD: strip and bar backgrounds, the hot-key chips, the fast-forward and
/// autosave chips, the status line and (when there is room) the rotating hint.
pub open spec fn controls_hud(
    frame: Seq<u8>,
    width: int,
    buffer_height: int,
    game_height: int,
    fast_forward_held: bool,
    rendered_frames: u64,
    autosave_enabled: bool,
    status_line: Seq<char>,
) -> Seq<u8> {
    if width == 0 || buffer_height == 0 || buffer_height <= game_height {
        frame
    } else {
        let bh = buffer_height;
        let w = min_int(width, HUD_MAX_W as int);
        let strip_top = game_height;
        let bar_h = min_int(34, bh - strip_top);
        let bar_y = bh - bar_h;
        let f1 = rect_filled(frame, width, bh, 0, strip_top, w, bh - strip_top, SHELL_BG);
        let f2 = rect_filled(f1, width, bh, 0, strip_top, w, 1, SHELL_BORDER);
        let f3 = rect_filled(f2, width, bh, 0, bar_y, w, bar_h, SHELL_BG);
        let f4 = rect_filled(f3, width, bh, 0, bar_y, w, 1, SHELL_BORDER);
        let r1 = bar_y + 3;
        let f5 = chip_drawn(f4, width, bh, 3, r1, 50, 11, SHELL_SURFACE, SHELL_BORDER, seq!['F', '5', ' ', 'S', 'A', 'V', 'E'], SHELL_FG, SHELL_SHADOW);
        let f6 = chip_drawn(f5, width, bh, 55, r1, 50, 11, SHELL_SURFACE, SHELL_BORDER, seq!['F', '9', ' ', 'L', 'O', 'A', 'D'], SHELL_FG, SHELL_SHADOW);
        let f7 = chip_drawn(f6, width, bh, 107, r1, 50, 11, SHELL_SURFACE, SHELL_BORDER, seq!['E', 'S', 'C'], SHELL_FG, SHELL_SHADOW);
        let r2 = bar_y + 16;
        let f8 = chip_drawn(
            f7,
            width,
            bh,
            3,
            r2,
            76,
            11,
            if fast_forward_held { FF_ACTIVE_BG } else { SHELL_SURFACE },
            SHELL_BORDER,
            if fast_forward_held { seq!['S', 'P', 'C', ' ', 'O', 'N'] } else { seq!['S', 'P', 'C', ' ', 'O', 'F', 'F'] },
            if fast_forward_held { FF_ACTIVE_FG } else { SHELL_FG },
            SHELL_SHADOW,
        );
        let f9 = chip_drawn(
            f8,
            width,
            bh,
            81,
            r2,
            76,
            11,
            if autosave_enabled { SUCCESS_BG } else { WARNING_BG },
            if autosave_enabled { SUCCESS_BORDER } else { WARNING_BORDER },
            if autosave_enabled { seq!['A', 'U', 'T', 'O', ' ', 'O', 'N'] } else { seq!['A', 'U', 'T', 'O', ' ', 'O', 'F', 'F'] },
            SHELL_FG,
            SHELL_SHADOW,
        );
        let status = truncated(hud_text(status_line), sat_sub(w, 6) / 4);
        let f10 = text_drawn(f9, width, bh, 3, strip_top + 2, status, SHELL_MUTED, SHELL_SHADOW, 1);
        let hint_y = min_int(strip_top + 12, sat_sub(bar_y, 8));
        if hint_y > strip_top && hint_y + 6 < bar_y {
            text_drawn(f10, width, bh, 3, hint_y, hud_hint(rendered_frames), SHELL_MUTED, SHELL_SHADOW, 1)
        } else {
            f10
        }
    }
}

/// A frame of `width × height` RGBA pixels fits in a slice of `len` bytes.
proof fn lemma_frame_dims(width: int, height: int, len: int)
    requires
        width >= 1,
        height >= 0,
        width * height * 4 <= len,
    ensures
        height * 4 <= len,
{
    assert(height * 4 <= width * height * 4) by (nonlinear_arith)
        requires
            width >= 1,
            height >= 0,
    ;
}

/// Draws the HUD strip below the game picture (see `controls_hud`).
#[verifier::rlimit(40)]
pub fn draw_controls_hud(
    frame: &mut [u8],
    width: usize,
    buffer_height: usize,
    gameplay_height: usize,
    fast_forward_held: bool,
    rendered_frames: u64,
    autosave_enabled: bool,
    status_line: &str,
)
    requires
        width * buffer_height * 4 <= old(frame)@.len(),
    ensures
        final(frame)@ == controls_hud(
            old(frame)@,
            width as int,
            buffer_height as int,
            gameplay_height as int,
            fast_forward_held,
            rendered_frames,
            autosave_enabled,
            status_line@,
        ),
{
    if width == 0 || buffer_height == 0 {
        return;
    }
    let game_height = gameplay_height;
    if buffer_height <= game_height {
        return;
    }
    let flen = frame.len();
    proof {
        lemma_frame_dims(width as int, buffer_height as int, flen as int);
    }
    let w = if width < HUD_MAX_W { width } else { HUD_MAX_W };
    let strip_top = game_height;
    let bar_h = if 34 < buffer_height - strip_top { 34 } else { buffer_height - strip_top };
    let bar_y = buffer_height - bar_h;

    fill_rect(frame, width, buffer_height, 0, strip_top, w, buffer_height - strip_top, SHELL_BG);
    fill_rect(frame, width, buffer_height, 0, strip_top, w, 1, SHELL_BORDER);

    let fg = SHELL_FG;
    let muted = SHELL_MUTED;
    let shadow = SHELL_SHADOW;
    let chip_bg = SHELL_SURFACE;
    let chip_border = SHELL_BORDER;
    let ff_chip_bg = if fast_forward_held { FF_ACTIVE_BG } else { chip_bg };
    let ff_text = if fast_forward_held { FF_ACTIVE_FG } else { fg };
    let ff_label = if fast_forward_held { vec!['S', 'P', 'C', ' ', 'O', 'N'] } else { vec!['S', 'P', 'C', ' ', 'O', 'F', 'F'] };
    let autosave = if autosave_enabled { vec!['A', 'U', 'T', 'O', ' ', 'O', 'N'] } else { vec!['A', 'U', 'T', 'O', ' ', 'O', 'F', 'F'] };

    fill_rect(frame, width, buffer_height, 0, bar_y, w, bar_h, SHELL_BG);
    fill_rect(frame, width, buffer_height, 0, bar_y, w, 1, SHELL_BORDER);

    let r1 = bar_y + 3;
    let chip_h: usize = 11;
    let save_label = vec!['F', '5', ' ', 'S', 'A', 'V', 'E'];
    let load_label = vec!['F', '9', ' ', 'L', 'O', 'A', 'D'];
    let esc_label = vec!['E', 'S', 'C'];
    draw_chip(frame, width, buffer_height, 3, r1, 50, chip_h, chip_bg, chip_border, save_label.as_slice(), fg, shadow);
    draw_chip(frame, width, buffer_height, 55, r1, 50, chip_h, chip_bg, chip_border, load_label.as_slice(), fg, shadow);
    draw_chip(frame, width, buffer_height, 107, r1, 50, chip_h, chip_bg, chip_border, esc_label.as_slice(), fg, shadow);

    let r2 = bar_y + 3 + chip_h + 2;
    draw_chip(frame, width, buffer_height, 3, r2, 76, chip_h, ff_chip_bg, chip_border, ff_label.as_slice(), ff_text, shadow);
    draw_chip(
        frame,
        width,
        buffer_height,
        81,
        r2,
        76,
        chip_h,
        if autosave_enabled { SUCCESS_BG } else { WARNING_BG },
        if autosave_enabled { SUCCESS_BORDER } else { WARNING_BORDER },
        autosave.as_slice(),
        fg,
        shadow,
    );

    let hint = hint_chars(rendered_frames);
    let line = chars_of(status_line);
    let ascii = hud_ascii(line.as_slice());
    let limit = (if w >= 6 { w - 6 } else { 0 }) / 4;
    let status = truncate_text(ascii.as_slice(), limit);
    proof {
        assert(status@.len() <= 80);
    }
    let status_y = strip_top + 2;
    let hint_y = strip_top + 12;
    let hint_floor = if bar_y >= 8 { bar_y - 8 } else { 0 };
    let hint_y = if hint_y < hint_floor { hint_y } else { hint_floor };

    draw_text(frame, width, buffer_height, 3, status_y, status.as_slice(), muted, shadow, 1);
    if hint_y > strip_top && hint_y + 6 < bar_y {
        draw_text(frame, width, buffer_height, 3, hint_y, hint.as_slice(), muted, shadow, 1);
    }
}

/// Whether `f` equals `f0` on every pixel of the rows above row `rows` (pixels `width` wide,
/// four bytes each).
pub open spec fn rows_above_kept(f: Seq<u8>, f0: Seq<u8>, width: int, rows: int) -> bool {
    &&& f.len() == f0.len()
    &&& forall|i: int| 0 <= i < f0.len() && (i / 4) / width < rows ==> #[trigger] f[i] == f0[i]
}

proof fn lemma_kept_trans(f2: Seq<u8>, f1: Seq<u8>, f0: Seq<u8>, width: int, rows: int)
    requires
        rows_above_kept(f2, f1, width, rows),
        rows_above_kept(f1, f0, width, rows),
    ensures
        rows_above_kept(f2, f0, width, rows),
{
    assert forall|i: int| 0 <= i < f0.len() && (i / 4) / width < rows implies #[trigger] f2[i] == f0[i] by {
        assert(f2[i] == f1[i]);
    }
}

proof fn lemma_rect_below(
    frame: Seq<u8>,
    width: int,
    height: int,
    x: int,
    y: int,
    w: int,
    h: int,
    color: [u8; 4],
    rows: int,
)
    requires
        y >= rows,
    ensures
        rows_above_kept(rect_filled(frame, width, height, x, y, w, h, color), frame, width, rows),
{
}

proof fn lemma_glyph_below(
    frame: Seq<u8>,
    width: int,
    height: int,
    x: int,
    y: int,
    ch: char,
    color: [u8; 4],
    scale: int,
    rows: int,
)
    requires
        y >= rows,
    ensures
        rows_above_kept(glyph_drawn(frame, width, height, x, y, ch, color, scale), frame, width, rows),
{
}

proof fn lemma_text_below(
    frame: Seq<u8>,
    width: int,
    height: int,
    x: int,
    y: int,
    text: Seq<char>,
    color: [u8; 4],
    shadow: [u8; 4],
    scale: int,
    rows: int,
)
    requires
        y >= rows,
    ensures
        rows_above_kept(text_drawn(frame, width, height, x, y, text, color, shadow, scale), frame, width, rows),
    decreases text.len(),
{
    if text.len() > 0 {
        let f = text_drawn(frame, width, height, x, y, text.drop_last(), color, shadow, scale);
        let pen = x + 4 * scale * (text.len() - 1);
        let g = glyph_drawn(f, width, height, pen + 1, y + 1, text.last(), shadow, scale);
        lemma_text_below(frame, width, height, x, y, text.drop_last(), color, shadow, scale, rows);
        lemma_glyph_below(f, width, height, pen + 1, y + 1, text.last(), shadow, scale, rows);
        lemma_glyph_below(g, width, height, pen, y, text.last(), color, scale, rows);
        lemma_kept_trans(g, f, frame, width, rows);
        lemma_kept_trans(
            glyph_drawn(g, width, height, pen, y, text.last(), color, scale),
            g,
            frame,
            width,
            rows,
        );
    }
}

proof fn lemma_chip_below(
    frame: Seq<u8>,
    width: int,
    height: int,
    x: int,
    y: int,
    w: int,
    h: int,
    bg: [u8; 4],
    border: [u8; 4],
    text: Seq<char>,
    text_color: [u8; 4],
    shadow: [u8; 4],
    rows: int,
)
    requires
        y >= rows,
    ensures
        rows_above_kept(
            chip_drawn(frame, width, height, x, y, w, h, bg, border, text, text_color, shadow),
            frame,
            width,
            rows,
        ),
{
    let f1 = rect_filled(frame, width, height, x, y, w, h, bg);
    let f2 = rect_filled(f1, width, height, x, y, w, 1, border);
    let f3 = rect_filled(f2, width, height, x, y + sat_sub(h, 1), w, 1, border);
    let f4 = rect_filled(f3, width, height, x, y, 1, h, border);
    let f5 = rect_filled(f4, width, height, x + sat_sub(w, 1), y, 1, h, border);
    let f6 = text_drawn(f5, width, height, x + 3, y + 2, text, text_color, shadow, 1);
    lemma_rect_below(frame, width, height, x, y, w, h, bg, rows);
    lemma_rect_below(f1, width, height, x, y, w, 1, border, rows);
    lemma_rect_below(f2, width, height, x, y + sat_sub(h, 1), w, 1, border, rows);
    lemma_rect_below(f3, width, height, x, y, 1, h, border, rows);
    lemma_rect_below(f4, width, height, x + sat_sub(w, 1), y, 1, h, border, rows);
    lemma_text_below(f5, width, height, x + 3, y + 2, text, text_color, shadow, 1, rows);
    lemma_kept_trans(f2, f1, frame, width, rows);
    lemma_kept_trans(f3, f2, frame, width, rows);
    lemma_kept_trans(f4, f3, frame, width, rows);
    lemma_kept_trans(f5, f4, frame, width, rows);
    lemma_kept_trans(f6, f5, frame, width, rows);
}

/// The HUD is drawn only in the strip below the game picture: every pixel of the rows above
/// `game_height` stays as it was, whatever the HUD shows.
pub proof fn lemma_hud_keeps_game_area(
    frame: Seq<u8>,
    width: int,
    buffer_height: int,
    game_height: int,
    fast_forward_held: bool,
    rendered_frames: u64,
    autosave_enabled: bool,
    status_line: Seq<char>,
)
    ensures
        rows_above_kept(
            controls_hud(
                frame,
                width,
                buffer_height,
                game_height,
                fast_forward_held,
                rendered_frames,
                autosave_enabled,
                status_line,
            ),
            frame,
            width,
            game_height,
        ),
{
    if !(width == 0 || buffer_height == 0 || buffer_height <= game_height) {
        let bh = buffer_height;
        let w = min_int(width, HUD_MAX_W as int);
        let strip_top = game_height;
        let bar_h = min_int(34, bh - strip_top);
        let bar_y = bh - bar_h;
        let rows = game_height;
        let f1 = rect_filled(frame, width, bh, 0, strip_top, w, bh - strip_top, SHELL_BG);
        let f2 = rect_filled(f1, width, bh, 0, strip_top, w, 1, SHELL_BORDER);
        let f3 = rect_filled(f2, width, bh, 0, bar_y, w, bar_h, SHELL_BG);
        let f4 = rect_filled(f3, width, bh, 0, bar_y, w, 1, SHELL_BORDER);
        let r1 = bar_y + 3;
        let f5 = chip_drawn(f4, width, bh, 3, r1, 50, 11, SHELL_SURFACE, SHELL_BORDER, seq!['F', '5', ' ', 'S', 'A', 'V', 'E'], SHELL_FG, SHELL_SHADOW);
        let f6 = chip_drawn(f5, width, bh, 55, r1, 50, 11, SHELL_SURFACE, SHELL_BORDER, seq!['F', '9', ' ', 'L', 'O', 'A', 'D'], SHELL_FG, SHELL_SHADOW);
        let f7 = chip_drawn(f6, width, bh, 107, r1, 50, 11, SHELL_SURFACE, SHELL_BORDER, seq!['E', 'S', 'C'], SHELL_FG, SHELL_SHADOW);
        let r2 = bar_y + 16;
        let bg8 = if fast_forward_held { FF_ACTIVE_BG } else { SHELL_SURFACE };
        let t8 = if fast_forward_held { seq!['S', 'P', 'C', ' ', 'O', 'N'] } else { seq!['S', 'P', 'C', ' ', 'O', 'F', 'F'] };
        let c8 = if fast_forward_held { FF_ACTIVE_FG } else { SHELL_FG };
        let f8 = chip_drawn(f7, width, bh, 3, r2, 76, 11, bg8, SHELL_BORDER, t8, c8, SHELL_SHADOW);
        let bg9 = if autosave_enabled { SUCCESS_BG } else { WARNING_BG };
        let b9 = if autosave_enabled { SUCCESS_BORDER } else { WARNING_BORDER };
        let t9 = if autosave_enabled { seq!['A', 'U', 'T', 'O', ' ', 'O', 'N'] } else { seq!['A', 'U', 'T', 'O', ' ', 'O', 'F', 'F'] };
        let f9 = chip_drawn(f8, width, bh, 81, r2, 76, 11, bg9, b9, t9, SHELL_FG, SHELL_SHADOW);
        let status = truncated(hud_text(status_line), sat_sub(w, 6) / 4);
        let f10 = text_drawn(f9, width, bh, 3, strip_top + 2, status, SHELL_MUTED, SHELL_SHADOW, 1);
        let hint_y = min_int(strip_top + 12, sat_sub(bar_y, 8));
        lemma_rect_below(frame, width, bh, 0, strip_top, w, bh - strip_top, SHELL_BG, rows);
        lemma_rect_below(f1, width, bh, 0, strip_top, w, 1, SHELL_BORDER, rows);
        lemma_rect_below(f2, width, bh, 0, bar_y, w, bar_h, SHELL_BG, rows);
        lemma_rect_below(f3, width, bh, 0, bar_y, w, 1, SHELL_BORDER, rows);
        lemma_chip_below(f4, width, bh, 3, r1, 50, 11, SHELL_SURFACE, SHELL_BORDER, seq!['F', '5', ' ', 'S', 'A', 'V', 'E'], SHELL_FG, SHELL_SHADOW, rows);
        lemma_chip_below(f5, width, bh, 55, r1, 50, 11, SHELL_SURFACE, SHELL_BORDER, seq!['F', '9', ' ', 'L', 'O', 'A', 'D'], SHELL_FG, SHELL_SHADOW, rows);
        lemma_chip_below(f6, width, bh, 107, r1, 50, 11, SHELL_SURFACE, SHELL_BORDER, seq!['E', 'S', 'C'], SHELL_FG, SHELL_SHADOW, rows);
        lemma_chip_below(f7, width, bh, 3, r2, 76, 11, bg8, SHELL_BORDER, t8, c8, SHELL_SHADOW, rows);
        lemma_chip_below(f8, width, bh, 81, r2, 76, 11, bg9, b9, t9, SHELL_FG, SHELL_SHADOW, rows);
        lemma_text_below(f9, width, bh, 3, strip_top + 2, status, SHELL_MUTED, SHELL_SHADOW, 1, rows);
        lemma_kept_trans(f2, f1, frame, width, rows);
        lemma_kept_trans(f3, f2, frame, width, rows);
        lemma_kept_trans(f4, f3, frame, width, rows);
        lemma_kept_trans(f5, f4, frame, width, rows);
        lemma_kept_trans(f6, f5, frame, width, rows);
        lemma_kept_trans(f7, f6, frame, width, rows);
        lemma_kept_trans(f8, f7, frame, width, rows);
        lemma_kept_trans(f9, f8, frame, width, rows);
        lemma_kept_trans(f10, f9, frame, width, rows);
        if hint_y > strip_top && hint_y + 6 < bar_y {
            lemma_text_below(f10, width, bh, 3, hint_y, hud_hint(rendered_frames), SHELL_MUTED, SHELL_SHADOW, 1, rows);
            lemma_kept_trans(
                text_drawn(f10, width, bh, 3, hint_y, hud_hint(rendered_frames), SHELL_MUTED, SHELL_SHADOW, 1),
                f10,
                frame,
                width,
                rows,
            );
        }
    }
}

/// Clearing the HUD strip leaves every pixel of the rows above `game_height` as it was.
pub proof fn lemma_clear_keeps_game_area(frame: Seq<u8>, width: int, buffer_height: int, game_height: int)
    ensures
        rows_above_kept(
            if width == 0 || buffer_height <= game_height {
                frame
            } else {
                rect_filled(
                    frame,
                    width,
                    buffer_height,
                    0,
                    game_height,
                    min_int(width, HUD_MAX_W as int),
                    buffer_height - game_height,
                    CLEAR_BG,
                )
            },
            frame,
            width,
            game_height,
        ),
{
    lemma_rect_below(
        frame,
        width,
        buffer_height,
        0,
        game_height,
        min_int(width, HUD_MAX_W as int),
        buffer_height - game_height,
        CLEAR_BG,
        game_height,
    );
}

} // verus!
