//! Launcher theme colours: the colour table of the theme file and `#RRGGBB` parsing.

use vstd::prelude::*;

use crate::text::{is_white_space, trim_end_ws, trim_start_ws, trim_str, trim_ws};

verus! {

/// The colour table of a theme file; each entry is an optional `#RRGGBB` string.
#[derive(Debug, Clone)]
pub struct ColorsPartial {
    pub bg: Option<String>,
    pub fg: Option<String>,
    pub surface: Option<String>,
    pub surface_2: Option<String>,
    pub surface_3: Option<String>,
    pub border: Option<String>,
    pub primary: Option<String>,
    pub primary_hover: Option<String>,
    pub accent: Option<String>,
    pub muted_fg: Option<String>,
    pub dmg_blue: Option<String>,
    pub lcd_deep: Option<String>,
    pub success: Option<String>,
    pub warning: Option<String>,
    pub destructive: Option<String>,
    pub info: Option<String>,
    pub brand_pocket_word: Option<String>,
    pub brand_emulator_word: Option<String>,
    pub success_bg: Option<String>,
    pub warning_bg: Option<String>,
    pub destructive_bg: Option<String>,
    pub info_bg: Option<String>,
    pub platform_bg: Option<String>,
    pub platform_text: Option<String>,
}

impl Default for ColorsPartial {
    /// No colour overridden.
    fn default() -> (r: Self)
        ensures
            r.bg is None && r.fg is None && r.surface is None && r.surface_2 is None,
            r.surface_3 is None && r.border is None && r.primary is None && r.primary_hover is None,
            r.accent is None && r.muted_fg is None && r.dmg_blue is None && r.lcd_deep is None,
            r.success is None && r.warning is None && r.destructive is None && r.info is None,
            r.brand_pocket_word is None && r.brand_emulator_word is None && r.success_bg is None,
            r.warning_bg is None && r.destructive_bg is None && r.info_bg is None,
            r.platform_bg is None && r.platform_text is None,
    {
        ColorsPartial {
            bg: None,
            fg: None,
            surface: None,
            surface_2: None,
            surface_3: None,
            border: None,
            primary: None,
            primary_hover: None,
            accent: None,
            muted_fg: None,
            dmg_blue: None,
            lcd_deep: None,
            success: None,
            warning: None,
            destructive: None,
            info: None,
            brand_pocket_word: None,
            brand_emulator_word: None,
            success_bg: None,
            warning_bg: None,
            destructive_bg: None,
            info_bg: None,
            platform_bg: None,
            platform_text: None,
        }
    }
}

/// Value of a hexadecimal digit (either case).
pub open spec fn hex_value(c: char) -> Option<u8> {
    if '0' <= c <= '9' {
        Some((c as u32 - 48) as u8)
    } else if 'a' <= c <= 'f' {
        Some((c as u32 - 87) as u8)
    } else if 'A' <= c <= 'F' {
        Some((c as u32 - 55) as u8)
    } else {
        None
    }
}

/// The byte written as the two hexadecimal digits `c0 c1`.
pub open spec fn hex_pair(c0: char, c1: char) -> Option<u8> {
    match (hex_value(c0), hex_value(c1)) {
        (Some(h), Some(l)) => Some((h * 16 + l) as u8),
        _ => None,
    }
}

/// The colour digits of `s`: trimmed, without one leading `#`.
pub open spec fn hex_digits(s: Seq<char>) -> Seq<char> {
    let t = trim_ws(s);
    if t.len() > 0 && t[0] == '#' {
        t.drop_first()
    } else {
        t
    }
}

/// `#RRGGBB` or `RRGGBB` (surrounding white space allowed) as red, green and blue.
pub open spec fn hex_rgb(s: Seq<char>) -> Option<(u8, u8, u8)> {
    let u = hex_digits(s);
    if u.len() != 6 {
        None
    } else {
        match (hex_pair(u[0], u[1]), hex_pair(u[2], u[3]), hex_pair(u[4], u[5])) {
            (Some(r), Some(g), Some(b)) => Some((r, g, b)),
            _ => None,
        }
    }
}

pub fn hex_digit(c: char) -> (r: Option<u8>)
    ensures
        r == hex_value(c),
{
    if '0' <= c && c <= '9' {
        Some((c as u8) - 48)
    } else if 'a' <= c && c <= 'f' {
        Some((c as u8) - 87)
    } else if 'A' <= c && c <= 'F' {
        Some((c as u8) - 55)
    } else {
        None
    }
}

fn parse_hex_pair(c0: char, c1: char) -> (r: Option<u8>)
    ensures
        r == hex_pair(c0, c1),
{
    match (hex_digit(c0), hex_digit(c1)) {
        (Some(h), Some(l)) => Some(h * 16 + l),
        _ => None,
    }
}

/// `"#RRGGBB"` or `"RRGGBB"`.
pub fn parse_hex_rgb(s: &str) -> (r: Option<(u8, u8, u8)>)
    ensures
        r == hex_rgb(s@),
{
    let t = trim_str(s);
    let n = t.unicode_len();
    let start: usize = if n > 0 && t.get_char(0) == '#' {
        1
    } else {
        0
    };
    let ghost u = hex_digits(s@);
    assert(u =~= t@.subrange(start as int, n as int));
    if n - start != 6 {
        return None;
    }
    let r = parse_hex_pair(t.get_char(start), t.get_char(start + 1));
    let g = parse_hex_pair(t.get_char(start + 2), t.get_char(start + 3));
    let b = parse_hex_pair(t.get_char(start + 4), t.get_char(start + 5));
    match (r, g, b) {
        (Some(r), Some(g), Some(b)) => Some((r, g, b)),
        _ => None,
    }
}

/// Six hex digits parse to a colour, with or without a leading `#`.
pub proof fn lemma_hash_prefix_optional(u: Seq<char>)
    requires
        u.len() == 6,
        forall|i: int| 0 <= i < 6 ==> #[trigger] hex_value(u[i]) is Some,
    ensures
        hex_rgb(u) is Some,
        hex_rgb(seq!['#'] + u) == hex_rgb(u),
{
    assert(hex_value(u[0]) is Some && hex_value(u[5]) is Some);
    assert(!is_white_space(u[0]) && !is_white_space(u[5]));
    assert(trim_start_ws(u) == u);
    assert(trim_end_ws(u) == u);
    let hu = seq!['#'] + u;
    assert(hu[0] == '#' && hu.last() == u[5]);
    assert(trim_start_ws(hu) == hu);
    assert(trim_end_ws(hu) == hu);
    assert(hu.drop_first() =~= u);
    assert(hex_value(u[1]) is Some && hex_value(u[2]) is Some && hex_value(u[3]) is Some && hex_value(u[4]) is Some);
}

/// The launcher's colours after the theme layers are merged, as RGBA bytes.
#[derive(Debug, Clone, Copy)]
pub struct Palette {
    pub bg: [u8; 4],
    pub fg: [u8; 4],
    pub surface: [u8; 4],
    pub surface_2: [u8; 4],
    pub surface_3: [u8; 4],
    pub border: [u8; 4],
    pub primary: [u8; 4],
    pub primary_hover: [u8; 4],
    pub accent: [u8; 4],
    pub muted_fg: [u8; 4],
    pub dmg_blue: [u8; 4],
    pub lcd_deep: [u8; 4],
    pub success: [u8; 4],
    pub warning: [u8; 4],
    pub destructive: [u8; 4],
    pub info: [u8; 4],
    pub brand_pocket_word: [u8; 4],
    pub brand_emulator_word: [u8; 4],
    pub success_bg: [u8; 4],
    pub warning_bg: [u8; 4],
    pub destructive_bg: [u8; 4],
    pub info_bg: [u8; 4],
    pub platform_bg: [u8; 4],
    pub platform_text: [u8; 4],
}

/// The colours used when no theme file overrides them.
pub open spec fn fallback_palette_spec() -> Palette {
    Palette {
        bg: [18, 18, 20, 255],
        fg: [243, 242, 247, 255],
        surface: [35, 34, 48, 255],
        surface_2: [44, 42, 57, 255],
        surface_3: [56, 54, 70, 255],
        border: [84, 79, 96, 255],
        primary: [255, 64, 129, 255],
        primary_hover: [255, 120, 168, 255],
        accent: [123, 210, 131, 255],
        muted_fg: [162, 155, 178, 255],
        dmg_blue: [45, 126, 214, 255],
        lcd_deep: [74, 170, 84, 255],
        success: [92, 210, 120, 255],
        warning: [240, 184, 52, 255],
        destructive: [231, 96, 85, 255],
        info: [64, 186, 236, 255],
        brand_pocket_word: [255, 228, 236, 255],
        brand_emulator_word: [230, 90, 150, 255],
        success_bg: [42, 74, 54, 255],
        warning_bg: [74, 58, 30, 255],
        destructive_bg: [78, 36, 38, 255],
        info_bg: [26, 56, 78, 255],
        platform_bg: [38, 50, 78, 255],
        platform_text: [146, 174, 255, 255],
    }
}

/// The colours used when no theme file overrides them.
pub fn fallback_palette() -> (r: Palette)
    ensures
        r == fallback_palette_spec(),
{
    Palette {
        bg: [18, 18, 20, 255],
        fg: [243, 242, 247, 255],
        surface: [35, 34, 48, 255],
        surface_2: [44, 42, 57, 255],
        surface_3: [56, 54, 70, 255],
        border: [84, 79, 96, 255],
        primary: [255, 64, 129, 255],
        primary_hover: [255, 120, 168, 255],
        accent: [123, 210, 131, 255],
        muted_fg: [162, 155, 178, 255],
        dmg_blue: [45, 126, 214, 255],
        lcd_deep: [74, 170, 84, 255],
        success: [92, 210, 120, 255],
        warning: [240, 184, 52, 255],
        destructive: [231, 96, 85, 255],
        info: [64, 186, 236, 255],
        brand_pocket_word: [255, 228, 236, 255],
        brand_emulator_word: [230, 90, 150, 255],
        success_bg: [42, 74, 54, 255],
        warning_bg: [74, 58, 30, 255],
        destructive_bg: [78, 36, 38, 255],
        info_bg: [26, 56, 78, 255],
        platform_bg: [38, 50, 78, 255],
        platform_text: [146, 174, 255, 255],
    }
}

/// A colour slot after a theme entry: an entry that parses replaces it (opaque), a
/// missing or malformed one leaves it.
pub open spec fn overridden(slot: [u8; 4], entry: Option<String>) -> [u8; 4] {
    match entry {
        Some(s) => match hex_rgb(s@) {
            Some(c) => [c.0, c.1, c.2, 255],
            None => slot,
        },
        None => slot,
    }
}

/// `base` with every colour the table `c` sets replaced.
pub open spec fn merged_palette(base: Palette, c: ColorsPartial) -> Palette {
    Palette {
        bg: overridden(base.bg, c.bg),
        fg: overridden(base.fg, c.fg),
        surface: overridden(base.surface, c.surface),
        surface_2: overridden(base.surface_2, c.surface_2),
        surface_3: overridden(base.surface_3, c.surface_3),
        border: overridden(base.border, c.border),
        primary: overridden(base.primary, c.primary),
        primary_hover: overridden(base.primary_hover, c.primary_hover),
        accent: overridden(base.accent, c.accent),
        muted_fg: overridden(base.muted_fg, c.muted_fg),
        dmg_blue: overridden(base.dmg_blue, c.dmg_blue),
        lcd_deep: overridden(base.lcd_deep, c.lcd_deep),
        success: overridden(base.success, c.success),
        warning: overridden(base.warning, c.warning),
        destructive: overridden(base.destructive, c.destructive),
        info: overridden(base.info, c.info),
        brand_pocket_word: overridden(base.brand_pocket_word, c.brand_pocket_word),
        brand_emulator_word: overridden(base.brand_emulator_word, c.brand_emulator_word),
        success_bg: overridden(base.success_bg, c.success_bg),
        warning_bg: overridden(base.warning_bg, c.warning_bg),
        destructive_bg: overridden(base.destructive_bg, c.destructive_bg),
        info_bg: overridden(base.info_bg, c.info_bg),
        platform_bg: overridden(base.platform_bg, c.platform_bg),
        platform_text: overridden(base.platform_text, c.platform_text),
    }
}

/// Replaces `slot` with the colour `entry` names, when it names one.
fn apply_opt_color(slot: &mut [u8; 4], entry: &Option<String>)
    ensures
        *final(slot) == overridden(*old(slot), *entry),
{
    match entry {
        Some(s) => {
            if let Some((r, g, b)) = parse_hex_rgb(s.as_str()) {
                *slot = [r, g, b, 255];
            }
        },
        None => {},
    }
}

/// Merges a theme file's colour table over `base`.
pub fn merge_palette(base: Palette, c: &ColorsPartial) -> (r: Palette)
    ensures
        r == merged_palette(base, *c),
{
    let mut p = base;
    apply_opt_color(&mut p.bg, &c.bg);
    apply_opt_color(&mut p.fg, &c.fg);
    apply_opt_color(&mut p.surface, &c.surface);
    apply_opt_color(&mut p.surface_2, &c.surface_2);
    apply_opt_color(&mut p.surface_3, &c.surface_3);
    apply_opt_color(&mut p.border, &c.border);
    apply_opt_color(&mut p.primary, &c.primary);
    apply_opt_color(&mut p.primary_hover, &c.primary_hover);
    apply_opt_color(&mut p.accent, &c.accent);
    apply_opt_color(&mut p.muted_fg, &c.muted_fg);
    apply_opt_color(&mut p.dmg_blue, &c.dmg_blue);
    apply_opt_color(&mut p.lcd_deep, &c.lcd_deep);
    apply_opt_color(&mut p.success, &c.success);
    apply_opt_color(&mut p.warning, &c.warning);
    apply_opt_color(&mut p.destructive, &c.destructive);
    apply_opt_color(&mut p.info, &c.info);
    apply_opt_color(&mut p.brand_pocket_word, &c.brand_pocket_word);
    apply_opt_color(&mut p.brand_emulator_word, &c.brand_emulator_word);
    apply_opt_color(&mut p.success_bg, &c.success_bg);
    apply_opt_color(&mut p.warning_bg, &c.warning_bg);
    apply_opt_color(&mut p.destructive_bg, &c.destructive_bg);
    apply_opt_color(&mut p.info_bg, &c.info_bg);
    apply_opt_color(&mut p.platform_bg, &c.platform_bg);
    apply_opt_color(&mut p.platform_text, &c.platform_text);
    p
}

/// The shadow colour after a theme's shadow table: a colour that parses replaces the red,
/// green and blue, and the alpha too when one is given; otherwise `base` stays.
pub open spec fn shadow_color_spec(base: [u8; 4], color: Option<String>, alpha: Option<u8>) -> [u8; 4] {
    match color {
        Some(s) => match hex_rgb(s@) {
            Some(c) => [c.0, c.1, c.2, match alpha {
                Some(a) => a,
                None => base[3],
            }],
            None => base,
        },
        None => base,
    }
}

/// Applies a theme's shadow colour and alpha (see `shadow_color_spec`).
pub fn merge_shadow_color(base: [u8; 4], color: &Option<String>, alpha: Option<u8>) -> (r: [u8; 4])
    ensures
        r == shadow_color_spec(base, *color, alpha),
{
    match color {
        Some(s) => match parse_hex_rgb(s.as_str()) {
            Some((r, g, b)) => match alpha {
                Some(a) => [r, g, b, a],
                None => [r, g, b, base[3]],
            },
            None => base,
        },
        None => base,
    }
}

} // verus!
