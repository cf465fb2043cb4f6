use pocketemulator::theme::{
    fallback_palette, merge_palette, merge_shadow_color, parse_hex_rgb, ColorsPartial,
};

#[test]
fn parse_hex_accepts_hash_prefix() {
    assert_eq!(parse_hex_rgb("#ff4081"), Some((255, 64, 129)));
    assert_eq!(parse_hex_rgb("121214"), Some((18, 18, 20)));
}

#[test]
fn parse_hex_trims_white_space() {
    assert_eq!(parse_hex_rgb("  #0A0b0C \n"), Some((10, 11, 12)));
}

#[test]
fn parse_hex_rejects_signs_and_non_ascii() {
    assert_eq!(parse_hex_rgb("+f+1+0"), None);
    assert_eq!(parse_hex_rgb("+f+f+f"), None);
    assert_eq!(parse_hex_rgb("aébcd"), None);
    assert_eq!(parse_hex_rgb("ééé"), None);
}

#[test]
fn parse_hex_rejects_bad_input() {
    assert_eq!(parse_hex_rgb("#ff40"), None);
    assert_eq!(parse_hex_rgb("#ff40811"), None);
    assert_eq!(parse_hex_rgb("gg0000"), None);
    assert_eq!(parse_hex_rgb("##ff4081"), None);
    assert_eq!(parse_hex_rgb("-10000"), None);
    assert_eq!(parse_hex_rgb(""), None);
}

#[test]
fn colors_default_overrides_nothing() {
    let c = ColorsPartial::default();
    assert!(c.bg.is_none() && c.fg.is_none() && c.platform_text.is_none());
}

#[test]
fn palette_merges_valid_entries_only() {
    let base = fallback_palette();
    assert_eq!(base.bg, [18, 18, 20, 255]);
    assert_eq!(base.platform_text, [146, 174, 255, 255]);
    let mut c = ColorsPartial::default();
    c.bg = Some("#010203".to_string());
    c.fg = Some("not a colour".to_string());
    c.info_bg = Some(" 0a0B0c ".to_string());
    let p = merge_palette(base, &c);
    assert_eq!(p.bg, [1, 2, 3, 255]);
    assert_eq!(p.fg, base.fg);
    assert_eq!(p.info_bg, [10, 11, 12, 255]);
    assert_eq!(p.primary, base.primary);
}

#[test]
fn shadow_colour_and_alpha() {
    let base = [10, 10, 20, 90];
    assert_eq!(merge_shadow_color(base, &Some("#ffffff".to_string()), Some(7)), [255, 255, 255, 7]);
    assert_eq!(merge_shadow_color(base, &Some("#ffffff".to_string()), None), [255, 255, 255, 90]);
    assert_eq!(merge_shadow_color(base, &Some("bad".to_string()), Some(7)), base);
    assert_eq!(merge_shadow_color(base, &None, Some(7)), base);
}
