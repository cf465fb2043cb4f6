use pocketemulator::cheats::{apply_cheats, parse_cheats, CheatPatch};
use pocketemulator::controls::{Controls, Key};
use pocketemulator::framefx::{copy_frame_sized, VideoFilter};
use pocketemulator::gameboy::GameBoy;
use pocketemulator::host::{ppm_bytes, short_age_text};
use pocketemulator::hud::{
    clear_hud_strip, draw_controls_hud, framebuffer_height, CLEAR_BG, SHELL_BG, SHELL_BORDER,
};
use pocketemulator::launcher::{
    age_text, display_game_name, header_copy, key_label, rom_extension_platform_label,
    save_status_at, LauncherTab,
};
use pocketemulator::session::SaveHealth;
use pocketemulator::platform::{classify_rom, rom_extension_ok, rom_launch_check, RomTarget};
use pocketemulator::regression::{case_verdict, contains_chars, framebuffer_hash};

fn chars(s: &str) -> Vec<char> {
    s.chars().collect()
}

#[test]
fn default_controls_text_form() {
    let c = Controls::default();
    assert_eq!(c.to_env_string(), "z,x,return,lshift,up,down,left,right,space");
}

#[test]
fn controls_text_round_trip() {
    let mut c = Controls::default();
    c.a = Key::A;
    c.fast_forward = Key::Tab;
    let s = c.to_env_string();
    assert_eq!(s, "a,x,return,lshift,up,down,left,right,tab");
    let back = Controls::from_env_string(&s).expect("parses");
    assert_eq!(back.a, Key::A);
    assert_eq!(back.b, Key::X);
    assert_eq!(back.start, Key::Return);
    assert_eq!(back.select, Key::LShift);
    assert_eq!(back.up, Key::Up);
    assert_eq!(back.down, Key::Down);
    assert_eq!(back.left, Key::Left);
    assert_eq!(back.right, Key::Right);
    assert_eq!(back.fast_forward, Key::Tab);
}

#[test]
fn controls_text_errors() {
    assert!(Controls::from_env_string("z,x,return").is_none());
    assert!(Controls::from_env_string("z,x,enter,lshift,up,down,left,right,space").is_none());
    assert!(Controls::from_env_string("").is_none());
    let extra = Controls::from_env_string("z,x,return,lshift,up,down,left,right,space,q");
    assert_eq!(extra.expect("extra names are ignored").fast_forward, Key::Space);
}

#[test]
fn cheat_lines() {
    let cheats = parse_cheats("# comment\nC000:12\n  +c001 : 0F \nbad\nFFFFF:00\n\nD000:100\n");
    assert_eq!(cheats.len(), 2);
    assert_eq!((cheats[0].addr, cheats[0].value), (0xC000, 0x12));
    assert_eq!((cheats[1].addr, cheats[1].value), (0xC001, 0x0F));
    assert!(parse_cheats("").is_empty());
}

#[test]
fn cheats_write_memory() {
    let mut gb = GameBoy::from_rom(vec![0u8; 0x8000], None).expect("loads");
    apply_cheats(
        &mut gb,
        &[CheatPatch { addr: 0xC010, value: 0x99 }, CheatPatch { addr: 0xFF80, value: 0x42 }],
    );
    assert_eq!(gb.bus.read(0xC010), 0x99);
    assert_eq!(gb.bus.read(0xFF80), 0x42);
}

#[test]
fn fnv1a_hash_values() {
    assert_eq!(framebuffer_hash(&[]), 0xcbf29ce484222325);
    assert_eq!(framebuffer_hash(&[0x61]), 0xaf63dc4c8601ec8c);
    assert_eq!(framebuffer_hash(b"foobar"), 0x85944171f73967e8);
}

#[test]
fn serial_text_search_and_verdict() {
    let hay = chars("Blargg: Passed all tests");
    assert!(contains_chars(&hay, &chars("Passed")));
    assert!(contains_chars(&hay, &chars("")));
    assert!(!contains_chars(&hay, &chars("Failed")));
    assert!(!contains_chars(&chars("ab"), &chars("abc")));
    let needle = chars("Passed");
    assert_eq!(case_verdict(&hay, Some(&needle), 5, Some(5)), (true, true));
    assert_eq!(case_verdict(&hay, Some(&chars("x")), 5, Some(6)), (false, false));
    assert_eq!(case_verdict(&hay, None, 5, None), (true, true));
}

#[test]
fn screenshot_bytes() {
    let rgba = [1u8, 2, 3, 4, 5, 6, 7, 8];
    let mut expected = b"P6\n2 1\n255\n".to_vec();
    expected.extend_from_slice(&[1, 2, 3, 5, 6, 7]);
    assert_eq!(ppm_bytes(&rgba, 2, 1), expected);
    assert_eq!(ppm_bytes(&[], 0, 0), b"P6\n0 0\n255\n".to_vec());
}

#[test]
fn short_age_labels() {
    assert_eq!(short_age_text(1000, None), "unknown");
    assert_eq!(short_age_text(1000, Some(1060)), "just now");
    assert_eq!(short_age_text(1000, Some(500)), "just now");
    assert_eq!(short_age_text(0, Some(59 * 60 + 30)), "59m ago");
    assert_eq!(short_age_text(0, Some(2 * 3600 + 5)), "2h ago");
    assert_eq!(short_age_text(0, Some(3 * 86_400)), "3d ago");
}

#[test]
fn launcher_age_labels() {
    assert_eq!(age_text(None, Some(10)), "unknown");
    assert_eq!(age_text(Some(10), None), "unknown");
    assert_eq!(age_text(Some(100), Some(160)), "just now");
    assert_eq!(age_text(Some(0), Some(61)), "1 min ago");
    assert_eq!(age_text(Some(0), Some(7200)), "2 h ago");
    assert_eq!(age_text(Some(0), Some(86_400 * 29)), "29 d ago");
    assert_eq!(age_text(Some(0), Some(86_400 * 30)), "a while ago");
}

#[test]
fn launcher_headers_and_badges() {
    assert_eq!(header_copy(LauncherTab::MyGames), ("My Games", "Your library, ready to play"));
    assert_eq!(header_copy(LauncherTab::Settings).0, "Settings");
    assert_eq!(rom_extension_platform_label("gbc"), "GBC");
    assert_eq!(rom_extension_platform_label("gb"), "GB");
    assert_eq!(rom_extension_platform_label("GBC"), "GB");
}

#[test]
fn game_display_names() {
    assert_eq!(display_game_name(Some("Super_Game-0123456789ab"), 40), "Super Game");
    assert_eq!(display_game_name(Some("Super_Game-0123456789ag"), 40), "Super Game-0123456789ag");
    assert_eq!(display_game_name(Some("-0123456789ab"), 40), "-0123456789ab");
    assert_eq!(display_game_name(None, 40), "Game");
    assert_eq!(display_game_name(Some("Pokemon_Red"), 5), "Poke…");
    assert_eq!(display_game_name(Some("Tetris"), 0), "…");
}

#[test]
fn rom_classification_and_launch_check() {
    let mut prefix = vec![0u8; 0x150];
    assert_eq!(classify_rom(&prefix), RomTarget::DmgCompatible);
    prefix[0x143] = 0xC0;
    assert_eq!(classify_rom(&prefix), RomTarget::GbcRequired);
    assert_eq!(classify_rom(&prefix[..0x14F]), RomTarget::DmgCompatible);
    assert!(rom_extension_ok("GBC"));
    assert!(!rom_extension_ok("gba"));
    assert_eq!(rom_launch_check("gb", &prefix), Ok(()));
    assert_eq!(
        rom_launch_check("ZIP", &prefix),
        Err("Unsupported ROM format: .zip (supported extensions: .gb, .gbc)".to_string())
    );
    assert_eq!(
        rom_launch_check("", &prefix),
        Err("Unsupported ROM format: .<none> (supported extensions: .gb, .gbc)".to_string())
    );
}

#[test]
fn smooth_filter_averages_neighbours() {
    let src = [2u8, 2, 2, 2, 6, 6, 6, 6];
    let mut dst = [0u8; 8];
    let mut scratch = [0u8; 8];
    copy_frame_sized(&src, &mut dst, &mut scratch, VideoFilter::Smooth, 2);
    assert_eq!(dst, [4, 4, 4, 4, 6, 6, 6, 6]);
    assert_eq!(scratch, dst);
    let mut sharp = [0u8; 8];
    copy_frame_sized(&src, &mut sharp, &mut scratch, VideoFilter::Sharp, 2);
    assert_eq!(sharp, src);
}

#[test]
fn hud_strip_geometry() {
    assert_eq!(framebuffer_height(), 196);
    let (w, h, game_h) = (8usize, 4usize, 2usize);
    let mut frame = vec![7u8; w * h * 4];
    clear_hud_strip(&mut frame, w, h, game_h);
    assert!(frame[..w * game_h * 4].iter().all(|&b| b == 7));
    assert_eq!(frame[w * game_h * 4..w * game_h * 4 + 4], CLEAR_BG);
    assert_eq!(frame[(w * h - 1) * 4..], CLEAR_BG);
}

#[test]
fn controls_hud_frame_and_background() {
    let (w, h, game_h) = (160usize, 196usize, 144usize);
    let mut frame = vec![0u8; w * h * 4];
    draw_controls_hud(&mut frame, w, h, game_h, false, 0, true, "");
    let px = |x: usize, y: usize| -> [u8; 4] {
        let i = (y * w + x) * 4;
        [frame[i], frame[i + 1], frame[i + 2], frame[i + 3]]
    };
    assert_eq!(px(0, 144), SHELL_BORDER);
    assert_eq!(px(0, 150), SHELL_BG);
    assert_eq!(px(0, 0), [0, 0, 0, 0]);
}

#[test]
fn launcher_key_labels_and_save_lines() {
    assert_eq!(key_label(Key::Return), "Enter");
    assert_eq!(key_label(Key::Back), "Backspace");
    assert_eq!(key_label(Key::LShift), "Left Shift");
    let saved = SaveHealth { has_save: true, has_backup: true, last_modified_unix_secs: Some(0) };
    assert_eq!(save_status_at(saved, Some(120)), "Save data on disk · last write 2 min ago");
    let backup = SaveHealth { has_save: false, has_backup: true, last_modified_unix_secs: None };
    assert_eq!(
        save_status_at(backup, None),
        "Backup only (main save missing) · last touched never"
    );
    let none = SaveHealth { has_save: false, has_backup: false, last_modified_unix_secs: None };
    assert_eq!(save_status_at(none, None), "No .sav file yet — new game progress");
}
