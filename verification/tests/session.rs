use pocketemulator::controls::{Controls, Key};
use pocketemulator::framefx::VideoFilter;
use pocketemulator::gameboy::GameBoy;
use pocketemulator::session::{
    audio_mode_from_env, autosave_from_env, choose_controls, clamp_scale, hud_status_line,
    save_summary_at, video_filter_from_env, AudioMode, HostKey, KeyAction, SaveHealth, Session,
};

fn battery_gb() -> GameBoy {
    let mut rom = vec![0u8; 0x8000];
    rom[0x100] = 0x18;
    rom[0x101] = 0xFE;
    rom[0x147] = 0x03;
    rom[0x149] = 0x02;
    GameBoy::from_rom(rom, None).expect("MBC1 with battery RAM loads")
}

fn session(autosave: bool) -> Session {
    Session::new(Controls::default(), autosave, VideoFilter::Sharp, AudioMode::Balanced)
}

#[test]
fn launch_settings_from_env() {
    assert!(autosave_from_env("1"));
    assert!(autosave_from_env("TRUE"));
    assert!(!autosave_from_env("yes"));
    assert_eq!(video_filter_from_env("Smooth"), VideoFilter::Smooth);
    assert_eq!(video_filter_from_env("blur"), VideoFilter::Sharp);
    assert_eq!(audio_mode_from_env("LOW-LATENCY"), AudioMode::LowLatency);
    assert_eq!(audio_mode_from_env("fast"), AudioMode::Balanced);
    assert_eq!(clamp_scale(0), 1);
    assert_eq!(clamp_scale(4), 4);
    assert_eq!(clamp_scale(99), 10);
    let mut mine = Controls::default();
    mine.a = Key::Q;
    assert_eq!(choose_controls(None, Some(mine)).a, Key::Q);
    assert_eq!(choose_controls(Some(Controls::default()), Some(mine)).a, Key::Z);
    assert_eq!(choose_controls(None, None).a, Key::Z);
}

#[test]
fn autosave_every_six_hundred_frames() {
    let mut gb = battery_gb();
    let mut s = session(true);
    s.frames_since_autosave = 597;
    assert!(!s.play_frame(&mut gb, &[]));
    assert!(!s.play_frame(&mut gb, &[]));
    assert!(s.play_frame(&mut gb, &[]));
    assert_eq!(s.frames_since_autosave, 0);
    let mut off = session(false);
    off.frames_since_autosave = 700;
    assert!(!off.play_frame(&mut gb, &[]));
    assert_eq!(off.frames_since_autosave, 701);
}

#[test]
fn rewind_points_every_hundred_twenty_frames_and_at_most_thirty() {
    let mut gb = battery_gb();
    let mut s = session(false);
    s.frames_since_rewind_snapshot = 118;
    s.play_frame(&mut gb, &[]);
    assert!(s.rewind_snapshots.is_empty());
    s.play_frame(&mut gb, &[]);
    assert_eq!(s.rewind_snapshots.len(), 1);
    assert_eq!(s.rewind_snapshots[0].len(), 0x2000);
    assert_eq!(s.frames_since_rewind_snapshot, 0);
    s.rewind_snapshots = (0..30).map(|i| vec![i as u8]).collect();
    s.frames_since_rewind_snapshot = 119;
    s.play_frame(&mut gb, &[]);
    assert_eq!(s.rewind_snapshots.len(), 30);
    assert_eq!(s.rewind_snapshots[0], vec![1u8]);
    assert_eq!(s.rewind_snapshots[29].len(), 0x2000);
}

#[test]
fn keys_drive_the_console_and_the_host() {
    let mut gb = battery_gb();
    let mut s = session(true);
    assert_eq!(s.key(&mut gb, HostKey::Bindable(Key::Space), true), KeyAction::Nothing);
    assert!(s.fast_forward_held);
    assert_eq!(s.frames_per_redraw(), 6);
    s.key(&mut gb, HostKey::Bindable(Key::Space), false);
    assert_eq!(s.frames_per_redraw(), 1);
    gb.bus.interrupts.if_ = 0;
    s.key(&mut gb, HostKey::Bindable(Key::Return), true);
    assert_eq!(gb.bus.joypad.buttons & 0x08, 0);
    assert_eq!(gb.bus.interrupts.if_ & 0x10, 0x10);
    assert_eq!(s.key(&mut gb, HostKey::F5, true), KeyAction::SaveRam);
    assert_eq!(s.window_title(), "PocketEmulator  |  Saved SRAM");
    assert_eq!(s.key(&mut gb, HostKey::F5, false), KeyAction::Nothing);
    assert_eq!(s.key(&mut gb, HostKey::F9, true), KeyAction::LoadRam);
    assert_eq!(s.key(&mut gb, HostKey::F7, true), KeyAction::Nothing);
    assert_eq!(s.window_title(), "PocketEmulator  |  No rewind snapshot available");
    assert_eq!(s.key(&mut gb, HostKey::Escape, true), KeyAction::OpenMenu);
    assert_eq!(s.key(&mut gb, HostKey::F12, true), KeyAction::Screenshot);
    assert_eq!(s.key(&mut gb, HostKey::Other, true), KeyAction::Nothing);
    s.key(&mut gb, HostKey::Bindable(Key::Tab), true);
    assert!(!s.hud_visible);
    assert_eq!(s.window_title(), "PocketEmulator  |  HUD hidden");
}

#[test]
fn rewind_key_restores_ram() {
    let mut gb = battery_gb();
    let mut s = session(false);
    gb.bus.write(0x0000, 0x0A);
    gb.bus.write(0xA000, 0x11);
    s.frames_since_rewind_snapshot = 119;
    s.play_frame(&mut gb, &[]);
    assert_eq!(s.rewind_snapshots.len(), 1);
    gb.bus.write(0xA000, 0x22);
    assert_eq!(s.key(&mut gb, HostKey::F7, true), KeyAction::SaveRam);
    assert_eq!(gb.bus.read(0xA000), 0x11);
    assert!(s.rewind_snapshots.is_empty());
    assert_eq!(s.window_title(), "PocketEmulator  |  Rewind snapshot restored");
}

#[test]
fn title_messages_expire() {
    let mut s = Session::new(Controls::default(), true, VideoFilter::Smooth, AudioMode::LowLatency);
    assert_eq!(s.window_title(), "PocketEmulator  |  mode: smooth | audio: low-latency");
    s.rendered_frames = 239;
    s.finish_redraw();
    assert_eq!(s.window_title(), "PocketEmulator");
    s.action_toast = Some(("x".to_string(), 10));
    assert_eq!(s.window_title(), "PocketEmulator");
    assert!(s.action_toast.is_none());
}

#[test]
fn hud_status_texts() {
    let h = SaveHealth { has_save: true, has_backup: false, last_modified_unix_secs: Some(0) };
    assert_eq!(save_summary_at(Some(h), Some(7200)), "save ok · updated 2h ago");
    let b = SaveHealth { has_save: false, has_backup: true, last_modified_unix_secs: None };
    assert_eq!(save_summary_at(Some(b), None), "backup only · updated never");
    let n = SaveHealth { has_save: false, has_backup: false, last_modified_unix_secs: None };
    assert_eq!(save_summary_at(Some(n), None), "no save yet");
    assert_eq!(save_summary_at(None, None), "save status unknown");
    assert_eq!(
        hud_status_line(AudioMode::Balanced, true, "no save yet"),
        "stereo · autosave on · no save yet"
    );
    assert_eq!(hud_status_line(AudioMode::LowLatency, false, ""), "mono · autosave off · ");
}
