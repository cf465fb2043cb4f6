//! The play session around a running game: launch settings, frames with their autosave
//! and rewind points, what each key does, and the texts shown in the window title and HUD.
//! The window, files and clock stay with the host, which asks these functions what to do.

use std::collections::VecDeque;
use vstd::prelude::*;

use crate::bus::BusState;
use crate::cartridge::CartridgeState;
use crate::cheats::{apply_cheats, cheats_written, CheatPatch};
use crate::controls::{Controls, Key};
use crate::cpu::Cpu;
use crate::framefx::VideoFilter;
use crate::gameboy::{last_step_starts_below, steps_reach, GameBoy, FRAME_T_CYCLES};
use crate::clock::system_time_secs;
use crate::host::{button_input, direction_input, set_button, set_direction, short_age_label, short_age_text};
use crate::joypad::{BTN_A, BTN_B, BTN_SELECT, BTN_START, DIR_DOWN, DIR_LEFT, DIR_RIGHT, DIR_UP};
use crate::platform::{ascii_lower, to_ascii_lower};
use crate::text::{chars_of, push_str_chars, string_from_chars};

verus! {

broadcast use vstd::std_specs::vecdeque::group_vec_dequeue_axioms;

/// How audio is paced: in step with the display, or as fast as the host asks.
#[derive(Debug, Clone, Copy, PartialEq, Eq, Structural)]
pub enum AudioMode {
    Balanced,
    LowLatency,
}

/// `s` and `t` equal up to ASCII case.
pub open spec fn eq_ascii_nocase(s: Seq<char>, t: Seq<char>) -> bool {
    s.map_values(|c: char| ascii_lower(c)) =~= t.map_values(|c: char| ascii_lower(c))
}

/// `str::eq_ignore_ascii_case`.
pub fn eq_ignore_ascii_case(s: &str, t: &str) -> (r: bool)
    ensures
        r == eq_ascii_nocase(s@, t@),
{
    let a = chars_of(s);
    let b = chars_of(t);
    if a.len() != b.len() {
        assert(s@.map_values(|c: char| ascii_lower(c)).len() != t@.map_values(|c: char| ascii_lower(c)).len());
        return false;
    }
    let mut i: usize = 0;
    while i < a.len()
        invariant
            a@ == s@,
            b@ == t@,
            a@.len() == b@.len(),
            i <= a@.len(),
            forall|k: int| 0 <= k < i ==> ascii_lower(#[trigger] a@[k]) == ascii_lower(b@[k]),
        decreases a@.len() - i,
    {
        if to_ascii_lower(a[i]) != to_ascii_lower(b[i]) {
            assert(s@.map_values(|c: char| ascii_lower(c))[i as int] != t@.map_values(|c: char| ascii_lower(c))[i as int]);
            return false;
        }
        i = i + 1;
    }
    true
}

/// The autosave switch passed in the environment: `1` or `true` (any case) turn it on.
pub open spec fn autosave_setting(v: Seq<char>) -> bool {
    v =~= seq!['1'] || eq_ascii_nocase(v, "true"@)
}

/// Reads the autosave switch passed in the environment.
pub fn autosave_from_env(v: &str) -> (r: bool)
    ensures
        r == autosave_setting(v@),
{
    let c = chars_of(v);
    let one = c.len() == 1 && c[0] == '1';
    assert(one == (v@ =~= seq!['1']));
    one || eq_ignore_ascii_case(v, "true")
}

/// The video filter passed in the environment: `smooth` (any case), else sharp.
pub open spec fn video_filter_setting(v: Seq<char>) -> VideoFilter {
    if eq_ascii_nocase(v, "smooth"@) {
        VideoFilter::Smooth
    } else {
        VideoFilter::Sharp
    }
}

/// Reads the video filter passed in the environment.
pub fn video_filter_from_env(v: &str) -> (r: VideoFilter)
    ensures
        r == video_filter_setting(v@),
{
    if eq_ignore_ascii_case(v, "smooth") {
        VideoFilter::Smooth
    } else {
        VideoFilter::Sharp
    }
}

/// The audio mode passed in the environment: `low-latency` (any case), else balanced.
pub open spec fn audio_mode_setting(v: Seq<char>) -> AudioMode {
    if eq_ascii_nocase(v, "low-latency"@) {
        AudioMode::LowLatency
    } else {
        AudioMode::Balanced
    }
}

/// Reads the audio mode passed in the environment.
pub fn audio_mode_from_env(v: &str) -> (r: AudioMode)
    ensures
        r == audio_mode_setting(v@),
{
    if eq_ignore_ascii_case(v, "low-latency") {
        AudioMode::LowLatency
    } else {
        AudioMode::Balanced
    }
}

/// The window scale kept between 1 and 10.
pub fn clamp_scale(scale: u32) -> (r: u32)
    ensures
        r == if scale < 1 {
            1
        } else if scale > 10 {
            10
        } else {
            scale
        },
{
    if scale < 1 {
        1
    } else if scale > 10 {
        10
    } else {
        scale
    }
}

/// The key bindings in force: those passed in the environment when they parse, else the
/// game's saved profile when it parses, else the defaults.
pub fn choose_controls(from_env: Option<Controls>, from_profile: Option<Controls>) -> (r: Controls)
    ensures
        r == match (from_env, from_profile) {
            (Some(c), _) => c,
            (None, Some(c)) => c,
            (None, None) => crate::controls::default_controls(),
        },
{
    match from_env {
        Some(c) => c,
        None => match from_profile {
            Some(c) => c,
            None => Controls::default(),
        },
    }
}

/// Frames between autosaves.
pub const AUTOSAVE_FRAMES: u32 = 600;
/// Frames between rewind points.
pub const REWIND_FRAMES: u32 = 120;
/// Rewind points kept, the oldest dropped first.
pub const REWIND_POINTS: usize = 30;
/// Frames a message stays in the title after an action.
pub const TOAST_FRAMES: u64 = 180;
/// Frames the HUD shown/hidden message stays in the title.
pub const HUD_TOAST_FRAMES: u64 = 120;
/// Frames the launch message stays in the title.
pub const LAUNCH_TOAST_FRAMES: u64 = 240;
/// Frames run per redraw while fast forward is held.
pub const FAST_FORWARD_FRAMES: u32 = 6;

/// The state of a play session.
pub struct Session {
    pub controls: Controls,
    pub autosave_enabled: bool,
    pub video_filter: VideoFilter,
    pub audio_mode: AudioMode,
    pub fast_forward_held: bool,
    pub frames_since_autosave: u32,
    pub frames_since_rewind_snapshot: u32,
    /// Cartridge RAM at the latest rewind points, oldest first.
    pub rewind_snapshots: VecDeque<Vec<u8>>,
    pub rendered_frames: u64,
    /// A message for the title and the frame until which it shows.
    pub action_toast: Option<(String, u64)>,
    pub hud_visible: bool,
}

/// A session as plain values.
pub struct SessionView {
    pub controls: Controls,
    pub autosave_enabled: bool,
    pub video_filter: VideoFilter,
    pub audio_mode: AudioMode,
    pub fast_forward_held: bool,
    pub frames_since_autosave: u32,
    pub frames_since_rewind_snapshot: u32,
    pub rewind_snapshots: Seq<Seq<u8>>,
    pub rendered_frames: u64,
    pub action_toast: Option<(Seq<char>, u64)>,
    pub hud_visible: bool,
}

impl View for Session {
    type V = SessionView;

    open spec fn view(&self) -> SessionView {
        SessionView {
            controls: self.controls,
            autosave_enabled: self.autosave_enabled,
            video_filter: self.video_filter,
            audio_mode: self.audio_mode,
            fast_forward_held: self.fast_forward_held,
            frames_since_autosave: self.frames_since_autosave,
            frames_since_rewind_snapshot: self.frames_since_rewind_snapshot,
            rewind_snapshots: ram_views(self.rewind_snapshots@),
            rendered_frames: self.rendered_frames,
            action_toast: match self.action_toast {
                Some(t) => Some((t.0@, t.1)),
                None => None,
            },
            hud_visible: self.hud_visible,
        }
    }
}

/// The contents of each RAM copy.
pub open spec fn ram_views(v: Seq<Vec<u8>>) -> Seq<Seq<u8>> {
    v.map_values(|x: Vec<u8>| x@)
}

/// `x + 1`, staying at the maximum.
pub open spec fn sat_inc(x: u32) -> u32 {
    if x < u32::MAX {
        (x + 1) as u32
    } else {
        x
    }
}

/// The last `REWIND_POINTS` entries of `r`.
pub open spec fn keep_recent(r: Seq<Seq<u8>>) -> Seq<Seq<u8>> {
    if r.len() > REWIND_POINTS {
        r.subrange(r.len() - REWIND_POINTS, r.len() as int)
    } else {
        r
    }
}

/// What the session keeps of the cartridge RAM: a copy when there is any.
pub open spec fn ram_of(cart: CartridgeState) -> Option<Seq<u8>> {
    if cart.ram().len() > 0 {
        Some(cart.ram())
    } else {
        None
    }
}

/// The session after one frame, with `ram` the cartridge RAM at its end: both counters
/// advance; every `REWIND_FRAMES` a rewind point is taken (when there is RAM) and the
/// counter restarts; with autosave on, every `AUTOSAVE_FRAMES` the save counter restarts.
pub open spec fn after_frame(s: SessionView, ram: Option<Seq<u8>>) -> SessionView {
    let fsa = sat_inc(s.frames_since_autosave);
    let fsr = sat_inc(s.frames_since_rewind_snapshot);
    let rewind = if fsr >= REWIND_FRAMES {
        match ram {
            Some(r) => keep_recent(s.rewind_snapshots.push(r)),
            None => s.rewind_snapshots,
        }
    } else {
        s.rewind_snapshots
    };
    SessionView {
        frames_since_autosave: if s.autosave_enabled && fsa >= AUTOSAVE_FRAMES {
            0
        } else {
            fsa
        },
        frames_since_rewind_snapshot: if fsr >= REWIND_FRAMES {
            0
        } else {
            fsr
        },
        rewind_snapshots: rewind,
        ..s
    }
}

/// Whether the frame after `s` ends with an autosave.
pub open spec fn frame_autosaves(s: SessionView) -> bool {
    s.autosave_enabled && sat_inc(s.frames_since_autosave) >= AUTOSAVE_FRAMES
}

/// Whether `(c1, b1)` is the console one frame after `(c0, b0)` with `cheats` written at
/// its end.
pub open spec fn frame_played(
    c0: Cpu,
    b0: BusState,
    cheats: Seq<CheatPatch>,
    c1: Cpu,
    b1: BusState,
) -> bool {
    exists|k: nat, total: int, mid: BusState, ts: Seq<u64>|
        #![trigger steps_reach(c0, b0, k, c1, mid, total), cheats_written(mid, cheats, ts)]
        steps_reach(c0, b0, k, c1, mid, total) && FRAME_T_CYCLES <= total < FRAME_T_CYCLES + 24
            && last_step_starts_below(c0, b0, k, c1, mid, total, FRAME_T_CYCLES as int)
            && ts.len() == cheats.len() && b1 == cheats_written(mid, cheats, ts)
}

impl Session {
    /// A session with fresh counters, no rewind points, no message and the HUD shown.
    pub fn new(
        controls: Controls,
        autosave_enabled: bool,
        video_filter: VideoFilter,
        audio_mode: AudioMode,
    ) -> (r: Self)
        ensures
            r@ == (SessionView {
                controls,
                autosave_enabled,
                video_filter,
                audio_mode,
                fast_forward_held: false,
                frames_since_autosave: 0,
                frames_since_rewind_snapshot: 0,
                rewind_snapshots: Seq::empty(),
                rendered_frames: 0,
                action_toast: None,
                hud_visible: true,
            }),
    {
        let r = Session {
            controls,
            autosave_enabled,
            video_filter,
            audio_mode,
            fast_forward_held: false,
            frames_since_autosave: 0,
            frames_since_rewind_snapshot: 0,
            rewind_snapshots: VecDeque::new(),
            rendered_frames: 0,
            action_toast: None,
            hud_visible: true,
        };
        assert(r@.rewind_snapshots =~= Seq::empty());
        r
    }

    /// Frames to run for the next redraw: six while fast forward is held, else one.
    pub fn frames_per_redraw(&self) -> (r: u32)
        ensures
            r == if self.fast_forward_held {
                FAST_FORWARD_FRAMES
            } else {
                1
            },
    {
        if self.fast_forward_held {
            FAST_FORWARD_FRAMES
        } else {
            1
        }
    }

    /// Runs one frame, writes the cheats, and keeps the counters and rewind points (see
    /// `after_frame`). Returns whether the host should write the save file now.
    pub fn play_frame(&mut self, gb: &mut GameBoy, cheats: &[CheatPatch]) -> (persist: bool)
        requires
            old(gb).wf(),
        ensures
            final(gb).wf(),
            frame_played(old(gb).cpu, old(gb).bus@, cheats@, final(gb).cpu, final(gb).bus@),
            final(self)@ == after_frame(old(self)@, ram_of(final(gb).bus@.cart)),
            persist == frame_autosaves(old(self)@),
    {
        let ghost c0 = gb.cpu;
        let ghost b0 = gb.bus@;
        gb.run_frame();
        let ghost c1 = gb.cpu;
        let ghost mid = gb.bus@;
        apply_cheats(gb, cheats);
        proof {
            let (k, total) = choose|k: nat, total: int|
                steps_reach(c0, b0, k, c1, mid, total) && FRAME_T_CYCLES <= total < FRAME_T_CYCLES + 24
                    && last_step_starts_below(c0, b0, k, c1, mid, total, FRAME_T_CYCLES as int);
            let ts = choose|ts: Seq<u64>| ts.len() == cheats@.len() && gb.bus@ == cheats_written(mid, cheats@, ts);
            assert(steps_reach(c0, b0, k, gb.cpu, mid, total) && cheats_written(mid, cheats@, ts) == gb.bus@);
        }
        let ghost s0 = self@;
        self.frames_since_autosave = if self.frames_since_autosave < u32::MAX {
            self.frames_since_autosave + 1
        } else {
            self.frames_since_autosave
        };
        self.frames_since_rewind_snapshot = if self.frames_since_rewind_snapshot < u32::MAX {
            self.frames_since_rewind_snapshot + 1
        } else {
            self.frames_since_rewind_snapshot
        };
        if self.frames_since_rewind_snapshot >= REWIND_FRAMES {
            match gb.cartridge_ram_snapshot() {
                Some(ram) => {
                    let ghost full = s0.rewind_snapshots.push(ram@);
                    let mut points: VecDeque<Vec<u8>> = VecDeque::new();
                    std::mem::swap(&mut points, &mut self.rewind_snapshots);
                    points.push_back(ram);
                    assert(ram_views(points@) =~= full);
                    assert(full.subrange(0, full.len() as int) =~= full);
                    while points.len() > REWIND_POINTS
                        invariant
                            points@.len() <= full.len(),
                            points@.len() == full.len() || points@.len() >= REWIND_POINTS,
                            ram_views(points@) =~= full.subrange(full.len() - points@.len(), full.len() as int),
                        decreases points@.len(),
                    {
                        let ghost before = points@;
                        let _ = points.pop_front();
                        let ghost n = before.len();
                        assert forall|i: int| 0 <= i < n - 1 implies ram_views(points@)[i] == full.subrange(
                            full.len() - (n - 1),
                            full.len() as int,
                        )[i] by {
                            assert(points@[i] == before[i + 1]);
                            assert(ram_views(before)[i + 1] == full.subrange(full.len() - n, full.len() as int)[i
                                + 1]);
                        }
                        assert(ram_views(points@) =~= full.subrange(full.len() - points@.len(), full.len() as int));
                    }
                    assert(ram_views(points@) =~= keep_recent(full));
                    self.rewind_snapshots = points;
                },
                None => {},
            }
            self.frames_since_rewind_snapshot = 0;
        }
        let persist = self.autosave_enabled && self.frames_since_autosave >= AUTOSAVE_FRAMES;
        if persist {
            self.frames_since_autosave = 0;
        }
        assert(self@ == after_frame(s0, ram_of(gb.bus@.cart)));
        persist
    }

    /// Counts a drawn frame.
    pub fn finish_redraw(&mut self)
        ensures
            final(self)@ == (SessionView {
                rendered_frames: if old(self).rendered_frames < u64::MAX {
                    (old(self).rendered_frames + 1) as u64
                } else {
                    old(self).rendered_frames
                },
                ..old(self)@
            }),
    {
        if self.rendered_frames < u64::MAX {
            self.rendered_frames = self.rendered_frames + 1;
        }
    }
}

/// What a bound key controls.
#[derive(Debug, Clone, Copy, PartialEq, Eq, Structural)]
pub enum Binding {
    FastForward,
    Button(u8),
    Direction(u8),
}

/// The control `k` is bound to, bindings tried in the order fast forward, A, B, Start,
/// Select, Up, Down, Left, Right.
pub open spec fn binding_of(c: Controls, k: Key) -> Option<Binding> {
    if k == c.fast_forward {
        Some(Binding::FastForward)
    } else if k == c.a {
        Some(Binding::Button(BTN_A))
    } else if k == c.b {
        Some(Binding::Button(BTN_B))
    } else if k == c.start {
        Some(Binding::Button(BTN_START))
    } else if k == c.select {
        Some(Binding::Button(BTN_SELECT))
    } else if k == c.up {
        Some(Binding::Direction(DIR_UP))
    } else if k == c.down {
        Some(Binding::Direction(DIR_DOWN))
    } else if k == c.left {
        Some(Binding::Direction(DIR_LEFT))
    } else if k == c.right {
        Some(Binding::Direction(DIR_RIGHT))
    } else {
        None
    }
}

/// The control a key is bound to (see `binding_of`).
pub fn binding_for(c: &Controls, k: Key) -> (r: Option<Binding>)
    ensures
        r == binding_of(*c, k),
{
    if k == c.fast_forward {
        Some(Binding::FastForward)
    } else if k == c.a {
        Some(Binding::Button(BTN_A))
    } else if k == c.b {
        Some(Binding::Button(BTN_B))
    } else if k == c.start {
        Some(Binding::Button(BTN_START))
    } else if k == c.select {
        Some(Binding::Button(BTN_SELECT))
    } else if k == c.up {
        Some(Binding::Direction(DIR_UP))
    } else if k == c.down {
        Some(Binding::Direction(DIR_DOWN))
    } else if k == c.left {
        Some(Binding::Direction(DIR_LEFT))
    } else if k == c.right {
        Some(Binding::Direction(DIR_RIGHT))
    } else {
        None
    }
}

/// A key of the game window: one that can be bound, a function key with a fixed meaning,
/// or any other.
#[derive(Debug, Clone, Copy, PartialEq, Eq, Structural)]
pub enum HostKey {
    Bindable(Key),
    F2,
    F5,
    F6,
    F7,
    F9,
    F12,
    Escape,
    Other,
}

/// What the host does after a key: nothing, write or read the save file, open the save
/// folder, pick another ROM, save a screenshot, or write the save and go back to the menu.
#[derive(Debug, Clone, Copy, PartialEq, Eq, Structural)]
pub enum KeyAction {
    Nothing,
    SaveRam,
    LoadRam,
    OpenSaveFolder,
    PickRom,
    Screenshot,
    OpenMenu,
}

/// `s` showing `msg` for `frames` more frames.
pub open spec fn with_toast(s: SessionView, msg: Seq<char>, frames: u64) -> SessionView {
    SessionView { action_toast: Some((msg, s.rendered_frames.wrapping_add(frames))), ..s }
}

/// The session after `key` goes down (`pressed`) or up. Bound keys act on the game or the
/// fast forward switch; F5, F9, F7, F12 and an unbound Tab act when pressed and leave a
/// message; F7 also drops the latest rewind point.
pub open spec fn key_session(s: SessionView, key: HostKey, pressed: bool) -> SessionView {
    match key {
        HostKey::Bindable(k) => match binding_of(s.controls, k) {
            Some(Binding::FastForward) => SessionView { fast_forward_held: pressed, ..s },
            Some(_) => s,
            None => if k == Key::Tab && pressed {
                let shown = !s.hud_visible;
                with_toast(
                    SessionView { hud_visible: shown, ..s },
                    if shown {
                        "HUD shown"@
                    } else {
                        "HUD hidden"@
                    },
                    HUD_TOAST_FRAMES,
                )
            } else {
                s
            },
        },
        HostKey::F5 => if pressed {
            with_toast(s, "Saved SRAM"@, TOAST_FRAMES)
        } else {
            s
        },
        HostKey::F9 => if pressed {
            with_toast(s, "Loaded SRAM"@, TOAST_FRAMES)
        } else {
            s
        },
        HostKey::F7 => if !pressed {
            s
        } else if s.rewind_snapshots.len() > 0 {
            with_toast(
                SessionView { rewind_snapshots: s.rewind_snapshots.drop_last(), ..s },
                "Rewind snapshot restored"@,
                TOAST_FRAMES,
            )
        } else {
            with_toast(s, "No rewind snapshot available"@, TOAST_FRAMES)
        },
        HostKey::F12 => if pressed {
            with_toast(s, "Screenshot saved"@, TOAST_FRAMES)
        } else {
            s
        },
        _ => s,
    }
}

/// What the host does after `key` (see `KeyAction`).
pub open spec fn key_action(s: SessionView, key: HostKey, pressed: bool) -> KeyAction {
    if !pressed {
        KeyAction::Nothing
    } else {
        match key {
            HostKey::F5 => KeyAction::SaveRam,
            HostKey::F9 => KeyAction::LoadRam,
            HostKey::F7 => if s.rewind_snapshots.len() > 0 {
                KeyAction::SaveRam
            } else {
                KeyAction::Nothing
            },
            HostKey::F6 => KeyAction::OpenSaveFolder,
            HostKey::F2 => KeyAction::PickRom,
            HostKey::F12 => KeyAction::Screenshot,
            HostKey::Escape => KeyAction::OpenMenu,
            _ => KeyAction::Nothing,
        }
    }
}

/// The console's bus after `key`: a bound button or direction changes the joypad, F7 puts
/// back the RAM of the latest rewind point.
pub open spec fn key_bus(s: SessionView, b: BusState, key: HostKey, pressed: bool) -> BusState {
    match key {
        HostKey::Bindable(k) => match binding_of(s.controls, k) {
            Some(Binding::Button(m)) => button_input(b, m, pressed),
            Some(Binding::Direction(m)) => direction_input(b, m, pressed),
            _ => b,
        },
        HostKey::F7 => if pressed && s.rewind_snapshots.len() > 0 {
            BusState { cart: b.cart.load_ram(s.rewind_snapshots.last()), ..b }
        } else {
            b
        },
        _ => b,
    }
}

impl Session {
    fn show_toast(&mut self, msg: &str, frames: u64)
        ensures
            final(self)@ == with_toast(old(self)@, msg@, frames),
    {
        let until = self.rendered_frames.wrapping_add(frames);
        self.action_toast = Some((msg.to_owned(), until));
    }

    /// Handles a key going down (`pressed`) or up: the session changes as `key_session`
    /// says, the console as `key_bus` says, and the host then does `key_action`.
    pub fn key(&mut self, gb: &mut GameBoy, key: HostKey, pressed: bool) -> (r: KeyAction)
        requires
            old(gb).wf(),
        ensures
            final(gb).wf(),
            final(gb).cpu == old(gb).cpu,
            final(gb).bus@ == key_bus(old(self)@, old(gb).bus@, key, pressed),
            final(self)@ == key_session(old(self)@, key, pressed),
            r == key_action(old(self)@, key, pressed),
    {
        match key {
            HostKey::Bindable(k) => {
                match binding_for(&self.controls, k) {
                    Some(Binding::FastForward) => {
                        self.fast_forward_held = pressed;
                    },
                    Some(Binding::Button(m)) => {
                        set_button(pressed, gb, m);
                    },
                    Some(Binding::Direction(m)) => {
                        set_direction(pressed, gb, m);
                    },
                    None => {
                        if k == Key::Tab && pressed {
                            self.hud_visible = !self.hud_visible;
                            if self.hud_visible {
                                self.show_toast("HUD shown", HUD_TOAST_FRAMES);
                            } else {
                                self.show_toast("HUD hidden", HUD_TOAST_FRAMES);
                            }
                        }
                    },
                }
                KeyAction::Nothing
            },
            HostKey::F5 => {
                if pressed {
                    self.show_toast("Saved SRAM", TOAST_FRAMES);
                    KeyAction::SaveRam
                } else {
                    KeyAction::Nothing
                }
            },
            HostKey::F9 => {
                if pressed {
                    self.show_toast("Loaded SRAM", TOAST_FRAMES);
                    KeyAction::LoadRam
                } else {
                    KeyAction::Nothing
                }
            },
            HostKey::F7 => {
                if !pressed {
                    return KeyAction::Nothing;
                }
                let ghost s0 = self@;
                match self.rewind_snapshots.pop_back() {
                    Some(snapshot) => {
                        proof {
                            assert(ram_views(self.rewind_snapshots@) =~= s0.rewind_snapshots.drop_last());
                        }
                        gb.load_cartridge_ram_snapshot(snapshot.as_slice());
                        self.show_toast("Rewind snapshot restored", TOAST_FRAMES);
                        KeyAction::SaveRam
                    },
                    None => {
                        self.show_toast("No rewind snapshot available", TOAST_FRAMES);
                        KeyAction::Nothing
                    },
                }
            },
            HostKey::F6 => {
                if pressed {
                    KeyAction::OpenSaveFolder
                } else {
                    KeyAction::Nothing
                }
            },
            HostKey::F2 => {
                if pressed {
                    KeyAction::PickRom
                } else {
                    KeyAction::Nothing
                }
            },
            HostKey::F12 => {
                if pressed {
                    self.show_toast("Screenshot saved", TOAST_FRAMES);
                    KeyAction::Screenshot
                } else {
                    KeyAction::Nothing
                }
            },
            HostKey::Escape => {
                if pressed {
                    KeyAction::OpenMenu
                } else {
                    KeyAction::Nothing
                }
            },
            HostKey::Other => KeyAction::Nothing,
        }
    }
}

/// A frame that takes a rewind point, followed by F7, puts back exactly the cartridge RAM
/// that point saved, and leaves the earlier points as they were.
pub proof fn lemma_rewind_restores_latest_point(s: SessionView, ram: Seq<u8>, b: BusState)
    requires
        sat_inc(s.frames_since_rewind_snapshot) >= REWIND_FRAMES,
        s.rewind_snapshots.len() < REWIND_POINTS,
    ensures
        key_bus(after_frame(s, Some(ram)), b, HostKey::F7, true) == (BusState {
            cart: b.cart.load_ram(ram),
            ..b
        }),
        key_session(after_frame(s, Some(ram)), HostKey::F7, true).rewind_snapshots
            == s.rewind_snapshots,
        key_action(after_frame(s, Some(ram)), HostKey::F7, true) == KeyAction::SaveRam,
{
    let t = after_frame(s, Some(ram));
    assert(t.rewind_snapshots == s.rewind_snapshots.push(ram));
    assert(t.rewind_snapshots.drop_last() =~= s.rewind_snapshots);
}

/// Name of the game window.
pub const BASE_TITLE: &'static str = "PocketEmulator";

/// The message shown while a game starts: the video filter and the audio mode.
pub open spec fn launch_toast_text(vf: VideoFilter, am: AudioMode) -> Seq<char> {
    "mode: "@ + (match vf {
        VideoFilter::Sharp => "sharp"@,
        VideoFilter::Smooth => "smooth"@,
    }) + " | audio: "@ + (match am {
        AudioMode::Balanced => "balanced"@,
        AudioMode::LowLatency => "low-latency"@,
    })
}

/// The message in the title now: an action message until its frame, else the launch
/// message during the first `LAUNCH_TOAST_FRAMES` frames.
pub open spec fn title_message(s: SessionView) -> Option<Seq<char>> {
    match s.action_toast {
        Some(t) => if s.rendered_frames < t.1 {
            Some(t.0)
        } else {
            None
        },
        None => if s.rendered_frames < LAUNCH_TOAST_FRAMES {
            Some(launch_toast_text(s.video_filter, s.audio_mode))
        } else {
            None
        },
    }
}

/// The session after the title is shown: an expired action message is dropped.
pub open spec fn after_title(s: SessionView) -> SessionView {
    match s.action_toast {
        Some(t) => if s.rendered_frames < t.1 {
            s
        } else {
            SessionView { action_toast: None, ..s }
        },
        None => s,
    }
}

/// A save file's state as the host found it on disk.
#[derive(Debug, Clone, Copy)]
pub struct SaveHealth {
    pub has_save: bool,
    pub has_backup: bool,
    pub last_modified_unix_secs: Option<u64>,
}

/// The save part of the HUD status line, with `now` the clock reading.
pub open spec fn save_summary_label(h: Option<SaveHealth>, now: Option<u64>) -> Seq<char> {
    match h {
        None => "save status unknown"@,
        Some(h) => {
            let suffix = match h.last_modified_unix_secs {
                Some(t) => short_age_label(t, now),
                None => "never"@,
            };
            if h.has_save {
                "save ok · updated "@ + suffix
            } else if h.has_backup {
                "backup only · updated "@ + suffix
            } else {
                "no save yet"@
            }
        },
    }
}

/// Whether a save time leaves room for the one-minute "just now" window.
pub open spec fn save_time_ok(h: Option<SaveHealth>) -> bool {
    h matches Some(x) ==> (x.last_modified_unix_secs matches Some(t) ==> t + 60 <= u64::MAX)
}

/// The HUD status line: speaker layout, the autosave switch and the save summary.
pub open spec fn status_line_label(am: AudioMode, autosave: bool, summary: Seq<char>) -> Seq<char> {
    (match am {
        AudioMode::Balanced => "stereo"@,
        AudioMode::LowLatency => "mono"@,
    }) + " · autosave "@ + (if autosave {
        "on"@
    } else {
        "off"@
    }) + " · "@ + summary
}

/// The save summary of the HUD for the clock reading `now` (see `save_summary_label`).
pub fn save_summary_at(h: Option<SaveHealth>, now: Option<u64>) -> (r: String)
    requires
        save_time_ok(h),
    ensures
        r@ == save_summary_label(h, now),
{
    match h {
        None => "save status unknown".to_owned(),
        Some(h) => {
            let mut out: Vec<char> = Vec::new();
            if h.has_save {
                push_str_chars(&mut out, "save ok · updated ");
            } else if h.has_backup {
                push_str_chars(&mut out, "backup only · updated ");
            } else {
                return "no save yet".to_owned();
            }
            match h.last_modified_unix_secs {
                Some(t) => {
                    let age = short_age_text(t, now);
                    push_str_chars(&mut out, age.as_str());
                },
                None => push_str_chars(&mut out, "never"),
            }
            string_from_chars(out.as_slice())
        },
    }
}

/// The save summary of the HUD against the system clock, read only when the save has a
/// time.
pub fn save_summary(h: Option<SaveHealth>) -> (r: String)
    requires
        save_time_ok(h),
    ensures
        exists|now: Option<u64>| r@ == save_summary_label(h, now),
{
    let needs_clock = match h {
        Some(x) => x.last_modified_unix_secs.is_some(),
        None => false,
    };
    let now = if needs_clock {
        system_time_secs()
    } else {
        None
    };
    save_summary_at(h, now)
}

/// The HUD status line (see `status_line_label`).
pub fn hud_status_line(am: AudioMode, autosave: bool, summary: &str) -> (r: String)
    ensures
        r@ == status_line_label(am, autosave, summary@),
{
    let mut out: Vec<char> = Vec::new();
    match am {
        AudioMode::Balanced => push_str_chars(&mut out, "stereo"),
        AudioMode::LowLatency => push_str_chars(&mut out, "mono"),
    }
    push_str_chars(&mut out, " · autosave ");
    if autosave {
        push_str_chars(&mut out, "on");
    } else {
        push_str_chars(&mut out, "off");
    }
    push_str_chars(&mut out, " · ");
    push_str_chars(&mut out, summary);
    string_from_chars(out.as_slice())
}

impl Session {
    /// The window title now (`PocketEmulator`, with `  |  ` and the message of
    /// `title_message` when there is one); an expired action message is dropped.
    pub fn window_title(&mut self) -> (r: String)
        ensures
            r@ == match title_message(old(self)@) {
                Some(m) => BASE_TITLE@ + "  |  "@ + m,
                None => BASE_TITLE@,
            },
            final(self)@ == after_title(old(self)@),
    {
        let mut message: Option<Vec<char>> = None;
        match &self.action_toast {
            Some(t) => {
                if self.rendered_frames < t.1 {
                    message = Some(chars_of(t.0.as_str()));
                }
            },
            None => {
                if self.rendered_frames < LAUNCH_TOAST_FRAMES {
                    let mut m: Vec<char> = Vec::new();
                    push_str_chars(&mut m, "mode: ");
                    match self.video_filter {
                        VideoFilter::Sharp => push_str_chars(&mut m, "sharp"),
                        VideoFilter::Smooth => push_str_chars(&mut m, "smooth"),
                    }
                    push_str_chars(&mut m, " | audio: ");
                    match self.audio_mode {
                        AudioMode::Balanced => push_str_chars(&mut m, "balanced"),
                        AudioMode::LowLatency => push_str_chars(&mut m, "low-latency"),
                    }
                    message = Some(m);
                }
            },
        }
        if message.is_none() && self.action_toast.is_some() {
            self.action_toast = None;
        }
        let mut out: Vec<char> = Vec::new();
        push_str_chars(&mut out, BASE_TITLE);
        match message {
            Some(m) => {
                push_str_chars(&mut out, "  |  ");
                let mut i: usize = 0;
                let ghost base = out@;
                while i < m.len()
                    invariant
                        i <= m@.len(),
                        out@ == base + m@.subrange(0, i as int),
                    decreases m@.len() - i,
                {
                    out.push(m[i]);
                    i = i + 1;
                    assert(m@.subrange(0, i as int) =~= m@.subrange(0, i - 1).push(m@[i - 1]));
                }
                assert(m@.subrange(0, m@.len() as int) =~= m@);
            },
            None => {},
        }
        string_from_chars(out.as_slice())
    }
}

} // verus!
