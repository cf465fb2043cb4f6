//! Glue between the window and the console: key presses, screenshots and "last played"
//! labels.

use vstd::prelude::*;

use crate::bus::BusState;
use crate::clock::system_time_secs;
use crate::gameboy::GameBoy;
use crate::interrupts::{Interrupts, JOYPAD};
use crate::joypad::Joypad;
use crate::text::{decimal, push_decimal, push_str_chars, string_from_chars};

verus! {

/// The bus after the buttons in `btn` are pressed (`pressed`) or released: JOYP's button
/// lines go low when pressed, and pressing a released button requests the joypad interrupt.
pub open spec fn button_input(b: BusState, btn: u8, pressed: bool) -> BusState {
    if pressed {
        BusState {
            joypad: Joypad { buttons: b.joypad.buttons & !btn, ..b.joypad },
            interrupts: Interrupts {
                if_: if b.joypad.buttons & !btn != b.joypad.buttons {
                    b.interrupts.if_ | JOYPAD
                } else {
                    b.interrupts.if_
                },
                ..b.interrupts
            },
            ..b
        }
    } else {
        BusState { joypad: Joypad { buttons: b.joypad.buttons | btn, ..b.joypad }, ..b }
    }
}

/// The bus after the directions in `dir` are pressed (`pressed`) or released, as for
/// buttons.
pub open spec fn direction_input(b: BusState, dir: u8, pressed: bool) -> BusState {
    if pressed {
        BusState {
            joypad: Joypad { directions: b.joypad.directions & !dir, ..b.joypad },
            interrupts: Interrupts {
                if_: if b.joypad.directions & !dir != b.joypad.directions {
                    b.interrupts.if_ | JOYPAD
                } else {
                    b.interrupts.if_
                },
                ..b.interrupts
            },
            ..b
        }
    } else {
        BusState { joypad: Joypad { directions: b.joypad.directions | dir, ..b.joypad }, ..b }
    }
}

/// Presses (`pressed`) or releases the buttons in `btn` (see `button_input`).
pub fn set_button(pressed: bool, gb: &mut GameBoy, btn: u8)
    requires
        old(gb).wf(),
    ensures
        final(gb).wf(),
        final(gb).cpu == old(gb).cpu,
        final(gb).bus@ == button_input(old(gb).bus@, btn, pressed),
{
    if pressed {
        gb.bus.joypad.set_button_down(btn, &mut gb.bus.interrupts.if_);
    } else {
        gb.bus.joypad.set_button_up(btn);
    }
}

/// Presses (`pressed`) or releases the directions in `dir` (see `direction_input`).
pub fn set_direction(pressed: bool, gb: &mut GameBoy, dir: u8)
    requires
        old(gb).wf(),
    ensures
        final(gb).wf(),
        final(gb).cpu == old(gb).cpu,
        final(gb).bus@ == direction_input(old(gb).bus@, dir, pressed),
{
    if pressed {
        gb.bus.joypad.set_direction_down(dir, &mut gb.bus.interrupts.if_);
    } else {
        gb.bus.joypad.set_direction_up(dir);
    }
}

/// How long ago `last_played` was, seen at `now` (both in seconds since the epoch):
/// "just now" within a minute, then whole minutes, hours or days; "unknown" without a clock.
pub open spec fn short_age_label(last_played: u64, now: Option<u64>) -> Seq<char> {
    match now {
        None => "unknown"@,
        Some(t) => if t <= last_played + 60 {
            "just now"@
        } else {
            let delta = t - last_played;
            if delta < 3600 {
                decimal((delta / 60) as nat) + "m ago"@
            } else if delta < 86400 {
                decimal((delta / 3600) as nat) + "h ago"@
            } else {
                decimal((delta / 86400) as nat) + "d ago"@
            }
        },
    }
}

/// The "last played" label for the clock reading `now` (see `short_age_label`).
pub fn short_age_text(last_played: u64, now: Option<u64>) -> (r: String)
    requires
        last_played + 60 <= u64::MAX,
    ensures
        r@ == short_age_label(last_played, now),
{
    let mut out: Vec<char> = Vec::new();
    match now {
        None => push_str_chars(&mut out, "unknown"),
        Some(t) => {
            if t <= last_played + 60 {
                push_str_chars(&mut out, "just now");
            } else {
                let delta = t - last_played;
                if delta < 3600 {
                    push_decimal(&mut out, delta / 60);
                    push_str_chars(&mut out, "m ago");
                } else if delta < 86_400 {
                    push_decimal(&mut out, delta / 3600);
                    push_str_chars(&mut out, "h ago");
                } else {
                    push_decimal(&mut out, delta / 86_400);
                    push_str_chars(&mut out, "d ago");
                }
            }
        },
    }
    string_from_chars(out.as_slice())
}

/// The "last played" label against the system clock.
pub fn format_last_played_secs(last_played: u64) -> (r: String)
    requires
        last_played + 60 <= u64::MAX,
    ensures
        exists|now: Option<u64>| r@ == short_age_label(last_played, now),
{
    let now = system_time_secs();
    short_age_text(last_played, now)
}

/// ASCII characters as bytes.
pub open spec fn ascii_bytes(s: Seq<char>) -> Seq<u8> {
    s.map_values(|c: char| (c as u32) as u8)
}

/// The header of a binary PPM image `width × height` with 8-bit channels.
pub open spec fn ppm_header(width: nat, height: nat) -> Seq<char> {
    "P6\n"@ + decimal(width) + " "@ + decimal(height) + "\n255\n"@
}

/// RGB bytes of every whole RGBA pixel of `rgba` (alpha dropped).
pub open spec fn rgb_of(rgba: Seq<u8>) -> Seq<u8>
    decreases rgba.len(),
{
    if rgba.len() < 4 {
        Seq::empty()
    } else {
        rgb_of(rgba.subrange(0, rgba.len() - 4)) + seq![
            rgba[rgba.len() - 4],
            rgba[rgba.len() - 3],
            rgba[rgba.len() - 2],
        ]
    }
}

/// The bytes of a binary PPM screenshot of an RGBA frame.
pub fn ppm_bytes(rgba: &[u8], width: usize, height: usize) -> (r: Vec<u8>)
    ensures
        r@ == ascii_bytes(ppm_header(width as nat, height as nat)) + rgb_of(
            rgba@.subrange(0, (rgba@.len() - rgba@.len() % 4) as int),
        ),
{
    let mut header: Vec<char> = Vec::new();
    push_str_chars(&mut header, "P6\n");
    push_decimal(&mut header, width as u64);
    push_str_chars(&mut header, " ");
    push_decimal(&mut header, height as u64);
    push_str_chars(&mut header, "\n255\n");
    let mut out: Vec<u8> = Vec::new();
    let mut i: usize = 0;
    while i < header.len()
        invariant
            i <= header@.len(),
            out@ == ascii_bytes(header@.subrange(0, i as int)),
        decreases header@.len() - i,
    {
        out.push(header[i] as u32 as u8);
        i = i + 1;
        assert(ascii_bytes(header@.subrange(0, i as int)) =~= ascii_bytes(header@.subrange(0, i - 1)).push(
            (header@[i - 1] as u32) as u8,
        ));
    }
    assert(header@.subrange(0, header@.len() as int) =~= header@);
    let ghost head = out@;
    let len = rgba.len();
    let n = len / 4;
    let mut k: usize = 0;
    while k < n
        invariant
            len == rgba@.len(),
            n == rgba@.len() / 4,
            k <= n,
            out@ == head + rgb_of(rgba@.subrange(0, 4 * k as int)),
        decreases n - k,
    {
        let base = 4 * k;
        out.push(rgba[base]);
        out.push(rgba[base + 1]);
        out.push(rgba[base + 2]);
        k = k + 1;
        assert(rgba@.subrange(0, 4 * k as int).subrange(0, 4 * k - 4) =~= rgba@.subrange(0, 4 * (k - 1)));
    }
    assert(4 * n == rgba@.len() - rgba@.len() % 4);
    out
}

} // verus!
