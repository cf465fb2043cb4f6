//! Text shown by the game launcher: tab headers, game titles and "last played" ages.

use vstd::prelude::*;

use crate::clock::system_time_secs;
use crate::controls::Key;
use crate::session::SaveHealth;
use crate::text::{chars_of, decimal, push_decimal, push_str_chars, string_from_chars};

verus! {

/// The tabs of the launcher window.
#[derive(Debug, Clone, Copy, PartialEq, Eq, Structural)]
pub enum LauncherTab {
    MyGames,
    GetRoms,
    RecentlyPlayed,
    Settings,
}

/// Title and subtitle of each tab's page header.
pub open spec fn header_text(tab: LauncherTab) -> (Seq<char>, Seq<char>) {
    match tab {
        LauncherTab::MyGames => ("My Games"@, "Your library, ready to play"@),
        LauncherTab::GetRoms => (
            "Get ROMs"@,
            "Find games in your browser — imports appear in My Games"@,
        ),
        LauncherTab::RecentlyPlayed => ("Recent Sessions"@, "Jump back into your latest games"@),
        LauncherTab::Settings => ("Settings"@, "Controls, display, and runtime behavior"@),
    }
}

/// Title and subtitle of the page header of `active_tab`.
pub fn header_copy(active_tab: LauncherTab) -> (r: (&'static str, &'static str))
    ensures
        (r.0@, r.1@) == header_text(active_tab),
{
    match active_tab {
        LauncherTab::MyGames => ("My Games", "Your library, ready to play"),
        LauncherTab::GetRoms => ("Get ROMs", "Find games in your browser — imports appear in My Games"),
        LauncherTab::RecentlyPlayed => ("Recent Sessions", "Jump back into your latest games"),
        LauncherTab::Settings => ("Settings", "Controls, display, and runtime behavior"),
    }
}

/// Badge label of a lower-case ROM extension: `GBC` for `gbc`, `GB` otherwise.
pub fn rom_extension_platform_label(ext_lower: &str) -> (r: &'static str)
    ensures
        r@ == (if ext_lower@ == "gbc"@ {
            "GBC"@
        } else {
            "GB"@
        }),
{
    let v = chars_of(ext_lower);
    proof {
        reveal_strlit("gbc");
    }
    if v.len() == 3 && v[0] == 'g' && v[1] == 'b' && v[2] == 'c' {
        assert(v@ =~= "gbc"@);
        "GBC"
    } else {
        "GB"
    }
}

/// ASCII hexadecimal digit.
pub open spec fn is_hex_digit(c: char) -> bool {
    ('0' <= c && c <= '9') || ('a' <= c && c <= 'f') || ('A' <= c && c <= 'F')
}

/// Whether a file stem ends in the `-` and twelve hexadecimal digits that the library
/// appends to imported games, with something before them.
pub open spec fn has_import_suffix(s: Seq<char>) -> bool {
    &&& s.len() > 13
    &&& s[s.len() - 13] == '-'
    &&& forall|i: int| s.len() - 12 <= i < s.len() ==> is_hex_digit(#[trigger] s[i])
}

/// `s` with each underscore replaced by a space.
pub open spec fn underscores_to_spaces(s: Seq<char>) -> Seq<char> {
    s.map_values(|c: char| if c == '_' { ' ' } else { c })
}

/// The title of a game: its file stem without the import suffix, underscores as spaces.
pub open spec fn game_title(stem: Seq<char>) -> Seq<char> {
    underscores_to_spaces(
        if has_import_suffix(stem) {
            stem.subrange(0, stem.len() - 13)
        } else {
            stem
        },
    )
}

/// `s` when it has at most `max_chars` characters; else its first `max_chars - 1`
/// (at least none) followed by an ellipsis.
pub open spec fn clipped(s: Seq<char>, max_chars: nat) -> Seq<char> {
    if s.len() <= max_chars {
        s
    } else {
        s.subrange(0, if max_chars > 0 { max_chars - 1 } else { 0 }) + seq!['…']
    }
}

/// The name a game is listed under, from its file stem (`Game` without one).
pub open spec fn game_display_name(stem: Option<Seq<char>>, max_chars: nat) -> Seq<char> {
    clipped(
        game_title(
            match stem {
                Some(s) => s,
                None => "Game"@,
            },
        ),
        max_chars,
    )
}

fn is_hex_char(c: char) -> (r: bool)
    ensures
        r == is_hex_digit(c),
{
    ('0' <= c && c <= '9') || ('a' <= c && c <= 'f') || ('A' <= c && c <= 'F')
}

/// The listed name of a game whose file stem is `file_stem`, at most `max_chars` long.
pub fn display_game_name(file_stem: Option<&str>, max_chars: usize) -> (r: String)
    ensures
        r@ == game_display_name(
            match file_stem {
                Some(s) => Some(s@),
                None => None,
            },
            max_chars as nat,
        ),
{
    let raw = match file_stem {
        Some(s) => chars_of(s),
        None => chars_of("Game"),
    };
    let n = raw.len();
    let mut suffix = n > 13 && raw[n - 13] == '-';
    if suffix {
        let mut i: usize = n - 12;
        while i < n
            invariant
                n == raw@.len(),
                n > 13,
                n - 12 <= i <= n,
                suffix ==> forall|k: int| n - 12 <= k < i ==> is_hex_digit(#[trigger] raw@[k]),
                !suffix ==> !has_import_suffix(raw@),
            decreases n - i,
        {
            if !is_hex_char(raw[i]) {
                suffix = false;
            }
            i = i + 1;
        }
    }
    assert(suffix == has_import_suffix(raw@));
    let keep = if suffix {
        n - 13
    } else {
        n
    };
    let mut cleaned: Vec<char> = Vec::new();
    let mut j: usize = 0;
    while j < keep
        invariant
            keep <= raw@.len(),
            j <= keep,
            cleaned@ == underscores_to_spaces(raw@.subrange(0, j as int)),
        decreases keep - j,
    {
        let c = raw[j];
        cleaned.push(if c == '_' { ' ' } else { c });
        j = j + 1;
        assert(underscores_to_spaces(raw@.subrange(0, j as int)) =~= underscores_to_spaces(
            raw@.subrange(0, j - 1),
        ).push(if c == '_' { ' ' } else { c }));
    }
    assert(raw@.subrange(0, keep as int) =~= (if suffix {
        raw@.subrange(0, raw@.len() - 13)
    } else {
        raw@
    }));
    let ghost title = cleaned@;
    assert(title == game_title(raw@));
    if cleaned.len() <= max_chars {
        return string_from_chars(cleaned.as_slice());
    }
    let take = if max_chars > 0 {
        max_chars - 1
    } else {
        0
    };
    let mut out: Vec<char> = Vec::new();
    let mut k: usize = 0;
    while k < take
        invariant
            take < cleaned@.len(),
            k <= take,
            out@ == cleaned@.subrange(0, k as int),
        decreases take - k,
    {
        out.push(cleaned[k]);
        k = k + 1;
        assert(cleaned@.subrange(0, k as int) =~= cleaned@.subrange(0, k - 1).push(cleaned@[k - 1]));
    }
    out.push('…');
    string_from_chars(out.as_slice())
}

/// How long ago `last_played` was at clock reading `now` (seconds since the epoch):
/// "just now" within a minute, then minutes, hours, days up to thirty, then "a while ago";
/// "unknown" without a time or a clock.
pub open spec fn age_label(last_played: Option<u64>, now: Option<u64>) -> Seq<char> {
    match (last_played, now) {
        (Some(last), Some(t)) => if t <= last + 60 {
            "just now"@
        } else {
            let delta = t - last;
            if delta < 3600 {
                decimal((delta / 60) as nat) + " min ago"@
            } else if delta < 86400 {
                decimal((delta / 3600) as nat) + " h ago"@
            } else if delta < 86400 * 30 {
                decimal((delta / 86400) as nat) + " d ago"@
            } else {
                "a while ago"@
            }
        },
        _ => "unknown"@,
    }
}

/// The launcher's "last played" text for the clock reading `now` (see `age_label`).
pub fn age_text(last_played: Option<u64>, now: Option<u64>) -> (r: String)
    requires
        last_played matches Some(last) ==> last + 60 <= u64::MAX,
    ensures
        r@ == age_label(last_played, now),
{
    let mut out: Vec<char> = Vec::new();
    match (last_played, now) {
        (Some(last), Some(t)) => {
            if t <= last + 60 {
                push_str_chars(&mut out, "just now");
            } else {
                let delta = t - last;
                if delta < 3600 {
                    push_decimal(&mut out, delta / 60);
                    push_str_chars(&mut out, " min ago");
                } else if delta < 86_400 {
                    push_decimal(&mut out, delta / 3600);
                    push_str_chars(&mut out, " h ago");
                } else if delta < 86_400 * 30 {
                    push_decimal(&mut out, delta / 86_400);
                    push_str_chars(&mut out, " d ago");
                } else {
                    push_str_chars(&mut out, "a while ago");
                }
            }
        },
        _ => push_str_chars(&mut out, "unknown"),
    }
    string_from_chars(out.as_slice())
}

/// The launcher's "last played" text against the system clock, which is read only when
/// there is a time to compare.
pub fn format_last_played(last_played: Option<u64>) -> (r: String)
    requires
        last_played matches Some(last) ==> last + 60 <= u64::MAX,
    ensures
        last_played is None ==> r@ == "unknown"@,
        exists|now: Option<u64>| r@ == age_label(last_played, now),
{
    match last_played {
        None => age_text(None, None),
        Some(_) => {
            let now = system_time_secs();
            age_text(last_played, now)
        },
    }
}

/// The name the settings page shows for a key.
pub open spec fn key_label_text(k: Key) -> Seq<char> {
    match k {
        Key::Z => "Z"@,
        Key::X => "X"@,
        Key::C => "C"@,
        Key::A => "A"@,
        Key::S => "S"@,
        Key::D => "D"@,
        Key::Q => "Q"@,
        Key::W => "W"@,
        Key::E => "E"@,
        Key::R => "R"@,
        Key::Up => "Arrow Up"@,
        Key::Down => "Arrow Down"@,
        Key::Left => "Arrow Left"@,
        Key::Right => "Arrow Right"@,
        Key::Return => "Enter"@,
        Key::Space => "Space"@,
        Key::LShift => "Left Shift"@,
        Key::RShift => "Right Shift"@,
        Key::Tab => "Tab"@,
        Key::Back => "Backspace"@,
    }
}

/// The name the settings page shows for a key (see `key_label_text`).
pub fn key_label(k: Key) -> (r: &'static str)
    ensures
        r@ == key_label_text(k),
{
    match k {
        Key::Z => "Z",
        Key::X => "X",
        Key::C => "C",
        Key::A => "A",
        Key::S => "S",
        Key::D => "D",
        Key::Q => "Q",
        Key::W => "W",
        Key::E => "E",
        Key::R => "R",
        Key::Up => "Arrow Up",
        Key::Down => "Arrow Down",
        Key::Left => "Arrow Left",
        Key::Right => "Arrow Right",
        Key::Return => "Enter",
        Key::Space => "Space",
        Key::LShift => "Left Shift",
        Key::RShift => "Right Shift",
        Key::Tab => "Tab",
        Key::Back => "Backspace",
    }
}

/// The launcher's one-line description of a game's save, with `now` the clock reading.
pub open spec fn save_status_text(h: SaveHealth, now: Option<u64>) -> Seq<char> {
    let last = match h.last_modified_unix_secs {
        Some(t) => age_label(Some(t), now),
        None => "never"@,
    };
    if h.has_save {
        "Save data on disk · last write "@ + last
    } else if h.has_backup {
        "Backup only (main save missing) · last touched "@ + last
    } else {
        "No .sav file yet — new game progress"@
    }
}

/// The one-line save description for the clock reading `now` (see `save_status_text`).
pub fn save_status_at(h: SaveHealth, now: Option<u64>) -> (r: String)
    requires
        h.last_modified_unix_secs matches Some(t) ==> t + 60 <= u64::MAX,
    ensures
        r@ == save_status_text(h, now),
{
    let mut out: Vec<char> = Vec::new();
    if h.has_save {
        push_str_chars(&mut out, "Save data on disk · last write ");
    } else if h.has_backup {
        push_str_chars(&mut out, "Backup only (main save missing) · last touched ");
    } else {
        return "No .sav file yet — new game progress".to_owned();
    }
    match h.last_modified_unix_secs {
        Some(t) => {
            let last = age_text(Some(t), now);
            push_str_chars(&mut out, last.as_str());
        },
        None => push_str_chars(&mut out, "never"),
    }
    string_from_chars(out.as_slice())
}

/// The one-line save description against the system clock, read only when the save has a
/// time.
pub fn save_status_one_line(h: SaveHealth) -> (r: String)
    requires
        h.last_modified_unix_secs matches Some(t) ==> t + 60 <= u64::MAX,
    ensures
        exists|now: Option<u64>| r@ == save_status_text(h, now),
{
    let now = match h.last_modified_unix_secs {
        Some(_) => system_time_secs(),
        None => None,
    };
    save_status_at(h, now)
}

} // verus!
