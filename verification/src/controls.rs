//! Key bindings of the game window, and their text form passed to the game process.

use vstd::prelude::*;

use crate::text::{chars_eq, chars_of, split_acc, split_chars, split_on, string_from_chars};

verus! {

/// The keys a binding can name.
#[derive(Debug, Clone, Copy, PartialEq, Eq, Structural)]
pub enum Key {
    Z,
    X,
    C,
    A,
    S,
    D,
    Q,
    W,
    E,
    R,
    Up,
    Down,
    Left,
    Right,
    Return,
    Space,
    LShift,
    RShift,
    Tab,
    Back,
}

/// Text name of a key.
pub open spec fn key_id(k: Key) -> Seq<char> {
    match k {
        Key::Z => seq!['z'],
        Key::X => seq!['x'],
        Key::C => seq!['c'],
        Key::A => seq!['a'],
        Key::S => seq!['s'],
        Key::D => seq!['d'],
        Key::Q => seq!['q'],
        Key::W => seq!['w'],
        Key::E => seq!['e'],
        Key::R => seq!['r'],
        Key::Up => seq!['u', 'p'],
        Key::Down => seq!['d', 'o', 'w', 'n'],
        Key::Left => seq!['l', 'e', 'f', 't'],
        Key::Right => seq!['r', 'i', 'g', 'h', 't'],
        Key::Return => seq!['r', 'e', 't', 'u', 'r', 'n'],
        Key::Space => seq!['s', 'p', 'a', 'c', 'e'],
        Key::LShift => seq!['l', 's', 'h', 'i', 'f', 't'],
        Key::RShift => seq!['r', 's', 'h', 'i', 'f', 't'],
        Key::Tab => seq!['t', 'a', 'b'],
        Key::Back => seq!['b', 'a', 'c', 'k'],
    }
}

/// The key a text name denotes.
pub open spec fn key_of_id(f: Seq<char>) -> Option<Key> {
    if f == seq!['z'] {
        Some(Key::Z)
    } else if f == seq!['x'] {
        Some(Key::X)
    } else if f == seq!['c'] {
        Some(Key::C)
    } else if f == seq!['a'] {
        Some(Key::A)
    } else if f == seq!['s'] {
        Some(Key::S)
    } else if f == seq!['d'] {
        Some(Key::D)
    } else if f == seq!['q'] {
        Some(Key::Q)
    } else if f == seq!['w'] {
        Some(Key::W)
    } else if f == seq!['e'] {
        Some(Key::E)
    } else if f == seq!['r'] {
        Some(Key::R)
    } else if f == seq!['u', 'p'] {
        Some(Key::Up)
    } else if f == seq!['d', 'o', 'w', 'n'] {
        Some(Key::Down)
    } else if f == seq!['l', 'e', 'f', 't'] {
        Some(Key::Left)
    } else if f == seq!['r', 'i', 'g', 'h', 't'] {
        Some(Key::Right)
    } else if f == seq!['r', 'e', 't', 'u', 'r', 'n'] {
        Some(Key::Return)
    } else if f == seq!['s', 'p', 'a', 'c', 'e'] {
        Some(Key::Space)
    } else if f == seq!['l', 's', 'h', 'i', 'f', 't'] {
        Some(Key::LShift)
    } else if f == seq!['r', 's', 'h', 'i', 'f', 't'] {
        Some(Key::RShift)
    } else if f == seq!['t', 'a', 'b'] {
        Some(Key::Tab)
    } else if f == seq!['b', 'a', 'c', 'k'] {
        Some(Key::Back)
    } else {
        None
    }
}

fn key_id_chars(k: Key) -> (r: Vec<char>)
    ensures
        r@ == key_id(k),
{
    match k {
        Key::Z => vec!['z'],
        Key::X => vec!['x'],
        Key::C => vec!['c'],
        Key::A => vec!['a'],
        Key::S => vec!['s'],
        Key::D => vec!['d'],
        Key::Q => vec!['q'],
        Key::W => vec!['w'],
        Key::E => vec!['e'],
        Key::R => vec!['r'],
        Key::Up => vec!['u', 'p'],
        Key::Down => vec!['d', 'o', 'w', 'n'],
        Key::Left => vec!['l', 'e', 'f', 't'],
        Key::Right => vec!['r', 'i', 'g', 'h', 't'],
        Key::Return => vec!['r', 'e', 't', 'u', 'r', 'n'],
        Key::Space => vec!['s', 'p', 'a', 'c', 'e'],
        Key::LShift => vec!['l', 's', 'h', 'i', 'f', 't'],
        Key::RShift => vec!['r', 's', 'h', 'i', 'f', 't'],
        Key::Tab => vec!['t', 'a', 'b'],
        Key::Back => vec!['b', 'a', 'c', 'k'],
    }
}

/// The key a text name denotes (see `key_of_id`).
pub fn id_to_key(f: &[char]) -> (r: Option<Key>)
    ensures
        r == key_of_id(f@),
{
    if chars_eq(f, key_id_chars(Key::Z).as_slice()) {
        Some(Key::Z)
    } else if chars_eq(f, key_id_chars(Key::X).as_slice()) {
        Some(Key::X)
    } else if chars_eq(f, key_id_chars(Key::C).as_slice()) {
        Some(Key::C)
    } else if chars_eq(f, key_id_chars(Key::A).as_slice()) {
        Some(Key::A)
    } else if chars_eq(f, key_id_chars(Key::S).as_slice()) {
        Some(Key::S)
    } else if chars_eq(f, key_id_chars(Key::D).as_slice()) {
        Some(Key::D)
    } else if chars_eq(f, key_id_chars(Key::Q).as_slice()) {
        Some(Key::Q)
    } else if chars_eq(f, key_id_chars(Key::W).as_slice()) {
        Some(Key::W)
    } else if chars_eq(f, key_id_chars(Key::E).as_slice()) {
        Some(Key::E)
    } else if chars_eq(f, key_id_chars(Key::R).as_slice()) {
        Some(Key::R)
    } else if chars_eq(f, key_id_chars(Key::Up).as_slice()) {
        Some(Key::Up)
    } else if chars_eq(f, key_id_chars(Key::Down).as_slice()) {
        Some(Key::Down)
    } else if chars_eq(f, key_id_chars(Key::Left).as_slice()) {
        Some(Key::Left)
    } else if chars_eq(f, key_id_chars(Key::Right).as_slice()) {
        Some(Key::Right)
    } else if chars_eq(f, key_id_chars(Key::Return).as_slice()) {
        Some(Key::Return)
    } else if chars_eq(f, key_id_chars(Key::Space).as_slice()) {
        Some(Key::Space)
    } else if chars_eq(f, key_id_chars(Key::LShift).as_slice()) {
        Some(Key::LShift)
    } else if chars_eq(f, key_id_chars(Key::RShift).as_slice()) {
        Some(Key::RShift)
    } else if chars_eq(f, key_id_chars(Key::Tab).as_slice()) {
        Some(Key::Tab)
    } else if chars_eq(f, key_id_chars(Key::Back).as_slice()) {
        Some(Key::Back)
    } else {
        None
    }
}

/// Emulator key bindings.
#[derive(Debug, Clone, Copy)]
pub struct Controls {
    pub a: Key,
    pub b: Key,
    pub start: Key,
    pub select: Key,
    pub up: Key,
    pub down: Key,
    pub left: Key,
    pub right: Key,
    pub fast_forward: Key,
}

/// Z/X for A/B, Return for Start, left Shift for Select, the arrows, Space to speed up.
pub open spec fn default_controls() -> Controls {
    Controls {
        a: Key::Z,
        b: Key::X,
        start: Key::Return,
        select: Key::LShift,
        up: Key::Up,
        down: Key::Down,
        left: Key::Left,
        right: Key::Right,
        fast_forward: Key::Space,
    }
}

impl Default for Controls {
    /// The bindings of `default_controls`.
    fn default() -> (r: Self)
        ensures
            r == default_controls(),
    {
        Controls {
            a: Key::Z,
            b: Key::X,
            start: Key::Return,
            select: Key::LShift,
            up: Key::Up,
            down: Key::Down,
            left: Key::Left,
            right: Key::Right,
            fast_forward: Key::Space,
        }
    }
}

/// The keys of `c` in text order.
pub open spec fn binding_keys(c: Controls) -> Seq<Key> {
    seq![c.a, c.b, c.start, c.select, c.up, c.down, c.left, c.right, c.fast_forward]
}

/// Names of `ks` separated by commas.
pub open spec fn join_ids(ks: Seq<Key>) -> Seq<char>
    decreases ks.len(),
{
    if ks.len() == 0 {
        Seq::empty()
    } else if ks.len() == 1 {
        key_id(ks[0])
    } else {
        join_ids(ks.drop_last()) + seq![','] + key_id(ks.last())
    }
}

/// The text form of `c`.
pub open spec fn env_string(c: Controls) -> Seq<char> {
    join_ids(binding_keys(c))
}

/// The bindings a text form denotes: the first nine comma-separated names, each a key;
/// anything after them is ignored.
pub open spec fn controls_of(s: Seq<char>) -> Option<Controls> {
    let f = split_on(s, ',');
    if f.len() < 9 {
        None
    } else {
        match (
            key_of_id(f[0]),
            key_of_id(f[1]),
            key_of_id(f[2]),
            key_of_id(f[3]),
            key_of_id(f[4]),
            key_of_id(f[5]),
            key_of_id(f[6]),
            key_of_id(f[7]),
            key_of_id(f[8]),
        ) {
            (Some(a), Some(b), Some(start), Some(select), Some(up), Some(down), Some(left), Some(right), Some(ff)) => Some(
                Controls { a, b, start, select, up, down, left, right, fast_forward: ff },
            ),
            _ => None,
        }
    }
}

impl Controls {
    /// Comma-separated key names, in the order A, B, Start, Select, Up, Down, Left, Right,
    /// fast forward.
    pub fn to_env_string(&self) -> (r: String)
        ensures
            r@ == env_string(*self),
    {
        let keys = [
            self.a,
            self.b,
            self.start,
            self.select,
            self.up,
            self.down,
            self.left,
            self.right,
            self.fast_forward,
        ];
        assert(keys@ =~= binding_keys(*self));
        let mut out: Vec<char> = Vec::new();
        let mut i: usize = 0;
        while i < 9
            invariant
                i <= 9,
                keys@ == binding_keys(*self),
                out@ == join_ids(keys@.subrange(0, i as int)),
            decreases 9 - i,
        {
            let id = key_id_chars(keys[i]);
            assert(keys@.subrange(0, i + 1).drop_last() =~= keys@.subrange(0, i as int));
            if i > 0 {
                out.push(',');
            }
            let mut j: usize = 0;
            let ghost base = out@;
            while j < id.len()
                invariant
                    j <= id@.len(),
                    out@ == base + id@.subrange(0, j as int),
                decreases id@.len() - j,
            {
                out.push(id[j]);
                j = j + 1;
                assert(id@.subrange(0, j as int) =~= id@.subrange(0, j - 1).push(id@[j - 1]));
            }
            assert(id@.subrange(0, id@.len() as int) =~= id@);
            i = i + 1;
        }
        assert(keys@.subrange(0, 9) =~= keys@);
        string_from_chars(out.as_slice())
    }

    /// Parses the text form; `None` when fewer than nine names are given or one is unknown.
    pub fn from_env_string(s: &str) -> (r: Option<Self>)
        ensures
            r == controls_of(s@),
    {
        let v = chars_of(s);
        let f = split_chars(v.as_slice(), ',');
        if f.len() < 9 {
            return None;
        }
        let a = id_to_key(f[0].as_slice());
        let b = id_to_key(f[1].as_slice());
        let start = id_to_key(f[2].as_slice());
        let select = id_to_key(f[3].as_slice());
        let up = id_to_key(f[4].as_slice());
        let down = id_to_key(f[5].as_slice());
        let left = id_to_key(f[6].as_slice());
        let right = id_to_key(f[7].as_slice());
        let ff = id_to_key(f[8].as_slice());
        match (a, b, start, select, up, down, left, right, ff) {
            (Some(a), Some(b), Some(start), Some(select), Some(up), Some(down), Some(left), Some(right), Some(ff)) => Some(
                Controls { a, b, start, select, up, down, left, right, fast_forward: ff },
            ),
            _ => None,
        }
    }
}

/// Each key name reads back as its key and holds no comma.
pub proof fn lemma_key_id(k: Key)
    ensures
        key_of_id(key_id(k)) == Some(k),
        forall|i: int| 0 <= i < key_id(k).len() ==> key_id(k)[i] != ',',
{
    match k {
        Key::Z => {

        },
        Key::X => {
            assert(key_id(Key::X)[0] != key_id(Key::Z)[0]);
        },
        Key::C => {
            assert(key_id(Key::C)[0] != key_id(Key::Z)[0]);
            assert(key_id(Key::C)[0] != key_id(Key::X)[0]);
        },
        Key::A => {
            assert(key_id(Key::A)[0] != key_id(Key::Z)[0]);
            assert(key_id(Key::A)[0] != key_id(Key::X)[0]);
            assert(key_id(Key::A)[0] != key_id(Key::C)[0]);
        },
        Key::S => {
            assert(key_id(Key::S)[0] != key_id(Key::Z)[0]);
            assert(key_id(Key::S)[0] != key_id(Key::X)[0]);
            assert(key_id(Key::S)[0] != key_id(Key::C)[0]);
            assert(key_id(Key::S)[0] != key_id(Key::A)[0]);
        },
        Key::D => {
            assert(key_id(Key::D)[0] != key_id(Key::Z)[0]);
            assert(key_id(Key::D)[0] != key_id(Key::X)[0]);
            assert(key_id(Key::D)[0] != key_id(Key::C)[0]);
            assert(key_id(Key::D)[0] != key_id(Key::A)[0]);
            assert(key_id(Key::D)[0] != key_id(Key::S)[0]);
        },
        Key::Q => {
            assert(key_id(Key::Q)[0] != key_id(Key::Z)[0]);
            assert(key_id(Key::Q)[0] != key_id(Key::X)[0]);
            assert(key_id(Key::Q)[0] != key_id(Key::C)[0]);
            assert(key_id(Key::Q)[0] != key_id(Key::A)[0]);
            assert(key_id(Key::Q)[0] != key_id(Key::S)[0]);
            assert(key_id(Key::Q)[0] != key_id(Key::D)[0]);
        },
        Key::W => {
            assert(key_id(Key::W)[0] != key_id(Key::Z)[0]);
            assert(key_id(Key::W)[0] != key_id(Key::X)[0]);
            assert(key_id(Key::W)[0] != key_id(Key::C)[0]);
            assert(key_id(Key::W)[0] != key_id(Key::A)[0]);
            assert(key_id(Key::W)[0] != key_id(Key::S)[0]);
            assert(key_id(Key::W)[0] != key_id(Key::D)[0]);
            assert(key_id(Key::W)[0] != key_id(Key::Q)[0]);
        },
        Key::E => {
            assert(key_id(Key::E)[0] != key_id(Key::Z)[0]);
            assert(key_id(Key::E)[0] != key_id(Key::X)[0]);
            assert(key_id(Key::E)[0] != key_id(Key::C)[0]);
            assert(key_id(Key::E)[0] != key_id(Key::A)[0]);
            assert(key_id(Key::E)[0] != key_id(Key::S)[0]);
            assert(key_id(Key::E)[0] != key_id(Key::D)[0]);
            assert(key_id(Key::E)[0] != key_id(Key::Q)[0]);
            assert(key_id(Key::E)[0] != key_id(Key::W)[0]);
        },
        Key::R => {
            assert(key_id(Key::R)[0] != key_id(Key::Z)[0]);
            assert(key_id(Key::R)[0] != key_id(Key::X)[0]);
            assert(key_id(Key::R)[0] != key_id(Key::C)[0]);
            assert(key_id(Key::R)[0] != key_id(Key::A)[0]);
            assert(key_id(Key::R)[0] != key_id(Key::S)[0]);
            assert(key_id(Key::R)[0] != key_id(Key::D)[0]);
            assert(key_id(Key::R)[0] != key_id(Key::Q)[0]);
            assert(key_id(Key::R)[0] != key_id(Key::W)[0]);
            assert(key_id(Key::R)[0] != key_id(Key::E)[0]);
        },
        Key::Up => {
            assert(key_id(Key::Up).len() != key_id(Key::Z).len());
            assert(key_id(Key::Up).len() != key_id(Key::X).len());
            assert(key_id(Key::Up).len() != key_id(Key::C).len());
            assert(key_id(Key::Up).len() != key_id(Key::A).len());
            assert(key_id(Key::Up).len() != key_id(Key::S).len());
            assert(key_id(Key::Up).len() != key_id(Key::D).len());
            assert(key_id(Key::Up).len() != key_id(Key::Q).len());
            assert(key_id(Key::Up).len() != key_id(Key::W).len());
            assert(key_id(Key::Up).len() != key_id(Key::E).len());
            assert(key_id(Key::Up).len() != key_id(Key::R).len());
        },
        Key::Down => {
            assert(key_id(Key::Down).len() != key_id(Key::Z).len());
            assert(key_id(Key::Down).len() != key_id(Key::X).len());
            assert(key_id(Key::Down).len() != key_id(Key::C).len());
            assert(key_id(Key::Down).len() != key_id(Key::A).len());
            assert(key_id(Key::Down).len() != key_id(Key::S).len());
            assert(key_id(Key::Down).len() != key_id(Key::D).len());
            assert(key_id(Key::Down).len() != key_id(Key::Q).len());
            assert(key_id(Key::Down).len() != key_id(Key::W).len());
            assert(key_id(Key::Down).len() != key_id(Key::E).len());
            assert(key_id(Key::Down).len() != key_id(Key::R).len());
            assert(key_id(Key::Down).len() != key_id(Key::Up).len());
        },
        Key::Left => {
            assert(key_id(Key::Left).len() != key_id(Key::Z).len());
            assert(key_id(Key::Left).len() != key_id(Key::X).len());
            assert(key_id(Key::Left).len() != key_id(Key::C).len());
            assert(key_id(Key::Left).len() != key_id(Key::A).len());
            assert(key_id(Key::Left).len() != key_id(Key::S).len());
            assert(key_id(Key::Left).len() != key_id(Key::D).len());
            assert(key_id(Key::Left).len() != key_id(Key::Q).len());
            assert(key_id(Key::Left).len() != key_id(Key::W).len());
            assert(key_id(Key::Left).len() != key_id(Key::E).len());
            assert(key_id(Key::Left).len() != key_id(Key::R).len());
            assert(key_id(Key::Left).len() != key_id(Key::Up).len());
            assert(key_id(Key::Left)[0] != key_id(Key::Down)[0]);
        },
        Key::Right => {
            assert(key_id(Key::Right).len() != key_id(Key::Z).len());
            assert(key_id(Key::Right).len() != key_id(Key::X).len());
            assert(key_id(Key::Right).len() != key_id(Key::C).len());
            assert(key_id(Key::Right).len() != key_id(Key::A).len());
            assert(key_id(Key::Right).len() != key_id(Key::S).len());
            assert(key_id(Key::Right).len() != key_id(Key::D).len());
            assert(key_id(Key::Right).len() != key_id(Key::Q).len());
            assert(key_id(Key::Right).len() != key_id(Key::W).len());
            assert(key_id(Key::Right).len() != key_id(Key::E).len());
            assert(key_id(Key::Right).len() != key_id(Key::R).len());
            assert(key_id(Key::Right).len() != key_id(Key::Up).len());
            assert(key_id(Key::Right).len() != key_id(Key::Down).len());
            assert(key_id(Key::Right).len() != key_id(Key::Left).len());
        },
        Key::Return => {
            assert(key_id(Key::Return).len() != key_id(Key::Z).len());
            assert(key_id(Key::Return).len() != key_id(Key::X).len());
            assert(key_id(Key::Return).len() != key_id(Key::C).len());
            assert(key_id(Key::Return).len() != key_id(Key::A).len());
            assert(key_id(Key::Return).len() != key_id(Key::S).len());
            assert(key_id(Key::Return).len() != key_id(Key::D).len());
            assert(key_id(Key::Return).len() != key_id(Key::Q).len());
            assert(key_id(Key::Return).len() != key_id(Key::W).len());
            assert(key_id(Key::Return).len() != key_id(Key::E).len());
            assert(key_id(Key::Return).len() != key_id(Key::R).len());
            assert(key_id(Key::Return).len() != key_id(Key::Up).len());
            assert(key_id(Key::Return).len() != key_id(Key::Down).len());
            assert(key_id(Key::Return).len() != key_id(Key::Left).len());
            assert(key_id(Key::Return).len() != key_id(Key::Right).len());
        },
        Key::Space => {
            assert(key_id(Key::Space).len() != key_id(Key::Z).len());
            assert(key_id(Key::Space).len() != key_id(Key::X).len());
            assert(key_id(Key::Space).len() != key_id(Key::C).len());
            assert(key_id(Key::Space).len() != key_id(Key::A).len());
            assert(key_id(Key::Space).len() != key_id(Key::S).len());
            assert(key_id(Key::Space).len() != key_id(Key::D).len());
            assert(key_id(Key::Space).len() != key_id(Key::Q).len());
            assert(key_id(Key::Space).len() != key_id(Key::W).len());
            assert(key_id(Key::Space).len() != key_id(Key::E).len());
            assert(key_id(Key::Space).len() != key_id(Key::R).len());
            assert(key_id(Key::Space).len() != key_id(Key::Up).len());
            assert(key_id(Key::Space).len() != key_id(Key::Down).len());
            assert(key_id(Key::Space).len() != key_id(Key::Left).len());
            assert(key_id(Key::Space)[0] != key_id(Key::Right)[0]);
            assert(key_id(Key::Space).len() != key_id(Key::Return).len());
        },
        Key::LShift => {
            assert(key_id(Key::LShift).len() != key_id(Key::Z).len());
            assert(key_id(Key::LShift).len() != key_id(Key::X).len());
            assert(key_id(Key::LShift).len() != key_id(Key::C).len());
            assert(key_id(Key::LShift).len() != key_id(Key::A).len());
            assert(key_id(Key::LShift).len() != key_id(Key::S).len());
            assert(key_id(Key::LShift).len() != key_id(Key::D).len());
            assert(key_id(Key::LShift).len() != key_id(Key::Q).len());
            assert(key_id(Key::LShift).len() != key_id(Key::W).len());
            assert(key_id(Key::LShift).len() != key_id(Key::E).len());
            assert(key_id(Key::LShift).len() != key_id(Key::R).len());
            assert(key_id(Key::LShift).len() != key_id(Key::Up).len());
            assert(key_id(Key::LShift).len() != key_id(Key::Down).len());
            assert(key_id(Key::LShift).len() != key_id(Key::Left).len());
            assert(key_id(Key::LShift).len() != key_id(Key::Right).len());
            assert(key_id(Key::LShift)[0] != key_id(Key::Return)[0]);
            assert(key_id(Key::LShift).len() != key_id(Key::Space).len());
        },
        Key::RShift => {
            assert(key_id(Key::RShift).len() != key_id(Key::Z).len());
            assert(key_id(Key::RShift).len() != key_id(Key::X).len());
            assert(key_id(Key::RShift).len() != key_id(Key::C).len());
            assert(key_id(Key::RShift).len() != key_id(Key::A).len());
            assert(key_id(Key::RShift).len() != key_id(Key::S).len());
            assert(key_id(Key::RShift).len() != key_id(Key::D).len());
            assert(key_id(Key::RShift).len() != key_id(Key::Q).len());
            assert(key_id(Key::RShift).len() != key_id(Key::W).len());
            assert(key_id(Key::RShift).len() != key_id(Key::E).len());
            assert(key_id(Key::RShift).len() != key_id(Key::R).len());
            assert(key_id(Key::RShift).len() != key_id(Key::Up).len());
            assert(key_id(Key::RShift).len() != key_id(Key::Down).len());
            assert(key_id(Key::RShift).len() != key_id(Key::Left).len());
            assert(key_id(Key::RShift).len() != key_id(Key::Right).len());
            assert(key_id(Key::RShift)[1] != key_id(Key::Return)[1]);
            assert(key_id(Key::RShift).len() != key_id(Key::Space).len());
            assert(key_id(Key::RShift)[0] != key_id(Key::LShift)[0]);
        },
        Key::Tab => {
            assert(key_id(Key::Tab).len() != key_id(Key::Z).len());
            assert(key_id(Key::Tab).len() != key_id(Key::X).len());
            assert(key_id(Key::Tab).len() != key_id(Key::C).len());
            assert(key_id(Key::Tab).len() != key_id(Key::A).len());
            assert(key_id(Key::Tab).len() != key_id(Key::S).len());
            assert(key_id(Key::Tab).len() != key_id(Key::D).len());
            assert(key_id(Key::Tab).len() != key_id(Key::Q).len());
            assert(key_id(Key::Tab).len() != key_id(Key::W).len());
            assert(key_id(Key::Tab).len() != key_id(Key::E).len());
            assert(key_id(Key::Tab).len() != key_id(Key::R).len());
            assert(key_id(Key::Tab).len() != key_id(Key::Up).len());
            assert(key_id(Key::Tab).len() != key_id(Key::Down).len());
            assert(key_id(Key::Tab).len() != key_id(Key::Left).len());
            assert(key_id(Key::Tab).len() != key_id(Key::Right).len());
            assert(key_id(Key::Tab).len() != key_id(Key::Return).len());
            assert(key_id(Key::Tab).len() != key_id(Key::Space).len());
            assert(key_id(Key::Tab).len() != key_id(Key::LShift).len());
            assert(key_id(Key::Tab).len() != key_id(Key::RShift).len());
        },
        Key::Back => {
            assert(key_id(Key::Back).len() != key_id(Key::Z).len());
            assert(key_id(Key::Back).len() != key_id(Key::X).len());
            assert(key_id(Key::Back).len() != key_id(Key::C).len());
            assert(key_id(Key::Back).len() != key_id(Key::A).len());
            assert(key_id(Key::Back).len() != key_id(Key::S).len());
            assert(key_id(Key::Back).len() != key_id(Key::D).len());
            assert(key_id(Key::Back).len() != key_id(Key::Q).len());
            assert(key_id(Key::Back).len() != key_id(Key::W).len());
            assert(key_id(Key::Back).len() != key_id(Key::E).len());
            assert(key_id(Key::Back).len() != key_id(Key::R).len());
            assert(key_id(Key::Back).len() != key_id(Key::Up).len());
            assert(key_id(Key::Back)[0] != key_id(Key::Down)[0]);
            assert(key_id(Key::Back)[0] != key_id(Key::Left)[0]);
            assert(key_id(Key::Back).len() != key_id(Key::Right).len());
            assert(key_id(Key::Back).len() != key_id(Key::Return).len());
            assert(key_id(Key::Back).len() != key_id(Key::Space).len());
            assert(key_id(Key::Back).len() != key_id(Key::LShift).len());
            assert(key_id(Key::Back).len() != key_id(Key::RShift).len());
            assert(key_id(Key::Back).len() != key_id(Key::Tab).len());
        },
    }
}

/// Splitting after appending characters other than the separator only extends the piece
/// being read.
proof fn lemma_split_extend(s: Seq<char>, t: Seq<char>, sep: char)
    requires
        forall|i: int| 0 <= i < t.len() ==> t[i] != sep,
    ensures
        split_acc(s + t, sep) == (split_acc(s, sep).0, split_acc(s, sep).1 + t),
    decreases t.len(),
{
    if t.len() == 0 {
        assert(s + t =~= s);
        assert(split_acc(s, sep).1 + t =~= split_acc(s, sep).1);
    } else {
        lemma_split_extend(s, t.drop_last(), sep);
        assert((s + t).drop_last() =~= s + t.drop_last());
        assert(split_acc(s, sep).1 + t =~= (split_acc(s, sep).1 + t.drop_last()).push(t.last()));
    }
}

/// The names of `ks` joined with commas split back into the names.
proof fn lemma_split_join(ks: Seq<Key>)
    requires
        ks.len() > 0,
    ensures
        split_on(join_ids(ks), ',') == ks.map_values(|k: Key| key_id(k)),
    decreases ks.len(),
{
    lemma_key_id(ks.last());
    if ks.len() == 1 {
        lemma_split_extend(Seq::empty(), key_id(ks[0]), ',');
        assert(Seq::<char>::empty() + key_id(ks[0]) =~= key_id(ks[0]));
        assert(Seq::<char>::empty() + key_id(ks[0]) =~= key_id(ks[0]));
        assert(split_acc(Seq::<char>::empty(), ',').1 + key_id(ks[0]) =~= key_id(ks[0]));
        assert(ks.map_values(|k: Key| key_id(k)) =~= seq![key_id(ks[0])]);
    } else {
        let pre = join_ids(ks.drop_last());
        lemma_split_join(ks.drop_last());
        let with_sep = pre + seq![','];
        assert(with_sep.drop_last() =~= pre);
        lemma_split_extend(with_sep, key_id(ks.last()), ',');
        assert(split_acc(with_sep, ',') == (split_on(pre, ','), Seq::<char>::empty()));
        assert(Seq::<char>::empty() + key_id(ks.last()) =~= key_id(ks.last()));
        assert(ks.map_values(|k: Key| key_id(k)) =~= ks.drop_last().map_values(|k: Key| key_id(k)).push(
            key_id(ks.last()),
        ));
    }
}

/// The text form of bindings parses back to the same bindings.
pub proof fn lemma_env_string_roundtrip(c: Controls)
    ensures
        controls_of(env_string(c)) == Some(c),
{
    let ks = binding_keys(c);
    lemma_split_join(ks);
    let f = split_on(env_string(c), ',');
    assert(f =~= ks.map_values(|k: Key| key_id(k)));
    lemma_key_id(c.a);
    lemma_key_id(c.b);
    lemma_key_id(c.start);
    lemma_key_id(c.select);
    lemma_key_id(c.up);
    lemma_key_id(c.down);
    lemma_key_id(c.left);
    lemma_key_id(c.right);
    lemma_key_id(c.fast_forward);
    assert(f[0] == key_id(c.a));
    assert(f[8] == key_id(c.fast_forward));
}

} // verus!
