//! Cheat patches: `ADDR:VALUE` lines (hexadecimal) written to the bus each frame.

use vstd::prelude::*;

use crate::bus::BusState;
use crate::gameboy::GameBoy;
use crate::text::{chars_of, split_acc, split_on, trim_range, trim_ws};
use crate::theme::hex_value;

verus! {

broadcast use crate::cartridge::lemma_reads_ok;

#[derive(Debug, Clone, Copy)]
pub struct CheatPatch {
    pub addr: u16,
    pub value: u8,
}

/// Value of a non-empty run of hexadecimal digits.
pub open spec fn hex_number(s: Seq<char>) -> Option<nat>
    decreases s.len(),
{
    if s.len() == 0 {
        None
    } else if s.len() == 1 {
        match hex_value(s[0]) {
            Some(d) => Some(d as nat),
            None => None,
        }
    } else {
        match (hex_number(s.drop_last()), hex_value(s.last())) {
            (Some(v), Some(d)) => Some(v * 16 + d as nat),
            _ => None,
        }
    }
}

/// What `from_str_radix(s, 16)` reads before range checking: an optional `+` and digits.
pub open spec fn radix16(s: Seq<char>) -> Option<nat> {
    if s.len() > 0 && s[0] == '+' {
        hex_number(s.drop_first())
    } else {
        hex_number(s)
    }
}

/// `radix16` of `s` when it is at most `limit`.
pub open spec fn radix16_upto(s: Seq<char>, limit: nat) -> Option<nat> {
    match radix16(s) {
        Some(n) => if n <= limit {
            Some(n)
        } else {
            None
        },
        None => None,
    }
}

/// Index of the first `c` in `s`, if any.
pub open spec fn first_index(s: Seq<char>, c: char) -> Option<int>
    decreases s.len(),
{
    if s.len() == 0 {
        None
    } else if s[0] == c {
        Some(0)
    } else {
        match first_index(s.drop_first(), c) {
            Some(i) => Some(i + 1),
            None => None,
        }
    }
}

/// The patch a line describes: trimmed, not empty, not a `#` comment, `ADDR:VALUE` with
/// both halves (trimmed) hexadecimal numbers fitting 16 and 8 bits.
pub open spec fn cheat_of_line(l: Seq<char>) -> Option<CheatPatch> {
    let t = trim_ws(l);
    if t.len() == 0 || t[0] == '#' {
        None
    } else {
        match first_index(t, ':') {
            None => None,
            Some(k) => match (
                radix16_upto(trim_ws(t.subrange(0, k)), 0xFFFF),
                radix16_upto(trim_ws(t.subrange(k + 1, t.len() as int)), 0xFF),
            ) {
                (Some(a), Some(v)) => Some(CheatPatch { addr: a as u16, value: v as u8 }),
                _ => None,
            },
        }
    }
}

/// The lines of `s` (split at `\n`; trimming later removes a `\r` before it).
pub open spec fn split_lines(s: Seq<char>) -> Seq<Seq<char>> {
    split_on(s, '\n')
}

/// The patches of `lines`, in order, skipping lines that describe none.
pub open spec fn cheats_of_lines(lines: Seq<Seq<char>>) -> Seq<CheatPatch>
    decreases lines.len(),
{
    if lines.len() == 0 {
        Seq::empty()
    } else {
        let r = cheats_of_lines(lines.drop_last());
        match cheat_of_line(lines.last()) {
            Some(c) => r.push(c),
            None => r,
        }
    }
}

/// The patches a cheat file holds.
pub open spec fn cheats_of(content: Seq<char>) -> Seq<CheatPatch> {
    cheats_of_lines(split_lines(content))
}

/// Once a digit prefix exceeds `limit`, the whole number does too (or is not a number).
proof fn lemma_hex_number_grows(s: Seq<char>, k: int, limit: nat)
    requires
        1 <= k <= s.len(),
        hex_number(s.subrange(0, k)) matches Some(p) && p > limit,
    ensures
        !(hex_number(s) matches Some(n) && n <= limit),
    decreases s.len() - k,
{
    if k < s.len() {
        assert(s.subrange(0, k + 1).drop_last() =~= s.subrange(0, k));
        assert(s.subrange(0, k + 1).last() == s[k]);
        if hex_number(s.subrange(0, k + 1)) is None {
            lemma_hex_number_none_extends(s, k + 1);
        } else {
            lemma_hex_number_grows(s, k + 1, limit);
        }
    } else {
        assert(s.subrange(0, k) =~= s);
    }
}

/// A digit prefix that is not a number keeps the whole from being one.
proof fn lemma_hex_number_none_extends(s: Seq<char>, k: int)
    requires
        1 <= k <= s.len(),
        hex_number(s.subrange(0, k)) is None,
    ensures
        hex_number(s) is None,
    decreases s.len() - k,
{
    if k < s.len() {
        assert(s.subrange(0, k + 1).drop_last() =~= s.subrange(0, k));
        lemma_hex_number_none_extends(s, k + 1);
    } else {
        assert(s.subrange(0, k) =~= s);
    }
}

/// `from_str_radix(v[lo..hi], 16)` for a type whose largest value is `limit`.
fn parse_radix16(v: &[char], lo: usize, hi: usize, limit: u32) -> (r: Option<u32>)
    requires
        lo <= hi <= v@.len(),
        limit <= 0xFFFF,
    ensures
        r matches Some(n) ==> radix16_upto(v@.subrange(lo as int, hi as int), limit as nat) == Some(
            n as nat,
        ),
        r is None ==> radix16_upto(v@.subrange(lo as int, hi as int), limit as nat) is None,
{
    let ghost s = v@.subrange(lo as int, hi as int);
    let mut i = lo;
    if i < hi && v[i] == '+' {
        i = i + 1;
    }
    let start = i;
    let ghost digits = v@.subrange(start as int, hi as int);
    assert(radix16(s) == hex_number(digits)) by {
        if lo < hi && v@[lo as int] == '+' {
            assert(s.drop_first() =~= digits);
        } else {
            assert(s =~= digits);
        }
    }
    if i == hi {
        return None;
    }
    let mut acc: u32 = 0;
    while i < hi
        invariant
            lo <= start <= i <= hi <= v@.len(),
            start < hi,
            limit <= 0xFFFF,
            digits == v@.subrange(start as int, hi as int),
            s == v@.subrange(lo as int, hi as int),
            radix16(s) == hex_number(digits),
            acc <= limit,
            i == start ==> acc == 0,
            i > start ==> hex_number(v@.subrange(start as int, i as int)) == Some(acc as nat),
        decreases hi - i,
    {
        let d = match crate::theme::hex_digit(v[i]) {
            Some(d) => d,
            None => {
                proof {
                    let k = (i - start + 1) as int;
                    let pre = digits.subrange(0, k);
                    assert(pre.last() == v@[i as int]);
                    if k > 1 {
                        assert(pre.drop_last() =~= v@.subrange(start as int, i as int));
                    } else {
                        assert(pre[0] == v@[i as int]);
                    }
                    assert(hex_number(pre) is None);
                    lemma_hex_number_none_extends(digits, k);
                }
                return None;
            },
        };
        let next = acc * 16 + d as u32;
        proof {
            let k = (i - start + 1) as int;
            let pre = digits.subrange(0, k);
            assert(pre =~= v@.subrange(start as int, i + 1));
            assert(pre.last() == v@[i as int]);
            if k > 1 {
                assert(pre.drop_last() =~= v@.subrange(start as int, i as int));
            } else {
                assert(pre[0] == v@[i as int]);
            }
            assert(hex_number(pre) == Some(next as nat));
        }
        if next > limit {
            proof {
                lemma_hex_number_grows(digits, (i - start + 1) as int, limit as nat);
            }
            return None;
        }
        acc = next;
        i = i + 1;
    }
    assert(v@.subrange(start as int, hi as int) =~= digits);
    Some(acc)
}

/// The patch the line `v[lo..hi]` describes.
fn parse_cheat_line(v: &[char], lo: usize, hi: usize) -> (r: Option<CheatPatch>)
    requires
        lo <= hi <= v@.len(),
    ensures
        r == cheat_of_line(v@.subrange(lo as int, hi as int)),
{
    let (a, b) = trim_range(v, lo, hi);
    let ghost t = v@.subrange(a as int, b as int);
    if a == b || v[a] == '#' {
        return None;
    }
    let mut k = a;
    while k < b && v[k] != ':'
        invariant
            a <= k <= b <= v@.len(),
            t == v@.subrange(a as int, b as int),
            first_index(t, ':') == (match first_index(v@.subrange(k as int, b as int), ':') {
                Some(i) => Some(i + (k - a)),
                None => None,
            }),
        decreases b - k,
    {
        assert(v@.subrange(k as int, b as int).drop_first() =~= v@.subrange(k + 1, b as int));
        k = k + 1;
    }
    if k == b {
        return None;
    }
    assert(first_index(t, ':') == Some((k - a) as int));
    let (a1, b1) = trim_range(v, a, k);
    let (a2, b2) = trim_range(v, k + 1, b);
    assert(t.subrange(0, (k - a) as int) =~= v@.subrange(a as int, k as int));
    assert(t.subrange((k - a) + 1, t.len() as int) =~= v@.subrange(k + 1, b as int));
    let addr = parse_radix16(v, a1, b1, 0xFFFF);
    let value = parse_radix16(v, a2, b2, 0xFF);
    match (addr, value) {
        (Some(x), Some(y)) => Some(CheatPatch { addr: x as u16, value: y as u8 }),
        _ => None,
    }
}

/// The patches of a cheat file: one `ADDR:VALUE` per line (hexadecimal, optional `+`),
/// blank lines and `#` comments skipped, malformed lines ignored.
pub fn parse_cheats(content: &str) -> (r: Vec<CheatPatch>)
    ensures
        r@ == cheats_of(content@),
{
    let v = chars_of(content);
    let n = v.len();
    let mut out: Vec<CheatPatch> = Vec::new();
    let mut start: usize = 0;
    let mut i: usize = 0;
    while i < n
        invariant
            n == v@.len(),
            v@ == content@,
            start <= i <= n,
            split_acc(v@.subrange(0, i as int), '\n').1 == v@.subrange(start as int, i as int),
            out@ == cheats_of_lines(split_acc(v@.subrange(0, i as int), '\n').0),
        decreases n - i,
    {
        let ghost pre = v@.subrange(0, i as int);
        assert(v@.subrange(0, i + 1).drop_last() =~= pre);
        if v[i] == '\n' {
            let c = parse_cheat_line(v.as_slice(), start, i);
            proof {
                let (done, cur) = split_acc(pre, '\n');
                assert(done.push(cur).drop_last() =~= done);
                assert(done.push(cur).last() == cur);
            }
            if let Some(p) = c {
                out.push(p);
            }
            start = i + 1;
            assert(v@.subrange(start as int, i + 1) =~= Seq::<char>::empty());
        } else {
            assert(v@.subrange(start as int, i + 1) =~= v@.subrange(start as int, i as int).push(v@[i as int]));
        }
        i = i + 1;
    }
    assert(v@.subrange(0, n as int) =~= v@);
    let c = parse_cheat_line(v.as_slice(), start, n);
    proof {
        let (done, cur) = split_acc(v@, '\n');
        assert(done.push(cur).drop_last() =~= done);
        assert(done.push(cur).last() == cur);
    }
    if let Some(p) = c {
        out.push(p);
    }
    out
}

/// The bus after writing `cheats` in order, the `i`-th write seeing the clock at `ts[i]`.
pub open spec fn cheats_written(b: BusState, cheats: Seq<CheatPatch>, ts: Seq<u64>) -> BusState
    decreases cheats.len(),
{
    if cheats.len() == 0 || ts.len() == 0 {
        b
    } else {
        cheats_written(b, cheats.drop_last(), ts.drop_last()).write(
            cheats.last().addr,
            cheats.last().value,
            ts.last(),
        )
    }
}

/// Writes every patch to the bus, in order.
pub fn apply_cheats(gb: &mut GameBoy, cheats: &[CheatPatch])
    requires
        old(gb).wf(),
    ensures
        final(gb).wf(),
        final(gb).cpu == old(gb).cpu,
        exists|ts: Seq<u64>|
            ts.len() == cheats@.len() && final(gb).bus@ == cheats_written(old(gb).bus@, cheats@, ts),
{
    let ghost mut ts: Seq<u64> = Seq::empty();
    let mut i: usize = 0;
    while i < cheats.len()
        invariant
            i <= cheats@.len(),
            gb.wf(),
            gb.cpu == old(gb).cpu,
            ts.len() == i,
            gb.bus@ == cheats_written(old(gb).bus@, cheats@.subrange(0, i as int), ts),
        decreases cheats@.len() - i,
    {
        let ghost before = gb.bus@;
        let c = cheats[i];
        gb.bus.write(c.addr, c.value);
        proof {
            let t = choose|t: u64| gb.bus@ == before.write(c.addr, c.value, t);
            assert(cheats@.subrange(0, i + 1).drop_last() =~= cheats@.subrange(0, i as int));
            assert(ts.push(t).drop_last() =~= ts);
            ts = ts.push(t);
        }
        i = i + 1;
    }
    assert(cheats@.subrange(0, i as int) =~= cheats@);
}

} // verus!
