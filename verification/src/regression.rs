//! Pass/fail decisions of the compatibility suite: serial output and frame hashes.

use vstd::prelude::*;

verus! {

pub const FNV_OFFSET: u64 = 0xcbf29ce484222325;
pub const FNV_PRIME: u64 = 0x100000001b3;

/// 64-bit FNV-1a hash of `buf`.
pub open spec fn fnv1a(buf: Seq<u8>) -> u64
    decreases buf.len(),
{
    if buf.len() == 0 {
        FNV_OFFSET
    } else {
        (((fnv1a(buf.drop_last()) ^ (buf.last() as u64)) as int * FNV_PRIME as int) % 0x1_0000_0000_0000_0000) as u64
    }
}

/// FNV-1a hash of a frame, recorded to detect rendering changes.
pub fn framebuffer_hash(buf: &[u8]) -> (h: u64)
    ensures
        h == fnv1a(buf@),
{
    let mut h: u64 = FNV_OFFSET;
    let mut i: usize = 0;
    while i < buf.len()
        invariant
            i <= buf@.len(),
            h == fnv1a(buf@.subrange(0, i as int)),
        decreases buf@.len() - i,
    {
        assert(buf@.subrange(0, i + 1).drop_last() =~= buf@.subrange(0, i as int));
        h = h ^ (buf[i] as u64);
        h = h.wrapping_mul(FNV_PRIME);
        i = i + 1;
    }
    assert(buf@.subrange(0, buf@.len() as int) =~= buf@);
    h
}

/// Whether `needle` occurs in `hay` at position `i`.
pub open spec fn occurs_at(hay: Seq<char>, needle: Seq<char>, i: int) -> bool {
    0 <= i && i + needle.len() <= hay.len() && hay.subrange(i, i + needle.len()) == needle
}

/// Whether `needle` occurs in `hay`.
pub open spec fn contains(hay: Seq<char>, needle: Seq<char>) -> bool {
    exists|i: int| occurs_at(hay, needle, i)
}

fn occurs_at_exec(hay: &[char], needle: &[char], i: usize) -> (r: bool)
    requires
        i + needle@.len() <= hay@.len(),
    ensures
        r == occurs_at(hay@, needle@, i as int),
{
    let hl = hay.len();
    let mut j: usize = 0;
    while j < needle.len()
        invariant
            hl == hay@.len(),
            i + needle@.len() <= hay@.len(),
            j <= needle@.len(),
            forall|k: int| 0 <= k < j ==> hay@[i + k] == needle@[k],
        decreases needle@.len() - j,
    {
        if hay[i + j] != needle[j] {
            assert(hay@.subrange(i as int, i + needle@.len())[j as int] != needle@[j as int]);
            return false;
        }
        j = j + 1;
    }
    assert(hay@.subrange(i as int, i + needle@.len()) =~= needle@);
    true
}

/// Whether `needle` occurs in `hay` (an empty needle always does).
pub fn contains_chars(hay: &[char], needle: &[char]) -> (r: bool)
    ensures
        r == contains(hay@, needle@),
{
    if needle.len() > hay.len() {
        assert forall|i: int| !occurs_at(hay@, needle@, i) by {}
        return false;
    }
    let last = hay.len() - needle.len();
    let mut i: usize = 0;
    while i < last
        invariant
            last == hay@.len() - needle@.len(),
            i <= last,
            forall|k: int| 0 <= k < i ==> !occurs_at(hay@, needle@, k),
        decreases last - i,
    {
        if occurs_at_exec(hay, needle, i) {
            return true;
        }
        i = i + 1;
    }
    if occurs_at_exec(hay, needle, last) {
        return true;
    }
    assert forall|k: int| !occurs_at(hay@, needle@, k) by {
        if 0 <= k < last {
        }
    }
    false
}

/// A case passes when its serial output contains the expected text and its frame hash
/// matches, each only when given.
pub open spec fn case_passes(
    serial: Seq<char>,
    serial_contains: Option<Seq<char>>,
    hash: u64,
    expected_hash: Option<u64>,
) -> bool {
    &&& match serial_contains {
        Some(n) => contains(serial, n),
        None => true,
    }
    &&& match expected_hash {
        Some(e) => e == hash,
        None => true,
    }
}

/// Verdict of one case: whether the serial text was found and whether the hash matched.
pub fn case_verdict(
    serial: &[char],
    serial_contains: Option<&[char]>,
    hash: u64,
    expected_hash: Option<u64>,
) -> (r: (bool, bool))
    ensures
        r.0 == match serial_contains {
            Some(n) => contains(serial@, n@),
            None => true,
        },
        r.1 == match expected_hash {
            Some(e) => e == hash,
            None => true,
        },
{
    let serial_ok = match serial_contains {
        Some(n) => contains_chars(serial, n),
        None => true,
    };
    let frame_ok = match expected_hash {
        Some(e) => e == hash,
        None => true,
    };
    (serial_ok, frame_ok)
}

} // verus!
