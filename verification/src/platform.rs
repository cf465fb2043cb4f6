//! ROM target classification from the cartridge header and the file extension.

use vstd::prelude::*;

use crate::cartridge::header::cgb_support_of;
use crate::cartridge::CgbSupport;

verus! {

#[derive(Debug, Clone, Copy, PartialEq, Eq, Structural)]
pub enum RomTarget {
    DmgCompatible,
    GbcRequired,
}

#[derive(Debug, Clone, Copy, PartialEq, Eq)]
pub enum LaunchCompatibility {
    Supported,
    Unsupported { reason: &'static str },
}

impl RomTarget {
    /// Both DMG and CGB-only cartridges can be launched.
    pub fn launch_compatibility(self) -> (r: LaunchCompatibility)
        ensures
            r == LaunchCompatibility::Supported,
    {
        match self {
            RomTarget::DmgCompatible | RomTarget::GbcRequired => LaunchCompatibility::Supported,
        }
    }
}

/// Target of a ROM whose first bytes are `prefix`: CGB-only when a full header marks it so.
pub open spec fn classify_spec(prefix: Seq<u8>) -> RomTarget {
    if prefix.len() >= 0x150 && cgb_support_of(prefix[0x143]) is GbcOnly {
        RomTarget::GbcRequired
    } else {
        RomTarget::DmgCompatible
    }
}

/// Classifies a ROM from its first bytes (`0x150` are enough).
pub fn classify_rom(rom_prefix: &[u8]) -> (r: RomTarget)
    ensures
        r == classify_spec(rom_prefix@),
{
    if rom_prefix.len() >= 0x150 {
        if matches!(CgbSupport::from_header_byte(rom_prefix[0x0143]), CgbSupport::GbcOnly) {
            return RomTarget::GbcRequired;
        }
    }
    RomTarget::DmgCompatible
}

/// ASCII lower case of `c`.
pub open spec fn ascii_lower(c: char) -> char {
    if 'A' <= c <= 'Z' {
        ((c as u32) + 32) as char
    } else {
        c
    }
}

pub fn to_ascii_lower(c: char) -> (r: char)
    ensures
        r == ascii_lower(c),
{
    if 'A' <= c && c <= 'Z' {
        ((c as u8) + 32) as char
    } else {
        c
    }
}

/// Whether a file extension names a Game Boy ROM (`gb` or `gbc`, in any ASCII case).
pub open spec fn is_rom_extension(ext: Seq<char>) -> bool {
    let l = ext.map_values(|c: char| ascii_lower(c));
    l =~= seq!['g', 'b'] || l =~= seq!['g', 'b', 'c']
}

pub fn rom_extension_ok(ext: &str) -> (r: bool)
    ensures
        r == is_rom_extension(ext@),
{
    let n = ext.unicode_len();
    if n != 2 && n != 3 {
        return false;
    }
    let c0 = to_ascii_lower(ext.get_char(0));
    let c1 = to_ascii_lower(ext.get_char(1));
    let ghost l = ext@.map_values(|c: char| ascii_lower(c));
    assert(l.len() == n);
    assert(l[0] == c0 && l[1] == c1);
    if n == 2 {
        c0 == 'g' && c1 == 'b'
    } else {
        let c2 = to_ascii_lower(ext.get_char(2));
        assert(l[2] == c2);
        c0 == 'g' && c1 == 'b' && c2 == 'c'
    }
}

/// Why a file cannot be launched: an unsupported extension (none, or anything but
/// `gb`/`gbc`), as the characters of the message shown to the user.
pub open spec fn unsupported_extension_message(ext: Seq<char>) -> Seq<char> {
    "Unsupported ROM format: ."@ + (if ext.len() == 0 {
        "<none>"@
    } else {
        ext.map_values(|c: char| ascii_lower(c))
    }) + " (supported extensions: .gb, .gbc)"@
}

/// Launch check of a ROM file from its extension and its first bytes: an unsupported
/// extension is refused with a message, otherwise the header decides.
pub fn rom_launch_check(ext: &str, rom_prefix: &[u8]) -> (r: Result<(), String>)
    ensures
        !is_rom_extension(ext@) ==> r is Err && r->Err_0@ == unsupported_extension_message(ext@),
        is_rom_extension(ext@) ==> r is Ok,
{
    if !rom_extension_ok(ext) {
        let mut msg: Vec<char> = Vec::new();
        crate::text::push_str_chars(&mut msg, "Unsupported ROM format: .");
        let n = ext.unicode_len();
        if n == 0 {
            crate::text::push_str_chars(&mut msg, "<none>");
        } else {
            let mut i: usize = 0;
            while i < n
                invariant
                    n == ext@.len(),
                    i <= n,
                    msg@ == "Unsupported ROM format: ."@ + ext@.map_values(|c: char| ascii_lower(c)).subrange(
                        0,
                        i as int,
                    ),
                decreases n - i,
            {
                let c = to_ascii_lower(ext.get_char(i));
                msg.push(c);
                i = i + 1;
                assert(ext@.map_values(|c: char| ascii_lower(c)).subrange(0, i as int)
                    =~= ext@.map_values(|c: char| ascii_lower(c)).subrange(0, i - 1).push(c));
            }
            assert(ext@.map_values(|c: char| ascii_lower(c)).subrange(0, n as int)
                =~= ext@.map_values(|c: char| ascii_lower(c)));
        }
        crate::text::push_str_chars(&mut msg, " (supported extensions: .gb, .gbc)");
        return Err(crate::text::string_from_chars(msg.as_slice()));
    }
    match classify_rom(rom_prefix).launch_compatibility() {
        LaunchCompatibility::Supported => Ok(()),
        LaunchCompatibility::Unsupported { reason } => Err(reason.to_owned()),
    }
}

} // verus!
