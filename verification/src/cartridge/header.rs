//! Cartridge header parsing (0x0100–0x014F in ROM).

use vstd::prelude::*;

use crate::bits::{lemma_byte_pair, lemma_u32_low_byte, lemma_u8_fields, pow2_u8};
use crate::text::{decode_utf8_lossy, trim_str, trim_ws, utf8_lossy};

verus! {

/// Why a header could not be read.
#[derive(Debug, Clone, Copy, PartialEq, Eq, Structural)]
pub enum HeaderError {
    TooSmall,
    ChecksumMismatch,
}

impl HeaderError {
    /// Human-readable description of the error.
    pub fn message(&self) -> (r: &'static str)
        ensures
            *self == HeaderError::TooSmall ==> r@ == "ROM too small for header (need 0x150 bytes)"@,
            *self == HeaderError::ChecksumMismatch ==> r@ == "invalid header checksum"@,
    {
        match self {
            HeaderError::TooSmall => "ROM too small for header (need 0x150 bytes)",
            HeaderError::ChecksumMismatch => "invalid header checksum",
        }
    }
}

/// Memory bank controller named by header byte `0x0147`.
#[derive(Debug, Clone, Copy, PartialEq, Eq, Structural)]
pub enum CartridgeType {
    RomOnly,
    Mbc1,
    Mbc1Ram,
    Mbc1RamBattery,
    Mbc2,
    Mbc2Battery,
    Mbc3,
    Mbc3Ram,
    Mbc3RamBattery,
    Mbc3TimerBattery,
    Mbc3TimerRamBattery,
    Mbc5,
    Mbc5Ram,
    Mbc5RamBattery,
    Mbc5Rumble,
    Mbc5RumbleRam,
    Mbc5RumbleRamBattery,
    Unknown(u8),
}

/// The cartridge type that header byte `b` names.
pub open spec fn cartridge_type_of(b: u8) -> CartridgeType {
    match b {
        0x00 => CartridgeType::RomOnly,
        0x01 => CartridgeType::Mbc1,
        0x02 => CartridgeType::Mbc1Ram,
        0x03 => CartridgeType::Mbc1RamBattery,
        0x05 => CartridgeType::Mbc2,
        0x06 => CartridgeType::Mbc2Battery,
        0x0F => CartridgeType::Mbc3TimerBattery,
        0x10 => CartridgeType::Mbc3TimerRamBattery,
        0x11 => CartridgeType::Mbc3,
        0x12 => CartridgeType::Mbc3Ram,
        0x13 => CartridgeType::Mbc3RamBattery,
        0x19 => CartridgeType::Mbc5,
        0x1A => CartridgeType::Mbc5Ram,
        0x1B => CartridgeType::Mbc5RamBattery,
        0x1C => CartridgeType::Mbc5Rumble,
        0x1D => CartridgeType::Mbc5RumbleRam,
        0x1E => CartridgeType::Mbc5RumbleRamBattery,
        _ => CartridgeType::Unknown(b),
    }
}

/// The header byte that names a known cartridge type (inverse of `cartridge_type_of`).
pub open spec fn cartridge_type_code(t: CartridgeType) -> u8 {
    match t {
        CartridgeType::RomOnly => 0x00,
        CartridgeType::Mbc1 => 0x01,
        CartridgeType::Mbc1Ram => 0x02,
        CartridgeType::Mbc1RamBattery => 0x03,
        CartridgeType::Mbc2 => 0x05,
        CartridgeType::Mbc2Battery => 0x06,
        CartridgeType::Mbc3TimerBattery => 0x0F,
        CartridgeType::Mbc3TimerRamBattery => 0x10,
        CartridgeType::Mbc3 => 0x11,
        CartridgeType::Mbc3Ram => 0x12,
        CartridgeType::Mbc3RamBattery => 0x13,
        CartridgeType::Mbc5 => 0x19,
        CartridgeType::Mbc5Ram => 0x1A,
        CartridgeType::Mbc5RamBattery => 0x1B,
        CartridgeType::Mbc5Rumble => 0x1C,
        CartridgeType::Mbc5RumbleRam => 0x1D,
        CartridgeType::Mbc5RumbleRamBattery => 0x1E,
        CartridgeType::Unknown(b) => b,
    }
}

impl CartridgeType {
    pub open spec fn spec_has_ram(self) -> bool {
        match self {
            CartridgeType::Mbc1Ram | CartridgeType::Mbc1RamBattery | CartridgeType::Mbc2
            | CartridgeType::Mbc2Battery | CartridgeType::Mbc3Ram | CartridgeType::Mbc3RamBattery
            | CartridgeType::Mbc3TimerRamBattery | CartridgeType::Mbc5Ram
            | CartridgeType::Mbc5RamBattery | CartridgeType::Mbc5RumbleRam
            | CartridgeType::Mbc5RumbleRamBattery => true,
            _ => false,
        }
    }

    pub open spec fn spec_has_battery(self) -> bool {
        match self {
            CartridgeType::Mbc1RamBattery | CartridgeType::Mbc2Battery
            | CartridgeType::Mbc3RamBattery | CartridgeType::Mbc3TimerBattery
            | CartridgeType::Mbc3TimerRamBattery | CartridgeType::Mbc5RamBattery
            | CartridgeType::Mbc5RumbleRamBattery => true,
            _ => false,
        }
    }

    pub fn from_byte(b: u8) -> (r: Self)
        ensures
            r == cartridge_type_of(b),
            cartridge_type_code(r) == b,
    {
        match b {
            0x00 => CartridgeType::RomOnly,
            0x01 => CartridgeType::Mbc1,
            0x02 => CartridgeType::Mbc1Ram,
            0x03 => CartridgeType::Mbc1RamBattery,
            0x05 => CartridgeType::Mbc2,
            0x06 => CartridgeType::Mbc2Battery,
            0x0F => CartridgeType::Mbc3TimerBattery,
            0x10 => CartridgeType::Mbc3TimerRamBattery,
            0x11 => CartridgeType::Mbc3,
            0x12 => CartridgeType::Mbc3Ram,
            0x13 => CartridgeType::Mbc3RamBattery,
            0x19 => CartridgeType::Mbc5,
            0x1A => CartridgeType::Mbc5Ram,
            0x1B => CartridgeType::Mbc5RamBattery,
            0x1C => CartridgeType::Mbc5Rumble,
            0x1D => CartridgeType::Mbc5RumbleRam,
            0x1E => CartridgeType::Mbc5RumbleRamBattery,
            _ => CartridgeType::Unknown(b),
        }
    }

    /// Display name of the controller.
    pub fn as_str(&self) -> (r: &'static str)
        ensures
            r@ == self.spec_name(),
    {
        match self {
            CartridgeType::RomOnly => "ROM only (MBC0)",
            CartridgeType::Mbc1 => "MBC1",
            CartridgeType::Mbc1Ram => "MBC1+RAM",
            CartridgeType::Mbc1RamBattery => "MBC1+RAM+BATTERY",
            CartridgeType::Mbc2 => "MBC2",
            CartridgeType::Mbc2Battery => "MBC2+BATTERY",
            CartridgeType::Mbc3 => "MBC3",
            CartridgeType::Mbc3Ram => "MBC3+RAM",
            CartridgeType::Mbc3RamBattery => "MBC3+RAM+BATTERY",
            CartridgeType::Mbc3TimerBattery => "MBC3+TIMER+BATTERY",
            CartridgeType::Mbc3TimerRamBattery => "MBC3+TIMER+RAM+BATTERY",
            CartridgeType::Mbc5 => "MBC5",
            CartridgeType::Mbc5Ram => "MBC5+RAM",
            CartridgeType::Mbc5RamBattery => "MBC5+RAM+BATTERY",
            CartridgeType::Mbc5Rumble => "MBC5+RUMBLE",
            CartridgeType::Mbc5RumbleRam => "MBC5+RUMBLE+RAM",
            CartridgeType::Mbc5RumbleRamBattery => "MBC5+RUMBLE+RAM+BATTERY",
            CartridgeType::Unknown(_) => "Unknown MBC",
        }
    }

    pub open spec fn spec_name(self) -> Seq<char> {
        match self {
            CartridgeType::RomOnly => "ROM only (MBC0)"@,
            CartridgeType::Mbc1 => "MBC1"@,
            CartridgeType::Mbc1Ram => "MBC1+RAM"@,
            CartridgeType::Mbc1RamBattery => "MBC1+RAM+BATTERY"@,
            CartridgeType::Mbc2 => "MBC2"@,
            CartridgeType::Mbc2Battery => "MBC2+BATTERY"@,
            CartridgeType::Mbc3 => "MBC3"@,
            CartridgeType::Mbc3Ram => "MBC3+RAM"@,
            CartridgeType::Mbc3RamBattery => "MBC3+RAM+BATTERY"@,
            CartridgeType::Mbc3TimerBattery => "MBC3+TIMER+BATTERY"@,
            CartridgeType::Mbc3TimerRamBattery => "MBC3+TIMER+RAM+BATTERY"@,
            CartridgeType::Mbc5 => "MBC5"@,
            CartridgeType::Mbc5Ram => "MBC5+RAM"@,
            CartridgeType::Mbc5RamBattery => "MBC5+RAM+BATTERY"@,
            CartridgeType::Mbc5Rumble => "MBC5+RUMBLE"@,
            CartridgeType::Mbc5RumbleRam => "MBC5+RUMBLE+RAM"@,
            CartridgeType::Mbc5RumbleRamBattery => "MBC5+RUMBLE+RAM+BATTERY"@,
            CartridgeType::Unknown(_) => "Unknown MBC"@,
        }
    }

    pub fn has_ram(&self) -> (r: bool)
        ensures
            r == self.spec_has_ram(),
    {
        match self {
            CartridgeType::Mbc1Ram | CartridgeType::Mbc1RamBattery | CartridgeType::Mbc2
            | CartridgeType::Mbc2Battery | CartridgeType::Mbc3Ram | CartridgeType::Mbc3RamBattery
            | CartridgeType::Mbc3TimerRamBattery | CartridgeType::Mbc5Ram
            | CartridgeType::Mbc5RamBattery | CartridgeType::Mbc5RumbleRam
            | CartridgeType::Mbc5RumbleRamBattery => true,
            _ => false,
        }
    }

    pub fn has_battery(&self) -> (r: bool)
        ensures
            r == self.spec_has_battery(),
    {
        match self {
            CartridgeType::Mbc1RamBattery | CartridgeType::Mbc2Battery
            | CartridgeType::Mbc3RamBattery | CartridgeType::Mbc3TimerBattery
            | CartridgeType::Mbc3TimerRamBattery | CartridgeType::Mbc5RamBattery
            | CartridgeType::Mbc5RumbleRamBattery => true,
            _ => false,
        }
    }
}

/// `w` occurs in `s` as a run of consecutive characters.
pub open spec fn has_infix(s: Seq<char>, w: Seq<char>) -> bool {
    exists|i: int| 0 <= i && i + w.len() <= s.len() && #[trigger] s.subrange(i, i + w.len()) == w
}

/// A word with a character that `s` lacks does not occur in `s`.
proof fn lemma_no_infix(s: Seq<char>, w: Seq<char>, k: int)
    requires
        0 <= k < w.len(),
        forall|j: int| 0 <= j < s.len() ==> s[j] != w[k],
    ensures
        !has_infix(s, w),
{
    if has_infix(s, w) {
        let i = choose|i: int| 0 <= i && i + w.len() <= s.len() && #[trigger] s.subrange(i, i + w.len()) == w;
        assert(s.subrange(i, i + w.len())[k] == s[i + k]);
    }
}

/// No two neighbouring characters of `s` spell the first two characters of `w`.
proof fn lemma_no_infix_pair(s: Seq<char>, w: Seq<char>)
    requires
        2 <= w.len(),
        forall|j: int| 0 <= j && j + 1 < s.len() ==> #[trigger] s[j] != w[0] || s[j + 1] != w[1],
    ensures
        !has_infix(s, w),
{
    if has_infix(s, w) {
        let i = choose|i: int| 0 <= i && i + w.len() <= s.len() && #[trigger] s.subrange(i, i + w.len()) == w;
        assert(s.subrange(i, i + w.len())[0] == s[i]);
        assert(s.subrange(i, i + w.len())[1] == s[i + 1]);
    }
}

/// The name of a cartridge type says what its flags say: "BATTERY" appears in it exactly
/// when the cartridge has a battery, "RAM" appears only when it has RAM, and the name is
/// "Unknown MBC" exactly for an unknown type.
pub proof fn lemma_cartridge_name_flags(t: CartridgeType)
    ensures
        has_infix(t.spec_name(), "BATTERY"@) == t.spec_has_battery(),
        has_infix(t.spec_name(), "RAM"@) ==> t.spec_has_ram(),
        (t.spec_name() == "Unknown MBC"@) == (t is Unknown),
{
    reveal_strlit("BATTERY");
    reveal_strlit("RAM");
    reveal_strlit("Unknown MBC");
    match t {
        CartridgeType::RomOnly => {
            reveal_strlit("ROM only (MBC0)");
            assert(t.spec_name().len() != "Unknown MBC"@.len());
            assert(t.spec_name() != "Unknown MBC"@);
            lemma_no_infix(t.spec_name(), "BATTERY"@, 1);
            assert(!has_infix(t.spec_name(), "BATTERY"@));
            lemma_no_infix(t.spec_name(), "RAM"@, 1);
        },
        CartridgeType::Mbc1 => {
            reveal_strlit("MBC1");
            assert(t.spec_name().len() != "Unknown MBC"@.len());
            assert(t.spec_name() != "Unknown MBC"@);
            lemma_no_infix(t.spec_name(), "BATTERY"@, 6);
            assert(!has_infix(t.spec_name(), "BATTERY"@));
            lemma_no_infix(t.spec_name(), "RAM"@, 1);
        },
        CartridgeType::Mbc1Ram => {
            reveal_strlit("MBC1+RAM");
            assert(t.spec_name().len() != "Unknown MBC"@.len());
            assert(t.spec_name() != "Unknown MBC"@);
            lemma_no_infix(t.spec_name(), "BATTERY"@, 6);
            assert(!has_infix(t.spec_name(), "BATTERY"@));
        },
        CartridgeType::Mbc1RamBattery => {
            reveal_strlit("MBC1+RAM+BATTERY");
            assert(t.spec_name().len() != "Unknown MBC"@.len());
            assert(t.spec_name() != "Unknown MBC"@);
            assert(t.spec_name().subrange(9, 9int + "BATTERY"@.len()) == "BATTERY"@);
            assert(has_infix(t.spec_name(), "BATTERY"@));
        },
        CartridgeType::Mbc2 => {
            reveal_strlit("MBC2");
            assert(t.spec_name().len() != "Unknown MBC"@.len());
            assert(t.spec_name() != "Unknown MBC"@);
            lemma_no_infix(t.spec_name(), "BATTERY"@, 6);
            assert(!has_infix(t.spec_name(), "BATTERY"@));
            lemma_no_infix(t.spec_name(), "RAM"@, 1);
        },
        CartridgeType::Mbc2Battery => {
            reveal_strlit("MBC2+BATTERY");
            assert(t.spec_name().len() != "Unknown MBC"@.len());
            assert(t.spec_name() != "Unknown MBC"@);
            assert(t.spec_name().subrange(5, 5int + "BATTERY"@.len()) == "BATTERY"@);
            assert(has_infix(t.spec_name(), "BATTERY"@));
            lemma_no_infix_pair(t.spec_name(), "RAM"@);
        },
        CartridgeType::Mbc3 => {
            reveal_strlit("MBC3");
            assert(t.spec_name().len() != "Unknown MBC"@.len());
            assert(t.spec_name() != "Unknown MBC"@);
            lemma_no_infix(t.spec_name(), "BATTERY"@, 6);
            assert(!has_infix(t.spec_name(), "BATTERY"@));
            lemma_no_infix(t.spec_name(), "RAM"@, 1);
        },
        CartridgeType::Mbc3Ram => {
            reveal_strlit("MBC3+RAM");
            assert(t.spec_name().len() != "Unknown MBC"@.len());
            assert(t.spec_name() != "Unknown MBC"@);
            lemma_no_infix(t.spec_name(), "BATTERY"@, 6);
            assert(!has_infix(t.spec_name(), "BATTERY"@));
        },
        CartridgeType::Mbc3RamBattery => {
            reveal_strlit("MBC3+RAM+BATTERY");
            assert(t.spec_name().len() != "Unknown MBC"@.len());
            assert(t.spec_name() != "Unknown MBC"@);
            assert(t.spec_name().subrange(9, 9int + "BATTERY"@.len()) == "BATTERY"@);
            assert(has_infix(t.spec_name(), "BATTERY"@));
        },
        CartridgeType::Mbc3TimerBattery => {
            reveal_strlit("MBC3+TIMER+BATTERY");
            assert(t.spec_name().len() != "Unknown MBC"@.len());
            assert(t.spec_name() != "Unknown MBC"@);
            assert(t.spec_name().subrange(11, 11int + "BATTERY"@.len()) == "BATTERY"@);
            assert(has_infix(t.spec_name(), "BATTERY"@));
            lemma_no_infix_pair(t.spec_name(), "RAM"@);
        },
        CartridgeType::Mbc3TimerRamBattery => {
            reveal_strlit("MBC3+TIMER+RAM+BATTERY");
            assert(t.spec_name().len() != "Unknown MBC"@.len());
            assert(t.spec_name() != "Unknown MBC"@);
            assert(t.spec_name().subrange(15, 15int + "BATTERY"@.len()) == "BATTERY"@);
            assert(has_infix(t.spec_name(), "BATTERY"@));
        },
        CartridgeType::Mbc5 => {
            reveal_strlit("MBC5");
            assert(t.spec_name().len() != "Unknown MBC"@.len());
            assert(t.spec_name() != "Unknown MBC"@);
            lemma_no_infix(t.spec_name(), "BATTERY"@, 6);
            assert(!has_infix(t.spec_name(), "BATTERY"@));
            lemma_no_infix(t.spec_name(), "RAM"@, 1);
        },
        CartridgeType::Mbc5Ram => {
            reveal_strlit("MBC5+RAM");
            assert(t.spec_name().len() != "Unknown MBC"@.len());
            assert(t.spec_name() != "Unknown MBC"@);
            lemma_no_infix(t.spec_name(), "BATTERY"@, 6);
            assert(!has_infix(t.spec_name(), "BATTERY"@));
        },
        CartridgeType::Mbc5RamBattery => {
            reveal_strlit("MBC5+RAM+BATTERY");
            assert(t.spec_name().len() != "Unknown MBC"@.len());
            assert(t.spec_name() != "Unknown MBC"@);
            assert(t.spec_name().subrange(9, 9int + "BATTERY"@.len()) == "BATTERY"@);
            assert(has_infix(t.spec_name(), "BATTERY"@));
        },
        CartridgeType::Mbc5Rumble => {
            reveal_strlit("MBC5+RUMBLE");
            assert(t.spec_name()[0] != "Unknown MBC"@[0]);
            assert(t.spec_name() != "Unknown MBC"@);
            lemma_no_infix(t.spec_name(), "BATTERY"@, 6);
            assert(!has_infix(t.spec_name(), "BATTERY"@));
            lemma_no_infix(t.spec_name(), "RAM"@, 1);
        },
        CartridgeType::Mbc5RumbleRam => {
            reveal_strlit("MBC5+RUMBLE+RAM");
            assert(t.spec_name().len() != "Unknown MBC"@.len());
            assert(t.spec_name() != "Unknown MBC"@);
            lemma_no_infix(t.spec_name(), "BATTERY"@, 6);
            assert(!has_infix(t.spec_name(), "BATTERY"@));
        },
        CartridgeType::Mbc5RumbleRamBattery => {
            reveal_strlit("MBC5+RUMBLE+RAM+BATTERY");
            assert(t.spec_name().len() != "Unknown MBC"@.len());
            assert(t.spec_name() != "Unknown MBC"@);
            assert(t.spec_name().subrange(16, 16int + "BATTERY"@.len()) == "BATTERY"@);
            assert(has_infix(t.spec_name(), "BATTERY"@));
        },
        CartridgeType::Unknown(_) => {
            reveal_strlit("Unknown MBC");
            lemma_no_infix(t.spec_name(), "BATTERY"@, 6);
            assert(!has_infix(t.spec_name(), "BATTERY"@));
            lemma_no_infix(t.spec_name(), "RAM"@, 1);
        },
    }
}

/// Length and fourth character of a cartridge type's name.
spec fn name_shape(t: CartridgeType) -> (nat, char) {
    match t {
        CartridgeType::RomOnly => (15, ' '),
        CartridgeType::Mbc1 => (4, '1'),
        CartridgeType::Mbc1Ram => (8, '1'),
        CartridgeType::Mbc1RamBattery => (16, '1'),
        CartridgeType::Mbc2 => (4, '2'),
        CartridgeType::Mbc2Battery => (12, '2'),
        CartridgeType::Mbc3 => (4, '3'),
        CartridgeType::Mbc3Ram => (8, '3'),
        CartridgeType::Mbc3RamBattery => (16, '3'),
        CartridgeType::Mbc3TimerBattery => (18, '3'),
        CartridgeType::Mbc3TimerRamBattery => (22, '3'),
        CartridgeType::Mbc5 => (4, '5'),
        CartridgeType::Mbc5Ram => (8, '5'),
        CartridgeType::Mbc5RamBattery => (16, '5'),
        CartridgeType::Mbc5Rumble => (11, '5'),
        CartridgeType::Mbc5RumbleRam => (15, '5'),
        CartridgeType::Mbc5RumbleRamBattery => (23, '5'),
        CartridgeType::Unknown(_) => (11, 'n'),
    }
}

proof fn lemma_name_shape(t: CartridgeType)
    ensures
        t.spec_name().len() == name_shape(t).0,
        t.spec_name()[3] == name_shape(t).1,
{
    match t {
        CartridgeType::RomOnly => {
            reveal_strlit("ROM only (MBC0)");
        },
        CartridgeType::Mbc1 => {
            reveal_strlit("MBC1");
        },
        CartridgeType::Mbc1Ram => {
            reveal_strlit("MBC1+RAM");
        },
        CartridgeType::Mbc1RamBattery => {
            reveal_strlit("MBC1+RAM+BATTERY");
        },
        CartridgeType::Mbc2 => {
            reveal_strlit("MBC2");
        },
        CartridgeType::Mbc2Battery => {
            reveal_strlit("MBC2+BATTERY");
        },
        CartridgeType::Mbc3 => {
            reveal_strlit("MBC3");
        },
        CartridgeType::Mbc3Ram => {
            reveal_strlit("MBC3+RAM");
        },
        CartridgeType::Mbc3RamBattery => {
            reveal_strlit("MBC3+RAM+BATTERY");
        },
        CartridgeType::Mbc3TimerBattery => {
            reveal_strlit("MBC3+TIMER+BATTERY");
        },
        CartridgeType::Mbc3TimerRamBattery => {
            reveal_strlit("MBC3+TIMER+RAM+BATTERY");
        },
        CartridgeType::Mbc5 => {
            reveal_strlit("MBC5");
        },
        CartridgeType::Mbc5Ram => {
            reveal_strlit("MBC5+RAM");
        },
        CartridgeType::Mbc5RamBattery => {
            reveal_strlit("MBC5+RAM+BATTERY");
        },
        CartridgeType::Mbc5Rumble => {
            reveal_strlit("MBC5+RUMBLE");
        },
        CartridgeType::Mbc5RumbleRam => {
            reveal_strlit("MBC5+RUMBLE+RAM");
        },
        CartridgeType::Mbc5RumbleRamBattery => {
            reveal_strlit("MBC5+RUMBLE+RAM+BATTERY");
        },
        CartridgeType::Unknown(_) => {
            reveal_strlit("Unknown MBC");
        },
    }
}

/// Distinct known cartridge types have distinct names.
pub proof fn lemma_cartridge_names_distinct(t1: CartridgeType, t2: CartridgeType)
    requires
        !(t1 is Unknown),
        !(t2 is Unknown),
        t1 != t2,
    ensures
        t1.spec_name() != t2.spec_name(),
{
    lemma_name_shape(t1);
    lemma_name_shape(t2);
}

/// Cartridge header byte `0x0143` (CGB flag).
#[derive(Debug, Clone, Copy, PartialEq, Eq, Structural)]
pub enum CgbSupport {
    NoCgb,
    Dual,
    GbcOnly,
}

/// What header byte `b` says about Game Boy Color support.
pub open spec fn cgb_support_of(b: u8) -> CgbSupport {
    if b == 0xC0 {
        CgbSupport::GbcOnly
    } else if b >= 0x80 {
        CgbSupport::Dual
    } else {
        CgbSupport::NoCgb
    }
}

impl CgbSupport {
    pub fn from_header_byte(b: u8) -> (r: Self)
        ensures
            r == cgb_support_of(b),
    {
        assert((b & 0x80u8 != 0) == (b >= 0x80u8)) by { lemma_u8_fields(); }
        if b == 0xC0 {
            CgbSupport::GbcOnly
        } else if b == 0x80 {
            CgbSupport::Dual
        } else if (b & 0x80) != 0 {
            CgbSupport::Dual
        } else {
            CgbSupport::NoCgb
        }
    }
}

/// Parsed cartridge header.
#[derive(Debug, Clone)]
pub struct Header {
    pub title: String,
    pub cgb_support: CgbSupport,
    pub cartridge_type: CartridgeType,
    pub rom_banks: usize,
    pub ram_size_bytes: usize,
    pub header_checksum_ok: bool,
    pub global_checksum: u16,
}

/// Index (relative to `start`) of the first zero byte of `rom[start..end]`, or `end - start`.
pub open spec fn title_len(rom: Seq<u8>, start: int, end: int) -> int
    decreases end - start,
{
    if start >= end {
        0
    } else if rom[start] == 0 {
        0
    } else {
        1 + title_len(rom, start + 1, end)
    }
}

/// Title bytes: `0x0134..=0x0142` up to (excluding) the first zero byte.
pub open spec fn title_bytes(rom: Seq<u8>) -> Seq<u8> {
    rom.subrange(0x134, 0x134 + title_len(rom, 0x134, 0x143))
}

/// Number of ROM banks for header byte `0x0148`.
pub open spec fn rom_banks_of(b: u8) -> usize {
    match b {
        0x00 => 2,
        0x01 => 4,
        0x02 => 8,
        0x03 => 16,
        0x04 => 32,
        0x05 => 64,
        0x06 => 128,
        0x52 => 72,
        0x53 => 80,
        0x54 => 96,
        _ => 2,
    }
}

/// External RAM size in bytes for header byte `0x0149`.
pub open spec fn ram_size_of(b: u8) -> usize {
    match b {
        0x00 => 0,
        0x01 => 2048,
        0x02 => 8192,
        0x03 => 32768,
        0x04 => 131072,
        0x05 => 65536,
        _ => 0,
    }
}

/// The sizes a parsed header reports, from the size codes: ROM codes 0–6 give
/// `2 << code` banks of 16 KiB (32 KiB doubled `code` times), codes 0x52–0x54 give 64 banks
/// plus 8, 16 or 32, anything else 2; RAM codes 1–4 give `2 KiB × 4^(code - 1)` (2, 8,
/// 32, 128 KiB), code 5 gives eight 8 KiB banks, anything else no RAM.
#[verifier::spinoff_prover]
pub proof fn lemma_header_sizes(h: Header, rom: Seq<u8>)
    requires
        rom.len() >= 0x150,
        h.spec_parse(rom),
    ensures
        ({
            let rc = rom[0x148] as int;
            let mc = rom[0x149] as int;
            &&& rc <= 6 ==> h.rom_banks == 2 * pow2_u8(rc)
            &&& 0x52 <= rc <= 0x54 ==> h.rom_banks == 64 + 8 * pow2_u8(rc - 0x52)
            &&& (6 < rc < 0x52 || rc > 0x54) ==> h.rom_banks == 2
            &&& 1 <= mc <= 4 ==> h.ram_size_bytes == 2048 * pow2_u8(2 * (mc - 1))
            &&& mc == 5 ==> h.ram_size_bytes == 8 * 8192
            &&& (mc == 0 || mc > 5) ==> h.ram_size_bytes == 0
        }),
{
    reveal_with_fuel(pow2_u8, 8);
}

/// Header byte `0x0147`: the codes with a battery are 03, 06, 0F, 10, 13, 1B and 1E; the
/// codes with external RAM are 02, 03, 05, 06, 10, 12, 13, 1A, 1B, 1D and 1E; codes 01–03
/// are MBC1, 05–06 MBC2, 0F–13 MBC3, 19–1E MBC5, 00 has no controller, and every other
/// code is unknown and keeps its byte.
pub proof fn lemma_cartridge_type_codes(b: u8)
    ensures
        cartridge_type_of(b).spec_has_battery() == (b == 0x03 || b == 0x06 || b == 0x0F || b == 0x10
            || b == 0x13 || b == 0x1B || b == 0x1E),
        cartridge_type_of(b).spec_has_ram() == (b == 0x02 || b == 0x03 || b == 0x05 || b == 0x06 || b
            == 0x10 || b == 0x12 || b == 0x13 || b == 0x1A || b == 0x1B || b == 0x1D || b == 0x1E),
        (0x01 <= b <= 0x03) == (cartridge_type_of(b) is Mbc1 || cartridge_type_of(b) is Mbc1Ram
            || cartridge_type_of(b) is Mbc1RamBattery),
        (0x05 <= b <= 0x06) == (cartridge_type_of(b) is Mbc2 || cartridge_type_of(b) is Mbc2Battery),
        (0x0F <= b <= 0x13) == (cartridge_type_of(b) is Mbc3 || cartridge_type_of(b) is Mbc3Ram
            || cartridge_type_of(b) is Mbc3RamBattery || cartridge_type_of(b) is Mbc3TimerBattery
            || cartridge_type_of(b) is Mbc3TimerRamBattery),
        (0x19 <= b <= 0x1E) == (cartridge_type_of(b) is Mbc5 || cartridge_type_of(b) is Mbc5Ram
            || cartridge_type_of(b) is Mbc5RamBattery || cartridge_type_of(b) is Mbc5Rumble
            || cartridge_type_of(b) is Mbc5RumbleRam || cartridge_type_of(b) is Mbc5RumbleRamBattery),
        (b == 0) == (cartridge_type_of(b) is RomOnly),
        !(b <= 0x03 || 0x05 <= b <= 0x06 || 0x0F <= b <= 0x13 || 0x19 <= b <= 0x1E) ==> cartridge_type_of(
            b,
        ) == CartridgeType::Unknown(b),
{
}

/// Header byte `0x0143`: a byte with bit 7 clear marks a DMG-only game; with bit 7 set the
/// game supports CGB, exclusively when the byte is exactly 0xC0.
pub proof fn lemma_cgb_flag(b: u8)
    ensures
        (cgb_support_of(b) is NoCgb) == !crate::bits::byte_bit(b, 7),
        (cgb_support_of(b) is GbcOnly) == (b == 0xC0),
{
    reveal_with_fuel(pow2_u8, 9);
    assert(pow2_u8(7) == 128);
    assert(b / 128 <= 1);
}

/// Sum of `rom[a] + 1` for `a` in `lo..hi`.
pub open spec fn header_sum(rom: Seq<u8>, lo: int, hi: int) -> int
    decreases hi - lo,
{
    if lo >= hi {
        0
    } else {
        header_sum(rom, lo, hi - 1) + rom[hi - 1] + 1
    }
}

/// The header checksum byte that `0x014D` must hold: starting from 0, subtract
/// `rom[a] + 1` for each `a` in `0x0134..=0x014C`, keeping the low byte.
pub open spec fn header_checksum_of(rom: Seq<u8>) -> int {
    (0 - header_sum(rom, 0x134, 0x14D)) % 256
}

/// Changing one header byte `a` in `0x0134..=0x014C` by `d` moves the sum by `d`.
proof fn lemma_header_sum_update(rom: Seq<u8>, lo: int, hi: int, a: int, x: u8)
    requires
        0 <= lo <= hi <= rom.len(),
        0 <= a < rom.len(),
    ensures
        header_sum(rom.update(a, x), lo, hi) == header_sum(rom, lo, hi) + if lo <= a < hi {
            x - rom[a]
        } else {
            0
        },
    decreases hi - lo,
{
    if lo < hi {
        lemma_header_sum_update(rom, lo, hi - 1, a, x);
    }
}

/// The header checksum byte depends on the bytes `0x0134..=0x014C` only, and adding `d`
/// to one of them lowers the expected checksum byte by `d` (modulo 256).
pub proof fn lemma_header_checksum_update(rom: Seq<u8>, a: int, x: u8)
    requires
        rom.len() >= 0x150,
        0 <= a < rom.len(),
    ensures
        0x134 <= a <= 0x14C ==> header_checksum_of(rom.update(a, x)) == (header_checksum_of(rom)
            - (x - rom[a])) % 256,
        !(0x134 <= a <= 0x14C) ==> header_checksum_of(rom.update(a, x)) == header_checksum_of(rom),
{
    lemma_header_sum_update(rom, 0x134, 0x14D, a, x);
    let s0 = header_sum(rom, 0x134, 0x14D);
    let d: int = if 0x134 <= a <= 0x14C { x - rom[a] } else { 0 };
    assert((0 - (s0 + d)) % 256 == ((0 - s0) % 256 - d) % 256) by {
        vstd::arithmetic::div_mod::lemma_add_mod_noop_right(0 - d, 0 - s0, 256);
    }
}

/// With the 25 header bytes `0x0134..=0x014C` all zero, the checksum byte is `0xE7`
/// (0 minus 25, modulo 256).
pub proof fn lemma_header_checksum_zero(rom: Seq<u8>)
    requires
        rom.len() >= 0x150,
        forall|a: int| 0x134 <= a <= 0x14C ==> rom[a] == 0,
    ensures
        header_checksum_of(rom) == 0xE7,
{
    lemma_header_sum_zero(rom, 0x134, 0x14D);
}

proof fn lemma_header_sum_zero(rom: Seq<u8>, lo: int, hi: int)
    requires
        0 <= lo <= hi <= rom.len(),
        forall|a: int| lo <= a < hi ==> rom[a] == 0,
    ensures
        header_sum(rom, lo, hi) == hi - lo,
    decreases hi - lo,
{
    if lo < hi {
        lemma_header_sum_zero(rom, lo, hi - 1);
    }
}

impl Header {
    /// What `parse` reads from a ROM of at least 0x150 bytes.
    pub open spec fn spec_parse(self, rom: Seq<u8>) -> bool {
        &&& self.title@ == trim_ws(utf8_lossy(title_bytes(rom)))
        &&& self.cgb_support == cgb_support_of(rom[0x143])
        &&& self.cartridge_type == cartridge_type_of(rom[0x147])
        &&& self.rom_banks == rom_banks_of(rom[0x148])
        &&& self.ram_size_bytes == ram_size_of(rom[0x149])
        &&& self.header_checksum_ok == (rom[0x14D] == header_checksum_of(rom))
        &&& self.global_checksum == rom[0x14E] as int * 256 + rom[0x14F] as int
    }

    pub fn parse(rom: &[u8]) -> (r: Result<Self, HeaderError>)
        ensures
            rom@.len() < 0x150 <==> r is Err,
            r is Err ==> r->Err_0 == HeaderError::TooSmall,
            r is Ok ==> r->Ok_0.spec_parse(rom@),
    {
        if rom.len() < 0x150 {
            return Err(HeaderError::TooSmall);
        }
        let mut title_bytes: Vec<u8> = Vec::new();
        let mut i: usize = 0x134;
        while i <= 0x142 && rom[i] != 0
            invariant
                rom@.len() >= 0x150,
                0x134 <= i <= 0x143,
                forall|k: int| 0x134 <= k < i ==> rom@[k] != 0,
                title_bytes@ == rom@.subrange(0x134, i as int),
            decreases 0x143 - i,
        {
            title_bytes.push(rom[i]);
            i = i + 1;
        }
        proof {
            lemma_title_len_prefix(rom@, 0x134, i as int, 0x143);
        }
        let decoded = decode_utf8_lossy(title_bytes.as_slice());
        let title = trim_str(decoded.as_str()).to_owned();

        let cgb_support = CgbSupport::from_header_byte(rom[0x0143]);
        let ctype = CartridgeType::from_byte(rom[0x0147]);
        let rom_banks: usize = match rom[0x0148] {
            0x00 => 2,
            0x01 => 4,
            0x02 => 8,
            0x03 => 16,
            0x04 => 32,
            0x05 => 64,
            0x06 => 128,
            0x52 => 72,
            0x53 => 80,
            0x54 => 96,
            _ => 2,
        };
        let ram_size_bytes: usize = match rom[0x0149] {
            0x00 => 0,
            0x01 => 2 * 1024,
            0x02 => 8 * 1024,
            0x03 => 32 * 1024,
            0x04 => 128 * 1024,
            0x05 => 64 * 1024,
            _ => 0,
        };

        let mut sum: u32 = 0;
        let mut addr: usize = 0x0134;
        while addr <= 0x014C
            invariant
                rom@.len() >= 0x150,
                0x134 <= addr <= 0x14D,
                sum == header_sum(rom@, 0x134, addr as int),
                sum <= 257 * (addr - 0x134),
            decreases 0x14D - addr,
        {
            sum = sum + rom[addr] as u32 + 1;
            addr = addr + 1;
        }
        // The checksum byte cancels the sum modulo 256 exactly when it is the expected one.
        let total = sum + rom[0x014D] as u32;
        let header_checksum_ok = (total & 0xFF) == 0;
        assert((total & 0xFFu32) == total % 256) by { lemma_u32_low_byte(); }
        proof {
            let c = rom@[0x14D] as int;
            let t = sum as int;
            let e = (0 - t) % 256;
            assert((t + e) % 256 == 0);
            assert(((t + c) % 256 == 0) == (c == e));
        }

        let hi = rom[0x014E];
        let lo = rom[0x014F];
        assert(((hi as u16) << 8u16) | (lo as u16) == hi * 256 + lo) by {
            lemma_byte_pair();
        }
        let global_checksum = ((hi as u16) << 8u16) | (lo as u16);

        Ok(Header {
            title,
            cgb_support,
            cartridge_type: ctype,
            rom_banks,
            ram_size_bytes,
            header_checksum_ok,
            global_checksum,
        })
    }
}

/// Scanning stops at the first zero, which is where `title_len` ends.
proof fn lemma_title_len_prefix(rom: Seq<u8>, start: int, i: int, end: int)
    requires
        start <= i <= end <= rom.len(),
        forall|k: int| start <= k < i ==> rom[k] != 0,
        i < end ==> rom[i] == 0,
    ensures
        title_len(rom, start, end) == i - start,
    decreases i - start,
{
    if start < i {
        lemma_title_len_prefix(rom, start + 1, i, end);
    }
}

} // verus!
