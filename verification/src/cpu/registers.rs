//! SM83 register file: eight 8-bit registers, SP and PC.

use vstd::prelude::*;

use crate::bits::{lemma_byte_pair, lemma_u16_fields, lemma_u8_fields};

verus! {

/// Z flag (bit 7 of F).
pub const FLAG_Z: u8 = 0x80;
/// N flag (bit 6 of F).
pub const FLAG_N: u8 = 0x40;
/// H flag (bit 5 of F).
pub const FLAG_H: u8 = 0x20;
/// C flag (bit 4 of F).
pub const FLAG_C: u8 = 0x10;

#[derive(Debug, Clone, Copy)]
pub struct Registers {
    pub a: u8,
    pub f: u8,
    pub b: u8,
    pub c: u8,
    pub d: u8,
    pub e: u8,
    pub h: u8,
    pub l: u8,
    pub sp: u16,
    pub pc: u16,
}

/// The 16-bit value whose high byte is `hi` and low byte is `lo`.
pub open spec fn pair(hi: u8, lo: u8) -> int {
    hi as int * 256 + lo as int
}

/// Whether the bits of `mask` are set in `f`.
pub open spec fn has_bits(f: u8, mask: u8) -> bool {
    f & mask != 0
}

/// `f` with the bits of `mask` set when `on`, cleared otherwise.
pub open spec fn with_bits(f: u8, mask: u8, on: bool) -> u8 {
    if on {
        f | mask
    } else {
        f & !mask
    }
}

impl Default for Registers {
    /// All registers zero.
    fn default() -> (r: Self)
        ensures
            r == (Registers { a: 0, f: 0, b: 0, c: 0, d: 0, e: 0, h: 0, l: 0, sp: 0, pc: 0 }),
    {
        Registers { a: 0, f: 0, b: 0, c: 0, d: 0, e: 0, h: 0, l: 0, sp: 0, pc: 0 }
    }
}

impl Registers {
    /// The flag byte of `self` after setting Z, N, H and C to the given values
    /// (the low nibble of F is left as it was).
    pub open spec fn flags_set(self, z: bool, n: bool, h: bool, c: bool) -> u8 {
        with_bits(with_bits(with_bits(with_bits(self.f, FLAG_Z, z), FLAG_N, n), FLAG_H, h), FLAG_C, c)
    }

    pub open spec fn spec_af(self) -> int {
        pair(self.a, self.f & 0xF0)
    }

    pub open spec fn spec_bc(self) -> int {
        pair(self.b, self.c)
    }

    pub open spec fn spec_de(self) -> int {
        pair(self.d, self.e)
    }

    pub open spec fn spec_hl(self) -> int {
        pair(self.h, self.l)
    }

    pub open spec fn z(self) -> bool {
        has_bits(self.f, FLAG_Z)
    }

    pub open spec fn n(self) -> bool {
        has_bits(self.f, FLAG_N)
    }

    pub open spec fn hf(self) -> bool {
        has_bits(self.f, FLAG_H)
    }

    pub open spec fn cy(self) -> bool {
        has_bits(self.f, FLAG_C)
    }

    pub fn af(&self) -> (r: u16)
        ensures
            r == self.spec_af(),
    {
        let a = self.a;
        let f = self.f & 0xF0;
        assert(((a as u16) << 8u16) | (f as u16) == a as int * 256 + f as int) by {
            lemma_byte_pair();
        }
        ((a as u16) << 8u16) | (f as u16)
    }

    pub fn set_af(&mut self, v: u16)
        ensures
            *final(self) == (Registers { a: (v / 256) as u8, f: (v % 256) as u8 & 0xF0, ..*old(self) }),
            final(self).spec_af() == v as int - v as int % 16,
    {
        let lo = (v & 0xFF) as u8;
        assert(v >> 8u16 == v / 256 && v & 0xFFu16 == v % 256) by {
            lemma_u16_fields();
        }
        assert((lo & 0xF0u8) & 0xF0u8 == lo & 0xF0u8) by {
            lemma_u8_fields();
        }
        proof {
            lemma_pair_read_after_write(v);
        }
        self.a = (v >> 8u16) as u8;
        self.f = lo & 0xF0;
    }

    pub fn bc(&self) -> (r: u16)
        ensures
            r == self.spec_bc(),
    {
        join(self.b, self.c)
    }

    pub fn set_bc(&mut self, v: u16)
        ensures
            *final(self) == (Registers { b: (v / 256) as u8, c: (v % 256) as u8, ..*old(self) }),
            final(self).spec_bc() == v,
    {
        let (hi, lo) = split(v);
        self.b = hi;
        self.c = lo;
    }

    pub fn de(&self) -> (r: u16)
        ensures
            r == self.spec_de(),
    {
        join(self.d, self.e)
    }

    pub fn set_de(&mut self, v: u16)
        ensures
            *final(self) == (Registers { d: (v / 256) as u8, e: (v % 256) as u8, ..*old(self) }),
            final(self).spec_de() == v,
    {
        let (hi, lo) = split(v);
        self.d = hi;
        self.e = lo;
    }

    pub fn hl(&self) -> (r: u16)
        ensures
            r == self.spec_hl(),
    {
        join(self.h, self.l)
    }

    pub fn set_hl(&mut self, v: u16)
        ensures
            *final(self) == (Registers { h: (v / 256) as u8, l: (v % 256) as u8, ..*old(self) }),
            final(self).spec_hl() == v,
    {
        let (hi, lo) = split(v);
        self.h = hi;
        self.l = lo;
    }

    pub fn flag_z(&self) -> (r: bool)
        ensures
            r == self.z(),
    {
        (self.f & FLAG_Z) != 0
    }

    pub fn flag_n(&self) -> (r: bool)
        ensures
            r == self.n(),
    {
        (self.f & FLAG_N) != 0
    }

    pub fn flag_h(&self) -> (r: bool)
        ensures
            r == self.hf(),
    {
        (self.f & FLAG_H) != 0
    }

    pub fn flag_c(&self) -> (r: bool)
        ensures
            r == self.cy(),
    {
        (self.f & FLAG_C) != 0
    }

    pub fn set_z(&mut self, v: bool)
        ensures
            *final(self) == (Registers { f: with_bits(old(self).f, FLAG_Z, v), ..*old(self) }),
            final(self).z() == v,
            final(self).n() == old(self).n(),
            final(self).hf() == old(self).hf(),
            final(self).cy() == old(self).cy(),
    {
        self.f = set_flag_bit(self.f, FLAG_Z, v);
    }

    pub fn set_n(&mut self, v: bool)
        ensures
            *final(self) == (Registers { f: with_bits(old(self).f, FLAG_N, v), ..*old(self) }),
            final(self).n() == v,
            final(self).z() == old(self).z(),
            final(self).hf() == old(self).hf(),
            final(self).cy() == old(self).cy(),
    {
        self.f = set_flag_bit(self.f, FLAG_N, v);
    }

    pub fn set_h(&mut self, v: bool)
        ensures
            *final(self) == (Registers { f: with_bits(old(self).f, FLAG_H, v), ..*old(self) }),
            final(self).hf() == v,
            final(self).z() == old(self).z(),
            final(self).n() == old(self).n(),
            final(self).cy() == old(self).cy(),
    {
        self.f = set_flag_bit(self.f, FLAG_H, v);
    }

    pub fn set_c(&mut self, v: bool)
        ensures
            *final(self) == (Registers { f: with_bits(old(self).f, FLAG_C, v), ..*old(self) }),
            final(self).cy() == v,
            final(self).z() == old(self).z(),
            final(self).n() == old(self).n(),
            final(self).hf() == old(self).hf(),
    {
        self.f = set_flag_bit(self.f, FLAG_C, v);
    }
}

/// Setting the four flags at once makes each read back as set, and keeps F's low nibble.
pub proof fn lemma_flags_set(r: Registers, z: bool, n: bool, h: bool, c: bool)
    ensures
        ({
            let f = r.flags_set(z, n, h, c);
            &&& has_bits(f, FLAG_Z) == z
            &&& has_bits(f, FLAG_N) == n
            &&& has_bits(f, FLAG_H) == h
            &&& has_bits(f, FLAG_C) == c
            &&& f & 0x0F == r.f & 0x0F
        }),
{
    let f0 = r.f;
    assert({
        let f1 = if z { f0 | 0x80u8 } else { f0 & !0x80u8 };
        let f2 = if n { f1 | 0x40u8 } else { f1 & !0x40u8 };
        let f3 = if h { f2 | 0x20u8 } else { f2 & !0x20u8 };
        let f = if c { f3 | 0x10u8 } else { f3 & !0x10u8 };
        &&& (f & 0x80u8 != 0) == z
        &&& (f & 0x40u8 != 0) == n
        &&& (f & 0x20u8 != 0) == h
        &&& (f & 0x10u8 != 0) == c
        &&& f & 0x0Fu8 == f0 & 0x0Fu8
    }) by (bit_vector);
}

/// A register pair reads back what was written to it; AF drops the low nibble of F.
pub proof fn lemma_pair_read_after_write(v: u16)
    ensures
        pair((v / 256) as u8, (v % 256) as u8) == v,
        pair((v / 256) as u8, ((v % 256) as u8) & 0xF0) == v - v % 16,
{
    let lo = (v % 256) as u8;
    assert(lo & 0xF0u8 == lo - lo % 16) by {
        lemma_u8_fields();
    }
    assert(v % 16 == lo % 16);
}

/// Big-endian join of two bytes.
fn join(hi: u8, lo: u8) -> (r: u16)
    ensures
        r == pair(hi, lo),
{
    assert(((hi as u16) << 8u16) | (lo as u16) == hi as int * 256 + lo as int) by {
        lemma_byte_pair();
    }
    ((hi as u16) << 8u16) | (lo as u16)
}

/// Big-endian split of a 16-bit value.
fn split(v: u16) -> (r: (u8, u8))
    ensures
        r.0 == v / 256,
        r.1 == v % 256,
        pair(r.0, r.1) == v,
{
    assert(v >> 8u16 == v / 256 && v & 0xFFu16 == v % 256) by {
        lemma_u16_fields();
    }
    ((v >> 8u16) as u8, (v & 0xFF) as u8)
}

/// Sets or clears one of the four flag bits; the other bits are kept.
fn set_flag_bit(f: u8, mask: u8, on: bool) -> (r: u8)
    requires
        mask == FLAG_Z || mask == FLAG_N || mask == FLAG_H || mask == FLAG_C,
    ensures
        r == with_bits(f, mask, on),
        has_bits(r, mask) == on,
        forall|m: u8|
            (m == FLAG_Z || m == FLAG_N || m == FLAG_H || m == FLAG_C) && m != mask
                ==> has_bits(r, m) == has_bits(f, m),
        r & 0x0F == f & 0x0F,
{
    let r = if on { f | mask } else { f & !mask };
    assert(mask == 0x80u8 || mask == 0x40u8 || mask == 0x20u8 || mask == 0x10u8);
    assert(has_bits(r, mask) == on && r & 0x0Fu8 == f & 0x0Fu8
        && (mask != 0x80u8 ==> (r & 0x80u8 != 0) == (f & 0x80u8 != 0))
        && (mask != 0x40u8 ==> (r & 0x40u8 != 0) == (f & 0x40u8 != 0))
        && (mask != 0x20u8 ==> (r & 0x20u8 != 0) == (f & 0x20u8 != 0))
        && (mask != 0x10u8 ==> (r & 0x10u8 != 0) == (f & 0x10u8 != 0))) by (bit_vector)
        requires
            mask == 0x80u8 || mask == 0x40u8 || mask == 0x20u8 || mask == 0x10u8,
            r == if on { f | mask } else { f & !mask },
    ;
    r
}

} // verus!
