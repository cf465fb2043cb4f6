//! Instruction building blocks. Each operation returns the M-cycles it takes after the
//! opcode fetch, and is specified by a function from the CPU and bus before it to the CPU,
//! bus and cycle count after it. Bus accesses see the wall clock at `now`, which only an
//! MBC3 clock reads.

use vstd::prelude::*;

use crate::bits::{
    byte_bit, lemma_bitwise_bits, lemma_byte_bit, lemma_byte_pair, lemma_u16_fields, lemma_u8_fields,
    lemma_u8_rotates,
};
use super::registers::{lemma_flags_set, lemma_pair_read_after_write, pair, with_bits, FLAG_C, FLAG_H, FLAG_N, FLAG_Z};
use super::{Cpu, Registers};
use crate::bus::{
    lemma_hram_read_after_write, lemma_hram_read_pure, lemma_hram_write_other, wrap16, Bus,
    BusState,
};

verus! {

broadcast use crate::cartridge::lemma_reads_ok;

/// `c` with the program counter set to `pc`.
pub open spec fn set_pc(c: Cpu, pc: u16) -> Cpu {
    Cpu { regs: Registers { pc, ..c.regs }, ..c }
}

/// `c` with the stack pointer set to `sp`.
pub open spec fn set_sp(c: Cpu, sp: u16) -> Cpu {
    Cpu { regs: Registers { sp, ..c.regs }, ..c }
}

/// `c` with register file `r`.
pub open spec fn with_regs(c: Cpu, r: Registers) -> Cpu {
    Cpu { regs: r, ..c }
}

/// Reads the byte at PC and advances PC.
pub open spec fn fetch8(c: Cpu, b: BusState, t: u64) -> (u8, Cpu, BusState) {
    (b.read_value(c.regs.pc, t), set_pc(c, wrap16(c.regs.pc, 1)), b.after_read(c.regs.pc))
}

/// Reads a little-endian word at PC and advances PC by two.
pub open spec fn fetch16(c: Cpu, b: BusState, t: u64) -> (u16, Cpu, BusState) {
    let (lo, c1, b1) = fetch8(c, b, t);
    let (hi, c2, b2) = fetch8(c1, b1, t);
    (pair(hi, lo) as u16, c2, b2)
}

/// Pushes `v` (high byte first) below SP.
pub open spec fn push16(c: Cpu, b: BusState, v: u16, t: u64) -> (Cpu, BusState) {
    let sp1 = wrap16(c.regs.sp, -1);
    let b1 = b.write(sp1, (v / 256) as u8, t);
    let sp2 = wrap16(sp1, -1);
    let b2 = b1.write(sp2, (v % 256) as u8, t);
    (set_sp(c, sp2), b2)
}

/// Pops a little-endian word at SP.
pub open spec fn pop16(c: Cpu, b: BusState, t: u64) -> (u16, Cpu, BusState) {
    let sp = c.regs.sp;
    let lo = b.read_value(sp, t);
    let b1 = b.after_read(sp);
    let sp1 = wrap16(sp, 1);
    let hi = b1.read_value(sp1, t);
    let b2 = b1.after_read(sp1);
    (pair(hi, lo) as u16, set_sp(c, wrap16(sp1, 1)), b2)
}

/// Register `i` of the 3-bit encoding B, C, D, E, H, L, -, A (index 6 is `(HL)`).
pub open spec fn reg8(r: Registers, i: u8) -> u8 {
    if i == 0 {
        r.b
    } else if i == 1 {
        r.c
    } else if i == 2 {
        r.d
    } else if i == 3 {
        r.e
    } else if i == 4 {
        r.h
    } else if i == 5 {
        r.l
    } else if i == 7 {
        r.a
    } else {
        0
    }
}

pub open spec fn with_reg8(r: Registers, i: u8, v: u8) -> Registers {
    if i == 0 {
        Registers { b: v, ..r }
    } else if i == 1 {
        Registers { c: v, ..r }
    } else if i == 2 {
        Registers { d: v, ..r }
    } else if i == 3 {
        Registers { e: v, ..r }
    } else if i == 4 {
        Registers { h: v, ..r }
    } else if i == 5 {
        Registers { l: v, ..r }
    } else if i == 7 {
        Registers { a: v, ..r }
    } else {
        r
    }
}

/// HL as an address.
pub open spec fn hl_addr(c: Cpu) -> u16 {
    c.regs.spec_hl() as u16
}

/// Operand `i`: a register, or the byte at HL for 6.
pub open spec fn get8(c: Cpu, b: BusState, i: u8, t: u64) -> (u8, BusState) {
    if i == 6 {
        (b.read_value(hl_addr(c), t), b.after_read(hl_addr(c)))
    } else {
        (reg8(c.regs, i), b)
    }
}

/// Stores `v` to operand `i`: a register, or the byte at HL for 6.
pub open spec fn set8(c: Cpu, b: BusState, i: u8, v: u8, t: u64) -> (Cpu, BusState) {
    if i == 6 {
        (c, b.write(hl_addr(c), v, t))
    } else {
        (with_regs(c, with_reg8(c.regs, i, v)), b)
    }
}

/// Register pair `p` of the encoding BC, DE, HL, SP.
pub open spec fn pair16(r: Registers, p: u8) -> u16 {
    if p == 0 {
        r.spec_bc() as u16
    } else if p == 1 {
        r.spec_de() as u16
    } else if p == 2 {
        r.spec_hl() as u16
    } else if p == 3 {
        r.sp
    } else {
        0
    }
}

pub open spec fn with_pair16(r: Registers, p: u8, v: u16) -> Registers {
    if p == 0 {
        Registers { b: (v / 256) as u8, c: (v % 256) as u8, ..r }
    } else if p == 1 {
        Registers { d: (v / 256) as u8, e: (v % 256) as u8, ..r }
    } else if p == 2 {
        Registers { h: (v / 256) as u8, l: (v % 256) as u8, ..r }
    } else if p == 3 {
        Registers { sp: v, ..r }
    } else {
        r
    }
}

/// Condition `i` of the encoding NZ, Z, NC, C.
pub open spec fn cond(r: Registers, i: u8) -> bool {
    if i == 0 {
        !r.z()
    } else if i == 1 {
        r.z()
    } else if i == 2 {
        !r.cy()
    } else if i == 3 {
        r.cy()
    } else {
        false
    }
}

pub open spec fn bit_of(b: bool) -> int {
    if b {
        1
    } else {
        0
    }
}

/// Accumulator operation `op` (ADD, ADC, SUB, SBC, AND, XOR, OR, CP) with operand `v`.
pub open spec fn alu(r: Registers, op: u8, v: u8) -> Registers {
    let a = r.a;
    let cin = bit_of(r.cy());
    if op == 0 {
        let s = a + v;
        let res = (s % 256) as u8;
        Registers { a: res, f: r.flags_set(res == 0, false, a % 16 + v % 16 > 15, s > 255), ..r }
    } else if op == 1 {
        let s = a + v + cin;
        let res = (s % 256) as u8;
        Registers {
            a: res,
            f: r.flags_set(res == 0, false, a % 16 + v % 16 + cin > 15, s > 255),
            ..r
        }
    } else if op == 2 || op == 7 {
        let res = ((a - v + 256) % 256) as u8;
        let f = r.flags_set(res == 0, true, a % 16 < v % 16, a < v);
        if op == 2 {
            Registers { a: res, f, ..r }
        } else {
            Registers { f, ..r }
        }
    } else if op == 3 {
        let res = ((a - v - cin + 512) % 256) as u8;
        Registers {
            a: res,
            f: r.flags_set(res == 0, true, a % 16 < v % 16 + cin, a < v + cin),
            ..r
        }
    } else if op == 4 {
        let res = a & v;
        Registers { a: res, f: r.flags_set(res == 0, false, true, false), ..r }
    } else if op == 5 {
        let res = a ^ v;
        Registers { a: res, f: r.flags_set(res == 0, false, false, false), ..r }
    } else if op == 6 {
        let res = a | v;
        Registers { a: res, f: r.flags_set(res == 0, false, false, false), ..r }
    } else {
        r
    }
}

/// INC of a byte: result and the Z, N, H flags (C is kept).
pub open spec fn inc8_flags(f: u8, v: u8) -> u8 {
    with_bits(with_bits(with_bits(f, FLAG_Z, v == 0), FLAG_N, false), FLAG_H, v % 16 == 0)
}

/// DEC of a byte: Z, N, H flags of the result `v` (C is kept).
pub open spec fn dec8_flags(f: u8, v: u8) -> u8 {
    with_bits(with_bits(with_bits(f, FLAG_Z, v == 0), FLAG_N, true), FLAG_H, v % 16 == 15)
}

pub open spec fn rlc8(v: u8) -> u8 {
    ((v % 128) * 2 + v / 128) as u8
}

pub open spec fn rrc8(v: u8) -> u8 {
    (v / 2 + (v % 2) * 128) as u8
}

pub open spec fn rl8(v: u8, cin: bool) -> u8 {
    ((v % 128) * 2 + bit_of(cin)) as u8
}

pub open spec fn rr8(v: u8, cin: bool) -> u8 {
    (v / 2 + bit_of(cin) * 128) as u8
}

/// Decimal adjust of A after a BCD addition or subtraction: the adjusted A and carry.
pub open spec fn daa_ac(r: Registers) -> (u8, bool) {
    let a0 = r.a;
    let c0 = r.cy();
    if !r.n() {
        let (a1, c1) = if r.hf() || a0 % 16 > 9 {
            (((a0 + 6) % 256) as u8, c0 || a0 + 6 > 255)
        } else {
            (a0, c0)
        };
        if c1 || a1 > 0x99 {
            (((a1 + 0x60) % 256) as u8, c1 || a1 + 0x60 > 255)
        } else {
            (a1, c1)
        }
    } else {
        let a1: u8 = if r.hf() {
            ((a0 - 6 + 256) % 256) as u8
        } else {
            a0
        };
        let a2: u8 = if c0 {
            ((a1 - 0x60 + 256) % 256) as u8
        } else {
            a1
        };
        (a2, c0)
    }
}

/// DAA: A adjusted, Z from the result, H clear, C the adjusted carry; N kept.
pub open spec fn daa(r: Registers) -> Registers {
    let (a, c) = daa_ac(r);
    Registers { a, f: with_bits(with_bits(with_bits(r.f, FLAG_Z, a == 0), FLAG_H, false), FLAG_C, c), ..r }
}

/// `e` read as a two's complement offset.
pub open spec fn signed8(e: u8) -> int {
    if e < 128 {
        e as int
    } else {
        e - 256
    }
}

/// SP plus a signed offset, with the flags ADD SP,e and LD HL,SP+e set: Z and N clear,
/// H and C from the unsigned low-nibble and low-byte sums.
pub open spec fn sp_offset(r: Registers, e: u8) -> (u16, u8) {
    let sp = r.sp;
    (
        wrap16(sp, signed8(e)),
        r.flags_set(false, false, sp % 16 + e % 16 > 15, sp % 256 + e > 255),
    )
}

// ---------------------------------------------------------------------------------------
// Executable building blocks
// ---------------------------------------------------------------------------------------

#[verifier::spinoff_prover]
pub fn fetch_u8(cpu: &mut Cpu, bus: &mut Bus, now: u64) -> (v: u8)
    requires
        old(bus)@.wf(),
    ensures
        (v, *final(cpu), final(bus)@) == fetch8(*old(cpu), old(bus)@, now),
        final(bus)@.wf(),
{
    let v = bus.read_at(cpu.regs.pc, now);
    cpu.regs.pc = cpu.regs.pc.wrapping_add(1);
    v
}

pub fn fetch_u16(cpu: &mut Cpu, bus: &mut Bus, now: u64) -> (v: u16)
    requires
        old(bus)@.wf(),
    ensures
        (v, *final(cpu), final(bus)@) == fetch16(*old(cpu), old(bus)@, now),
        final(bus)@.wf(),
{
    let lo = fetch_u8(cpu, bus, now);
    let hi = fetch_u8(cpu, bus, now);
    join16(hi, lo)
}

/// Big-endian join of two bytes.
fn join16(hi: u8, lo: u8) -> (r: u16)
    ensures
        r == pair(hi, lo),
{
    assert(((hi as u16) << 8u16) | (lo as u16) == hi * 256 + lo) by {
        lemma_byte_pair();
    }
    ((hi as u16) << 8) | (lo as u16)
}

pub fn cc(cpu: &Cpu, i: u8) -> (r: bool)
    ensures
        r == cond(cpu.regs, i),
{
    match i {
        0 => !cpu.regs.flag_z(),
        1 => cpu.regs.flag_z(),
        2 => !cpu.regs.flag_c(),
        3 => cpu.regs.flag_c(),
        _ => false,
    }
}

/// Operand `r`: a register, or the byte at HL for 6.
pub fn get_r8(cpu: &mut Cpu, bus: &mut Bus, r: u8, now: u64) -> (v: u8)
    requires
        old(bus)@.wf(),
    ensures
        *final(cpu) == *old(cpu),
        (v, final(bus)@) == get8(*old(cpu), old(bus)@, r, now),
        final(bus)@.wf(),
{
    match r {
        0 => cpu.regs.b,
        1 => cpu.regs.c,
        2 => cpu.regs.d,
        3 => cpu.regs.e,
        4 => cpu.regs.h,
        5 => cpu.regs.l,
        6 => bus.read_at(cpu.regs.hl(), now),
        7 => cpu.regs.a,
        _ => 0,
    }
}

/// Stores `v` to operand `r`: a register, or the byte at HL for 6.
pub fn set_r8(cpu: &mut Cpu, bus: &mut Bus, r: u8, v: u8, now: u64)
    requires
        old(bus)@.wf(),
    ensures
        (*final(cpu), final(bus)@) == set8(*old(cpu), old(bus)@, r, v, now),
        final(bus)@.wf(),
{
    match r {
        0 => cpu.regs.b = v,
        1 => cpu.regs.c = v,
        2 => cpu.regs.d = v,
        3 => cpu.regs.e = v,
        4 => cpu.regs.h = v,
        5 => cpu.regs.l = v,
        6 => bus.write_at(cpu.regs.hl(), v, now),
        7 => cpu.regs.a = v,
        _ => {},
    }
}

fn get_pair(cpu: &Cpu, pair: u8) -> (v: u16)
    ensures
        v == pair16(cpu.regs, pair),
{
    match pair {
        0 => cpu.regs.bc(),
        1 => cpu.regs.de(),
        2 => cpu.regs.hl(),
        3 => cpu.regs.sp,
        _ => 0,
    }
}

fn set_pair(cpu: &mut Cpu, pair: u8, v: u16)
    ensures
        *final(cpu) == with_regs(*old(cpu), with_pair16(old(cpu).regs, pair, v)),
{
    match pair {
        0 => cpu.regs.set_bc(v),
        1 => cpu.regs.set_de(v),
        2 => cpu.regs.set_hl(v),
        3 => cpu.regs.sp = v,
        _ => {},
    }
}

#[verifier::spinoff_prover]
pub fn push_u16(cpu: &mut Cpu, bus: &mut Bus, v: u16, now: u64)
    requires
        old(bus)@.wf(),
    ensures
        (*final(cpu), final(bus)@) == push16(*old(cpu), old(bus)@, v, now),
        final(bus)@.wf(),
{
    let hi = high_byte(v);
    let lo = low_byte(v);
    let sp1 = cpu.regs.sp.wrapping_sub(1);
    bus.write_at(sp1, hi, now);
    let sp2 = sp1.wrapping_sub(1);
    bus.write_at(sp2, lo, now);
    cpu.regs.sp = sp2;
}

fn high_byte(v: u16) -> (r: u8)
    ensures
        r == v / 256,
{
    assert(v >> 8u16 == v / 256) by {
        lemma_u16_fields();
    }
    (v >> 8) as u8
}

fn low_byte(v: u16) -> (r: u8)
    ensures
        r == v % 256,
{
    assert(v & 0xFFu16 == v % 256) by {
        lemma_u16_fields();
    }
    (v & 0xFF) as u8
}

#[verifier::spinoff_prover]
pub fn pop_u16(cpu: &mut Cpu, bus: &mut Bus, now: u64) -> (v: u16)
    requires
        old(bus)@.wf(),
    ensures
        (v, *final(cpu), final(bus)@) == pop16(*old(cpu), old(bus)@, now),
        final(bus)@.wf(),
{
    let lo = bus.read_at(cpu.regs.sp, now);
    cpu.regs.sp = cpu.regs.sp.wrapping_add(1);
    let hi = bus.read_at(cpu.regs.sp, now);
    cpu.regs.sp = cpu.regs.sp.wrapping_add(1);
    join16(hi, lo)
}

// ---------------------------------------------------------------------------------------
// Pure byte operations
// ---------------------------------------------------------------------------------------

pub fn rotate_left_circular(v: u8) -> (r: u8)
    ensures
        r == rlc8(v),
{
    assert((v << 1u8) | (v >> 7u8) == ((v % 128) * 2 + v / 128) as u8) by { lemma_u8_rotates(); }
    (v << 1) | (v >> 7)
}

pub fn rotate_right_circular(v: u8) -> (r: u8)
    ensures
        r == rrc8(v),
{
    assert((v >> 1u8) | (v << 7u8) == (v / 2 + (v % 2) * 128) as u8) by { lemma_u8_rotates(); }
    (v >> 1) | (v << 7)
}

pub fn rotate_left_through(v: u8, cin: bool) -> (r: u8)
    ensures
        r == rl8(v, cin),
{
    let c: u8 = if cin { 1 } else { 0 };
    assert(c <= 1 ==> (v << 1u8) | c == ((v % 128) * 2 + c) as u8) by { lemma_u8_rotates(); }
    (v << 1) | c
}

pub fn rotate_right_through(v: u8, cin: bool) -> (r: u8)
    ensures
        r == rr8(v, cin),
{
    let c: u8 = if cin { 1 } else { 0 };
    assert(c <= 1 ==> (v >> 1u8) | (c << 7u8) == (v / 2 + c * 128) as u8) by { lemma_u8_rotates(); }
    (v >> 1) | (c << 7)
}

pub fn top_bit(v: u8) -> (r: bool)
    ensures
        r == (v >= 128),
{
    assert((v & 0x80u8 != 0) == (v >= 128)) by {
        lemma_u8_fields();
    }
    (v & 0x80) != 0
}

pub fn low_bit(v: u8) -> (r: bool)
    ensures
        r == (v % 2 == 1),
{
    assert((v & 1u8 != 0) == (v % 2 == 1)) by {
        lemma_u8_fields();
    }
    (v & 1) != 0
}

fn low_nibble(v: u8) -> (r: u8)
    ensures
        r == v % 16,
{
    assert(v & 0x0Fu8 == v % 16) by {
        lemma_u8_fields();
    }
    v & 0x0F
}

// ---------------------------------------------------------------------------------------
// Loads, increments and 16-bit arithmetic
// ---------------------------------------------------------------------------------------

pub open spec fn op_ld_rr_spec(c: Cpu, b: BusState, d: u8, s: u8, t: u64) -> (Cpu, BusState, u8) {
    let (v, b1) = get8(c, b, s, t);
    let (c2, b2) = set8(c, b1, d, v, t);
    (c2, b2, if d == 6 || s == 6 { 1 } else { 0 })
}

pub fn op_nop() -> (m: u8)
    ensures
        m == 0,
{
    0
}

pub fn op_ld_rr(cpu: &mut Cpu, bus: &mut Bus, d: u8, s: u8, now: u64) -> (m: u8)
    requires
        old(bus)@.wf(),
    ensures
        (*final(cpu), final(bus)@, m) == op_ld_rr_spec(*old(cpu), old(bus)@, d, s, now),
        final(bus)@.wf(),
{
    let v = get_r8(cpu, bus, s, now);
    set_r8(cpu, bus, d, v, now);
    if d == 6 || s == 6 {
        1
    } else {
        0
    }
}

pub open spec fn op_ld_r_d8_spec(c: Cpu, b: BusState, d: u8, t: u64) -> (Cpu, BusState, u8) {
    let (v, c1, b1) = fetch8(c, b, t);
    let (c2, b2) = set8(c1, b1, d, v, t);
    (c2, b2, if d == 6 { 2 } else { 1 })
}

pub fn op_ld_r_d8(cpu: &mut Cpu, bus: &mut Bus, d: u8, now: u64) -> (m: u8)
    requires
        old(bus)@.wf(),
    ensures
        (*final(cpu), final(bus)@, m) == op_ld_r_d8_spec(*old(cpu), old(bus)@, d, now),
        final(bus)@.wf(),
{
    let v = fetch_u8(cpu, bus, now);
    set_r8(cpu, bus, d, v, now);
    if d == 6 {
        2
    } else {
        1
    }
}

/// Address register pair of `LD A,(rr)` / `LD (rr),A`: BC, DE, or 0 otherwise.
pub open spec fn mem_pair(r: Registers, p: u8) -> u16 {
    if p == 0 {
        r.spec_bc() as u16
    } else if p == 1 {
        r.spec_de() as u16
    } else {
        0
    }
}

fn mem_pair_addr(cpu: &Cpu, pair: u8) -> (a: u16)
    ensures
        a == mem_pair(cpu.regs, pair),
{
    match pair {
        0 => cpu.regs.bc(),
        1 => cpu.regs.de(),
        _ => 0,
    }
}

pub open spec fn op_ld_a_memrr_spec(c: Cpu, b: BusState, p: u8, t: u64) -> (Cpu, BusState, u8) {
    let addr = mem_pair(c.regs, p);
    (with_regs(c, Registers { a: b.read_value(addr, t), ..c.regs }), b.after_read(addr), 1)
}

pub fn op_ld_a_memrr(cpu: &mut Cpu, bus: &mut Bus, pair: u8, now: u64) -> (m: u8)
    requires
        old(bus)@.wf(),
    ensures
        (*final(cpu), final(bus)@, m) == op_ld_a_memrr_spec(*old(cpu), old(bus)@, pair, now),
        final(bus)@.wf(),
{
    let addr = mem_pair_addr(cpu, pair);
    cpu.regs.a = bus.read_at(addr, now);
    1
}

pub open spec fn op_ld_memrr_a_spec(c: Cpu, b: BusState, p: u8, t: u64) -> (Cpu, BusState, u8) {
    (c, b.write(mem_pair(c.regs, p), c.regs.a, t), 1)
}

pub fn op_ld_memrr_a(cpu: &mut Cpu, bus: &mut Bus, pair: u8, now: u64) -> (m: u8)
    requires
        old(bus)@.wf(),
    ensures
        (*final(cpu), final(bus)@, m) == op_ld_memrr_a_spec(*old(cpu), old(bus)@, pair, now),
        final(bus)@.wf(),
{
    let addr = mem_pair_addr(cpu, pair);
    bus.write_at(addr, cpu.regs.a, now);
    1
}

/// INC r / INC (HL): the operand plus one; Z, N, H from the result, C kept.
pub open spec fn op_inc_r_spec(c: Cpu, b: BusState, r: u8, t: u64) -> (Cpu, BusState, u8) {
    let (v0, b1) = get8(c, b, r, t);
    let v = ((v0 + 1) % 256) as u8;
    let (c2, b2) = set8(c, b1, r, v, t);
    (
        with_regs(c2, Registers { f: inc8_flags(c2.regs.f, v), ..c2.regs }),
        b2,
        if r == 6 { 2 } else { 0 },
    )
}

pub fn op_inc_r(cpu: &mut Cpu, bus: &mut Bus, r: u8, now: u64) -> (m: u8)
    requires
        old(bus)@.wf(),
    ensures
        (*final(cpu), final(bus)@, m) == op_inc_r_spec(*old(cpu), old(bus)@, r, now),
        final(bus)@.wf(),
{
    let v = get_r8(cpu, bus, r, now).wrapping_add(1);
    set_r8(cpu, bus, r, v, now);
    cpu.regs.set_z(v == 0);
    cpu.regs.set_n(false);
    cpu.regs.set_h(low_nibble(v) == 0);
    if r == 6 {
        2
    } else {
        0
    }
}

/// DEC r / DEC (HL): the operand minus one; Z, N, H from the result, C kept.
pub open spec fn op_dec_r_spec(c: Cpu, b: BusState, r: u8, t: u64) -> (Cpu, BusState, u8) {
    let (v0, b1) = get8(c, b, r, t);
    let v = ((v0 + 255) % 256) as u8;
    let (c2, b2) = set8(c, b1, r, v, t);
    (
        with_regs(c2, Registers { f: dec8_flags(c2.regs.f, v), ..c2.regs }),
        b2,
        if r == 6 { 2 } else { 0 },
    )
}

pub fn op_dec_r(cpu: &mut Cpu, bus: &mut Bus, r: u8, now: u64) -> (m: u8)
    requires
        old(bus)@.wf(),
    ensures
        (*final(cpu), final(bus)@, m) == op_dec_r_spec(*old(cpu), old(bus)@, r, now),
        final(bus)@.wf(),
{
    let v = get_r8(cpu, bus, r, now).wrapping_sub(1);
    set_r8(cpu, bus, r, v, now);
    cpu.regs.set_z(v == 0);
    cpu.regs.set_n(true);
    cpu.regs.set_h(low_nibble(v) == 0x0F);
    if r == 6 {
        2
    } else {
        0
    }
}

pub fn op_inc_rr(cpu: &mut Cpu, pair: u8) -> (m: u8)
    ensures
        *final(cpu) == with_regs(
            *old(cpu),
            with_pair16(old(cpu).regs, pair, wrap16(pair16(old(cpu).regs, pair), 1)),
        ),
        m == 1,
{
    let v = get_pair(cpu, pair).wrapping_add(1);
    set_pair(cpu, pair, v);
    1
}

pub fn op_dec_rr(cpu: &mut Cpu, pair: u8) -> (m: u8)
    ensures
        *final(cpu) == with_regs(
            *old(cpu),
            with_pair16(old(cpu).regs, pair, wrap16(pair16(old(cpu).regs, pair), -1)),
        ),
        m == 1,
{
    let v = get_pair(cpu, pair).wrapping_sub(1);
    set_pair(cpu, pair, v);
    1
}

pub open spec fn op_ld_rr_d16_spec(c: Cpu, b: BusState, p: u8, t: u64) -> (Cpu, BusState, u8) {
    let (v, c1, b1) = fetch16(c, b, t);
    (with_regs(c1, with_pair16(c1.regs, p, v)), b1, 2)
}

pub fn op_ld_rr_d16(cpu: &mut Cpu, bus: &mut Bus, pair: u8, now: u64) -> (m: u8)
    requires
        old(bus)@.wf(),
    ensures
        (*final(cpu), final(bus)@, m) == op_ld_rr_d16_spec(*old(cpu), old(bus)@, pair, now),
        final(bus)@.wf(),
{
    let v = fetch_u16(cpu, bus, now);
    set_pair(cpu, pair, v);
    2
}

/// ADD HL,rr: N clear, H from bit 11, C from bit 15; Z kept.
pub open spec fn add_hl(r: Registers, v: u16) -> Registers {
    let hl = r.spec_hl();
    let r1 = with_pair16(r, 2, wrap16(hl as u16, v as int));
    Registers {
        f: with_bits(
            with_bits(with_bits(r1.f, FLAG_N, false), FLAG_H, hl % 4096 + v % 4096 > 4095),
            FLAG_C,
            hl + v > 65535,
        ),
        ..r1
    }
}

/// Carry out of bit 11 of `a + b`.
fn half_carry12(a: u16, b: u16) -> (r: bool)
    ensures
        r == (a % 4096 + b % 4096 > 4095),
{
    assert((a & 0xFFFu16) == a % 4096 && (b & 0xFFFu16) == b % 4096) by {
        lemma_u16_fields();
    }
    (a & 0xFFF) + (b & 0xFFF) > 0xFFF
}

pub fn op_add_hl_rr(cpu: &mut Cpu, pair: u8) -> (m: u8)
    ensures
        *final(cpu) == with_regs(*old(cpu), add_hl(old(cpu).regs, pair16(old(cpu).regs, pair))),
        m == 1,
{
    let v = get_pair(cpu, pair);
    let hl = cpu.regs.hl();
    let r = hl.wrapping_add(v);
    let h = half_carry12(hl, v);
    let c = hl as u32 + v as u32 > 0xFFFF;
    cpu.regs.set_hl(r);
    cpu.regs.set_n(false);
    cpu.regs.set_h(h);
    cpu.regs.set_c(c);
    1
}

// ---------------------------------------------------------------------------------------
// Stack
// ---------------------------------------------------------------------------------------

/// Value PUSH rr pushes: BC, DE, HL or AF.
pub open spec fn push_value(r: Registers, p: u8) -> u16 {
    if p == 3 {
        r.spec_af() as u16
    } else {
        pair16(r, p)
    }
}

pub open spec fn op_push_rr_spec(c: Cpu, b: BusState, p: u8, t: u64) -> (Cpu, BusState, u8) {
    let (c1, b1) = push16(c, b, push_value(c.regs, p), t);
    (c1, b1, 3)
}

pub fn op_push_rr(cpu: &mut Cpu, bus: &mut Bus, pair: u8, now: u64) -> (m: u8)
    requires
        old(bus)@.wf(),
    ensures
        (*final(cpu), final(bus)@, m) == op_push_rr_spec(*old(cpu), old(bus)@, pair, now),
        final(bus)@.wf(),
{
    let v = if pair == 3 {
        cpu.regs.af()
    } else {
        get_pair(cpu, pair)
    };
    push_u16(cpu, bus, v, now);
    3
}

/// Registers after POP rr stores `v`: BC, DE, HL, or AF (the low nibble of F reads 0).
pub open spec fn pop_into(r: Registers, p: u8, v: u16) -> Registers {
    if p == 3 {
        Registers { a: (v / 256) as u8, f: (v % 256) as u8 & 0xF0, ..r }
    } else {
        with_pair16(r, p, v)
    }
}

pub open spec fn op_pop_rr_spec(c: Cpu, b: BusState, p: u8, t: u64) -> (Cpu, BusState, u8) {
    let (v, c1, b1) = pop16(c, b, t);
    (with_regs(c1, pop_into(c1.regs, p, v)), b1, 2)
}

pub fn op_pop_rr(cpu: &mut Cpu, bus: &mut Bus, pair: u8, now: u64) -> (m: u8)
    requires
        old(bus)@.wf(),
    ensures
        (*final(cpu), final(bus)@, m) == op_pop_rr_spec(*old(cpu), old(bus)@, pair, now),
        final(bus)@.wf(),
{
    let v = pop_u16(cpu, bus, now);
    if pair == 3 {
        cpu.regs.set_af(v);
    } else {
        set_pair(cpu, pair, v);
    }
    2
}

// ---------------------------------------------------------------------------------------
// Accumulator arithmetic
// ---------------------------------------------------------------------------------------

/// `regs` with Z, N, H and C set to the given values (F's low nibble kept).
fn with_flags(regs: Registers, z: bool, n: bool, h: bool, c: bool) -> (r: Registers)
    ensures
        r == (Registers { f: regs.flags_set(z, n, h, c), ..regs }),
{
    let mut r = regs;
    r.set_z(z);
    r.set_n(n);
    r.set_h(h);
    r.set_c(c);
    r
}

fn alu_add(regs: Registers, v: u8, cin: u8) -> (r: Registers)
    requires
        cin <= 1,
    ensures
        r == (Registers {
            a: ((regs.a + v + cin) % 256) as u8,
            f: regs.flags_set(
                (regs.a + v + cin) % 256 == 0,
                false,
                regs.a % 16 + v % 16 + cin > 15,
                regs.a + v + cin > 255,
            ),
            ..regs
        }),
{
    let a = regs.a;
    let res = a.wrapping_add(v).wrapping_add(cin);
    assert(res == ((a + v + cin) % 256) as u8);
    let h = low_nibble(a) + low_nibble(v) + cin > 0xF;
    let c = a as u16 + v as u16 + cin as u16 > 0xFF;
    let mut r = with_flags(regs, res == 0, false, h, c);
    r.a = res;
    r
}

fn alu_sub(regs: Registers, v: u8, cin: u8) -> (r: Registers)
    requires
        cin <= 1,
    ensures
        r == (Registers {
            a: ((regs.a - v - cin + 512) % 256) as u8,
            f: regs.flags_set(
                (regs.a - v - cin + 512) % 256 == 0,
                true,
                regs.a % 16 < v % 16 + cin,
                regs.a < v + cin,
            ),
            ..regs
        }),
{
    let a = regs.a;
    let res = a.wrapping_sub(v).wrapping_sub(cin);
    assert(res == ((a - v - cin + 512) % 256) as u8);
    let h = low_nibble(a) < low_nibble(v) + cin;
    let c = (a as u16) < (v as u16) + (cin as u16);
    let mut r = with_flags(regs, res == 0, true, h, c);
    r.a = res;
    r
}

/// Accumulator operation `op` with operand `v`. SBC's half-borrow and borrow are computed
/// as comparisons of the low nibbles and of the whole bytes.
#[verifier::rlimit(60)]
#[verifier::spinoff_prover]
fn alu_a_val(cpu: &mut Cpu, op: u8, v: u8)
    ensures
        *final(cpu) == with_regs(*old(cpu), alu(old(cpu).regs, op, v)),
{
    let regs = cpu.regs;
    let a = regs.a;
    let cin: u8 = if regs.flag_c() {
        1
    } else {
        0
    };
    if op == 0 {
        cpu.regs = alu_add(regs, v, 0);
    } else if op == 1 {
        cpu.regs = alu_add(regs, v, cin);
    } else if op == 2 {
        cpu.regs = alu_sub(regs, v, 0);
    } else if op == 3 {
        cpu.regs = alu_sub(regs, v, cin);
    } else if op == 4 {
        let res = a & v;
        let mut r = with_flags(regs, res == 0, false, true, false);
        r.a = res;
        cpu.regs = r;
    } else if op == 5 {
        let res = a ^ v;
        let mut r = with_flags(regs, res == 0, false, false, false);
        r.a = res;
        cpu.regs = r;
    } else if op == 6 {
        let res = a | v;
        let mut r = with_flags(regs, res == 0, false, false, false);
        r.a = res;
        cpu.regs = r;
    } else if op == 7 {
        let r = alu_sub(regs, v, 0);
        cpu.regs = Registers { a, ..r };
    }
}

pub open spec fn op_alu_a_r_spec(c: Cpu, b: BusState, op: u8, r: u8, t: u64) -> (Cpu, BusState, u8) {
    let (v, b1) = get8(c, b, r, t);
    (with_regs(c, alu(c.regs, op, v)), b1, if r == 6 { 1 } else { 0 })
}

pub fn op_alu_a_r(cpu: &mut Cpu, bus: &mut Bus, op: u8, r: u8, now: u64) -> (m: u8)
    requires
        old(bus)@.wf(),
    ensures
        (*final(cpu), final(bus)@, m) == op_alu_a_r_spec(*old(cpu), old(bus)@, op, r, now),
        final(bus)@.wf(),
{
    let v = get_r8(cpu, bus, r, now);
    alu_a_val(cpu, op, v);
    if r == 6 {
        1
    } else {
        0
    }
}

pub open spec fn op_alu_a_d8_spec(c: Cpu, b: BusState, op: u8, t: u64) -> (Cpu, BusState, u8) {
    let (v, c1, b1) = fetch8(c, b, t);
    (with_regs(c1, alu(c1.regs, op, v)), b1, 1)
}

pub fn op_alu_a_d8(cpu: &mut Cpu, bus: &mut Bus, op: u8, now: u64) -> (m: u8)
    requires
        old(bus)@.wf(),
    ensures
        (*final(cpu), final(bus)@, m) == op_alu_a_d8_spec(*old(cpu), old(bus)@, op, now),
        final(bus)@.wf(),
{
    let v = fetch_u8(cpu, bus, now);
    alu_a_val(cpu, op, v);
    1
}

/// A rotated by RLCA/RRCA/RLA/RRA: Z, N, H clear and C the bit shifted out.
pub open spec fn rotate_a(r: Registers, res: u8, c: bool) -> Registers {
    Registers { a: res, f: r.flags_set(false, false, false, c), ..r }
}

pub fn op_rlca(cpu: &mut Cpu) -> (m: u8)
    ensures
        *final(cpu) == with_regs(
            *old(cpu),
            rotate_a(old(cpu).regs, rlc8(old(cpu).regs.a), old(cpu).regs.a >= 128),
        ),
        m == 0,
{
    let c = top_bit(cpu.regs.a);
    cpu.regs.a = rotate_left_circular(cpu.regs.a);
    cpu.regs.set_z(false);
    cpu.regs.set_n(false);
    cpu.regs.set_h(false);
    cpu.regs.set_c(c);
    0
}

pub fn op_rrca(cpu: &mut Cpu) -> (m: u8)
    ensures
        *final(cpu) == with_regs(
            *old(cpu),
            rotate_a(old(cpu).regs, rrc8(old(cpu).regs.a), old(cpu).regs.a % 2 == 1),
        ),
        m == 0,
{
    let c = low_bit(cpu.regs.a);
    cpu.regs.a = rotate_right_circular(cpu.regs.a);
    cpu.regs.set_z(false);
    cpu.regs.set_n(false);
    cpu.regs.set_h(false);
    cpu.regs.set_c(c);
    0
}

pub fn op_rla(cpu: &mut Cpu) -> (m: u8)
    ensures
        *final(cpu) == with_regs(
            *old(cpu),
            rotate_a(old(cpu).regs, rl8(old(cpu).regs.a, old(cpu).regs.cy()), old(cpu).regs.a >= 128),
        ),
        m == 0,
{
    let old_c = cpu.regs.flag_c();
    let c = top_bit(cpu.regs.a);
    cpu.regs.a = rotate_left_through(cpu.regs.a, old_c);
    cpu.regs.set_z(false);
    cpu.regs.set_n(false);
    cpu.regs.set_h(false);
    cpu.regs.set_c(c);
    0
}

pub fn op_rra(cpu: &mut Cpu) -> (m: u8)
    ensures
        *final(cpu) == with_regs(
            *old(cpu),
            rotate_a(old(cpu).regs, rr8(old(cpu).regs.a, old(cpu).regs.cy()), old(cpu).regs.a % 2 == 1),
        ),
        m == 0,
{
    let old_c = cpu.regs.flag_c();
    let c = low_bit(cpu.regs.a);
    cpu.regs.a = rotate_right_through(cpu.regs.a, old_c);
    cpu.regs.set_z(false);
    cpu.regs.set_n(false);
    cpu.regs.set_h(false);
    cpu.regs.set_c(c);
    0
}

fn daa_adjust(regs: &Registers) -> (r: (u8, bool))
    ensures
        r == daa_ac(*regs),
{
    let mut a = regs.a;
    let mut c = regs.flag_c();
    if !regs.flag_n() {
        if regs.flag_h() || low_nibble(a) > 9 {
            let co = a > 0xF9;
            a = a.wrapping_add(0x06);
            c = c || co;
        }
        if c || a > 0x99 {
            let co = a > 0x9F;
            a = a.wrapping_add(0x60);
            c = c || co;
        }
    } else {
        if regs.flag_h() {
            a = a.wrapping_sub(0x06);
        }
        if c {
            a = a.wrapping_sub(0x60);
        }
    }
    (a, c)
}

pub fn op_daa(cpu: &mut Cpu) -> (m: u8)
    ensures
        *final(cpu) == with_regs(*old(cpu), daa(old(cpu).regs)),
        m == 0,
{
    let (a, c) = daa_adjust(&cpu.regs);
    cpu.regs.set_z(a == 0);
    cpu.regs.set_h(false);
    cpu.regs.set_c(c);
    cpu.regs.a = a;
    0
}

pub fn op_cpl(cpu: &mut Cpu) -> (m: u8)
    ensures
        *final(cpu) == with_regs(
            *old(cpu),
            Registers {
                a: (255 - old(cpu).regs.a) as u8,
                f: with_bits(with_bits(old(cpu).regs.f, FLAG_N, true), FLAG_H, true),
                ..old(cpu).regs
            },
        ),
        m == 0,
{
    let a = cpu.regs.a;
    assert(!a == (255 - a) as u8) by { lemma_u8_rotates(); }
    cpu.regs.a = !cpu.regs.a;
    cpu.regs.set_n(true);
    cpu.regs.set_h(true);
    0
}

pub fn op_scf(cpu: &mut Cpu) -> (m: u8)
    ensures
        *final(cpu) == with_regs(
            *old(cpu),
            Registers {
                f: with_bits(with_bits(with_bits(old(cpu).regs.f, FLAG_N, false), FLAG_H, false), FLAG_C, true),
                ..old(cpu).regs
            },
        ),
        m == 0,
{
    cpu.regs.set_n(false);
    cpu.regs.set_h(false);
    cpu.regs.set_c(true);
    0
}

pub fn op_ccf(cpu: &mut Cpu) -> (m: u8)
    ensures
        *final(cpu) == with_regs(
            *old(cpu),
            Registers {
                f: with_bits(
                    with_bits(with_bits(old(cpu).regs.f, FLAG_N, false), FLAG_H, false),
                    FLAG_C,
                    !old(cpu).regs.cy(),
                ),
                ..old(cpu).regs
            },
        ),
        m == 0,
{
    let c = cpu.regs.flag_c();
    cpu.regs.set_n(false);
    cpu.regs.set_h(false);
    cpu.regs.set_c(!c);
    0
}

// ---------------------------------------------------------------------------------------
// Loads through HL, SP and immediate addresses
// ---------------------------------------------------------------------------------------

pub open spec fn op_ld_hl_a_step_spec(c: Cpu, b: BusState, delta: int, t: u64) -> (Cpu, BusState, u8) {
    let hl = hl_addr(c);
    (with_regs(c, with_pair16(c.regs, 2, wrap16(hl, delta))), b.write(hl, c.regs.a, t), 1)
}

pub open spec fn op_ld_a_hl_step_spec(c: Cpu, b: BusState, delta: int, t: u64) -> (Cpu, BusState, u8) {
    let hl = hl_addr(c);
    (
        with_regs(
            c,
            with_pair16(Registers { a: b.read_value(hl, t), ..c.regs }, 2, wrap16(hl, delta)),
        ),
        b.after_read(hl),
        1,
    )
}

/// LD (HL+),A
pub fn op_ld_hlp_a(cpu: &mut Cpu, bus: &mut Bus, now: u64) -> (m: u8)
    requires
        old(bus)@.wf(),
    ensures
        (*final(cpu), final(bus)@, m) == op_ld_hl_a_step_spec(*old(cpu), old(bus)@, 1, now),
        final(bus)@.wf(),
{
    let hl = cpu.regs.hl();
    bus.write_at(hl, cpu.regs.a, now);
    cpu.regs.set_hl(hl.wrapping_add(1));
    1
}

/// LD A,(HL+)
pub fn op_ld_a_hlp(cpu: &mut Cpu, bus: &mut Bus, now: u64) -> (m: u8)
    requires
        old(bus)@.wf(),
    ensures
        (*final(cpu), final(bus)@, m) == op_ld_a_hl_step_spec(*old(cpu), old(bus)@, 1, now),
        final(bus)@.wf(),
{
    let hl = cpu.regs.hl();
    cpu.regs.a = bus.read_at(hl, now);
    cpu.regs.set_hl(hl.wrapping_add(1));
    1
}

/// LD (HL-),A
pub fn op_ld_hlm_a(cpu: &mut Cpu, bus: &mut Bus, now: u64) -> (m: u8)
    requires
        old(bus)@.wf(),
    ensures
        (*final(cpu), final(bus)@, m) == op_ld_hl_a_step_spec(*old(cpu), old(bus)@, -1, now),
        final(bus)@.wf(),
{
    let hl = cpu.regs.hl();
    bus.write_at(hl, cpu.regs.a, now);
    cpu.regs.set_hl(hl.wrapping_sub(1));
    1
}

/// LD A,(HL-)
pub fn op_ld_a_hlm(cpu: &mut Cpu, bus: &mut Bus, now: u64) -> (m: u8)
    requires
        old(bus)@.wf(),
    ensures
        (*final(cpu), final(bus)@, m) == op_ld_a_hl_step_spec(*old(cpu), old(bus)@, -1, now),
        final(bus)@.wf(),
{
    let hl = cpu.regs.hl();
    cpu.regs.a = bus.read_at(hl, now);
    cpu.regs.set_hl(hl.wrapping_sub(1));
    1
}

/// LD (nn),SP: low byte at `nn`, high byte at `nn + 1`.
pub open spec fn op_ld_nn_sp_spec(c: Cpu, b: BusState, t: u64) -> (Cpu, BusState, u8) {
    let (addr, c1, b1) = fetch16(c, b, t);
    let sp = c1.regs.sp;
    let b2 = b1.write(addr, (sp % 256) as u8, t);
    let b3 = b2.write(wrap16(addr, 1), (sp / 256) as u8, t);
    (c1, b3, 4)
}

pub fn op_ld_nn_sp(cpu: &mut Cpu, bus: &mut Bus, now: u64) -> (m: u8)
    requires
        old(bus)@.wf(),
    ensures
        (*final(cpu), final(bus)@, m) == op_ld_nn_sp_spec(*old(cpu), old(bus)@, now),
        final(bus)@.wf(),
{
    let addr = fetch_u16(cpu, bus, now);
    let lo = low_byte(cpu.regs.sp);
    let hi = high_byte(cpu.regs.sp);
    bus.write_at(addr, lo, now);
    bus.write_at(addr.wrapping_add(1), hi, now);
    4
}

pub fn op_jp_hl(cpu: &mut Cpu) -> (m: u8)
    ensures
        *final(cpu) == set_pc(*old(cpu), hl_addr(*old(cpu))),
        m == 0,
{
    cpu.regs.pc = cpu.regs.hl();
    0
}

pub fn op_ld_sp_hl(cpu: &mut Cpu) -> (m: u8)
    ensures
        *final(cpu) == set_sp(*old(cpu), hl_addr(*old(cpu))),
        m == 1,
{
    cpu.regs.sp = cpu.regs.hl();
    1
}

pub fn op_di(cpu: &mut Cpu) -> (m: u8)
    ensures
        *final(cpu) == (Cpu { ime: false, ei_latch: false, ..*old(cpu) }),
        m == 0,
{
    cpu.ime = false;
    cpu.ei_latch = false;
    0
}

/// EI itself does nothing: `Cpu::step` arms the latch after it.
pub fn op_ei(cpu: &mut Cpu) -> (m: u8)
    ensures
        *final(cpu) == *old(cpu),
        m == 0,
{
    0
}

pub open spec fn op_ret_spec(c: Cpu, b: BusState, t: u64) -> (Cpu, BusState, u8) {
    let (v, c1, b1) = pop16(c, b, t);
    (set_pc(c1, v), b1, 3)
}

pub fn op_ret(cpu: &mut Cpu, bus: &mut Bus, now: u64) -> (m: u8)
    requires
        old(bus)@.wf(),
    ensures
        (*final(cpu), final(bus)@, m) == op_ret_spec(*old(cpu), old(bus)@, now),
        final(bus)@.wf(),
{
    cpu.regs.pc = pop_u16(cpu, bus, now);
    3
}

/// RETI: RET that also enables interrupts at once.
pub open spec fn op_reti_spec(c: Cpu, b: BusState, t: u64) -> (Cpu, BusState, u8) {
    let (c1, b1, m) = op_ret_spec(c, b, t);
    (Cpu { ime: true, ei_latch: false, ..c1 }, b1, m)
}

pub fn op_reti(cpu: &mut Cpu, bus: &mut Bus, now: u64) -> (m: u8)
    requires
        old(bus)@.wf(),
    ensures
        (*final(cpu), final(bus)@, m) == op_reti_spec(*old(cpu), old(bus)@, now),
        final(bus)@.wf(),
{
    cpu.regs.pc = pop_u16(cpu, bus, now);
    cpu.ime = true;
    cpu.ei_latch = false;
    3
}

/// `x` plus the two's complement offset `e`, modulo 2^16.
fn add_signed(x: u16, e: u8) -> (r: u16)
    ensures
        r == wrap16(x, signed8(e)),
{
    if e < 128 {
        x.wrapping_add(e as u16)
    } else {
        x.wrapping_sub(256 - e as u16)
    }
}

fn sp_offset_flags(regs: Registers, e: u8) -> (r: u8)
    ensures
        r == sp_offset(regs, e).1,
{
    let sp = regs.sp;
    let e16 = e as u16;
    assert((sp & 0xFu16) == sp % 16 && (e16 & 0xFu16) == e16 % 16 && (sp & 0xFFu16) == sp % 256)
        by {
        lemma_u16_fields();
    }
    let h = (sp & 0xF) + (e16 & 0xF) > 0xF;
    let c = (sp & 0xFF) + e16 > 0xFF;
    with_flags(regs, false, false, h, c).f
}

pub open spec fn op_add_sp_r8_spec(c: Cpu, b: BusState, t: u64) -> (Cpu, BusState, u8) {
    let (e, c1, b1) = fetch8(c, b, t);
    let (sp, f) = sp_offset(c1.regs, e);
    (with_regs(c1, Registers { sp, f, ..c1.regs }), b1, 3)
}

pub fn op_add_sp_r8(cpu: &mut Cpu, bus: &mut Bus, now: u64) -> (m: u8)
    requires
        old(bus)@.wf(),
    ensures
        (*final(cpu), final(bus)@, m) == op_add_sp_r8_spec(*old(cpu), old(bus)@, now),
        final(bus)@.wf(),
{
    let e = fetch_u8(cpu, bus, now);
    let f = sp_offset_flags(cpu.regs, e);
    cpu.regs.sp = add_signed(cpu.regs.sp, e);
    cpu.regs.f = f;
    3
}

pub open spec fn op_ld_hl_sp_r8_spec(c: Cpu, b: BusState, t: u64) -> (Cpu, BusState, u8) {
    let (e, c1, b1) = fetch8(c, b, t);
    let (v, f) = sp_offset(c1.regs, e);
    (with_regs(c1, Registers { f, ..with_pair16(c1.regs, 2, v) }), b1, 2)
}

pub fn op_ld_hl_sp_r8(cpu: &mut Cpu, bus: &mut Bus, now: u64) -> (m: u8)
    requires
        old(bus)@.wf(),
    ensures
        (*final(cpu), final(bus)@, m) == op_ld_hl_sp_r8_spec(*old(cpu), old(bus)@, now),
        final(bus)@.wf(),
{
    let e = fetch_u8(cpu, bus, now);
    let f = sp_offset_flags(cpu.regs, e);
    let r = add_signed(cpu.regs.sp, e);
    cpu.regs.set_hl(r);
    cpu.regs.f = f;
    2
}

// ---------------------------------------------------------------------------------------
// Jumps, calls and returns
// ---------------------------------------------------------------------------------------

pub open spec fn op_jp_nn_spec(c: Cpu, b: BusState, t: u64) -> (Cpu, BusState, u8) {
    let (nn, c1, b1) = fetch16(c, b, t);
    (set_pc(c1, nn), b1, 3)
}

pub fn op_jp_nn(cpu: &mut Cpu, bus: &mut Bus, now: u64) -> (m: u8)
    requires
        old(bus)@.wf(),
    ensures
        (*final(cpu), final(bus)@, m) == op_jp_nn_spec(*old(cpu), old(bus)@, now),
        final(bus)@.wf(),
{
    cpu.regs.pc = fetch_u16(cpu, bus, now);
    3
}

/// CALL nn: pushes the address after the operand and jumps.
pub open spec fn op_call_nn_spec(c: Cpu, b: BusState, t: u64) -> (Cpu, BusState, u8) {
    let (nn, c1, b1) = fetch16(c, b, t);
    let (c2, b2) = push16(c1, b1, c1.regs.pc, t);
    (set_pc(c2, nn), b2, 5)
}

pub fn op_call_nn(cpu: &mut Cpu, bus: &mut Bus, now: u64) -> (m: u8)
    requires
        old(bus)@.wf(),
    ensures
        (*final(cpu), final(bus)@, m) == op_call_nn_spec(*old(cpu), old(bus)@, now),
        final(bus)@.wf(),
{
    let nn = fetch_u16(cpu, bus, now);
    let pc = cpu.regs.pc;
    push_u16(cpu, bus, pc, now);
    cpu.regs.pc = nn;
    5
}

pub open spec fn op_jr_r8_spec(c: Cpu, b: BusState, t: u64) -> (Cpu, BusState, u8) {
    let (e, c1, b1) = fetch8(c, b, t);
    (set_pc(c1, wrap16(c1.regs.pc, signed8(e))), b1, 2)
}

pub fn op_jr_r8(cpu: &mut Cpu, bus: &mut Bus, now: u64) -> (m: u8)
    requires
        old(bus)@.wf(),
    ensures
        (*final(cpu), final(bus)@, m) == op_jr_r8_spec(*old(cpu), old(bus)@, now),
        final(bus)@.wf(),
{
    let e = fetch_u8(cpu, bus, now);
    cpu.regs.pc = add_signed(cpu.regs.pc, e);
    2
}

/// JP cc,nn: the operand is always fetched; the jump happens when `cc` holds.
pub open spec fn op_jp_cc_nn_spec(c: Cpu, b: BusState, i: u8, t: u64) -> (Cpu, BusState, u8) {
    let (nn, c1, b1) = fetch16(c, b, t);
    (if cond(c1.regs, i) { set_pc(c1, nn) } else { c1 }, b1, 3)
}

pub fn op_jp_cc_nn(cpu: &mut Cpu, bus: &mut Bus, i: u8, now: u64) -> (m: u8)
    requires
        old(bus)@.wf(),
    ensures
        (*final(cpu), final(bus)@, m) == op_jp_cc_nn_spec(*old(cpu), old(bus)@, i, now),
        final(bus)@.wf(),
{
    let nn = fetch_u16(cpu, bus, now);
    if cc(cpu, i) {
        cpu.regs.pc = nn;
    }
    3
}

pub open spec fn op_call_cc_nn_spec(c: Cpu, b: BusState, i: u8, t: u64) -> (Cpu, BusState, u8) {
    let (nn, c1, b1) = fetch16(c, b, t);
    if cond(c1.regs, i) {
        let (c2, b2) = push16(c1, b1, c1.regs.pc, t);
        (set_pc(c2, nn), b2, 5)
    } else {
        (c1, b1, 2)
    }
}

pub fn op_call_cc_nn(cpu: &mut Cpu, bus: &mut Bus, i: u8, now: u64) -> (m: u8)
    requires
        old(bus)@.wf(),
    ensures
        (*final(cpu), final(bus)@, m) == op_call_cc_nn_spec(*old(cpu), old(bus)@, i, now),
        final(bus)@.wf(),
{
    let nn = fetch_u16(cpu, bus, now);
    if cc(cpu, i) {
        let pc = cpu.regs.pc;
        push_u16(cpu, bus, pc, now);
        cpu.regs.pc = nn;
        5
    } else {
        2
    }
}

pub open spec fn op_ret_cc_spec(c: Cpu, b: BusState, i: u8, t: u64) -> (Cpu, BusState, u8) {
    if cond(c.regs, i) {
        let (v, c1, b1) = pop16(c, b, t);
        (set_pc(c1, v), b1, 4)
    } else {
        (c, b, 1)
    }
}

pub fn op_ret_cc(cpu: &mut Cpu, bus: &mut Bus, i: u8, now: u64) -> (m: u8)
    requires
        old(bus)@.wf(),
    ensures
        (*final(cpu), final(bus)@, m) == op_ret_cc_spec(*old(cpu), old(bus)@, i, now),
        final(bus)@.wf(),
{
    if cc(cpu, i) {
        cpu.regs.pc = pop_u16(cpu, bus, now);
        4
    } else {
        1
    }
}

pub open spec fn op_jr_cc_r8_spec(c: Cpu, b: BusState, i: u8, t: u64) -> (Cpu, BusState, u8) {
    let (e, c1, b1) = fetch8(c, b, t);
    if cond(c1.regs, i) {
        (set_pc(c1, wrap16(c1.regs.pc, signed8(e))), b1, 2)
    } else {
        (c1, b1, 1)
    }
}

pub fn op_jr_cc_r8(cpu: &mut Cpu, bus: &mut Bus, i: u8, now: u64) -> (m: u8)
    requires
        old(bus)@.wf(),
    ensures
        (*final(cpu), final(bus)@, m) == op_jr_cc_r8_spec(*old(cpu), old(bus)@, i, now),
        final(bus)@.wf(),
{
    let e = fetch_u8(cpu, bus, now);
    if cc(cpu, i) {
        cpu.regs.pc = add_signed(cpu.regs.pc, e);
        2
    } else {
        1
    }
}

pub open spec fn op_rst_spec(c: Cpu, b: BusState, addr: u8, t: u64) -> (Cpu, BusState, u8) {
    let (c1, b1) = push16(c, b, c.regs.pc, t);
    (set_pc(c1, addr as u16), b1, 3)
}

pub fn op_rst(cpu: &mut Cpu, bus: &mut Bus, addr: u8, now: u64) -> (m: u8)
    requires
        old(bus)@.wf(),
    ensures
        (*final(cpu), final(bus)@, m) == op_rst_spec(*old(cpu), old(bus)@, addr, now),
        final(bus)@.wf(),
{
    let pc = cpu.regs.pc;
    push_u16(cpu, bus, pc, now);
    cpu.regs.pc = addr as u16;
    3
}

// ---------------------------------------------------------------------------------------
// Absolute and high-page loads, STOP, HALT
// ---------------------------------------------------------------------------------------

pub open spec fn op_ld_a_nn_spec(c: Cpu, b: BusState, t: u64) -> (Cpu, BusState, u8) {
    let (addr, c1, b1) = fetch16(c, b, t);
    (with_regs(c1, Registers { a: b1.read_value(addr, t), ..c1.regs }), b1.after_read(addr), 3)
}

pub fn op_ld_a_nn(cpu: &mut Cpu, bus: &mut Bus, now: u64) -> (m: u8)
    requires
        old(bus)@.wf(),
    ensures
        (*final(cpu), final(bus)@, m) == op_ld_a_nn_spec(*old(cpu), old(bus)@, now),
        final(bus)@.wf(),
{
    let addr = fetch_u16(cpu, bus, now);
    cpu.regs.a = bus.read_at(addr, now);
    3
}

pub open spec fn op_ld_nn_a_spec(c: Cpu, b: BusState, t: u64) -> (Cpu, BusState, u8) {
    let (addr, c1, b1) = fetch16(c, b, t);
    (c1, b1.write(addr, c1.regs.a, t), 3)
}

pub fn op_ld_nn_a(cpu: &mut Cpu, bus: &mut Bus, now: u64) -> (m: u8)
    requires
        old(bus)@.wf(),
    ensures
        (*final(cpu), final(bus)@, m) == op_ld_nn_a_spec(*old(cpu), old(bus)@, now),
        final(bus)@.wf(),
{
    let addr = fetch_u16(cpu, bus, now);
    bus.write_at(addr, cpu.regs.a, now);
    3
}

/// `FF00 + n`.
pub open spec fn high_page(n: u8) -> u16 {
    (0xFF00 + n) as u16
}

fn high_page_addr(n: u8) -> (r: u16)
    ensures
        r == high_page(n),
{
    let w = n as u16;
    assert(0xFF00u16 | w == 0xFF00 + w) by {
        lemma_u16_fields();
    }
    0xFF00 | w
}

pub open spec fn op_ldh_n_a_spec(c: Cpu, b: BusState, t: u64) -> (Cpu, BusState, u8) {
    let (n, c1, b1) = fetch8(c, b, t);
    (c1, b1.write(high_page(n), c1.regs.a, t), 2)
}

pub fn op_ldh_n_a(cpu: &mut Cpu, bus: &mut Bus, now: u64) -> (m: u8)
    requires
        old(bus)@.wf(),
    ensures
        (*final(cpu), final(bus)@, m) == op_ldh_n_a_spec(*old(cpu), old(bus)@, now),
        final(bus)@.wf(),
{
    let n = fetch_u8(cpu, bus, now);
    bus.write_at(high_page_addr(n), cpu.regs.a, now);
    2
}

pub open spec fn op_ldh_a_n_spec(c: Cpu, b: BusState, t: u64) -> (Cpu, BusState, u8) {
    let (n, c1, b1) = fetch8(c, b, t);
    let addr = high_page(n);
    (with_regs(c1, Registers { a: b1.read_value(addr, t), ..c1.regs }), b1.after_read(addr), 2)
}

pub fn op_ldh_a_n(cpu: &mut Cpu, bus: &mut Bus, now: u64) -> (m: u8)
    requires
        old(bus)@.wf(),
    ensures
        (*final(cpu), final(bus)@, m) == op_ldh_a_n_spec(*old(cpu), old(bus)@, now),
        final(bus)@.wf(),
{
    let n = fetch_u8(cpu, bus, now);
    cpu.regs.a = bus.read_at(high_page_addr(n), now);
    2
}

pub open spec fn op_ld_c_a_spec(c: Cpu, b: BusState, t: u64) -> (Cpu, BusState, u8) {
    (c, b.write(high_page(c.regs.c), c.regs.a, t), 1)
}

pub fn op_ld_c_a(cpu: &mut Cpu, bus: &mut Bus, now: u64) -> (m: u8)
    requires
        old(bus)@.wf(),
    ensures
        (*final(cpu), final(bus)@, m) == op_ld_c_a_spec(*old(cpu), old(bus)@, now),
        final(bus)@.wf(),
{
    bus.write_at(high_page_addr(cpu.regs.c), cpu.regs.a, now);
    1
}

pub open spec fn op_ld_a_c_spec(c: Cpu, b: BusState, t: u64) -> (Cpu, BusState, u8) {
    let addr = high_page(c.regs.c);
    (with_regs(c, Registers { a: b.read_value(addr, t), ..c.regs }), b.after_read(addr), 1)
}

pub fn op_ld_a_c(cpu: &mut Cpu, bus: &mut Bus, now: u64) -> (m: u8)
    requires
        old(bus)@.wf(),
    ensures
        (*final(cpu), final(bus)@, m) == op_ld_a_c_spec(*old(cpu), old(bus)@, now),
        final(bus)@.wf(),
{
    cpu.regs.a = bus.read_at(high_page_addr(cpu.regs.c), now);
    1
}

/// STOP: a two-byte opcode; on CGB it completes an armed speed switch.
pub open spec fn op_stop_spec(c: Cpu, b: BusState, t: u64) -> (Cpu, BusState, u8) {
    let (_, c1, b1) = fetch8(c, b, t);
    (c1, b1.stop_speed_switch(), 1)
}

pub fn op_stop(cpu: &mut Cpu, bus: &mut Bus, now: u64) -> (m: u8)
    requires
        old(bus)@.wf(),
    ensures
        (*final(cpu), final(bus)@, m) == op_stop_spec(*old(cpu), old(bus)@, now),
        final(bus)@.wf(),
{
    let _operand = fetch_u8(cpu, bus, now);
    bus.cgb_stop_speed_switch();
    1
}

pub fn op_halt(cpu: &mut Cpu, _bus: &mut Bus) -> (m: u8)
    ensures
        *final(cpu) == (Cpu { halted: true, ..*old(cpu) }),
        *final(_bus) == *old(_bus),
        m == 0,
{
    cpu.halted = true;
    0
}

/// Undefined opcodes: no operand bytes, no effect.
pub fn op_illegal(_cpu: &mut Cpu, _bus: &mut Bus, _opc: u8) -> (m: u8)
    ensures
        *final(_cpu) == *old(_cpu),
        *final(_bus) == *old(_bus),
        m == 0,
{
    0
}

// ---------------------------------------------------------------------------------------
// Laws
// ---------------------------------------------------------------------------------------

/// With the stack in high RAM, POP right after PUSH gives the pushed value back and leaves
/// the CPU as it was.
pub proof fn lemma_push_pop(c: Cpu, b: BusState, v: u16, t: u64)
    requires
        0xFF82 <= c.regs.sp,
    ensures
        ({
            let (c1, b1) = push16(c, b, v, t);
            let (w, c2, b2) = pop16(c1, b1, t);
            w == v && c2 == c
        }),
{
    let sp = c.regs.sp;
    let sp1 = wrap16(sp, -1);
    let sp2 = wrap16(sp1, -1);
    assert(sp1 == sp - 1 && sp2 == sp - 2);
    let b1 = b.write(sp1, (v / 256) as u8, t);
    let b2 = b1.write(sp2, (v % 256) as u8, t);
    lemma_hram_read_after_write(b1, sp2, (v % 256) as u8, t, t);
    lemma_hram_read_pure(b2, sp2);
    lemma_hram_write_other(b1, sp2, sp1, (v % 256) as u8, t, t);
    lemma_hram_read_after_write(b, sp1, (v / 256) as u8, t, t);
    assert(wrap16(sp2, 1) == sp1);
    assert(wrap16(sp1, 1) == sp);
}

/// RRC undoes RLC, and RR undoes RL when given back the carry RL shifted out.
pub proof fn lemma_rotate_inverse(v: u8, cin: bool)
    ensures
        rrc8(rlc8(v)) == v,
        rlc8(rrc8(v)) == v,
        rr8(rl8(v, cin), v >= 128) == v,
        rl8(rr8(v, cin), v % 2 == 1) == v,
{
}

/// DEC rr undoes INC rr.
pub proof fn lemma_inc_dec_pair(r: Registers, p: u8)
    requires
        p < 4,
    ensures
        with_pair16(
            with_pair16(r, p, wrap16(pair16(r, p), 1)),
            p,
            wrap16(pair16(with_pair16(r, p, wrap16(pair16(r, p), 1)), p), -1),
        ) == r,
{
    let v = pair16(r, p);
    let n = wrap16(v, 1);
    assert(pair16(with_pair16(r, p, n), p) == n);
    assert(wrap16(n, -1) == v);
}

/// Both decimal digits of `x` are at most 9 (packed BCD).
pub open spec fn bcd_ok(x: u8) -> bool {
    x % 16 <= 9 && x / 16 <= 9
}

/// The number a packed BCD byte stands for.
pub open spec fn bcd_value(x: u8) -> int {
    10 * (x / 16) + x % 16
}

/// Packed BCD byte of a number below 100.
pub open spec fn bcd_of(n: int) -> u8 {
    (16 * (n / 10) + n % 10) as u8
}

/// DAA's new flags: Z and C as given, H clear, N as it was.
proof fn lemma_daa_flags(f: u8, z: bool, c: bool)
    ensures
        ({
            let g = with_bits(with_bits(with_bits(f, FLAG_Z, z), FLAG_H, false), FLAG_C, c);
            &&& (g & FLAG_Z != 0) == z
            &&& (g & FLAG_N != 0) == (f & FLAG_N != 0)
            &&& g & FLAG_H == 0
            &&& (g & FLAG_C != 0) == c
        }),
{
    assert({
        let f1 = if z { f | 0x80u8 } else { f & !0x80u8 };
        let f2 = f1 & !0x20u8;
        let g = if c { f2 | 0x10u8 } else { f2 & !0x10u8 };
        &&& (g & 0x80u8 != 0) == z
        &&& (g & 0x40u8 != 0) == (f & 0x40u8 != 0)
        &&& g & 0x20u8 == 0
        &&& (g & 0x10u8 != 0) == c
    }) by (bit_vector);
}

/// The decimal adjustment after an addition, on the digit sums: `hs` of the tens digits,
/// `ls` of the units digits and the carry-in.
#[verifier::spinoff_prover]
#[verifier::rlimit(40)]
proof fn lemma_daa_add_digits(hs: int, ls: int)
    requires
        0 <= hs <= 18,
        0 <= ls <= 19,
    ensures
        ({
            let s = 16 * hs + ls;
            let a0 = s % 256;
            let adj = ls > 15 || a0 % 16 > 9;
            let a1 = if adj { (a0 + 6) % 256 } else { a0 };
            let c1 = if adj { s > 255 || a0 + 6 > 255 } else { s > 255 };
            let adj2 = c1 || a1 > 0x99;
            let a2 = if adj2 { (a1 + 0x60) % 256 } else { a1 };
            let c2 = if adj2 { c1 || a1 + 0x60 > 255 } else { c1 };
            let n = (10 * hs + ls) % 100;
            &&& a2 == 16 * (n / 10) + n % 10
            &&& c2 == (10 * hs + ls >= 100)
        }),
{
    let s = 16 * hs + ls;
    // The decimal digits of the sum: a units sum of ten or more carries into the tens.
    let hp = if ls >= 10 { hs + 1 } else { hs };
    let lp = if ls >= 10 { ls - 10 } else { ls };
    let t = 16 * hp + lp;
    let a0 = s % 256;
    assert(a0 == if s >= 256 { s - 256 } else { s });
    assert(a0 % 16 == if ls >= 16 { ls - 16 } else { ls });
    let a1 = if ls >= 10 { (a0 + 6) % 256 } else { a0 };
    let c1 = if ls >= 10 { s > 255 || a0 + 6 > 255 } else { s > 255 };
    assert(a1 == if t >= 256 { t - 256 } else { t });
    assert(c1 == (t >= 256));
    let n = 10 * hs + ls;
    assert(n == 10 * hp + lp);
    assert(n % 100 == if hp >= 10 { 10 * (hp - 10) + lp } else { 10 * hp + lp });
    if hp >= 10 {
        assert((a1 + 0x60) % 256 == 16 * (hp - 10) + lp);
    }
}

/// The decimal adjustment after a subtraction, on the digit differences: `hd` of the tens
/// digits and `ld` of the units digits.
#[verifier::spinoff_prover]
#[verifier::rlimit(40)]
proof fn lemma_daa_sub_digits(hd: int, ld: int)
    requires
        -9 <= hd <= 9,
        -9 <= ld <= 9,
    ensures
        ({
            let a0 = (16 * hd + ld + 256) % 256;
            let c0 = 16 * hd + ld < 0;
            let a1 = if ld < 0 { (a0 + 256 - 6) % 256 } else { a0 };
            let a2 = if c0 { (a1 + 256 - 0x60) % 256 } else { a1 };
            let n = (10 * hd + ld + 100) % 100;
            &&& a2 == 16 * (n / 10) + n % 10
            &&& c0 == (10 * hd + ld < 0)
        }),
{
    // The decimal digits of the difference: a negative units difference borrows ten.
    let hp = if ld < 0 { hd - 1 } else { hd };
    let lp = if ld < 0 { ld + 10 } else { ld };
    let a0 = (16 * hd + ld + 256) % 256;
    if 16 * hd + ld < 0 {
        assert(a0 == 16 * hd + ld + 256);
    } else {
        assert(a0 == 16 * hd + ld);
    }
    let a1 = if ld < 0 { (a0 + 256 - 6) % 256 } else { a0 };
    if hp < 0 {
        assert(a1 == 16 * hp + lp + 256);
        assert((a1 + 256 - 0x60) % 256 == 16 * (hp + 10) + lp);
        assert((10 * hd + ld + 100) % 100 == 10 * (hp + 10) + lp);
    } else {
        assert(a1 == 16 * hp + lp);
        assert((10 * hd + ld + 100) % 100 == 10 * hp + lp);
    }
}

/// The adjustment DAA makes after an addition of two BCD bytes and a carry-in.
proof fn lemma_daa_after_add(r: Registers, x: u8, y: u8, cin: int)
    requires
        bcd_ok(x),
        bcd_ok(y),
        0 <= cin <= 1,
        r.a == (x + y + cin) % 256,
        !r.n(),
        r.hf() == (x % 16 + y % 16 + cin > 15),
        r.cy() == (x + y + cin > 255),
    ensures
        daa_ac(r) == (bcd_of((bcd_value(x) + bcd_value(y) + cin) % 100), bcd_value(x)
            + bcd_value(y) + cin >= 100),
{
    let xh = x / 16;
    let yh = y / 16;
    assert(x == 16 * xh + x % 16 && y == 16 * yh + y % 16);
    lemma_daa_add_digits(xh + yh, x % 16 + y % 16 + cin);
}

/// The adjustment DAA makes after a subtraction of two BCD bytes.
proof fn lemma_daa_after_sub(r: Registers, x: u8, y: u8)
    requires
        bcd_ok(x),
        bcd_ok(y),
        r.a == (x - y + 256) % 256,
        r.n(),
        r.hf() == (x % 16 < y % 16),
        r.cy() == (x < y),
    ensures
        daa_ac(r) == (bcd_of((bcd_value(x) - bcd_value(y) + 100) % 100), bcd_value(x)
            < bcd_value(y)),
{
    let xh = x / 16;
    let yh = y / 16;
    assert(x == 16 * xh + x % 16 && y == 16 * yh + y % 16);
    lemma_daa_sub_digits(xh - yh, x % 16 - y % 16);
}

/// DAA after ADD, ADC or SUB of two packed BCD bytes leaves A holding the decimal sum or
/// difference (mod 100) in packed BCD, C the decimal carry or borrow, Z whether A is 0,
/// H clear and N as the arithmetic set it.
pub proof fn lemma_daa_bcd(r: Registers, op: u8, y: u8)
    requires
        op == 0 || op == 1 || op == 2,
        bcd_ok(r.a),
        bcd_ok(y),
    ensures
        ({
            let cin = if op == 1 { bit_of(r.cy()) } else { 0 };
            let r2 = daa(alu(r, op, y));
            let dx = bcd_value(r.a);
            let dy = bcd_value(y);
            &&& op != 2 ==> r2.a == bcd_of((dx + dy + cin) % 100) && r2.cy() == (dx + dy + cin
                >= 100)
            &&& op == 2 ==> r2.a == bcd_of((dx - dy + 100) % 100) && r2.cy() == (dx < dy)
            &&& r2.z() == (r2.a == 0)
            &&& !r2.hf()
            &&& r2.n() == (op == 2)
        }),
{
    let x = r.a;
    let cin = if op == 1 { bit_of(r.cy()) } else { 0 };
    let r1 = alu(r, op, y);
    if op == 0 {
        lemma_flags_set(r, ((x + y) % 256) as u8 == 0, false, x % 16 + y % 16 > 15, x + y > 255);
        lemma_daa_after_add(r1, x, y, 0);
    } else if op == 1 {
        lemma_flags_set(r, ((x + y + cin) % 256) as u8 == 0, false, x % 16 + y % 16 + cin > 15, x + y + cin > 255);
        lemma_daa_after_add(r1, x, y, cin);
    } else {
        lemma_flags_set(r, ((x - y + 256) % 256) as u8 == 0, true, x % 16 < y % 16, x < y);
        lemma_daa_after_sub(r1, x, y);
    }
    let (a, c) = daa_ac(r1);
    lemma_daa_flags(r1.f, a == 0, c);
}

/// What each accumulator operation does, with `a` the old A, `v` the operand and `cin` the
/// old carry:
/// - ADD and ADC: A = (a + v [+ cin]) mod 256; C when the sum passes 255, H when the low
///   nibbles' sum passes 15; N clear.
/// - SUB, SBC and CP: the difference a - v [- cin] mod 256 (CP leaves A as it was); C when
///   the subtrahend exceeds a, H when it does on the low nibbles; N set.
/// - AND, XOR, OR: each bit of A is the AND, exclusive OR or OR of the bits of a and v; H
///   set by AND only, N and C clear.
/// - Z always tells whether the result is 0; no other register changes.
#[verifier::spinoff_prover]
pub proof fn lemma_alu_results(r: Registers, op: u8, v: u8)
    requires
        op < 8,
    ensures
        ({
            let a = r.a;
            let cin: int = if r.cy() { 1 } else { 0 };
            let r2 = alu(r, op, v);
            let res: int = if op == 0 {
                (a + v) % 256
            } else if op == 1 {
                (a + v + cin) % 256
            } else if op == 2 || op == 7 {
                (a + 256 - v) % 256
            } else if op == 3 {
                (a + 512 - v - cin) % 256
            } else {
                r2.a as int
            };
            &&& r2 == (Registers { a: r2.a, f: r2.f, ..r })
            &&& r2.f & 0x0F == r.f & 0x0F
            &&& op != 7 ==> r2.a == res
            &&& op == 7 ==> r2.a == a
            &&& r2.z() == (res == 0)
            &&& r2.n() == (op == 2 || op == 3 || op == 7)
            &&& op == 0 ==> r2.cy() == (a + v > 255) && r2.hf() == (a % 16 + v % 16 > 15)
            &&& op == 1 ==> r2.cy() == (a + v + cin > 255) && r2.hf() == (a % 16 + v % 16 + cin > 15)
            &&& (op == 2 || op == 7) ==> r2.cy() == (v > a) && r2.hf() == (v % 16 > a % 16)
            &&& op == 3 ==> r2.cy() == (v + cin > a) && r2.hf() == (v % 16 + cin > a % 16)
            &&& op == 4 ==> r2.hf() && !r2.cy() && forall|i: int|
                0 <= i < 8 ==> #[trigger] byte_bit(r2.a, i) == (byte_bit(a, i) && byte_bit(v, i))
            &&& op == 5 ==> !r2.hf() && !r2.cy() && forall|i: int|
                0 <= i < 8 ==> #[trigger] byte_bit(r2.a, i) == (byte_bit(a, i) != byte_bit(v, i))
            &&& op == 6 ==> !r2.hf() && !r2.cy() && forall|i: int|
                0 <= i < 8 ==> #[trigger] byte_bit(r2.a, i) == (byte_bit(a, i) || byte_bit(v, i))
        }),
{
    let a = r.a;
    let cin: int = if r.cy() { 1 } else { 0 };
    let r2 = alu(r, op, v);
    if op == 0 {
        lemma_flags_set(r, ((a + v) % 256) as u8 == 0, false, a % 16 + v % 16 > 15, a + v > 255);
    } else if op == 1 {
        lemma_flags_set(r, ((a + v + cin) % 256) as u8 == 0, false, a % 16 + v % 16 + cin > 15, a + v + cin > 255);
    } else if op == 2 || op == 7 {
        lemma_flags_set(r, ((a - v + 256) % 256) as u8 == 0, true, a % 16 < v % 16, a < v);
    } else if op == 3 {
        lemma_flags_set(r, ((a - v - cin + 512) % 256) as u8 == 0, true, a % 16 < v % 16 + cin, a < v + cin);
    } else if op == 4 {
        lemma_flags_set(r, a & v == 0, false, true, false);
    } else if op == 5 {
        lemma_flags_set(r, a ^ v == 0, false, false, false);
    } else {
        lemma_flags_set(r, a | v == 0, false, false, false);
    }
    if 4 <= op <= 6 {
        assert forall|i: int| 0 <= i < 8 implies {
            &&& op == 4 ==> (#[trigger] byte_bit(r2.a, i) == (byte_bit(a, i) && byte_bit(v, i)))
            &&& op == 5 ==> (byte_bit(r2.a, i) == (byte_bit(a, i) != byte_bit(v, i)))
            &&& op == 6 ==> (byte_bit(r2.a, i) == (byte_bit(a, i) || byte_bit(v, i)))
        } by {
            lemma_byte_bit(r2.a, i);
            lemma_byte_bit(a, i);
            lemma_byte_bit(v, i);
            lemma_bitwise_bits(a, v, i as u8);
        }
    }
}

/// INC of a register: the register goes up by one (modulo 256) and no other register but
/// F changes; Z tells whether the result is 0, N is clear, H tells whether the low nibble
/// carried (x_F + 1), and C is kept.
#[verifier::spinoff_prover]
pub proof fn lemma_inc_register(c: Cpu, b: BusState, r: u8, t: u64)
    requires
        r < 8,
        r != 6,
    ensures
        ({
            let x = reg8(c.regs, r);
            let (ci, bi, mi) = op_inc_r_spec(c, b, r, t);
            let inc = ((x + 1) % 256) as u8;
            &&& ci.regs == (Registers { f: ci.regs.f, ..with_reg8(c.regs, r, inc) })
            &&& bi == b && mi == 0
            &&& ci.regs.z() == (inc == 0) && !ci.regs.n() && ci.regs.hf() == (x % 16 == 15)
                && ci.regs.cy() == c.regs.cy()
        }),
{
    let x = reg8(c.regs, r);
    let inc = ((x + 1) % 256) as u8;
    assert(with_reg8(c.regs, r, inc).f == c.regs.f);
    lemma_inc_dec_flag_bits(c.regs.f, inc == 0, inc % 16 == 0, false, false);
    assert(inc % 16 == 0 <==> x % 16 == 15);
}

/// DEC of a register: the register goes down by one (modulo 256) and no other register
/// but F changes; Z tells whether the result is 0, N is set, H tells whether the low
/// nibble borrowed (x_0 - 1), and C is kept.
#[verifier::spinoff_prover]
pub proof fn lemma_dec_register(c: Cpu, b: BusState, r: u8, t: u64)
    requires
        r < 8,
        r != 6,
    ensures
        ({
            let x = reg8(c.regs, r);
            let (cd, bd, md) = op_dec_r_spec(c, b, r, t);
            let dec = ((x + 255) % 256) as u8;
            &&& cd.regs == (Registers { f: cd.regs.f, ..with_reg8(c.regs, r, dec) })
            &&& bd == b && md == 0
            &&& cd.regs.z() == (dec == 0) && cd.regs.n() && cd.regs.hf() == (x % 16 == 0)
                && cd.regs.cy() == c.regs.cy()
        }),
{
    let x = reg8(c.regs, r);
    let dec = ((x + 255) % 256) as u8;
    assert(with_reg8(c.regs, r, dec).f == c.regs.f);
    lemma_inc_dec_flag_bits(c.regs.f, false, false, dec == 0, dec % 16 == 15);
    assert(dec % 16 == 15 <==> x % 16 == 0);
}

/// The flag bits INC and DEC set, and that C is kept.
pub(crate) proof fn lemma_inc_dec_flag_bits(f: u8, zi: bool, hi: bool, zd: bool, hd: bool)
    ensures
        ({
            let gi = with_bits(with_bits(with_bits(f, FLAG_Z, zi), FLAG_N, false), FLAG_H, hi);
            let gd = with_bits(with_bits(with_bits(f, FLAG_Z, zd), FLAG_N, true), FLAG_H, hd);
            &&& (gi & FLAG_Z != 0) == zi && gi & FLAG_N == 0 && (gi & FLAG_H != 0) == hi
                && (gi & FLAG_C != 0) == (f & FLAG_C != 0)
            &&& (gd & FLAG_Z != 0) == zd && gd & FLAG_N != 0 && (gd & FLAG_H != 0) == hd
                && (gd & FLAG_C != 0) == (f & FLAG_C != 0)
        }),
{
    assert({
        let gi = {
            let a = if zi { f | 0x80u8 } else { f & !0x80u8 };
            let b = a & !0x40u8;
            if hi { b | 0x20u8 } else { b & !0x20u8 }
        };
        let gd = {
            let a = if zd { f | 0x80u8 } else { f & !0x80u8 };
            let b = a | 0x40u8;
            if hd { b | 0x20u8 } else { b & !0x20u8 }
        };
        &&& (gi & 0x80u8 != 0) == zi && gi & 0x40u8 == 0 && (gi & 0x20u8 != 0) == hi
            && (gi & 0x10u8 != 0) == (f & 0x10u8 != 0)
        &&& (gd & 0x80u8 != 0) == zd && gd & 0x40u8 != 0 && (gd & 0x20u8 != 0) == hd
            && (gd & 0x10u8 != 0) == (f & 0x10u8 != 0)
    }) by (bit_vector);
}

/// JR: the offset byte after the opcode is read as a signed number (128–255 are -128 to
/// -1) and added to the address of the next instruction, modulo 0x10000; so an offset of
/// 0xFE jumps back to the JR opcode itself. The conditional form jumps only when its
/// condition holds and otherwise moves on to the next instruction.
pub proof fn lemma_jr_target(c: Cpu, b: BusState, i: u8, t: u64)
    ensures
        ({
            let e = b.read_value(c.regs.pc, t) as int;
            let off = if e < 128 { e } else { e - 256 };
            let target = ((c.regs.pc + 1 + off) % 0x10000) as u16;
            let next = ((c.regs.pc + 1) % 0x10000) as u16;
            &&& op_jr_r8_spec(c, b, t).0.regs.pc == target
            &&& op_jr_cc_r8_spec(c, b, i, t).0.regs.pc == if cond(c.regs, i) { target } else { next }
            &&& e == 0xFE ==> op_jr_r8_spec(c, b, t).0.regs.pc == ((c.regs.pc + 0xFFFF) % 0x10000) as u16
        }),
{
}

/// CALL then RET comes back: with the stack in high RAM, RET right after CALL nn returns
/// to the instruction after the CALL (three bytes on) with SP as it was; CALL itself jumps
/// to the little-endian address following its opcode.
pub proof fn lemma_call_ret(c: Cpu, b: BusState, t: u64)
    requires
        0xFF82 <= c.regs.sp,
    ensures
        ({
            let (c1, b1, m1) = op_call_nn_spec(c, b, t);
            let (c2, b2, m2) = op_ret_spec(c1, b1, t);
            let lo = b.read_value(c.regs.pc, t);
            let hi = b.after_read(c.regs.pc).read_value(wrap16(c.regs.pc, 1), t);
            &&& c1.regs.pc == hi as int * 256 + lo as int
            &&& c2.regs.pc == ((c.regs.pc + 2) % 0x10000) as u16
            &&& c2.regs.sp == c.regs.sp
            &&& m1 == 5 && m2 == 3
        }),
{
    let (nn, cf, bf) = fetch16(c, b, t);
    let (c2, b2) = push16(cf, bf, cf.regs.pc, t);
    lemma_push_pop(cf, bf, cf.regs.pc, t);
    let (w, c3, b3) = pop16(c2, b2, t);
    let (w2, c4, b4) = pop16(set_pc(c2, nn), b2, t);
    assert(w2 == w);
    assert(cf.regs.pc == wrap16(wrap16(c.regs.pc, 1), 1));
}

/// ADD HL,rr: HL becomes (HL + v) modulo 0x10000; H tells whether bit 11 carried, C
/// whether bit 15 carried, N is clear, Z is kept, and no other register changes.
pub proof fn lemma_add_hl_result(r: Registers, v: u16)
    ensures
        ({
            let hl = r.spec_hl();
            let r2 = add_hl(r, v);
            &&& r2.spec_hl() == (hl + v) % 0x10000
            &&& r2.hf() == (hl % 4096 + v % 4096 >= 4096)
            &&& r2.cy() == (hl + v >= 0x10000)
            &&& !r2.n()
            &&& r2.z() == r.z()
            &&& r2 == (Registers { h: r2.h, l: r2.l, f: r2.f, ..r })
        }),
{
    let hl = r.spec_hl();
    let w = wrap16(hl as u16, v as int);
    lemma_pair_read_after_write(w);
    let f = r.f;
    let h = hl % 4096 + v % 4096 > 4095;
    let c = hl + v > 65535;
    assert({
        let f1 = f & !0x40u8;
        let f2 = if h { f1 | 0x20u8 } else { f1 & !0x20u8 };
        let g = if c { f2 | 0x10u8 } else { f2 & !0x10u8 };
        &&& (g & 0x80u8 != 0) == (f & 0x80u8 != 0)
        &&& g & 0x40u8 == 0
        &&& (g & 0x20u8 != 0) == h
        &&& (g & 0x10u8 != 0) == c
    }) by (bit_vector);
    assert(hl < 0x10000);
}

} // verus!
