//! CB-prefixed instructions. Each returns the M-cycles after the prefix and its operand
//! byte have been fetched.

use vstd::prelude::*;

use super::helpers::{
    get8, get_r8, low_bit, rl8, rlc8, rotate_left_circular, rotate_left_through,
    rotate_right_circular, rotate_right_through, rr8, rrc8, set8, set_r8, top_bit, with_regs,
};
use crate::bits::{byte_bit, lemma_byte_bit, lemma_single_bit_masks, lemma_u8_fields, lemma_u8_rotates};
use super::registers::{with_bits, FLAG_H, FLAG_N, FLAG_Z};
use super::{Cpu, Registers};
use crate::bus::{Bus, BusState};

verus! {

broadcast use crate::cartridge::lemma_reads_ok;

/// Testing, setting and clearing one bit of a byte, and what that leaves of the others.
proof fn lemma_single_bit()
    by (bit_vector)
    ensures
        forall|v: u8, b: u8| b < 8 ==> ((#[trigger] (v & (1u8 << b))) == 0u8) == !((v >> b) % 2 == 1),
        forall|v: u8, b: u8| b < 8 ==> (#[trigger] ((v | (1u8 << b)) >> b)) % 2 == 1,
        forall|v: u8, b: u8| b < 8 ==> (#[trigger] ((v & !(1u8 << b)) >> b)) % 2 == 0,
        forall|v: u8, b: u8, k: u8|
            k < 8 && b < 8 && k != b ==> (#[trigger] ((v | (1u8 << b)) >> k)) % 2 == (v >> k) % 2,
        forall|v: u8, b: u8, k: u8|
            k < 8 && b < 8 && k != b ==> (#[trigger] ((v & !(1u8 << b)) >> k)) % 2 == (v >> k) % 2,
{
}

/// Shift or rotate `kind` (RLC, RRC, RL, RR, SLA, SRA, SWAP, SRL) of `v` with carry in
/// `cin`: the result and the carry out.
pub open spec fn shift_op(kind: u8, v: u8, cin: bool) -> (u8, bool) {
    if kind == 0 {
        (rlc8(v), v >= 128)
    } else if kind == 1 {
        (rrc8(v), v % 2 == 1)
    } else if kind == 2 {
        (rl8(v, cin), v >= 128)
    } else if kind == 3 {
        (rr8(v, cin), v % 2 == 1)
    } else if kind == 4 {
        (((v % 128) * 2) as u8, v >= 128)
    } else if kind == 5 {
        ((v / 2 + (v / 128) * 128) as u8, v % 2 == 1)
    } else if kind == 6 {
        (((v % 16) * 16 + v / 16) as u8, false)
    } else {
        (v / 2, v % 2 == 1)
    }
}

/// Whether bit `bit` of `v` is set.
pub open spec fn bit_set(v: u8, bit: u8) -> bool {
    (v >> bit) % 2 == 1
}

/// `v` with bit `bit` cleared.
pub open spec fn clear_bit(v: u8, bit: u8) -> u8 {
    v & !(1u8 << bit)
}

/// `v` with bit `bit` set.
pub open spec fn put_bit(v: u8, bit: u8) -> u8 {
    v | (1u8 << bit)
}

/// Shift/rotate of operand `r`: Z from the result, N and H clear, C the carry out.
/// An unknown `kind` leaves the operand and the flags as they were.
pub open spec fn cb_rot_spec(c: Cpu, b: BusState, kind: u8, r: u8, t: u64) -> (Cpu, BusState, u8) {
    let (v, b1) = get8(c, b, r, t);
    let (res, cy) = shift_op(kind, v, c.regs.cy());
    let c1 = if kind < 8 {
        with_regs(c, Registers { f: c.regs.flags_set(res == 0, false, false, cy), ..c.regs })
    } else {
        c
    };
    let (c2, b2) = set8(c1, b1, r, if kind < 8 { res } else { v }, t);
    (c2, b2, if r == 6 { 2 } else { 0 })
}

fn shift_value(kind: u8, v: u8, cin: bool) -> (r: (u8, bool))
    requires
        kind < 8,
    ensures
        r == shift_op(kind, v, cin),
{
    match kind {
        0 => (rotate_left_circular(v), top_bit(v)),
        1 => (rotate_right_circular(v), low_bit(v)),
        2 => (rotate_left_through(v, cin), top_bit(v)),
        3 => (rotate_right_through(v, cin), low_bit(v)),
        4 => {
            assert(v << 1u8 == ((v % 128) * 2) as u8) by { lemma_u8_rotates(); }
            (v << 1, top_bit(v))
        },
        5 => {
            assert((v >> 1u8) | (v & 0x80u8) == (v / 2 + (v / 128) * 128) as u8) by { lemma_u8_rotates(); }
            ((v >> 1) | (v & 0x80), low_bit(v))
        },
        6 => {
            assert((v << 4u8) | (v >> 4u8) == ((v % 16) * 16 + v / 16) as u8) by { lemma_u8_rotates(); }
            ((v << 4) | (v >> 4), false)
        },
        _ => {
            assert(v >> 1u8 == v / 2) by { lemma_u8_fields(); }
            (v >> 1, low_bit(v))
        },
    }
}

pub fn cb_rot(cpu: &mut Cpu, bus: &mut Bus, kind: u8, r: u8, now: u64) -> (m: u8)
    requires
        old(bus)@.wf(),
    ensures
        (*final(cpu), final(bus)@, m) == cb_rot_spec(*old(cpu), old(bus)@, kind, r, now),
        final(bus)@.wf(),
{
    let hl = r == 6;
    let v = get_r8(cpu, bus, r, now);
    let out = if kind < 8 {
        let (res, cy) = shift_value(kind, v, cpu.regs.flag_c());
        cpu.regs.set_z(res == 0);
        cpu.regs.set_n(false);
        cpu.regs.set_h(false);
        cpu.regs.set_c(cy);
        res
    } else {
        v
    };
    set_r8(cpu, bus, r, out, now);
    if hl {
        2
    } else {
        0
    }
}

/// BIT: Z is set when the bit is clear; N clear, H set, C kept.
pub open spec fn cb_bit_spec(c: Cpu, b: BusState, bit: u8, r: u8, t: u64) -> (Cpu, BusState, u8) {
    let (v, b1) = get8(c, b, r, t);
    (
        with_regs(
            c,
            Registers {
                f: with_bits(with_bits(with_bits(c.regs.f, FLAG_Z, !bit_set(v, bit)), FLAG_N, false), FLAG_H, true),
                ..c.regs
            },
        ),
        b1,
        if r == 6 { 1 } else { 0 },
    )
}

pub fn cb_bit(cpu: &mut Cpu, bus: &mut Bus, bit: u8, r: u8, now: u64) -> (m: u8)
    requires
        old(bus)@.wf(),
        bit < 8,
    ensures
        (*final(cpu), final(bus)@, m) == cb_bit_spec(*old(cpu), old(bus)@, bit, r, now),
        final(bus)@.wf(),
{
    let v = get_r8(cpu, bus, r, now);
    assert(bit < 8 ==> ((v & (1u8 << bit)) == 0) == !((v >> bit) % 2 == 1)) by { lemma_single_bit(); }
    let z = (v & (1 << bit)) == 0;
    cpu.regs.set_z(z);
    cpu.regs.set_n(false);
    cpu.regs.set_h(true);
    if r == 6 {
        1
    } else {
        0
    }
}

pub open spec fn cb_res_spec(c: Cpu, b: BusState, bit: u8, r: u8, t: u64) -> (Cpu, BusState, u8) {
    let (v, b1) = get8(c, b, r, t);
    let (c2, b2) = set8(c, b1, r, clear_bit(v, bit), t);
    (c2, b2, if r == 6 { 2 } else { 0 })
}

pub fn cb_res(cpu: &mut Cpu, bus: &mut Bus, bit: u8, r: u8, now: u64) -> (m: u8)
    requires
        old(bus)@.wf(),
        bit < 8,
    ensures
        (*final(cpu), final(bus)@, m) == cb_res_spec(*old(cpu), old(bus)@, bit, r, now),
        final(bus)@.wf(),
{
    let v = get_r8(cpu, bus, r, now) & !(1 << bit);
    set_r8(cpu, bus, r, v, now);
    if r == 6 {
        2
    } else {
        0
    }
}

pub open spec fn cb_set_spec(c: Cpu, b: BusState, bit: u8, r: u8, t: u64) -> (Cpu, BusState, u8) {
    let (v, b1) = get8(c, b, r, t);
    let (c2, b2) = set8(c, b1, r, put_bit(v, bit), t);
    (c2, b2, if r == 6 { 2 } else { 0 })
}

pub fn cb_set(cpu: &mut Cpu, bus: &mut Bus, bit: u8, r: u8, now: u64) -> (m: u8)
    requires
        old(bus)@.wf(),
        bit < 8,
    ensures
        (*final(cpu), final(bus)@, m) == cb_set_spec(*old(cpu), old(bus)@, bit, r, now),
        final(bus)@.wf(),
{
    let v = get_r8(cpu, bus, r, now) | (1 << bit);
    set_r8(cpu, bus, r, v, now);
    if r == 6 {
        2
    } else {
        0
    }
}

/// Behaviour of the CB-prefixed opcode `op`: bits 6–7 pick shift/rotate, BIT, RES or SET,
/// bits 3–5 the operation or bit number, bits 0–2 the operand.
pub open spec fn execute_cb_spec(c: Cpu, b: BusState, op: u8, t: u64) -> (Cpu, BusState, u8) {
    let r = op % 8;
    let y = (op / 8) % 8;
    if op < 0x40 {
        cb_rot_spec(c, b, y, r, t)
    } else if op < 0x80 {
        cb_bit_spec(c, b, y, r, t)
    } else if op < 0xC0 {
        cb_res_spec(c, b, y, r, t)
    } else {
        cb_set_spec(c, b, y, r, t)
    }
}

/// No CB-prefixed instruction touches IME or the EI latch.
pub proof fn lemma_execute_cb_keeps_ime(c: Cpu, b: BusState, op: u8, t: u64)
    ensures
        execute_cb_spec(c, b, op, t).0.ime == c.ime,
        execute_cb_spec(c, b, op, t).0.ei_latch == c.ei_latch,
{
}

/// Executes the CB-prefixed opcode `op`.
pub fn execute_cb(cpu: &mut Cpu, bus: &mut Bus, op: u8, now: u64) -> (m: u8)
    requires
        old(bus)@.wf(),
    ensures
        (*final(cpu), final(bus)@, m) == execute_cb_spec(*old(cpu), old(bus)@, op, now),
        final(bus)@.wf(),
        m <= 2,
{
    assert(op & 7u8 == op % 8 && (op >> 3u8) & 7u8 == (op / 8) % 8) by { lemma_u8_fields(); }
    let r = op & 7;
    let y = (op >> 3) & 7;
    if op < 0x40 {
        cb_rot(cpu, bus, y, r, now)
    } else if op < 0x80 {
        cb_bit(cpu, bus, y, r, now)
    } else if op < 0xC0 {
        cb_res(cpu, bus, y, r, now)
    } else {
        cb_set(cpu, bus, y, r, now)
    }
}

/// SWAP twice gives the byte back; SET then BIT sees the bit set, RES then BIT sees it
/// clear, and neither touches the other bits.
pub proof fn lemma_bit_ops(v: u8, bit: u8)
    requires
        bit < 8,
    ensures
        shift_op(6, shift_op(6, v, false).0, false).0 == v,
        bit_set(put_bit(v, bit), bit),
        !bit_set(clear_bit(v, bit), bit),
        forall|k: u8| k < 8 && k != bit ==> bit_set(put_bit(v, bit), k) == bit_set(v, k) && bit_set(
            clear_bit(v, bit),
            k,
        ) == bit_set(v, k),
{
    assert(bit < 8 ==> ((v | (1u8 << bit)) >> bit) % 2 == 1 && ((v & !(1u8 << bit)) >> bit) % 2 == 0)
        by {
        lemma_single_bit();
    }
    assert forall|k: u8| k < 8 && k != bit implies bit_set(put_bit(v, bit), k) == bit_set(v, k) && bit_set(
        clear_bit(v, bit),
        k,
    ) == bit_set(v, k) by {
        assert(k < 8 && bit < 8 && k != bit ==> (((v | (1u8 << bit)) >> k) % 2 == (v >> k) % 2) && (((v
            & !(1u8 << bit)) >> k) % 2 == (v >> k) % 2)) by {
            lemma_single_bit();
        }
    }
}

/// Bit `i` of the result of shift or rotate `kind` of `v` (carry in `cin`), for bits
/// `i` in 0–7.
pub open spec fn shifted_bit(kind: u8, v: u8, cin: bool, i: int) -> bool {
    if kind == 0 {
        byte_bit(v, (i + 7) % 8)
    } else if kind == 1 {
        byte_bit(v, (i + 1) % 8)
    } else if kind == 2 {
        if i == 0 { cin } else { byte_bit(v, i - 1) }
    } else if kind == 3 {
        if i == 7 { cin } else { byte_bit(v, i + 1) }
    } else if kind == 4 {
        i != 0 && byte_bit(v, i - 1)
    } else if kind == 5 {
        if i == 7 { byte_bit(v, 7) } else { byte_bit(v, i + 1) }
    } else if kind == 6 {
        byte_bit(v, (i + 4) % 8)
    } else {
        i != 7 && byte_bit(v, i + 1)
    }
}

/// What the CB shifts and rotates do to each bit: RLC and RRC rotate the byte by one,
/// RL and RR rotate through the carry, SLA shifts left bringing in 0, SRA shifts right
/// keeping bit 7, SWAP exchanges the nibbles and SRL shifts right bringing in 0. The carry
/// out is the bit shifted out (bit 7 for left shifts, bit 0 for right ones; clear for SWAP).
#[verifier::rlimit(40)]
#[verifier::spinoff_prover]
pub proof fn lemma_shift_op_bits(kind: u8, v: u8, cin: bool, i: int)
    requires
        kind < 8,
        0 <= i < 8,
    ensures
        byte_bit(shift_op(kind, v, cin).0, i) == shifted_bit(kind, v, cin, i),
        shift_op(kind, v, cin).1 == if kind == 0 || kind == 2 || kind == 4 {
            byte_bit(v, 7)
        } else if kind == 6 {
            false
        } else {
            byte_bit(v, 0)
        },
{
    let res = shift_op(kind, v, cin).0;
    let c: u8 = if cin { 1 } else { 0 };
    let iu = i as u8;
    let jm: u8 = if iu == 0 { 7 } else { (iu - 1) as u8 };
    let jp: u8 = if iu == 7 { 0 } else { (iu + 1) as u8 };
    let js: u8 = if iu < 4 { (iu + 4) as u8 } else { (iu - 4) as u8 };
    lemma_shift_bits(v, c, iu, jm, jp, js);
    lemma_u8_rotates();
    if kind == 0 {
        assert(res == (v << 1u8) | (v >> 7u8));
    } else if kind == 1 {
        assert(res == (v >> 1u8) | (v << 7u8));
    } else if kind == 2 {
        assert(res == (v << 1u8) | c);
    } else if kind == 3 {
        assert(res == (v >> 1u8) | (c << 7u8));
    } else if kind == 4 {
        assert(res == v << 1u8);
    } else if kind == 5 {
        assert(res == (v >> 1u8) | (v & 0x80u8));
    } else if kind == 6 {
        assert(res == (v << 4u8) | (v >> 4u8));
    } else {
        assert(res == v >> 1u8);
    }
    lemma_byte_bit(res, i);
    lemma_byte_bit(v, jm as int);
    lemma_byte_bit(v, jp as int);
    lemma_byte_bit(v, js as int);
    lemma_byte_bit(v, 7);
    lemma_byte_bit(v, 0);
    assert((i + 7) % 8 == jm as int && (i + 1) % 8 == jp as int && (i + 4) % 8 == js as int);
}

/// Bit `i` of each shift and rotate of a byte, in shift form.
proof fn lemma_shift_bits(v: u8, c: u8, i: u8, jm: u8, jp: u8, js: u8)
    by (bit_vector)
    requires
        i < 8,
        c <= 1,
        i == 0 ==> jm == 7,
        i > 0 ==> jm == i - 1,
        i == 7 ==> jp == 0,
        i < 7 ==> jp == i + 1,
        i < 4 ==> js == i + 4,
        i >= 4 ==> js == i - 4,
    ensures
        ((((v << 1u8) | (v >> 7u8)) >> i) & 1u8) == ((v >> jm) & 1u8),
        ((((v >> 1u8) | (v << 7u8)) >> i) & 1u8) == ((v >> jp) & 1u8),
        ((((v << 1u8) | c) >> i) & 1u8) == (if i == 0 { c } else { (v >> jm) & 1u8 }),
        ((((v >> 1u8) | (c << 7u8)) >> i) & 1u8) == (if i == 7 { c } else { (v >> jp) & 1u8 }),
        (((v << 1u8) >> i) & 1u8) == (if i == 0 { 0u8 } else { (v >> jm) & 1u8 }),
        ((((v >> 1u8) | (v & 0x80u8)) >> i) & 1u8) == (if i == 7 { (v >> 7u8) & 1u8 } else { (v >> jp) & 1u8 }),
        ((((v << 4u8) | (v >> 4u8)) >> i) & 1u8) == ((v >> js) & 1u8),
        (((v >> 1u8) >> i) & 1u8) == (if i == 7 { 0u8 } else { (v >> jp) & 1u8 }),
        v >> 1u8 == v / 2u8,
        v >= 128u8 <==> (v >> 7u8) & 1u8 == 1u8,
        v % 2u8 == 1u8 <==> (v >> 0u8) & 1u8 == 1u8,
{
}

/// BIT, RES and SET on bit `bit` (0–7): BIT sets Z exactly when that bit of the operand is
/// clear, clears N, sets H and keeps C; SET and RES turn that bit on or off and keep
/// every other bit.
pub proof fn lemma_bit_res_set(c: Cpu, b: BusState, bit: u8, r: u8, t: u64, v: u8)
    requires
        bit < 8,
        r < 8,
        r != 6,
    ensures
        ({
            let x = super::helpers::reg8(c.regs, r);
            let f = cb_bit_spec(c, b, bit, r, t).0.regs;
            &&& f.z() == !byte_bit(x, bit as int) && !f.n() && f.hf() && f.cy() == c.regs.cy()
            &&& (Registers { f: c.regs.f, ..f }) == c.regs
        }),
        forall|j: int|
            0 <= j < 8 ==> #[trigger] byte_bit(put_bit(v, bit), j) == (byte_bit(v, j) || j == bit)
                && byte_bit(clear_bit(v, bit), j) == (byte_bit(v, j) && j != bit),
{
    let x = super::helpers::reg8(c.regs, r);
    lemma_single_bit_masks(x, x, bit, bit);
    lemma_byte_bit(x, bit as int);
    super::helpers::lemma_inc_dec_flag_bits(c.regs.f, !bit_set(x, bit), true, false, false);
    assert forall|j: int| 0 <= j < 8 implies #[trigger] byte_bit(put_bit(v, bit), j) == (byte_bit(v, j)
        || j == bit) && byte_bit(clear_bit(v, bit), j) == (byte_bit(v, j) && j != bit) by {
        lemma_single_bit_masks(v, v, bit, j as u8);
        lemma_byte_bit(v, j);
        lemma_byte_bit(put_bit(v, bit), j);
        lemma_byte_bit(clear_bit(v, bit), j);
    }
}

} // verus!
