//! Decoding of the unprefixed opcodes. With `x = op >> 6`, `y = (op >> 3) & 7`,
//! `z = op & 7`, `p = y >> 1` and `q = y & 1`, the table is the usual SM83 layout:
//! `x = 1` is `LD r[y],r[z]` (but `HALT` at `0x76`), `x = 2` the accumulator operations,
//! and `x = 0` and `x = 3` the rest, column by column.

use vstd::prelude::*;

use crate::bits::lemma_u8_fields;
use super::helpers::{
    add_hl, daa, hl_addr, op_add_hl_rr, op_add_sp_r8, op_add_sp_r8_spec, op_alu_a_d8, op_alu_a_d8_spec, op_alu_a_r, op_alu_a_r_spec, op_call_cc_nn, op_call_cc_nn_spec, op_call_nn, op_call_nn_spec, op_ccf, op_cpl, op_daa, op_dec_r, op_dec_r_spec, op_dec_rr, op_di, op_ei, op_halt, op_illegal, op_inc_r, op_inc_r_spec, op_inc_rr, op_jp_cc_nn, op_jp_cc_nn_spec, op_jp_hl, op_jp_nn, op_jp_nn_spec, op_jr_cc_r8, op_jr_cc_r8_spec, op_jr_r8, op_jr_r8_spec, op_ld_a_c, op_ld_a_c_spec, op_ld_a_hl_step_spec, op_ld_a_hlm, op_ld_a_hlp, op_ld_a_memrr, op_ld_a_memrr_spec, op_ld_a_nn, op_ld_a_nn_spec, op_ld_c_a, op_ld_c_a_spec, op_ld_hl_a_step_spec, op_ld_hl_sp_r8, op_ld_hl_sp_r8_spec, op_ld_hlm_a, op_ld_hlp_a, op_ld_memrr_a, op_ld_memrr_a_spec, op_ld_nn_a, op_ld_nn_a_spec, op_ld_nn_sp, op_ld_nn_sp_spec, op_ld_r_d8, op_ld_r_d8_spec, op_ld_rr, op_ld_rr_d16, op_ld_rr_d16_spec, op_ld_rr_spec, op_ld_sp_hl, op_ldh_a_n, op_ldh_a_n_spec, op_ldh_n_a, op_ldh_n_a_spec, op_nop, op_pop_rr, op_pop_rr_spec, op_push_rr, op_push_rr_spec, op_ret, op_ret_cc, op_ret_cc_spec, op_ret_spec, op_reti, op_reti_spec, op_rla, op_rlca, op_rra, op_rrca, op_rst, op_rst_spec, op_scf, op_stop, op_stop_spec, pair16, rl8, rlc8, rotate_a, rr8, rrc8, set_pc, set_sp, with_pair16, with_regs,
};
use super::registers::with_bits;
use super::{Cpu, Registers};
use crate::bus::{wrap16, Bus, BusState};

verus! {

broadcast use crate::cartridge::lemma_reads_ok;

/// Column `z = 0` of block `x = 0`.
pub open spec fn x0_z0_spec(c: Cpu, b: BusState, y: u8, t: u64) -> (Cpu, BusState, u8) {
    if y == 0 {
        (c, b, 0)
    } else if y == 1 {
        op_ld_nn_sp_spec(c, b, t)
    } else if y == 2 {
        op_stop_spec(c, b, t)
    } else if y == 3 {
        op_jr_r8_spec(c, b, t)
    } else {
        op_jr_cc_r8_spec(c, b, (y - 4) as u8, t)
    }
}

/// Column `z = 2` of block `x = 0`: loads between A and (BC), (DE), (HL+), (HL-).
pub open spec fn x0_z2_spec(c: Cpu, b: BusState, p: u8, q: u8, t: u64) -> (Cpu, BusState, u8) {
    if q == 0 {
        if p < 2 {
            op_ld_memrr_a_spec(c, b, p, t)
        } else if p == 2 {
            op_ld_hl_a_step_spec(c, b, 1, t)
        } else {
            op_ld_hl_a_step_spec(c, b, -1, t)
        }
    } else {
        if p < 2 {
            op_ld_a_memrr_spec(c, b, p, t)
        } else if p == 2 {
            op_ld_a_hl_step_spec(c, b, 1, t)
        } else {
            op_ld_a_hl_step_spec(c, b, -1, t)
        }
    }
}

/// Column `z = 7` of block `x = 0`: the accumulator rotates and flag operations.
pub open spec fn x0_z7_regs(r: Registers, y: u8) -> Registers {
    if y == 0 {
        rotate_a(r, rlc8(r.a), r.a >= 128)
    } else if y == 1 {
        rotate_a(r, rrc8(r.a), r.a % 2 == 1)
    } else if y == 2 {
        rotate_a(r, rl8(r.a, r.cy()), r.a >= 128)
    } else if y == 3 {
        rotate_a(r, rr8(r.a, r.cy()), r.a % 2 == 1)
    } else if y == 4 {
        daa(r)
    } else if y == 5 {
        Registers {
            a: (255 - r.a) as u8,
            f: with_bits(with_bits(r.f, super::registers::FLAG_N, true), super::registers::FLAG_H, true),
            ..r
        }
    } else if y == 6 {
        Registers {
            f: with_bits(
                with_bits(with_bits(r.f, super::registers::FLAG_N, false), super::registers::FLAG_H, false),
                super::registers::FLAG_C,
                true,
            ),
            ..r
        }
    } else {
        Registers {
            f: with_bits(
                with_bits(with_bits(r.f, super::registers::FLAG_N, false), super::registers::FLAG_H, false),
                super::registers::FLAG_C,
                !r.cy(),
            ),
            ..r
        }
    }
}

/// Block `x = 0`.
pub open spec fn x0_spec(c: Cpu, b: BusState, y: u8, z: u8, t: u64) -> (Cpu, BusState, u8) {
    let p = y / 2;
    let q = y % 2;
    if z == 0 {
        x0_z0_spec(c, b, y, t)
    } else if z == 1 {
        if q == 0 {
            op_ld_rr_d16_spec(c, b, p, t)
        } else {
            (with_regs(c, add_hl(c.regs, pair16(c.regs, p))), b, 1)
        }
    } else if z == 2 {
        x0_z2_spec(c, b, p, q, t)
    } else if z == 3 {
        let v = pair16(c.regs, p);
        let n = if q == 0 {
            wrap16(v, 1)
        } else {
            wrap16(v, -1)
        };
        (with_regs(c, with_pair16(c.regs, p, n)), b, 1)
    } else if z == 4 {
        op_inc_r_spec(c, b, y, t)
    } else if z == 5 {
        op_dec_r_spec(c, b, y, t)
    } else if z == 6 {
        op_ld_r_d8_spec(c, b, y, t)
    } else {
        (with_regs(c, x0_z7_regs(c.regs, y)), b, 0)
    }
}

/// Column `z = 0` of block `x = 3`.
pub open spec fn x3_z0_spec(c: Cpu, b: BusState, y: u8, t: u64) -> (Cpu, BusState, u8) {
    if y < 4 {
        op_ret_cc_spec(c, b, y, t)
    } else if y == 4 {
        op_ldh_n_a_spec(c, b, t)
    } else if y == 5 {
        op_add_sp_r8_spec(c, b, t)
    } else if y == 6 {
        op_ldh_a_n_spec(c, b, t)
    } else {
        op_ld_hl_sp_r8_spec(c, b, t)
    }
}

/// Column `z = 1` of block `x = 3`.
pub open spec fn x3_z1_spec(c: Cpu, b: BusState, p: u8, q: u8, t: u64) -> (Cpu, BusState, u8) {
    if q == 0 {
        op_pop_rr_spec(c, b, p, t)
    } else if p == 0 {
        op_ret_spec(c, b, t)
    } else if p == 1 {
        op_reti_spec(c, b, t)
    } else if p == 2 {
        (set_pc(c, hl_addr(c)), b, 0)
    } else {
        (set_sp(c, hl_addr(c)), b, 1)
    }
}

/// Column `z = 2` of block `x = 3`.
pub open spec fn x3_z2_spec(c: Cpu, b: BusState, y: u8, t: u64) -> (Cpu, BusState, u8) {
    if y < 4 {
        op_jp_cc_nn_spec(c, b, y, t)
    } else if y == 4 {
        op_ld_c_a_spec(c, b, t)
    } else if y == 5 {
        op_ld_nn_a_spec(c, b, t)
    } else if y == 6 {
        op_ld_a_c_spec(c, b, t)
    } else {
        op_ld_a_nn_spec(c, b, t)
    }
}

/// Block `x = 3`. The holes (`D3 DB DD E3 E4 EB EC ED F4 FC FD`, and `CB`, which the
/// caller decodes) do nothing.
pub open spec fn x3_spec(c: Cpu, b: BusState, y: u8, z: u8, t: u64) -> (Cpu, BusState, u8) {
    let p = y / 2;
    let q = y % 2;
    if z == 0 {
        x3_z0_spec(c, b, y, t)
    } else if z == 1 {
        x3_z1_spec(c, b, p, q, t)
    } else if z == 2 {
        x3_z2_spec(c, b, y, t)
    } else if z == 3 {
        if y == 0 {
            op_jp_nn_spec(c, b, t)
        } else if y == 6 {
            (Cpu { ime: false, ei_latch: false, ..c }, b, 0)
        } else {
            (c, b, 0)
        }
    } else if z == 4 {
        if y < 4 {
            op_call_cc_nn_spec(c, b, y, t)
        } else {
            (c, b, 0)
        }
    } else if z == 5 {
        if q == 0 {
            op_push_rr_spec(c, b, p, t)
        } else if p == 0 {
            op_call_nn_spec(c, b, t)
        } else {
            (c, b, 0)
        }
    } else if z == 6 {
        op_alu_a_d8_spec(c, b, y, t)
    } else {
        op_rst_spec(c, b, (y * 8) as u8, t)
    }
}

/// Behaviour of the unprefixed opcode `op` after its fetch: the CPU, the bus and the
/// M-cycles it adds.
pub open spec fn execute_spec(c: Cpu, b: BusState, op: u8, t: u64) -> (Cpu, BusState, u8) {
    let x = op / 64;
    let y = (op / 8) % 8;
    let z = op % 8;
    if x == 0 {
        x0_spec(c, b, y, z, t)
    } else if x == 1 {
        if op == 0x76 {
            (Cpu { halted: true, ..c }, b, 0)
        } else {
            op_ld_rr_spec(c, b, y, z, t)
        }
    } else if x == 2 {
        op_alu_a_r_spec(c, b, y, z, t)
    } else {
        x3_spec(c, b, y, z, t)
    }
}

fn x0_z0(cpu: &mut Cpu, bus: &mut Bus, y: u8, now: u64) -> (m: u8)
    requires
        old(bus)@.wf(),
        y < 8,
    ensures
        (*final(cpu), final(bus)@, m) == x0_z0_spec(*old(cpu), old(bus)@, y, now),
        final(bus)@.wf(),
        m <= 5,
{
    if y == 0 {
        op_nop()
    } else if y == 1 {
        op_ld_nn_sp(cpu, bus, now)
    } else if y == 2 {
        op_stop(cpu, bus, now)
    } else if y == 3 {
        op_jr_r8(cpu, bus, now)
    } else {
        op_jr_cc_r8(cpu, bus, y - 4, now)
    }
}

fn x0_z2(cpu: &mut Cpu, bus: &mut Bus, p: u8, q: u8, now: u64) -> (m: u8)
    requires
        old(bus)@.wf(),
    ensures
        (*final(cpu), final(bus)@, m) == x0_z2_spec(*old(cpu), old(bus)@, p, q, now),
        final(bus)@.wf(),
        m <= 5,
{
    if q == 0 {
        if p < 2 {
            op_ld_memrr_a(cpu, bus, p, now)
        } else if p == 2 {
            op_ld_hlp_a(cpu, bus, now)
        } else {
            op_ld_hlm_a(cpu, bus, now)
        }
    } else {
        if p < 2 {
            op_ld_a_memrr(cpu, bus, p, now)
        } else if p == 2 {
            op_ld_a_hlp(cpu, bus, now)
        } else {
            op_ld_a_hlm(cpu, bus, now)
        }
    }
}

fn x0_z7(cpu: &mut Cpu, y: u8) -> (m: u8)
    ensures
        *final(cpu) == with_regs(*old(cpu), x0_z7_regs(old(cpu).regs, y)),
        m == 0,
{
    if y == 0 {
        op_rlca(cpu)
    } else if y == 1 {
        op_rrca(cpu)
    } else if y == 2 {
        op_rla(cpu)
    } else if y == 3 {
        op_rra(cpu)
    } else if y == 4 {
        op_daa(cpu)
    } else if y == 5 {
        op_cpl(cpu)
    } else if y == 6 {
        op_scf(cpu)
    } else {
        op_ccf(cpu)
    }
}

fn x0(cpu: &mut Cpu, bus: &mut Bus, y: u8, z: u8, now: u64) -> (m: u8)
    requires
        old(bus)@.wf(),
        y < 8,
    ensures
        (*final(cpu), final(bus)@, m) == x0_spec(*old(cpu), old(bus)@, y, z, now),
        final(bus)@.wf(),
        m <= 5,
{
    let p = y / 2;
    let q = y % 2;
    if z == 0 {
        x0_z0(cpu, bus, y, now)
    } else if z == 1 {
        if q == 0 {
            op_ld_rr_d16(cpu, bus, p, now)
        } else {
            op_add_hl_rr(cpu, p)
        }
    } else if z == 2 {
        x0_z2(cpu, bus, p, q, now)
    } else if z == 3 {
        if q == 0 {
            op_inc_rr(cpu, p)
        } else {
            op_dec_rr(cpu, p)
        }
    } else if z == 4 {
        op_inc_r(cpu, bus, y, now)
    } else if z == 5 {
        op_dec_r(cpu, bus, y, now)
    } else if z == 6 {
        op_ld_r_d8(cpu, bus, y, now)
    } else {
        x0_z7(cpu, y)
    }
}

fn x3_z0(cpu: &mut Cpu, bus: &mut Bus, y: u8, now: u64) -> (m: u8)
    requires
        old(bus)@.wf(),
    ensures
        (*final(cpu), final(bus)@, m) == x3_z0_spec(*old(cpu), old(bus)@, y, now),
        final(bus)@.wf(),
        m <= 5,
{
    if y < 4 {
        op_ret_cc(cpu, bus, y, now)
    } else if y == 4 {
        op_ldh_n_a(cpu, bus, now)
    } else if y == 5 {
        op_add_sp_r8(cpu, bus, now)
    } else if y == 6 {
        op_ldh_a_n(cpu, bus, now)
    } else {
        op_ld_hl_sp_r8(cpu, bus, now)
    }
}

fn x3_z1(cpu: &mut Cpu, bus: &mut Bus, p: u8, q: u8, now: u64) -> (m: u8)
    requires
        old(bus)@.wf(),
    ensures
        (*final(cpu), final(bus)@, m) == x3_z1_spec(*old(cpu), old(bus)@, p, q, now),
        final(bus)@.wf(),
        m <= 5,
{
    if q == 0 {
        op_pop_rr(cpu, bus, p, now)
    } else if p == 0 {
        op_ret(cpu, bus, now)
    } else if p == 1 {
        op_reti(cpu, bus, now)
    } else if p == 2 {
        op_jp_hl(cpu)
    } else {
        op_ld_sp_hl(cpu)
    }
}

fn x3_z2(cpu: &mut Cpu, bus: &mut Bus, y: u8, now: u64) -> (m: u8)
    requires
        old(bus)@.wf(),
    ensures
        (*final(cpu), final(bus)@, m) == x3_z2_spec(*old(cpu), old(bus)@, y, now),
        final(bus)@.wf(),
        m <= 5,
{
    if y < 4 {
        op_jp_cc_nn(cpu, bus, y, now)
    } else if y == 4 {
        op_ld_c_a(cpu, bus, now)
    } else if y == 5 {
        op_ld_nn_a(cpu, bus, now)
    } else if y == 6 {
        op_ld_a_c(cpu, bus, now)
    } else {
        op_ld_a_nn(cpu, bus, now)
    }
}

fn x3(cpu: &mut Cpu, bus: &mut Bus, op: u8, y: u8, z: u8, now: u64) -> (m: u8)
    requires
        old(bus)@.wf(),
        y < 8,
    ensures
        (*final(cpu), final(bus)@, m) == x3_spec(*old(cpu), old(bus)@, y, z, now),
        final(bus)@.wf(),
        m <= 5,
{
    let p = y / 2;
    let q = y % 2;
    if z == 0 {
        x3_z0(cpu, bus, y, now)
    } else if z == 1 {
        x3_z1(cpu, bus, p, q, now)
    } else if z == 2 {
        x3_z2(cpu, bus, y, now)
    } else if z == 3 {
        if y == 0 {
            op_jp_nn(cpu, bus, now)
        } else if y == 6 {
            op_di(cpu)
        } else if y == 7 {
            op_ei(cpu)
        } else {
            op_illegal(cpu, bus, op)
        }
    } else if z == 4 {
        if y < 4 {
            op_call_cc_nn(cpu, bus, y, now)
        } else {
            op_illegal(cpu, bus, op)
        }
    } else if z == 5 {
        if q == 0 {
            op_push_rr(cpu, bus, p, now)
        } else if p == 0 {
            op_call_nn(cpu, bus, now)
        } else {
            op_illegal(cpu, bus, op)
        }
    } else if z == 6 {
        op_alu_a_d8(cpu, bus, y, now)
    } else {
        op_rst(cpu, bus, y * 8, now)
    }
}

/// Executes the unprefixed opcode `op` (already fetched); returns the extra M-cycles.
pub fn execute(cpu: &mut Cpu, bus: &mut Bus, op: u8, now: u64) -> (m: u8)
    requires
        old(bus)@.wf(),
    ensures
        (*final(cpu), final(bus)@, m) == execute_spec(*old(cpu), old(bus)@, op, now),
        final(bus)@.wf(),
        m <= 5,
{
    assert(op >> 6u8 == op / 64 && (op >> 3u8) & 7u8 == (op / 8) % 8 && op & 7u8 == op % 8) by {
        lemma_u8_fields();
    }
    let x = op >> 6;
    let y = (op >> 3) & 7;
    let z = op & 7;
    if x == 0 {
        x0(cpu, bus, y, z, now)
    } else if x == 1 {
        if op == 0x76 {
            op_halt(cpu, bus)
        } else {
            op_ld_rr(cpu, bus, y, z, now)
        }
    } else if x == 2 {
        op_alu_a_r(cpu, bus, y, z, now)
    } else {
        x3(cpu, bus, op, y, z, now)
    }
}

/// Every unprefixed instruction but DI and RETI leaves IME and the EI latch alone.
#[verifier::rlimit(100)]
pub proof fn lemma_execute_keeps_ime(c: Cpu, b: BusState, op: u8, t: u64)
    requires
        op != 0xF3,
        op != 0xD9,
    ensures
        execute_spec(c, b, op, t).0.ime == c.ime,
        execute_spec(c, b, op, t).0.ei_latch == c.ei_latch,
{
    let x = op / 64;
    let y = (op / 8) % 8;
    let z = op % 8;
    if x == 0 {
        if z == 0 {
            assert(x0_z0_spec(c, b, y, t).0.ime == c.ime && x0_z0_spec(c, b, y, t).0.ei_latch == c.ei_latch);
        } else if z == 2 {
            assert(x0_z2_spec(c, b, y / 2, y % 2, t).0.ime == c.ime);
        }
    } else if x == 3 {
        if z == 0 {
            assert(x3_z0_spec(c, b, y, t).0.ime == c.ime && x3_z0_spec(c, b, y, t).0.ei_latch == c.ei_latch);
        } else if z == 1 {
            assert(x3_z1_spec(c, b, y / 2, y % 2, t).0.ime == c.ime);
        } else if z == 2 {
            assert(x3_z2_spec(c, b, y, t).0.ime == c.ime);
        }
    }
}

} // verus!
