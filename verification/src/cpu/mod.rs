//! SM83 CPU core: interrupt dispatch, HALT, the EI delay and instruction execution.

pub mod cb_impl;
pub mod helpers;
pub mod opcodes;
pub mod registers;

pub use cb_impl::execute_cb;
pub use registers::Registers;

use vstd::prelude::*;

use crate::bits::{byte_bit, lemma_byte_bit, lemma_single_bit_masks, lemma_u8_fields};
use crate::bus::{lemma_write_keeps_interrupts, wrap16, Bus, BusState};
use crate::clock::unix_time_secs;
use crate::interrupts::Interrupts;
use cb_impl::{execute_cb_spec, lemma_execute_cb_keeps_ime};
use helpers::{fetch8, fetch_u8, push16, push_u16, set_pc};
use opcodes::{execute, execute_spec, lemma_execute_keeps_ime};

verus! {

broadcast use crate::cartridge::lemma_reads_ok;

#[derive(Debug, Clone, Copy)]
pub struct Cpu {
    pub regs: Registers,
    pub ime: bool,
    /// `EI` arms IME to turn on after the next full instruction completes.
    pub ei_latch: bool,
    pub halted: bool,
}

/// Interrupts both enabled and requested.
pub open spec fn pending_interrupts(b: BusState) -> u8 {
    b.interrupts.ie & b.interrupts.if_ & 0x1F
}

/// Handler address and request bit of the highest-priority pending interrupt (VBlank,
/// STAT, timer, serial, joypad, in that order); `pending` is non-zero.
pub open spec fn interrupt_vector(pending: u8) -> (u16, u8) {
    if pending & 0x01 != 0 {
        (0x40, 0x01)
    } else if pending & 0x02 != 0 {
        (0x48, 0x02)
    } else if pending & 0x04 != 0 {
        (0x50, 0x04)
    } else if pending & 0x08 != 0 {
        (0x58, 0x08)
    } else {
        (0x60, 0x10)
    }
}

/// Interrupt dispatch: with IME set and an interrupt pending, IME, HALT and the EI latch
/// clear, the request bit is acknowledged, PC is pushed and the handler entered (5
/// M-cycles). `None` when nothing is dispatched.
pub closed spec fn interrupt_spec(c: Cpu, b: BusState, t: u64) -> Option<(Cpu, BusState, u8)> {
    let pending = pending_interrupts(b);
    if !c.ime || pending == 0 {
        None
    } else {
        let (vec, bit) = interrupt_vector(pending);
        let c1 = Cpu { ime: false, halted: false, ei_latch: false, ..c };
        let b1 = BusState { interrupts: Interrupts { if_: b.interrupts.if_ & !bit, ..b.interrupts }, ..b };
        let (c2, b2) = push16(c1, b1, c.regs.pc, t);
        Some((set_pc(c2, vec), b2, 5))
    }
}

/// One step when no interrupt is dispatched: one M-cycle of HALT, or one instruction fetched
/// at PC (a CB prefix fetches a second byte). After any complete instruction an armed EI
/// latch turns IME on, and `EI` itself arms the latch. The result carries the M-cycles
/// taken.
pub open spec fn step_without_dispatch(c: Cpu, b: BusState, t: u64) -> (Cpu, BusState, u8) {
    if c.halted && pending_interrupts(b) == 0 {
        (c, b, 1)
    } else {
        let c0 = Cpu { halted: false, ..c };
        let (op, c1, b1) = fetch8(c0, b, t);
        if op == 0xCB {
            let (cb, c2, b2) = fetch8(c1, b1, t);
            let (c3, b3, extra) = execute_cb_spec(c2, b2, cb, t);
            let c4 = if c3.ei_latch {
                Cpu { ime: true, ei_latch: false, ..c3 }
            } else {
                c3
            };
            (c4, b3, (2 + extra) as u8)
        } else {
            let (c2, b2, extra) = execute_spec(c1, b1, op, t);
            let c3 = if c2.ei_latch {
                Cpu { ime: true, ei_latch: false, ..c2 }
            } else if op == 0xFB {
                Cpu { ei_latch: true, ..c2 }
            } else {
                c2
            };
            (c3, b2, (1 + extra) as u8)
        }
    }
}

/// One step: an interrupt dispatch, or else `step_without_dispatch`.
pub closed spec fn step_spec(c: Cpu, b: BusState, t: u64) -> (Cpu, BusState, u8) {
    match interrupt_spec(c, b, t) {
        Some(r) => r,
        None => step_without_dispatch(c, b, t),
    }
}

/// An interrupt is dispatched exactly when IME is on and an enabled interrupt is requested;
/// otherwise a step is `step_without_dispatch`: the opcode at PC is fetched, PC moves past
/// it, and the instruction runs.
pub proof fn lemma_step_without_dispatch(c: Cpu, b: BusState, t: u64)
    ensures
        (interrupt_spec(c, b, t) is None) == (!c.ime || pending_interrupts(b) == 0),
        !c.ime || pending_interrupts(b) == 0 ==> step_spec(c, b, t) == step_without_dispatch(
            c,
            b,
            t,
        ),
{
}

impl Cpu {
    /// The registers the boot ROM leaves: A is 0x11 on CGB (which is how games detect
    /// Color hardware) and 0x01 on DMG.
    pub open spec fn post_boot_regs(cgb_mode: bool) -> Registers {
        Registers {
            a: if cgb_mode { 0x11 } else { 0x01 },
            f: 0xB0,
            b: 0x00,
            c: 0x13,
            d: 0x00,
            e: 0xD8,
            h: 0x01,
            l: 0x4D,
            sp: 0xFFFE,
            pc: 0x0100,
        }
    }

    pub open spec fn new_post_boot_spec(cgb_mode: bool) -> Cpu {
        Cpu { regs: Cpu::post_boot_regs(cgb_mode), ime: false, ei_latch: false, halted: false }
    }

    /// Registers after the boot ROM, interrupts disabled, not halted.
    pub fn new_post_boot(cgb_mode: bool) -> (r: Self)
        ensures
            r == Cpu::new_post_boot_spec(cgb_mode),
    {
        let mut regs = Registers::default();
        let af: u16 = if cgb_mode {
            0x11B0
        } else {
            0x01B0
        };
        regs.set_af(af);
        regs.set_bc(0x0013);
        regs.set_de(0x00D8);
        regs.set_hl(0x014D);
        regs.sp = 0xFFFE;
        regs.pc = 0x0100;
        assert(0xB0u8 & 0xF0u8 == 0xB0u8) by { lemma_u8_fields(); }
        Cpu { regs, ime: false, ei_latch: false, halted: false }
    }

    fn try_interrupt(&mut self, bus: &mut Bus, now: u64) -> (r: Option<u8>)
        requires
            old(bus)@.wf(),
        ensures
            final(bus)@.wf(),
            match interrupt_spec(*old(self), old(bus)@, now) {
                Some((c, b, m)) => r == Some(m) && *final(self) == c && final(bus)@ == b,
                None => r is None && *final(self) == *old(self) && final(bus)@ == old(bus)@,
            },
    {
        if !self.ime {
            return None;
        }
        let pending = bus.interrupts.ie & bus.interrupts.if_ & 0x1F;
        if pending == 0 {
            return None;
        }
        let pc = self.regs.pc;
        self.ime = false;
        self.halted = false;
        self.ei_latch = false;
        let (vec, bit): (u16, u8) = if pending & 0x01 != 0 {
            (0x40, 0x01)
        } else if pending & 0x02 != 0 {
            (0x48, 0x02)
        } else if pending & 0x04 != 0 {
            (0x50, 0x04)
        } else if pending & 0x08 != 0 {
            (0x58, 0x08)
        } else {
            (0x60, 0x10)
        };
        bus.interrupts.if_ = bus.interrupts.if_ & !bit;
        push_u16(self, bus, pc, now);
        self.regs.pc = vec;
        Some(5)
    }

    /// One instruction or interrupt dispatch, with the wall clock at `now` for every bus
    /// access it makes. Returns machine cycles.
    pub fn step_at(&mut self, bus: &mut Bus, now: u64) -> (m: u8)
        requires
            old(bus)@.wf(),
        ensures
            (*final(self), final(bus)@, m) == step_spec(*old(self), old(bus)@, now),
            final(bus)@.wf(),
            1 <= m <= 6,
    {
        if let Some(m) = self.try_interrupt(bus, now) {
            return m;
        }
        if self.halted {
            if bus.interrupts.ie & bus.interrupts.if_ & 0x1F != 0 {
                self.halted = false;
            } else {
                return 1;
            }
        }
        let op = fetch_u8(self, bus, now);
        if op == 0xCB {
            let cb = fetch_u8(self, bus, now);
            let extra = execute_cb(self, bus, cb, now);
            if self.ei_latch {
                self.ime = true;
                self.ei_latch = false;
            }
            2 + extra
        } else {
            let extra = execute(self, bus, op, now);
            if self.ei_latch {
                self.ime = true;
                self.ei_latch = false;
            } else if op == 0xFB {
                self.ei_latch = true;
            }
            1 + extra
        }
    }

    /// One instruction or interrupt dispatch. With an MBC3 cartridge the system clock is
    /// read once for the whole step. Returns machine cycles.
    pub fn step(&mut self, bus: &mut Bus) -> (m: u8)
        requires
            old(bus)@.wf(),
        ensures
            exists|t: u64| (*final(self), final(bus)@, m) == step_spec(*old(self), old(bus)@, t),
            final(bus)@.wf(),
            1 <= m <= 6,
    {
        let now = if bus.cartridge.has_clock() {
            unix_time_secs()
        } else {
            0
        };
        self.step_at(bus, now)
    }
}

/// EI takes effect one instruction late: a step that executes EI arms the latch and leaves
/// IME as it was; with the latch armed, the next complete instruction, CB-prefixed ones
/// included (unless it is DI or RETI, which set IME themselves), ends with IME on and the
/// latch disarmed.
pub proof fn lemma_ei_delay(c: Cpu, b: BusState, t: u64)
    requires
        !c.ime || pending_interrupts(b) == 0,
        !c.halted,
    ensures
        b.read_value(c.regs.pc, t) == 0xFB && !c.ei_latch ==> step_spec(c, b, t).0.ei_latch
            && step_spec(c, b, t).0.ime == c.ime,
        ({
            let op = b.read_value(c.regs.pc, t);
            c.ei_latch && op != 0xF3 && op != 0xD9 ==> step_spec(c, b, t).0.ime
                && !step_spec(c, b, t).0.ei_latch
        }),
{
    let c0 = Cpu { halted: false, ..c };
    let (op, c1, b1) = fetch8(c0, b, t);
    if op == 0xCB {
        let (cb, c2, b2) = fetch8(c1, b1, t);
        lemma_execute_cb_keeps_ime(c2, b2, cb, t);
    } else if op != 0xF3 && op != 0xD9 {
        lemma_execute_keeps_ime(c1, b1, op, t);
    }
}

/// Interrupt dispatch: with IME on and `k` the lowest set bit of `IE & IF & 0x1F`, a step
/// enters the handler at `0x40 + 8 * k` (VBlank 0x40, STAT 0x48, timer 0x50, serial 0x58,
/// joypad 0x60) in 5 M-cycles, with IME, HALT and the EI latch cleared and the return
/// address pushed (SP down by two). When the two pushed bytes land outside the I/O
/// registers, IF afterwards is IF before with bit `k` cleared.
#[verifier::spinoff_prover]
pub proof fn lemma_interrupt_dispatch(c: Cpu, b: BusState, t: u64, k: int)
    requires
        c.ime,
        0 <= k < 5,
        byte_bit(pending_interrupts(b), k),
        forall|j: int| 0 <= j < k ==> !#[trigger] byte_bit(pending_interrupts(b), j),
    ensures
        interrupt_spec(c, b, t) is Some,
        ({
            let (c2, b2, m) = interrupt_spec(c, b, t).unwrap();
            let sp1 = wrap16(c.regs.sp, -1);
            let sp2 = wrap16(sp1, -1);
            &&& c2.regs.pc == 0x40 + 8 * k
            &&& m == 5
            &&& !c2.ime && !c2.halted && !c2.ei_latch
            &&& c2.regs.sp == sp2
            &&& (sp1 < 0xFF00 || 0xFF80 <= sp1 <= 0xFFFE) && (sp2 < 0xFF00 || 0xFF80 <= sp2 <= 0xFFFE)
                ==> forall|j: int|
                0 <= j < 8 ==> #[trigger] byte_bit(b2.interrupts.if_, j) == (byte_bit(
                    b.interrupts.if_,
                    j,
                ) && j != k)
        }),
{
    let p = pending_interrupts(b);
    lemma_single_bit_masks(p, b.interrupts.if_, k as u8, 0);
    lemma_byte_bit(p, 0);
    lemma_byte_bit(p, 1);
    lemma_byte_bit(p, 2);
    lemma_byte_bit(p, 3);
    lemma_byte_bit(p, 4);
    assert(p != 0) by {
        lemma_byte_bit(p, k);
        let kk = k as u8;
        assert(p == 0 ==> (p >> kk) & 1u8 == 0u8) by (bit_vector);
    }
    let (vec, bit) = interrupt_vector(p);
    assert(vec == 0x40 + 8 * k && bit == (1u8 << (k as u8)));
    let c1 = Cpu { ime: false, halted: false, ei_latch: false, ..c };
    let f = b.interrupts.if_;
    let b1 = BusState { interrupts: Interrupts { if_: f & !bit, ..b.interrupts }, ..b };
    let sp1 = wrap16(c.regs.sp, -1);
    let sp2 = wrap16(sp1, -1);
    if (sp1 < 0xFF00 || 0xFF80 <= sp1 <= 0xFFFE) && (sp2 < 0xFF00 || 0xFF80 <= sp2 <= 0xFFFE) {
        let b2a = b1.write(sp1, (c.regs.pc / 256) as u8, t);
        lemma_write_keeps_interrupts(b1, sp1, (c.regs.pc / 256) as u8, t);
        lemma_write_keeps_interrupts(b2a, sp2, (c.regs.pc % 256) as u8, t);
        assert forall|j: int| 0 <= j < 8 implies #[trigger] byte_bit(f & !bit, j) == (byte_bit(f, j)
            && j != k) by {
            lemma_byte_bit(f & !bit, j);
            lemma_byte_bit(f, j);
            lemma_single_bit_masks(p, f, k as u8, j as u8);
        }
    }
}

/// HALT: with nothing requested that is also enabled, a halted CPU stays halted for one
/// M-cycle and nothing changes; once an enabled interrupt is requested it wakes, and
/// with IME off it resumes with the next instruction instead of entering a handler.
pub proof fn lemma_halt_wakes(c: Cpu, b: BusState, t: u64)
    requires
        c.halted,
    ensures
        pending_interrupts(b) == 0 ==> step_spec(c, b, t) == (c, b, 1u8),
        pending_interrupts(b) != 0 && !c.ime ==> step_spec(c, b, t) == step_without_dispatch(
            Cpu { halted: false, ..c },
            b,
            t,
        ),
        pending_interrupts(b) != 0 && c.ime ==> !step_spec(c, b, t).0.halted,
{
}

} // verus!
