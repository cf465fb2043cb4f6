//! DIV/TIMA/TMA/TAC timer.

use vstd::prelude::*;

use crate::bits::{lemma_u16_fields, lemma_u8_fields};
use crate::interrupts;

verus! {

/// Divider and programmable timer. DIV is the high byte of a 16-bit counter that advances
/// every T-cycle; when enabled, TIMA counts falling edges of the counter bit TAC selects,
/// reloads from TMA on overflow and requests the timer interrupt.
#[derive(Debug, Clone, Copy)]
pub struct Timer {
    pub counter: u16,
    pub tima: u8,
    pub tma: u8,
    pub tac: u8,
}

/// Counter bit whose falling edge clocks TIMA for TAC clock select `tac & 3`.
pub open spec fn tac_bit(tac: u8) -> u16 {
    if tac % 4 == 0 {
        0x200
    } else if tac % 4 == 1 {
        0x08
    } else if tac % 4 == 2 {
        0x20
    } else {
        0x80
    }
}

impl Default for Timer {
    fn default() -> (r: Self)
        ensures
            r == (Timer { counter: 0, tima: 0, tma: 0, tac: 0 }),
    {
        Timer { counter: 0, tima: 0, tma: 0, tac: 0 }
    }
}

impl Timer {
    pub fn read_div(&self) -> (r: u8)
        ensures
            r == self.counter / 256,
    {
        let c = self.counter;
        assert(c >> 8u16 == c / 256) by { lemma_u16_fields(); }
        (c >> 8) as u8
    }

    /// Any write to DIV resets the whole counter.
    pub fn write_div(&mut self)
        ensures
            *final(self) == (Timer { counter: 0, ..*old(self) }),
    {
        self.counter = 0;
    }

    pub fn read_tima(&self) -> (r: u8)
        ensures
            r == self.tima,
    {
        self.tima
    }

    pub fn write_tima(&mut self, v: u8)
        ensures
            *final(self) == (Timer { tima: v, ..*old(self) }),
    {
        self.tima = v;
    }

    pub fn read_tma(&self) -> (r: u8)
        ensures
            r == self.tma,
    {
        self.tma
    }

    pub fn write_tma(&mut self, v: u8)
        ensures
            *final(self) == (Timer { tma: v, ..*old(self) }),
    {
        self.tma = v;
    }

    /// TAC reads back with the unused upper bits set.
    pub fn read_tac(&self) -> (r: u8)
        ensures
            r == self.tac | 0xF8,
    {
        self.tac | 0xF8
    }

    pub fn write_tac(&mut self, v: u8)
        ensures
            *final(self) == (Timer { tac: v % 8, ..*old(self) }),
    {
        assert(v & 7u8 == v % 8) by { lemma_u8_fields(); }
        self.tac = v & 7;
    }

    /// One T-cycle; returns the new timer and IF.
    pub open spec fn spec_tick(self, if_: u8) -> (Timer, u8) {
        let c = ((self.counter + 1) % 65536) as u16;
        let bit = tac_bit(self.tac);
        if self.tac & 4 != 0 && self.counter & bit != 0 && c & bit == 0 {
            if self.tima == 255 {
                (Timer { counter: c, tima: self.tma, ..self }, if_ | interrupts::TIMER)
            } else {
                (Timer { counter: c, tima: (self.tima + 1) as u8, ..self }, if_)
            }
        } else {
            (Timer { counter: c, ..self }, if_)
        }
    }

    pub open spec fn spec_run(self, t: u32, if_: u8) -> (Timer, u8)
        decreases t,
    {
        if t == 0 {
            (self, if_)
        } else {
            let (n, i) = self.spec_tick(if_);
            n.spec_run((t - 1) as u32, i)
        }
    }

    fn tick(&mut self, if_: &mut u8)
        ensures
            (*final(self), *final(if_)) == old(self).spec_tick(*old(if_)),
    {
        let old_counter = self.counter;
        self.counter = self.counter.wrapping_add(1);
        let bit: u16 = match self.tac & 3 {
            0 => 0x200,
            1 => 0x08,
            2 => 0x20,
            _ => 0x80,
        };
        let tac = self.tac;
        assert(tac & 3u8 == tac % 4) by { lemma_u8_fields(); }
        if (self.tac & 4) != 0 && (old_counter & bit) != 0 && (self.counter & bit) == 0 {
            if self.tima == 255 {
                self.tima = self.tma;
                *if_ = *if_ | interrupts::TIMER;
            } else {
                self.tima = self.tima + 1;
            }
        }
    }

    /// Advances the timer by `t_cycles` T-states, requesting the timer interrupt in `if_`.
    pub fn step(&mut self, t_cycles: u32, if_: &mut u8)
        ensures
            (*final(self), *final(if_)) == old(self).spec_run(t_cycles, *old(if_)),
    {
        let mut left = t_cycles;
        while left > 0
            invariant
                self.spec_run(left, *if_) == old(self).spec_run(t_cycles, *old(if_)),
            decreases left,
        {
            self.tick(if_);
            left = left - 1;
        }
    }
}

} // verus!
