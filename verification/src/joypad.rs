//! Joypad register P1/JOYP.

use vstd::prelude::*;

use crate::interrupts;

verus! {

#[derive(Debug, Clone, Copy)]
pub struct Joypad {
    /// P1/JOYP — bits 4-5 select button/direction rows.
    pub p1: u8,
    /// Low active: bit set = not pressed.
    pub buttons: u8,
    pub directions: u8,
}

pub const BTN_A: u8 = 1;
pub const BTN_B: u8 = 2;
pub const BTN_SELECT: u8 = 4;
pub const BTN_START: u8 = 8;

pub const DIR_RIGHT: u8 = 1;
pub const DIR_LEFT: u8 = 2;
pub const DIR_UP: u8 = 4;
pub const DIR_DOWN: u8 = 8;

impl Default for Joypad {
    /// Selection lines idle, every button and direction released.
    fn default() -> (r: Self)
        ensures
            r == (Joypad { p1: 0xCF, buttons: 0x0F, directions: 0x0F }),
    {
        Joypad { p1: 0xCF, buttons: 0x0F, directions: 0x0F }
    }
}

impl Joypad {
    /// Value of JOYP: bits 6-7 read as 1, bits 4-5 are the selection lines, and bits 0-3 are
    /// the low-active inputs of every selected row ANDed together (1 when no row is selected).
    pub open spec fn spec_read(self) -> u8 {
        let v = 0xCFu8 | (self.p1 & 0x30);
        let v = if self.p1 & 0x10 == 0 {
            v & (0xF0u8 | (self.directions & 0x0F))
        } else {
            v
        };
        if self.p1 & 0x20 == 0 {
            v & (0xF0u8 | (self.buttons & 0x0F))
        } else {
            v
        }
    }

    pub fn read(&self) -> (r: u8)
        ensures
            r == self.spec_read(),
    {
        let mut v = 0xCFu8 | (self.p1 & 0x30);
        if (self.p1 & 0x10) == 0 {
            v = v & (0xF0 | (self.directions & 0x0F));
        }
        if (self.p1 & 0x20) == 0 {
            v = v & (0xF0 | (self.buttons & 0x0F));
        }
        v
    }

    /// Only bits 4-5 of JOYP are writable.
    pub fn write(&mut self, v: u8)
        ensures
            *final(self) == (Joypad { p1: v & 0x30, ..*old(self) }),
    {
        self.p1 = v & 0x30;
    }

    /// Presses the buttons in `mask`; requests the joypad interrupt when any was released.
    pub fn set_button_down(&mut self, mask: u8, if_: &mut u8)
        ensures
            *final(self) == (Joypad { buttons: old(self).buttons & !mask, ..*old(self) }),
            *final(if_) == if old(self).buttons & !mask != old(self).buttons {
                *old(if_) | interrupts::JOYPAD
            } else {
                *old(if_)
            },
    {
        let old_buttons = self.buttons;
        self.buttons = self.buttons & !mask;
        if old_buttons != self.buttons {
            *if_ = *if_ | interrupts::JOYPAD;
        }
    }

    /// Releases the buttons in `mask`.
    pub fn set_button_up(&mut self, mask: u8)
        ensures
            *final(self) == (Joypad { buttons: old(self).buttons | mask, ..*old(self) }),
    {
        self.buttons = self.buttons | mask;
    }

    /// Presses the directions in `mask`; requests the joypad interrupt when any was released.
    pub fn set_direction_down(&mut self, mask: u8, if_: &mut u8)
        ensures
            *final(self) == (Joypad { directions: old(self).directions & !mask, ..*old(self) }),
            *final(if_) == if old(self).directions & !mask != old(self).directions {
                *old(if_) | interrupts::JOYPAD
            } else {
                *old(if_)
            },
    {
        let old_dirs = self.directions;
        self.directions = self.directions & !mask;
        if old_dirs != self.directions {
            *if_ = *if_ | interrupts::JOYPAD;
        }
    }

    /// Releases the directions in `mask`.
    pub fn set_direction_up(&mut self, mask: u8)
        ensures
            *final(self) == (Joypad { directions: old(self).directions | mask, ..*old(self) }),
    {
        self.directions = self.directions | mask;
    }
}

/// Releasing a mask after pressing it leaves its lines released; if they were released
/// before the press, the input lines are as before.
pub proof fn lemma_press_release(lines: u8, mask: u8)
    ensures
        ((lines & !mask) | mask) == lines | mask,
        lines & mask == mask ==> ((lines & !mask) | mask) == lines,
        (lines & !mask) & mask == 0,
{
    assert(((lines & !mask) | mask) == lines | mask && (lines & mask == mask ==> ((lines & !mask)
        | mask) == lines) && (lines & !mask) & mask == 0) by (bit_vector);
}

} // verus!
