//! Interrupt enable (IE) and request (IF) registers.

use vstd::prelude::*;

verus! {

#[derive(Debug, Clone, Copy)]
pub struct Interrupts {
    pub ie: u8,
    pub if_: u8,
}

pub const VBLANK: u8 = 1;
pub const LCD_STAT: u8 = 2;
pub const TIMER: u8 = 4;
pub const SERIAL: u8 = 8;
pub const JOYPAD: u8 = 16;

impl Default for Interrupts {
    /// Nothing enabled, nothing requested.
    fn default() -> (r: Self)
        ensures
            r == (Interrupts { ie: 0, if_: 0 }),
    {
        Interrupts { ie: 0, if_: 0 }
    }
}

impl Interrupts {
    /// Raises the request bits of `bit`.
    pub fn request(&mut self, bit: u8)
        ensures
            *final(self) == (Interrupts { if_: old(self).if_ | bit, ..*old(self) }),
    {
        self.if_ = self.if_ | bit;
    }

    /// Acknowledges (clears) the request bits of `bit`.
    pub fn clear(&mut self, bit: u8)
        ensures
            *final(self) == (Interrupts { if_: old(self).if_ & !bit, ..*old(self) }),
    {
        self.if_ = self.if_ & !bit;
    }
}

/// A request raises its bits; clearing them afterwards leaves them clear and the other
/// requests as they were before the request.
pub proof fn lemma_request_then_clear(if_: u8, bit: u8)
    ensures
        (if_ | bit) & bit == bit,
        ((if_ | bit) & !bit) & bit == 0,
        ((if_ | bit) & !bit) == if_ & !bit,
{
    assert((if_ | bit) & bit == bit && ((if_ | bit) & !bit) & bit == 0 && ((if_ | bit) & !bit)
        == if_ & !bit) by (bit_vector);
}

} // verus!
