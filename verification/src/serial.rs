//! Serial link port (SB/SC): transfers either print to a text buffer (what test ROMs use)
//! or, with a link attached, exchange a byte with a peer.
//!
//! The peer is reached by the host: it drains `link_outbox` and appends what the peer sent
//! to `link_inbox`. A transfer takes the oldest received byte, or `0xFF` when none arrived.

use vstd::prelude::*;

use crate::interrupts;
use crate::text::string_from_chars;

verus! {

#[derive(Debug, Clone)]
pub struct Serial {
    pub sb: u8,
    pub sc: u8,
    /// Bytes shifted out without a link, as characters.
    pub buffer: Vec<char>,
    /// A link peer is attached.
    pub link: bool,
    /// Bytes received from the peer, oldest first.
    pub link_inbox: Vec<u8>,
    /// Bytes to send to the peer, oldest first.
    pub link_outbox: Vec<u8>,
}

/// Whether a write of `v` to SC over the old value `old_sc` starts a transfer (rising bit 7).
pub open spec fn starts_transfer(old_sc: u8, v: u8) -> bool {
    v & 0x80 != 0 && old_sc & 0x80 == 0
}

/// Abstract state of the serial port.
pub struct SerialState {
    pub sb: u8,
    pub sc: u8,
    pub buffer: Seq<char>,
    pub link: bool,
    pub inbox: Seq<u8>,
    pub outbox: Seq<u8>,
}

impl View for Serial {
    type V = SerialState;

    open spec fn view(&self) -> SerialState {
        SerialState {
            sb: self.sb,
            sc: self.sc,
            buffer: self.buffer@,
            link: self.link,
            inbox: self.link_inbox@,
            outbox: self.link_outbox@,
        }
    }
}

impl SerialState {
    /// State after an SC write of `v`. A transfer completes at once: without a link the byte
    /// in SB is appended to the buffer; with one it is queued for the peer and SB takes the
    /// oldest received byte (`0xFF` if none). SC then keeps `v` with bit 7 cleared.
    pub open spec fn write_sc(self, v: u8) -> SerialState {
        if starts_transfer(self.sc, v) {
            if self.link {
                SerialState {
                    sb: if self.inbox.len() > 0 { self.inbox[0] } else { 0xFF },
                    sc: v & 0x7F,
                    inbox: if self.inbox.len() > 0 { self.inbox.drop_first() } else { self.inbox },
                    outbox: self.outbox.push(self.sb),
                    ..self
                }
            } else {
                SerialState {
                    sc: v & 0x7F,
                    buffer: self.buffer.push((self.sb as u32) as char),
                    ..self
                }
            }
        } else {
            SerialState { sc: v, ..self }
        }
    }
}

impl Default for Serial {
    /// Idle port, empty buffer, no link.
    fn default() -> (r: Self)
        ensures
            r.sb == 0 && r.sc == 0 && !r.link,
            r.buffer@.len() == 0 && r.link_inbox@.len() == 0 && r.link_outbox@.len() == 0,
    {
        Serial {
            sb: 0,
            sc: 0,
            buffer: Vec::new(),
            link: false,
            link_inbox: Vec::new(),
            link_outbox: Vec::new(),
        }
    }
}

impl Serial {
    pub fn write_sb(&mut self, v: u8)
        ensures
            final(self)@ == (SerialState { sb: v, ..old(self)@ }),
    {
        self.sb = v;
    }

    /// SC write; a transfer also requests the serial interrupt.
    pub fn write_sc(&mut self, v: u8, if_: &mut u8)
        ensures
            final(self)@ == old(self)@.write_sc(v),
            *final(if_) == if starts_transfer(old(self).sc, v) {
                *old(if_) | interrupts::SERIAL
            } else {
                *old(if_)
            },
    {
        let old_sc = self.sc;
        if (v & 0x80) != 0 && (old_sc & 0x80) == 0 {
            if self.link {
                let out = self.sb;
                self.link_outbox.push(out);
                if self.link_inbox.len() > 0 {
                    self.sb = self.link_inbox.remove(0);
                } else {
                    self.sb = 0xFF;
                }
            } else {
                let c = byte_char(self.sb);
                self.buffer.push(c);
            }
            *if_ = *if_ | interrupts::SERIAL;
            self.sc = v & 0x7F;
        } else {
            self.sc = v;
        }
    }

    /// Returns the buffered output and leaves the buffer empty.
    pub fn take_output(&mut self) -> (r: String)
        ensures
            r@ == old(self).buffer@,
            final(self).buffer@.len() == 0,
            final(self).sb == old(self).sb,
            final(self).sc == old(self).sc,
            final(self).link == old(self).link,
            final(self).link_inbox@ == old(self).link_inbox@,
            final(self).link_outbox@ == old(self).link_outbox@,
    {
        let mut out: Vec<char> = Vec::new();
        std::mem::swap(&mut out, &mut self.buffer);
        string_from_chars(out.as_slice())
    }

    /// Attaches a link peer: later transfers exchange bytes instead of printing.
    pub fn attach_link(&mut self)
        ensures
            final(self).link,
            final(self).sb == old(self).sb,
            final(self).sc == old(self).sc,
            final(self).buffer@ == old(self).buffer@,
            final(self).link_inbox@ == old(self).link_inbox@,
            final(self).link_outbox@ == old(self).link_outbox@,
    {
        self.link = true;
    }

    /// Hands the queued outgoing bytes to the host, oldest first.
    pub fn take_link_outbox(&mut self) -> (r: Vec<u8>)
        ensures
            r@ == old(self).link_outbox@,
            final(self).link_outbox@.len() == 0,
            final(self).sb == old(self).sb,
            final(self).sc == old(self).sc,
            final(self).link == old(self).link,
            final(self).buffer@ == old(self).buffer@,
            final(self).link_inbox@ == old(self).link_inbox@,
    {
        let mut out: Vec<u8> = Vec::new();
        std::mem::swap(&mut out, &mut self.link_outbox);
        out
    }

    /// Appends a byte received from the peer.
    pub fn receive_link_byte(&mut self, b: u8)
        ensures
            final(self).link_inbox@ == old(self).link_inbox@.push(b),
            final(self).sb == old(self).sb,
            final(self).sc == old(self).sc,
            final(self).link == old(self).link,
            final(self).buffer@ == old(self).buffer@,
            final(self).link_outbox@ == old(self).link_outbox@,
    {
        self.link_inbox.push(b);
    }
}

/// The character with code point `b` (Latin-1), as `b as char` gives it.
fn byte_char(b: u8) -> (c: char)
    ensures
        c == (b as u32) as char,
{
    b as char
}

} // verus!
