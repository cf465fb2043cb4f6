//! The console: CPU and bus, with the timer, PPU, HBlank DMA and APU advanced in lock-step
//! after every instruction.

use vstd::prelude::*;

use crate::apu::Apu;
use crate::bus::{Bus, BusState};
use crate::clock::unix_time_secs;
use crate::cartridge::{self, cartridge_for, CartridgeError, CartridgeState, HeaderError};
use crate::cartridge::header::cartridge_type_of;
use crate::cpu::{step_spec, Cpu};
use crate::interrupts::Interrupts;
use crate::ppu::Ppu;
use crate::text::string_from_chars;

verus! {

broadcast use crate::cartridge::lemma_reads_ok;

/// `std::io::Error`, carried through as an opaque value.
#[verifier::external_type_specification]
#[verifier::external_body]
pub struct ExIoError(std::io::Error);

/// Why a ROM could not be loaded: the file could not be read, or its cartridge is not one
/// the emulator runs.
#[derive(Debug)]
pub enum LoadError {
    Io(std::io::Error),
    Cartridge(CartridgeError),
}

pub struct GameBoy {
    pub cpu: Cpu,
    pub bus: Bus,
}

/// T-states in one frame.
pub const FRAME_T_CYCLES: u32 = 70224;

/// Whether `out` is the bus after the peripherals catch up with `m` M-cycles of CPU time:
/// the timer and the PPU run for `4m` T-states (in that order, both raising requests in IF),
/// one HBlank DMA chunk runs per HBlank the PPU entered, and the APU runs for `4m` T-states,
/// queueing the sample frames that fall due.
#[verifier::opaque]
pub open spec fn peripherals_stepped(b: BusState, m: u8, t: u64, out: BusState) -> bool {
    let tt = (m * 4) as u32;
    let (timer, if1) = b.timer.spec_run(tt, b.interrupts.if_);
    let (ppu, if2) = b.ppu.spec_step(tt, if1);
    let b1 = BusState {
        timer,
        ppu: Ppu { hblank_dma_edges: 0, ..ppu },
        interrupts: Interrupts { if_: if2, ..b.interrupts },
        ..b
    };
    let b2 = b1.hdma_steps(ppu.hblank_dma_edges as nat, t);
    &&& out == (BusState { apu: out.apu, ..b2 })
    &&& out.apu == (Apu { pending: out.apu.pending, ..b2.apu.spec_step(tt) })
    &&& out.apu.pending@ == b2.apu.pending@ + b2.apu.step_frames(tt)
}

/// Whether `(c2, b2)` follows `(c, b)` by one CPU step and the peripherals' catch-up, with
/// the wall clock at `t`, taking `tt` T-states.
#[verifier::opaque]
pub open spec fn system_stepped(c: Cpu, b: BusState, t: u64, c2: Cpu, b2: BusState, tt: u32) -> bool {
    let (c1, b1, m) = step_spec(c, b, t);
    &&& c2 == c1
    &&& tt == m * 4
    &&& peripherals_stepped(b1, m, t, b2)
}

/// Whether `(c, b)` is reached from `(c0, b0)` in `k` system steps taking `total` T-states.
pub open spec fn steps_reach(c0: Cpu, b0: BusState, k: nat, c: Cpu, b: BusState, total: int) -> bool
    decreases k,
{
    if k == 0 {
        c == c0 && b == b0 && total == 0
    } else {
        exists|cm: Cpu, bm: BusState, t: u64, tt: u32|
            #![trigger system_stepped(cm, bm, t, c, b, tt)]
            steps_reach(c0, b0, (k - 1) as nat, cm, bm, total - tt) && system_stepped(
                cm,
                bm,
                t,
                c,
                b,
                tt,
            )
    }
}

/// Whether the run of `k` steps from `(c0, b0)` to `(c, b)`, `total` T-states long, had taken
/// fewer than `cycles` T-states before its last step (so no shorter run reached `cycles`).
pub open spec fn last_step_starts_below(
    c0: Cpu,
    b0: BusState,
    k: nat,
    c: Cpu,
    b: BusState,
    total: int,
    cycles: int,
) -> bool {
    k > 0 ==> exists|cm: Cpu, bm: BusState, t: u64, tt: u32|
        #![trigger system_stepped(cm, bm, t, c, b, tt)]
        steps_reach(c0, b0, (k - 1) as nat, cm, bm, total - tt) && system_stepped(cm, bm, t, c, b, tt)
            && total - tt < cycles
}

/// The console `from_rom` builds: the header's cartridge, with the save data loaded when the
/// cartridge keeps battery-backed RAM.
pub open spec fn loaded_cartridge(c: CartridgeState, save: Option<Seq<u8>>) -> CartridgeState {
    match save {
        Some(data) => if c.battery() {
            c.load_ram(data)
        } else {
            c
        },
        None => c,
    }
}

/// One more system step extends a run.
pub proof fn lemma_reach_step(
    c0: Cpu,
    b0: BusState,
    k: nat,
    cm: Cpu,
    bm: BusState,
    total: int,
    t: u64,
    c: Cpu,
    b: BusState,
    tt: u32,
)
    requires
        steps_reach(c0, b0, k, cm, bm, total),
        system_stepped(cm, bm, t, c, b, tt),
    ensures
        steps_reach(c0, b0, k + 1, c, b, total + tt),
{
    assert(steps_reach(c0, b0, k, cm, bm, (total + tt) - tt));
}

impl GameBoy {
    pub open spec fn wf(self) -> bool {
        self.bus@.wf()
    }

    /// A console around `bus`, with the CPU as the boot ROM leaves it.
    pub fn new(bus: Bus) -> (r: Self)
        ensures
            r.wf() == bus@.wf(),
            r.bus@ == bus@,
            r.cpu == Cpu::new_post_boot_spec(bus.cgb_mode),
    {
        let cgb = bus.cgb_mode;
        GameBoy { cpu: Cpu::new_post_boot(cgb), bus }
    }

    /// A console for the ROM image `rom`; `save` is battery RAM saved earlier. A cartridge
    /// with a bank controller whose image is shorter than one 16 KiB bank loads too, but it
    /// cannot run: reads of ROM past the image are left out of the bus contracts.
    pub fn from_rom(rom: Vec<u8>, save: Option<Vec<u8>>) -> (r: Result<GameBoy, CartridgeError>)
        ensures
            match r {
                Ok(gb) => {
                    &&& gb.wf() == gb.bus.cartridge@.reads_ok()
                    &&& (gb.bus.cartridge@ is NoMbc || rom@.len() >= 0x4000) ==> gb.wf()
                    &&& rom@.len() >= 0x150
                    &&& cartridge_for(rom@, cartridge_type_of(rom@[0x147])) is Some
                    &&& gb.bus.cartridge@ == loaded_cartridge(
                        cartridge_for(rom@, cartridge_type_of(rom@[0x147]))->Some_0,
                        match save {
                            Some(v) => Some(v@),
                            None => None,
                        },
                    )
                    &&& gb.bus.cgb_mode == (gb.bus.cartridge@.cgb_support() is Dual
                        || gb.bus.cartridge@.cgb_support() is GbcOnly)
                    &&& gb.cpu == Cpu::new_post_boot_spec(gb.bus.cgb_mode)
                },
                Err(e) => {
                    ||| rom@.len() < 0x150 && e == CartridgeError::Header(HeaderError::TooSmall)
                    ||| (rom@.len() >= 0x150 && cartridge_for(rom@, cartridge_type_of(rom@[0x147])) is None
                        && e == CartridgeError::UnsupportedType(cartridge_type_of(rom@[0x147])))
                },
            },
            rom@.len() >= 0x150 && cartridge_for(rom@, cartridge_type_of(rom@[0x147])) is Some
                ==> r is Ok,
    {
        let mut cart = match cartridge::from_rom(rom) {
            Ok(c) => c,
            Err(e) => return Err(e),
        };
        if let Some(data) = save {
            if cart.battery_backed() {
                cart.load_ram(data.as_slice());
            }
        }
        let bus = Bus::new(cart);
        Ok(GameBoy::new(bus))
    }

    /// One CPU step and the peripherals' catch-up, with the wall clock at `now`. Returns
    /// the T-states taken.
    #[verifier::rlimit(40)]
    pub fn step_instruction_at(&mut self, now: u64) -> (t: u32)
        requires
            old(self).wf(),
        ensures
            final(self).wf(),
            system_stepped(old(self).cpu, old(self).bus@, now, final(self).cpu, final(self).bus@, t),
            4 <= t <= 24,
    {
        proof {
            reveal(system_stepped);
            reveal(peripherals_stepped);
        }
        let m8 = self.cpu.step_at(&mut self.bus, now);
        let m = m8 as u32;
        let ghost b1 = self.bus@;
        let ghost c1 = self.cpu;
        let ghost res = step_spec(old(self).cpu, old(self).bus@, now);
        assert(res.0 == c1 && res.1 == b1 && res.2 == m8);
        let t = m * 4;
        self.bus.timer.step(t, &mut self.bus.interrupts.if_);
        let ghost b_timer = self.bus@;
        assert((b_timer.timer, b_timer.interrupts.if_) == b1.timer.spec_run(t, b1.interrupts.if_));
        self.bus.ppu.step(t, &mut self.bus.interrupts.if_);
        let ghost b_ppu = self.bus@;
        assert((b_ppu.ppu, b_ppu.interrupts.if_) == b1.ppu.spec_step(t, b_timer.interrupts.if_));
        let edges = self.bus.ppu.take_hblank_dma_edges();
        let ghost start = self.bus@;
        assert(start == (BusState {
            timer: b_timer.timer,
            ppu: Ppu { hblank_dma_edges: 0, ..b_ppu.ppu },
            interrupts: Interrupts { if_: b_ppu.interrupts.if_, ..b1.interrupts },
            ..b1
        }));
        let mut i: u32 = 0;
        while i < edges
            invariant
                i <= edges,
                self.bus@ == start.hdma_steps(i as nat, now),
                self.bus@.wf(),
                self.cpu == c1,
            decreases edges - i,
        {
            self.bus.hdma_hblank_step_at(now);
            i = i + 1;
        }
        let ghost b_dma = self.bus@;
        self.bus.apu.step(t);
        proof {
            assert(b_dma == start.hdma_steps(b_ppu.ppu.hblank_dma_edges as nat, now));
            assert(self.bus@ == (BusState { apu: self.bus@.apu, ..b_dma }));
            assert(peripherals_stepped(b1, m8, now, self.bus@));
            assert(self.cpu == c1);
            assert(system_stepped(old(self).cpu, old(self).bus@, now, self.cpu, self.bus@, t));
        }
        t
    }

    /// One CPU step and the peripherals' catch-up. With an MBC3 cartridge the system clock
    /// is read once. Returns the T-states taken.
    pub fn step_instruction(&mut self) -> (t: u32)
        requires
            old(self).wf(),
        ensures
            final(self).wf(),
            exists|now: u64|
                system_stepped(old(self).cpu, old(self).bus@, now, final(self).cpu, final(self).bus@, t),
            4 <= t <= 24,
    {
        let now = if self.bus.cartridge.has_clock() {
            unix_time_secs()
        } else {
            0
        };
        self.step_instruction_at(now)
    }

    /// Runs whole steps until at least `cycles` T-states have passed; returns `cycles`.
    pub fn run_t_cycles(&mut self, cycles: u32) -> (r: u32)
        requires
            old(self).wf(),
        ensures
            final(self).wf(),
            r == cycles,
            exists|k: nat, total: int|
                steps_reach(old(self).cpu, old(self).bus@, k, final(self).cpu, final(self).bus@, total)
                    && total >= cycles && (cycles == 0 <==> k == 0) && (k > 0 ==> total < cycles + 24)
                    && last_step_starts_below(
                    old(self).cpu,
                    old(self).bus@,
                    k,
                    final(self).cpu,
                    final(self).bus@,
                    total,
                    cycles as int,
                ),
    {
        let target = cycles;
        let mut left = cycles;
        let ghost mut k: nat = 0;
        let ghost mut total: int = 0;
        while left > 0
            invariant
                self.wf(),
                steps_reach(old(self).cpu, old(self).bus@, k, self.cpu, self.bus@, total),
                left <= cycles,
                left > 0 ==> total + left == cycles,
                left == 0 ==> total >= cycles,
                left == cycles <==> k == 0,
                k > 0 ==> total < cycles + 24,
                k == 0 ==> total == 0,
                last_step_starts_below(old(self).cpu, old(self).bus@, k, self.cpu, self.bus@, total, cycles as int),
            decreases left,
        {
            let ghost cm = self.cpu;
            let ghost bm = self.bus@;
            let t = self.step_instruction();
            proof {
                let now = choose|now: u64| system_stepped(cm, bm, now, self.cpu, self.bus@, t);
                lemma_reach_step(old(self).cpu, old(self).bus@, k, cm, bm, total, now, self.cpu, self.bus@, t);
                assert(steps_reach(old(self).cpu, old(self).bus@, ((k + 1) - 1) as nat, cm, bm, (total + t) - t));
                assert(system_stepped(cm, bm, now, self.cpu, self.bus@, t));
                k = k + 1;
                total = total + t;
            }
            left = if left > t {
                left - t
            } else {
                0
            };
        }
        assert(steps_reach(old(self).cpu, old(self).bus@, k, self.cpu, self.bus@, total) && total >= cycles
            && (cycles == 0 <==> k == 0) && (k > 0 ==> total < cycles + 24) && last_step_starts_below(
            old(self).cpu,
            old(self).bus@,
            k,
            self.cpu,
            self.bus@,
            total,
            cycles as int,
        ));
        target
    }

    /// Runs about one frame (70224 T-states).
    pub fn run_frame(&mut self)
        requires
            old(self).wf(),
        ensures
            final(self).wf(),
            exists|k: nat, total: int|
                steps_reach(old(self).cpu, old(self).bus@, k, final(self).cpu, final(self).bus@, total)
                    && FRAME_T_CYCLES <= total < FRAME_T_CYCLES + 24 && last_step_starts_below(
                    old(self).cpu,
                    old(self).bus@,
                    k,
                    final(self).cpu,
                    final(self).bus@,
                    total,
                    FRAME_T_CYCLES as int,
                ),
    {
        self.run_t_cycles(FRAME_T_CYCLES);
    }

    /// The serial output printed so far.
    pub fn serial_output(&self) -> (r: String)
        ensures
            r@ == self.bus.serial.buffer@,
    {
        string_from_chars(self.bus.serial.buffer.as_slice())
    }

    /// Takes the serial output printed so far, leaving the buffer empty.
    pub fn take_serial(&mut self) -> (r: String)
        ensures
            r@ == old(self).bus.serial.buffer@,
            final(self).bus.serial.buffer@.len() == 0,
            final(self).bus@ == (BusState {
                serial: crate::serial::SerialState { buffer: Seq::empty(), ..old(self).bus@.serial },
                ..old(self).bus@
            }),
            final(self).cpu == old(self).cpu,
    {
        let r = self.bus.serial.take_output();
        assert(self.bus.serial.buffer@ =~= Seq::<char>::empty());
        r
    }

    /// A copy of the cartridge's external RAM, if it has any.
    pub fn cartridge_ram_snapshot(&self) -> (r: Option<Vec<u8>>)
        ensures
            self.bus.cartridge@.ram().len() == 0 ==> r is None,
            self.bus.cartridge@.ram().len() > 0 ==> r is Some && r->Some_0@ == self.bus.cartridge@.ram(),
    {
        match self.bus.cartridge.external_ram() {
            Some(ram) => Some(vstd::slice::slice_to_vec(ram)),
            None => None,
        }
    }

    /// Replaces the start of the cartridge's external RAM with `data`.
    pub fn load_cartridge_ram_snapshot(&mut self, data: &[u8])
        requires
            old(self).wf(),
        ensures
            final(self).wf(),
            final(self).bus@ == (BusState {
                cart: old(self).bus@.cart.load_ram(data@),
                ..old(self).bus@
            }),
            final(self).cpu == old(self).cpu,
    {
        self.bus.cartridge.load_ram(data);
    }

    /// The battery-backed RAM to persist: the external RAM of a battery-backed cartridge
    /// that has some, `None` otherwise.
    pub fn save_data(&self) -> (r: Option<Vec<u8>>)
        ensures
            self.bus.cartridge@.battery() && self.bus.cartridge@.ram().len() > 0 ==> r is Some
                && r->Some_0@ == self.bus.cartridge@.ram(),
            !(self.bus.cartridge@.battery() && self.bus.cartridge@.ram().len() > 0) ==> r is None,
    {
        if !self.bus.cartridge.battery_backed() {
            return None;
        }
        self.cartridge_ram_snapshot()
    }
}

} // verus!
