//! DMG APU: two square channels (one with sweep), a wave channel and a noise channel, the
//! 512 Hz frame sequencer and the register file. Output samples are produced as per-channel
//! digital levels; turning them into floating-point audio is left to the frontend.

use vstd::prelude::*;

use crate::bits::{lemma_u16_fields, lemma_u8_fields, lemma_usize_fields};

verus! {

/// CPU T-states per second (4.194304 MHz).
pub const T_CYCLES_PER_SEC: u64 = 4_194_304;
/// Frame sequencer period: 512 Hz, every 8192 T-cycles.
pub const FS_PERIOD: u64 = 8192;
/// Default output sample rate before matching the audio device.
pub const OUTPUT_SAMPLE_RATE: u32 = 48_000;

/// Duty pattern bit `step` (0–7) for duty code `code` (0–3).
pub open spec fn duty_bit(code: int, step: int) -> u8 {
    if code == 0 {
        if step == 7 { 1 } else { 0 }
    } else if code == 1 {
        if step == 0 || step == 7 { 1 } else { 0 }
    } else if code == 2 {
        if step == 0 || step >= 5 { 1 } else { 0 }
    } else {
        if step == 0 || step == 7 { 0 } else { 1 }
    }
}

fn duty_table(code: usize, step: u8) -> (r: u8)
    requires
        code < 4,
        step < 8,
    ensures
        r == duty_bit(code as int, step as int),
{
    let duty: [[u8; 8]; 4] = [
        [0, 0, 0, 0, 0, 0, 0, 1],
        [1, 0, 0, 0, 0, 0, 0, 1],
        [1, 0, 0, 0, 0, 1, 1, 1],
        [0, 1, 1, 1, 1, 1, 1, 0],
    ];
    duty[code][step as usize]
}

/// Square channel timer period for an 11-bit frequency value.
pub open spec fn spec_period_from_freq(freq: u16) -> u32 {
    let f = freq as int % 2048;
    (if (2048 - f) * 4 >= 4 { (2048 - f) * 4 } else { 4 }) as u32
}

/// Wave channel timer period for an 11-bit frequency value.
pub open spec fn spec_wave_period(freq: u16) -> u32 {
    let f = freq as int % 2048;
    (if (2048 - f) * 2 >= 2 { (2048 - f) * 2 } else { 2 }) as u32
}

/// Noise channel timer period: divisor from the code, shifted left by `shift`.
pub open spec fn spec_noise_period(divisor_code: u8, shift: u8) -> u32 {
    let base: u32 = if divisor_code % 8 == 0 {
        8
    } else {
        ((divisor_code % 8) as int * 16) as u32
    };
    base << (shift as u32)
}

/// Frequency after one sweep calculation (wrapping 16-bit arithmetic).
pub open spec fn spec_sweep_calc(shadow: u16, shift: u8, negate: bool) -> u16 {
    let delta = shadow >> (shift as u16);
    if negate {
        (shadow - delta) as u16
    } else {
        ((shadow + delta) % 65536) as u16
    }
}

/// Rewriting the low byte or the three high bits of an 11-bit frequency register.
proof fn lemma_freq_fields()
    by (bit_vector)
    ensures
        forall|f: u16, w: u16| w < 256 ==> #[trigger] ((f & 0x700u16) | w) == (f / 256) % 8 * 256 + w,
{
}

/// Rewriting the three high bits of an 11-bit frequency register from a byte.
proof fn lemma_freq_high_bits()
    by (bit_vector)
    ensures
        forall|f: u16, v: u8| #[trigger] ((f & 0xFFu16) | (((v & 7u8) as u16) << 8u16)) == (v % 8) as u16
            * 256 + f % 256,
{
}

/// A small noise divisor does not shrink when shifted left by less than 16.
proof fn lemma_shift_grows()
    by (bit_vector)
    ensures
        forall|b: u32, k: u32| b <= 112 && k < 16 ==> #[trigger] (b << k) >= b,
{
}

/// A right shift never grows a word.
proof fn lemma_shift_shrinks()
    by (bit_vector)
    ensures
        forall|x: u16, k: u16| #[trigger] (x >> k) <= x,
{
}

pub fn period_from_freq(freq: u16) -> (r: u32)
    ensures
        r == spec_period_from_freq(freq),
        r >= 4,
{
    assert(freq & 0x7FFu16 == freq % 2048) by { lemma_u16_fields(); }
    let f = freq & 0x7FF;
    let p = (2048u32 - f as u32) * 4;
    if p >= 4 { p } else { 4 }
}

pub fn wave_period(freq: u16) -> (r: u32)
    ensures
        r == spec_wave_period(freq),
        r >= 2,
{
    assert(freq & 0x7FFu16 == freq % 2048) by { lemma_u16_fields(); }
    let f = freq & 0x7FF;
    let p = (2048u32 - f as u32) * 2;
    if p >= 2 { p } else { 2 }
}

pub fn noise_period(divisor_code: u8, shift: u8) -> (r: u32)
    requires
        shift < 16,
    ensures
        r == spec_noise_period(divisor_code, shift),
        r >= 8,
{
    assert(divisor_code & 7u8 == divisor_code % 8) by { lemma_u8_fields(); }
    let base: u32 = match divisor_code & 7 {
        0 => 8,
        1 => 16,
        2 => 32,
        3 => 48,
        4 => 64,
        5 => 80,
        6 => 96,
        _ => 112,
    };
    let s = shift as u32;
    assert(base << s >= base) by { lemma_shift_grows(); }
    base << s
}

pub fn sweep_calc(shadow: u16, shift: u8, negate: bool) -> (r: u16)
    requires
        shift < 8,
    ensures
        r == spec_sweep_calc(shadow, shift, negate),
{
    let delta = shadow >> (shift as u16);
    assert(shadow >> (shift as u16) <= shadow) by { lemma_shift_shrinks(); }
    if negate {
        shadow - delta
    } else {
        shadow.wrapping_add(delta)
    }
}

/// Volume envelope shared by the square and noise channels.
#[derive(Debug, Clone, Copy)]
pub struct Envelope {
    pub initial_volume: u8,
    pub direction_up: bool,
    pub period: u8,
    pub volume: u8,
    pub timer: u8,
}

impl Envelope {
    pub open spec fn wf(self) -> bool {
        self.initial_volume < 16 && self.period < 8 && self.volume < 16
    }

    pub fn new() -> (r: Self)
        ensures
            r == (Envelope { initial_volume: 0, direction_up: false, period: 0, volume: 0, timer: 0 }),
            r.wf(),
    {
        Envelope { initial_volume: 0, direction_up: false, period: 0, volume: 0, timer: 0 }
    }

    /// NRx2 value: initial volume, direction, period.
    pub fn read_reg(&self) -> (r: u8)
        ensures
            r == (self.initial_volume << 4u8) | (if self.direction_up { 0x08u8 } else { 0 }) | self.period,
    {
        let d: u8 = if self.direction_up { 0x08 } else { 0 };
        (self.initial_volume << 4) | d | self.period
    }

    pub fn write_reg(&mut self, v: u8)
        ensures
            *final(self) == (Envelope {
                initial_volume: v / 16,
                direction_up: v & 0x08 != 0,
                period: v % 8,
                ..*old(self)
            }),
            old(self).wf() ==> final(self).wf(),
    {
        assert(v >> 4u8 == v / 16) by { lemma_u8_fields(); }
        assert(v & 7u8 == v % 8) by { lemma_u8_fields(); }
        self.initial_volume = v >> 4;
        self.direction_up = (v & 0x08) != 0;
        self.period = v & 7;
    }

    /// Trigger: volume back to the initial value, timer to the period (0 counts as 8).
    pub fn reload(&mut self)
        ensures
            *final(self) == (Envelope {
                volume: old(self).initial_volume,
                timer: if old(self).period != 0 { old(self).period } else { 8 },
                ..*old(self)
            }),
            old(self).wf() ==> final(self).wf(),
    {
        self.volume = self.initial_volume;
        self.timer = if self.period != 0 { self.period } else { 8 };
    }

    pub open spec fn spec_clock(self) -> Envelope {
        if self.period == 0 {
            self
        } else {
            let t = if self.timer > 0 { (self.timer - 1) as u8 } else { 0 };
            if t == 0 {
                let vol = if self.direction_up && self.volume < 15 {
                    (self.volume + 1) as u8
                } else if !self.direction_up && self.volume > 0 {
                    (self.volume - 1) as u8
                } else {
                    self.volume
                };
                Envelope { timer: self.period, volume: vol, ..self }
            } else {
                Envelope { timer: t, ..self }
            }
        }
    }

    /// One 64 Hz envelope clock: when the timer runs out the volume moves one step (within
    /// 0–15) and the timer reloads.
    pub fn clock(&mut self)
        ensures
            *final(self) == old(self).spec_clock(),
            old(self).wf() ==> final(self).wf(),
    {
        if self.period == 0 {
            return;
        }
        if self.timer > 0 {
            self.timer = self.timer - 1;
        }
        if self.timer == 0 {
            self.timer = self.period;
            if self.direction_up && self.volume < 15 {
                self.volume = self.volume + 1;
            } else if !self.direction_up && self.volume > 0 {
                self.volume = self.volume - 1;
            }
        }
    }

    pub fn current_volume(&self) -> (r: u8)
        ensures
            r == self.volume,
    {
        self.volume
    }
}

/// Square channel (channel 1 has the frequency sweep unit).
#[derive(Debug, Clone, Copy)]
pub struct SquareChannel {
    pub has_sweep: bool,
    pub sweep: u8,
    pub sweep_period: u8,
    pub sweep_negate: bool,
    pub sweep_shift: u8,
    pub sweep_timer: u8,
    pub sweep_shadow: u16,
    pub sweep_enabled: bool,
    pub duty_code: usize,
    pub duty_step: u8,
    pub length: u8,
    pub length_enable: bool,
    pub env: Envelope,
    pub freq: u16,
    pub timer: u32,
    pub triggered: bool,
}

impl SquareChannel {
    pub open spec fn wf(self) -> bool {
        &&& self.sweep_period < 8
        &&& self.sweep_shift < 8
        &&& self.duty_code < 4
        &&& self.duty_step < 8
        &&& self.length <= 64
        &&& self.freq < 2048
        &&& self.env.wf()
        &&& self.triggered ==> self.timer >= 1
    }

    pub open spec fn spec_new(has_sweep: bool) -> SquareChannel {
        SquareChannel {
            has_sweep,
            sweep: 0,
            sweep_period: 0,
            sweep_negate: false,
            sweep_shift: 0,
            sweep_timer: 0,
            sweep_shadow: 0,
            sweep_enabled: false,
            duty_code: 0,
            duty_step: 0,
            length: 0,
            length_enable: false,
            env: Envelope { initial_volume: 0, direction_up: false, period: 0, volume: 0, timer: 0 },
            freq: 0,
            timer: 0,
            triggered: false,
        }
    }

    pub fn new(has_sweep: bool) -> (r: Self)
        ensures
            r == Self::spec_new(has_sweep),
            r.wf(),
    {
        SquareChannel {
            has_sweep,
            sweep: 0,
            sweep_period: 0,
            sweep_negate: false,
            sweep_shift: 0,
            sweep_timer: 0,
            sweep_shadow: 0,
            sweep_enabled: false,
            duty_code: 0,
            duty_step: 0,
            length: 0,
            length_enable: false,
            env: Envelope::new(),
            freq: 0,
            timer: 0,
            triggered: false,
        }
    }

    pub fn on(&self) -> (r: bool)
        ensures
            r == self.triggered,
    {
        self.triggered
    }

    /// NRx1 read-back: duty in bits 6–7, length counter in the low bits.
    pub fn len_duty_read(&self) -> (r: u8)
        requires
            self.wf(),
        ensures
            r == ((self.duty_code as u8) << 6u8) | self.length,
    {
        ((self.duty_code as u8) << 6) | self.length
    }

    /// NRx4 read-back: only the length-enable bit is readable.
    pub fn control_read(&self) -> (r: u8)
        ensures
            r == if self.length_enable { 0xFFu8 } else { 0xBFu8 },
    {
        assert(0xBFu8 | 0x40u8 == 0xFFu8) by { lemma_u8_fields(); }
        if self.length_enable {
            0xBFu8 | 0x40
        } else {
            0xBF
        }
    }

    pub fn sweep_read(&self) -> (r: u8)
        ensures
            r == self.sweep,
    {
        self.sweep
    }

    /// NR10: sweep period (bits 4–6), negate (bit 3), shift (bits 0–2).
    pub fn write_sweep(&mut self, v: u8)
        ensures
            *final(self) == (SquareChannel {
                sweep: v,
                sweep_period: (v / 16) % 8,
                sweep_negate: v & 0x08 != 0,
                sweep_shift: v % 8,
                sweep_enabled: old(self).has_sweep && v % 8 != 0 && (v / 16) % 8 != 0,
                ..*old(self)
            }),
            old(self).wf() ==> final(self).wf(),
    {
        assert((v >> 4u8) & 7u8 == (v / 16) % 8) by { lemma_u8_fields(); }
        assert(v & 7u8 == v % 8) by { lemma_u8_fields(); }
        self.sweep = v;
        self.sweep_period = (v >> 4) & 7;
        self.sweep_negate = (v & 0x08) != 0;
        self.sweep_shift = v & 7;
        self.sweep_enabled = self.has_sweep && self.sweep_shift != 0 && self.sweep_period != 0;
    }

    /// NRx1: duty code and length load (length counter = 64 − value).
    pub fn write_len_duty(&mut self, v: u8)
        ensures
            *final(self) == (SquareChannel {
                duty_code: ((v / 64) % 4) as usize,
                length: (64 - v % 64) as u8,
                ..*old(self)
            }),
            old(self).wf() ==> final(self).wf(),
    {
        assert((v >> 6u8) & 3u8 == (v / 64) % 4) by { lemma_u8_fields(); }
        assert(v & 0x3Fu8 == v % 64) by { lemma_u8_fields(); }
        self.duty_code = ((v >> 6) & 3) as usize;
        self.length = 64 - (v & 0x3F);
    }

    pub fn write_freq_low(&mut self, v: u8)
        ensures
            *final(self) == (SquareChannel {
                freq: ((old(self).freq / 256) % 8 * 256 + v) as u16,
                ..*old(self)
            }),
            old(self).wf() ==> final(self).wf(),
    {
        let f = self.freq;
        let w = v as u16;
        assert((f & 0x700u16) | w == (f / 256) % 8 * 256 + w) by { lemma_freq_fields(); }
        self.freq = (self.freq & 0x700) | (v as u16);
    }

    pub open spec fn spec_trigger(self) -> SquareChannel {
        let env = Envelope {
            volume: self.env.initial_volume,
            timer: if self.env.period != 0 { self.env.period } else { 8 },
            ..self.env
        };
        let base = SquareChannel {
            triggered: true,
            env,
            timer: spec_period_from_freq(self.freq),
            duty_step: 0,
            length: if self.length == 0 { 64 } else { self.length },
            ..self
        };
        if self.has_sweep {
            let timer = if self.sweep_period != 0 { self.sweep_period } else { 8 };
            let overflow = self.sweep_shift != 0 && spec_sweep_calc(
                self.freq,
                self.sweep_shift,
                self.sweep_negate,
            ) > 2047;
            SquareChannel {
                sweep_shadow: self.freq,
                sweep_timer: timer,
                triggered: !overflow,
                ..base
            }
        } else {
            base
        }
    }

    /// NRx4: frequency high bits, length enable, and trigger (bit 7).
    pub fn write_freq_high(&mut self, v: u8)
        requires
            old(self).wf(),
        ensures
            ({
                let s = SquareChannel {
                    freq: ((v % 8) as int * 256 + old(self).freq % 256) as u16,
                    length_enable: v & 0x40 != 0,
                    ..*old(self)
                };
                *final(self) == if v & 0x80 != 0 { s.spec_trigger() } else { s }
            }),
            final(self).wf(),
    {
        let f = self.freq;
        assert((f & 0xFFu16) | (((v & 7u8) as u16) << 8u16) == (v % 8) as u16 * 256 + f % 256)
            by { lemma_freq_high_bits(); }
        self.freq = (self.freq & 0xFF) | (((v & 7) as u16) << 8);
        self.length_enable = (v & 0x40) != 0;
        if (v & 0x80) != 0 {
            self.trigger();
        }
    }

    fn trigger(&mut self)
        requires
            old(self).wf(),
        ensures
            *final(self) == old(self).spec_trigger(),
            final(self).wf(),
    {
        self.triggered = true;
        self.env.reload();
        self.timer = period_from_freq(self.freq);
        self.duty_step = 0;
        if self.length == 0 {
            self.length = 64;
        }
        if self.has_sweep {
            self.sweep_shadow = self.freq;
            self.sweep_timer = if self.sweep_period != 0 { self.sweep_period } else { 8 };
            if self.sweep_shift != 0 && sweep_calc(self.freq, self.sweep_shift, self.sweep_negate) > 2047 {
                self.triggered = false;
            }
        }
    }

    /// State after `left` more T-cycles: the timer counts down and each expiry advances the
    /// duty step and reloads the timer with the frequency's period (at least 4).
    pub open spec fn spec_run_timer(self, left: u64) -> SquareChannel
        decreases left,
    {
        if !self.triggered || left == 0 {
            self
        } else {
            let period: u32 = if self.timer >= 1 { self.timer } else { 1 };
            let step: u64 = if left < period { left } else { period as u64 };
            let t = (self.timer - step) as u32;
            let next = if t == 0 {
                SquareChannel {
                    duty_step: ((self.duty_step + 1) % 8) as u8,
                    timer: spec_period_from_freq(self.freq),
                    ..self
                }
            } else {
                SquareChannel { timer: t, ..self }
            };
            next.spec_run_timer((left - step) as u64)
        }
    }

    pub fn step_timer(&mut self, t: u64)
        requires
            old(self).wf(),
        ensures
            *final(self) == old(self).spec_run_timer(t),
            final(self).wf(),
            final(self).has_sweep == old(self).has_sweep,
    {
        if !self.triggered {
            return;
        }
        let mut left = t;
        while left > 0
            invariant
                self.wf(),
                self.triggered,
                self.has_sweep == old(self).has_sweep,
                self.spec_run_timer(left) == old(self).spec_run_timer(t),
            decreases left,
        {
            let period = if self.timer >= 1 { self.timer } else { 1 };
            let step: u64 = if left < period as u64 { left } else { period as u64 };
            self.timer = self.timer - step as u32;
            left = left - step;
            if self.timer == 0 {
                let ds = self.duty_step;
                assert(((ds + 1u8) as u8) & 7u8 == (ds + 1) % 8) by { lemma_u8_fields(); }
                self.duty_step = (ds + 1) & 7;
                let p = period_from_freq(self.freq);
                self.timer = if p >= 4 { p } else { 4 };
            }
        }
    }

    pub open spec fn spec_clock_length(self) -> SquareChannel {
        if self.length_enable && self.length > 0 {
            let l = (self.length - 1) as u8;
            SquareChannel { length: l, triggered: if l == 0 { false } else { self.triggered }, ..self }
        } else {
            self
        }
    }

    /// 256 Hz length clock: counts down and silences the channel at zero.
    pub fn clock_length(&mut self)
        requires
            old(self).wf(),
        ensures
            *final(self) == old(self).spec_clock_length(),
            final(self).wf(),
    {
        if self.length_enable && self.length > 0 {
            self.length = self.length - 1;
            if self.length == 0 {
                self.triggered = false;
            }
        }
    }

    pub open spec fn spec_clock_sweep(self) -> SquareChannel {
        if !self.has_sweep || !self.sweep_enabled || !self.triggered {
            self
        } else {
            let t = if self.sweep_timer > 0 { (self.sweep_timer - 1) as u8 } else { 0 };
            if t == 0 {
                let reload = if self.sweep_period != 0 { self.sweep_period } else { 8 };
                let s = SquareChannel { sweep_timer: reload, ..self };
                if self.sweep_period != 0 && self.sweep_shift != 0 {
                    let nf = spec_sweep_calc(self.sweep_shadow, self.sweep_shift, self.sweep_negate);
                    if nf > 2047 {
                        SquareChannel { triggered: false, ..s }
                    } else {
                        SquareChannel { freq: nf, sweep_shadow: nf, ..s }
                    }
                } else {
                    s
                }
            } else {
                SquareChannel { sweep_timer: t, ..self }
            }
        }
    }

    /// 128 Hz sweep clock: when the sweep timer runs out, recompute the frequency from the
    /// shadow register; overflow past 2047 silences the channel.
    pub fn clock_sweep(&mut self)
        requires
            old(self).wf(),
        ensures
            *final(self) == old(self).spec_clock_sweep(),
            final(self).wf(),
    {
        if !self.has_sweep || !self.sweep_enabled || !self.triggered {
            return;
        }
        let dec = self.sweep_period != 0;
        if self.sweep_timer > 0 {
            self.sweep_timer = self.sweep_timer - 1;
        }
        if self.sweep_timer == 0 {
            self.sweep_timer = if self.sweep_period != 0 { self.sweep_period } else { 8 };
            if dec && self.sweep_shift != 0 {
                let new_freq = sweep_calc(self.sweep_shadow, self.sweep_shift, self.sweep_negate);
                if new_freq > 2047 {
                    self.triggered = false;
                } else {
                    self.freq = new_freq;
                    self.sweep_shadow = new_freq;
                }
            }
        }
    }

    pub fn clock_envelope(&mut self)
        requires
            old(self).wf(),
        ensures
            *final(self) == (SquareChannel { env: old(self).env.spec_clock(), ..*old(self) }),
            final(self).wf(),
    {
        self.env.clock();
    }

    /// Digital output level (0–15): the envelope volume while the duty bit is high.
    pub open spec fn spec_level(self) -> u8 {
        if !self.triggered || duty_bit(self.duty_code as int, self.duty_step as int) == 0 {
            0
        } else {
            self.env.volume
        }
    }

    pub fn level(&self) -> (r: u8)
        requires
            self.wf(),
        ensures
            r == self.spec_level(),
    {
        if !self.triggered {
            return 0;
        }
        if duty_table(self.duty_code, self.duty_step) == 0 {
            0
        } else {
            self.env.current_volume()
        }
    }
}

/// Wave channel: plays the 32 4-bit samples of wave RAM.
#[derive(Debug, Clone, Copy)]
pub struct WaveChannel {
    pub len: u16,
    pub len_enable: bool,
    pub dac_on: bool,
    pub vol_code: u8,
    pub freq: u16,
    pub timer: u32,
    pub pos: usize,
    pub triggered: bool,
}

impl WaveChannel {
    pub open spec fn wf(self) -> bool {
        self.len <= 256 && self.vol_code < 4 && self.freq < 2048 && self.pos < 32
    }

    pub open spec fn spec_new() -> WaveChannel {
        WaveChannel {
            len: 0,
            len_enable: false,
            dac_on: false,
            vol_code: 0,
            freq: 0,
            timer: 0,
            pos: 0,
            triggered: false,
        }
    }

    pub fn new() -> (r: Self)
        ensures
            r == Self::spec_new(),
            r.wf(),
    {
        WaveChannel {
            len: 0,
            len_enable: false,
            dac_on: false,
            vol_code: 0,
            freq: 0,
            timer: 0,
            pos: 0,
            triggered: false,
        }
    }

    pub fn on(&self) -> (r: bool)
        ensures
            r == (self.triggered && self.dac_on),
    {
        self.triggered && self.dac_on
    }

    /// NR30 read-back: DAC power in bit 7.
    pub fn read_dac(&self) -> (r: u8)
        ensures
            r == if self.dac_on { 0xFFu8 } else { 0x7Fu8 },
    {
        assert(0x80u8 | 0x7Fu8 == 0xFFu8) by { lemma_u8_fields(); }
        if self.dac_on {
            0x80 | 0x7F
        } else {
            0x7F
        }
    }

    pub fn read_len(&self) -> (r: u8)
        ensures
            r == self.len % 256,
    {
        let low = self.len & 0xFF;
        assert(low == self.len % 256) by { lemma_u16_fields(); }
        low as u8
    }

    pub fn read_vol(&self) -> (r: u8)
        ensures
            r == self.vol_code << 5u8,
    {
        self.vol_code << 5
    }

    pub fn read_ctrl(&self) -> (r: u8)
        ensures
            r == if self.len_enable { 0xFFu8 } else { 0xBFu8 },
    {
        assert(0xBFu8 | 0x40u8 == 0xFFu8) by { lemma_u8_fields(); }
        if self.len_enable {
            0xBFu8 | 0x40
        } else {
            0xBF
        }
    }

    pub fn write_dac(&mut self, v: u8)
        ensures
            *final(self) == (WaveChannel {
                dac_on: v & 0x80 != 0,
                triggered: if v & 0x80 != 0 { old(self).triggered } else { false },
                ..*old(self)
            }),
            old(self).wf() ==> final(self).wf(),
    {
        self.dac_on = (v & 0x80) != 0;
        if !self.dac_on {
            self.triggered = false;
        }
    }

    /// NR31: length load (counter = 256 − value).
    pub fn write_len(&mut self, v: u8)
        ensures
            *final(self) == (WaveChannel { len: (256 - v) as u16, ..*old(self) }),
            old(self).wf() ==> final(self).wf(),
    {
        self.len = 256 - v as u16;
    }

    pub fn write_vol_code(&mut self, v: u8)
        ensures
            *final(self) == (WaveChannel { vol_code: (v / 32) % 4, ..*old(self) }),
            old(self).wf() ==> final(self).wf(),
    {
        assert((v >> 5u8) & 3u8 == (v / 32) % 4) by { lemma_u8_fields(); }
        self.vol_code = (v >> 5) & 3;
    }

    pub fn write_freq_low(&mut self, v: u8)
        ensures
            *final(self) == (WaveChannel {
                freq: ((old(self).freq / 256) % 8 * 256 + v) as u16,
                ..*old(self)
            }),
            old(self).wf() ==> final(self).wf(),
    {
        let f = self.freq;
        let w = v as u16;
        assert((f & 0x700u16) | w == (f / 256) % 8 * 256 + w) by { lemma_freq_fields(); }
        self.freq = (self.freq & 0x700) | (v as u16);
    }

    pub open spec fn spec_trigger(self) -> WaveChannel {
        if !self.dac_on {
            self
        } else {
            WaveChannel {
                triggered: true,
                timer: spec_wave_period(self.freq),
                len: if self.len == 0 { 256 } else { self.len },
                pos: 0,
                ..self
            }
        }
    }

    pub fn write_freq_high(&mut self, v: u8)
        requires
            old(self).wf(),
        ensures
            ({
                let s = WaveChannel {
                    freq: ((v % 8) as int * 256 + old(self).freq % 256) as u16,
                    len_enable: v & 0x40 != 0,
                    ..*old(self)
                };
                *final(self) == if v & 0x80 != 0 { s.spec_trigger() } else { s }
            }),
            final(self).wf(),
    {
        let f = self.freq;
        assert((f & 0xFFu16) | (((v & 7u8) as u16) << 8u16) == (v % 8) as u16 * 256 + f % 256)
            by { lemma_freq_high_bits(); }
        self.freq = (self.freq & 0xFF) | (((v & 7) as u16) << 8);
        self.len_enable = (v & 0x40) != 0;
        if (v & 0x80) != 0 {
            self.trigger();
        }
    }

    fn trigger(&mut self)
        requires
            old(self).wf(),
        ensures
            *final(self) == old(self).spec_trigger(),
            final(self).wf(),
    {
        if !self.dac_on {
            return;
        }
        self.triggered = true;
        self.timer = wave_period(self.freq);
        if self.len == 0 {
            self.len = 256;
        }
        self.pos = 0;
    }

    /// State after `left` more T-cycles: each timer expiry advances the sample position.
    pub open spec fn spec_run_timer(self, left: u64) -> WaveChannel
        decreases left,
    {
        if !self.triggered || !self.dac_on || left == 0 {
            self
        } else {
            let timer = if self.timer == 0 { spec_wave_period(self.freq) } else { self.timer };
            let step: u64 = if left < timer { left } else { timer as u64 };
            let t = (timer - step) as u32;
            let next = if t == 0 {
                WaveChannel { pos: ((self.pos + 1) % 32) as usize, timer: spec_wave_period(self.freq), ..self }
            } else {
                WaveChannel { timer: t, ..self }
            };
            next.spec_run_timer((left - step) as u64)
        }
    }

    pub fn step_timer(&mut self, t: u64)
        requires
            old(self).wf(),
        ensures
            *final(self) == old(self).spec_run_timer(t),
            final(self).wf(),
    {
        if !self.triggered || !self.dac_on {
            return;
        }
        let mut left = t;
        while left > 0
            invariant
                self.wf(),
                self.triggered,
                self.dac_on,
                self.spec_run_timer(left) == old(self).spec_run_timer(t),
            decreases left,
        {
            if self.timer == 0 {
                self.timer = wave_period(self.freq);
            }
            let step: u64 = if left < self.timer as u64 { left } else { self.timer as u64 };
            self.timer = self.timer - step as u32;
            left = left - step;
            if self.timer == 0 {
                let p = self.pos;
                assert(((p + 1usize) as usize) & 31usize == (p + 1) % 32) by { lemma_usize_fields(); }
                self.pos = (p + 1) & 31;
                self.timer = wave_period(self.freq);
            }
        }
    }

    pub open spec fn spec_clock_length(self) -> WaveChannel {
        if self.len_enable && self.len > 0 {
            let l = (self.len - 1) as u16;
            WaveChannel { len: l, triggered: if l == 0 { false } else { self.triggered }, ..self }
        } else {
            self
        }
    }

    pub fn clock_length(&mut self)
        requires
            old(self).wf(),
        ensures
            *final(self) == old(self).spec_clock_length(),
            final(self).wf(),
    {
        if self.len_enable && self.len > 0 {
            self.len = self.len - 1;
            if self.len == 0 {
                self.triggered = false;
            }
        }
    }

    /// Sample (0–15) at the current position of `wave_ram`, shifted right by the volume
    /// code (0 mutes), or 0 when the channel is off.
    pub open spec fn spec_level(self, wave_ram: Seq<u8>) -> u8 {
        if !(self.triggered && self.dac_on) {
            0
        } else {
            let b = wave_ram[(self.pos / 2) as int];
            let nibble = if self.pos % 2 == 0 { b / 16 } else { b % 16 };
            if self.vol_code == 0 {
                0
            } else if self.vol_code == 1 {
                nibble
            } else if self.vol_code == 2 {
                nibble / 2
            } else {
                nibble / 4
            }
        }
    }

    pub fn level(&self, wave_ram: &[u8; 16]) -> (r: u8)
        requires
            self.wf(),
        ensures
            r == self.spec_level(wave_ram@),
    {
        if !self.on() {
            return 0;
        }
        let b = wave_ram[self.pos / 2];
        assert(b >> 4u8 == b / 16) by { lemma_u8_fields(); }
        assert(b & 0xFu8 == b % 16) by { lemma_u8_fields(); }
        let nibble = if self.pos & 1 == 0 { b >> 4 } else { b & 0xF };
        let p = self.pos;
        assert((p & 1usize == 0) == (p % 2 == 0)) by { lemma_usize_fields(); }
        assert(nibble >> 1u8 == nibble / 2) by { lemma_u8_fields(); }
        assert(nibble >> 2u8 == nibble / 4) by { lemma_u8_fields(); }
        match self.vol_code {
            0 => 0,
            1 => nibble,
            2 => nibble >> 1,
            _ => nibble >> 2,
        }
    }
}

/// Noise channel: a 15-bit (or 7-bit) linear feedback shift register.
#[derive(Debug, Clone, Copy)]
pub struct NoiseChannel {
    pub len: u8,
    pub len_enable: bool,
    pub env: Envelope,
    pub clock_shift: u8,
    pub width_mode: bool,
    pub divisor_code: u8,
    pub timer: u32,
    pub lfsr: u16,
    pub triggered: bool,
}

/// LFSR after one shift: bit 14 takes the XOR of the two low bits; in 7-bit mode only the
/// low seven bits are kept.
pub open spec fn spec_lfsr_shift(lfsr: u16, width_mode: bool) -> u16 {
    let x = (lfsr & 1) ^ ((lfsr >> 1) & 1);
    let s = lfsr >> 1;
    let s = if x != 0 { s | 0x4000 } else { s };
    if width_mode {
        s & 0x7F
    } else {
        s
    }
}

impl NoiseChannel {
    pub open spec fn wf(self) -> bool {
        &&& self.len <= 64
        &&& self.clock_shift < 16
        &&& self.divisor_code < 8
        &&& self.env.wf()
        &&& self.triggered ==> self.timer >= 1
    }

    pub open spec fn spec_new() -> NoiseChannel {
        NoiseChannel {
            len: 0,
            len_enable: false,
            env: Envelope { initial_volume: 0, direction_up: false, period: 0, volume: 0, timer: 0 },
            clock_shift: 0,
            width_mode: false,
            divisor_code: 0,
            timer: 0,
            lfsr: 0x7FFF,
            triggered: false,
        }
    }

    pub fn new() -> (r: Self)
        ensures
            r == Self::spec_new(),
            r.wf(),
    {
        NoiseChannel {
            len: 0,
            len_enable: false,
            env: Envelope::new(),
            clock_shift: 0,
            width_mode: false,
            divisor_code: 0,
            timer: 0,
            lfsr: 0x7FFF,
            triggered: false,
        }
    }

    pub fn on(&self) -> (r: bool)
        ensures
            r == self.triggered,
    {
        self.triggered
    }

    pub fn read_len(&self) -> (r: u8)
        ensures
            r == self.len,
    {
        self.len
    }

    pub fn read_env(&self) -> (r: u8)
        ensures
            r == (self.env.initial_volume << 4u8) | (if self.env.direction_up { 0x08u8 } else { 0 })
                | self.env.period,
    {
        self.env.read_reg()
    }

    /// NR43 read-back: shift, width mode, divisor code.
    pub fn read_poly(&self) -> (r: u8)
        ensures
            r == (self.clock_shift << 4u8) | self.divisor_code | (if self.width_mode { 0x08u8 } else { 0 }),
    {
        let w: u8 = if self.width_mode { 0x08 } else { 0 };
        (self.clock_shift << 4) | self.divisor_code | w
    }

    pub fn read_ctrl(&self) -> (r: u8)
        ensures
            r == if self.len_enable { 0xFFu8 } else { 0xBFu8 },
    {
        assert(0xBFu8 | 0x40u8 == 0xFFu8) by { lemma_u8_fields(); }
        if self.len_enable {
            0xBFu8 | 0x40
        } else {
            0xBF
        }
    }

    pub fn write_len(&mut self, v: u8)
        ensures
            *final(self) == (NoiseChannel { len: (64 - v % 64) as u8, ..*old(self) }),
            old(self).wf() ==> final(self).wf(),
    {
        assert(v & 0x3Fu8 == v % 64) by { lemma_u8_fields(); }
        self.len = 64 - (v & 0x3F);
    }

    pub fn write_env(&mut self, v: u8)
        ensures
            *final(self) == (NoiseChannel {
                env: Envelope {
                    initial_volume: v / 16,
                    direction_up: v & 0x08 != 0,
                    period: v % 8,
                    ..old(self).env
                },
                ..*old(self)
            }),
            old(self).wf() ==> final(self).wf(),
    {
        self.env.write_reg(v);
    }

    pub fn write_poly(&mut self, v: u8)
        ensures
            *final(self) == (NoiseChannel {
                clock_shift: v / 16,
                width_mode: v & 0x08 != 0,
                divisor_code: v % 8,
                ..*old(self)
            }),
            old(self).wf() ==> final(self).wf(),
    {
        assert(v >> 4u8 == v / 16) by { lemma_u8_fields(); }
        assert(v & 7u8 == v % 8) by { lemma_u8_fields(); }
        self.clock_shift = v >> 4;
        self.width_mode = (v & 0x08) != 0;
        self.divisor_code = v & 7;
    }

    pub open spec fn spec_trigger(self) -> NoiseChannel {
        NoiseChannel {
            triggered: true,
            env: Envelope {
                volume: self.env.initial_volume,
                timer: if self.env.period != 0 { self.env.period } else { 8 },
                ..self.env
            },
            timer: spec_noise_period(self.divisor_code, self.clock_shift),
            lfsr: if self.width_mode { 0x7F } else { 0x7FFF },
            len: if self.len == 0 { 64 } else { self.len },
            ..self
        }
    }

    /// NR44: length enable and trigger (bit 7).
    pub fn write_ctrl(&mut self, v: u8)
        requires
            old(self).wf(),
        ensures
            ({
                let s = NoiseChannel { len_enable: v & 0x40 != 0, ..*old(self) };
                *final(self) == if v & 0x80 != 0 { s.spec_trigger() } else { s }
            }),
            final(self).wf(),
    {
        self.len_enable = (v & 0x40) != 0;
        if (v & 0x80) != 0 {
            self.trigger();
        }
    }

    fn trigger(&mut self)
        requires
            old(self).wf(),
        ensures
            *final(self) == old(self).spec_trigger(),
            final(self).wf(),
    {
        self.triggered = true;
        self.env.reload();
        self.timer = noise_period(self.divisor_code, self.clock_shift);
        self.lfsr = if self.width_mode { 0x7F } else { 0x7FFF };
        if self.len == 0 {
            self.len = 64;
        }
    }

    /// State after `left` more T-cycles: each timer expiry shifts the LFSR and reloads the
    /// timer (at least 2).
    pub open spec fn spec_run_timer(self, left: u64) -> NoiseChannel
        decreases left,
    {
        if !self.triggered || left == 0 {
            self
        } else {
            let period: u32 = if self.timer >= 1 { self.timer } else { 1 };
            let step: u64 = if left < period { left } else { period as u64 };
            let t = (self.timer - step) as u32;
            let next = if t == 0 {
                NoiseChannel {
                    lfsr: spec_lfsr_shift(self.lfsr, self.width_mode),
                    timer: spec_noise_period(self.divisor_code, self.clock_shift),
                    ..self
                }
            } else {
                NoiseChannel { timer: t, ..self }
            };
            next.spec_run_timer((left - step) as u64)
        }
    }

    pub fn step_timer(&mut self, t: u64)
        requires
            old(self).wf(),
        ensures
            *final(self) == old(self).spec_run_timer(t),
            final(self).wf(),
    {
        if !self.triggered {
            return;
        }
        let mut left = t;
        while left > 0
            invariant
                self.wf(),
                self.triggered,
                self.spec_run_timer(left) == old(self).spec_run_timer(t),
            decreases left,
        {
            let period = if self.timer >= 1 { self.timer } else { 1 };
            let step: u64 = if left < period as u64 { left } else { period as u64 };
            self.timer = self.timer - step as u32;
            left = left - step;
            if self.timer == 0 {
                let l = self.lfsr;
                let xor_bit = (l & 1) ^ ((l >> 1) & 1);
                let mut s = l >> 1;
                if xor_bit != 0 {
                    s = s | 0x4000;
                }
                if self.width_mode {
                    s = s & 0x7F;
                }
                self.lfsr = s;
                let p = noise_period(self.divisor_code, self.clock_shift);
                self.timer = if p >= 2 { p } else { 2 };
            }
        }
    }

    pub open spec fn spec_clock_length(self) -> NoiseChannel {
        if self.len_enable && self.len > 0 {
            let l = (self.len - 1) as u8;
            NoiseChannel { len: l, triggered: if l == 0 { false } else { self.triggered }, ..self }
        } else {
            self
        }
    }

    pub fn clock_length(&mut self)
        requires
            old(self).wf(),
        ensures
            *final(self) == old(self).spec_clock_length(),
            final(self).wf(),
    {
        if self.len_enable && self.len > 0 {
            self.len = self.len - 1;
            if self.len == 0 {
                self.triggered = false;
            }
        }
    }

    pub fn clock_envelope(&mut self)
        requires
            old(self).wf(),
        ensures
            *final(self) == (NoiseChannel { env: old(self).env.spec_clock(), ..*old(self) }),
            final(self).wf(),
    {
        self.env.clock();
    }

    /// Digital output level (0–15): the envelope volume while LFSR bit 0 is clear.
    pub open spec fn spec_level(self) -> u8 {
        if !self.triggered || self.lfsr & 1 != 0 {
            0
        } else {
            self.env.volume
        }
    }

    pub fn level(&self) -> (r: u8)
        ensures
            r == self.spec_level(),
    {
        if !self.triggered {
            return 0;
        }
        if (self.lfsr & 1) != 0 {
            0
        } else {
            self.env.current_volume()
        }
    }
}

/// One output sample before mixing: the four channels' digital levels (channels 1, 2 and 4
/// out of 15, channel 3 out of 16) with the panning (NR51) and master volume (NR50) in force.
#[derive(Debug, Clone, Copy, PartialEq, Eq, Structural)]
pub struct SampleFrame {
    pub ch1: u8,
    pub ch2: u8,
    pub ch3: u8,
    pub ch4: u8,
    pub nr50: u8,
    pub nr51: u8,
}

/// The frame a powered-off APU emits.
pub open spec fn silent_frame() -> SampleFrame {
    SampleFrame { ch1: 0, ch2: 0, ch3: 0, ch4: 0, nr50: 0, nr51: 0 }
}

#[derive(Debug, Clone)]
pub struct Apu {
    pub enabled: bool,
    /// NR50 master volume.
    pub nr50: u8,
    /// NR51 panning.
    pub nr51: u8,
    /// NR52 (only bit 7 is stored; the channel bits are computed).
    pub nr52: u8,
    pub ch1: SquareChannel,
    pub ch2: SquareChannel,
    pub ch3: WaveChannel,
    pub ch4: NoiseChannel,
    pub wave_ram: [u8; 16],
    pub fs_cycles: u64,
    pub fs_step: u8,
    /// Playback sample rate (Hz), matching the output device.
    pub playback_hz: u32,
    /// Fractional sample timing: `accum += t * playback_hz`; a sample is due per
    /// `T_CYCLES_PER_SEC`.
    pub sample_accum: u64,
    pub pending: Vec<SampleFrame>,
    /// Raw register shadow for reads.
    pub regs: [u8; 0x30],
}

impl Default for Apu {
    /// Powered-off APU with reset channels and the default playback rate.
    fn default() -> (r: Self)
        ensures
            r.wf(),
            !r.enabled && r.nr50 == 0 && r.nr51 == 0 && r.nr52 == 0,
            r.ch1 == SquareChannel::spec_new(true),
            r.ch2 == SquareChannel::spec_new(false),
            r.ch3 == WaveChannel::spec_new(),
            r.ch4 == NoiseChannel::spec_new(),
            r.fs_cycles == 0 && r.fs_step == 0 && r.sample_accum == 0,
            r.playback_hz == OUTPUT_SAMPLE_RATE,
            r.pending@.len() == 0,
            forall|i: int| 0 <= i < 16 ==> r.wave_ram@[i] == 0,
            forall|i: int| 0 <= i < 0x30 ==> r.regs@[i] == 0,
    {
        Apu {
            enabled: false,
            nr50: 0,
            nr51: 0,
            nr52: 0,
            ch1: SquareChannel::new(true),
            ch2: SquareChannel::new(false),
            ch3: WaveChannel::new(),
            ch4: NoiseChannel::new(),
            wave_ram: [0; 16],
            fs_cycles: 0,
            fs_step: 0,
            playback_hz: OUTPUT_SAMPLE_RATE,
            sample_accum: 0,
            pending: Vec::new(),
            regs: [0; 0x30],
        }
    }
}

impl Apu {
    /// Channel and frame-sequencer invariants.
    pub open spec fn channels_wf(self) -> bool {
        &&& self.ch1.wf() && self.ch2.wf() && self.ch3.wf() && self.ch4.wf()
        &&& !self.ch2.has_sweep
        &&& self.fs_step < 8
    }

    pub open spec fn wf(self) -> bool {
        &&& self.channels_wf()
        &&& self.fs_cycles < FS_PERIOD
    }


    /// The channel levels and mixer settings right now.
    pub open spec fn spec_frame(self) -> SampleFrame {
        SampleFrame {
            ch1: self.ch1.spec_level(),
            ch2: self.ch2.spec_level(),
            ch3: self.ch3.spec_level(self.wave_ram@),
            ch4: self.ch4.spec_level(),
            nr50: self.nr50,
            nr51: self.nr51,
        }
    }

    fn current_frame(&self) -> (r: SampleFrame)
        requires
            self.channels_wf(),
        ensures
            r == self.spec_frame(),
    {
        SampleFrame {
            ch1: self.ch1.level(),
            ch2: self.ch2.level(),
            ch3: self.ch3.level(&self.wave_ram),
            ch4: self.ch4.level(),
            nr50: self.nr50,
            nr51: self.nr51,
        }
    }

    /// One frame-sequencer step: length clocks on even steps, sweep on 2 and 6, envelopes
    /// on 7.
    pub open spec fn spec_tick(self) -> Apu {
        let s = self.fs_step;
        let length = s == 0 || s == 2 || s == 4 || s == 6;
        let a = Apu { fs_step: ((s + 1) % 8) as u8, ..self };
        let a = if length {
            Apu {
                ch1: a.ch1.spec_clock_length(),
                ch2: a.ch2.spec_clock_length(),
                ch3: a.ch3.spec_clock_length(),
                ch4: a.ch4.spec_clock_length(),
                ..a
            }
        } else {
            a
        };
        let a = if s == 2 || s == 6 {
            Apu { ch1: a.ch1.spec_clock_sweep(), ..a }
        } else {
            a
        };
        if s == 7 {
            Apu {
                ch1: SquareChannel { env: a.ch1.env.spec_clock(), ..a.ch1 },
                ch2: SquareChannel { env: a.ch2.env.spec_clock(), ..a.ch2 },
                ch4: NoiseChannel { env: a.ch4.env.spec_clock(), ..a.ch4 },
                ..a
            }
        } else {
            a
        }
    }

    pub open spec fn spec_ticks(self, n: nat) -> Apu
        decreases n,
    {
        if n == 0 {
            self
        } else {
            self.spec_tick().spec_ticks((n - 1) as nat)
        }
    }

    fn tick_frame_sequencer(&mut self)
        requires
            old(self).channels_wf(),
        ensures
            *final(self) == old(self).spec_tick(),
            final(self).channels_wf(),
    {
        let s = self.fs_step;
        assert(((s + 1u8) as u8) & 7u8 == (s + 1) % 8) by { lemma_u8_fields(); }
        self.fs_step = (s + 1) & 7;
        let length = s == 0 || s == 2 || s == 4 || s == 6;
        let sweep = s == 2 || s == 6;
        let env = s == 7;
        if length {
            self.ch1.clock_length();
            self.ch2.clock_length();
            self.ch3.clock_length();
            self.ch4.clock_length();
        }
        if sweep {
            self.ch1.clock_sweep();
        }
        if env {
            self.ch1.clock_envelope();
            self.ch2.clock_envelope();
            self.ch4.clock_envelope();
        }
    }

    /// Sample-clock accumulator after `t` more T-cycles (saturating).
    pub open spec fn accum_after(self, t: u32) -> u64 {
        let add = t as int * self.playback_hz as int;
        if self.sample_accum + add > u64::MAX {
            u64::MAX
        } else {
            (self.sample_accum + add) as u64
        }
    }

    /// State after `step(t)`: with the APU off, only the sample clock runs and silence is
    /// emitted; otherwise the frame sequencer ticks once per 8192 T-cycles, the channel timers
    /// run, and one frame of the resulting levels is emitted per sample due.
    pub open spec fn spec_step(self, t: u32) -> Apu {
        let total = self.accum_after(t);
        let n = total / T_CYCLES_PER_SEC;
        if !self.enabled {
            Apu {
                sample_accum: (total % T_CYCLES_PER_SEC) as u64,
                pending: self.pending,
                ..self
            }
        } else {
            let fs_total: int = self.fs_cycles + t;
            let a = Apu { fs_cycles: (fs_total % (FS_PERIOD as int)) as u64, ..self }.spec_ticks(
                (fs_total / (FS_PERIOD as int)) as nat,
            );
            let a = Apu {
                ch1: a.ch1.spec_run_timer(t as u64),
                ch2: a.ch2.spec_run_timer(t as u64),
                ch3: a.ch3.spec_run_timer(t as u64),
                ch4: a.ch4.spec_run_timer(t as u64),
                ..a
            };
            Apu { sample_accum: (total % T_CYCLES_PER_SEC) as u64, ..a }
        }
    }

    /// Frames `step(t)` appends to `pending`.
    pub open spec fn step_frames(self, t: u32) -> Seq<SampleFrame> {
        let n = self.accum_after(t) / T_CYCLES_PER_SEC;
        if !self.enabled {
            Seq::new(n as nat, |i: int| silent_frame())
        } else {
            Seq::new(n as nat, |i: int| self.spec_step(t).spec_frame())
        }
    }

    /// Advances the APU by `t_cycles` T-states and queues the samples that fall due.
    pub fn step(&mut self, t_cycles: u32)
        requires
            old(self).wf(),
        ensures
            final(self).wf(),
            *final(self) == (Apu { pending: final(self).pending, ..old(self).spec_step(t_cycles) }),
            final(self).pending@ == old(self).pending@ + old(self).step_frames(t_cycles),
    {
        let ghost orig = *self;
        let t = t_cycles as u64;
        let hz = self.playback_hz as u64;
        assert(t * hz <= u64::MAX) by (nonlinear_arith)
            requires t <= u32::MAX, hz <= u32::MAX;
        let add = t * hz;
        let total = if self.sample_accum <= u64::MAX - add { self.sample_accum + add } else { u64::MAX };
        if !self.enabled {
            self.sample_accum = total;
            self.emit(total, SampleFrame { ch1: 0, ch2: 0, ch3: 0, ch4: 0, nr50: 0, nr51: 0 });
            assert(self.pending@ =~= orig.pending@ + orig.step_frames(t_cycles));
            return;
        }
        self.fs_cycles = self.fs_cycles + t;
        let ghost fs_total = self.fs_cycles;
        let ghost base = *self;
        let mut done: u64 = 0;
        while self.fs_cycles >= FS_PERIOD
            invariant
                base.channels_wf(),
                self.fs_cycles + done * FS_PERIOD == fs_total,
                (Apu { fs_cycles: self.fs_cycles, ..*self }) == (Apu { fs_cycles: self.fs_cycles, ..base.spec_ticks(done as nat) }),
                self.channels_wf(),
                fs_total == orig.fs_cycles + t_cycles,
                done <= fs_total / FS_PERIOD,
            decreases self.fs_cycles,
        {
            self.fs_cycles = self.fs_cycles - FS_PERIOD;
            proof {
                lemma_ticks_step(base, done as nat);
            }
            self.tick_frame_sequencer();
            done = done + 1;
        }
        proof {
            vstd::arithmetic::div_mod::lemma_fundamental_div_mod_converse(
                fs_total as int,
                FS_PERIOD as int,
                done as int,
                self.fs_cycles as int,
            );
        }
        assert(*self == Apu { fs_cycles: (fs_total % FS_PERIOD) as u64, ..orig }.spec_ticks(done as nat)) by {
            lemma_ticks_fs_cycles(base, (fs_total % FS_PERIOD) as u64, done as nat);
        }
        assert(self.pending == orig.pending) by {
            lemma_ticks_fs_cycles(base, (fs_total % FS_PERIOD) as u64, done as nat);
        }
        self.ch1.step_timer(t);
        self.ch2.step_timer(t);
        self.ch3.step_timer(t);
        self.ch4.step_timer(t);
        self.sample_accum = total;
        let frame = self.current_frame();
        assert((Apu { pending: self.pending, sample_accum: total, ..orig.spec_step(t_cycles) }) == *self);
        assert(frame == orig.spec_step(t_cycles).spec_frame());
        assert(total == orig.accum_after(t_cycles));
        self.emit(total, frame);
        assert(self.pending@ =~= orig.pending@ + orig.step_frames(t_cycles));
    }

    /// Drains the sample accumulator `total`, queueing `frame` once per sample due.
    fn emit(&mut self, total: u64, frame: SampleFrame)
        requires
            old(self).sample_accum == total,
        ensures
            *final(self) == (Apu {
                sample_accum: (total % T_CYCLES_PER_SEC) as u64,
                pending: final(self).pending,
                ..*old(self)
            }),
            final(self).pending@ == old(self).pending@ + Seq::new(
                (total / T_CYCLES_PER_SEC) as nat,
                |i: int| frame,
            ),
    {
        let ghost p0 = self.pending@;
        let mut n: u64 = 0;
        while self.sample_accum >= T_CYCLES_PER_SEC
            invariant
                self.sample_accum + n * T_CYCLES_PER_SEC == total,
                self.pending@ == p0 + Seq::new(n as nat, |i: int| frame),
                *self == (Apu { sample_accum: self.sample_accum, pending: self.pending, ..*old(self) }),
            decreases self.sample_accum,
        {
            self.sample_accum = self.sample_accum - T_CYCLES_PER_SEC;
            self.pending.push(frame);
            n = n + 1;
            assert(self.pending@ =~= p0 + Seq::new(n as nat, |i: int| frame));
        }
        proof {
            vstd::arithmetic::div_mod::lemma_fundamental_div_mod_converse(
                total as int,
                T_CYCLES_PER_SEC as int,
                n as int,
                self.sample_accum as int,
            );
        }
    }

    /// Matches emulation audio pacing to the output device rate (at least 4000 Hz), keeping
    /// the fractional sample phase.
    pub fn set_playback_sample_rate(&mut self, hz: u32)
        ensures
            ({
                let new = if hz >= 4000 { hz } else { 4000u32 };
                let old_hz = old(self).playback_hz;
                let accum = if old_hz != 0 && old_hz != new {
                    let m = old(self).sample_accum as int * new as int;
                    ((if m > u64::MAX { u64::MAX as int } else { m }) / old_hz as int) as u64
                } else {
                    old(self).sample_accum
                };
                *final(self) == (Apu { playback_hz: new, sample_accum: accum, pending: final(self).pending, ..*old(self) })
                    && final(self).pending@ == old(self).pending@
            }),
    {
        let hz = if hz >= 4000 { hz } else { 4000 };
        let old_hz = self.playback_hz as u64;
        let new = hz as u64;
        if old_hz != 0 && old_hz != new {
            let acc = self.sample_accum;
            let m = if acc <= u64::MAX / new {
                assert(acc * new <= u64::MAX) by (nonlinear_arith)
                    requires acc <= u64::MAX / new, new > 0;
                acc * new
            } else {
                assert(acc * new > u64::MAX) by (nonlinear_arith)
                    requires acc > u64::MAX / new, new > 0;
                u64::MAX
            };
            self.sample_accum = m / old_hz;
        }
        self.playback_hz = hz;
    }

    /// Drains the queued sample frames.
    pub fn take_pending_frames(&mut self) -> (r: Vec<SampleFrame>)
        ensures
            r@ == old(self).pending@,
            final(self).pending@.len() == 0,
            *final(self) == (Apu { pending: final(self).pending, ..*old(self) }),
    {
        let mut out: Vec<SampleFrame> = Vec::new();
        std::mem::swap(&mut out, &mut self.pending);
        out
    }
}

impl Apu {
    /// Register value read at `addr` in `FF10–FF3F`.
    pub open spec fn spec_read(self, addr: u16) -> u8 {
        if 0xFF30 <= addr <= 0xFF3F {
            if !self.enabled {
                0xFF
            } else {
                self.wave_ram@[addr - 0xFF30]
            }
        } else if !self.enabled {
            if addr == 0xFF26 {
                self.nr52 & 0x70
            } else {
                0xFF
            }
        } else if addr == 0xFF10 {
            self.ch1.sweep | 0x80
        } else if addr == 0xFF11 {
            ((self.ch1.duty_code as u8) << 6u8) | self.ch1.length
        } else if addr == 0xFF12 || addr == 0xFF17 || addr == 0xFF21 {
            let e = if addr == 0xFF12 {
                self.ch1.env
            } else if addr == 0xFF17 {
                self.ch2.env
            } else {
                self.ch4.env
            };
            (e.initial_volume << 4u8) | (if e.direction_up { 0x08u8 } else { 0 }) | e.period
        } else if addr == 0xFF13 || addr == 0xFF18 || addr == 0xFF1D {
            0xFF
        } else if addr == 0xFF14 {
            if self.ch1.length_enable { 0xFF } else { 0xBF }
        } else if addr == 0xFF16 {
            ((self.ch2.duty_code as u8) << 6u8) | self.ch2.length
        } else if addr == 0xFF19 {
            if self.ch2.length_enable { 0xFF } else { 0xBF }
        } else if addr == 0xFF1A {
            if self.ch3.dac_on { 0xFF } else { 0x7F }
        } else if addr == 0xFF1B {
            (self.ch3.len % 256) as u8
        } else if addr == 0xFF1C {
            self.ch3.vol_code << 5u8
        } else if addr == 0xFF1E {
            if self.ch3.len_enable { 0xFF } else { 0xBF }
        } else if addr == 0xFF20 {
            self.ch4.len
        } else if addr == 0xFF22 {
            (self.ch4.clock_shift << 4u8) | self.ch4.divisor_code | (if self.ch4.width_mode { 0x08u8 } else { 0 })
        } else if addr == 0xFF23 {
            if self.ch4.len_enable { 0xFF } else { 0xBF }
        } else if addr == 0xFF24 {
            self.nr50 | 0x88
        } else if addr == 0xFF25 {
            self.nr51
        } else if addr == 0xFF26 {
            (self.nr52 & 0xF0) | (if self.ch1.triggered { 1u8 } else { 0 }) | (if self.ch2.triggered { 2u8 } else { 0 })
                | (if self.ch3.triggered && self.ch3.dac_on { 4u8 } else { 0 }) | (if self.ch4.triggered { 8u8 } else { 0 })
        } else if addr - 0xFF10 < 0x30 {
            self.regs@[addr - 0xFF10]
        } else {
            0xFF
        }
    }

    pub fn read(&self, addr: u16) -> (r: u8)
        requires
            addr >= 0xFF10,
            self.wf(),
        ensures
            r == self.spec_read(addr),
    {
        let i = (addr - 0xFF10) as usize;
        if addr >= 0xFF30 && addr <= 0xFF3F {
            let o = (addr - 0xFF30) as usize;
            if !self.enabled {
                return 0xFF;
            }
            return self.wave_ram[o];
        }
        if !self.enabled {
            return if addr == 0xFF26 { self.nr52 & 0x70 } else { 0xFF };
        }
        match addr {
            0xFF10 => self.ch1.sweep_read() | 0x80,
            0xFF11 => self.ch1.len_duty_read(),
            0xFF12 => self.ch1.env.read_reg(),
            0xFF13 => 0xFF,
            0xFF14 => self.ch1.control_read(),
            0xFF16 => self.ch2.len_duty_read(),
            0xFF17 => self.ch2.env.read_reg(),
            0xFF18 => 0xFF,
            0xFF19 => self.ch2.control_read(),
            0xFF1A => self.ch3.read_dac(),
            0xFF1B => self.ch3.read_len(),
            0xFF1C => self.ch3.read_vol(),
            0xFF1D => 0xFF,
            0xFF1E => self.ch3.read_ctrl(),
            0xFF20 => self.ch4.read_len(),
            0xFF21 => self.ch4.read_env(),
            0xFF22 => self.ch4.read_poly(),
            0xFF23 => self.ch4.read_ctrl(),
            0xFF24 => self.nr50 | 0x88,
            0xFF25 => self.nr51,
            0xFF26 => {
                let b1: u8 = if self.ch1.on() { 1 } else { 0 };
                let b2: u8 = if self.ch2.on() { 2 } else { 0 };
                let b3: u8 = if self.ch3.on() { 4 } else { 0 };
                let b4: u8 = if self.ch4.on() { 8 } else { 0 };
                (self.nr52 & 0xF0) | b1 | b2 | b3 | b4
            },
            _ => if i < 0x30 { self.regs[i] } else { 0xFF },
        }
    }

    /// State after the CPU writes `v` to `addr` in `FF10–FF3F`.
    pub open spec fn spec_write(self, addr: u16, v: u8) -> Apu {
        let i = addr - 0xFF10;
        let a = if i < 0x30 {
            Apu { regs: vstd::array::spec_array_update(self.regs, i, v), ..self }
        } else {
            self
        };
        if 0xFF30 <= addr <= 0xFF3F {
            Apu { wave_ram: vstd::array::spec_array_update(a.wave_ram, addr - 0xFF30, v), ..a }
        } else if !a.enabled && addr != 0xFF26 {
            a
        } else if addr <= 0xFF19 {
            a.spec_write_square_port(addr, v)
        } else if addr <= 0xFF1E {
            a.spec_write_wave_port(addr, v)
        } else {
            a.spec_write_noise_control_port(addr, v)
        }
    }

    /// Write to a square-channel port (`FF10–FF19`).
    pub open spec fn spec_write_square_port(self, addr: u16, v: u8) -> Apu {
        let a = self;
        if addr == 0xFF10 {
            let c = a.ch1;
            Apu {
                ch1: SquareChannel {
                    sweep: v,
                    sweep_period: (v / 16) % 8,
                    sweep_negate: v & 0x08 != 0,
                    sweep_shift: v % 8,
                    sweep_enabled: c.has_sweep && v % 8 != 0 && (v / 16) % 8 != 0,
                    ..c
                },
                ..a
            }
        } else if addr == 0xFF11 || addr == 0xFF16 {
            let c = if addr == 0xFF11 { a.ch1 } else { a.ch2 };
            let c = SquareChannel { duty_code: ((v / 64) % 4) as usize, length: (64 - v % 64) as u8, ..c };
            if addr == 0xFF11 { Apu { ch1: c, ..a } } else { Apu { ch2: c, ..a } }
        } else if addr == 0xFF12 || addr == 0xFF17 {
            let c = if addr == 0xFF12 { a.ch1 } else { a.ch2 };
            let c = SquareChannel {
                env: Envelope { initial_volume: v / 16, direction_up: v & 0x08 != 0, period: v % 8, ..c.env },
                ..c
            };
            if addr == 0xFF12 { Apu { ch1: c, ..a } } else { Apu { ch2: c, ..a } }
        } else if addr == 0xFF13 || addr == 0xFF18 {
            let c = if addr == 0xFF13 { a.ch1 } else { a.ch2 };
            let c = SquareChannel { freq: ((c.freq / 256) % 8 * 256 + v) as u16, ..c };
            if addr == 0xFF13 { Apu { ch1: c, ..a } } else { Apu { ch2: c, ..a } }
        } else if addr == 0xFF14 || addr == 0xFF19 {
            let c = if addr == 0xFF14 { a.ch1 } else { a.ch2 };
            let c = SquareChannel {
                freq: ((v % 8) as int * 256 + c.freq % 256) as u16,
                length_enable: v & 0x40 != 0,
                ..c
            };
            let c = if v & 0x80 != 0 { c.spec_trigger() } else { c };
            if addr == 0xFF14 { Apu { ch1: c, ..a } } else { Apu { ch2: c, ..a } }
        } else {
            a
        }
    }

    /// Write to a wave-channel port (`FF1A–FF1E`).
    pub open spec fn spec_write_wave_port(self, addr: u16, v: u8) -> Apu {
        let a = self;
        if addr == 0xFF1A {
            Apu {
                ch3: WaveChannel {
                    dac_on: v & 0x80 != 0,
                    triggered: if v & 0x80 != 0 { a.ch3.triggered } else { false },
                    ..a.ch3
                },
                ..a
            }
        } else if addr == 0xFF1B {
            Apu { ch3: WaveChannel { len: (256 - v) as u16, ..a.ch3 }, ..a }
        } else if addr == 0xFF1C {
            Apu { ch3: WaveChannel { vol_code: (v / 32) % 4, ..a.ch3 }, ..a }
        } else if addr == 0xFF1D {
            Apu { ch3: WaveChannel { freq: ((a.ch3.freq / 256) % 8 * 256 + v) as u16, ..a.ch3 }, ..a }
        } else if addr == 0xFF1E {
            let c = WaveChannel {
                freq: ((v % 8) as int * 256 + a.ch3.freq % 256) as u16,
                len_enable: v & 0x40 != 0,
                ..a.ch3
            };
            Apu { ch3: if v & 0x80 != 0 { c.spec_trigger() } else { c }, ..a }
        } else {
            a
        }
    }

    /// Write to a noise-channel or control port (`FF20–FF26`).
    pub open spec fn spec_write_noise_control_port(self, addr: u16, v: u8) -> Apu {
        let a = self;
        if addr == 0xFF20 {
            Apu { ch4: NoiseChannel { len: (64 - v % 64) as u8, ..a.ch4 }, ..a }
        } else if addr == 0xFF21 {
            Apu {
                ch4: NoiseChannel {
                    env: Envelope { initial_volume: v / 16, direction_up: v & 0x08 != 0, period: v % 8, ..a.ch4.env },
                    ..a.ch4
                },
                ..a
            }
        } else if addr == 0xFF22 {
            Apu {
                ch4: NoiseChannel { clock_shift: v / 16, width_mode: v & 0x08 != 0, divisor_code: v % 8, ..a.ch4 },
                ..a
            }
        } else if addr == 0xFF23 {
            let c = NoiseChannel { len_enable: v & 0x40 != 0, ..a.ch4 };
            Apu { ch4: if v & 0x80 != 0 { c.spec_trigger() } else { c }, ..a }
        } else if addr == 0xFF24 {
            Apu { nr50: v, ..a }
        } else if addr == 0xFF25 {
            Apu { nr51: v, ..a }
        } else if addr == 0xFF26 {
            let on = v & 0x80 != 0;
            let b = if on && !a.enabled {
                Apu { fs_cycles: 0, fs_step: 0, ..a }
            } else if !on && a.enabled {
                a.spec_cleared()
            } else {
                a
            };
            Apu { enabled: on, nr52: (b.nr52 & 0xF0) | (v & 0x80), ..b }
        } else {
            a
        }
    }

    /// Power-off: mixer, channels, wave RAM and register shadow back to zero.
    pub open spec fn spec_cleared(self) -> Apu {
        Apu {
            nr50: 0,
            nr51: 0,
            ch1: SquareChannel::spec_new(true),
            ch2: SquareChannel::spec_new(false),
            ch3: WaveChannel::spec_new(),
            ch4: NoiseChannel::spec_new(),
            wave_ram: vstd::array::spec_array_fill_for_copy_type(0u8),
            regs: vstd::array::spec_array_fill_for_copy_type(0u8),
            ..self
        }
    }

    fn clear_all_regs(&mut self)
        ensures
            *final(self) == old(self).spec_cleared(),
    {
        self.nr50 = 0;
        self.nr51 = 0;
        self.ch1 = SquareChannel::new(true);
        self.ch2 = SquareChannel::new(false);
        self.ch3 = WaveChannel::new();
        self.ch4 = NoiseChannel::new();
        self.wave_ram = [0; 16];
        self.regs = [0; 0x30];
    }

    pub fn write(&mut self, addr: u16, v: u8)
        requires
            addr >= 0xFF10,
            old(self).wf(),
        ensures
            *final(self) == old(self).spec_write(addr, v),
            final(self).wf(),
    {
        let i = (addr - 0xFF10) as usize;
        if i < 0x30 {
            self.regs[i] = v;
        }
        if addr >= 0xFF30 && addr <= 0xFF3F {
            let o = (addr - 0xFF30) as usize;
            self.wave_ram[o] = v;
            return;
        }
        if !self.enabled && addr != 0xFF26 {
            return;
        }
        if addr <= 0xFF19 {
            self.write_square_port(addr, v);
        } else if addr <= 0xFF1E {
            self.write_wave_port(addr, v);
        } else {
            self.write_noise_control_port(addr, v);
        }
    }

    fn write_square_port(&mut self, addr: u16, v: u8)
        requires
            old(self).wf(),
            0xFF10 <= addr <= 0xFF19,
        ensures
            *final(self) == old(self).spec_write_square_port(addr, v),
            final(self).wf(),
    {
        match addr {
            0xFF10 => self.ch1.write_sweep(v),
            0xFF11 => self.ch1.write_len_duty(v),
            0xFF12 => self.ch1.env.write_reg(v),
            0xFF13 => self.ch1.write_freq_low(v),
            0xFF14 => self.ch1.write_freq_high(v),
            0xFF16 => self.ch2.write_len_duty(v),
            0xFF17 => self.ch2.env.write_reg(v),
            0xFF18 => self.ch2.write_freq_low(v),
            0xFF19 => self.ch2.write_freq_high(v),
            _ => {},
        }
    }

    fn write_wave_port(&mut self, addr: u16, v: u8)
        requires
            old(self).wf(),
            0xFF1A <= addr <= 0xFF1E,
        ensures
            *final(self) == old(self).spec_write_wave_port(addr, v),
            final(self).wf(),
    {
        match addr {
            0xFF1A => self.ch3.write_dac(v),
            0xFF1B => self.ch3.write_len(v),
            0xFF1C => self.ch3.write_vol_code(v),
            0xFF1D => self.ch3.write_freq_low(v),
            _ => self.ch3.write_freq_high(v),
        }
    }

    fn write_noise_control_port(&mut self, addr: u16, v: u8)
        requires
            old(self).wf(),
            0xFF1F <= addr,
        ensures
            *final(self) == old(self).spec_write_noise_control_port(addr, v),
            final(self).wf(),
    {
        match addr {
            0xFF20 => self.ch4.write_len(v),
            0xFF21 => self.ch4.write_env(v),
            0xFF22 => self.ch4.write_poly(v),
            0xFF23 => self.ch4.write_ctrl(v),
            0xFF24 => self.nr50 = v,
            0xFF25 => self.nr51 = v,
            0xFF26 => {
                let on = (v & 0x80) != 0;
                if on && !self.enabled {
                    self.fs_cycles = 0;
                    self.fs_step = 0;
                }
                if !on && self.enabled {
                    self.clear_all_regs();
                }
                self.enabled = on;
                self.nr52 = (self.nr52 & 0xF0) | (v & 0x80);
            },
            _ => {},
        }
    }
}

proof fn lemma_ticks_step(a: Apu, n: nat)
    ensures
        a.spec_ticks(n + 1) == a.spec_ticks(n).spec_tick(),
    decreases n,
{
    reveal_with_fuel(Apu::spec_ticks, 2);
    if n > 0 {
        lemma_ticks_step(a.spec_tick(), (n - 1) as nat);
    }
}

/// Frame-sequencer ticks do not look at or change `fs_cycles`.
proof fn lemma_ticks_fs_cycles(a: Apu, fs: u64, n: nat)
    ensures
        (Apu { fs_cycles: fs, ..a.spec_ticks(n) }) == (Apu { fs_cycles: fs, ..a }).spec_ticks(n),
        a.spec_ticks(n).pending == a.pending,
    decreases n,
{
    if n > 0 {
        lemma_ticks_fs_cycles(a.spec_tick(), fs, (n - 1) as nat);
    }
}

/// Powering the APU off through NR52 makes every sound register but NR52 and wave RAM read
/// as `FF`.
pub proof fn lemma_power_off_reads(a: Apu, v: u8, addr: u16)
    requires
        v < 0x80,
        0xFF10 <= addr < 0xFF30,
        addr != 0xFF26,
    ensures
        !a.spec_write(0xFF26, v).enabled,
        a.spec_write(0xFF26, v).spec_read(addr) == 0xFF,
{
    assert(v & 0x80u8 == 0) by { lemma_u8_fields(); }
}

} // verus!
