//! The five sound channels and their envelope and sweep units.

use vstd::prelude::*;
use crate::bits;

verus! {

/// Length counter values.
pub const LENGTH_TABLE: [u8; 32] = [
    10, 254, 20, 2, 40, 4, 80, 6, 160, 8, 60, 10, 14, 12, 26, 14,
    12, 16, 24, 18, 48, 20, 96, 22, 192, 24, 72, 26, 16, 28, 32, 30,
];

/// Waveforms of the pulse channels: 12.5%, 25%, 50% and inverted 25% duty.
pub const DUTY_TABLE: [[u8; 8]; 4] = [
    [0, 1, 0, 0, 0, 0, 0, 0],
    [0, 1, 1, 0, 0, 0, 0, 0],
    [0, 1, 1, 1, 1, 0, 0, 0],
    [1, 0, 0, 1, 1, 1, 1, 1],
];

/// Waveform of the triangle channel.
pub const TRIANGLE_TABLE: [u8; 32] = [
    15, 14, 13, 12, 11, 10, 9, 8, 7, 6, 5, 4, 3, 2, 1, 0,
    0, 1, 2, 3, 4, 5, 6, 7, 8, 9, 10, 11, 12, 13, 14, 15,
];

/// Timer periods of the noise channel (NTSC).
pub const NOISE_TABLE: [u16; 16] = [
    4, 8, 16, 32, 64, 96, 128, 160, 202, 254, 380, 508, 762, 1016, 2034, 4068,
];

/// Timer periods of the sample channel (NTSC).
pub const DMC_TABLE: [u16; 16] = [
    428, 380, 340, 320, 286, 254, 226, 214, 190, 160, 142, 128, 106, 84, 72, 54,
];

/// Volume, constant or decaying.
#[derive(Clone, Copy)]
pub struct Envelope {
    /// Restart on the next clock.
    pub start: bool,
    /// Start over when the decay is done.
    pub loop_flag: bool,
    /// Use `volume` itself.
    pub constant: bool,
    /// Constant volume, or period of the decay.
    pub volume: u8,
    /// Current decay level.
    pub decay: u8,
    pub divider: u8,
}

/// Bends the pitch of a pulse channel.
#[derive(Clone, Copy)]
pub struct Sweep {
    pub enabled: bool,
    pub period: u8,
    pub negate: bool,
    pub shift: u8,
    pub reload: bool,
    pub divider: u8,
    /// The first pulse channel subtracts one more than the second.
    pub is_pulse1: bool,
}

#[derive(Clone, Copy)]
pub struct Pulse {
    pub enabled: bool,
    pub duty: u8,
    pub length_halt: bool,
    pub length: u8,
    pub envelope: Envelope,
    pub sweep: Sweep,
    pub timer: u16,
    pub timer_val: u16,
    pub seq_pos: u8,
}

#[derive(Clone, Copy)]
pub struct Triangle {
    pub enabled: bool,
    /// Holds the length counter and keeps reloading the linear counter.
    pub control: bool,
    pub length: u8,
    pub linear_load: u8,
    pub linear_counter: u8,
    pub linear_reload: bool,
    pub timer: u16,
    pub timer_val: u16,
    pub seq_pos: u8,
}

#[derive(Clone, Copy)]
pub struct Noise {
    pub enabled: bool,
    pub length_halt: bool,
    pub length: u8,
    pub envelope: Envelope,
    /// Short sequence.
    pub mode: bool,
    pub period_idx: u8,
    pub timer_val: u16,
    /// 15-bit feedback shift register.
    pub shift: u16,
}

/// Plays delta-coded samples from memory.
#[derive(Clone, Copy)]
pub struct Dmc {
    pub enabled: bool,
    pub irq_enabled: bool,
    pub loop_flag: bool,
    pub rate_idx: u8,
    pub timer_val: u16,
    pub output_level: u8,
    pub sample_addr: u16,
    pub sample_len: u16,
    pub current_addr: u16,
    pub bytes_remaining: u16,
    pub shift_register: u8,
    pub bits_remaining: u8,
    pub sample_buffer: u8,
    pub buffer_empty: bool,
    pub silence: bool,
}

/// A length counter counts down to 0 unless it is held.
pub open spec fn counted(length: u8, halted: bool) -> u8 {
    if !halted && length > 0 {
        (length - 1) as u8
    } else {
        length
    }
}

pub fn count_length(length: u8, halted: bool) -> (r: u8)
    ensures
        r == counted(length, halted),
{
    if !halted && length > 0 {
        length - 1
    } else {
        length
    }
}

/// A timer with its low byte replaced.
pub open spec fn timer_low(timer: u16, val: u8) -> u16 {
    (timer - timer % 256 + val) as u16
}

/// A timer with its three high bits replaced.
pub open spec fn timer_high(timer: u16, val: u8) -> u16 {
    (timer % 256 + val % 8 * 256) as u16
}

impl Envelope {
    pub open spec fn wf(self) -> bool {
        self.volume <= 15 && self.decay <= 15
    }

    pub open spec fn silent() -> Envelope {
        Envelope {
            start: false,
            loop_flag: false,
            constant: false,
            volume: 0,
            decay: 0,
            divider: 0,
        }
    }

    /// A clock restarts the envelope, or counts the divider down and with every
    /// period lowers the level by one.
    pub open spec fn clocked(self) -> Envelope {
        if self.start {
            Envelope { start: false, decay: 15, divider: self.volume, ..self }
        } else if self.divider > 0 {
            Envelope { divider: (self.divider - 1) as u8, ..self }
        } else {
            Envelope {
                divider: self.volume,
                decay: if self.decay > 0 {
                    (self.decay - 1) as u8
                } else if self.loop_flag {
                    15
                } else {
                    0
                },
                ..self
            }
        }
    }

    pub open spec fn level(self) -> u8 {
        if self.constant {
            self.volume
        } else {
            self.decay
        }
    }

    /// Bit 5 loops, bit 4 selects constant volume, bits 0-3 are the volume.
    pub open spec fn configured(self, val: u8) -> Envelope {
        Envelope {
            loop_flag: bits::bit8(val, 5),
            constant: bits::bit8(val, 4),
            volume: (val % 16) as u8,
            ..self
        }
    }

    pub fn new() -> (e: Envelope)
        ensures
            e == Envelope::silent(),
            e.wf(),
    {
        Envelope {
            start: false,
            loop_flag: false,
            constant: false,
            volume: 0,
            decay: 0,
            divider: 0,
        }
    }

    pub fn clock(&mut self)
        requires
            old(self).wf(),
        ensures
            final(self).wf(),
            *final(self) == old(self).clocked(),
    {
        if self.start {
            self.start = false;
            self.decay = 15;
            self.divider = self.volume;
        } else if self.divider == 0 {
            self.divider = self.volume;
            if self.decay > 0 {
                self.decay = self.decay - 1;
            } else if self.loop_flag {
                self.decay = 15;
            }
        } else {
            self.divider = self.divider - 1;
        }
    }

    pub fn output(&self) -> (level: u8)
        ensures
            level == self.level(),
    {
        if self.constant {
            self.volume
        } else {
            self.decay
        }
    }

    fn configure(&mut self, val: u8)
        requires
            old(self).wf(),
        ensures
            final(self).wf(),
            *final(self) == old(self).configured(val),
    {
        proof {
            bits::lemma_bit8(val);
        }
        self.loop_flag = val & 0x20 != 0;
        self.constant = val & 0x10 != 0;
        self.volume = val % 16;
    }
}

impl Sweep {
    pub open spec fn wf(self) -> bool {
        self.shift < 8
    }

    pub open spec fn off(is_pulse1: bool) -> Sweep {
        Sweep {
            enabled: false,
            period: 0,
            negate: false,
            shift: 0,
            reload: false,
            divider: 0,
            is_pulse1,
        }
    }

    /// The period that the sweep aims at, modulo 65536: the current one plus or minus
    /// its own value shifted right.
    pub open spec fn target(self, current: u16) -> u16 {
        let delta = current as int / bits::weight(self.shift as int);
        ((if self.negate {
            if self.is_pulse1 {
                current - delta - 1
            } else {
                current - delta
            }
        } else {
            current + delta
        }) % 65536) as u16
    }

    /// The target is out of range, or the period too short to be heard.
    pub open spec fn mutes(self, timer: u16) -> bool {
        timer < 8 || self.target(timer) > 0x7FF
    }

    /// The period after a clock.
    pub open spec fn swept(self, timer: u16) -> u16 {
        if self.divider == 0 && self.enabled && self.shift > 0 && !self.mutes(timer) {
            self.target(timer)
        } else {
            timer
        }
    }

    pub open spec fn clocked(self) -> Sweep {
        if self.divider == 0 || self.reload {
            Sweep { divider: self.period, reload: false, ..self }
        } else {
            Sweep { divider: (self.divider - 1) as u8, ..self }
        }
    }

    /// Bit 7 enables, bits 4-6 are the period, bit 3 negates, bits 0-2 are the shift.
    pub open spec fn configured(self, val: u8) -> Sweep {
        Sweep {
            enabled: bits::bit8(val, 7),
            period: (val / 16 % 8) as u8,
            negate: bits::bit8(val, 3),
            shift: (val % 8) as u8,
            reload: true,
            ..self
        }
    }

    pub fn new(is_pulse1: bool) -> (s: Sweep)
        ensures
            s == Sweep::off(is_pulse1),
            s.wf(),
    {
        Sweep {
            enabled: false,
            period: 0,
            negate: false,
            shift: 0,
            reload: false,
            divider: 0,
            is_pulse1,
        }
    }

    pub fn target_period(&self, current: u16) -> (period: u16)
        requires
            self.wf(),
            current <= 0x7FF,
        ensures
            period == self.target(current),
    {
        let delta: u16 = current >> self.shift;
        proof {
            assert({
                &&& current >> 0u8 == current
                &&& current >> 1u8 == current / 2
                &&& current >> 2u8 == current / 4
                &&& current >> 3u8 == current / 8
                &&& current >> 4u8 == current / 16
                &&& current >> 5u8 == current / 32
                &&& current >> 6u8 == current / 64
                &&& current >> 7u8 == current / 128
            }) by (bit_vector);
            assert(delta == current as int / bits::weight(self.shift as int));
        }
        if self.negate {
            if self.is_pulse1 {
                current.wrapping_sub(delta).wrapping_sub(1)
            } else {
                current.wrapping_sub(delta)
            }
        } else {
            current + delta
        }
    }

    pub fn clock(&mut self, timer: &mut u16)
        requires
            old(self).wf(),
            *old(timer) <= 0x7FF,
        ensures
            final(self).wf(),
            *final(self) == old(self).clocked(),
            *final(timer) == old(self).swept(*old(timer)),
            *final(timer) <= 0x7FF,
    {
        let target: u16 = self.target_period(*timer);
        if self.divider == 0 && self.enabled && self.shift > 0 && *timer >= 8 && target <= 0x7FF {
            *timer = target;
        }
        if self.divider == 0 || self.reload {
            self.divider = self.period;
            self.reload = false;
        } else {
            self.divider = self.divider - 1;
        }
    }

    pub fn muting(&self, timer: u16) -> (muted: bool)
        requires
            self.wf(),
            timer <= 0x7FF,
        ensures
            muted == self.mutes(timer),
    {
        timer < 8 || self.target_period(timer) > 0x7FF
    }

    fn configure(&mut self, val: u8)
        ensures
            final(self).wf(),
            *final(self) == old(self).configured(val),
    {
        proof {
            bits::lemma_bit8(val);
        }
        self.enabled = val & 0x80 != 0;
        self.period = val / 16 % 8;
        self.negate = val & 0x08 != 0;
        self.shift = val % 8;
        self.reload = true;
    }
}

impl Pulse {
    pub open spec fn wf(self) -> bool {
        &&& self.duty < 4
        &&& self.seq_pos < 8
        &&& self.timer <= 0x7FF
        &&& self.envelope.wf()
        &&& self.sweep.wf()
    }

    pub open spec fn silent(is_pulse1: bool) -> Pulse {
        Pulse {
            enabled: false,
            duty: 0,
            length_halt: false,
            length: 0,
            envelope: Envelope::silent(),
            sweep: Sweep::off(is_pulse1),
            timer: 0,
            timer_val: 0,
            seq_pos: 0,
        }
    }

    /// After a write to register `reg` of the channel.
    pub open spec fn written(self, reg: u8, val: u8) -> Pulse {
        if reg == 0 {
            Pulse {
                duty: (val / 64) as u8,
                length_halt: bits::bit8(val, 5),
                envelope: self.envelope.configured(val),
                ..self
            }
        } else if reg == 1 {
            Pulse { sweep: self.sweep.configured(val), ..self }
        } else if reg == 2 {
            Pulse { timer: timer_low(self.timer, val), ..self }
        } else if reg == 3 {
            Pulse {
                timer: timer_high(self.timer, val),
                length: if self.enabled {
                    LENGTH_TABLE[val as int / 8]
                } else {
                    self.length
                },
                seq_pos: 0,
                envelope: Envelope { start: true, ..self.envelope },
                ..self
            }
        } else {
            self
        }
    }

    pub open spec fn timer_clocked(self) -> Pulse {
        if self.timer_val == 0 {
            Pulse { timer_val: self.timer, seq_pos: ((self.seq_pos + 1) % 8) as u8, ..self }
        } else {
            Pulse { timer_val: (self.timer_val - 1) as u16, ..self }
        }
    }

    /// The half-frame clock of length counter and sweep.
    pub open spec fn half_clocked(self) -> Pulse {
        Pulse {
            length: counted(self.length, self.length_halt),
            timer: self.sweep.swept(self.timer),
            sweep: self.sweep.clocked(),
            ..self
        }
    }

    pub open spec fn envelope_clocked(self) -> Pulse {
        Pulse { envelope: self.envelope.clocked(), ..self }
    }

    pub open spec fn enabled_as(self, on: bool) -> Pulse {
        Pulse {
            enabled: on,
            length: if on {
                self.length
            } else {
                0
            },
            ..self
        }
    }

    pub open spec fn level(self) -> u8 {
        if !self.enabled || self.length == 0 || self.sweep.mutes(self.timer)
            || DUTY_TABLE[self.duty as int][self.seq_pos as int] == 0 {
            0
        } else {
            self.envelope.level()
        }
    }

    pub fn new(is_pulse1: bool) -> (p: Pulse)
        ensures
            p == Pulse::silent(is_pulse1),
            p.wf(),
    {
        Pulse {
            enabled: false,
            duty: 0,
            length_halt: false,
            length: 0,
            envelope: Envelope::new(),
            sweep: Sweep::new(is_pulse1),
            timer: 0,
            timer_val: 0,
            seq_pos: 0,
        }
    }

    pub fn write_reg(&mut self, reg: u8, val: u8)
        requires
            old(self).wf(),
        ensures
            final(self).wf(),
            *final(self) == old(self).written(reg, val),
    {
        proof {
            bits::lemma_bit8(val);
        }
        if reg == 0 {
            self.duty = val / 64;
            self.length_halt = val & 0x20 != 0;
            self.envelope.configure(val);
        } else if reg == 1 {
            self.sweep.configure(val);
        } else if reg == 2 {
            self.timer = self.timer - self.timer % 256 + val as u16;
        } else if reg == 3 {
            self.timer = self.timer % 256 + (val % 8) as u16 * 256;
            if self.enabled {
                self.length = LENGTH_TABLE[(val / 8) as usize];
            }
            self.seq_pos = 0;
            self.envelope.start = true;
        }
    }

    pub fn clock_timer(&mut self)
        requires
            old(self).wf(),
        ensures
            final(self).wf(),
            *final(self) == old(self).timer_clocked(),
    {
        if self.timer_val == 0 {
            self.timer_val = self.timer;
            self.seq_pos = (self.seq_pos + 1) % 8;
        } else {
            self.timer_val = self.timer_val - 1;
        }
    }

    pub fn clock_half(&mut self)
        requires
            old(self).wf(),
        ensures
            final(self).wf(),
            *final(self) == old(self).half_clocked(),
    {
        self.length = count_length(self.length, self.length_halt);
        self.sweep.clock(&mut self.timer);
    }

    pub fn enable(&mut self, on: bool)
        requires
            old(self).wf(),
        ensures
            final(self).wf(),
            *final(self) == old(self).enabled_as(on),
    {
        self.enabled = on;
        if !on {
            self.length = 0;
        }
    }

    pub fn output(&self) -> (level: u8)
        requires
            self.wf(),
        ensures
            level == self.level(),
            level <= 15,
    {
        if !self.enabled || self.length == 0 || self.sweep.muting(self.timer)
            || DUTY_TABLE[self.duty as usize][self.seq_pos as usize] == 0 {
            0
        } else {
            self.envelope.output()
        }
    }
}

impl Triangle {
    pub open spec fn wf(self) -> bool {
        self.seq_pos < 32 && self.timer <= 0x7FF
    }

    pub open spec fn silent() -> Triangle {
        Triangle {
            enabled: false,
            control: false,
            length: 0,
            linear_load: 0,
            linear_counter: 0,
            linear_reload: false,
            timer: 0,
            timer_val: 0,
            seq_pos: 0,
        }
    }

    /// After a write to register `reg` of the channel.
    pub open spec fn written(self, reg: u8, val: u8) -> Triangle {
        if reg == 0 {
            Triangle { control: bits::bit8(val, 7), linear_load: (val % 128) as u8, ..self }
        } else if reg == 2 {
            Triangle { timer: timer_low(self.timer, val), ..self }
        } else if reg == 3 {
            Triangle {
                timer: timer_high(self.timer, val),
                length: if self.enabled {
                    LENGTH_TABLE[val as int / 8]
                } else {
                    self.length
                },
                linear_reload: true,
                ..self
            }
        } else {
            self
        }
    }

    /// The waveform advances only while both counters run.
    pub open spec fn timer_clocked(self) -> Triangle {
        if self.timer_val == 0 {
            Triangle {
                timer_val: self.timer,
                seq_pos: if self.length > 0 && self.linear_counter > 0 {
                    ((self.seq_pos + 1) % 32) as u8
                } else {
                    self.seq_pos
                },
                ..self
            }
        } else {
            Triangle { timer_val: (self.timer_val - 1) as u16, ..self }
        }
    }

    pub open spec fn linear_clocked(self) -> Triangle {
        Triangle {
            linear_counter: if self.linear_reload {
                self.linear_load
            } else if self.linear_counter > 0 {
                (self.linear_counter - 1) as u8
            } else {
                0
            },
            linear_reload: self.linear_reload && self.control,
            ..self
        }
    }

    pub open spec fn half_clocked(self) -> Triangle {
        Triangle { length: counted(self.length, self.control), ..self }
    }

    pub open spec fn enabled_as(self, on: bool) -> Triangle {
        Triangle {
            enabled: on,
            length: if on {
                self.length
            } else {
                0
            },
            ..self
        }
    }

    pub open spec fn level(self) -> u8 {
        if !self.enabled || self.length == 0 || self.linear_counter == 0 || self.timer < 2 {
            0
        } else {
            TRIANGLE_TABLE[self.seq_pos as int]
        }
    }

    pub fn new() -> (t: Triangle)
        ensures
            t == Triangle::silent(),
            t.wf(),
    {
        Triangle {
            enabled: false,
            control: false,
            length: 0,
            linear_load: 0,
            linear_counter: 0,
            linear_reload: false,
            timer: 0,
            timer_val: 0,
            seq_pos: 0,
        }
    }

    pub fn write_reg(&mut self, reg: u8, val: u8)
        requires
            old(self).wf(),
        ensures
            final(self).wf(),
            *final(self) == old(self).written(reg, val),
    {
        proof {
            bits::lemma_bit8(val);
        }
        if reg == 0 {
            self.control = val & 0x80 != 0;
            self.linear_load = val % 128;
        } else if reg == 2 {
            self.timer = self.timer - self.timer % 256 + val as u16;
        } else if reg == 3 {
            self.timer = self.timer % 256 + (val % 8) as u16 * 256;
            if self.enabled {
                self.length = LENGTH_TABLE[(val / 8) as usize];
            }
            self.linear_reload = true;
        }
    }

    pub fn clock_timer(&mut self)
        requires
            old(self).wf(),
        ensures
            final(self).wf(),
            *final(self) == old(self).timer_clocked(),
    {
        if self.timer_val == 0 {
            self.timer_val = self.timer;
            if self.length > 0 && self.linear_counter > 0 {
                self.seq_pos = (self.seq_pos + 1) % 32;
            }
        } else {
            self.timer_val = self.timer_val - 1;
        }
    }

    pub fn clock_linear(&mut self)
        requires
            old(self).wf(),
        ensures
            final(self).wf(),
            *final(self) == old(self).linear_clocked(),
    {
        if self.linear_reload {
            self.linear_counter = self.linear_load;
        } else if self.linear_counter > 0 {
            self.linear_counter = self.linear_counter - 1;
        }
        if !self.control {
            self.linear_reload = false;
        }
    }

    pub fn enable(&mut self, on: bool)
        requires
            old(self).wf(),
        ensures
            final(self).wf(),
            *final(self) == old(self).enabled_as(on),
    {
        self.enabled = on;
        if !on {
            self.length = 0;
        }
    }

    pub fn output(&self) -> (level: u8)
        requires
            self.wf(),
        ensures
            level == self.level(),
    {
        if !self.enabled || self.length == 0 || self.linear_counter == 0 || self.timer < 2 {
            0
        } else {
            TRIANGLE_TABLE[self.seq_pos as usize]
        }
    }
}

impl Noise {
    pub open spec fn wf(self) -> bool {
        &&& self.period_idx < 16
        &&& 0 < self.shift < 32768
        &&& self.envelope.wf()
    }

    pub open spec fn silent() -> Noise {
        Noise {
            enabled: false,
            length_halt: false,
            length: 0,
            envelope: Envelope::silent(),
            mode: false,
            period_idx: 0,
            timer_val: 0,
            shift: 1,
        }
    }

    /// After a write to register `reg` of the channel.
    pub open spec fn written(self, reg: u8, val: u8) -> Noise {
        if reg == 0 {
            Noise {
                length_halt: bits::bit8(val, 5),
                envelope: self.envelope.configured(val),
                ..self
            }
        } else if reg == 2 {
            Noise { mode: bits::bit8(val, 7), period_idx: (val % 16) as u8, ..self }
        } else if reg == 3 {
            Noise {
                length: if self.enabled {
                    LENGTH_TABLE[val as int / 8]
                } else {
                    self.length
                },
                envelope: Envelope { start: true, ..self.envelope },
                ..self
            }
        } else {
            self
        }
    }

    /// The next value of the shift register: bit 0 and a tap, bit 6 in short mode and
    /// bit 1 otherwise, feed bit 14.
    pub open spec fn next_shift(self) -> u16 {
        let tap = if self.mode {
            self.shift / 64 % 2
        } else {
            self.shift / 2 % 2
        };
        (self.shift / 2 + (if self.shift % 2 != tap {
            16384int
        } else {
            0
        })) as u16
    }

    pub open spec fn timer_clocked(self) -> Noise {
        if self.timer_val == 0 {
            Noise {
                timer_val: NOISE_TABLE[self.period_idx as int],
                shift: self.next_shift(),
                ..self
            }
        } else {
            Noise { timer_val: (self.timer_val - 1) as u16, ..self }
        }
    }

    pub open spec fn half_clocked(self) -> Noise {
        Noise { length: counted(self.length, self.length_halt), ..self }
    }

    pub open spec fn envelope_clocked(self) -> Noise {
        Noise { envelope: self.envelope.clocked(), ..self }
    }

    pub open spec fn enabled_as(self, on: bool) -> Noise {
        Noise {
            enabled: on,
            length: if on {
                self.length
            } else {
                0
            },
            ..self
        }
    }

    pub open spec fn level(self) -> u8 {
        if !self.enabled || self.length == 0 || self.shift % 2 == 1 {
            0
        } else {
            self.envelope.level()
        }
    }

    pub fn new() -> (n: Noise)
        ensures
            n == Noise::silent(),
            n.wf(),
    {
        Noise {
            enabled: false,
            length_halt: false,
            length: 0,
            envelope: Envelope::new(),
            mode: false,
            period_idx: 0,
            timer_val: 0,
            shift: 1,
        }
    }

    pub fn write_reg(&mut self, reg: u8, val: u8)
        requires
            old(self).wf(),
        ensures
            final(self).wf(),
            *final(self) == old(self).written(reg, val),
    {
        proof {
            bits::lemma_bit8(val);
        }
        if reg == 0 {
            self.length_halt = val & 0x20 != 0;
            self.envelope.configure(val);
        } else if reg == 2 {
            self.mode = val & 0x80 != 0;
            self.period_idx = val % 16;
        } else if reg == 3 {
            if self.enabled {
                self.length = LENGTH_TABLE[(val / 8) as usize];
            }
            self.envelope.start = true;
        }
    }

    /// The shift register never reaches 0, so the noise never stops.
    pub fn clock_timer(&mut self)
        requires
            old(self).wf(),
        ensures
            final(self).wf(),
            *final(self) == old(self).timer_clocked(),
    {
        if self.timer_val == 0 {
            self.timer_val = NOISE_TABLE[self.period_idx as usize];
            let tap: u16 = if self.mode {
                self.shift / 64 % 2
            } else {
                self.shift / 2 % 2
            };
            let feedback: u16 = if self.shift % 2 != tap {
                16384
            } else {
                0
            };
            self.shift = self.shift / 2 + feedback;
        } else {
            self.timer_val = self.timer_val - 1;
        }
    }

    pub fn enable(&mut self, on: bool)
        requires
            old(self).wf(),
        ensures
            final(self).wf(),
            *final(self) == old(self).enabled_as(on),
    {
        self.enabled = on;
        if !on {
            self.length = 0;
        }
    }

    pub fn output(&self) -> (level: u8)
        requires
            self.wf(),
        ensures
            level == self.level(),
            level <= 15,
    {
        if !self.enabled || self.length == 0 || self.shift % 2 != 0 {
            0
        } else {
            self.envelope.output()
        }
    }
}

impl Dmc {
    pub open spec fn wf(self) -> bool {
        &&& self.rate_idx < 16
        &&& self.output_level < 128
        &&& self.sample_addr >= 0x8000
        &&& self.current_addr >= 0x8000
        &&& self.sample_len > 0
    }

    pub open spec fn silent() -> Dmc {
        Dmc {
            enabled: false,
            irq_enabled: false,
            loop_flag: false,
            rate_idx: 0,
            timer_val: 0,
            output_level: 0,
            sample_addr: 0xC000,
            sample_len: 1,
            current_addr: 0xC000,
            bytes_remaining: 0,
            shift_register: 0,
            bits_remaining: 0,
            sample_buffer: 0,
            buffer_empty: true,
            silence: true,
        }
    }

    /// After a write to register `reg` of the channel.
    pub open spec fn written(self, reg: u8, val: u8) -> Dmc {
        if reg == 0 {
            Dmc {
                irq_enabled: bits::bit8(val, 7),
                loop_flag: bits::bit8(val, 6),
                rate_idx: (val % 16) as u8,
                ..self
            }
        } else if reg == 1 {
            Dmc { output_level: (val % 128) as u8, ..self }
        } else if reg == 2 {
            Dmc { sample_addr: (0xC000 + val * 64) as u16, ..self }
        } else if reg == 3 {
            Dmc { sample_len: (val * 16 + 1) as u16, ..self }
        } else {
            self
        }
    }

    pub open spec fn restarted(self) -> Dmc {
        Dmc { current_addr: self.sample_addr, bytes_remaining: self.sample_len, ..self }
    }

    /// A sample bit moves the level up or down by two, within 0-127.
    pub open spec fn bit_played(self) -> Dmc {
        if self.silence {
            self
        } else {
            Dmc {
                output_level: if self.shift_register % 2 == 1 {
                    if self.output_level <= 125 {
                        (self.output_level + 2) as u8
                    } else {
                        self.output_level
                    }
                } else {
                    if self.output_level >= 2 {
                        (self.output_level - 2) as u8
                    } else {
                        self.output_level
                    }
                },
                shift_register: (self.shift_register / 2) as u8,
                ..self
            }
        }
    }

    /// After eight bits the next byte is taken from the buffer.
    pub open spec fn bit_counted(self) -> Dmc {
        if self.bits_remaining > 1 {
            Dmc { bits_remaining: (self.bits_remaining - 1) as u8, ..self }
        } else if self.buffer_empty {
            Dmc { bits_remaining: 8, silence: true, ..self }
        } else {
            Dmc {
                bits_remaining: 8,
                silence: false,
                shift_register: self.sample_buffer,
                buffer_empty: true,
                ..self
            }
        }
    }

    /// The buffer is empty and bytes are left.
    pub open spec fn wants_byte(self) -> bool {
        self.buffer_empty && self.bytes_remaining > 0
    }

    /// The sample address moves on, wrapping from $FFFF to $8000; a looping sample
    /// starts over after its last byte.
    pub open spec fn byte_requested(self) -> Dmc {
        let moved = Dmc {
            current_addr: if self.current_addr == 0xFFFF {
                0x8000
            } else {
                (self.current_addr + 1) as u16
            },
            bytes_remaining: (self.bytes_remaining - 1) as u16,
            ..self
        };
        if moved.bytes_remaining == 0 && self.loop_flag {
            moved.restarted()
        } else {
            moved
        }
    }

    /// The state in which a period's bit has been played.
    pub open spec fn period_ended(self) -> Dmc {
        Dmc { timer_val: DMC_TABLE[self.rate_idx as int], ..self }.bit_played().bit_counted()
    }

    pub open spec fn timer_clocked(self) -> Dmc {
        if self.timer_val > 0 {
            Dmc { timer_val: (self.timer_val - 1) as u16, ..self }
        } else if self.period_ended().wants_byte() {
            self.period_ended().byte_requested()
        } else {
            self.period_ended()
        }
    }

    /// The address that a timer clock asks to have read.
    pub open spec fn fetch_address(self) -> Option<u16> {
        if self.timer_val == 0 && self.period_ended().wants_byte() {
            Some(self.current_addr)
        } else {
            None
        }
    }

    pub open spec fn enabled_as(self, on: bool) -> Dmc {
        let d = Dmc { enabled: on, ..self };
        if !on {
            Dmc { bytes_remaining: 0, ..d }
        } else if d.bytes_remaining == 0 {
            d.restarted()
        } else {
            d
        }
    }

    pub open spec fn filled(self, byte: u8) -> Dmc {
        Dmc { sample_buffer: byte, buffer_empty: false, ..self }
    }

    pub fn new() -> (d: Dmc)
        ensures
            d == Dmc::silent(),
            d.wf(),
    {
        Dmc {
            enabled: false,
            irq_enabled: false,
            loop_flag: false,
            rate_idx: 0,
            timer_val: 0,
            output_level: 0,
            sample_addr: 0xC000,
            sample_len: 1,
            current_addr: 0xC000,
            bytes_remaining: 0,
            shift_register: 0,
            bits_remaining: 0,
            sample_buffer: 0,
            buffer_empty: true,
            silence: true,
        }
    }

    pub fn write_reg(&mut self, reg: u8, val: u8)
        requires
            old(self).wf(),
        ensures
            final(self).wf(),
            *final(self) == old(self).written(reg, val),
    {
        proof {
            bits::lemma_bit8(val);
        }
        if reg == 0 {
            self.irq_enabled = val & 0x80 != 0;
            self.loop_flag = val & 0x40 != 0;
            self.rate_idx = val % 16;
        } else if reg == 1 {
            self.output_level = val % 128;
        } else if reg == 2 {
            self.sample_addr = 0xC000 + val as u16 * 64;
        } else if reg == 3 {
            self.sample_len = val as u16 * 16 + 1;
        }
    }

    pub fn restart(&mut self)
        requires
            old(self).wf(),
        ensures
            final(self).wf(),
            *final(self) == old(self).restarted(),
    {
        self.current_addr = self.sample_addr;
        self.bytes_remaining = self.sample_len;
    }

    fn play_bit(&mut self)
        requires
            old(self).wf(),
        ensures
            final(self).wf(),
            *final(self) == old(self).bit_played(),
    {
        if !self.silence {
            if self.shift_register % 2 != 0 {
                if self.output_level <= 125 {
                    self.output_level = self.output_level + 2;
                }
            } else {
                if self.output_level >= 2 {
                    self.output_level = self.output_level - 2;
                }
            }
            self.shift_register = self.shift_register / 2;
        }
    }

    fn count_bit(&mut self)
        requires
            old(self).wf(),
        ensures
            final(self).wf(),
            *final(self) == old(self).bit_counted(),
    {
        if self.bits_remaining > 1 {
            self.bits_remaining = self.bits_remaining - 1;
        } else {
            self.bits_remaining = 8;
            if self.buffer_empty {
                self.silence = true;
            } else {
                self.silence = false;
                self.shift_register = self.sample_buffer;
                self.buffer_empty = true;
            }
        }
    }

    fn request_byte(&mut self)
        requires
            old(self).wf(),
            old(self).wants_byte(),
        ensures
            final(self).wf(),
            *final(self) == old(self).byte_requested(),
    {
        self.current_addr = if self.current_addr == 0xFFFF {
            0x8000
        } else {
            self.current_addr + 1
        };
        self.bytes_remaining = self.bytes_remaining - 1;
        if self.bytes_remaining == 0 && self.loop_flag {
            self.restart();
        }
    }

    /// Returns the address of a byte to be read, where one is needed.
    pub fn clock_timer(&mut self) -> (fetch: Option<u16>)
        requires
            old(self).wf(),
        ensures
            final(self).wf(),
            *final(self) == old(self).timer_clocked(),
            fetch == old(self).fetch_address(),
    {
        if self.timer_val == 0 {
            self.timer_val = DMC_TABLE[self.rate_idx as usize];
            self.play_bit();
            self.count_bit();
            if self.buffer_empty && self.bytes_remaining > 0 {
                let addr: u16 = self.current_addr;
                self.request_byte();
                return Some(addr);
            }
        } else {
            self.timer_val = self.timer_val - 1;
        }
        None
    }

    pub fn enable(&mut self, on: bool)
        requires
            old(self).wf(),
        ensures
            final(self).wf(),
            *final(self) == old(self).enabled_as(on),
    {
        self.enabled = on;
        if on {
            if self.bytes_remaining == 0 {
                self.restart();
            }
        } else {
            self.bytes_remaining = 0;
        }
    }

    pub fn output(&self) -> (level: u8)
        ensures
            level == self.output_level,
    {
        self.output_level
    }
}

} // verus!
