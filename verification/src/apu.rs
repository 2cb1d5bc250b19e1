//! The sound generator: five channels, the frame counter and the sampler.
//!
//! The frame counter drives envelopes, length counters and sweeps at about 240 Hz.
//! Channel levels are sampled at 44.1 kHz.

use vstd::prelude::*;
use crate::audio;
use crate::audio::AudioBuffer;
use crate::bits;
use crate::channels::{count_length, Dmc, Noise, Pulse, Triangle};

verus! {

/// Samples per second.
pub const SAMPLE_RATE: u32 = 44100;

/// One processor cycle in the units of the sampler's phase, which are 2^-47 cycles.
pub const PHASE_CYCLE: u64 = 140737488355328;

/// Processor cycles per sample, 1789773 / 44100, in the same units.
pub const PHASE_SAMPLE: u64 = 5711749586081190;

/// Size of the sample buffer; it holds one sample less.
pub const BUFFER_SIZE: usize = 4096;

/// Levels of the five channels at the time of a sample.
#[derive(Clone, Copy, PartialEq, Eq, Debug)]
pub struct Levels {
    pub pulse1: u8,
    pub pulse2: u8,
    pub triangle: u8,
    pub noise: u8,
    pub dmc: u8,
}

pub struct Apu {
    pub pulse1: Pulse,
    pub pulse2: Pulse,
    pub triangle: Triangle,
    pub noise: Noise,
    pub dmc: Dmc,
    /// 0 for the four-step sequence, 1 for the five-step one.
    pub frame_mode: u8,
    pub frame_irq: bool,
    pub frame_irq_inhibit: bool,
    pub frame_counter: u32,
    pub cycle_count: u64,
    /// Time since the last sample.
    pub sample_phase: u64,
    /// Samples not yet collected.
    pub audio_buf: AudioBuffer<Levels>,
    /// Address of a byte that the sample channel waits for.
    pub dmc_read_pending: Option<u16>,
}

/// The sound generator's state.
#[verifier::ext_equal]
pub ghost struct ApuModel {
    pub pulse1: Pulse,
    pub pulse2: Pulse,
    pub triangle: Triangle,
    pub noise: Noise,
    pub dmc: Dmc,
    pub frame_mode: u8,
    pub frame_irq: bool,
    pub frame_irq_inhibit: bool,
    pub frame_counter: int,
    pub cycle_count: int,
    pub sample_phase: int,
    pub samples: Seq<Levels>,
    pub dmc_read_pending: Option<u16>,
}

/// The state at power-on.
pub open spec fn apu_at_power_on() -> ApuModel {
    ApuModel {
        pulse1: Pulse::silent(true),
        pulse2: Pulse::silent(false),
        triangle: Triangle::silent(),
        noise: Noise::silent(),
        dmc: Dmc::silent(),
        frame_mode: 0,
        frame_irq: false,
        frame_irq_inhibit: false,
        frame_counter: 0,
        cycle_count: 0,
        sample_phase: 0,
        samples: Seq::empty(),
        dmc_read_pending: None,
    }
}

impl ApuModel {
    pub open spec fn wf(self) -> bool {
        &&& self.units_wf()
        &&& self.frame_mode <= 1
        &&& 0 <= self.frame_counter < self.sequence_length()
        &&& 0 <= self.sample_phase < PHASE_SAMPLE
        &&& self.samples.len() < BUFFER_SIZE
        &&& self.dmc_read_pending matches Some(addr) ==> addr >= 0x8000
    }

    /// The part of the invariant that speaks of the channels alone.
    pub open spec fn units_wf(self) -> bool {
        &&& self.pulse1.wf()
        &&& self.pulse2.wf()
        &&& self.triangle.wf()
        &&& self.noise.wf()
        &&& self.dmc.wf()
    }

    /// Cycles of the frame counter's sequence.
    pub open spec fn sequence_length(self) -> int {
        if self.frame_mode == 0 {
            14915
        } else {
            18641
        }
    }

    pub open spec fn levels(self) -> Levels {
        Levels {
            pulse1: self.pulse1.level(),
            pulse2: self.pulse2.level(),
            triangle: self.triangle.level(),
            noise: self.noise.level(),
            dmc: self.dmc.output_level,
        }
    }

    /// Envelopes and the linear counter are clocked.
    pub open spec fn quarter_clocked(self) -> ApuModel {
        ApuModel {
            pulse1: self.pulse1.envelope_clocked(),
            pulse2: self.pulse2.envelope_clocked(),
            noise: self.noise.envelope_clocked(),
            triangle: self.triangle.linear_clocked(),
            ..self
        }
    }

    /// Length counters and sweeps are clocked.
    pub open spec fn half_clocked(self) -> ApuModel {
        ApuModel {
            pulse1: self.pulse1.half_clocked(),
            pulse2: self.pulse2.half_clocked(),
            triangle: self.triangle.half_clocked(),
            noise: self.noise.half_clocked(),
            ..self
        }
    }

    /// The channels' timers are clocked, those of pulse and noise every other cycle.
    pub open spec fn timers_clocked(self) -> ApuModel {
        let even = (self.cycle_count + 1) % 2 == 0;
        ApuModel {
            cycle_count: self.cycle_count + 1,
            triangle: self.triangle.timer_clocked(),
            pulse1: if even {
                self.pulse1.timer_clocked()
            } else {
                self.pulse1
            },
            pulse2: if even {
                self.pulse2.timer_clocked()
            } else {
                self.pulse2
            },
            noise: if even {
                self.noise.timer_clocked()
            } else {
                self.noise
            },
            dmc: self.dmc.timer_clocked(),
            dmc_read_pending: match self.dmc.fetch_address() {
                Some(addr) => Some(addr),
                None => self.dmc_read_pending,
            },
            ..self
        }
    }

    /// The frame counter advances. The four-step sequence ends with an interrupt,
    /// unless that is inhibited.
    pub open spec fn frame_advanced(self) -> ApuModel {
        let n = self.frame_counter + 1;
        let s = ApuModel { frame_counter: n, ..self };
        if n == self.sequence_length() {
            let c = s.quarter_clocked().half_clocked();
            ApuModel {
                frame_counter: 0,
                frame_irq: self.frame_irq || (self.frame_mode == 0 && !self.frame_irq_inhibit),
                ..c
            }
        } else if n == 7457 {
            s.quarter_clocked().half_clocked()
        } else if n == 3729 || n == 11186 {
            s.quarter_clocked()
        } else {
            s
        }
    }

    /// Time advances by one cycle; a sample is taken when it is due, and dropped if as many
    /// wait as there is room for.
    pub open spec fn sampled(self) -> ApuModel {
        let phase = self.sample_phase + PHASE_CYCLE;
        if phase >= PHASE_SAMPLE {
            ApuModel {
                sample_phase: phase - PHASE_SAMPLE,
                samples: audio::written(self.samples, BUFFER_SIZE as int, self.levels()),
                ..self
            }
        } else {
            ApuModel { sample_phase: phase, ..self }
        }
    }

    /// One processor cycle.
    #[verifier::opaque]
    pub open spec fn clocked(self) -> ApuModel {
        self.timers_clocked().frame_advanced().sampled()
    }

    /// `n` processor cycles.
    pub open spec fn clocked_times(self, n: nat) -> ApuModel
        decreases n,
    {
        if n == 0 {
            self
        } else {
            self.clocked_times((n - 1) as nat).clocked()
        }
    }

    /// After a write to $4015: each bit enables or silences a channel.
    pub open spec fn channels_enabled(self, val: u8) -> ApuModel {
        ApuModel {
            pulse1: self.pulse1.enabled_as(bits::bit8(val, 0)),
            pulse2: self.pulse2.enabled_as(bits::bit8(val, 1)),
            triangle: self.triangle.enabled_as(bits::bit8(val, 2)),
            noise: self.noise.enabled_as(bits::bit8(val, 3)),
            dmc: self.dmc.enabled_as(bits::bit8(val, 4)),
            ..self
        }
    }

    /// After a write to $4017: the sequence restarts; the five-step one clocks
    /// everything at once.
    pub open spec fn sequence_restarted(self, val: u8) -> ApuModel {
        let s = ApuModel {
            frame_mode: (val / 128) as u8,
            frame_irq_inhibit: bits::bit8(val, 6),
            frame_irq: self.frame_irq && !bits::bit8(val, 6),
            frame_counter: 0,
            ..self
        };
        if val >= 128 {
            s.quarter_clocked().half_clocked()
        } else {
            s
        }
    }

    /// After a register write. $4009, $400D, $4014 and $4016 are not sound registers.
    pub open spec fn written(self, addr: u16, val: u8) -> ApuModel {
        if 0x4000 <= addr <= 0x4003 {
            ApuModel { pulse1: self.pulse1.written((addr - 0x4000) as u8, val), ..self }
        } else if 0x4004 <= addr <= 0x4007 {
            ApuModel { pulse2: self.pulse2.written((addr - 0x4004) as u8, val), ..self }
        } else if 0x4008 <= addr <= 0x400B {
            ApuModel { triangle: self.triangle.written((addr - 0x4008) as u8, val), ..self }
        } else if 0x400C <= addr <= 0x400F {
            ApuModel { noise: self.noise.written((addr - 0x400C) as u8, val), ..self }
        } else if 0x4010 <= addr <= 0x4013 {
            ApuModel { dmc: self.dmc.written((addr - 0x4010) as u8, val), ..self }
        } else if addr == 0x4015 {
            self.channels_enabled(val)
        } else if addr == 0x4017 {
            self.sequence_restarted(val)
        } else {
            self
        }
    }

    /// $4015: which channels are playing, and the frame interrupt in bit 6.
    pub open spec fn status(self) -> u8 {
        ((if self.pulse1.length > 0 {
            1int
        } else {
            0
        }) + (if self.pulse2.length > 0 {
            2int
        } else {
            0
        }) + (if self.triangle.length > 0 {
            4int
        } else {
            0
        }) + (if self.noise.length > 0 {
            8int
        } else {
            0
        }) + (if self.dmc.bytes_remaining > 0 {
            16int
        } else {
            0
        }) + (if self.frame_irq {
            64int
        } else {
            0
        })) as u8
    }

    /// Reading $4015 acknowledges the frame interrupt.
    pub open spec fn status_read(self) -> ApuModel {
        ApuModel { frame_irq: false, ..self }
    }

    /// The sample channel gets the byte that it waited for.
    pub open spec fn byte_delivered(self, byte: u8) -> ApuModel {
        ApuModel { dmc: self.dmc.filled(byte), dmc_read_pending: None, ..self }
    }
}

impl View for Apu {
    type V = ApuModel;

    open spec fn view(&self) -> ApuModel {
        ApuModel {
            pulse1: self.pulse1,
            pulse2: self.pulse2,
            triangle: self.triangle,
            noise: self.noise,
            dmc: self.dmc,
            frame_mode: self.frame_mode,
            frame_irq: self.frame_irq,
            frame_irq_inhibit: self.frame_irq_inhibit,
            frame_counter: self.frame_counter as int,
            cycle_count: self.cycle_count as int,
            sample_phase: self.sample_phase as int,
            samples: self.audio_buf@,
            dmc_read_pending: self.dmc_read_pending,
        }
    }
}

/// All channels silent.
pub open spec fn quiet() -> Levels {
    Levels { pulse1: 0, pulse2: 0, triangle: 0, noise: 0, dmc: 0 }
}

impl Apu {
    pub open spec fn wf(&self) -> bool {
        self@.wf() && self.buffer_wf()
    }

    /// The part of the invariant that speaks of the buffer alone.
    pub open spec fn buffer_wf(&self) -> bool {
        &&& self.audio_buf.wf()
        &&& self.audio_buf.capacity == BUFFER_SIZE
        &&& self.audio_buf.silence == quiet()
    }

    pub fn new() -> (apu: Apu)
        ensures
            apu.wf(),
            apu@ == apu_at_power_on(),
    {
        let silence: Levels = Levels { pulse1: 0, pulse2: 0, triangle: 0, noise: 0, dmc: 0 };
        Apu {
            pulse1: Pulse::new(true),
            pulse2: Pulse::new(false),
            triangle: Triangle::new(),
            noise: Noise::new(),
            dmc: Dmc::new(),
            frame_mode: 0,
            frame_irq: false,
            frame_irq_inhibit: false,
            frame_counter: 0,
            cycle_count: 0,
            sample_phase: 0,
            audio_buf: AudioBuffer::new(BUFFER_SIZE, silence),
            dmc_read_pending: None,
        }
    }

    /// Writes a sound register.
    pub fn write_register(&mut self, addr: u16, val: u8)
        requires
            old(self).wf(),
        ensures
            final(self).wf(),
            final(self)@ == old(self)@.written(addr, val),
    {
        if 0x4000 <= addr && addr <= 0x4003 {
            self.pulse1.write_reg((addr - 0x4000) as u8, val);
        } else if 0x4004 <= addr && addr <= 0x4007 {
            self.pulse2.write_reg((addr - 0x4004) as u8, val);
        } else if 0x4008 <= addr && addr <= 0x400B {
            self.triangle.write_reg((addr - 0x4008) as u8, val);
        } else if 0x400C <= addr && addr <= 0x400F {
            self.noise.write_reg((addr - 0x400C) as u8, val);
        } else if 0x4010 <= addr && addr <= 0x4013 {
            self.dmc.write_reg((addr - 0x4010) as u8, val);
        } else if addr == 0x4015 {
            self.enable_channels(val);
        } else if addr == 0x4017 {
            self.restart_sequence(val);
        }
    }

    fn enable_channels(&mut self, val: u8)
        requires
            old(self).wf(),
        ensures
            final(self).wf(),
            final(self)@ == old(self)@.channels_enabled(val),
    {
        proof {
            bits::lemma_bit8(val);
        }
        self.pulse1.enable(val & 0x01 != 0);
        self.pulse2.enable(val & 0x02 != 0);
        self.triangle.enable(val & 0x04 != 0);
        self.noise.enable(val & 0x08 != 0);
        self.dmc.enable(val & 0x10 != 0);
    }

    fn restart_sequence(&mut self, val: u8)
        requires
            old(self).wf(),
        ensures
            final(self).wf(),
            final(self)@ == old(self)@.sequence_restarted(val),
    {
        proof {
            bits::lemma_bit8(val);
        }
        self.frame_mode = val / 128;
        self.frame_irq_inhibit = val & 0x40 != 0;
        if self.frame_irq_inhibit {
            self.frame_irq = false;
        }
        self.frame_counter = 0;
        if self.frame_mode == 1 {
            self.clock_quarter_frame();
            self.clock_half_frame();
        }
    }

    /// Reads $4015 and acknowledges the frame interrupt.
    pub fn read_status(&mut self) -> (val: u8)
        requires
            old(self).wf(),
        ensures
            final(self).wf(),
            val == old(self)@.status(),
            final(self)@ == old(self)@.status_read(),
    {
        let mut val: u8 = 0;
        if self.pulse1.length > 0 {
            val = val + 1;
        }
        if self.pulse2.length > 0 {
            val = val + 2;
        }
        if self.triangle.length > 0 {
            val = val + 4;
        }
        if self.noise.length > 0 {
            val = val + 8;
        }
        if self.dmc.bytes_remaining > 0 {
            val = val + 0x10;
        }
        if self.frame_irq {
            val = val + 0x40;
        }
        self.frame_irq = false;
        val
    }

    fn clock_quarter_frame(&mut self)
        requires
            old(self)@.units_wf(),
        ensures
            final(self)@.units_wf(),
            final(self)@ == old(self)@.quarter_clocked(),
            final(self).audio_buf == old(self).audio_buf,
    {
        self.pulse1.envelope.clock();
        self.pulse2.envelope.clock();
        self.noise.envelope.clock();
        self.triangle.clock_linear();
    }

    fn clock_half_frame(&mut self)
        requires
            old(self)@.units_wf(),
        ensures
            final(self)@.units_wf(),
            final(self)@ == old(self)@.half_clocked(),
            final(self).audio_buf == old(self).audio_buf,
    {
        self.pulse1.clock_half();
        self.pulse2.clock_half();
        self.triangle.length = count_length(self.triangle.length, self.triangle.control);
        self.noise.length = count_length(self.noise.length, self.noise.length_halt);
    }

    fn clock_timers(&mut self)
        requires
            old(self).wf(),
            old(self).cycle_count < u64::MAX,
        ensures
            final(self).wf(),
            final(self)@ == old(self)@.timers_clocked(),
    {
        self.cycle_count = self.cycle_count + 1;
        self.triangle.clock_timer();
        if self.cycle_count % 2 == 0 {
            self.pulse1.clock_timer();
            self.pulse2.clock_timer();
            self.noise.clock_timer();
        }
        let fetch: Option<u16> = self.dmc.clock_timer();
        match fetch {
            Some(addr) => {
                self.dmc_read_pending = Some(addr);
            },
            None => {},
        }
    }

    fn advance_frame(&mut self)
        requires
            old(self).wf(),
        ensures
            final(self).wf(),
            final(self)@ == old(self)@.frame_advanced(),
    {
        let n: u32 = self.frame_counter + 1;
        let last: u32 = if self.frame_mode == 0 {
            14915
        } else {
            18641
        };
        self.frame_counter = n;
        if n == 3729 || n == 11186 {
            self.clock_quarter_frame();
        } else if n == 7457 {
            self.clock_quarter_frame();
            self.clock_half_frame();
        } else if n == last {
            self.clock_quarter_frame();
            self.clock_half_frame();
            if self.frame_mode == 0 && !self.frame_irq_inhibit {
                self.frame_irq = true;
            }
            self.frame_counter = 0;
        }
    }

    fn sample(&mut self)
        requires
            old(self).wf(),
        ensures
            final(self).wf(),
            final(self)@ == old(self)@.sampled(),
    {
        self.sample_phase = self.sample_phase + PHASE_CYCLE;
        if self.sample_phase >= PHASE_SAMPLE {
            self.sample_phase = self.sample_phase - PHASE_SAMPLE;
            let levels: Levels = self.current_levels();
            self.audio_buf.write(levels);
        }
    }

    /// The channels' levels now.
    pub fn current_levels(&self) -> (levels: Levels)
        requires
            self.wf(),
        ensures
            levels == self@.levels(),
    {
        Levels {
            pulse1: self.pulse1.output(),
            pulse2: self.pulse2.output(),
            triangle: self.triangle.output(),
            noise: self.noise.output(),
            dmc: self.dmc.output(),
        }
    }

    /// One processor cycle.
    pub fn clock(&mut self)
        requires
            old(self).wf(),
            old(self).cycle_count < u64::MAX,
        ensures
            final(self).wf(),
            final(self)@ == old(self)@.clocked(),
            final(self).cycle_count == old(self).cycle_count + 1,
    {
        proof {
            reveal(ApuModel::clocked);
        }
        self.clock_timers();
        self.advance_frame();
        self.sample();
    }

    /// `n` processor cycles.
    pub fn clock_batch(&mut self, n: u32)
        requires
            old(self).wf(),
            old(self).cycle_count + n <= u64::MAX,
        ensures
            final(self).wf(),
            final(self)@ == old(self)@.clocked_times(n as nat),
            final(self).cycle_count == old(self).cycle_count + n,
    {
        let mut i: u32 = 0;
        while i < n
            invariant
                i <= n,
                self.wf(),
                old(self).cycle_count + n <= u64::MAX,
                self@ == old(self)@.clocked_times(i as nat),
                self.cycle_count == old(self).cycle_count + i,
            decreases n - i,
        {
            self.clock();
            i = i + 1;
        }
    }

    /// Hands the sample channel the byte that it waited for.
    pub fn dmc_fill_buffer(&mut self, byte: u8)
        requires
            old(self).wf(),
        ensures
            final(self).wf(),
            final(self)@ == old(self)@.byte_delivered(byte),
    {
        self.dmc.sample_buffer = byte;
        self.dmc.buffer_empty = false;
        self.dmc_read_pending = None;
    }

    /// The buffer of samples not yet collected.
    pub fn audio_buffer(&mut self) -> (buf: &mut AudioBuffer<Levels>)
        ensures
            *buf == old(self).audio_buf,
            final(self).audio_buf == *final(buf),
            final(self)@ == (ApuModel { samples: final(buf)@, ..old(self)@ }),
    {
        &mut self.audio_buf
    }

    /// Collects the samples taken since the last call.
    pub fn take_samples(&mut self) -> (samples: Vec<Levels>)
        requires
            old(self).wf(),
        ensures
            final(self).wf(),
            samples@ == old(self)@.samples,
            final(self)@ == (ApuModel { samples: Seq::empty(), ..old(self)@ }),
    {
        let mut samples: Vec<Levels> = Vec::new();
        while self.audio_buf.available() > 0
            invariant
                self.wf(),
                old(self).wf(),
                samples@ + self@.samples == old(self)@.samples,
                self@ == (ApuModel { samples: self@.samples, ..old(self)@ }),
            decreases self@.samples.len(),
        {
            let ghost before = self@.samples;
            samples.push(self.audio_buf.read());
            assert(before =~= seq![before[0]] + self@.samples);
            assert(samples@ + self@.samples =~= samples@.drop_last() + before);
            assert(samples@ + self@.samples == old(self)@.samples);
        }
        assert(self@.samples =~= Seq::empty());
        assert(samples@ =~= old(self)@.samples);
        samples
    }
}

} // verus!
