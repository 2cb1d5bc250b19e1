//! What the sound registers mean: which bits of a write set which part of a channel, and what
//! a channel then plays.

use vstd::prelude::*;
use crate::apu::ApuModel;
use crate::bits;
use crate::channels;
use crate::channels::{
    Dmc, Envelope, Noise, Pulse, Sweep, Triangle, DMC_TABLE, DUTY_TABLE, LENGTH_TABLE, NOISE_TABLE,
};

verus! {

/// A byte from its upper and lower four bits.
pub open spec fn joined(high: int, low: int) -> u8 {
    (high * 16 + low) as u8
}

pub open spec fn is_nibble(n: int) -> bool {
    0 <= n < 16
}

/// The parts of a byte that registers use, from its two nibbles.
#[verifier::rlimit(50)]
proof fn lemma_nibbles(high: int, low: int)
    requires
        is_nibble(high),
        is_nibble(low),
    ensures
        ({
            let val = joined(high, low);
            &&& val == high * 16 + low
            &&& val % 16 == low
            &&& val % 8 == low % 8
            &&& val / 64 == high / 4
            &&& val / 16 % 8 == high % 8
            &&& bits::bit8(val, 7) <==> high >= 8
            &&& bits::bit8(val, 6) <==> high / 4 % 2 == 1
            &&& bits::bit8(val, 5) <==> high / 2 % 2 == 1
            &&& bits::bit8(val, 4) <==> high % 2 == 1
            &&& bits::bit8(val, 3) <==> low >= 8
        }),
{
    let val = joined(high, low);
    assert(val / 16 == high);
    assert(val as int / 32 == high / 2);
    assert(val as int / 64 == high / 4);
    assert(val as int / 128 == high / 8);
    assert(val as int / 8 == high * 2 + low / 8);
}

/// The periods of the noise timer grow with the index; the first five double.
pub open spec fn noise_period(p: int) -> int {
    NOISE_TABLE[p] as int
}

proof fn lemma_noise_table(p: int)
    requires
        is_nibble(p),
    ensures
        p < 5 ==> noise_period(p) == 4 * bits::weight(p),
        5 <= p < 8 ==> noise_period(p) == 32 * (p - 2),
        p == 8 ==> noise_period(p) == 202,
        p == 9 ==> noise_period(p) == 254,
        p == 10 ==> noise_period(p) == 380,
        p == 11 ==> noise_period(p) == 508,
        p == 12 ==> noise_period(p) == 762,
        p == 13 ==> noise_period(p) == 1016,
        p == 14 ==> noise_period(p) == 2034,
        p == 15 ==> noise_period(p) == 4068,
{
    assert(NOISE_TABLE[0] == 4
        && NOISE_TABLE[1] == 8
        && NOISE_TABLE[2] == 16
        && NOISE_TABLE[3] == 32
        && NOISE_TABLE[4] == 64
        && NOISE_TABLE[5] == 96
        && NOISE_TABLE[6] == 128
        && NOISE_TABLE[7] == 160
        && NOISE_TABLE[8] == 202
        && NOISE_TABLE[9] == 254
        && NOISE_TABLE[10] == 380
        && NOISE_TABLE[11] == 508
        && NOISE_TABLE[12] == 762
        && NOISE_TABLE[13] == 1016
        && NOISE_TABLE[14] == 2034
        && NOISE_TABLE[15] == 4068);
}

/// What the noise timer is reloaded with after a write to $400E: the period that the low
/// four bits name, whatever the high four bits are, while bit 7 alone selects the short
/// sequence.
#[verifier::rlimit(50)]
pub proof fn noise_period_register(apu: ApuModel, high: int, p: int)
    requires
        is_nibble(high),
        is_nibble(p),
    ensures
        ({
            let noise = Noise { timer_val: 0, ..apu.written(0x400E, joined(high, p)).noise };
            &&& noise.timer_clocked().timer_val == noise_period(p)
            &&& noise.mode <==> high >= 8
            &&& noise == (Noise {
                timer_val: 0,
                mode: noise.mode,
                period_idx: noise.period_idx,
                ..apu.noise
            })
            &&& apu.written(0x400E, joined(high, p)) == (ApuModel {
                noise: apu.written(0x400E, joined(high, p)).noise,
                ..apu
            })
        }),
        p < 5 ==> noise_period(p) == 4 * bits::weight(p),
        5 <= p < 8 ==> noise_period(p) == 32 * (p - 2),
        p == 8 ==> noise_period(p) == 202,
        p == 9 ==> noise_period(p) == 254,
        p == 10 ==> noise_period(p) == 380,
        p == 11 ==> noise_period(p) == 508,
        p == 12 ==> noise_period(p) == 762,
        p == 13 ==> noise_period(p) == 1016,
        p == 14 ==> noise_period(p) == 2034,
        p == 15 ==> noise_period(p) == 4068,
{
    lemma_noise_table(p);
    lemma_nibbles(high, p);
}

/// Of two writes to $400E the one with the larger low four bits gives the longer period; the
/// same low bits give the same period.
pub proof fn noise_periods_grow(apu: ApuModel, high1: int, p1: int, high2: int, p2: int)
    requires
        is_nibble(high1),
        is_nibble(p1),
        is_nibble(high2),
        is_nibble(p2),
    ensures
        ({
            let first = Noise { timer_val: 0, ..apu.written(0x400E, joined(high1, p1)).noise };
            let second = Noise { timer_val: 0, ..apu.written(0x400E, joined(high2, p2)).noise };
            &&& p1 == p2 ==> first.timer_clocked().timer_val == second.timer_clocked().timer_val
            &&& p1 < p2 ==> first.timer_clocked().timer_val < second.timer_clocked().timer_val
        }),
{
    noise_period_register(apu, high1, p1);
    noise_period_register(apu, high2, p2);
}

/// The noise timer counts down to 0 and starts over, so that its register shifts once in
/// one clock more than its period.
pub proof fn noise_timer_counts(noise: Noise)
    ensures
        noise.timer_val > 0 ==> noise.timer_clocked() == (Noise {
            timer_val: (noise.timer_val - 1) as u16,
            ..noise
        }),
        noise.timer_val == 0 ==> noise.timer_clocked().shift == noise.next_shift(),
{
}

/// The shift register moves down by one; bit 14 becomes the difference of bit 0 and bit 6
/// in short mode, of bit 0 and bit 1 otherwise.
pub proof fn noise_feedback(noise: Noise)
    requires
        noise.wf(),
    ensures
        noise.next_shift() % 16384 == noise.shift / 2,
        noise.next_shift() / 16384 == (if noise.mode {
            (noise.shift + noise.shift / 64) % 2
        } else {
            (noise.shift + noise.shift / 2) % 2
        }),
{
}

/// The lengths of notes: the odd indices count up in twos (with 254 for the first), the even
/// ones are two scales of notes, each a ladder of doubled lengths, a dotted note of three
/// eighths of the longest, and two more.
pub open spec fn note_length(i: int) -> int {
    if i % 2 == 1 {
        if i == 1 {
            254
        } else {
            i - 1
        }
    } else {
        let base: int = if i < 16 {
            10
        } else {
            12
        };
        let step = i % 16 / 2;
        if step < 5 {
            base * bits::weight(step)
        } else if step == 5 {
            base * 6
        } else if i < 16 {
            if step == 6 {
                14
            } else {
                26
            }
        } else {
            if step == 6 {
                16
            } else {
                32
            }
        }
    }
}

#[verifier::rlimit(50)]
proof fn lemma_length_table(i: int)
    requires
        0 <= i < 32,
    ensures
        LENGTH_TABLE[i] == note_length(i),
{
    assert(LENGTH_TABLE[0] == 10
        && LENGTH_TABLE[1] == 254
        && LENGTH_TABLE[2] == 20
        && LENGTH_TABLE[3] == 2
        && LENGTH_TABLE[4] == 40
        && LENGTH_TABLE[5] == 4
        && LENGTH_TABLE[6] == 80
        && LENGTH_TABLE[7] == 6
        && LENGTH_TABLE[8] == 160
        && LENGTH_TABLE[9] == 8
        && LENGTH_TABLE[10] == 60
        && LENGTH_TABLE[11] == 10
        && LENGTH_TABLE[12] == 14
        && LENGTH_TABLE[13] == 12
        && LENGTH_TABLE[14] == 26
        && LENGTH_TABLE[15] == 14
        && LENGTH_TABLE[16] == 12
        && LENGTH_TABLE[17] == 16
        && LENGTH_TABLE[18] == 24
        && LENGTH_TABLE[19] == 18
        && LENGTH_TABLE[20] == 48
        && LENGTH_TABLE[21] == 20
        && LENGTH_TABLE[22] == 96
        && LENGTH_TABLE[23] == 22
        && LENGTH_TABLE[24] == 192
        && LENGTH_TABLE[25] == 24
        && LENGTH_TABLE[26] == 72
        && LENGTH_TABLE[27] == 26
        && LENGTH_TABLE[28] == 16
        && LENGTH_TABLE[29] == 28
        && LENGTH_TABLE[30] == 32
        && LENGTH_TABLE[31] == 30);
}

/// A write to a channel's fourth register loads the length counter with the length that the
/// upper five bits name, but only while the channel is enabled.
#[verifier::rlimit(50)]
pub proof fn length_registers(apu: ApuModel, i: int, rest: int)
    requires
        0 <= i < 32,
        0 <= rest < 8,
    ensures
        ({
            let val = (i * 8 + rest) as u8;
            let pulse1 = apu.written(0x4003, val).pulse1;
            let pulse2 = apu.written(0x4007, val).pulse2;
            let triangle = apu.written(0x400B, val).triangle;
            let noise = apu.written(0x400F, val).noise;
            &&& pulse1.length == (if apu.pulse1.enabled {
                note_length(i)
            } else {
                apu.pulse1.length as int
            })
            &&& pulse2.length == (if apu.pulse2.enabled {
                note_length(i)
            } else {
                apu.pulse2.length as int
            })
            &&& triangle.length == (if apu.triangle.enabled {
                note_length(i)
            } else {
                apu.triangle.length as int
            })
            &&& noise.length == (if apu.noise.enabled {
                note_length(i)
            } else {
                apu.noise.length as int
            })
            // The lower three bits are the upper bits of the period.
            &&& pulse1.timer == apu.pulse1.timer % 256 + rest * 256
            &&& pulse2.timer == apu.pulse2.timer % 256 + rest * 256
            &&& triangle.timer == apu.triangle.timer % 256 + rest * 256
            // The note starts over.
            &&& pulse1.seq_pos == 0 && pulse2.seq_pos == 0
            &&& pulse1.envelope == (Envelope { start: true, ..apu.pulse1.envelope })
            &&& pulse2.envelope == (Envelope { start: true, ..apu.pulse2.envelope })
            &&& noise.envelope == (Envelope { start: true, ..apu.noise.envelope })
            &&& triangle.linear_reload
            &&& triangle.seq_pos == apu.triangle.seq_pos
        }),
{
    lemma_length_table(i);
    let val = (i * 8 + rest) as u8;
    assert(val as int / 8 == i && val % 8 == rest);
}

/// An envelope as a volume register configures it: bits 0 to 3 are the volume or the period
/// of the decay, bit 4 selects constant volume, bit 5 loops.
pub open spec fn is_volume(before: Envelope, after: Envelope, high: int, low: int) -> bool {
    &&& after.volume == low
    &&& after.constant <==> high % 2 == 1
    &&& after.loop_flag <==> high / 2 % 2 == 1
    &&& after.start == before.start
    &&& after.decay == before.decay
    &&& after.divider == before.divider
}

/// The first registers of the pulse channels and of noise: the upper two bits are the duty,
/// bit 5 holds the length counter, the rest is the volume.
#[verifier::rlimit(50)]
pub proof fn volume_registers(apu: ApuModel, high: int, low: int)
    requires
        is_nibble(high),
        is_nibble(low),
    ensures
        ({
            let val = joined(high, low);
            let pulse1 = apu.written(0x4000, val).pulse1;
            let pulse2 = apu.written(0x4004, val).pulse2;
            let noise = apu.written(0x400C, val).noise;
            &&& pulse1 == (Pulse {
                duty: (high / 4) as u8,
                length_halt: high / 2 % 2 == 1,
                envelope: pulse1.envelope,
                ..apu.pulse1
            })
            &&& pulse2 == (Pulse {
                duty: (high / 4) as u8,
                length_halt: high / 2 % 2 == 1,
                envelope: pulse2.envelope,
                ..apu.pulse2
            })
            &&& noise == (Noise {
                length_halt: high / 2 % 2 == 1,
                envelope: noise.envelope,
                ..apu.noise
            })
            &&& is_volume(apu.pulse1.envelope, pulse1.envelope, high, low)
            &&& is_volume(apu.pulse2.envelope, pulse2.envelope, high, low)
            &&& is_volume(apu.noise.envelope, noise.envelope, high, low)
        }),
{
    lemma_nibbles(high, low);
}

/// The second registers of the pulse channels: bit 7 turns the sweep on, bits 4 to 6 are its
/// period, bit 3 its direction, bits 0 to 2 the shift.
#[verifier::rlimit(50)]
pub proof fn sweep_registers(apu: ApuModel, high: int, low: int)
    requires
        is_nibble(high),
        is_nibble(low),
    ensures
        ({
            let val = joined(high, low);
            let first = apu.written(0x4001, val).pulse1;
            let second = apu.written(0x4005, val).pulse2;
            &&& first == (Pulse {
                sweep: Sweep {
                    enabled: high >= 8,
                    period: (high % 8) as u8,
                    negate: low >= 8,
                    shift: (low % 8) as u8,
                    reload: true,
                    ..apu.pulse1.sweep
                },
                ..apu.pulse1
            })
            &&& second == (Pulse {
                sweep: Sweep {
                    enabled: high >= 8,
                    period: (high % 8) as u8,
                    negate: low >= 8,
                    shift: (low % 8) as u8,
                    reload: true,
                    ..apu.pulse2.sweep
                },
                ..apu.pulse2
            })
        }),
{
    lemma_nibbles(high, low);
}

/// A sweep up adds the period's own value shifted right; a sweep down takes it away again,
/// on the first pulse channel with one more. A period below 8 or a target above 2047 mutes.
#[verifier::rlimit(50)]
pub proof fn sweep_targets(s: Sweep, t: u16)
    requires
        s.wf(),
        t <= 0x7FF,
    ensures
        ({
            let up = Sweep { negate: false, ..s };
            let down = Sweep { negate: true, ..s };
            let part = up.target(t) - t;
            &&& part * bits::weight(s.shift as int) <= t < (part + 1) * bits::weight(s.shift as int)
            &&& !s.is_pulse1 ==> down.target(t) == t - part
            &&& s.is_pulse1 && t > part ==> down.target(t) == t - part - 1
            &&& s.is_pulse1 && t == part ==> down.target(t) == 65535
            &&& s.mutes(t) <==> t < 8 || s.target(t) >= 2048
        }),
{
    let w = bits::weight(s.shift as int);
    let delta = t as int / w;
    assert(delta * w <= t < (delta + 1) * w && 0 <= delta <= t) by (nonlinear_arith)
        requires
            delta == t as int / w,
            w >= 1,
            t >= 0,
    ;
}

/// The sweep changes the period only when its divider has run out, it is on, shifts at all
/// and does not mute; the divider starts over then or when the register was written.
pub proof fn sweep_clocks(p: Pulse)
    ensures
        ({
            let next = p.half_clocked();
            let due = p.sweep.divider == 0 && p.sweep.enabled && p.sweep.shift > 0;
            &&& due && !p.sweep.mutes(p.timer) ==> next.timer == p.sweep.target(p.timer)
            &&& !due || p.sweep.mutes(p.timer) ==> next.timer == p.timer
            &&& p.sweep.divider == 0 || p.sweep.reload ==> next.sweep.divider == p.sweep.period
            &&& p.sweep.divider > 0 && !p.sweep.reload ==> next.sweep.divider + 1
                == p.sweep.divider
            &&& !next.sweep.reload
        }),
{
}

/// Of the eight steps of a duty cycle one, two, four and six are high; the last waveform is
/// the second one upside down, and the first three begin at the second step.
pub proof fn duty_cycles(step: int)
    requires
        0 <= step < 8,
    ensures
        DUTY_TABLE[0][step] == 1 <==> 1 <= step < 2,
        DUTY_TABLE[1][step] == 1 <==> 1 <= step < 3,
        DUTY_TABLE[2][step] == 1 <==> 1 <= step < 5,
        DUTY_TABLE[3][step] == 1 - DUTY_TABLE[1][step],
        DUTY_TABLE[0][step] <= 1 && DUTY_TABLE[1][step] <= 1 && DUTY_TABLE[2][step] <= 1,
{
    assert(DUTY_TABLE[0][0] == 0 && DUTY_TABLE[0][1] == 1 && DUTY_TABLE[0][2] == 0 && DUTY_TABLE[0][3] == 0 && DUTY_TABLE[0][4] == 0 && DUTY_TABLE[0][5] == 0 && DUTY_TABLE[0][6] == 0 && DUTY_TABLE[0][7] == 0);
    assert(DUTY_TABLE[1][0] == 0 && DUTY_TABLE[1][1] == 1 && DUTY_TABLE[1][2] == 1 && DUTY_TABLE[1][3] == 0 && DUTY_TABLE[1][4] == 0 && DUTY_TABLE[1][5] == 0 && DUTY_TABLE[1][6] == 0 && DUTY_TABLE[1][7] == 0);
    assert(DUTY_TABLE[2][0] == 0 && DUTY_TABLE[2][1] == 1 && DUTY_TABLE[2][2] == 1 && DUTY_TABLE[2][3] == 1 && DUTY_TABLE[2][4] == 1 && DUTY_TABLE[2][5] == 0 && DUTY_TABLE[2][6] == 0 && DUTY_TABLE[2][7] == 0);
    assert(DUTY_TABLE[3][0] == 1 && DUTY_TABLE[3][1] == 0 && DUTY_TABLE[3][2] == 0 && DUTY_TABLE[3][3] == 1 && DUTY_TABLE[3][4] == 1 && DUTY_TABLE[3][5] == 1 && DUTY_TABLE[3][6] == 1 && DUTY_TABLE[3][7] == 1);
}

/// What a pulse channel plays: silence if it is off, out of length or muted; else in the high
/// steps of its waveform the volume, constant or decaying.
pub proof fn pulse_plays(p: Pulse)
    requires
        p.wf(),
    ensures
        ({
            let heard = p.enabled && p.length > 0 && !p.sweep.mutes(p.timer);
            let high = match p.duty {
                0 => p.seq_pos == 1,
                1 => p.seq_pos == 1 || p.seq_pos == 2,
                2 => 1 <= p.seq_pos <= 4,
                _ => p.seq_pos == 0 || p.seq_pos >= 3,
            };
            &&& !heard || !high ==> p.level() == 0
            &&& heard && high && p.envelope.constant ==> p.level() == p.envelope.volume
            &&& heard && high && !p.envelope.constant ==> p.level() == p.envelope.decay
        }),
{
    duty_cycles(p.seq_pos as int);
}

/// The waveform of a pulse channel moves on by one step of eight each time its timer runs
/// out, which is then loaded with the period.
pub proof fn pulse_timer(p: Pulse)
    requires
        p.wf(),
    ensures
        ({
            let next = p.timer_clocked();
            &&& p.timer_val == 0 ==> next.timer_val == p.timer
            &&& p.timer_val == 0 ==> next.seq_pos == (if p.seq_pos == 7 {
                0
            } else {
                p.seq_pos + 1
            })
            &&& p.timer_val > 0 ==> next.timer_val + 1 == p.timer_val && next.seq_pos == p.seq_pos
            &&& next == (Pulse { timer_val: next.timer_val, seq_pos: next.seq_pos, ..p })
        }),
{
}

/// An envelope that was started plays 15 and then one less with every period of `volume + 1`
/// clocks; at 0 it stays or, looping, begins again.
pub proof fn envelope_steps(e: Envelope)
    ensures
        ({
            let next = e.clocked();
            &&& e.start ==> next.decay == 15 && next.divider == e.volume && !next.start
            &&& !e.start && e.divider > 0 ==> next == (Envelope {
                divider: (e.divider - 1) as u8,
                ..e
            })
            &&& !e.start && e.divider == 0 ==> {
                &&& next.divider == e.volume
                &&& e.decay > 0 ==> next.decay + 1 == e.decay
                &&& e.decay == 0 && e.loop_flag ==> next.decay == 15
                &&& e.decay == 0 && !e.loop_flag ==> next.decay == 0
            }
            &&& next == (Envelope {
                start: false,
                decay: next.decay,
                divider: next.divider,
                ..e
            })
        }),
{
}

/// $4008: bit 7 holds the length counter and keeps the linear counter reloading, the rest is
/// what the linear counter starts from.
pub proof fn triangle_registers(apu: ApuModel, held: bool, count: int)
    requires
        0 <= count < 128,
    ensures
        ({
            let val = (count + (if held {
                128int
            } else {
                0
            })) as u8;
            let t = apu.written(0x4008, val).triangle;
            &&& t == (Triangle { control: held, linear_load: count as u8, ..apu.triangle })
            &&& Triangle { linear_reload: true, ..t }.linear_clocked().linear_counter == count
            &&& Triangle { linear_reload: true, ..t }.linear_clocked().linear_reload == held
        }),
{
}

/// The triangle moves on only while both counters run, and goes down from 15 to 0 and up
/// again in thirty-two steps.
pub proof fn triangle_plays(t: Triangle)
    requires
        t.wf(),
    ensures
        ({
            let next = t.timer_clocked();
            let runs = t.length > 0 && t.linear_counter > 0;
            &&& t.timer_val > 0 ==> next.seq_pos == t.seq_pos && next.timer_val + 1 == t.timer_val
            &&& t.timer_val == 0 ==> next.timer_val == t.timer
            &&& t.timer_val == 0 && !runs ==> next.seq_pos == t.seq_pos
            &&& t.timer_val == 0 && runs ==> next.seq_pos == (if t.seq_pos == 31 {
                0
            } else {
                t.seq_pos + 1
            })
            &&& !t.enabled || !runs || t.timer < 2 ==> t.level() == 0
            &&& t.enabled && runs && t.timer >= 2 ==> t.level() == (if t.seq_pos < 16 {
                15 - t.seq_pos
            } else {
                t.seq_pos - 16
            })
        }),
{
    crate::apu_laws::levels_of_triangle(t.seq_pos as int);
}

/// The linear counter counts down to 0 unless it is being reloaded.
pub proof fn linear_counter_steps(t: Triangle)
    ensures
        ({
            let next = t.linear_clocked();
            &&& t.linear_reload ==> next.linear_counter == t.linear_load
            &&& !t.linear_reload && t.linear_counter > 0 ==> next.linear_counter + 1
                == t.linear_counter
            &&& !t.linear_reload && t.linear_counter == 0 ==> next.linear_counter == 0
            &&& next.linear_reload <==> t.linear_reload && t.control
        }),
{
}

/// The noise channel plays its volume while bit 0 of the shift register is clear.
pub proof fn noise_plays(n: Noise)
    ensures
        !n.enabled || n.length == 0 || n.shift % 2 == 1 ==> n.level() == 0,
        n.enabled && n.length > 0 && n.shift % 2 == 0 && n.envelope.constant ==> n.level()
            == n.envelope.volume,
        n.enabled && n.length > 0 && n.shift % 2 == 0 && !n.envelope.constant ==> n.level()
            == n.envelope.decay,
{
}

/// The periods of the sample channel.
pub open spec fn sample_period(p: int) -> int {
    DMC_TABLE[p] as int
}

proof fn lemma_sample_table(p: int)
    requires
        is_nibble(p),
    ensures
        p == 0 ==> sample_period(p) == 428,
        p == 1 ==> sample_period(p) == 380,
        p == 2 ==> sample_period(p) == 340,
        p == 3 ==> sample_period(p) == 320,
        p == 4 ==> sample_period(p) == 286,
        p == 5 ==> sample_period(p) == 254,
        p == 6 ==> sample_period(p) == 226,
        p == 7 ==> sample_period(p) == 214,
        p == 8 ==> sample_period(p) == 190,
        p == 9 ==> sample_period(p) == 160,
        p == 10 ==> sample_period(p) == 142,
        p == 11 ==> sample_period(p) == 128,
        p == 12 ==> sample_period(p) == 106,
        p == 13 ==> sample_period(p) == 84,
        p == 14 ==> sample_period(p) == 72,
        p == 15 ==> sample_period(p) == 54,
{
    assert(DMC_TABLE[0] == 428
        && DMC_TABLE[1] == 380
        && DMC_TABLE[2] == 340
        && DMC_TABLE[3] == 320
        && DMC_TABLE[4] == 286
        && DMC_TABLE[5] == 254
        && DMC_TABLE[6] == 226
        && DMC_TABLE[7] == 214
        && DMC_TABLE[8] == 190
        && DMC_TABLE[9] == 160
        && DMC_TABLE[10] == 142
        && DMC_TABLE[11] == 128
        && DMC_TABLE[12] == 106
        && DMC_TABLE[13] == 84
        && DMC_TABLE[14] == 72
        && DMC_TABLE[15] == 54);
}

/// $4010: bit 7 enables the interrupt, bit 6 loops, bits 0 to 3 name the period, which
/// shortens as the index grows.
#[verifier::rlimit(50)]
pub proof fn sample_rate_register(apu: ApuModel, high: int, p: int)
    requires
        is_nibble(high),
        is_nibble(p),
    ensures
        ({
            let dmc = apu.written(0x4010, joined(high, p)).dmc;
            &&& dmc == (Dmc {
                irq_enabled: high >= 8,
                loop_flag: high / 4 % 2 == 1,
                rate_idx: p as u8,
                ..apu.dmc
            })
            &&& dmc.timer_val == 0 ==> dmc.period_ended().timer_val == sample_period(p)
        }),
        p == 0 ==> sample_period(p) == 428,
        p == 1 ==> sample_period(p) == 380,
        p == 2 ==> sample_period(p) == 340,
        p == 3 ==> sample_period(p) == 320,
        p == 4 ==> sample_period(p) == 286,
        p == 5 ==> sample_period(p) == 254,
        p == 6 ==> sample_period(p) == 226,
        p == 7 ==> sample_period(p) == 214,
        p == 8 ==> sample_period(p) == 190,
        p == 9 ==> sample_period(p) == 160,
        p == 10 ==> sample_period(p) == 142,
        p == 11 ==> sample_period(p) == 128,
        p == 12 ==> sample_period(p) == 106,
        p == 13 ==> sample_period(p) == 84,
        p == 14 ==> sample_period(p) == 72,
        p == 15 ==> sample_period(p) == 54,
{
    lemma_sample_table(p);
    lemma_nibbles(high, p);
}

/// $4011 sets the level from seven bits; $4012 and $4013 place the sample: it starts at a
/// multiple of 64 above $C000 and has a multiple of 16 bytes and one more.
pub proof fn sample_registers(apu: ApuModel, val: u8)
    ensures
        apu.written(0x4011, val).dmc == (Dmc { output_level: val % 128, ..apu.dmc }),
        apu.written(0x4011, val).levels().dmc == val % 128,
        apu.written(0x4012, val).dmc == (Dmc {
            sample_addr: (0xC000 + 64 * val) as u16,
            ..apu.dmc
        }),
        apu.written(0x4013, val).dmc == (Dmc { sample_len: (16 * val + 1) as u16, ..apu.dmc }),
{
}

/// A set bit of the sample raises the level by two and a clear one lowers it by two, unless
/// that would leave 0 to 127; silence leaves it alone. Bits come lowest first.
pub proof fn sample_bits(d: Dmc)
    requires
        d.wf(),
    ensures
        ({
            let next = d.bit_played();
            &&& d.silence ==> next == d
            &&& !d.silence && d.shift_register % 2 == 1 && d.output_level <= 125
                ==> next.output_level == d.output_level + 2
            &&& !d.silence && d.shift_register % 2 == 0 && d.output_level >= 2
                ==> next.output_level == d.output_level - 2
            &&& !d.silence && d.shift_register % 2 == 1 && d.output_level > 125
                ==> next.output_level == d.output_level
            &&& !d.silence && d.shift_register % 2 == 0 && d.output_level < 2
                ==> next.output_level == d.output_level
            &&& !d.silence ==> next.shift_register == d.shift_register / 2
        }),
{
}

/// After eight bits the waiting byte is played next, or silence if none waits.
pub proof fn sample_bytes(d: Dmc)
    ensures
        ({
            let next = d.bit_counted();
            &&& d.bits_remaining > 1 ==> next == (Dmc {
                bits_remaining: (d.bits_remaining - 1) as u8,
                ..d
            })
            &&& d.bits_remaining <= 1 ==> next.bits_remaining == 8 && next.buffer_empty
            &&& d.bits_remaining <= 1 ==> next.silence == d.buffer_empty
            &&& d.bits_remaining <= 1 && !d.buffer_empty ==> next.shift_register
                == d.sample_buffer
        }),
{
}

/// A byte of the sample is asked for when the buffer is empty and bytes are left; the
/// address moves on by one, from the end of memory to $8000, and a looping sample starts
/// over behind its last byte.
pub proof fn sample_fetches(d: Dmc)
    requires
        d.wf(),
    ensures
        d.fetch_address() is Some <==> d.timer_val == 0 && d.period_ended().buffer_empty
            && d.bytes_remaining > 0,
        d.fetch_address() matches Some(addr) ==> addr == d.current_addr,
        ({
            let next = d.byte_requested();
            let loops = d.bytes_remaining == 1 && d.loop_flag;
            &&& d.bytes_remaining > 0 && !loops ==> next.bytes_remaining + 1 == d.bytes_remaining
            &&& d.bytes_remaining > 0 && !loops ==> next.current_addr == (if d.current_addr
                == 0xFFFF {
                0x8000
            } else {
                d.current_addr + 1
            })
            &&& loops ==> next.current_addr == d.sample_addr && next.bytes_remaining
                == d.sample_len
        }),
        !d.filled(0).buffer_empty,
{
}

/// $4015: bits 0 to 4 turn pulse 1, pulse 2, triangle, noise and samples on and off. Off
/// empties the length counter; a sample that is turned on begins if none is playing.
#[verifier::rlimit(50)]
pub proof fn enable_register(apu: ApuModel, val: u8)
    ensures
        ({
            let after = apu.written(0x4015, val);
            &&& after.pulse1.enabled <==> bits::bit8(val, 0)
            &&& after.pulse2.enabled <==> bits::bit8(val, 1)
            &&& after.triangle.enabled <==> bits::bit8(val, 2)
            &&& after.noise.enabled <==> bits::bit8(val, 3)
            &&& after.dmc.enabled <==> bits::bit8(val, 4)
            &&& !bits::bit8(val, 0) ==> after.pulse1.length == 0
            &&& !bits::bit8(val, 1) ==> after.pulse2.length == 0
            &&& !bits::bit8(val, 2) ==> after.triangle.length == 0
            &&& !bits::bit8(val, 3) ==> after.noise.length == 0
            &&& !bits::bit8(val, 4) ==> after.dmc.bytes_remaining == 0
            &&& bits::bit8(val, 0) ==> after.pulse1 == (Pulse { enabled: true, ..apu.pulse1 })
            &&& bits::bit8(val, 1) ==> after.pulse2 == (Pulse { enabled: true, ..apu.pulse2 })
            &&& bits::bit8(val, 2) ==> after.triangle == (Triangle {
                enabled: true,
                ..apu.triangle
            })
            &&& bits::bit8(val, 3) ==> after.noise == (Noise { enabled: true, ..apu.noise })
            &&& bits::bit8(val, 4) && apu.dmc.bytes_remaining > 0 ==> after.dmc == (Dmc {
                enabled: true,
                ..apu.dmc
            })
            &&& bits::bit8(val, 4) && apu.dmc.bytes_remaining == 0 ==> after.dmc == (Dmc {
                enabled: true,
                current_addr: apu.dmc.sample_addr,
                bytes_remaining: apu.dmc.sample_len,
                ..apu.dmc
            })
            &&& after == (ApuModel {
                pulse1: after.pulse1,
                pulse2: after.pulse2,
                triangle: after.triangle,
                noise: after.noise,
                dmc: after.dmc,
                ..apu
            })
        }),
{
}

/// Reading $4015 tells, bit by bit, which channels still play, and of the frame interrupt.
pub proof fn status_positions(apu: ApuModel)
    ensures
        bits::bit8(apu.status(), 0) <==> apu.pulse1.length > 0,
        bits::bit8(apu.status(), 1) <==> apu.pulse2.length > 0,
        bits::bit8(apu.status(), 2) <==> apu.triangle.length > 0,
        bits::bit8(apu.status(), 3) <==> apu.noise.length > 0,
        bits::bit8(apu.status(), 4) <==> apu.dmc.bytes_remaining > 0,
        !bits::bit8(apu.status(), 5),
        bits::bit8(apu.status(), 6) <==> apu.frame_irq,
        !bits::bit8(apu.status(), 7),
{
    bits::bit_weights(apu.status());
}

/// Which registers belong to which channel: four each, in order; a write to one leaves the
/// other channels alone.
#[verifier::rlimit(50)]
pub proof fn registers_belong_to_channels(apu: ApuModel, channel: int, reg: int, val: u8)
    requires
        0 <= channel < 5,
        0 <= reg < 4,
    ensures
        ({
            let after = apu.written((0x4000 + 4 * channel + reg) as u16, val);
            &&& after.pulse1 == (if channel == 0 {
                apu.pulse1.written(reg as u8, val)
            } else {
                apu.pulse1
            })
            &&& after.pulse2 == (if channel == 1 {
                apu.pulse2.written(reg as u8, val)
            } else {
                apu.pulse2
            })
            &&& after.triangle == (if channel == 2 {
                apu.triangle.written(reg as u8, val)
            } else {
                apu.triangle
            })
            &&& after.noise == (if channel == 3 {
                apu.noise.written(reg as u8, val)
            } else {
                apu.noise
            })
            &&& after.dmc == (if channel == 4 {
                apu.dmc.written(reg as u8, val)
            } else {
                apu.dmc
            })
            &&& channel == 2 && reg == 1 || channel == 3 && reg == 1 ==> after == apu
        }),
{
}

/// $4017: bit 7 selects the five-step sequence, bit 6 inhibits the interrupt and takes back
/// a raised one; the sequence starts over. The five-step one clocks the units at once.
#[verifier::rlimit(50)]
pub proof fn sequence_register(apu: ApuModel, val: u8)
    ensures
        ({
            let after = apu.written(0x4017, val);
            &&& after.frame_mode == 1 <==> bits::bit8(val, 7)
            &&& after.frame_mode <= 1
            &&& after.frame_irq_inhibit <==> bits::bit8(val, 6)
            &&& after.frame_irq <==> apu.frame_irq && !bits::bit8(val, 6)
            &&& after.frame_counter == 0
            &&& bits::bit8(val, 7) ==> {
                &&& after.pulse1 == apu.pulse1.envelope_clocked().half_clocked()
                &&& after.pulse2 == apu.pulse2.envelope_clocked().half_clocked()
                &&& after.triangle == apu.triangle.linear_clocked().half_clocked()
                &&& after.noise == apu.noise.envelope_clocked().half_clocked()
            }
            &&& !bits::bit8(val, 7) ==> {
                &&& after.pulse1 == apu.pulse1
                &&& after.pulse2 == apu.pulse2
                &&& after.triangle == apu.triangle
                &&& after.noise == apu.noise
            }
            &&& after.dmc == apu.dmc
        }),
{
}

/// The frame counter's steps divide the four-step sequence into quarters, to within half a
/// cycle; the five-step one ends
/// about a quarter later. Envelopes move at every step but the idle
/// fourth of five, length counters at every second one.
#[verifier::rlimit(50)]
pub proof fn sequence_steps(apu: ApuModel, n: int)
    requires
        apu.wf(),
        n == apu.frame_counter + 1,
    ensures
        ({
            let next = apu.clocked();
            let last = n == apu.sequence_length();
            let first = -2 <= 4 * n - 14915 <= 1;
            let second = -2 <= 4 * n - 2 * 14915 <= 1;
            let third = -2 <= 4 * n - 3 * 14915 <= 1;
            let quarter = first || second || third || last;
            let half = second || last;
            let before = apu.timers_clocked();
            &&& next.noise.envelope == (if quarter {
                before.noise.envelope.clocked()
            } else {
                before.noise.envelope
            })
            &&& next.pulse1.envelope == (if quarter {
                before.pulse1.envelope.clocked()
            } else {
                before.pulse1.envelope
            })
            &&& next.pulse2.envelope == (if quarter {
                before.pulse2.envelope.clocked()
            } else {
                before.pulse2.envelope
            })
            &&& next.triangle.linear_counter == (if quarter {
                before.triangle.linear_clocked().linear_counter
            } else {
                before.triangle.linear_counter
            })
            &&& next.noise.length == (if half {
                channels::counted(before.noise.length, before.noise.length_halt)
            } else {
                before.noise.length
            })
            &&& next.pulse1.length == (if half {
                channels::counted(before.pulse1.length, before.pulse1.length_halt)
            } else {
                before.pulse1.length
            })
            &&& next.pulse2.length == (if half {
                channels::counted(before.pulse2.length, before.pulse2.length_halt)
            } else {
                before.pulse2.length
            })
            &&& next.triangle.length == (if half {
                channels::counted(before.triangle.length, before.triangle.control)
            } else {
                before.triangle.length
            })
            &&& last <==> next.frame_counter == 0
            &&& apu.frame_mode == 0 ==> apu.sequence_length() == 14915
            &&& apu.frame_mode == 1 ==> apu.sequence_length() == 18641
        }),
{
    reveal(ApuModel::clocked);
}

/// The triangle's timer runs at the processor's rate, those of pulse and noise at half of it.
pub proof fn timer_rates(apu: ApuModel)
    ensures
        ({
            let once = apu.timers_clocked();
            let twice = once.timers_clocked();
            &&& once.triangle == apu.triangle.timer_clocked()
            &&& twice.triangle == apu.triangle.timer_clocked().timer_clocked()
            &&& twice.pulse1 == apu.pulse1.timer_clocked()
            &&& twice.pulse2 == apu.pulse2.timer_clocked()
            &&& twice.noise == apu.noise.timer_clocked()
            &&& twice.dmc == apu.dmc.timer_clocked().timer_clocked()
        }),
{
}

} // verus!
