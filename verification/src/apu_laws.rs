//! What holds of the sound generator.

use vstd::prelude::*;
use crate::bits;
use crate::apu::{ApuModel, Levels, BUFFER_SIZE, PHASE_CYCLE, PHASE_SAMPLE};
use crate::channels;
use crate::channels::{Dmc, Envelope, Noise, Pulse, Triangle, TRIANGLE_TABLE};

verus! {

/// How many of so many samples the buffer has room for.
pub open spec fn kept(samples: int) -> int {
    if samples < BUFFER_SIZE {
        samples
    } else {
        BUFFER_SIZE - 1
    }
}

/// One cycle: the counters move by one, and a sample is taken when it is due.
proof fn lemma_clock(apu: ApuModel)
    requires
        apu.wf(),
    ensures
        ({
            let next = apu.clocked();
            &&& next.frame_mode == apu.frame_mode
            &&& next.cycle_count == apu.cycle_count + 1
            &&& next.frame_counter == (apu.frame_counter + 1) % apu.sequence_length()
            &&& next.sample_phase == (apu.sample_phase + PHASE_CYCLE) % (PHASE_SAMPLE as int)
            &&& next.samples.len() == kept(
                apu.samples.len() + (apu.sample_phase + PHASE_CYCLE) / (PHASE_SAMPLE as int),
            )
        }),
{
    reveal(ApuModel::clocked);
    let phase = apu.sample_phase + PHASE_CYCLE;
    if phase >= PHASE_SAMPLE {
        assert(phase / (PHASE_SAMPLE as int) == 1);
        assert(phase % (PHASE_SAMPLE as int) == phase - PHASE_SAMPLE);
    } else {
        assert(phase / (PHASE_SAMPLE as int) == 0);
        assert(phase % (PHASE_SAMPLE as int) == phase);
    }
    let n = apu.frame_counter + 1;
    if apu.frame_mode == 0 {
        assert(n % 14915 == (if n == 14915 {
            0
        } else {
            n
        }));
    } else {
        assert(n % 18641 == (if n == 18641 {
            0
        } else {
            n
        }));
    }
}

/// Clocking preserves the invariant.
pub proof fn clocking_keeps_wf(apu: ApuModel)
    requires
        apu.wf(),
    ensures
        apu.clocked().wf(),
{
    reveal(ApuModel::clocked);
    lemma_timers_wf(apu);
    let t = apu.timers_clocked();
    lemma_quarter_wf(t);
    lemma_half_wf(t.quarter_clocked());
    lemma_clock(apu);
}

proof fn lemma_timers_wf(apu: ApuModel)
    requires
        apu.wf(),
    ensures
        apu.timers_clocked().units_wf(),
{
    lemma_dmc_wf(apu.dmc);
}

proof fn lemma_dmc_wf(d: Dmc)
    requires
        d.wf(),
    ensures
        d.timer_clocked().wf(),
{
}

proof fn lemma_quarter_wf(apu: ApuModel)
    requires
        apu.units_wf(),
    ensures
        apu.quarter_clocked().units_wf(),
{
}

proof fn lemma_half_wf(apu: ApuModel)
    requires
        apu.units_wf(),
    ensures
        apu.half_clocked().units_wf(),
{
}

/// The frame counter's sequence repeats: 14915 cycles in four steps, 18641 in five.
pub proof fn sequence_repeats(apu: ApuModel, n: nat)
    requires
        apu.wf(),
    ensures
        apu.clocked_times(n).wf(),
        apu.clocked_times(n).frame_mode == apu.frame_mode,
        apu.clocked_times(n).frame_counter == (apu.frame_counter + n) % apu.sequence_length(),
        apu.clocked_times(n).cycle_count == apu.cycle_count + n,
    decreases n,
{
    if n > 0 {
        sequence_repeats(apu, (n - 1) as nat);
        let before = apu.clocked_times((n - 1) as nat);
        lemma_clock(before);
        clocking_keeps_wf(before);
        let from = apu.frame_counter + n - 1;
        if apu.frame_mode == 0 {
            assert((from % 14915 + 1) % 14915 == (from + 1) % 14915);
        } else {
            assert((from % 18641 + 1) % 18641 == (from + 1) % 18641);
        }
    } else {
        if apu.frame_mode == 0 {
            assert(apu.frame_counter % 14915 == apu.frame_counter);
        } else {
            assert(apu.frame_counter % 18641 == apu.frame_counter);
        }
    }
}

/// Samples that are dropped stay dropped.
proof fn lemma_kept(samples: int, more: int)
    requires
        more >= 0,
    ensures
        kept(kept(samples) + more) == kept(samples + more),
{
}

/// Whole sample periods and the rest, one cycle later.
proof fn lemma_periods(time: int)
    requires
        time >= 0,
    ensures
        ({
            let period = PHASE_SAMPLE as int;
            &&& time / period >= 0
            &&& time / period + (time % period + PHASE_CYCLE) / period == (time + PHASE_CYCLE)
                / period
            &&& (time % period + PHASE_CYCLE) % period == (time + PHASE_CYCLE) % period
        }),
{
}

/// Samples are taken at the sample rate: after `n` cycles as many have come as whole sample
/// periods have passed, and as many are kept as there is room for.
pub proof fn samples_come_at_rate(apu: ApuModel, n: nat)
    requires
        apu.wf(),
    ensures
        ({
            let time = apu.sample_phase + n * PHASE_CYCLE;
            let next = apu.clocked_times(n);
            &&& next.samples.len() == kept(apu.samples.len() + time / (PHASE_SAMPLE as int))
            &&& next.sample_phase == time % (PHASE_SAMPLE as int)
        }),
    decreases n,
{
    if n > 0 {
        samples_come_at_rate(apu, (n - 1) as nat);
        sequence_repeats(apu, (n - 1) as nat);
        let before = apu.clocked_times((n - 1) as nat);
        lemma_clock(before);
        assert(apu.clocked_times(n) == before.clocked());
        let time = apu.sample_phase + (n - 1) * PHASE_CYCLE;
        assert((n - 1) * PHASE_CYCLE >= 0) by (nonlinear_arith)
            requires
                n > 0,
        ;
        lemma_periods(time);
        lemma_kept(
            apu.samples.len() + time / (PHASE_SAMPLE as int),
            (time % (PHASE_SAMPLE as int) + PHASE_CYCLE) / (PHASE_SAMPLE as int),
        );
        assert(n * PHASE_CYCLE == (n - 1) * PHASE_CYCLE + PHASE_CYCLE) by (nonlinear_arith)
            requires
                n > 0,
        ;
    } else {
        assert(0 * PHASE_CYCLE == 0);
    }
}

/// Four steps end with the frame interrupt, unless it is inhibited.
pub proof fn sequence_interrupts(apu: ApuModel)
    requires
        apu.wf(),
        apu.frame_counter == apu.sequence_length() - 1,
    ensures
        apu.clocked().frame_counter == 0,
        apu.clocked().frame_irq == (apu.frame_irq || (apu.frame_mode == 0
            && !apu.frame_irq_inhibit)),
{
    reveal(ApuModel::clocked);
}

/// After a write to $4017 that selects five steps or inhibits the interrupt, no frame
/// interrupt comes, however long the unit runs.
pub proof fn sequence_stays_quiet(apu: ApuModel, val: u8, n: nat)
    requires
        !apu.frame_irq,
        bits::bit8(val, 6) || bits::bit8(val, 7),
    ensures
        !apu.written(0x4017, val).clocked_times(n).frame_irq,
{
    lemma_quiet(apu.written(0x4017, val), n);
}

/// A unit that raises no interrupt goes on raising none.
proof fn lemma_quiet(apu: ApuModel, n: nat)
    requires
        !apu.frame_irq,
        apu.frame_mode == 1 || apu.frame_irq_inhibit,
    ensures
        ({
            let after = apu.clocked_times(n);
            &&& !after.frame_irq
            &&& after.frame_mode == apu.frame_mode
            &&& after.frame_irq_inhibit == apu.frame_irq_inhibit
        }),
    decreases n,
{
    if n > 0 {
        lemma_quiet(apu, (n - 1) as nat);
        reveal(ApuModel::clocked);
    }
}

/// Reading the status acknowledges the frame interrupt.
pub proof fn status_acknowledges(apu: ApuModel)
    ensures
        apu.status() / 64 % 2 == (if apu.frame_irq {
            1int
        } else {
            0
        }),
        apu.status_read().status() / 64 % 2 == 0,
{
}

/// Writing 0 to $4015 silences all channels but the sample channel, whose level stays
/// and which plays no further bytes.
pub proof fn disabled_channels_are_silent(apu: ApuModel)
    ensures
        ({
            let off = apu.written(0x4015, 0);
            &&& off.levels().pulse1 == 0
            &&& off.levels().pulse2 == 0
            &&& off.levels().triangle == 0
            &&& off.levels().noise == 0
            &&& off.levels().dmc == apu.dmc.output_level
            &&& off.dmc.bytes_remaining == 0
            &&& off.status() % 32 == 0
        }),
{
    assert(apu.written(0x4015, 0) == apu.channels_enabled(0));
}

/// Levels are in range: four bits, seven for the sample channel.
pub proof fn levels_in_range(apu: ApuModel)
    requires
        apu.wf(),
    ensures
        apu.levels().pulse1 <= 15,
        apu.levels().pulse2 <= 15,
        apu.levels().triangle <= 15,
        apu.levels().noise <= 15,
        apu.levels().dmc <= 127,
{
    lemma_triangle_table(apu.triangle.seq_pos as int);
}

proof fn lemma_triangle_table(i: int)
    requires
        0 <= i < 32,
    ensures
        TRIANGLE_TABLE[i] == (if i < 16 {
            15 - i
        } else {
            i - 16
        }),
{
    assert(TRIANGLE_TABLE[0] == 15 && TRIANGLE_TABLE[1] == 14 && TRIANGLE_TABLE[2] == 13
        && TRIANGLE_TABLE[3] == 12 && TRIANGLE_TABLE[4] == 11 && TRIANGLE_TABLE[5] == 10
        && TRIANGLE_TABLE[6] == 9 && TRIANGLE_TABLE[7] == 8 && TRIANGLE_TABLE[8] == 7
        && TRIANGLE_TABLE[9] == 6 && TRIANGLE_TABLE[10] == 5 && TRIANGLE_TABLE[11] == 4
        && TRIANGLE_TABLE[12] == 3 && TRIANGLE_TABLE[13] == 2 && TRIANGLE_TABLE[14] == 1
        && TRIANGLE_TABLE[15] == 0 && TRIANGLE_TABLE[16] == 0 && TRIANGLE_TABLE[17] == 1
        && TRIANGLE_TABLE[18] == 2 && TRIANGLE_TABLE[19] == 3 && TRIANGLE_TABLE[20] == 4
        && TRIANGLE_TABLE[21] == 5 && TRIANGLE_TABLE[22] == 6 && TRIANGLE_TABLE[23] == 7
        && TRIANGLE_TABLE[24] == 8 && TRIANGLE_TABLE[25] == 9 && TRIANGLE_TABLE[26] == 10
        && TRIANGLE_TABLE[27] == 11 && TRIANGLE_TABLE[28] == 12 && TRIANGLE_TABLE[29] == 13
        && TRIANGLE_TABLE[30] == 14 && TRIANGLE_TABLE[31] == 15);
}

/// The triangle's waveform goes down from 15 to 0 and up again.
pub proof fn levels_of_triangle(i: int)
    requires
        0 <= i < 32,
    ensures
        TRIANGLE_TABLE[i] == (if i < 16 {
            15 - i
        } else {
            i - 16
        }),
{
    lemma_triangle_table(i);
}

/// A length counter after `n` half frames.
pub open spec fn counted_times(length: u8, halted: bool, n: nat) -> u8
    decreases n,
{
    if n == 0 {
        length
    } else {
        channels::counted(counted_times(length, halted, (n - 1) as nat), halted)
    }
}

/// A length counter reaches 0 after as many half frames and stays there; a held one
/// does not move.
pub proof fn length_runs_out(length: u8, halted: bool, n: nat)
    ensures
        counted_times(length, halted, n) == (if halted {
            length as int
        } else if n < length {
            length - n
        } else {
            0
        }),
    decreases n,
{
    if n > 0 {
        length_runs_out(length, halted, (n - 1) as nat);
    }
}

/// An envelope after `n` clocks.
pub open spec fn envelope_times(e: Envelope, n: nat) -> Envelope
    decreases n,
{
    if n == 0 {
        e
    } else {
        envelope_times(e, (n - 1) as nat).clocked()
    }
}

/// An envelope that neither restarts nor loops only ever gets quieter, and with a period
/// of one clock it is silent after fifteen.
pub proof fn envelope_fades(e: Envelope, n: nat)
    requires
        e.wf(),
        !e.start,
        !e.loop_flag,
        e.volume == 0,
        e.divider == 0,
    ensures
        envelope_times(e, n).decay == (if n < e.decay {
            e.decay - n
        } else {
            0
        }),
    decreases n,
{
    lemma_fading(e, n);
}

proof fn lemma_fading(e: Envelope, n: nat)
    requires
        e.wf(),
        !e.start,
        !e.loop_flag,
        e.volume == 0,
        e.divider == 0,
    ensures
        envelope_times(e, n) == (Envelope {
            decay: (if n < e.decay {
                e.decay - n
            } else {
                0
            }) as u8,
            ..e
        }),
    decreases n,
{
    if n > 0 {
        lemma_fading(e, (n - 1) as nat);
    }
}

/// An envelope never gets louder than where it starts, unless it restarts or loops.
pub proof fn envelope_never_rises(e: Envelope)
    requires
        !e.start,
        !e.loop_flag,
    ensures
        e.clocked().decay <= e.decay,
        !e.clocked().start,
        !e.clocked().loop_flag,
{
}

/// The noise channel's shift register never becomes 0, so it never stops.
pub proof fn noise_never_stops(n: Noise)
    requires
        n.wf(),
    ensures
        0 < n.next_shift() < 32768,
{
}

/// Writing the two timer registers sets the period: eleven bits.
pub proof fn pulse_period(p: Pulse, lo: u8, hi: u8)
    requires
        p.wf(),
    ensures
        p.written(2, lo).written(3, hi).timer == lo + hi % 8 * 256,
        p.written(3, hi).written(2, lo).timer == lo + hi % 8 * 256,
{
}

/// The same for the triangle channel.
pub proof fn triangle_period(t: Triangle, lo: u8, hi: u8)
    requires
        t.wf(),
    ensures
        t.written(2, lo).written(3, hi).timer == lo + hi % 8 * 256,
        t.written(3, hi).written(2, lo).timer == lo + hi % 8 * 256,
{
}

} // verus!
