// The sound unit and the buffer to the sound card.

use contra_nes::apu::{Apu, PHASE_CYCLE, PHASE_SAMPLE, SAMPLE_RATE};
use contra_nes::audio::AudioBuffer;
use contra_nes::channels::{Dmc, Envelope, Noise, Pulse, Sweep, Triangle};

#[test]
fn envelope_fades_and_loops() {
    let mut e = Envelope::new();
    e.volume = 1;
    e.start = true;
    e.clock();
    assert_eq!(e.output(), 15);
    let mut levels = Vec::new();
    for _ in 0..6 {
        e.clock();
        levels.push(e.output());
    }
    assert_eq!(levels, [15, 14, 14, 13, 13, 12]);
    for _ in 0..40 {
        e.clock();
    }
    assert_eq!(e.output(), 0);
    e.loop_flag = true;
    e.clock();
    e.clock();
    assert_eq!(e.output(), 15);
    e.constant = true;
    assert_eq!(e.output(), 1);
}

#[test]
fn sweep_moves_the_period() {
    let mut s = Sweep::new(true);
    s.enabled = true;
    s.shift = 1;
    assert_eq!(s.target_period(0x100), 0x180);
    s.negate = true;
    assert_eq!(s.target_period(0x100), 0x7F);
    let mut second = Sweep::new(false);
    second.negate = true;
    second.shift = 1;
    assert_eq!(second.target_period(0x100), 0x80);
    let mut timer = 0x100;
    s.clock(&mut timer);
    assert_eq!(timer, 0x7F);
    assert!(s.muting(7) && !s.muting(8));
    let up = Sweep::new(false);
    assert!(up.muting(0x400) && !up.muting(0x3FF));
}

#[test]
fn pulse_plays_its_duty() {
    let mut p = Pulse::new(false);
    p.enable(true);
    p.write_reg(0, 0xBF);
    p.write_reg(2, 0x10);
    p.write_reg(3, 0x08);
    assert_eq!((p.timer, p.length, p.duty), (0x10, 254, 2));
    let mut wave = Vec::new();
    for _ in 0..8 {
        wave.push(p.output());
        p.timer_val = 0;
        p.clock_timer();
        assert_eq!(p.timer_val, 0x10);
    }
    assert_eq!(wave, [0, 15, 15, 15, 15, 0, 0, 0]);
    p.write_reg(3, 0x07);
    assert_eq!(p.timer, 0x710);
    p.enable(false);
    assert_eq!((p.output(), p.length), (0, 0));
}

#[test]
fn length_counters_run_out() {
    let mut p = Pulse::new(true);
    p.enable(true);
    p.write_reg(3, 0x18);
    assert_eq!(p.length, 2);
    p.clock_half();
    p.clock_half();
    p.clock_half();
    assert_eq!(p.length, 0);
    p.write_reg(0, 0x20);
    p.write_reg(3, 0x18);
    p.clock_half();
    assert_eq!(p.length, 2);
}

#[test]
fn triangle_needs_both_counters() {
    let mut t = Triangle::new();
    t.enable(true);
    t.write_reg(0, 0x02);
    t.write_reg(2, 0x40);
    t.write_reg(3, 0x08);
    assert_eq!((t.timer, t.length), (0x40, 254));
    t.clock_timer();
    assert_eq!((t.seq_pos, t.output()), (0, 0));
    t.clock_linear();
    assert_eq!((t.linear_counter, t.output()), (2, 15));
    t.timer_val = 0;
    t.clock_timer();
    assert_eq!((t.seq_pos, t.output()), (1, 14));
    t.clock_linear();
    t.clock_linear();
    assert_eq!(t.output(), 0);
}

#[test]
fn noise_runs_through_its_sequence() {
    let mut n = Noise::new();
    n.timer_val = 0;
    n.clock_timer();
    assert_eq!((n.shift, n.timer_val), (0x4000, 4));
    let length = |mode: bool| {
        let mut n = Noise::new();
        n.mode = mode;
        let mut steps = 0;
        loop {
            n.timer_val = 0;
            n.clock_timer();
            assert_ne!(n.shift, 0);
            steps += 1;
            if n.shift == 1 {
                return steps;
            }
        }
    };
    assert_eq!((length(false), length(true)), (32767, 93));
}

#[test]
fn samples_move_the_level() {
    let mut d = Dmc::new();
    d.write_reg(0, 0x0F);
    d.write_reg(1, 0x40);
    d.write_reg(2, 0x01);
    d.write_reg(3, 0x01);
    d.enable(true);
    assert_eq!((d.sample_addr, d.sample_len, d.bytes_remaining, d.output()), (0xC040, 17, 17, 64));
    assert_eq!(d.clock_timer(), Some(0xC040));
    assert_eq!((d.current_addr, d.bytes_remaining), (0xC041, 16));
    d.sample_buffer = 0b0000_0111;
    d.buffer_empty = false;
    d.bits_remaining = 1;
    let mut levels = Vec::new();
    for _ in 0..9 {
        d.timer_val = 0;
        d.clock_timer();
        levels.push(d.output());
    }
    assert_eq!(levels, [64, 66, 68, 70, 68, 66, 64, 62, 60]);
}

#[test]
fn four_step_sequence_interrupts() {
    let mut apu = Apu::new();
    apu.clock_batch(14914);
    assert!(!apu.frame_irq);
    apu.clock();
    assert!(apu.frame_irq);
    assert_eq!(apu.frame_counter, 0);
    assert_eq!(apu.read_status(), 0x40);
    assert_eq!(apu.read_status(), 0);
    apu.write_register(0x4017, 0x40);
    apu.clock_batch(2 * 14915);
    assert!(!apu.frame_irq);
    apu.write_register(0x4017, 0x80);
    apu.clock_batch(18641);
    assert!(!apu.frame_irq);
    assert_eq!(apu.frame_counter, 0);
}

#[test]
fn sequence_stays_quiet() {
    for val in [0x40u8, 0x80, 0xC0] {
        let mut apu = Apu::new();
        apu.write_register(0x4017, val);
        for _ in 0..40000 {
            apu.clock();
            assert!(!apu.frame_irq);
        }
    }
}

#[test]
fn sequence_clocks_lengths_twice() {
    let mut apu = Apu::new();
    apu.write_register(0x4015, 0x0F);
    apu.write_register(0x4003, 0x18);
    assert_eq!((apu.pulse1.length, apu.read_status()), (2, 1));
    apu.clock_batch(7457);
    assert_eq!(apu.pulse1.length, 1);
    apu.clock_batch(14915 - 7457);
    assert_eq!(apu.pulse1.length, 0);
    assert_eq!(apu.read_status(), 0x40);
}

#[test]
fn disabled_channels_are_silent() {
    let mut apu = Apu::new();
    apu.write_register(0x4015, 0x0F);
    for base in [0x4000u16, 0x4004] {
        apu.write_register(base, 0xFF);
        apu.write_register(base + 2, 0x80);
        apu.write_register(base + 3, 0x08);
    }
    apu.pulse1.seq_pos = 3;
    apu.write_register(0x4011, 0x55);
    let levels = apu.current_levels();
    assert_eq!((levels.pulse1, levels.dmc), (15, 0x55));
    apu.write_register(0x4015, 0);
    let levels = apu.current_levels();
    assert_eq!((levels.pulse1, levels.pulse2, levels.triangle, levels.noise), (0, 0, 0, 0));
    assert_eq!(apu.read_status(), 0);
}

#[test]
fn samples_come_at_their_rate() {
    assert_eq!(SAMPLE_RATE, 44100);
    let mut apu = Apu::new();
    apu.clock_batch(40);
    assert_eq!(apu.audio_buf.available(), 0);
    apu.clock();
    assert_eq!(apu.audio_buffer().available(), 1);
    let mut samples = apu.take_samples().len();
    let mut cycles = 41;
    while cycles < 1_789_773 {
        let n = (1_789_773 - cycles).min(30_000);
        apu.clock_batch(n);
        cycles += n;
        samples += apu.take_samples().len();
    }
    let expected = (1_789_773u128 * PHASE_CYCLE as u128 / PHASE_SAMPLE as u128) as usize;
    assert_eq!(samples, expected);
    assert!((44099..=44100).contains(&samples));
    assert_eq!(apu.audio_buf.available(), 0);
}

#[test]
fn samples_are_dropped_when_the_buffer_is_full() {
    let mut apu = Apu::new();
    apu.write_register(0x4011, 1);
    // Enough for 4095 samples and a few more.
    apu.clock_batch(4095 * 41);
    assert_eq!(apu.audio_buf.available(), 4095);
    apu.write_register(0x4011, 2);
    apu.clock_batch(1000);
    assert_eq!(apu.audio_buf.available(), 4095);
    // Reading makes room again.
    assert_eq!(apu.audio_buffer().read().dmc, 1);
    apu.clock_batch(41);
    let samples = apu.take_samples();
    assert_eq!(samples.len(), 4095);
    assert_eq!((samples[0].dmc, samples[4093].dmc, samples[4094].dmc), (1, 1, 2));
}

#[test]
fn sample_channel_asks_for_bytes() {
    let mut apu = Apu::new();
    apu.write_register(0x4010, 0x0F);
    apu.write_register(0x4012, 0x00);
    apu.write_register(0x4013, 0x00);
    apu.write_register(0x4015, 0x10);
    apu.clock();
    assert_eq!(apu.dmc_read_pending, Some(0xC000));
    apu.dmc_fill_buffer(0xFF);
    assert_eq!((apu.dmc_read_pending, apu.dmc.buffer_empty), (None, false));
    assert_eq!(apu.read_status() & 0x10, 0);
    apu.clock_batch(20 * 54);
    assert_eq!(apu.current_levels().dmc, 16);
}

#[test]
fn buffer_is_a_queue() {
    let mut b = AudioBuffer::new(4, 0.0f32);
    assert_eq!((b.available(), b.read()), (0, 0.0));
    b.write(0.1);
    b.write(0.2);
    b.write(0.3);
    b.write(0.4);
    assert_eq!(b.available(), 3);
    assert_eq!((b.read(), b.read(), b.read(), b.read()), (0.1, 0.2, 0.3, 0.0));
    b.write(0.5);
    assert_eq!((b.available(), b.read()), (1, 0.5));
}
