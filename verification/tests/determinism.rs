// Runs of the machine are reproducible, and no frame of the replay is slow.

use contra_nes::cartridge::Cartridge;
use contra_nes::game::Game;
use contra_nes::nes::Nes;
use std::time::Instant;

const BTN_RIGHT: u8 = 7;
const BTN_A: u8 = 0;
const BTN_B: u8 = 1;

/// A program that scrolls a picture: the interrupt handler counts frames and writes the
/// count to the scroll register and the palette.
fn image() -> Vec<u8> {
    let mut data = vec![b'N', b'E', b'S', 0x1A, 2, 1, 1, 0];
    data.resize(16, 0);
    let mut prg = vec![0u8; 32768];
    // LDA #$80; STA $2000; LDA #$1E; STA $2001; JMP $800A
    let start = [0xA9, 0x80, 0x8D, 0x00, 0x20, 0xA9, 0x1E, 0x8D, 0x01, 0x20, 0x4C, 0x0A, 0x80];
    prg[..start.len()].copy_from_slice(&start);
    // INC $10; LDA #$3F; STA $2006; LDA #$01; STA $2006; LDA $10; STA $2007;
    // LDA $10; STA $2005; STA $2005; RTI
    let handler = [
        0xE6, 0x10, 0xA9, 0x3F, 0x8D, 0x06, 0x20, 0xA9, 0x01, 0x8D, 0x06, 0x20, 0xA5, 0x10, 0x8D,
        0x07, 0x20, 0xA5, 0x10, 0x8D, 0x05, 0x20, 0x8D, 0x05, 0x20, 0x40,
    ];
    prg[0x1000..0x1000 + handler.len()].copy_from_slice(&handler);
    prg[0x7FFA..0x8000].copy_from_slice(&[0x00, 0x90, 0x00, 0x80, 0x00, 0x90]);
    data.extend(prg);
    data.extend((0..8192u32).map(|i| (i * 37 % 251) as u8));
    data
}

fn framebuffer_hash(fb: &[u8]) -> u64 {
    let mut h: u64 = 0xcbf29ce484222325;
    for &b in fb.iter() {
        h ^= b as u64;
        h = h.wrapping_mul(0x100000001b3);
    }
    h
}

/// Determinism: two runs with identical inputs produce identical output.
#[test]
fn deterministic_across_runs() {
    let rom_data = image();

    let mut hashes_a = Vec::new();
    let mut hashes_b = Vec::new();

    for hashes in [&mut hashes_a, &mut hashes_b] {
        let cart = Cartridge::from_ines(&rom_data);
        let mut nes = Box::new(Nes::new(cart));
        for _ in 0..600 {
            nes.run_frame();
        }
        // Hash every 60th frame
        for _ in 0..10 {
            for _ in 0..60 {
                nes.run_frame();
            }
            hashes.push(framebuffer_hash(nes.framebuffer()));
        }
    }

    assert_eq!(hashes_a, hashes_b, "Emulator is not deterministic across runs");
    println!("  10 checkpoints matched across 2 independent runs");
}

fn simulate_input(game: &mut Game, frame: u32) {
    let action = frame % 90;
    if action == 0 {
        game.set_button(0, BTN_A, true);
    } else if action == 10 {
        game.set_button(0, BTN_A, false);
    } else if action == 20 {
        game.set_button(0, BTN_B, true);
    } else if action == 28 {
        game.set_button(0, BTN_B, false);
    }
    if frame % 600 == 300 {
        game.set_button(0, BTN_RIGHT, false);
    } else if frame % 600 == 0 {
        game.set_button(0, BTN_RIGHT, true);
    }
}

/// A trace that scrolls, with one sprite.
fn trace(frames: u32) -> Vec<u8> {
    let mut t = frames.to_le_bytes().to_vec();
    t.extend((0..8192u32).map(|i| (i * 37 % 251) as u8));
    t.extend((0..2048u32).map(|i| (i * 11 % 253) as u8));
    t.extend((0..32u32).map(|i| (i * 7 % 64) as u8));
    for f in 0..frames {
        t.extend_from_slice(&((f % 512) as u16).to_le_bytes());
        t.extend_from_slice(&[0, 0, 0, 0x10, 0x18, 0, 0, 0, 0, 1, 100, 3, 1, (f % 256) as u8]);
    }
    t
}

#[test]
fn no_performance_regression() {
    let mut game = Game::new(&[], 0, &trace(4000));
    game.set_button(0, BTN_RIGHT, true);

    // Boot + initial gameplay
    for _ in 0..700 {
        game.update();
    }

    let total_frames = 3000u32;

    // Measure baseline (first 300 frames)
    let baseline_avg = {
        let mut sum = 0.0;
        for f in 0..300u32 {
            simulate_input(&mut game, f);
            let t0 = Instant::now();
            game.update();
            sum += t0.elapsed().as_micros() as f64;
        }
        sum / 300.0
    };

    let spike_threshold = baseline_avg * 3.0;
    let mut slow_regions: Vec<(u32, f64)> = Vec::new();
    let mut worst_time = 0.0f64;
    let mut worst_frame = 0u32;

    for frame in 300..total_frames {
        simulate_input(&mut game, frame);
        let t0 = Instant::now();
        game.update();
        let dt = t0.elapsed().as_micros() as f64;

        if dt > worst_time {
            worst_time = dt;
            worst_frame = frame;
        }

        if dt > spike_threshold {
            slow_regions.push((frame, dt));
        }
    }

    println!(
        "\n  Baseline: {:.0}us/frame ({:.0}fps equivalent)",
        baseline_avg,
        1_000_000.0 / baseline_avg
    );
    println!(
        "  Worst frame: #{} at {:.0}us ({:.1}x baseline)",
        worst_frame,
        worst_time,
        worst_time / baseline_avg
    );
    println!("  Slow frames (>3x): {}/{}", slow_regions.len(), total_frames);

    if !slow_regions.is_empty() {
        for &(f, dt) in slow_regions.iter().take(10) {
            println!("    Frame {:5}: {:.0}us ({:.1}x)", f, dt, dt / baseline_avg);
        }
    }

    assert!(worst_time < baseline_avg * 15.0);
}
