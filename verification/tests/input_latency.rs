// Input and determinism of the replay, and frame pacing.

use contra_nes::game::Game;
use contra_nes::pacing::{Pacer, FRAME_NS};

const BTN_START: u8 = 3;
const BTN_A: u8 = 0;
const BTN_RIGHT: u8 = 7;

/// A trace of `frames` frames that scrolls, patches the nametable and moves a sprite.
fn scrolling_trace(frames: u32) -> Vec<u8> {
    let mut t: Vec<u8> = Vec::new();
    t.extend_from_slice(&frames.to_le_bytes());
    for i in 0..8192u32 {
        t.push((i * 37 % 251) as u8);
    }
    for i in 0..2048u32 {
        t.push((i * 11 % 253) as u8);
    }
    for i in 0..32u32 {
        t.push((i * 7 % 64) as u8);
    }
    for f in 0..frames {
        t.extend_from_slice(&((f % 512) as u16).to_le_bytes());
        t.extend_from_slice(&[0, 0]);
        t.extend_from_slice(&[(f % 8) as u8, 0x18, 0x18]);
        t.push(0);
        t.push(0);
        t.extend_from_slice(&1u16.to_le_bytes());
        t.extend_from_slice(&((f * 13 % 2048) as u16).to_le_bytes());
        t.push((f % 256) as u8);
        t.push(1);
        t.extend_from_slice(&[100, 3, 1, (f % 256) as u8]);
    }
    t
}

fn framebuffer_checksum(fb: &[u8]) -> u64 {
    let mut hash = 0u64;
    for (i, &b) in fb.iter().enumerate().step_by(7) {
        hash = hash.wrapping_mul(31).wrapping_add(b as u64).wrapping_add(i as u64);
    }
    hash
}

/// Two independent game instances with the same inputs produce identical output.
#[test]
fn deterministic_parallel_runs() {
    let trace = scrolling_trace(600);
    let mut game1 = Game::new(&[], 0, &trace);
    let mut game2 = Game::new(&[], 0, &trace);

    for _ in 0..500 {
        game1.update();
        game2.update();
    }

    let h1 = framebuffer_checksum(game1.framebuffer());
    let h2 = framebuffer_checksum(game2.framebuffer());
    println!("  game1 hash at 500: {:016x}", h1);
    println!("  game2 hash at 500: {:016x}", h2);
    assert_eq!(h1, h2, "Two instances diverged despite identical inputs");
}

/// Button state is stored correctly.
#[test]
fn button_state_stored() {
    let trace = scrolling_trace(4);
    let mut game = Game::new(&[], 0, &trace);

    game.set_button(0, BTN_A, true);
    game.set_button(0, BTN_START, true);
    game.set_button(0, BTN_RIGHT, true);
    assert_eq!(game.buttons[0], 0b1000_1001);

    // Run a frame to ensure no crash
    game.update();

    // Release
    game.set_button(0, BTN_A, false);
    game.update();
    assert_eq!(game.buttons, [0b1000_1000, 0]);
    println!("  Button set/release: OK");
}

/// Frame pacing math doesn't drift
#[test]
fn frame_pacing_no_drift() {
    let frame_duration_ns = 16_666_667u64;
    assert_eq!(frame_duration_ns, FRAME_NS);
    let mut pacer = Pacer::new(0);
    let mut actual_time = 0u64;

    let frame_work_times = [2500, 2800, 3100, 2400, 2700, 2900, 3200, 2600, 2500, 3000];

    for i in 0..600 {
        let work_us = frame_work_times[i % frame_work_times.len()];
        actual_time += work_us * 1000;
        actual_time += pacer.frame_done(actual_time);
    }

    let expected_ns = 600u64 * frame_duration_ns;
    let drift_ms = (actual_time as f64 - expected_ns as f64) / 1_000_000.0;
    println!("  Pacing drift after 600 frames: {:.2}ms", drift_ms);
    assert!(drift_ms.abs() < 20.0);
}
