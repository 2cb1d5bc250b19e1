// The input script, keys and pacing.

use contra_nes::actors::{EnemyType, Weapon};
use contra_nes::cartridge::Cartridge;
use contra_nes::input::{
    apply_events, build_autoplay_sequence, hold_buttons, press_key, release_momentary, script_over,
    InputEvent, KONAMI,
};
use contra_nes::nes::Nes;
use contra_nes::pacing::{Pacer, FRAME_NS};

/// A machine that loops in place, with interrupts on.
fn machine() -> Box<Nes> {
    // LDA #$80; STA $2000; LDA #$18; STA $2001; JMP $800A, RTI at $9000
    let program = [0xA9, 0x80, 0x8D, 0x00, 0x20, 0xA9, 0x18, 0x8D, 0x01, 0x20, 0x4C, 0x0A, 0x80];
    let mut prg = vec![0u8; 32768];
    prg[..program.len()].copy_from_slice(&program);
    // INC $10; RTI
    prg[0x1000..0x1003].copy_from_slice(&[0xE6, 0x10, 0x40]);
    prg[0x7FFA..0x8000].copy_from_slice(&[0x00, 0x90, 0x00, 0x80, 0x00, 0x90]);
    Box::new(Nes::new(Cartridge::from_embedded(&prg, 2)))
}

#[test]
fn script_enters_the_code_first() {
    let seq = build_autoplay_sequence();
    assert_eq!(seq.len(), 2023);
    for (i, button) in KONAMI.iter().enumerate() {
        let frame = 250 + 10 * i as u32;
        assert_eq!(seq[2 * i], InputEvent { frame, button: *button, pressed: true });
        assert_eq!(seq[2 * i + 1], InputEvent { frame: frame + 4, button: *button, pressed: false });
    }
    assert_eq!(seq[22], InputEvent { frame: 560, button: 7, pressed: true });
    let round: Vec<(u32, u8, bool)> =
        seq[23..27].iter().map(|e| (e.frame, e.button, e.pressed)).collect();
    assert_eq!(round, [(610, 0, true), (613, 1, true), (617, 1, false), (618, 0, false)]);
    assert_eq!(seq[2022].frame, 610 + 499 * 45 + 8);
    assert!(seq.windows(2).all(|w| w[0].frame <= w[1].frame));
}

#[test]
fn events_are_carried_out_when_due() {
    let mut nes = machine();
    let seq = build_autoplay_sequence();
    let mut idx = apply_events(&mut nes, &seq, 0, 249);
    assert_eq!((idx, nes.bus.controller[0]), (0, 0));
    idx = apply_events(&mut nes, &seq, idx, 250);
    assert_eq!((idx, nes.bus.controller[0]), (1, 0x10));
    idx = apply_events(&mut nes, &seq, idx, 611);
    assert_eq!((idx, nes.bus.controller[0]), (24, 0x81));
    assert_eq!(apply_events(&mut nes, &seq, idx, u32::MAX), 2023);
    assert!(!script_over(900) && script_over(901));
}

#[test]
fn keys_press_and_release() {
    let mut nes = machine();
    for (key, held) in [
        (b'w', 0x10),
        (b's', 0x30),
        (b'a', 0x70),
        (b'd', 0xB0),
        (b'j', 0xB1),
        (b'k', 0xB3),
        (b'\r', 0xBB),
        (b' ', 0xBF),
        (b'W', 0xAF),
        (b'S', 0x8F),
        (b'D', 0x0F),
        (b'J', 0x0E),
        (b'K', 0x0C),
        (b'x', 0x0C),
    ] {
        assert!(press_key(&mut nes, key));
        assert_eq!(nes.bus.controller[0], held);
    }
    assert!(!press_key(&mut nes, b'q'));
    assert!(!press_key(&mut nes, 3));
    hold_buttons(&mut nes, [true, false, true, false, false, true, true, false]);
    assert_eq!(nes.bus.controller[0], 0x65);
    release_momentary(&mut nes, 7);
    assert_eq!(nes.bus.controller[0], 0x65);
    release_momentary(&mut nes, 8);
    assert_eq!(nes.bus.controller, [0x40, 0]);
}

#[test]
fn machine_runs_frame_by_frame() {
    let mut nes = machine();
    assert_eq!(nes.cpu.pc, 0x8000);
    assert!(nes.can_run_frame());
    assert_eq!((nes.run_frame(), nes.run_frame(), nes.run_frame()), (1, 2, 3));
    // Three dots per cycle, and an interrupt per frame.
    let dots = 3 * 341 * 262;
    let cycles = nes.bus.apu.cycle_count;
    assert!(3 * cycles >= dots - 2 && 3 * cycles < dots + 30);
    assert_eq!(nes.bus.read(0x10), 3);
    assert_eq!(nes.framebuffer().len(), 184320);
    nes.set_button(0, 3, true);
    nes.set_button(1, 0, true);
    nes.set_button(5, 0, true);
    assert_eq!(nes.bus.controller, [8, 1]);
    nes.set_button(0, 3, false);
    assert_eq!(nes.bus.controller, [0, 1]);
    nes.cpu.cycles = u64::MAX;
    assert!(!nes.can_run_frame());
}

#[test]
fn late_frames_start_the_schedule_over() {
    let mut pacer = Pacer::new(1000);
    assert_eq!(pacer.frame_done(2000), FRAME_NS - 1000);
    assert_eq!(pacer.next_frame_time, 1000 + FRAME_NS);
    // Up to three frames late: catch up.
    assert_eq!(pacer.frame_done(1000 + 5 * FRAME_NS), 0);
    assert_eq!(pacer.next_frame_time, 1000 + 2 * FRAME_NS);
    // Later than that: start over.
    assert_eq!(pacer.frame_done(1001 + 6 * FRAME_NS), 0);
    assert_eq!(pacer.next_frame_time, 1001 + 6 * FRAME_NS);
}

#[test]
fn actors_have_kinds() {
    assert_ne!(Weapon::Default, Weapon::Spread);
    assert_ne!(EnemyType::Soldier, EnemyType::Turret);
}
