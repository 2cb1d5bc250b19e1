// The processor, on the memory of a whole machine.

use contra_nes::bus::Bus;
use contra_nes::cartridge::Cartridge;
use contra_nes::contra::bus::Bus as BatchedBus;
use contra_nes::contra::cpu_state::CpuState;
use contra_nes::contra::interpreter;
use contra_nes::cpu::Cpu;
use contra_nes::instr::{decode, Mode, Op};

/// Two banks: the program at $8000, the vectors at $8000, $9000 and $A000.
fn cartridge(program: &[u8]) -> Cartridge {
    let mut prg = vec![0u8; 2 * 16384];
    prg[..program.len()].copy_from_slice(program);
    prg[0x1000] = 0x40;
    prg[0x2000] = 0x40;
    prg[0x7FFA..0x8000].copy_from_slice(&[0x00, 0x90, 0x00, 0x80, 0x00, 0xA0]);
    Cartridge::from_embedded(&prg, 2)
}

/// A processor about to run the program.
fn start(program: &[u8]) -> (Cpu, Box<Bus>) {
    let mut bus = Box::new(Bus::new(cartridge(program)));
    let mut cpu = Cpu::new();
    cpu.reset(&mut *bus);
    (cpu, bus)
}

/// The cycles that each step takes.
fn run(cpu: &mut Cpu, bus: &mut Bus, steps: usize) -> Vec<u32> {
    let mut cycles = Vec::new();
    for _ in 0..steps {
        cycles.push(cpu.step(bus));
    }
    cycles
}

#[test]
fn reset_loads_the_vector() {
    let (cpu, _bus) = start(&[0xEA]);
    assert_eq!(cpu.pc, 0x8000);
    assert_eq!(cpu.sp, 0xFD);
    assert!(cpu.i);
    assert_eq!(cpu.cycles, 0);
    assert_eq!(cpu.status(), 0x24);
}

#[test]
fn addition_sets_carry_and_overflow() {
    // LDA #$50; ADC #$50; ADC #$90
    let (mut cpu, mut bus) = start(&[0xA9, 0x50, 0x69, 0x50, 0x69, 0x90]);
    run(&mut cpu, &mut bus, 2);
    assert_eq!(cpu.a, 0xA0);
    assert!(cpu.v && cpu.n && !cpu.c && !cpu.z);
    run(&mut cpu, &mut bus, 1);
    assert_eq!(cpu.a, 0x30);
    assert!(cpu.v && cpu.c && !cpu.n);
}

#[test]
fn subtraction_takes_the_addition_back() {
    for (a, val, carry) in [(0x50u8, 0xB0u8, true), (0x00, 0x01, false), (0xFF, 0xFF, true), (0x80, 0x7F, false)] {
        let mut cpu = Cpu::new();
        cpu.a = a;
        cpu.c = carry;
        cpu.adc(val);
        cpu.c = !carry;
        cpu.sbc(val);
        assert_eq!(cpu.a, a);
    }
    let mut cpu = Cpu::new();
    cpu.a = 5;
    cpu.c = true;
    cpu.sbc(6);
    assert_eq!(cpu.a, 0xFF);
    assert!(!cpu.c);
}

#[test]
fn comparison_orders_numbers() {
    let mut cpu = Cpu::new();
    cpu.compare(0x40, 0x3F);
    assert!(cpu.c && !cpu.z && !cpu.n);
    cpu.compare(0x40, 0x40);
    assert!(cpu.c && cpu.z && !cpu.n);
    cpu.compare(0x40, 0x41);
    assert!(!cpu.c && !cpu.z && cpu.n);
}

#[test]
fn rotations_undo_each_other_through_the_carry() {
    // SEC; LDA #$81; ROL A; ROR A
    let (mut cpu, mut bus) = start(&[0x38, 0xA9, 0x81, 0x2A, 0x6A]);
    run(&mut cpu, &mut bus, 3);
    assert_eq!((cpu.a, cpu.c), (0x03, true));
    run(&mut cpu, &mut bus, 1);
    assert_eq!((cpu.a, cpu.c), (0x81, true));
}

#[test]
fn status_survives_the_stack() {
    let mut cpu = Cpu::new();
    for s in 0..=255u8 {
        cpu.set_status(s);
        assert_eq!(cpu.status(), s & 0xCF | 0x20);
    }
    // SEC; PHP; CLC; PLP
    let (mut cpu, mut bus) = start(&[0x38, 0x08, 0x18, 0x28]);
    run(&mut cpu, &mut bus, 2);
    assert_eq!(bus.read(0x01FD), 0x35);
    run(&mut cpu, &mut bus, 2);
    assert!(cpu.c);
    assert_eq!(cpu.sp, 0xFD);
}

#[test]
fn stack_gives_back_what_it_took() {
    let (mut cpu, mut bus) = start(&[]);
    cpu.sp = 0x00;
    cpu.push(&mut *bus, 0x12);
    assert_eq!(cpu.sp, 0xFF);
    cpu.push16(&mut *bus, 0xBEEF);
    assert_eq!((bus.read(0x01FF), bus.read(0x01FE)), (0xBE, 0xEF));
    assert_eq!(cpu.pull16(&mut *bus), 0xBEEF);
    assert_eq!(cpu.pull(&mut *bus), 0x12);
    assert_eq!(cpu.sp, 0x00);
}

#[test]
fn call_returns_behind_itself() {
    // JSR $8005; NOP; NOP; RTS
    let (mut cpu, mut bus) = start(&[0x20, 0x05, 0x80, 0xEA, 0xEA, 0x60]);
    assert_eq!(run(&mut cpu, &mut bus, 1), [6]);
    assert_eq!(cpu.pc, 0x8005);
    assert_eq!((bus.read(0x01FD), bus.read(0x01FC)), (0x80, 0x02));
    assert_eq!(run(&mut cpu, &mut bus, 1), [6]);
    assert_eq!((cpu.pc, cpu.sp), (0x8003, 0xFD));
}

#[test]
fn indirect_jump_stays_in_its_page() {
    // JMP ($02FF)
    let (mut cpu, mut bus) = start(&[0x6C, 0xFF, 0x02]);
    bus.write(0x02FF, 0x34);
    bus.write(0x0200, 0x12);
    bus.write(0x0300, 0x99);
    assert_eq!(run(&mut cpu, &mut bus, 1), [5]);
    assert_eq!(cpu.pc, 0x1234);
}

#[test]
fn branches_cost_more_when_taken_and_across_pages() {
    // BNE +2 (taken); BEQ +2 (not taken)
    let (mut cpu, mut bus) = start(&[0xD0, 0x02, 0xEA, 0xEA, 0xF0, 0x02]);
    assert_eq!(run(&mut cpu, &mut bus, 2), [3, 2]);
    assert_eq!(cpu.pc, 0x8006);
    // BNE -16, into the page before.
    let (mut cpu, mut bus) = start(&[0xD0, 0xF0]);
    assert_eq!(run(&mut cpu, &mut bus, 1), [4]);
    assert_eq!(cpu.pc, 0x7FF2);
}

#[test]
fn indexed_reads_cost_more_across_pages() {
    // LDX #$01; LDA $02FF,X; LDA $0280,X; STA $02FF,X
    let (mut cpu, mut bus) = start(&[0xA2, 0x01, 0xBD, 0xFF, 0x02, 0xBD, 0x80, 0x02, 0x9D, 0xFF, 0x02]);
    bus.write(0x0300, 0x77);
    bus.write(0x0281, 0x55);
    assert_eq!(run(&mut cpu, &mut bus, 2), [2, 5]);
    assert_eq!(cpu.a, 0x77);
    assert_eq!(run(&mut cpu, &mut bus, 2), [4, 5]);
    assert_eq!(bus.read(0x0300), 0x55);
}

#[test]
fn pointers_wrap_in_the_zero_page() {
    // LDX #$02; LDA ($FD,X); LDY #$01; LDA ($FF),Y
    let (mut cpu, mut bus) = start(&[0xA2, 0x02, 0xA1, 0xFD, 0xA0, 0x01, 0xB1, 0xFF]);
    bus.write(0x00FF, 0x80);
    bus.write(0x0000, 0x03);
    bus.write(0x0380, 0x11);
    bus.write(0x0381, 0x22);
    assert_eq!(run(&mut cpu, &mut bus, 2), [2, 6]);
    assert_eq!(cpu.a, 0x11);
    assert_eq!(run(&mut cpu, &mut bus, 2), [2, 5]);
    assert_eq!(cpu.a, 0x22);
}

#[test]
fn combined_instructions_do_both_halves() {
    // LAX $10; SAX $11; DCP $12; ISB $13
    let (mut cpu, mut bus) = start(&[0xA7, 0x10, 0x87, 0x11, 0xC7, 0x12, 0x38, 0xE7, 0x13]);
    bus.write(0x10, 0x5A);
    bus.write(0x12, 0x5B);
    bus.write(0x13, 0x09);
    assert_eq!(run(&mut cpu, &mut bus, 3), [3, 3, 5]);
    assert_eq!((cpu.a, cpu.x, bus.read(0x11)), (0x5A, 0x5A, 0x5A));
    assert_eq!(bus.read(0x12), 0x5A);
    assert!(cpu.z && cpu.c);
    run(&mut cpu, &mut bus, 2);
    assert_eq!((bus.read(0x13), cpu.a), (0x0A, 0x50));
    // LDA #$0F; SLO $10; RLA $11; SRE $12; CLC; RRA $13
    let (mut cpu, mut bus) =
        start(&[0xA9, 0x0F, 0x07, 0x10, 0x27, 0x11, 0x47, 0x12, 0x18, 0x67, 0x13]);
    bus.write(0x10, 0x81);
    bus.write(0x11, 0x07);
    bus.write(0x12, 0x03);
    bus.write(0x13, 0x05);
    run(&mut cpu, &mut bus, 2);
    assert_eq!((bus.read(0x10), cpu.a, cpu.c), (0x02, 0x0F, true));
    run(&mut cpu, &mut bus, 1);
    assert_eq!((bus.read(0x11), cpu.a, cpu.c), (0x0F, 0x0F, false));
    run(&mut cpu, &mut bus, 1);
    assert_eq!((bus.read(0x12), cpu.a, cpu.c), (0x01, 0x0E, true));
    run(&mut cpu, &mut bus, 2);
    assert_eq!((bus.read(0x13), cpu.a, cpu.c), (0x02, 0x11, false));
}

#[test]
fn software_interrupt_returns_behind_its_second_byte() {
    // CLI; BRK, with RTI at $A000
    let (mut cpu, mut bus) = start(&[0x58, 0x00]);
    assert_eq!(run(&mut cpu, &mut bus, 2), [2, 7]);
    assert_eq!(cpu.pc, 0xA000);
    assert!(cpu.i);
    assert_eq!(bus.read(0x01FB), 0x30);
    run(&mut cpu, &mut bus, 1);
    assert_eq!((cpu.pc, cpu.sp, cpu.i), (0x8003, 0xFD, false));
}

#[test]
fn interrupts_return_to_where_they_came() {
    // SEC; NOP, with RTI at $9000
    let (mut cpu, mut bus) = start(&[0x38, 0xEA]);
    run(&mut cpu, &mut bus, 1);
    cpu.nmi_pending = true;
    // The step runs the first instruction of the handler too.
    assert_eq!(run(&mut cpu, &mut bus, 1), [7 + 6]);
    assert!(!cpu.nmi_pending);
    assert_eq!((cpu.pc, cpu.sp, cpu.c), (0x8001, 0xFD, true));
    assert_eq!(cpu.cycles, 2 + 7 + 6);
    assert_eq!(bus.read(0x01FB), 0x25);
    // A request that is masked waits.
    cpu.irq_pending = true;
    cpu.i = true;
    run(&mut cpu, &mut bus, 1);
    assert_eq!(cpu.pc, 0x8002);
}

#[test]
fn steps_report_the_cycles_they_take() {
    // CLI; NOP, with RTI at $A000
    let (mut cpu, mut bus) = start(&[0x58, 0xEA, 0xEA]);
    run(&mut cpu, &mut bus, 1);
    cpu.irq_pending = true;
    let before = cpu.cycles;
    let spent = cpu.step(&mut *bus);
    assert_eq!((spent, cpu.cycles - before), (13, 13));
}

#[test]
fn call_runs_and_returns() {
    // JSR $8010, RTS there
    let mut program = vec![0xEA; 0x11];
    program[..3].copy_from_slice(&[0x20, 0x10, 0x80]);
    program[0x10] = 0x60;
    let mut bus = Box::new(BatchedBus::new(cartridge(&program)));
    let mut s = CpuState::new();
    s.reset(&mut bus);
    s.set_status(0xC3);
    let before = s.to_cpu();
    interpreter::step(&mut s, &mut bus);
    assert_eq!(s.pc, 0x8010);
    interpreter::step(&mut s, &mut bus);
    let mut expected = before;
    expected.pc = 0x8003;
    expected.cycles += 12;
    assert!(s.to_cpu() == expected);
}

#[test]
fn stall_takes_single_cycles() {
    let (mut cpu, mut bus) = start(&[0xEA]);
    cpu.stall = 3;
    assert_eq!(run(&mut cpu, &mut bus, 4), [1, 1, 1, 2]);
    assert_eq!((cpu.stall, cpu.cycles, cpu.pc), (0, 5, 0x8001));
}

#[test]
fn opcodes_decode() {
    let lda = decode(0xBD);
    assert!(lda.op == Op::Lda && lda.mode == Mode::AbsoluteX);
    let kil = decode(0x02);
    assert!(kil.mode == Mode::Implied);
}

#[test]
fn the_two_processors_agree() {
    let program = [
        0xA9, 0x50, 0x69, 0x50, 0x85, 0x10, 0xE6, 0x10, 0xA6, 0x10, 0x20, 0x10, 0x80, 0xEA, 0xEA,
        0xEA, 0x08, 0x68, 0x48, 0x28, 0x60,
    ];
    let (mut cpu, mut bus) = start(&program);
    let mut batched = Box::new(BatchedBus::new(cartridge(&program)));
    let mut state = CpuState::new();
    state.reset(&mut batched);
    for _ in 0..12 {
        cpu.step(&mut *bus);
        interpreter::step(&mut state, &mut batched);
        assert!(state.to_cpu() == cpu);
    }
    assert_eq!(state.pc, 0x800E);
    assert_eq!(bus.ram, batched.ram);
}

#[test]
fn state_pushes_and_interrupts_like_the_processor() {
    let mut bus = Box::new(BatchedBus::new(cartridge(&[])));
    let mut s = CpuState::new();
    s.pc = 0x1234;
    s.push(&mut bus, 0x42);
    assert_eq!(s.pull(&mut bus), 0x42);
    s.push16(&mut bus, 0xABCD);
    assert_eq!(s.pull16(&mut bus), 0xABCD);
    s.set_status(0x01);
    assert_eq!(s.status(), 0x21);
    s.nmi(&mut bus);
    assert_eq!((s.pc, s.sp, s.i, s.cycles), (0x9000, 0xFA, true, 7));
    s.irq(&mut bus);
    assert_eq!((s.pc, s.sp, s.cycles), (0xA000, 0xF7, 14));
    s.a = 0x7F;
    s.c = false;
    s.adc(1);
    assert_eq!((s.a, s.v), (0x80, true));
    s.c = true;
    s.sbc(1);
    assert_eq!((s.a, s.v), (0x7F, true));
    s.cmp_reg(1, 2);
    assert!(!s.c && s.n);
    assert!(CpuState::from_cpu(s.to_cpu()).to_cpu() == s.to_cpu());
}
