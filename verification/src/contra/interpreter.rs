//! Runs single instructions.

use vstd::prelude::*;
use crate::contra::bus::Bus;
use crate::contra::cpu_state;
use crate::contra::cpu_state::CpuState;
use crate::cpu::Cpu;

verus! {

/// Runs the instruction at the program counter. Interrupts are not looked at.
pub fn step(s: &mut CpuState, bus: &mut Bus)
    requires
        old(bus).wf(),
        old(s).cycles <= u64::MAX - 16,
    ensures
        final(bus).wf(),
        cpu_state::machine(*final(s), *final(bus)) == cpu_state::machine(*old(s), *old(bus)).ran(),
        old(s).cycles + 2 <= final(s).cycles <= old(s).cycles + 10,
{
    let mut cpu: Cpu = s.to_cpu();
    cpu.run_instruction(bus);
    *s = CpuState::from_cpu(cpu);
}

} // verus!
