//! The processor's registers, as the scanline-batched machine keeps them.

use vstd::prelude::*;
use crate::contra::bus::{Bus, BusModel};
use crate::cpu;
use crate::cpu::Cpu;
use crate::machine::Machine;

verus! {

#[derive(Clone, Copy)]
pub struct CpuState {
    pub a: u8,
    pub x: u8,
    pub y: u8,
    pub sp: u8,
    pub pc: u16,
    pub c: bool,
    pub z: bool,
    pub i: bool,
    pub d: bool,
    pub v: bool,
    pub n: bool,
    pub cycles: u64,
    pub nmi_pending: bool,
    pub irq_pending: bool,
    pub stall: u32,
}

/// The processor with its bus.
pub open spec fn machine(s: CpuState, bus: Bus) -> Machine<BusModel> {
    Machine { cpu: s.cpu(), mem: bus@ }
}

impl CpuState {
    /// The processor with these registers.
    pub open spec fn cpu(self) -> Cpu {
        Cpu {
            a: self.a,
            x: self.x,
            y: self.y,
            sp: self.sp,
            pc: self.pc,
            c: self.c,
            z: self.z,
            i: self.i,
            d: self.d,
            v: self.v,
            n: self.n,
            cycles: self.cycles,
            nmi_pending: self.nmi_pending,
            irq_pending: self.irq_pending,
            stall: self.stall,
        }
    }

    pub fn to_cpu(&self) -> (cpu: Cpu)
        ensures
            cpu == self.cpu(),
    {
        Cpu {
            a: self.a,
            x: self.x,
            y: self.y,
            sp: self.sp,
            pc: self.pc,
            c: self.c,
            z: self.z,
            i: self.i,
            d: self.d,
            v: self.v,
            n: self.n,
            cycles: self.cycles,
            nmi_pending: self.nmi_pending,
            irq_pending: self.irq_pending,
            stall: self.stall,
        }
    }

    pub fn from_cpu(cpu: Cpu) -> (s: CpuState)
        ensures
            s.cpu() == cpu,
    {
        CpuState {
            a: cpu.a,
            x: cpu.x,
            y: cpu.y,
            sp: cpu.sp,
            pc: cpu.pc,
            c: cpu.c,
            z: cpu.z,
            i: cpu.i,
            d: cpu.d,
            v: cpu.v,
            n: cpu.n,
            cycles: cpu.cycles,
            nmi_pending: cpu.nmi_pending,
            irq_pending: cpu.irq_pending,
            stall: cpu.stall,
        }
    }

    pub fn new() -> (s: CpuState)
        ensures
            s.cpu() == cpu::cpu_at_power_on(),
    {
        CpuState::from_cpu(Cpu::new())
    }

    /// Starts at the address held at $FFFC.
    pub fn reset(&mut self, bus: &mut Bus)
        requires
            old(bus).wf(),
        ensures
            final(bus).wf(),
            machine(*final(self), *final(bus)) == machine(*old(self), *old(bus)).reset(),
    {
        let mut cpu: Cpu = self.to_cpu();
        cpu.reset(bus);
        *self = CpuState::from_cpu(cpu);
    }

    pub fn status(&self) -> (s: u8)
        ensures
            s == self.cpu().status_byte(),
    {
        self.to_cpu().status()
    }

    pub fn set_status(&mut self, s: u8)
        ensures
            final(self).cpu() == old(self).cpu().with_status(s),
    {
        let mut cpu: Cpu = self.to_cpu();
        cpu.set_status(s);
        *self = CpuState::from_cpu(cpu);
    }

    /// Pushes a byte onto the stack in page 1.
    pub fn push(&mut self, bus: &mut Bus, val: u8)
        requires
            old(bus).wf(),
        ensures
            final(bus).wf(),
            machine(*final(self), *final(bus)) == machine(*old(self), *old(bus)).pushed(val),
    {
        let mut cpu: Cpu = self.to_cpu();
        cpu.push(bus, val);
        *self = CpuState::from_cpu(cpu);
    }

    /// Pulls a byte from the stack.
    pub fn pull(&mut self, bus: &mut Bus) -> (val: u8)
        requires
            old(bus).wf(),
        ensures
            final(bus).wf(),
            val == machine(*old(self), *old(bus)).top(),
            machine(*final(self), *final(bus)) == machine(*old(self), *old(bus)).pulled(),
    {
        let mut cpu: Cpu = self.to_cpu();
        let val: u8 = cpu.pull(bus);
        *self = CpuState::from_cpu(cpu);
        val
    }

    /// Pushes a word, high byte first.
    pub fn push16(&mut self, bus: &mut Bus, val: u16)
        requires
            old(bus).wf(),
        ensures
            final(bus).wf(),
            machine(*final(self), *final(bus)) == machine(*old(self), *old(bus)).pushed_word(val),
    {
        let mut cpu: Cpu = self.to_cpu();
        cpu.push16(bus, val);
        *self = CpuState::from_cpu(cpu);
    }

    /// Pulls a word, low byte first.
    pub fn pull16(&mut self, bus: &mut Bus) -> (val: u16)
        requires
            old(bus).wf(),
        ensures
            final(bus).wf(),
            val == machine(*old(self), *old(bus)).top_word(),
            machine(*final(self), *final(bus)) == machine(*old(self), *old(bus)).pulled_word(),
    {
        let mut cpu: Cpu = self.to_cpu();
        let val: u16 = cpu.pull16(bus);
        *self = CpuState::from_cpu(cpu);
        val
    }

    /// Adds with carry.
    pub fn adc(&mut self, val: u8)
        ensures
            final(self).cpu() == old(self).cpu().added(val),
    {
        let mut cpu: Cpu = self.to_cpu();
        cpu.adc(val);
        *self = CpuState::from_cpu(cpu);
    }

    /// Subtracts with borrow.
    pub fn sbc(&mut self, val: u8)
        ensures
            final(self).cpu() == old(self).cpu().subtracted(val),
    {
        let mut cpu: Cpu = self.to_cpu();
        cpu.sbc(val);
        *self = CpuState::from_cpu(cpu);
    }

    /// Compares a register with a value.
    pub fn cmp_reg(&mut self, reg: u8, val: u8)
        ensures
            final(self).cpu() == old(self).cpu().compared(reg, val),
    {
        let mut cpu: Cpu = self.to_cpu();
        cpu.compare(reg, val);
        *self = CpuState::from_cpu(cpu);
    }

    /// Takes the non-maskable interrupt.
    pub fn nmi(&mut self, bus: &mut Bus)
        requires
            old(bus).wf(),
            old(self).cycles <= u64::MAX - 7,
        ensures
            final(bus).wf(),
            machine(*final(self), *final(bus)) == machine(*old(self), *old(bus)).interrupted(
                old(self).cpu().status_byte(),
                0xFFFA,
            ),
    {
        let mut cpu: Cpu = self.to_cpu();
        let status: u8 = cpu.status();
        cpu.interrupt(bus, status, 0xFFFA);
        *self = CpuState::from_cpu(cpu);
    }

    /// Takes a maskable interrupt.
    pub fn irq(&mut self, bus: &mut Bus)
        requires
            old(bus).wf(),
            old(self).cycles <= u64::MAX - 7,
        ensures
            final(bus).wf(),
            machine(*final(self), *final(bus)) == machine(*old(self), *old(bus)).interrupted(
                old(self).cpu().status_byte(),
                0xFFFE,
            ),
    {
        let mut cpu: Cpu = self.to_cpu();
        let status: u8 = cpu.status();
        cpu.interrupt(bus, status, 0xFFFE);
        *self = CpuState::from_cpu(cpu);
    }
}

} // verus!
