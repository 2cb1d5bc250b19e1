//! MOS 6502 processor.
//!
//! Executes one instruction per step. There is no decimal mode: the console's
//! processor lacks it.

use vstd::prelude::*;
use crate::bits;
use crate::instr;
use crate::instr::{classify, decode, Class, Instr, Mode, Op};
use crate::machine;
use crate::machine::Machine;
use crate::memory::{Memory, SystemBus};

verus! {

/// Processor registers, flags and interrupt lines.
#[derive(Clone, Copy, PartialEq, Eq, Structural)]
pub struct Cpu {
    pub a: u8,
    pub x: u8,
    pub y: u8,
    pub sp: u8,
    pub pc: u16,
    pub c: bool,
    pub z: bool,
    pub i: bool,
    pub d: bool,
    pub v: bool,
    pub n: bool,
    pub cycles: u64,
    pub nmi_pending: bool,
    pub irq_pending: bool,
    /// Cycles left of a DMA stall.
    pub stall: u32,
}

/// The machine made of a processor and the bus it is wired to.
pub open spec fn machine<B: SystemBus>(cpu: Cpu, bus: B) -> Machine<B::M> {
    Machine { cpu, mem: bus.mem() }
}

/// Two pages differ when the masked addresses do.
proof fn lemma_pages(a: u16, b: u16)
    ensures
        (a & 0xFF00 != b & 0xFF00) == machine::pages_differ(a, b),
{
    bits::lemma_word_parts(a);
    bits::lemma_word_parts(b);
}

proof fn lemma_overflow(a: u8, b: u8, r: u8)
    ensures
        ((!(a ^ b) & (a ^ r)) & 0x80 != 0) == ((a < 128 && b < 128 && r >= 128) || (a >= 128 && b
            >= 128 && r < 128)),
{
    assert(((!(a ^ b) & (a ^ r)) & 0x80 != 0) == ((a < 128 && b < 128 && r >= 128) || (a >= 128
        && b >= 128 && r < 128))) by (bit_vector);
}

proof fn lemma_shifts(v: u8)
    ensures
        v << 1 == Cpu::shifted_left(v),
        v >> 1 == Cpu::shifted_right(v),
        (v << 1) | 0 == Cpu::shifted_left(v),
        (v << 1) | 1 == Cpu::shifted_left(v) + 1,
        (v >> 1) | 0 == Cpu::shifted_right(v),
        (v >> 1) | 0x80 == Cpu::shifted_right(v) + 128,
        !v == 255 - v,
{
    assert({
        &&& v << 1 == 2 * v % 256
        &&& v >> 1 == v / 2
        &&& (v << 1) | 0 == 2 * v % 256
        &&& (v << 1) | 1 == 2 * v % 256 + 1
        &&& (v >> 1) | 0 == v / 2
        &&& (v >> 1) | 0x80 == v / 2 + 128
        &&& !v == 255 - v
    }) by (bit_vector);
}

/// Joins a low and a high byte.
pub fn join(lo: u8, hi: u8) -> (w: u16)
    ensures
        w == bits::word(lo, hi),
{
    proof {
        bits::lemma_word(lo, hi);
    }
    (lo as u16) | ((hi as u16) << 8)
}

/// Whether two addresses lie on different pages.
fn crosses(a: u16, b: u16) -> (yes: bool)
    ensures
        yes == machine::pages_differ(a, b),
{
    proof {
        lemma_pages(a, b);
    }
    a & 0xFF00 != b & 0xFF00
}

/// Moves `pc` by a two's complement offset.
pub fn relative(pc: u16, offset: u8) -> (target: u16)
    ensures
        target == machine::branch_target(pc, offset),
{
    let extended: u16 = if offset < 128 {
        offset as u16
    } else {
        offset as u16 + 0xFF00
    };
    pc.wrapping_add(extended)
}

/// The state at power-on: interrupts off, nothing running.
pub open spec fn cpu_at_power_on() -> Cpu {
    Cpu {
        a: 0,
        x: 0,
        y: 0,
        sp: 0xFD,
        pc: 0,
        c: false,
        z: false,
        i: true,
        d: false,
        v: false,
        n: false,
        cycles: 0,
        nmi_pending: false,
        irq_pending: false,
        stall: 0,
    }
}

impl Cpu {
    /// Power-on state.
    pub fn new() -> (cpu: Cpu)
        ensures
            cpu == cpu_at_power_on(),
    {
        Cpu {
            a: 0,
            x: 0,
            y: 0,
            sp: 0xFD,
            pc: 0,
            c: false,
            z: false,
            i: true,
            d: false,
            v: false,
            n: false,
            cycles: 0,
            nmi_pending: false,
            irq_pending: false,
            stall: 0,
        }
    }

    /// Loads the program counter from the reset vector.
    pub fn reset<B: SystemBus>(&mut self, bus: &mut B)
        requires
            old(bus).valid(),
        ensures
            final(self).stall == old(self).stall,
            final(bus).clocks() == old(bus).clocks(),
            final(bus).valid(),
            machine(*final(self), *final(bus)) == machine(*old(self), *old(bus)).reset(),
    {
        let pc: u16 = read16(bus, 0xFFFC);
        self.pc = pc;
        self.sp = 0xFD;
        self.i = true;
        self.cycles = 0;
    }

    /// The status byte, bit 5 always set.
    pub fn status(&self) -> (s: u8)
        ensures
            s == self.status_byte(),
    {
        let mut s: u8 = 0x20;
        if self.c {
            s = s + 0x01;
        }
        if self.z {
            s = s + 0x02;
        }
        if self.i {
            s = s + 0x04;
        }
        if self.d {
            s = s + 0x08;
        }
        if self.v {
            s = s + 0x40;
        }
        if self.n {
            s = s + 0x80;
        }
        s
    }

    /// Restores the flags from a status byte.
    pub fn set_status(&mut self, s: u8)
        ensures
            final(self).stall == old(self).stall,
            *final(self) == old(self).with_status(s),
    {
        proof {
            bits::lemma_bit8(s);
        }
        self.c = s & 0x01 != 0;
        self.z = s & 0x02 != 0;
        self.i = s & 0x04 != 0;
        self.d = s & 0x08 != 0;
        self.v = s & 0x40 != 0;
        self.n = s & 0x80 != 0;
    }

    fn set_zn(&mut self, val: u8)
        ensures
            final(self).stall == old(self).stall,
            *final(self) == old(self).flagged(val),
    {
        proof {
            bits::lemma_bit8(val);
        }
        self.z = val == 0;
        self.n = val & 0x80 != 0;
    }

    pub fn adc(&mut self, val: u8)
        ensures
            final(self).stall == old(self).stall,
            *final(self) == old(self).added(val),
            final(self).cycles == old(self).cycles,
    {
        proof {
            reveal(Cpu::added);
        }
        let carry: u16 = if self.c {
            1
        } else {
            0
        };
        let sum: u16 = self.a as u16 + val as u16 + carry;
        let result: u8 = (sum % 256) as u8;
        proof {
            lemma_overflow(self.a, val, result);
        }
        self.v = (!(self.a ^ val) & (self.a ^ result)) & 0x80 != 0;
        self.c = sum > 0xFF;
        self.a = result;
        self.set_zn(result);
    }

    pub fn sbc(&mut self, val: u8)
        ensures
            final(self).stall == old(self).stall,
            *final(self) == old(self).subtracted(val),
            final(self).cycles == old(self).cycles,
    {
        proof {
            lemma_shifts(val);
        }
        self.adc(!val);
    }

    pub fn compare(&mut self, reg: u8, val: u8)
        ensures
            final(self).stall == old(self).stall,
            *final(self) == old(self).compared(reg, val),
    {
        let diff: u8 = reg.wrapping_sub(val);
        self.c = reg >= val;
        self.set_zn(diff);
    }

    fn bit(&mut self, val: u8)
        ensures
            final(self).stall == old(self).stall,
            *final(self) == old(self).bit_tested(val),
    {
        proof {
            bits::lemma_bit8(val);
        }
        self.z = self.a & val == 0;
        self.v = val & 0x40 != 0;
        self.n = val & 0x80 != 0;
    }

    fn asl(&mut self, val: u8) -> (r: u8)
        ensures
            final(self).stall == old(self).stall,
            r == Cpu::shifted_left(val),
            *final(self) == old(self).with_c(val >= 128).flagged(r),
    {
        proof {
            bits::lemma_bit8(val);
            lemma_shifts(val);
        }
        self.c = val & 0x80 != 0;
        let r: u8 = val << 1;
        self.set_zn(r);
        r
    }

    fn lsr(&mut self, val: u8) -> (r: u8)
        ensures
            final(self).stall == old(self).stall,
            r == Cpu::shifted_right(val),
            *final(self) == old(self).with_c(val % 2 == 1).flagged(r),
    {
        proof {
            bits::lemma_bit8(val);
            lemma_shifts(val);
        }
        self.c = val & 1 != 0;
        let r: u8 = val >> 1;
        self.set_zn(r);
        r
    }

    fn rol(&mut self, val: u8) -> (r: u8)
        ensures
            final(self).stall == old(self).stall,
            r == old(self).rotated_left(val),
            *final(self) == old(self).with_c(val >= 128).flagged(r),
    {
        proof {
            bits::lemma_bit8(val);
            lemma_shifts(val);
        }
        let carry: u8 = if self.c {
            1
        } else {
            0
        };
        self.c = val & 0x80 != 0;
        let r: u8 = (val << 1) | carry;
        self.set_zn(r);
        r
    }

    fn ror(&mut self, val: u8) -> (r: u8)
        ensures
            final(self).stall == old(self).stall,
            r == old(self).rotated_right(val),
            *final(self) == old(self).with_c(val % 2 == 1).flagged(r),
    {
        proof {
            bits::lemma_bit8(val);
            lemma_shifts(val);
        }
        let carry: u8 = if self.c {
            0x80
        } else {
            0
        };
        self.c = val & 1 != 0;
        let r: u8 = (val >> 1) | carry;
        self.set_zn(r);
        r
    }

    pub fn push<B: SystemBus>(&mut self, bus: &mut B, val: u8)
        requires
            old(bus).valid(),
        ensures
            final(self).stall == old(self).stall,
            final(bus).clocks() == old(bus).clocks(),
            final(bus).valid(),
            machine(*final(self), *final(bus)) == machine(*old(self), *old(bus)).pushed(val),
            *final(self) == (Cpu { sp: final(self).sp, ..*old(self) }),
    {
        proof {
            reveal(Machine::pushed);
        }
        bus.store(0x100 + self.sp as u16, val);
        self.sp = self.sp.wrapping_sub(1);
    }

    pub fn pull<B: SystemBus>(&mut self, bus: &mut B) -> (val: u8)
        requires
            old(bus).valid(),
        ensures
            final(self).stall == old(self).stall,
            final(bus).clocks() == old(bus).clocks(),
            final(bus).valid(),
            val == machine(*old(self), *old(bus)).top(),
            machine(*final(self), *final(bus)) == machine(*old(self), *old(bus)).pulled(),
            *final(self) == (Cpu { sp: final(self).sp, ..*old(self) }),
    {
        proof {
            reveal(Machine::pulled);
            reveal(Machine::top);
        }
        self.sp = self.sp.wrapping_add(1);
        bus.load(0x100 + self.sp as u16)
    }

    pub fn push16<B: SystemBus>(&mut self, bus: &mut B, val: u16)
        requires
            old(bus).valid(),
        ensures
            final(self).stall == old(self).stall,
            final(bus).clocks() == old(bus).clocks(),
            final(bus).valid(),
            machine(*final(self), *final(bus)) == machine(*old(self), *old(bus)).pushed_word(val),
            *final(self) == (Cpu { sp: final(self).sp, ..*old(self) }),
    {
        proof {
            reveal(Machine::pushed_word);
            bits::lemma_word_parts(val);
        }
        self.push(bus, (val >> 8) as u8);
        self.push(bus, #[verifier::truncate] (val as u8));
    }

    pub fn pull16<B: SystemBus>(&mut self, bus: &mut B) -> (val: u16)
        requires
            old(bus).valid(),
        ensures
            final(self).stall == old(self).stall,
            final(bus).clocks() == old(bus).clocks(),
            final(bus).valid(),
            val == machine(*old(self), *old(bus)).top_word(),
            machine(*final(self), *final(bus)) == machine(*old(self), *old(bus)).pulled_word(),
            *final(self) == (Cpu { sp: final(self).sp, ..*old(self) }),
    {
        proof {
            reveal(Machine::pulled_word);
            reveal(Machine::top_word);
        }
        let lo: u8 = self.pull(bus);
        let hi: u8 = self.pull(bus);
        join(lo, hi)
    }

    /// Takes an interrupt through `vector`.
    pub fn interrupt<B: SystemBus>(&mut self, bus: &mut B, status: u8, vector: u16)
        requires
            old(bus).valid(),
            old(self).cycles <= u64::MAX - 7,
        ensures
            final(self).stall == old(self).stall,
            final(bus).clocks() == old(bus).clocks(),
            final(bus).valid(),
            machine(*final(self), *final(bus)) == machine(*old(self), *old(bus)).interrupted(
                status,
                vector,
            ),
            final(self).cycles == old(self).cycles + 7,
    {
        proof {
            reveal(Machine::interrupted);
        }
        let pc: u16 = self.pc;
        self.push16(bus, pc);
        self.push(bus, status);
        self.i = true;
        self.pc = read16(bus, vector);
        self.cycles = self.cycles + 7;
    }

    /// Fetches the byte at the program counter.
    fn fetch<B: SystemBus>(&mut self, bus: &mut B) -> (val: u8)
        requires
            old(bus).valid(),
        ensures
            final(self).stall == old(self).stall,
            final(bus).clocks() == old(bus).clocks(),
            final(bus).valid(),
            val == machine(*old(self), *old(bus)).next_byte(),
            machine(*final(self), *final(bus)) == machine(*old(self), *old(bus)).fetched(),
    {
        let val: u8 = bus.load(self.pc);
        self.pc = self.pc.wrapping_add(1);
        val
    }

    fn fetch16<B: SystemBus>(&mut self, bus: &mut B) -> (val: u16)
        requires
            old(bus).valid(),
        ensures
            final(self).stall == old(self).stall,
            final(bus).clocks() == old(bus).clocks(),
            final(bus).valid(),
            val == machine(*old(self), *old(bus)).next_word(),
            machine(*final(self), *final(bus)) == machine(*old(self), *old(bus)).fetched_word(),
    {
        let lo: u8 = self.fetch(bus);
        let hi: u8 = self.fetch(bus);
        join(lo, hi)
    }

    /// Finds an operand: its address, and whether indexing left the page.
    fn locate<B: SystemBus>(&mut self, bus: &mut B, mode: Mode) -> (found: (u16, bool))
        requires
            old(bus).valid(),
        ensures
            final(self).stall == old(self).stall,
            final(bus).clocks() == old(bus).clocks(),
            final(bus).valid(),
            ({
                let o = machine(*old(self), *old(bus)).operand(mode);
                &&& found.0 == o.addr
                &&& found.1 == o.crossed
                &&& machine(*final(self), *final(bus)) == o.next
            }),
            final(self).cycles == old(self).cycles,
    {
        proof {
            reveal(Machine::operand);
        }
        let pc: u16 = self.pc;
        match mode {
            Mode::Implied | Mode::Relative => (pc, false),
            Mode::Immediate | Mode::Skip1 => {
                self.pc = pc.wrapping_add(1);
                (pc, false)
            },
            Mode::Skip2 => {
                self.pc = pc.wrapping_add(2);
                (pc, false)
            },
            Mode::ZeroPage => {
                let b: u8 = self.fetch(bus);
                (b as u16, false)
            },
            Mode::ZeroPageX => {
                let b: u8 = self.fetch(bus);
                (b.wrapping_add(self.x) as u16, false)
            },
            Mode::ZeroPageY => {
                let b: u8 = self.fetch(bus);
                (b.wrapping_add(self.y) as u16, false)
            },
            Mode::Absolute => {
                let w: u16 = self.fetch16(bus);
                (w, false)
            },
            Mode::AbsoluteX => {
                let base: u16 = self.fetch16(bus);
                let addr: u16 = base.wrapping_add(self.x as u16);
                (addr, crosses(base, addr))
            },
            Mode::AbsoluteY => {
                let base: u16 = self.fetch16(bus);
                let addr: u16 = base.wrapping_add(self.y as u16);
                (addr, crosses(base, addr))
            },
            Mode::IndirectX => {
                let b: u8 = self.fetch(bus);
                let ptr: u8 = b.wrapping_add(self.x);
                let lo: u8 = bus.load(ptr as u16);
                let hi: u8 = bus.load(ptr.wrapping_add(1) as u16);
                (join(lo, hi), false)
            },
            Mode::IndirectY => {
                let ptr: u8 = self.fetch(bus);
                let lo: u8 = bus.load(ptr as u16);
                let hi: u8 = bus.load(ptr.wrapping_add(1) as u16);
                let base: u16 = join(lo, hi);
                let addr: u16 = base.wrapping_add(self.y as u16);
                (addr, crosses(base, addr))
            },
        }
    }

    /// Takes a branch whose offset is the next byte, if `taken`.
    fn branch<B: SystemBus>(&mut self, bus: &mut B, taken: bool)
        requires
            old(bus).valid(),
            old(self).cycles <= u64::MAX - 2,
        ensures
            final(self).stall == old(self).stall,
            final(bus).clocks() == old(bus).clocks(),
            final(bus).valid(),
            machine(*final(self), *final(bus)) == machine(*old(self), *old(bus)).branched(taken),
            old(self).cycles <= final(self).cycles <= old(self).cycles + 2,
    {
        let offset: u8 = self.fetch(bus);
        if taken {
            let target: u16 = relative(self.pc, offset);
            if crosses(self.pc, target) {
                self.cycles = self.cycles + 2;
            } else {
                self.cycles = self.cycles + 1;
            }
            self.pc = target;
        }
    }

    /// Applies an operation that reads the operand `v`.
    fn read_op(&mut self, op: Op, v: u8)
        requires
            instr::class_of(op) == Class::Read,
        ensures
            final(self).stall == old(self).stall,
            *final(self) == old(self).after_reading(op, v),
            final(self).cycles == old(self).cycles,
    {
        proof {
            reveal(Cpu::after_reading);
        }
        let a: u8 = self.a;
        let x: u8 = self.x;
        let y: u8 = self.y;
        match op {
            Op::Lda => {
                self.a = v;
                self.set_zn(v);
            },
            Op::Ldx => {
                self.x = v;
                self.set_zn(v);
            },
            Op::Ldy => {
                self.y = v;
                self.set_zn(v);
            },
            Op::Lax => {
                self.a = v;
                self.x = v;
                self.set_zn(v);
            },
            Op::Adc => self.adc(v),
            Op::Sbc => self.sbc(v),
            Op::Cpa => self.compare(a, v),
            Op::Cpx => self.compare(x, v),
            Op::Cpy => self.compare(y, v),
            Op::And => {
                self.a = a & v;
                self.set_zn(a & v);
            },
            Op::Ora => {
                self.a = a | v;
                self.set_zn(a | v);
            },
            Op::Eor => {
                self.a = a ^ v;
                self.set_zn(a ^ v);
            },
            Op::Bit => self.bit(v),
            _ => {},
        }
    }

    /// Applies a read-modify-write operation to `v`, returning what is written back.
    fn modify_op(&mut self, op: Op, v: u8) -> (r: u8)
        requires
            instr::class_of(op) == Class::Modify,
        ensures
            final(self).stall == old(self).stall,
            r == old(self).new_value(op, v),
            *final(self) == old(self).after_modifying(op, v),
            final(self).cycles == old(self).cycles,
    {
        proof {
            reveal(Cpu::new_value);
            reveal(Cpu::after_modifying);
            reveal(Cpu::added);
        }
        let a: u8 = self.a;
        match op {
            Op::Asl => self.asl(v),
            Op::Lsr => self.lsr(v),
            Op::Rol => self.rol(v),
            Op::Ror => self.ror(v),
            Op::Inc => {
                let r: u8 = v.wrapping_add(1);
                self.set_zn(r);
                r
            },
            Op::Dec => {
                let r: u8 = v.wrapping_sub(1);
                self.set_zn(r);
                r
            },
            Op::Slo => {
                let r: u8 = self.asl(v);
                self.a = a | r;
                self.set_zn(a | r);
                r
            },
            Op::Rla => {
                let r: u8 = self.rol(v);
                self.a = a & r;
                self.set_zn(a & r);
                r
            },
            Op::Sre => {
                let r: u8 = self.lsr(v);
                self.a = a ^ r;
                self.set_zn(a ^ r);
                r
            },
            Op::Rra => {
                let r: u8 = self.ror(v);
                self.adc(r);
                r
            },
            Op::Isb => {
                let r: u8 = v.wrapping_add(1);
                self.sbc(r);
                r
            },
            _ => {
                let r: u8 = v.wrapping_sub(1);
                self.compare(a, r);
                r
            },
        }
    }

    /// Applies an operation on registers and flags.
    fn register_op(&mut self, op: Op)
        requires
            instr::class_of(op) == Class::Register,
        ensures
            final(self).stall == old(self).stall,
            *final(self) == old(self).after_register_op(op),
            final(self).cycles == old(self).cycles,
    {
        proof {
            reveal(Cpu::after_register_op);
        }
        let a: u8 = self.a;
        match op {
            Op::AslA => {
                self.a = self.asl(a);
            },
            Op::LsrA => {
                self.a = self.lsr(a);
            },
            Op::RolA => {
                self.a = self.rol(a);
            },
            Op::RorA => {
                self.a = self.ror(a);
            },
            Op::Inx => {
                self.x = self.x.wrapping_add(1);
                let x: u8 = self.x;
                self.set_zn(x);
            },
            Op::Iny => {
                self.y = self.y.wrapping_add(1);
                let y: u8 = self.y;
                self.set_zn(y);
            },
            Op::Dex => {
                self.x = self.x.wrapping_sub(1);
                let x: u8 = self.x;
                self.set_zn(x);
            },
            Op::Dey => {
                self.y = self.y.wrapping_sub(1);
                let y: u8 = self.y;
                self.set_zn(y);
            },
            Op::Tax => {
                self.x = a;
                self.set_zn(a);
            },
            Op::Txa => {
                let x: u8 = self.x;
                self.a = x;
                self.set_zn(x);
            },
            Op::Tay => {
                self.y = a;
                self.set_zn(a);
            },
            Op::Tya => {
                let y: u8 = self.y;
                self.a = y;
                self.set_zn(y);
            },
            Op::Txs => {
                self.sp = self.x;
            },
            Op::Tsx => {
                let sp: u8 = self.sp;
                self.x = sp;
                self.set_zn(sp);
            },
            Op::Clc => {
                self.c = false;
            },
            Op::Sec => {
                self.c = true;
            },
            Op::Cli => {
                self.i = false;
            },
            Op::Sei => {
                self.i = true;
            },
            Op::Clv => {
                self.v = false;
            },
            Op::Cld => {
                self.d = false;
            },
            Op::Sed => {
                self.d = true;
            },
            _ => {},
        }
    }

    /// Jumps through a pointer.
    fn jump_through<B: SystemBus>(&mut self, bus: &mut B, addr: u16)
        requires
            old(bus).valid(),
        ensures
            final(self).stall == old(self).stall,
            final(bus).clocks() == old(bus).clocks(),
            final(bus).valid(),
            machine(*final(self), *final(bus)) == machine(*old(self), *old(bus)).jumped_through(addr),
            final(self).cycles == old(self).cycles,
    {
        proof {
            reveal(Machine::jumped_through);
        }
        self.pc = read16_bug(bus, addr);
    }

    /// Calls a subroutine.
    fn call<B: SystemBus>(&mut self, bus: &mut B, addr: u16)
        requires
            old(bus).valid(),
        ensures
            final(self).stall == old(self).stall,
            final(bus).clocks() == old(bus).clocks(),
            final(bus).valid(),
            machine(*final(self), *final(bus)) == machine(*old(self), *old(bus)).called(addr),
            final(self).cycles == old(self).cycles,
    {
        proof {
            reveal(Machine::called);
        }
        let pc: u16 = self.pc;
        self.push16(bus, pc.wrapping_sub(1));
        self.pc = addr;
    }

    /// Returns from a subroutine.
    fn return_from_call<B: SystemBus>(&mut self, bus: &mut B)
        requires
            old(bus).valid(),
        ensures
            final(self).stall == old(self).stall,
            final(bus).clocks() == old(bus).clocks(),
            final(bus).valid(),
            machine(*final(self), *final(bus)) == machine(*old(self), *old(bus)).returned(),
            final(self).cycles == old(self).cycles,
    {
        proof {
            reveal(Machine::returned);
        }
        let w: u16 = self.pull16(bus);
        self.pc = w.wrapping_add(1);
    }

    /// Pulls the status byte.
    fn pull_status<B: SystemBus>(&mut self, bus: &mut B)
        requires
            old(bus).valid(),
        ensures
            final(self).stall == old(self).stall,
            final(bus).clocks() == old(bus).clocks(),
            final(bus).valid(),
            machine(*final(self), *final(bus)) == machine(*old(self), *old(bus)).status_pulled(),
            final(self).cycles == old(self).cycles,
    {
        proof {
            reveal(Machine::status_pulled);
        }
        let s: u8 = self.pull(bus);
        self.set_status(s);
    }

    /// Returns from an interrupt.
    fn return_from_interrupt<B: SystemBus>(&mut self, bus: &mut B)
        requires
            old(bus).valid(),
        ensures
            final(self).stall == old(self).stall,
            final(bus).clocks() == old(bus).clocks(),
            final(bus).valid(),
            machine(*final(self), *final(bus)) == machine(*old(self), *old(bus)).interrupt_returned(),
            final(self).cycles == old(self).cycles,
    {
        proof {
            reveal(Machine::interrupt_returned);
        }
        self.pull_status(bus);
        self.pc = self.pull16(bus);
    }

    /// Enters the software interrupt.
    fn software_interrupt<B: SystemBus>(&mut self, bus: &mut B)
        requires
            old(bus).valid(),
            old(self).cycles <= u64::MAX - 7,
        ensures
            final(self).stall == old(self).stall,
            final(bus).clocks() == old(bus).clocks(),
            final(bus).valid(),
            machine(*final(self), *final(bus)) == machine(*old(self), *old(bus)).broken(),
            final(self).cycles == old(self).cycles,
    {
        proof {
            reveal(Machine::broken);
        }
        let cycles: u64 = self.cycles;
        let status: u8 = self.status();
        self.pc = self.pc.wrapping_add(1);
        self.interrupt(bus, status + 0x10, 0xFFFE);
        self.cycles = cycles;
    }

    /// Pulls the accumulator.
    fn pull_accumulator<B: SystemBus>(&mut self, bus: &mut B)
        requires
            old(bus).valid(),
        ensures
            final(self).stall == old(self).stall,
            final(bus).clocks() == old(bus).clocks(),
            final(bus).valid(),
            machine(*final(self), *final(bus)) == machine(*old(self), *old(bus)).accumulator_pulled(),
            final(self).cycles == old(self).cycles,
    {
        proof {
            reveal(Machine::accumulator_pulled);
        }
        let a: u8 = self.pull(bus);
        self.a = a;
        self.set_zn(a);
    }

    /// Executes a jump, call, return or stack operation.
    fn control_op<B: SystemBus>(&mut self, bus: &mut B, op: Op, addr: u16)
        requires
            old(bus).valid(),
            instr::class_of(op) == Class::Control,
            old(self).cycles <= u64::MAX - 7,
        ensures
            final(self).stall == old(self).stall,
            final(bus).clocks() == old(bus).clocks(),
            final(bus).valid(),
            machine(*final(self), *final(bus)) == machine(*old(self), *old(bus)).controlled(
                op,
                addr,
            ),
            final(self).cycles == old(self).cycles,
    {
        proof {
            reveal(Machine::controlled);
        }
        match op {
            Op::Jmp => {
                self.pc = addr;
            },
            Op::JmpIndirect => self.jump_through(bus, addr),
            Op::Jsr => self.call(bus, addr),
            Op::Rts => self.return_from_call(bus),
            Op::Rti => self.return_from_interrupt(bus),
            Op::Brk => self.software_interrupt(bus),
            Op::Pha => {
                let a: u8 = self.a;
                self.push(bus, a);
            },
            Op::Php => {
                let status: u8 = self.status();
                self.push(bus, status + 0x10);
            },
            Op::Pla => self.pull_accumulator(bus),
            Op::Plp => self.pull_status(bus),
            _ => {},
        }
    }

    /// The condition that a branch tests.
    fn condition(&self, op: Op) -> (taken: bool)
        ensures
            taken == self.branches(op),
    {
        match op {
            Op::Bpl => !self.n,
            Op::Bmi => self.n,
            Op::Bvc => !self.v,
            Op::Bvs => self.v,
            Op::Bcc => !self.c,
            Op::Bcs => self.c,
            Op::Bne => !self.z,
            Op::Beq => self.z,
            _ => false,
        }
    }

    /// Applies an operation to the operand at `addr`.
    fn operate<B: SystemBus>(&mut self, bus: &mut B, op: Op, addr: u16)
        requires
            old(bus).valid(),
            old(self).cycles <= u64::MAX - 7,
        ensures
            final(self).stall == old(self).stall,
            final(bus).clocks() == old(bus).clocks(),
            final(bus).valid(),
            machine(*final(self), *final(bus)) == machine(*old(self), *old(bus)).operated(op, addr),
            old(self).cycles <= final(self).cycles <= old(self).cycles + 2,
            instr::class_of(op) == Class::Read ==> final(self).cycles == old(self).cycles,
    {
        proof {
            reveal(Machine::operated);
        }
        match classify(op) {
            Class::Read => {
                let v: u8 = bus.load(addr);
                self.read_op(op, v);
            },
            Class::Store => {
                let v: u8 = match op {
                    Op::Sta => self.a,
                    Op::Stx => self.x,
                    Op::Sty => self.y,
                    _ => self.a & self.x,
                };
                bus.store(addr, v);
            },
            Class::Modify => {
                let v: u8 = bus.load(addr);
                let r: u8 = self.modify_op(op, v);
                bus.store(addr, r);
            },
            Class::Register => self.register_op(op),
            Class::Branch => {
                let taken: bool = self.condition(op);
                self.branch(bus, taken);
            },
            Class::Control => self.control_op(bus, op, addr),
        }
    }

    /// Executes one instruction whose opcode has been fetched.
    fn execute<B: SystemBus>(&mut self, bus: &mut B, instr: Instr)
        requires
            old(bus).valid(),
            instr.cycles <= 8,
            old(self).cycles <= u64::MAX - 16,
        ensures
            final(self).stall == old(self).stall,
            final(bus).clocks() == old(bus).clocks(),
            final(bus).valid(),
            machine(*final(self), *final(bus)) == machine(*old(self), *old(bus)).executed(instr),
            old(self).cycles + instr.cycles <= final(self).cycles <= old(self).cycles + instr.cycles
                + 2,
    {
        proof {
            reveal(Machine::executed);
        }
        let (addr, crossed): (u16, bool) = self.locate(bus, instr.mode);
        self.operate(bus, instr.op, addr);
        let extra: u64 = match classify(instr.op) {
            Class::Read => if crossed {
                1
            } else {
                0
            },
            _ => 0,
        };
        self.cycles = self.cycles + (instr.cycles as u64 + extra);
    }

    /// Fetches and executes the instruction at the program counter, ignoring
    /// interrupts and stalls.
    pub fn run_instruction<B: SystemBus>(&mut self, bus: &mut B)
        requires
            old(bus).valid(),
            old(self).cycles <= u64::MAX - 16,
        ensures
            final(self).stall == old(self).stall,
            final(bus).clocks() == old(bus).clocks(),
            final(bus).valid(),
            machine(*final(self), *final(bus)) == machine(*old(self), *old(bus)).ran(),
            old(self).cycles + 2 <= final(self).cycles <= old(self).cycles + 10,
    {
        let opcode: u8 = self.fetch(bus);
        let instr: Instr = decode(opcode);
        self.execute(bus, instr);
    }

    /// Runs one step: a stalled cycle, or a pending interrupt followed by an
    /// instruction. Returns the cycles that this took.
    pub fn step<B: SystemBus>(&mut self, bus: &mut B) -> (spent: u32)
        requires
            old(bus).valid(),
            old(self).cycles <= u64::MAX - 32,
        ensures
            final(bus).clocks() == old(bus).clocks(),
            final(bus).valid(),
            machine(*final(self), *final(bus)) == machine(*old(self), *old(bus)).stepped(),
            spent == machine(*old(self), *old(bus)).step_cycles(),
            spent == final(self).cycles - old(self).cycles,
            1 <= spent <= 17,
            final(self).stall == (if old(self).stall > 0 {
                old(self).stall - 1
            } else {
                0
            }),
    {
        proof {
            reveal(Machine::stepped);
            reveal(Machine::step_cycles);
        }
        if self.stall > 0 {
            self.stall = self.stall - 1;
            self.cycles = self.cycles + 1;
            return 1;
        }
        let start: u64 = self.cycles;
        if self.nmi_pending {
            let status: u8 = self.status();
            self.nmi_pending = false;
            self.interrupt(bus, status, 0xFFFA);
        } else if self.irq_pending && !self.i {
            let status: u8 = self.status();
            self.interrupt(bus, status, 0xFFFE);
        }
        self.run_instruction(bus);
        (self.cycles - start) as u32
    }
}

/// Reads the word at `addr`.
fn read16<B: SystemBus>(bus: &mut B, addr: u16) -> (w: u16)
    requires
        old(bus).valid(),
    ensures
        final(bus).clocks() == old(bus).clocks(),
        final(bus).valid(),
        ({
            let m = old(bus).mem();
            &&& w == bits::word(m.load(addr), m.after_load(addr).load(addr.wrapping_add(1)))
            &&& final(bus).mem() == m.after_load(addr).after_load(addr.wrapping_add(1))
        }),
{
    let lo: u8 = bus.load(addr);
    let hi: u8 = bus.load(addr.wrapping_add(1));
    join(lo, hi)
}

/// Reads the pointer of an indirect jump: the high byte comes from the same page.
fn read16_bug<B: SystemBus>(bus: &mut B, addr: u16) -> (w: u16)
    requires
        old(bus).valid(),
    ensures
        final(bus).clocks() == old(bus).clocks(),
        final(bus).valid(),
        ({
            let m = old(bus).mem();
            &&& w == bits::word(m.load(addr), m.after_load(addr).load(machine::next_in_page(addr)))
            &&& final(bus).mem() == m.after_load(addr).after_load(machine::next_in_page(addr))
        }),
{
    let lo: u8 = bus.load(addr);
    let next: u16 = addr.wrapping_add(1);
    proof {
        bits::lemma_word_parts(addr);
        bits::lemma_word_parts(next);
        let base = (addr - addr % 256) as u16;
        let off = (next % 256) as u16;
        assert(base | off == base + off) by (bit_vector)
            requires
                base % 256 == 0,
                off < 256,
        ;
    }
    let hi: u8 = bus.load((addr & 0xFF00) | (next & 0x00FF));
    join(lo, hi)
}

} // verus!
