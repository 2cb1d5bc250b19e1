//! What the 6502 does, as a function from one state to the next.

use vstd::prelude::*;
use crate::bits;
use crate::cpu::Cpu;
use crate::instr;
use crate::instr::{Class, Instr, Mode, Op};
use crate::memory::Memory;

verus! {

/// The processor together with the address space it is wired to.
pub ghost struct Machine<M> {
    pub cpu: Cpu,
    pub mem: M,
}

/// Where an instruction's operand lies, and the machine once it has been located.
pub ghost struct Operand<M> {
    pub addr: u16,
    /// Indexing moved the address to another page.
    pub crossed: bool,
    pub next: Machine<M>,
}

/// Two addresses lie on different 256-byte pages.
pub open spec fn pages_differ(a: u16, b: u16) -> bool {
    a / 256 != b / 256
}

/// Where a pointer's high byte is fetched by an indirect jump: the next address,
/// wrapping inside the page.
pub open spec fn next_in_page(addr: u16) -> u16 {
    (addr - addr % 256 + (addr + 1) % 256) as u16
}

/// A byte read as a two's complement number.
pub open spec fn signed(b: u8) -> int {
    if b < 128 {
        b as int
    } else {
        b - 256
    }
}

/// The target of a branch: `pc` moved by a signed offset.
pub open spec fn branch_target(pc: u16, offset: u8) -> u16 {
    ((pc + signed(offset)) % 65536) as u16
}

impl Cpu {
    /// Zero and negative flags for a result.
    pub open spec fn flagged(self, val: u8) -> Cpu {
        Cpu { z: val == 0, n: val >= 128, ..self }
    }

    pub open spec fn spent(self, n: int) -> Cpu {
        Cpu { cycles: (self.cycles + n) as u64, ..self }
    }

    pub open spec fn skipped(self, n: u16) -> Cpu {
        Cpu { pc: self.pc.wrapping_add(n), ..self }
    }

    /// The status byte: NV1-DIZC with bit 5 always set.
    pub open spec fn status_byte(self) -> u8 {
        (0x20 + (if self.c { 1int } else { 0 }) + (if self.z { 2int } else { 0 }) + (if self.i {
            4int
        } else {
            0
        }) + (if self.d { 8int } else { 0 }) + (if self.v { 64int } else { 0 }) + (if self.n {
            128int
        } else {
            0
        })) as u8
    }

    /// Flags restored from a status byte.
    pub open spec fn with_status(self, s: u8) -> Cpu {
        Cpu {
            c: bits::bit8(s, 0),
            z: bits::bit8(s, 1),
            i: bits::bit8(s, 2),
            d: bits::bit8(s, 3),
            v: bits::bit8(s, 6),
            n: bits::bit8(s, 7),
            ..self
        }
    }

    /// The carry as a number.
    pub open spec fn carry(self) -> int {
        if self.c {
            1
        } else {
            0
        }
    }

    /// A + val + carry: the carry out is the ninth bit, overflow is a signed result
    /// outside -128..=127.
    #[verifier::opaque]
    pub open spec fn added(self, val: u8) -> Cpu {
        let sum = self.a + val + self.carry();
        let exact = signed(self.a) + signed(val) + self.carry();
        Cpu { c: sum > 255, v: exact < -128 || exact > 127, a: (sum % 256) as u8, ..self }.flagged(
            (sum % 256) as u8,
        )
    }

    /// A - val - (1 - carry), as the addition of the complement.
    pub open spec fn subtracted(self, val: u8) -> Cpu {
        self.added((255 - val) as u8)
    }

    /// Flags of `reg - val`; nothing else changes.
    pub open spec fn compared(self, reg: u8, val: u8) -> Cpu {
        Cpu { c: reg >= val, ..self }.flagged(reg.wrapping_sub(val))
    }

    pub open spec fn bit_tested(self, val: u8) -> Cpu {
        Cpu { z: self.a & val == 0, v: bits::bit8(val, 6), n: val >= 128, ..self }
    }

    pub open spec fn shifted_left(val: u8) -> u8 {
        (2 * val % 256) as u8
    }

    pub open spec fn shifted_right(val: u8) -> u8 {
        val / 2
    }

    pub open spec fn rotated_left(self, val: u8) -> u8 {
        (2 * val % 256 + self.carry()) as u8
    }

    pub open spec fn rotated_right(self, val: u8) -> u8 {
        (val / 2 + 128 * self.carry()) as u8
    }

    pub open spec fn with_a(self, val: u8) -> Cpu {
        Cpu { a: val, ..self }.flagged(val)
    }

    pub open spec fn with_x(self, val: u8) -> Cpu {
        Cpu { x: val, ..self }.flagged(val)
    }

    pub open spec fn with_y(self, val: u8) -> Cpu {
        Cpu { y: val, ..self }.flagged(val)
    }

    pub open spec fn with_c(self, c: bool) -> Cpu {
        Cpu { c, ..self }
    }

    /// The condition a branch tests.
    pub open spec fn branches(self, op: Op) -> bool {
        match op {
            Op::Bpl => !self.n,
            Op::Bmi => self.n,
            Op::Bvc => !self.v,
            Op::Bvs => self.v,
            Op::Bcc => !self.c,
            Op::Bcs => self.c,
            Op::Bne => !self.z,
            Op::Beq => self.z,
            _ => false,
        }
    }

    /// The processor after an operation that reads the operand `v`.
    #[verifier::opaque]
    pub open spec fn after_reading(self, op: Op, v: u8) -> Cpu {
        match op {
            Op::Lda => self.with_a(v),
            Op::Ldx => self.with_x(v),
            Op::Ldy => self.with_y(v),
            Op::Lax => Cpu { x: v, ..self.with_a(v) },
            Op::Adc => self.added(v),
            Op::Sbc => self.subtracted(v),
            Op::Cpa => self.compared(self.a, v),
            Op::Cpx => self.compared(self.x, v),
            Op::Cpy => self.compared(self.y, v),
            Op::And => self.with_a(self.a & v),
            Op::Ora => self.with_a(self.a | v),
            Op::Eor => self.with_a(self.a ^ v),
            Op::Bit => self.bit_tested(v),
            _ => self,
        }
    }

    /// The byte that a store writes.
    pub open spec fn stored(self, op: Op) -> u8 {
        match op {
            Op::Sta => self.a,
            Op::Stx => self.x,
            Op::Sty => self.y,
            _ => self.a & self.x,
        }
    }

    /// What a read-modify-write operation makes of the operand `v`.
    #[verifier::opaque]
    pub open spec fn new_value(self, op: Op, v: u8) -> u8 {
        match op {
            Op::Asl | Op::Slo => Cpu::shifted_left(v),
            Op::Lsr | Op::Sre => Cpu::shifted_right(v),
            Op::Rol | Op::Rla => self.rotated_left(v),
            Op::Ror | Op::Rra => self.rotated_right(v),
            Op::Inc | Op::Isb => v.wrapping_add(1),
            _ => v.wrapping_sub(1),
        }
    }

    /// The processor after a read-modify-write operation on the operand `v`.
    #[verifier::opaque]
    pub open spec fn after_modifying(self, op: Op, v: u8) -> Cpu {
        let r = self.new_value(op, v);
        match op {
            Op::Asl | Op::Rol => self.with_c(v >= 128).flagged(r),
            Op::Lsr | Op::Ror => self.with_c(v % 2 == 1).flagged(r),
            Op::Inc | Op::Dec => self.flagged(r),
            Op::Slo => self.with_c(v >= 128).with_a(self.a | r),
            Op::Rla => self.with_c(v >= 128).with_a(self.a & r),
            Op::Sre => self.with_c(v % 2 == 1).with_a(self.a ^ r),
            Op::Rra => self.with_c(v % 2 == 1).added(r),
            Op::Isb => self.subtracted(r),
            _ => self.compared(self.a, r),
        }
    }

    /// The processor after an operation on registers and flags alone.
    #[verifier::opaque]
    pub open spec fn after_register_op(self, op: Op) -> Cpu {
        match op {
            Op::AslA => self.with_c(self.a >= 128).with_a(Cpu::shifted_left(self.a)),
            Op::LsrA => self.with_c(self.a % 2 == 1).with_a(Cpu::shifted_right(self.a)),
            Op::RolA => self.with_c(self.a >= 128).with_a(self.rotated_left(self.a)),
            Op::RorA => self.with_c(self.a % 2 == 1).with_a(self.rotated_right(self.a)),
            Op::Inx => self.with_x(self.x.wrapping_add(1)),
            Op::Iny => self.with_y(self.y.wrapping_add(1)),
            Op::Dex => self.with_x(self.x.wrapping_sub(1)),
            Op::Dey => self.with_y(self.y.wrapping_sub(1)),
            Op::Tax => self.with_x(self.a),
            Op::Txa => self.with_a(self.x),
            Op::Tay => self.with_y(self.a),
            Op::Tya => self.with_a(self.y),
            Op::Txs => Cpu { sp: self.x, ..self },
            Op::Tsx => self.with_x(self.sp),
            Op::Clc => self.with_c(false),
            Op::Sec => self.with_c(true),
            Op::Cli => Cpu { i: false, ..self },
            Op::Sei => Cpu { i: true, ..self },
            Op::Clv => Cpu { v: false, ..self },
            Op::Cld => Cpu { d: false, ..self },
            Op::Sed => Cpu { d: true, ..self },
            _ => self,
        }
    }
}

impl<M: Memory> Machine<M> {
    pub open spec fn set(self, cpu: Cpu) -> Self {
        Machine { cpu, ..self }
    }

    pub open spec fn peek(self, addr: u16) -> u8 {
        self.mem.load(addr)
    }

    pub open spec fn read(self, addr: u16) -> Self {
        Machine { mem: self.mem.after_load(addr), ..self }
    }

    pub open spec fn write(self, addr: u16, val: u8) -> Self {
        Machine { mem: self.mem.after_store(addr, val), ..self }
    }

    /// The byte at the program counter.
    pub open spec fn next_byte(self) -> u8 {
        self.peek(self.cpu.pc)
    }

    /// After the byte at the program counter is fetched.
    pub open spec fn fetched(self) -> Self {
        self.read(self.cpu.pc).set(self.cpu.skipped(1))
    }

    pub open spec fn next_word(self) -> u16 {
        bits::word(self.next_byte(), self.fetched().next_byte())
    }

    pub open spec fn fetched_word(self) -> Self {
        self.fetched().fetched()
    }

    /// The word at `addr`, its high byte one address further.
    pub open spec fn peek_word(self, addr: u16) -> u16 {
        bits::word(self.peek(addr), self.read(addr).peek(addr.wrapping_add(1)))
    }

    pub open spec fn read_word(self, addr: u16) -> Self {
        self.read(addr).read(addr.wrapping_add(1))
    }

    /// The zero-page pointer at `ptr`, wrapping inside the zero page.
    pub open spec fn peek_pointer(self, ptr: u8) -> u16 {
        bits::word(self.peek(ptr as u16), self.read(ptr as u16).peek(ptr.wrapping_add(1) as u16))
    }

    pub open spec fn read_pointer(self, ptr: u8) -> Self {
        self.read(ptr as u16).read(ptr.wrapping_add(1) as u16)
    }

    /// The stack lives at $0100-$01FF and grows down.
    #[verifier::opaque]
    pub open spec fn pushed(self, val: u8) -> Self {
        self.write((0x100 + self.cpu.sp) as u16, val).set(
            Cpu { sp: self.cpu.sp.wrapping_sub(1), ..self.cpu },
        )
    }

    /// High byte first, so that the low byte is pulled first.
    #[verifier::opaque]
    pub open spec fn pushed_word(self, val: u16) -> Self {
        self.pushed(bits::high(val)).pushed(bits::low(val))
    }

    #[verifier::opaque]
    pub open spec fn top(self) -> u8 {
        self.peek((0x100 + self.cpu.sp.wrapping_add(1)) as u16)
    }

    #[verifier::opaque]
    pub open spec fn pulled(self) -> Self {
        self.read((0x100 + self.cpu.sp.wrapping_add(1)) as u16).set(
            Cpu { sp: self.cpu.sp.wrapping_add(1), ..self.cpu },
        )
    }

    #[verifier::opaque]
    pub open spec fn top_word(self) -> u16 {
        bits::word(self.top(), self.pulled().top())
    }

    #[verifier::opaque]
    pub open spec fn pulled_word(self) -> Self {
        self.pulled().pulled()
    }

    /// Takes an interrupt: the return address and `status` are pushed, further
    /// interrupts are disabled and control passes to the vector.
    #[verifier::opaque]
    pub open spec fn interrupted(self, status: u8, vector: u16) -> Self {
        let saved = self.pushed_word(self.cpu.pc).pushed(status);
        let after = saved.read_word(vector);
        after.set(Cpu { i: true, pc: saved.peek_word(vector), ..after.cpu.spent(7) })
    }

    /// Finds an instruction's operand.
    #[verifier::opaque]
    pub open spec fn operand(self, mode: Mode) -> Operand<M> {
        let here = Operand { addr: self.cpu.pc, crossed: false, next: self };
        match mode {
            Mode::Implied | Mode::Relative => here,
            Mode::Immediate | Mode::Skip1 => Operand {
                next: self.set(self.cpu.skipped(1)),
                ..here
            },
            Mode::Skip2 => Operand { next: self.set(self.cpu.skipped(2)), ..here },
            Mode::ZeroPage => Operand {
                addr: self.next_byte() as u16,
                next: self.fetched(),
                ..here
            },
            Mode::ZeroPageX => Operand {
                addr: self.next_byte().wrapping_add(self.cpu.x) as u16,
                next: self.fetched(),
                ..here
            },
            Mode::ZeroPageY => Operand {
                addr: self.next_byte().wrapping_add(self.cpu.y) as u16,
                next: self.fetched(),
                ..here
            },
            Mode::Absolute => Operand { addr: self.next_word(), next: self.fetched_word(), ..here },
            Mode::AbsoluteX => Self::indexed(self.next_word(), self.cpu.x, self.fetched_word()),
            Mode::AbsoluteY => Self::indexed(self.next_word(), self.cpu.y, self.fetched_word()),
            Mode::IndirectX => {
                let ptr = self.next_byte().wrapping_add(self.cpu.x);
                Operand {
                    addr: self.fetched().peek_pointer(ptr),
                    next: self.fetched().read_pointer(ptr),
                    ..here
                }
            },
            Mode::IndirectY => {
                let ptr = self.next_byte();
                Self::indexed(
                    self.fetched().peek_pointer(ptr),
                    self.cpu.y,
                    self.fetched().read_pointer(ptr),
                )
            },
        }
    }

    pub open spec fn indexed(base: u16, index: u8, next: Self) -> Operand<M> {
        let addr = base.wrapping_add(index as u16);
        Operand { addr, crossed: pages_differ(base, addr), next }
    }

    /// Executes a branch whose offset is the next byte.
    pub open spec fn branched(self, taken: bool) -> Self {
        let at = self.fetched();
        let target = branch_target(at.cpu.pc, self.next_byte());
        if taken {
            at.set(
                Cpu {
                    pc: target,
                    ..at.cpu.spent(
                        if pages_differ(at.cpu.pc, target) {
                            2
                        } else {
                            1
                        },
                    )
                },
            )
        } else {
            at
        }
    }

    /// The effect of an operation on the operand at `addr`, cycles aside.
    #[verifier::opaque]
    pub open spec fn operated(self, op: Op, addr: u16) -> Self {
        match instr::class_of(op) {
            Class::Read => self.read(addr).set(self.cpu.after_reading(op, self.peek(addr))),
            Class::Store => self.write(addr, self.cpu.stored(op)),
            Class::Modify => {
                let val = self.cpu.new_value(op, self.peek(addr));
                self.read(addr).write(addr, val).set(
                    self.cpu.after_modifying(op, self.peek(addr)),
                )
            },
            Class::Register => self.set(self.cpu.after_register_op(op)),
            Class::Branch => self.branched(self.cpu.branches(op)),
            Class::Control => self.controlled(op, addr),
        }
    }

    /// JMP through a pointer whose high byte is fetched from the same page.
    #[verifier::opaque]
    pub open spec fn jumped_through(self, addr: u16) -> Self {
        let seen = self.read(addr);
        let target = bits::word(self.peek(addr), seen.peek(next_in_page(addr)));
        seen.read(next_in_page(addr)).set(Cpu { pc: target, ..self.cpu })
    }

    /// JSR: the address of the call's last byte is pushed.
    #[verifier::opaque]
    pub open spec fn called(self, addr: u16) -> Self {
        let saved = self.pushed_word(self.cpu.pc.wrapping_sub(1));
        saved.set(Cpu { pc: addr, ..saved.cpu })
    }

    /// RTS: one past the pulled address.
    #[verifier::opaque]
    pub open spec fn returned(self) -> Self {
        let back = self.pulled_word();
        back.set(Cpu { pc: self.top_word().wrapping_add(1), ..back.cpu })
    }

    /// PLP.
    #[verifier::opaque]
    pub open spec fn status_pulled(self) -> Self {
        self.pulled().set(self.pulled().cpu.with_status(self.top()))
    }

    /// RTI: the status byte, then the program counter.
    #[verifier::opaque]
    pub open spec fn interrupt_returned(self) -> Self {
        let ready = self.status_pulled();
        let back = ready.pulled_word();
        back.set(Cpu { pc: ready.top_word(), ..back.cpu })
    }

    /// BRK: an interrupt past the padding byte, with bit 4 of the pushed status set.
    #[verifier::opaque]
    pub open spec fn broken(self) -> Self {
        let at = self.set(self.cpu.skipped(1));
        let taken = at.interrupted((self.cpu.status_byte() + 16) as u8, 0xFFFE);
        taken.set(Cpu { cycles: self.cpu.cycles, ..taken.cpu })
    }

    /// PLA.
    #[verifier::opaque]
    pub open spec fn accumulator_pulled(self) -> Self {
        self.pulled().set(self.pulled().cpu.with_a(self.top()))
    }

    /// Jumps, calls, returns and stack operations.
    #[verifier::opaque]
    pub open spec fn controlled(self, op: Op, addr: u16) -> Self {
        match op {
            Op::Jmp => self.set(Cpu { pc: addr, ..self.cpu }),
            Op::JmpIndirect => self.jumped_through(addr),
            Op::Jsr => self.called(addr),
            Op::Rts => self.returned(),
            Op::Rti => self.interrupt_returned(),
            Op::Brk => self.broken(),
            Op::Pha => self.pushed(self.cpu.a),
            Op::Php => self.pushed((self.cpu.status_byte() + 16) as u8),
            Op::Pla => self.accumulator_pulled(),
            Op::Plp => self.status_pulled(),
            _ => self,
        }
    }

    /// One whole instruction, its opcode already fetched.
    #[verifier::opaque]
    pub open spec fn executed(self, instr: Instr) -> Self {
        let o = self.operand(instr.mode);
        let done = o.next.operated(instr.op, o.addr);
        let extra: int = if o.crossed && instr::class_of(instr.op) == Class::Read {
            1
        } else {
            0
        };
        done.set(done.cpu.spent(instr.cycles + extra))
    }

    /// Fetches and executes the instruction at the program counter.
    pub open spec fn ran(self) -> Self {
        self.fetched().executed(instr::instr_of(self.next_byte()))
    }

    /// Takes a pending interrupt: a non-maskable one first, a maskable one only if
    /// interrupts are enabled.
    pub open spec fn serviced(self) -> Self {
        if self.cpu.nmi_pending {
            self.set(Cpu { nmi_pending: false, ..self.cpu }).interrupted(
                self.cpu.status_byte(),
                0xFFFA,
            )
        } else if self.cpu.irq_pending && !self.cpu.i {
            self.interrupted(self.cpu.status_byte(), 0xFFFE)
        } else {
            self
        }
    }

    /// One processor step: a stalled cycle, or a pending interrupt and an instruction.
    #[verifier::opaque]
    pub open spec fn stepped(self) -> Self {
        if self.cpu.stall > 0 {
            self.set(Cpu { stall: (self.cpu.stall - 1) as u32, ..self.cpu.spent(1) })
        } else {
            self.serviced().ran()
        }
    }

    /// Cycles that a step takes: one while stalled, else those of the instruction and, where
    /// one is taken, the seven of an interrupt.
    #[verifier::opaque]
    pub open spec fn step_cycles(self) -> int {
        self.stepped().cpu.cycles - self.cpu.cycles
    }

    /// Reset: the program counter comes from $FFFC.
    pub open spec fn reset(self) -> Self {
        let after = self.read_word(0xFFFC);
        after.set(Cpu { pc: self.peek_word(0xFFFC), sp: 0xFD, i: true, cycles: 0, ..self.cpu })
    }
}

} // verus!
