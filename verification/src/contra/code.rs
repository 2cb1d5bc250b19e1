//! The straight-line part of the language that the recompiler writes: how a piece of it reads
//! as text, and what it does when it runs.

use vstd::prelude::*;
use crate::contra::emitter;
use crate::cpu::Cpu;
use crate::instr;
use crate::instr::{Class, Op};
use crate::machine::Machine;
use crate::memory::Memory;

verus! {

/// A byte variable: a register, or the value that is being changed.
pub ghost enum Var {
    A,
    X,
    Y,
    Sp,
    V,
}

/// A flag of the processor.
pub ghost enum Flag {
    C,
    Z,
    I,
    D,
    V,
    N,
}

/// A condition on a variable.
pub ghost enum Test {
    Top(Var),
    Low(Var),
    Zero(Var),
    No,
    Yes,
}

/// A statement.
pub ghost enum Step {
    Put(Flag, Test),
    Shl(Var),
    Shr(Var),
    Keep,
    Rol(Var),
    Ror(Var),
    Up(Var),
    Down(Var),
    Copy(Var, Var),
    Or(Var),
    And(Var),
    Eor(Var),
    Adc(Var),
    Sbc(Var),
    Compare(Var),
    Spend(u8),
    Push(Var),
    PushStatus,
    Pull,
    PullStatus,
    SetStatus,
    Return,
    Resume,
}

/// Statements in a row.
pub ghost enum Code {
    Done,
    Next(Step, Box<Code>),
}

/// What code works on: the machine, and the local variables `v`, `oc` and `st`.
pub ghost struct Env<M> {
    pub m: Machine<M>,
    pub v: u8,
    pub oc: u8,
    pub st: u8,
}

impl Var {
    pub open spec fn text(self) -> Seq<char> {
        match self {
            Var::A => "s.a"@,
            Var::X => "s.x"@,
            Var::Y => "s.y"@,
            Var::Sp => "s.sp"@,
            Var::V => "v"@,
        }
    }

    pub open spec fn get<M: Memory>(self, e: Env<M>) -> u8 {
        match self {
            Var::A => e.m.cpu.a,
            Var::X => e.m.cpu.x,
            Var::Y => e.m.cpu.y,
            Var::Sp => e.m.cpu.sp,
            Var::V => e.v,
        }
    }

    pub open spec fn set<M: Memory>(self, e: Env<M>, b: u8) -> Env<M> {
        match self {
            Var::A => e.with_cpu(Cpu { a: b, ..e.m.cpu }),
            Var::X => e.with_cpu(Cpu { x: b, ..e.m.cpu }),
            Var::Y => e.with_cpu(Cpu { y: b, ..e.m.cpu }),
            Var::Sp => e.with_cpu(Cpu { sp: b, ..e.m.cpu }),
            Var::V => Env { v: b, ..e },
        }
    }
}

impl Flag {
    pub open spec fn text(self) -> Seq<char> {
        match self {
            Flag::C => "s.c"@,
            Flag::Z => "s.z"@,
            Flag::I => "s.i"@,
            Flag::D => "s.d"@,
            Flag::V => "s.v"@,
            Flag::N => "s.n"@,
        }
    }

    pub open spec fn get(self, cpu: Cpu) -> bool {
        match self {
            Flag::C => cpu.c,
            Flag::Z => cpu.z,
            Flag::I => cpu.i,
            Flag::D => cpu.d,
            Flag::V => cpu.v,
            Flag::N => cpu.n,
        }
    }

    pub open spec fn set(self, cpu: Cpu, on: bool) -> Cpu {
        match self {
            Flag::C => Cpu { c: on, ..cpu },
            Flag::Z => Cpu { z: on, ..cpu },
            Flag::I => Cpu { i: on, ..cpu },
            Flag::D => Cpu { d: on, ..cpu },
            Flag::V => Cpu { v: on, ..cpu },
            Flag::N => Cpu { n: on, ..cpu },
        }
    }
}

impl Test {
    pub open spec fn text(self) -> Seq<char> {
        match self {
            Test::Top(v) => v.text() + " & 0x80 != 0"@,
            Test::Low(v) => v.text() + " & 1 != 0"@,
            Test::Zero(v) => v.text() + " == 0"@,
            Test::No => "false"@,
            Test::Yes => "true"@,
        }
    }

    pub open spec fn holds<M: Memory>(self, e: Env<M>) -> bool {
        match self {
            Test::Top(v) => v.get(e) & 0x80 != 0,
            Test::Low(v) => v.get(e) & 1 != 0,
            Test::Zero(v) => v.get(e) == 0,
            Test::No => false,
            Test::Yes => true,
        }
    }
}

impl<M: Memory> Env<M> {
    pub open spec fn with_cpu(self, cpu: Cpu) -> Env<M> {
        Env { m: self.m.set(cpu), ..self }
    }
}

impl Step {
    pub open spec fn text(self) -> Seq<char> {
        match self {
            Step::Put(flag, test) => flag.text() + " = "@ + test.text(),
            Step::Shl(v) => v.text() + " <<= 1"@,
            Step::Shr(v) => v.text() + " >>= 1"@,
            Step::Keep => "let oc = s.c as u8"@,
            Step::Rol(v) => v.text() + " = ("@ + v.text() + " << 1) | oc"@,
            Step::Ror(v) => v.text() + " = ("@ + v.text() + " >> 1) | (oc << 7)"@,
            Step::Up(v) => v.text() + " = "@ + v.text() + ".wrapping_add(1)"@,
            Step::Down(v) => v.text() + " = "@ + v.text() + ".wrapping_sub(1)"@,
            Step::Copy(to, from) => to.text() + " = "@ + from.text(),
            Step::Or(v) => "s.a |= "@ + v.text(),
            Step::And(v) => "s.a &= "@ + v.text(),
            Step::Eor(v) => "s.a ^= "@ + v.text(),
            Step::Adc(v) => "s.adc("@ + v.text() + ")"@,
            Step::Sbc(v) => "s.sbc("@ + v.text() + ")"@,
            Step::Compare(v) => "s.cmp_reg(s.a, "@ + v.text() + ")"@,
            Step::Spend(n) => "s.cycles += "@ + emitter::decimal(n as nat),
            Step::Push(v) => "s.push(bus, "@ + v.text() + ")"@,
            Step::PushStatus => "s.push(bus, s.status() | 0x10)"@,
            Step::Pull => "s.a = s.pull(bus)"@,
            Step::PullStatus => "let st = s.pull(bus)"@,
            Step::SetStatus => "s.set_status(st)"@,
            Step::Return => "s.pc = s.pull16(bus).wrapping_add(1)"@,
            Step::Resume => "s.pc = s.pull16(bus)"@,
        }
    }

    /// What the statement does.
    pub open spec fn run<M: Memory>(self, e: Env<M>) -> Env<M> {
        let cpu = e.m.cpu;
        match self {
            Step::Put(flag, test) => e.with_cpu(flag.set(cpu, test.holds(e))),
            Step::Shl(v) => v.set(e, v.get(e) << 1),
            Step::Shr(v) => v.set(e, v.get(e) >> 1),
            Step::Keep => Env {
                oc: if cpu.c {
                    1
                } else {
                    0
                },
                ..e
            },
            Step::Rol(v) => v.set(e, (v.get(e) << 1) | e.oc),
            Step::Ror(v) => v.set(e, (v.get(e) >> 1) | (e.oc << 7)),
            Step::Up(v) => v.set(e, v.get(e).wrapping_add(1)),
            Step::Down(v) => v.set(e, v.get(e).wrapping_sub(1)),
            Step::Copy(to, from) => to.set(e, from.get(e)),
            Step::Or(v) => e.with_cpu(Cpu { a: cpu.a | v.get(e), ..cpu }),
            Step::And(v) => e.with_cpu(Cpu { a: cpu.a & v.get(e), ..cpu }),
            Step::Eor(v) => e.with_cpu(Cpu { a: cpu.a ^ v.get(e), ..cpu }),
            Step::Spend(n) => e.with_cpu(cpu.spent(n as int)),
            _ => self.call(e),
        }
    }

    /// What a call does: the methods of the processor do what their contracts say.
    #[verifier::opaque]
    pub open spec fn call<M: Memory>(self, e: Env<M>) -> Env<M> {
        let cpu = e.m.cpu;
        match self {
            Step::Adc(v) => e.with_cpu(cpu.added(v.get(e))),
            Step::Sbc(v) => e.with_cpu(cpu.subtracted(v.get(e))),
            Step::Compare(v) => e.with_cpu(cpu.compared(cpu.a, v.get(e))),
            Step::Push(v) => Env { m: e.m.pushed(v.get(e)), ..e },
            Step::PushStatus => Env { m: e.m.pushed(cpu.status_byte() | 0x10), ..e },
            Step::Pull => {
                let back = e.m.pulled();
                Env { m: back.set(Cpu { a: e.m.top(), ..back.cpu }), ..e }
            },
            Step::PullStatus => Env { m: e.m.pulled(), st: e.m.top(), ..e },
            Step::SetStatus => e.with_cpu(cpu.with_status(e.st)),
            Step::Return => {
                let back = e.m.pulled_word();
                Env { m: back.set(Cpu { pc: e.m.top_word().wrapping_add(1), ..back.cpu }), ..e }
            },
            Step::Resume => {
                let back = e.m.pulled_word();
                Env { m: back.set(Cpu { pc: e.m.top_word(), ..back.cpu }), ..e }
            },
            _ => e,
        }
    }
}

/// Statements, each with its semicolon, separated by blanks.
pub open spec fn code_text(code: Code) -> Seq<char>
    decreases code,
{
    match code {
        Code::Done => Seq::empty(),
        Code::Next(step, rest) => step.text() + ";"@ + (if *rest is Done {
            Seq::empty()
        } else {
            " "@ + code_text(*rest)
        }),
    }
}

/// The same, in braces or not.
pub open spec fn braced_text(code: (bool, Code)) -> Seq<char> {
    if code.0 {
        "{ "@ + code_text(code.1) + " }"@
    } else {
        code_text(code.1)
    }
}

/// What statements in a row do.
pub open spec fn run_code<M: Memory>(code: Code, e: Env<M>) -> Env<M>
    decreases code,
{
    match code {
        Code::Done => e,
        Code::Next(step, rest) => run_code(*rest, step.run(e)),
    }
}

/// The code of an operation on registers, flags and the stack, and whether it stands in
/// braces.
pub open spec fn register_code(op: Op) -> (bool, Code) {
    match op {
        Op::AslA => (false, Code::Next(Step::Put(Flag::C, Test::Top(Var::A)), Box::new(Code::Next(Step::Shl(Var::A), Box::new(Code::Next(Step::Put(Flag::Z, Test::Zero(Var::A)), Box::new(Code::Next(Step::Put(Flag::N, Test::Top(Var::A)), Box::new(Code::Next(Step::Spend(2), Box::new(Code::Done))))))))))),
        Op::LsrA => (false, Code::Next(Step::Put(Flag::C, Test::Low(Var::A)), Box::new(Code::Next(Step::Shr(Var::A), Box::new(Code::Next(Step::Put(Flag::Z, Test::Zero(Var::A)), Box::new(Code::Next(Step::Put(Flag::N, Test::No), Box::new(Code::Next(Step::Spend(2), Box::new(Code::Done))))))))))),
        Op::RolA => (true, Code::Next(Step::Keep, Box::new(Code::Next(Step::Put(Flag::C, Test::Top(Var::A)), Box::new(Code::Next(Step::Rol(Var::A), Box::new(Code::Next(Step::Put(Flag::Z, Test::Zero(Var::A)), Box::new(Code::Next(Step::Put(Flag::N, Test::Top(Var::A)), Box::new(Code::Next(Step::Spend(2), Box::new(Code::Done))))))))))))),
        Op::RorA => (true, Code::Next(Step::Keep, Box::new(Code::Next(Step::Put(Flag::C, Test::Low(Var::A)), Box::new(Code::Next(Step::Ror(Var::A), Box::new(Code::Next(Step::Put(Flag::Z, Test::Zero(Var::A)), Box::new(Code::Next(Step::Put(Flag::N, Test::Top(Var::A)), Box::new(Code::Next(Step::Spend(2), Box::new(Code::Done))))))))))))),
        Op::Inx => (false, Code::Next(Step::Up(Var::X), Box::new(Code::Next(Step::Put(Flag::Z, Test::Zero(Var::X)), Box::new(Code::Next(Step::Put(Flag::N, Test::Top(Var::X)), Box::new(Code::Next(Step::Spend(2), Box::new(Code::Done))))))))),
        Op::Iny => (false, Code::Next(Step::Up(Var::Y), Box::new(Code::Next(Step::Put(Flag::Z, Test::Zero(Var::Y)), Box::new(Code::Next(Step::Put(Flag::N, Test::Top(Var::Y)), Box::new(Code::Next(Step::Spend(2), Box::new(Code::Done))))))))),
        Op::Dex => (false, Code::Next(Step::Down(Var::X), Box::new(Code::Next(Step::Put(Flag::Z, Test::Zero(Var::X)), Box::new(Code::Next(Step::Put(Flag::N, Test::Top(Var::X)), Box::new(Code::Next(Step::Spend(2), Box::new(Code::Done))))))))),
        Op::Dey => (false, Code::Next(Step::Down(Var::Y), Box::new(Code::Next(Step::Put(Flag::Z, Test::Zero(Var::Y)), Box::new(Code::Next(Step::Put(Flag::N, Test::Top(Var::Y)), Box::new(Code::Next(Step::Spend(2), Box::new(Code::Done))))))))),
        Op::Rts => (false, Code::Next(Step::Return, Box::new(Code::Next(Step::Spend(6), Box::new(Code::Done))))),
        Op::Rti => (true, Code::Next(Step::PullStatus, Box::new(Code::Next(Step::SetStatus, Box::new(Code::Next(Step::Resume, Box::new(Code::Next(Step::Spend(6), Box::new(Code::Done))))))))),
        Op::Tax => (false, Code::Next(Step::Copy(Var::X, Var::A), Box::new(Code::Next(Step::Put(Flag::Z, Test::Zero(Var::X)), Box::new(Code::Next(Step::Put(Flag::N, Test::Top(Var::X)), Box::new(Code::Next(Step::Spend(2), Box::new(Code::Done))))))))),
        Op::Txa => (false, Code::Next(Step::Copy(Var::A, Var::X), Box::new(Code::Next(Step::Put(Flag::Z, Test::Zero(Var::A)), Box::new(Code::Next(Step::Put(Flag::N, Test::Top(Var::A)), Box::new(Code::Next(Step::Spend(2), Box::new(Code::Done))))))))),
        Op::Tay => (false, Code::Next(Step::Copy(Var::Y, Var::A), Box::new(Code::Next(Step::Put(Flag::Z, Test::Zero(Var::Y)), Box::new(Code::Next(Step::Put(Flag::N, Test::Top(Var::Y)), Box::new(Code::Next(Step::Spend(2), Box::new(Code::Done))))))))),
        Op::Tya => (false, Code::Next(Step::Copy(Var::A, Var::Y), Box::new(Code::Next(Step::Put(Flag::Z, Test::Zero(Var::A)), Box::new(Code::Next(Step::Put(Flag::N, Test::Top(Var::A)), Box::new(Code::Next(Step::Spend(2), Box::new(Code::Done))))))))),
        Op::Txs => (false, Code::Next(Step::Copy(Var::Sp, Var::X), Box::new(Code::Next(Step::Spend(2), Box::new(Code::Done))))),
        Op::Tsx => (false, Code::Next(Step::Copy(Var::X, Var::Sp), Box::new(Code::Next(Step::Put(Flag::Z, Test::Zero(Var::X)), Box::new(Code::Next(Step::Put(Flag::N, Test::Top(Var::X)), Box::new(Code::Next(Step::Spend(2), Box::new(Code::Done))))))))),
        Op::Pha => (false, Code::Next(Step::Push(Var::A), Box::new(Code::Next(Step::Spend(3), Box::new(Code::Done))))),
        Op::Pla => (false, Code::Next(Step::Pull, Box::new(Code::Next(Step::Put(Flag::Z, Test::Zero(Var::A)), Box::new(Code::Next(Step::Put(Flag::N, Test::Top(Var::A)), Box::new(Code::Next(Step::Spend(4), Box::new(Code::Done))))))))),
        Op::Php => (false, Code::Next(Step::PushStatus, Box::new(Code::Next(Step::Spend(3), Box::new(Code::Done))))),
        Op::Plp => (true, Code::Next(Step::PullStatus, Box::new(Code::Next(Step::SetStatus, Box::new(Code::Next(Step::Spend(4), Box::new(Code::Done))))))),
        Op::Clc => (false, Code::Next(Step::Put(Flag::C, Test::No), Box::new(Code::Next(Step::Spend(2), Box::new(Code::Done))))),
        Op::Sec => (false, Code::Next(Step::Put(Flag::C, Test::Yes), Box::new(Code::Next(Step::Spend(2), Box::new(Code::Done))))),
        Op::Cli => (false, Code::Next(Step::Put(Flag::I, Test::No), Box::new(Code::Next(Step::Spend(2), Box::new(Code::Done))))),
        Op::Sei => (false, Code::Next(Step::Put(Flag::I, Test::Yes), Box::new(Code::Next(Step::Spend(2), Box::new(Code::Done))))),
        Op::Clv => (false, Code::Next(Step::Put(Flag::V, Test::No), Box::new(Code::Next(Step::Spend(2), Box::new(Code::Done))))),
        Op::Cld => (false, Code::Next(Step::Put(Flag::D, Test::No), Box::new(Code::Next(Step::Spend(2), Box::new(Code::Done))))),
        _ => (false, Code::Next(Step::Put(Flag::D, Test::Yes), Box::new(Code::Next(Step::Spend(2), Box::new(Code::Done))))),
    }
}

/// The code that changes a value `v`.
pub open spec fn modify_code(op: Op) -> Code {
    match op {
        Op::Asl => Code::Next(Step::Put(Flag::C, Test::Top(Var::V)), Box::new(Code::Next(Step::Shl(Var::V), Box::new(Code::Next(Step::Put(Flag::Z, Test::Zero(Var::V)), Box::new(Code::Next(Step::Put(Flag::N, Test::Top(Var::V)), Box::new(Code::Done)))))))),
        Op::Lsr => Code::Next(Step::Put(Flag::C, Test::Low(Var::V)), Box::new(Code::Next(Step::Shr(Var::V), Box::new(Code::Next(Step::Put(Flag::Z, Test::Zero(Var::V)), Box::new(Code::Next(Step::Put(Flag::N, Test::No), Box::new(Code::Done)))))))),
        Op::Rol => Code::Next(Step::Keep, Box::new(Code::Next(Step::Put(Flag::C, Test::Top(Var::V)), Box::new(Code::Next(Step::Rol(Var::V), Box::new(Code::Next(Step::Put(Flag::Z, Test::Zero(Var::V)), Box::new(Code::Next(Step::Put(Flag::N, Test::Top(Var::V)), Box::new(Code::Done)))))))))),
        Op::Ror => Code::Next(Step::Keep, Box::new(Code::Next(Step::Put(Flag::C, Test::Low(Var::V)), Box::new(Code::Next(Step::Ror(Var::V), Box::new(Code::Next(Step::Put(Flag::Z, Test::Zero(Var::V)), Box::new(Code::Next(Step::Put(Flag::N, Test::Top(Var::V)), Box::new(Code::Done)))))))))),
        Op::Inc => Code::Next(Step::Up(Var::V), Box::new(Code::Next(Step::Put(Flag::Z, Test::Zero(Var::V)), Box::new(Code::Next(Step::Put(Flag::N, Test::Top(Var::V)), Box::new(Code::Done)))))),
        Op::Dec => Code::Next(Step::Down(Var::V), Box::new(Code::Next(Step::Put(Flag::Z, Test::Zero(Var::V)), Box::new(Code::Next(Step::Put(Flag::N, Test::Top(Var::V)), Box::new(Code::Done)))))),
        Op::Dcp => Code::Next(Step::Down(Var::V), Box::new(Code::Next(Step::Compare(Var::V), Box::new(Code::Done)))),
        Op::Isb => Code::Next(Step::Up(Var::V), Box::new(Code::Next(Step::Sbc(Var::V), Box::new(Code::Done)))),
        Op::Slo => Code::Next(Step::Put(Flag::C, Test::Top(Var::V)), Box::new(Code::Next(Step::Shl(Var::V), Box::new(Code::Next(Step::Or(Var::V), Box::new(Code::Next(Step::Put(Flag::Z, Test::Zero(Var::A)), Box::new(Code::Next(Step::Put(Flag::N, Test::Top(Var::A)), Box::new(Code::Done)))))))))),
        Op::Rla => Code::Next(Step::Keep, Box::new(Code::Next(Step::Put(Flag::C, Test::Top(Var::V)), Box::new(Code::Next(Step::Rol(Var::V), Box::new(Code::Next(Step::And(Var::V), Box::new(Code::Next(Step::Put(Flag::Z, Test::Zero(Var::A)), Box::new(Code::Next(Step::Put(Flag::N, Test::Top(Var::A)), Box::new(Code::Done)))))))))))),
        Op::Sre => Code::Next(Step::Put(Flag::C, Test::Low(Var::V)), Box::new(Code::Next(Step::Shr(Var::V), Box::new(Code::Next(Step::Eor(Var::V), Box::new(Code::Next(Step::Put(Flag::Z, Test::Zero(Var::A)), Box::new(Code::Next(Step::Put(Flag::N, Test::Top(Var::A)), Box::new(Code::Done)))))))))),
        _ => Code::Next(Step::Keep, Box::new(Code::Next(Step::Put(Flag::C, Test::Low(Var::V)), Box::new(Code::Next(Step::Ror(Var::V), Box::new(Code::Next(Step::Adc(Var::V), Box::new(Code::Done)))))))),
    }
}

proof fn lemma_text_asla()
    ensures
        braced_text(register_code(Op::AslA)) == emitter::register_text(Op::AslA),
{
    reveal_strlit("s.c = s.a & 0x80 != 0; s.a <<= 1; s.z = s.a == 0; s.n = s.a & 0x80 != 0; s.cycles += 2;");
    reveal_strlit("s.c");
    reveal_strlit(" = ");
    reveal_strlit("s.a");
    reveal_strlit(" & 0x80 != 0");
    reveal_strlit(" <<= 1");
    reveal_strlit("s.z");
    reveal_strlit(" == 0");
    reveal_strlit("s.n");
    reveal_strlit("s.cycles += ");
    reveal_strlit("2");
    reveal_strlit("; ");
    reveal_strlit(";");
    reveal_strlit(" ");
    reveal_with_fuel(code_text, 9);
    assert(braced_text(register_code(Op::AslA)) =~= "s.c = s.a & 0x80 != 0; s.a <<= 1; s.z = s.a == 0; s.n = s.a & 0x80 != 0; s.cycles += 2;"@);
}

proof fn lemma_text_lsra()
    ensures
        braced_text(register_code(Op::LsrA)) == emitter::register_text(Op::LsrA),
{
    reveal_strlit("s.c = s.a & 1 != 0; s.a >>= 1; s.z = s.a == 0; s.n = false; s.cycles += 2;");
    reveal_strlit("s.c");
    reveal_strlit(" = ");
    reveal_strlit("s.a");
    reveal_strlit(" & 1 != 0");
    reveal_strlit(" >>= 1");
    reveal_strlit("s.z");
    reveal_strlit(" == 0");
    reveal_strlit("s.n");
    reveal_strlit("false");
    reveal_strlit("s.cycles += ");
    reveal_strlit("2");
    reveal_strlit("; ");
    reveal_strlit(";");
    reveal_strlit(" ");
    reveal_with_fuel(code_text, 9);
    assert(braced_text(register_code(Op::LsrA)) =~= "s.c = s.a & 1 != 0; s.a >>= 1; s.z = s.a == 0; s.n = false; s.cycles += 2;"@);
}

proof fn lemma_text_rola()
    ensures
        braced_text(register_code(Op::RolA)) == emitter::register_text(Op::RolA),
{
    reveal_strlit("{ let oc = s.c as u8; s.c = s.a & 0x80 != 0; s.a = (s.a << 1) | oc; s.z = s.a == 0; s.n = s.a & 0x80 != 0; s.cycles += 2; }");
    reveal_strlit("let oc = s.c as u8");
    reveal_strlit("s.c");
    reveal_strlit(" = ");
    reveal_strlit("s.a");
    reveal_strlit(" & 0x80 != 0");
    reveal_strlit(" = (");
    reveal_strlit(" << 1) | oc");
    reveal_strlit("s.z");
    reveal_strlit(" == 0");
    reveal_strlit("s.n");
    reveal_strlit("s.cycles += ");
    reveal_strlit("2");
    reveal_strlit("; ");
    reveal_strlit(";");
    reveal_strlit(" ");
    reveal_strlit("{ ");
    reveal_strlit(" }");
    reveal_with_fuel(code_text, 9);
    assert(braced_text(register_code(Op::RolA)) =~= "{ let oc = s.c as u8; s.c = s.a & 0x80 != 0; s.a = (s.a << 1) | oc; s.z = s.a == 0; s.n = s.a & 0x80 != 0; s.cycles += 2; }"@);
}

proof fn lemma_text_rora()
    ensures
        braced_text(register_code(Op::RorA)) == emitter::register_text(Op::RorA),
{
    reveal_strlit("{ let oc = s.c as u8; s.c = s.a & 1 != 0; s.a = (s.a >> 1) | (oc << 7); s.z = s.a == 0; s.n = s.a & 0x80 != 0; s.cycles += 2; }");
    reveal_strlit("let oc = s.c as u8");
    reveal_strlit("s.c");
    reveal_strlit(" = ");
    reveal_strlit("s.a");
    reveal_strlit(" & 1 != 0");
    reveal_strlit(" = (");
    reveal_strlit(" >> 1) | (oc << 7)");
    reveal_strlit("s.z");
    reveal_strlit(" == 0");
    reveal_strlit("s.n");
    reveal_strlit(" & 0x80 != 0");
    reveal_strlit("s.cycles += ");
    reveal_strlit("2");
    reveal_strlit("; ");
    reveal_strlit(";");
    reveal_strlit(" ");
    reveal_strlit("{ ");
    reveal_strlit(" }");
    reveal_with_fuel(code_text, 9);
    assert(braced_text(register_code(Op::RorA)) =~= "{ let oc = s.c as u8; s.c = s.a & 1 != 0; s.a = (s.a >> 1) | (oc << 7); s.z = s.a == 0; s.n = s.a & 0x80 != 0; s.cycles += 2; }"@);
}

proof fn lemma_text_inx()
    ensures
        braced_text(register_code(Op::Inx)) == emitter::register_text(Op::Inx),
{
    reveal_strlit("s.x = s.x.wrapping_add(1); s.z = s.x == 0; s.n = s.x & 0x80 != 0; s.cycles += 2;");
    reveal_strlit("s.x");
    reveal_strlit(" = ");
    reveal_strlit(".wrapping_add(1)");
    reveal_strlit("s.z");
    reveal_strlit(" == 0");
    reveal_strlit("s.n");
    reveal_strlit(" & 0x80 != 0");
    reveal_strlit("s.cycles += ");
    reveal_strlit("2");
    reveal_strlit("; ");
    reveal_strlit(";");
    reveal_strlit(" ");
    reveal_with_fuel(code_text, 9);
    assert(braced_text(register_code(Op::Inx)) =~= "s.x = s.x.wrapping_add(1); s.z = s.x == 0; s.n = s.x & 0x80 != 0; s.cycles += 2;"@);
}

proof fn lemma_text_iny()
    ensures
        braced_text(register_code(Op::Iny)) == emitter::register_text(Op::Iny),
{
    reveal_strlit("s.y = s.y.wrapping_add(1); s.z = s.y == 0; s.n = s.y & 0x80 != 0; s.cycles += 2;");
    reveal_strlit("s.y");
    reveal_strlit(" = ");
    reveal_strlit(".wrapping_add(1)");
    reveal_strlit("s.z");
    reveal_strlit(" == 0");
    reveal_strlit("s.n");
    reveal_strlit(" & 0x80 != 0");
    reveal_strlit("s.cycles += ");
    reveal_strlit("2");
    reveal_strlit("; ");
    reveal_strlit(";");
    reveal_strlit(" ");
    reveal_with_fuel(code_text, 9);
    assert(braced_text(register_code(Op::Iny)) =~= "s.y = s.y.wrapping_add(1); s.z = s.y == 0; s.n = s.y & 0x80 != 0; s.cycles += 2;"@);
}

proof fn lemma_text_dex()
    ensures
        braced_text(register_code(Op::Dex)) == emitter::register_text(Op::Dex),
{
    reveal_strlit("s.x = s.x.wrapping_sub(1); s.z = s.x == 0; s.n = s.x & 0x80 != 0; s.cycles += 2;");
    reveal_strlit("s.x");
    reveal_strlit(" = ");
    reveal_strlit(".wrapping_sub(1)");
    reveal_strlit("s.z");
    reveal_strlit(" == 0");
    reveal_strlit("s.n");
    reveal_strlit(" & 0x80 != 0");
    reveal_strlit("s.cycles += ");
    reveal_strlit("2");
    reveal_strlit("; ");
    reveal_strlit(";");
    reveal_strlit(" ");
    reveal_with_fuel(code_text, 9);
    assert(braced_text(register_code(Op::Dex)) =~= "s.x = s.x.wrapping_sub(1); s.z = s.x == 0; s.n = s.x & 0x80 != 0; s.cycles += 2;"@);
}

proof fn lemma_text_dey()
    ensures
        braced_text(register_code(Op::Dey)) == emitter::register_text(Op::Dey),
{
    reveal_strlit("s.y = s.y.wrapping_sub(1); s.z = s.y == 0; s.n = s.y & 0x80 != 0; s.cycles += 2;");
    reveal_strlit("s.y");
    reveal_strlit(" = ");
    reveal_strlit(".wrapping_sub(1)");
    reveal_strlit("s.z");
    reveal_strlit(" == 0");
    reveal_strlit("s.n");
    reveal_strlit(" & 0x80 != 0");
    reveal_strlit("s.cycles += ");
    reveal_strlit("2");
    reveal_strlit("; ");
    reveal_strlit(";");
    reveal_strlit(" ");
    reveal_with_fuel(code_text, 9);
    assert(braced_text(register_code(Op::Dey)) =~= "s.y = s.y.wrapping_sub(1); s.z = s.y == 0; s.n = s.y & 0x80 != 0; s.cycles += 2;"@);
}

proof fn lemma_text_rts()
    ensures
        braced_text(register_code(Op::Rts)) == emitter::register_text(Op::Rts),
{
    reveal_strlit("s.pc = s.pull16(bus).wrapping_add(1); s.cycles += 6;");
    reveal_strlit("s.pc = s.pull16(bus).wrapping_add(1)");
    reveal_strlit("s.cycles += ");
    reveal_strlit("6");
    reveal_strlit("; ");
    reveal_strlit(";");
    reveal_strlit(" ");
    reveal_with_fuel(code_text, 9);
    assert(braced_text(register_code(Op::Rts)) =~= "s.pc = s.pull16(bus).wrapping_add(1); s.cycles += 6;"@);
}

proof fn lemma_text_rti()
    ensures
        braced_text(register_code(Op::Rti)) == emitter::register_text(Op::Rti),
{
    reveal_strlit("{ let st = s.pull(bus); s.set_status(st); s.pc = s.pull16(bus); s.cycles += 6; }");
    reveal_strlit("let st = s.pull(bus)");
    reveal_strlit("s.set_status(st)");
    reveal_strlit("s.pc = s.pull16(bus)");
    reveal_strlit("s.cycles += ");
    reveal_strlit("6");
    reveal_strlit("; ");
    reveal_strlit(";");
    reveal_strlit(" ");
    reveal_strlit("{ ");
    reveal_strlit(" }");
    reveal_with_fuel(code_text, 9);
    assert(braced_text(register_code(Op::Rti)) =~= "{ let st = s.pull(bus); s.set_status(st); s.pc = s.pull16(bus); s.cycles += 6; }"@);
}

proof fn lemma_text_tax()
    ensures
        braced_text(register_code(Op::Tax)) == emitter::register_text(Op::Tax),
{
    reveal_strlit("s.x = s.a; s.z = s.x == 0; s.n = s.x & 0x80 != 0; s.cycles += 2;");
    reveal_strlit("s.x");
    reveal_strlit(" = ");
    reveal_strlit("s.a");
    reveal_strlit("s.z");
    reveal_strlit(" == 0");
    reveal_strlit("s.n");
    reveal_strlit(" & 0x80 != 0");
    reveal_strlit("s.cycles += ");
    reveal_strlit("2");
    reveal_strlit("; ");
    reveal_strlit(";");
    reveal_strlit(" ");
    reveal_with_fuel(code_text, 9);
    assert(braced_text(register_code(Op::Tax)) =~= "s.x = s.a; s.z = s.x == 0; s.n = s.x & 0x80 != 0; s.cycles += 2;"@);
}

proof fn lemma_text_txa()
    ensures
        braced_text(register_code(Op::Txa)) == emitter::register_text(Op::Txa),
{
    reveal_strlit("s.a = s.x; s.z = s.a == 0; s.n = s.a & 0x80 != 0; s.cycles += 2;");
    reveal_strlit("s.a");
    reveal_strlit(" = ");
    reveal_strlit("s.x");
    reveal_strlit("s.z");
    reveal_strlit(" == 0");
    reveal_strlit("s.n");
    reveal_strlit(" & 0x80 != 0");
    reveal_strlit("s.cycles += ");
    reveal_strlit("2");
    reveal_strlit("; ");
    reveal_strlit(";");
    reveal_strlit(" ");
    reveal_with_fuel(code_text, 9);
    assert(braced_text(register_code(Op::Txa)) =~= "s.a = s.x; s.z = s.a == 0; s.n = s.a & 0x80 != 0; s.cycles += 2;"@);
}

proof fn lemma_text_tay()
    ensures
        braced_text(register_code(Op::Tay)) == emitter::register_text(Op::Tay),
{
    reveal_strlit("s.y = s.a; s.z = s.y == 0; s.n = s.y & 0x80 != 0; s.cycles += 2;");
    reveal_strlit("s.y");
    reveal_strlit(" = ");
    reveal_strlit("s.a");
    reveal_strlit("s.z");
    reveal_strlit(" == 0");
    reveal_strlit("s.n");
    reveal_strlit(" & 0x80 != 0");
    reveal_strlit("s.cycles += ");
    reveal_strlit("2");
    reveal_strlit("; ");
    reveal_strlit(";");
    reveal_strlit(" ");
    reveal_with_fuel(code_text, 9);
    assert(braced_text(register_code(Op::Tay)) =~= "s.y = s.a; s.z = s.y == 0; s.n = s.y & 0x80 != 0; s.cycles += 2;"@);
}

proof fn lemma_text_tya()
    ensures
        braced_text(register_code(Op::Tya)) == emitter::register_text(Op::Tya),
{
    reveal_strlit("s.a = s.y; s.z = s.a == 0; s.n = s.a & 0x80 != 0; s.cycles += 2;");
    reveal_strlit("s.a");
    reveal_strlit(" = ");
    reveal_strlit("s.y");
    reveal_strlit("s.z");
    reveal_strlit(" == 0");
    reveal_strlit("s.n");
    reveal_strlit(" & 0x80 != 0");
    reveal_strlit("s.cycles += ");
    reveal_strlit("2");
    reveal_strlit("; ");
    reveal_strlit(";");
    reveal_strlit(" ");
    reveal_with_fuel(code_text, 9);
    assert(braced_text(register_code(Op::Tya)) =~= "s.a = s.y; s.z = s.a == 0; s.n = s.a & 0x80 != 0; s.cycles += 2;"@);
}

proof fn lemma_text_txs()
    ensures
        braced_text(register_code(Op::Txs)) == emitter::register_text(Op::Txs),
{
    reveal_strlit("s.sp = s.x; s.cycles += 2;");
    reveal_strlit("s.sp");
    reveal_strlit(" = ");
    reveal_strlit("s.x");
    reveal_strlit("s.cycles += ");
    reveal_strlit("2");
    reveal_strlit("; ");
    reveal_strlit(";");
    reveal_strlit(" ");
    reveal_with_fuel(code_text, 9);
    assert(braced_text(register_code(Op::Txs)) =~= "s.sp = s.x; s.cycles += 2;"@);
}

proof fn lemma_text_tsx()
    ensures
        braced_text(register_code(Op::Tsx)) == emitter::register_text(Op::Tsx),
{
    reveal_strlit("s.x = s.sp; s.z = s.x == 0; s.n = s.x & 0x80 != 0; s.cycles += 2;");
    reveal_strlit("s.x");
    reveal_strlit(" = ");
    reveal_strlit("s.sp");
    reveal_strlit("s.z");
    reveal_strlit(" == 0");
    reveal_strlit("s.n");
    reveal_strlit(" & 0x80 != 0");
    reveal_strlit("s.cycles += ");
    reveal_strlit("2");
    reveal_strlit("; ");
    reveal_strlit(";");
    reveal_strlit(" ");
    reveal_with_fuel(code_text, 9);
    assert(braced_text(register_code(Op::Tsx)) =~= "s.x = s.sp; s.z = s.x == 0; s.n = s.x & 0x80 != 0; s.cycles += 2;"@);
}

proof fn lemma_text_pha()
    ensures
        braced_text(register_code(Op::Pha)) == emitter::register_text(Op::Pha),
{
    reveal_strlit("s.push(bus, s.a); s.cycles += 3;");
    reveal_strlit("s.push(bus, ");
    reveal_strlit("s.a");
    reveal_strlit(")");
    reveal_strlit("s.cycles += ");
    reveal_strlit("3");
    reveal_strlit("; ");
    reveal_strlit(";");
    reveal_strlit(" ");
    reveal_with_fuel(code_text, 9);
    assert(braced_text(register_code(Op::Pha)) =~= "s.push(bus, s.a); s.cycles += 3;"@);
}

proof fn lemma_text_pla()
    ensures
        braced_text(register_code(Op::Pla)) == emitter::register_text(Op::Pla),
{
    reveal_strlit("s.a = s.pull(bus); s.z = s.a == 0; s.n = s.a & 0x80 != 0; s.cycles += 4;");
    reveal_strlit("s.a = s.pull(bus)");
    reveal_strlit("s.z");
    reveal_strlit(" = ");
    reveal_strlit("s.a");
    reveal_strlit(" == 0");
    reveal_strlit("s.n");
    reveal_strlit(" & 0x80 != 0");
    reveal_strlit("s.cycles += ");
    reveal_strlit("4");
    reveal_strlit("; ");
    reveal_strlit(";");
    reveal_strlit(" ");
    reveal_with_fuel(code_text, 9);
    assert(braced_text(register_code(Op::Pla)) =~= "s.a = s.pull(bus); s.z = s.a == 0; s.n = s.a & 0x80 != 0; s.cycles += 4;"@);
}

proof fn lemma_text_php()
    ensures
        braced_text(register_code(Op::Php)) == emitter::register_text(Op::Php),
{
    reveal_strlit("s.push(bus, s.status() | 0x10); s.cycles += 3;");
    reveal_strlit("s.push(bus, s.status() | 0x10)");
    reveal_strlit("s.cycles += ");
    reveal_strlit("3");
    reveal_strlit("; ");
    reveal_strlit(";");
    reveal_strlit(" ");
    reveal_with_fuel(code_text, 9);
    assert(braced_text(register_code(Op::Php)) =~= "s.push(bus, s.status() | 0x10); s.cycles += 3;"@);
}

proof fn lemma_text_plp()
    ensures
        braced_text(register_code(Op::Plp)) == emitter::register_text(Op::Plp),
{
    reveal_strlit("{ let st = s.pull(bus); s.set_status(st); s.cycles += 4; }");
    reveal_strlit("let st = s.pull(bus)");
    reveal_strlit("s.set_status(st)");
    reveal_strlit("s.cycles += ");
    reveal_strlit("4");
    reveal_strlit("; ");
    reveal_strlit(";");
    reveal_strlit(" ");
    reveal_strlit("{ ");
    reveal_strlit(" }");
    reveal_with_fuel(code_text, 9);
    assert(braced_text(register_code(Op::Plp)) =~= "{ let st = s.pull(bus); s.set_status(st); s.cycles += 4; }"@);
}

proof fn lemma_text_clc()
    ensures
        braced_text(register_code(Op::Clc)) == emitter::register_text(Op::Clc),
{
    reveal_strlit("s.c = false; s.cycles += 2;");
    reveal_strlit("s.c");
    reveal_strlit(" = ");
    reveal_strlit("false");
    reveal_strlit("s.cycles += ");
    reveal_strlit("2");
    reveal_strlit("; ");
    reveal_strlit(";");
    reveal_strlit(" ");
    reveal_with_fuel(code_text, 9);
    assert(braced_text(register_code(Op::Clc)) =~= "s.c = false; s.cycles += 2;"@);
}

proof fn lemma_text_sec()
    ensures
        braced_text(register_code(Op::Sec)) == emitter::register_text(Op::Sec),
{
    reveal_strlit("s.c = true; s.cycles += 2;");
    reveal_strlit("s.c");
    reveal_strlit(" = ");
    reveal_strlit("true");
    reveal_strlit("s.cycles += ");
    reveal_strlit("2");
    reveal_strlit("; ");
    reveal_strlit(";");
    reveal_strlit(" ");
    reveal_with_fuel(code_text, 9);
    assert(braced_text(register_code(Op::Sec)) =~= "s.c = true; s.cycles += 2;"@);
}

proof fn lemma_text_cli()
    ensures
        braced_text(register_code(Op::Cli)) == emitter::register_text(Op::Cli),
{
    reveal_strlit("s.i = false; s.cycles += 2;");
    reveal_strlit("s.i");
    reveal_strlit(" = ");
    reveal_strlit("false");
    reveal_strlit("s.cycles += ");
    reveal_strlit("2");
    reveal_strlit("; ");
    reveal_strlit(";");
    reveal_strlit(" ");
    reveal_with_fuel(code_text, 9);
    assert(braced_text(register_code(Op::Cli)) =~= "s.i = false; s.cycles += 2;"@);
}

proof fn lemma_text_sei()
    ensures
        braced_text(register_code(Op::Sei)) == emitter::register_text(Op::Sei),
{
    reveal_strlit("s.i = true; s.cycles += 2;");
    reveal_strlit("s.i");
    reveal_strlit(" = ");
    reveal_strlit("true");
    reveal_strlit("s.cycles += ");
    reveal_strlit("2");
    reveal_strlit("; ");
    reveal_strlit(";");
    reveal_strlit(" ");
    reveal_with_fuel(code_text, 9);
    assert(braced_text(register_code(Op::Sei)) =~= "s.i = true; s.cycles += 2;"@);
}

proof fn lemma_text_clv()
    ensures
        braced_text(register_code(Op::Clv)) == emitter::register_text(Op::Clv),
{
    reveal_strlit("s.v = false; s.cycles += 2;");
    reveal_strlit("s.v");
    reveal_strlit(" = ");
    reveal_strlit("false");
    reveal_strlit("s.cycles += ");
    reveal_strlit("2");
    reveal_strlit("; ");
    reveal_strlit(";");
    reveal_strlit(" ");
    reveal_with_fuel(code_text, 9);
    assert(braced_text(register_code(Op::Clv)) =~= "s.v = false; s.cycles += 2;"@);
}

proof fn lemma_text_cld()
    ensures
        braced_text(register_code(Op::Cld)) == emitter::register_text(Op::Cld),
{
    reveal_strlit("s.d = false; s.cycles += 2;");
    reveal_strlit("s.d");
    reveal_strlit(" = ");
    reveal_strlit("false");
    reveal_strlit("s.cycles += ");
    reveal_strlit("2");
    reveal_strlit("; ");
    reveal_strlit(";");
    reveal_strlit(" ");
    reveal_with_fuel(code_text, 9);
    assert(braced_text(register_code(Op::Cld)) =~= "s.d = false; s.cycles += 2;"@);
}

proof fn lemma_text_sed()
    ensures
        braced_text(register_code(Op::Sed)) == emitter::register_text(Op::Sed),
{
    reveal_strlit("s.d = true; s.cycles += 2;");
    reveal_strlit("s.d");
    reveal_strlit(" = ");
    reveal_strlit("true");
    reveal_strlit("s.cycles += ");
    reveal_strlit("2");
    reveal_strlit("; ");
    reveal_strlit(";");
    reveal_strlit(" ");
    reveal_with_fuel(code_text, 9);
    assert(braced_text(register_code(Op::Sed)) =~= "s.d = true; s.cycles += 2;"@);
}

proof fn lemma_body_asl()
    ensures
        code_text(modify_code(Op::Asl)) == emitter::modify_body(Op::Asl),
{
    reveal_strlit("s.c = v & 0x80 != 0; v <<= 1; s.z = v == 0; s.n = v & 0x80 != 0;");
    reveal_strlit("s.c");
    reveal_strlit(" = ");
    reveal_strlit("v");
    reveal_strlit(" & 0x80 != 0");
    reveal_strlit(" <<= 1");
    reveal_strlit("s.z");
    reveal_strlit(" == 0");
    reveal_strlit("s.n");
    reveal_strlit("; ");
    reveal_strlit(";");
    reveal_strlit(" ");
    reveal_with_fuel(code_text, 9);
    assert(code_text(modify_code(Op::Asl)) =~= "s.c = v & 0x80 != 0; v <<= 1; s.z = v == 0; s.n = v & 0x80 != 0;"@);
}

proof fn lemma_body_lsr()
    ensures
        code_text(modify_code(Op::Lsr)) == emitter::modify_body(Op::Lsr),
{
    reveal_strlit("s.c = v & 1 != 0; v >>= 1; s.z = v == 0; s.n = false;");
    reveal_strlit("s.c");
    reveal_strlit(" = ");
    reveal_strlit("v");
    reveal_strlit(" & 1 != 0");
    reveal_strlit(" >>= 1");
    reveal_strlit("s.z");
    reveal_strlit(" == 0");
    reveal_strlit("s.n");
    reveal_strlit("false");
    reveal_strlit("; ");
    reveal_strlit(";");
    reveal_strlit(" ");
    reveal_with_fuel(code_text, 9);
    assert(code_text(modify_code(Op::Lsr)) =~= "s.c = v & 1 != 0; v >>= 1; s.z = v == 0; s.n = false;"@);
}

proof fn lemma_body_rol()
    ensures
        code_text(modify_code(Op::Rol)) == emitter::modify_body(Op::Rol),
{
    reveal_strlit("let oc = s.c as u8; s.c = v & 0x80 != 0; v = (v << 1) | oc; s.z = v == 0; s.n = v & 0x80 != 0;");
    reveal_strlit("let oc = s.c as u8");
    reveal_strlit("s.c");
    reveal_strlit(" = ");
    reveal_strlit("v");
    reveal_strlit(" & 0x80 != 0");
    reveal_strlit(" = (");
    reveal_strlit(" << 1) | oc");
    reveal_strlit("s.z");
    reveal_strlit(" == 0");
    reveal_strlit("s.n");
    reveal_strlit("; ");
    reveal_strlit(";");
    reveal_strlit(" ");
    reveal_with_fuel(code_text, 9);
    assert(code_text(modify_code(Op::Rol)) =~= "let oc = s.c as u8; s.c = v & 0x80 != 0; v = (v << 1) | oc; s.z = v == 0; s.n = v & 0x80 != 0;"@);
}

proof fn lemma_body_ror()
    ensures
        code_text(modify_code(Op::Ror)) == emitter::modify_body(Op::Ror),
{
    reveal_strlit("let oc = s.c as u8; s.c = v & 1 != 0; v = (v >> 1) | (oc << 7); s.z = v == 0; s.n = v & 0x80 != 0;");
    reveal_strlit("let oc = s.c as u8");
    reveal_strlit("s.c");
    reveal_strlit(" = ");
    reveal_strlit("v");
    reveal_strlit(" & 1 != 0");
    reveal_strlit(" = (");
    reveal_strlit(" >> 1) | (oc << 7)");
    reveal_strlit("s.z");
    reveal_strlit(" == 0");
    reveal_strlit("s.n");
    reveal_strlit(" & 0x80 != 0");
    reveal_strlit("; ");
    reveal_strlit(";");
    reveal_strlit(" ");
    reveal_with_fuel(code_text, 9);
    assert(code_text(modify_code(Op::Ror)) =~= "let oc = s.c as u8; s.c = v & 1 != 0; v = (v >> 1) | (oc << 7); s.z = v == 0; s.n = v & 0x80 != 0;"@);
}

proof fn lemma_body_inc()
    ensures
        code_text(modify_code(Op::Inc)) == emitter::modify_body(Op::Inc),
{
    reveal_strlit("v = v.wrapping_add(1); s.z = v == 0; s.n = v & 0x80 != 0;");
    reveal_strlit("v");
    reveal_strlit(" = ");
    reveal_strlit(".wrapping_add(1)");
    reveal_strlit("s.z");
    reveal_strlit(" == 0");
    reveal_strlit("s.n");
    reveal_strlit(" & 0x80 != 0");
    reveal_strlit("; ");
    reveal_strlit(";");
    reveal_strlit(" ");
    reveal_with_fuel(code_text, 9);
    assert(code_text(modify_code(Op::Inc)) =~= "v = v.wrapping_add(1); s.z = v == 0; s.n = v & 0x80 != 0;"@);
}

proof fn lemma_body_dec()
    ensures
        code_text(modify_code(Op::Dec)) == emitter::modify_body(Op::Dec),
{
    reveal_strlit("v = v.wrapping_sub(1); s.z = v == 0; s.n = v & 0x80 != 0;");
    reveal_strlit("v");
    reveal_strlit(" = ");
    reveal_strlit(".wrapping_sub(1)");
    reveal_strlit("s.z");
    reveal_strlit(" == 0");
    reveal_strlit("s.n");
    reveal_strlit(" & 0x80 != 0");
    reveal_strlit("; ");
    reveal_strlit(";");
    reveal_strlit(" ");
    reveal_with_fuel(code_text, 9);
    assert(code_text(modify_code(Op::Dec)) =~= "v = v.wrapping_sub(1); s.z = v == 0; s.n = v & 0x80 != 0;"@);
}

proof fn lemma_body_dcp()
    ensures
        code_text(modify_code(Op::Dcp)) == emitter::modify_body(Op::Dcp),
{
    reveal_strlit("v = v.wrapping_sub(1); s.cmp_reg(s.a, v);");
    reveal_strlit("v");
    reveal_strlit(" = ");
    reveal_strlit(".wrapping_sub(1)");
    reveal_strlit("s.cmp_reg(s.a, ");
    reveal_strlit(")");
    reveal_strlit("; ");
    reveal_strlit(";");
    reveal_strlit(" ");
    reveal_with_fuel(code_text, 9);
    assert(code_text(modify_code(Op::Dcp)) =~= "v = v.wrapping_sub(1); s.cmp_reg(s.a, v);"@);
}

proof fn lemma_body_isb()
    ensures
        code_text(modify_code(Op::Isb)) == emitter::modify_body(Op::Isb),
{
    reveal_strlit("v = v.wrapping_add(1); s.sbc(v);");
    reveal_strlit("v");
    reveal_strlit(" = ");
    reveal_strlit(".wrapping_add(1)");
    reveal_strlit("s.sbc(");
    reveal_strlit(")");
    reveal_strlit("; ");
    reveal_strlit(";");
    reveal_strlit(" ");
    reveal_with_fuel(code_text, 9);
    assert(code_text(modify_code(Op::Isb)) =~= "v = v.wrapping_add(1); s.sbc(v);"@);
}

proof fn lemma_body_slo()
    ensures
        code_text(modify_code(Op::Slo)) == emitter::modify_body(Op::Slo),
{
    reveal_strlit("s.c = v & 0x80 != 0; v <<= 1; s.a |= v; s.z = s.a == 0; s.n = s.a & 0x80 != 0;");
    reveal_strlit("s.c");
    reveal_strlit(" = ");
    reveal_strlit("v");
    reveal_strlit(" & 0x80 != 0");
    reveal_strlit(" <<= 1");
    reveal_strlit("s.a |= ");
    reveal_strlit("s.z");
    reveal_strlit("s.a");
    reveal_strlit(" == 0");
    reveal_strlit("s.n");
    reveal_strlit("; ");
    reveal_strlit(";");
    reveal_strlit(" ");
    reveal_with_fuel(code_text, 9);
    assert(code_text(modify_code(Op::Slo)) =~= "s.c = v & 0x80 != 0; v <<= 1; s.a |= v; s.z = s.a == 0; s.n = s.a & 0x80 != 0;"@);
}

proof fn lemma_body_rla()
    ensures
        code_text(modify_code(Op::Rla)) == emitter::modify_body(Op::Rla),
{
    reveal_strlit("let oc = s.c as u8; s.c = v & 0x80 != 0; v = (v << 1) | oc; s.a &= v; s.z = s.a == 0; s.n = s.a & 0x80 != 0;");
    reveal_strlit("let oc = s.c as u8");
    reveal_strlit("s.c");
    reveal_strlit(" = ");
    reveal_strlit("v");
    reveal_strlit(" & 0x80 != 0");
    reveal_strlit(" = (");
    reveal_strlit(" << 1) | oc");
    reveal_strlit("s.a &= ");
    reveal_strlit("s.z");
    reveal_strlit("s.a");
    reveal_strlit(" == 0");
    reveal_strlit("s.n");
    reveal_strlit("; ");
    reveal_strlit(";");
    reveal_strlit(" ");
    reveal_with_fuel(code_text, 9);
    assert(code_text(modify_code(Op::Rla)) =~= "let oc = s.c as u8; s.c = v & 0x80 != 0; v = (v << 1) | oc; s.a &= v; s.z = s.a == 0; s.n = s.a & 0x80 != 0;"@);
}

proof fn lemma_body_sre()
    ensures
        code_text(modify_code(Op::Sre)) == emitter::modify_body(Op::Sre),
{
    reveal_strlit("s.c = v & 1 != 0; v >>= 1; s.a ^= v; s.z = s.a == 0; s.n = s.a & 0x80 != 0;");
    reveal_strlit("s.c");
    reveal_strlit(" = ");
    reveal_strlit("v");
    reveal_strlit(" & 1 != 0");
    reveal_strlit(" >>= 1");
    reveal_strlit("s.a ^= ");
    reveal_strlit("s.z");
    reveal_strlit("s.a");
    reveal_strlit(" == 0");
    reveal_strlit("s.n");
    reveal_strlit(" & 0x80 != 0");
    reveal_strlit("; ");
    reveal_strlit(";");
    reveal_strlit(" ");
    reveal_with_fuel(code_text, 9);
    assert(code_text(modify_code(Op::Sre)) =~= "s.c = v & 1 != 0; v >>= 1; s.a ^= v; s.z = s.a == 0; s.n = s.a & 0x80 != 0;"@);
}

proof fn lemma_body_rra()
    ensures
        code_text(modify_code(Op::Rra)) == emitter::modify_body(Op::Rra),
{
    reveal_strlit("let oc = s.c as u8; s.c = v & 1 != 0; v = (v >> 1) | (oc << 7); s.adc(v);");
    reveal_strlit("let oc = s.c as u8");
    reveal_strlit("s.c");
    reveal_strlit(" = ");
    reveal_strlit("v");
    reveal_strlit(" & 1 != 0");
    reveal_strlit(" = (");
    reveal_strlit(" >> 1) | (oc << 7)");
    reveal_strlit("s.adc(");
    reveal_strlit(")");
    reveal_strlit("; ");
    reveal_strlit(";");
    reveal_strlit(" ");
    reveal_with_fuel(code_text, 9);
    assert(code_text(modify_code(Op::Rra)) =~= "let oc = s.c as u8; s.c = v & 1 != 0; v = (v >> 1) | (oc << 7); s.adc(v);"@);
}

/// The operations that are written as straight code on the registers.
pub open spec fn is_register_code(op: Op) -> bool {
    match op {
        Op::AslA | Op::LsrA | Op::RolA | Op::RorA | Op::Inx | Op::Iny | Op::Dex | Op::Dey | Op::Rts | Op::Rti | Op::Tax | Op::Txa | Op::Tay | Op::Tya | Op::Txs | Op::Tsx | Op::Pha | Op::Pla | Op::Php | Op::Plp | Op::Clc | Op::Sec | Op::Cli | Op::Sei | Op::Clv | Op::Cld | Op::Sed => true,
        _ => false,
    }
}

/// The text for an operation on registers reads as its code.
pub proof fn register_text_reads(op: Op)
    requires
        is_register_code(op),
    ensures
        braced_text(register_code(op)) == emitter::register_text(op),
{
    match op {
        Op::AslA => lemma_text_asla(),
        Op::LsrA => lemma_text_lsra(),
        Op::RolA => lemma_text_rola(),
        Op::RorA => lemma_text_rora(),
        Op::Inx => lemma_text_inx(),
        Op::Iny => lemma_text_iny(),
        Op::Dex => lemma_text_dex(),
        Op::Dey => lemma_text_dey(),
        Op::Rts => lemma_text_rts(),
        Op::Rti => lemma_text_rti(),
        Op::Tax => lemma_text_tax(),
        Op::Txa => lemma_text_txa(),
        Op::Tay => lemma_text_tay(),
        Op::Tya => lemma_text_tya(),
        Op::Txs => lemma_text_txs(),
        Op::Tsx => lemma_text_tsx(),
        Op::Pha => lemma_text_pha(),
        Op::Pla => lemma_text_pla(),
        Op::Php => lemma_text_php(),
        Op::Plp => lemma_text_plp(),
        Op::Clc => lemma_text_clc(),
        Op::Sec => lemma_text_sec(),
        Op::Cli => lemma_text_cli(),
        Op::Sei => lemma_text_sei(),
        Op::Clv => lemma_text_clv(),
        Op::Cld => lemma_text_cld(),
        Op::Sed => lemma_text_sed(),
        _ => {},
    }
}

/// The text that changes a value reads as its code.
pub proof fn modify_text_reads(op: Op)
    requires
        instr::class_of(op) == Class::Modify,
    ensures
        code_text(modify_code(op)) == emitter::modify_body(op),
{
    match op {
        Op::Asl => lemma_body_asl(),
        Op::Lsr => lemma_body_lsr(),
        Op::Rol => lemma_body_rol(),
        Op::Ror => lemma_body_ror(),
        Op::Inc => lemma_body_inc(),
        Op::Dec => lemma_body_dec(),
        Op::Dcp => lemma_body_dcp(),
        Op::Isb => lemma_body_isb(),
        Op::Slo => lemma_body_slo(),
        Op::Rla => lemma_body_rla(),
        Op::Sre => lemma_body_sre(),
        Op::Rra => lemma_body_rra(),
        _ => {},
    }
}

} // verus!
