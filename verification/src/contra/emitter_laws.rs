//! The code that the recompiler writes, run on a machine, leaves it as the interpreter does.

use vstd::prelude::*;
use crate::bits;
use crate::contra::bus::BusModel;
use crate::contra::code;
use crate::contra::code::{Code, Env, Flag, Var};
use crate::contra::code_laws;
use crate::contra::emitter;
use crate::contra::recompiler;
use crate::contra::recompiler::Instruction;
use crate::contra::recompiler_laws;
use crate::cpu::Cpu;
use crate::instr;
use crate::instr::{Class, Mode, Op};
use crate::instr_laws;
use crate::machine;
use crate::machine::Machine;
use crate::memory::Memory;

verus! {

/// The bus that written code works on: it has RAM of its own, which the code reaches without
/// the bus, and fetching from RAM and from the cartridge has no effect.
pub trait WrittenBus: Memory {
    spec fn ram(self) -> Seq<u8>;

    spec fn with_ram(self, ram: Seq<u8>) -> Self;

    proof fn quiet_loads(self, addr: u16)
        requires
            addr < 0x2000 || addr >= 0x8000,
        ensures
            self.after_load(addr) == self,
            addr < 0x800 ==> self.load(addr) == self.ram()[addr as int],
    ;

    proof fn ram_stores(self, addr: u16, b: u8)
        requires
            addr < 0x800,
        ensures
            self.after_store(addr, b) == self.with_ram(self.ram().update(addr as int, b)),
    ;
}

impl WrittenBus for BusModel {
    open spec fn ram(self) -> Seq<u8> {
        self.ram
    }

    open spec fn with_ram(self, ram: Seq<u8>) -> BusModel {
        BusModel { ram, ..self }
    }

    proof fn quiet_loads(self, addr: u16) {
    }

    #[verifier::rlimit(60)]
    proof fn ram_stores(self, addr: u16, b: u8) {
    }
}

/// Where an operand lies: a byte of the zero page, perhaps indexed, a word, perhaps indexed,
/// or a place that a pointer in the zero page names.
pub ghost enum Cell {
    Page(u8),
    PageX(u8),
    PageY(u8),
    Word(u16),
    WordX(u16),
    WordY(u16),
    ThroughX(u8),
    ThroughY(u8),
}

impl Cell {
    /// The place that an addressing mode names.
    pub open spec fn of(mode: Mode, operand: (u8, u8)) -> Cell {
        let word = bits::word(operand.0, operand.1);
        match mode {
            Mode::ZeroPage => Cell::Page(operand.0),
            Mode::ZeroPageX => Cell::PageX(operand.0),
            Mode::ZeroPageY => Cell::PageY(operand.0),
            Mode::AbsoluteX => Cell::WordX(word),
            Mode::AbsoluteY => Cell::WordY(word),
            Mode::IndirectX => Cell::ThroughX(operand.0),
            Mode::IndirectY => Cell::ThroughY(operand.0),
            _ => Cell::Word(word),
        }
    }

    /// It lies in RAM, whatever the registers hold.
    pub open spec fn is_ram(self) -> bool {
        match self {
            Cell::Page(_) | Cell::PageX(_) | Cell::PageY(_) => true,
            Cell::Word(w) => w < 0x800,
            _ => false,
        }
    }

    /// The address.
    pub open spec fn address<M: WrittenBus>(self, m: Machine<M>) -> u16 {
        let ram = m.mem.ram();
        (match self {
            Cell::Page(b) => b as int,
            Cell::PageX(b) => (b + m.cpu.x) % 256,
            Cell::PageY(b) => (b + m.cpu.y) % 256,
            Cell::Word(w) => w as int,
            Cell::WordX(w) => (w + m.cpu.x) % 65536,
            Cell::WordY(w) => (w + m.cpu.y) % 65536,
            Cell::ThroughX(b) => ram[(b + m.cpu.x) % 256] + 256 * ram[(b + m.cpu.x + 1) % 256],
            Cell::ThroughY(b) => (ram[b as int] + 256 * ram[(b + 1) % 256] + m.cpu.y) % 65536,
        }) as u16
    }

    /// The index in RAM, as written.
    pub open spec fn index_text(self) -> Seq<char> {
        match self {
            Cell::Page(b) => "0x"@ + emitter::hex2(b) + "usize"@,
            Cell::PageX(b) => "(0x"@ + emitter::hex2(b) + "u8).wrapping_add(s.x) as usize"@,
            Cell::PageY(b) => "(0x"@ + emitter::hex2(b) + "u8).wrapping_add(s.y) as usize"@,
            Cell::Word(w) => "0x"@ + emitter::hex4(w) + "usize"@,
            _ => Seq::empty(),
        }
    }

    /// Fetching the pointer, as written: `lo` and `hi` are its bytes.
    pub open spec fn pointer_text(self) -> Seq<char> {
        match self {
            Cell::ThroughX(b) => "{ let ptr = (0x"@ + emitter::hex2(b)
                + "u8).wrapping_add(s.x); let lo = unsafe { *bus.ram.get_unchecked(ptr as usize) } as u16; let hi = unsafe { *bus.ram.get_unchecked(ptr.wrapping_add(1) as usize) } as u16; "@,
            Cell::ThroughY(b) => "{ let lo = unsafe { *bus.ram.get_unchecked(0x"@ + emitter::hex2(b)
                + "usize) } as u16; let hi = unsafe { *bus.ram.get_unchecked(0x"@ + emitter::hex2(
                b.wrapping_add(1),
            ) + "usize) } as u16; "@,
            _ => Seq::empty(),
        }
    }

    /// The address, as written.
    pub open spec fn address_text(self) -> Seq<char> {
        match self {
            Cell::Page(b) => "0x"@ + emitter::hex4(b as u16) + "u16"@,
            Cell::PageX(b) => "(0x"@ + emitter::hex2(b) + "u8).wrapping_add(s.x) as u16"@,
            Cell::PageY(b) => "(0x"@ + emitter::hex2(b) + "u8).wrapping_add(s.y) as u16"@,
            Cell::Word(w) => "0x"@ + emitter::hex4(w) + "u16"@,
            Cell::WordX(w) => "0x"@ + emitter::hex4(w) + "u16.wrapping_add(s.x as u16)"@,
            Cell::WordY(w) => "0x"@ + emitter::hex4(w) + "u16.wrapping_add(s.y as u16)"@,
            Cell::ThroughX(b) => self.pointer_text() + "lo | (hi << 8) }"@,
            Cell::ThroughY(b) => self.pointer_text()
                + "(lo | (hi << 8)).wrapping_add(s.y as u16) }"@,
        }
    }
}

/// A byte that an instruction uses: a number, or what lies in a place.
pub ghost enum Value {
    Short(u8),
    Byte(u8),
    At(Cell),
}

impl Value {
    pub open spec fn text(self) -> Seq<char> {
        match self {
            Value::Short(b) => "0x"@ + emitter::hex2(b),
            Value::Byte(b) => "0x"@ + emitter::hex2(b) + "u8"@,
            Value::At(cell) => if cell.is_ram() {
                "unsafe { *bus.ram.get_unchecked("@ + cell.index_text() + ") }"@
            } else {
                match cell {
                    Cell::Word(w) => "bus.read(0x"@ + emitter::hex4(w) + ")"@,
                    Cell::WordX(w) => "bus.read(0x"@ + emitter::hex4(w)
                        + "u16.wrapping_add(s.x as u16))"@,
                    Cell::WordY(w) => "bus.read(0x"@ + emitter::hex4(w)
                        + "u16.wrapping_add(s.y as u16))"@,
                    Cell::ThroughX(b) => cell.pointer_text() + "bus.read(lo | (hi << 8)) }"@,
                    _ => cell.pointer_text()
                        + "bus.read((lo | (hi << 8)).wrapping_add(s.y as u16)) }"@,
                }
            },
        }
    }

    /// The byte.
    pub open spec fn get<M: WrittenBus>(self, m: Machine<M>) -> u8 {
        match self {
            Value::Short(b) | Value::Byte(b) => b,
            Value::At(cell) => if cell.is_ram() {
                m.mem.ram()[cell.address(m) as int]
            } else {
                m.mem.load(cell.address(m))
            },
        }
    }

    /// The machine after it was read: only the bus notices.
    pub open spec fn seen<M: WrittenBus>(self, m: Machine<M>) -> Machine<M> {
        match self {
            Value::Short(_) | Value::Byte(_) => m,
            Value::At(cell) => if cell.is_ram() {
                m
            } else {
                Machine { mem: m.mem.after_load(cell.address(m)), ..m }
            },
        }
    }
}

/// The code of an instruction.
pub ghost enum Line {
    /// Loads a register and flags it.
    Load(Var, Value, u8),
    /// Loads A and X and flags A.
    LoadBoth(Value, u8),
    /// `&=`, `|=` or `^=` on A, which is flagged.
    Logic(Logic, Value, u8),
    /// Adds to A or subtracts from it.
    Sum(bool, Value, u8),
    /// Compares a register.
    Compare(Var, Value, u8),
    TestBits(Value, u8),
    Store(Cell, Var, u8),
    /// Stores the conjunction of A and X.
    StoreBoth(Cell, u8),
    /// Reads a place, changes the byte and writes it back.
    Change(Cell, Code, u8),
    /// Goes to the second address if the flag is as wanted, else to the first.
    Branch(Flag, bool, u16, u16),
    Jump(u16),
    JumpThrough(u16),
    Call(u16, u16),
    Break(u16),
    Straight(bool, Code),
    Wait(u8),
}

pub ghost enum Logic {
    And,
    Or,
    Eor,
}

/// The letter of a register.
pub open spec fn letter(v: Var) -> Seq<char> {
    match v {
        Var::A => "a"@,
        Var::X => "x"@,
        _ => "y"@,
    }
}

/// A test of a flag, as written.
pub open spec fn condition(flag: Flag, wanted: bool) -> Seq<char> {
    if wanted {
        flag.text()
    } else {
        "!"@ + flag.text()
    }
}

impl Line {
    pub open spec fn text(self) -> Seq<char> {
        match self {
            Line::Load(v, value, n) => "s."@ + letter(v) + " = "@ + value.text() + "; s.z = s."@
                + letter(v) + " == 0; s.n = s."@ + letter(v) + " & 0x80 != 0; s.cycles += "@
                + emitter::decimal(n as nat) + ";"@,
            Line::LoadBoth(value, n) => "s.a = "@ + value.text() + "; s.x = s.a; "@
                + "s.z = s.a == 0; s.n = s.a & 0x80 != 0; s.cycles += "@ + emitter::decimal(
                n as nat,
            ) + ";"@,
            Line::Logic(op, value, n) => (match op {
                Logic::And => "s.a &= "@,
                Logic::Or => "s.a |= "@,
                Logic::Eor => "s.a ^= "@,
            }) + value.text() + "; "@ + "s.z = s.a == 0; s.n = s.a & 0x80 != 0; s.cycles += "@
                + emitter::decimal(n as nat) + ";"@,
            Line::Sum(add, value, n) => "{ let val = "@ + value.text() + "; "@ + (if add {
                "s.adc(val)"@
            } else {
                "s.sbc(val)"@
            }) + "; s.cycles += "@ + emitter::decimal(n as nat) + "; }"@,
            Line::Compare(v, value, n) => "{ let val = "@ + value.text() + "; "@ + (match v {
                Var::A => "s.cmp_reg(s.a, val)"@,
                Var::X => "s.cmp_reg(s.x, val)"@,
                _ => "s.cmp_reg(s.y, val)"@,
            }) + "; s.cycles += "@ + emitter::decimal(n as nat) + "; }"@,
            Line::TestBits(value, n) => "{ let val = "@ + value.text() + "; "@
                + "s.z = s.a & val == 0; s.v = val & 0x40 != 0; s.n = val & 0x80 != 0"@
                + "; s.cycles += "@ + emitter::decimal(n as nat) + "; }"@,
            Line::Store(cell, v, n) => stored_text(cell, v.text(), n),
            Line::StoreBoth(cell, n) => stored_text(cell, "s.a & s.x"@, n),
            Line::Change(cell, body, n) => if cell.is_ram() && !(cell is PageY) {
                "{ let p = unsafe { bus.ram.get_unchecked_mut("@ + cell.index_text()
                    + ") }; let mut v = *p; "@ + code::code_text(body) + " *p = v; s.cycles += "@
                    + emitter::decimal(n as nat) + "; }"@
            } else {
                "{ let addr = "@ + cell.address_text() + "; let mut v = bus.read(addr); "@
                    + code::code_text(body) + " bus.write(addr, v); s.cycles += "@
                    + emitter::decimal(n as nat) + "; }"@
            },
            Line::Branch(flag, wanted, next, target) => "s.cycles += 2; if "@ + condition(
                flag,
                wanted,
            ) + " { s.cycles += 1; if 0x"@ + emitter::hex4(next) + " & 0xFF00 != 0x"@
                + emitter::hex4(target) + " & 0xFF00 { s.cycles += 1; } s.pc = 0x"@ + emitter::hex4(
                target,
            ) + "; } else { s.pc = 0x"@ + emitter::hex4(next) + "; }"@,
            Line::Jump(w) => "s.pc = 0x"@ + emitter::hex4(w) + "; s.cycles += 3;"@,
            Line::JumpThrough(w) => "{ let lo = bus.read(0x"@ + emitter::hex4(w)
                + ") as u16; let hi_addr = (0x"@ + emitter::hex4(w) + "u16 & 0xFF00) | ((0x"@
                + emitter::hex4(w)
                + "u16 + 1) & 0x00FF); let hi = bus.read(hi_addr) as u16; s.pc = lo | (hi << 8); s.cycles += 5; }"@,
            Line::Call(back, w) => "s.push16(bus, 0x"@ + emitter::hex4(back) + "); s.pc = 0x"@
                + emitter::hex4(w) + "; s.cycles += 6;"@,
            Line::Break(back) => "s.push16(bus, 0x"@ + emitter::hex4(back)
                + "); s.push(bus, s.status() | 0x10); s.i = true; s.pc = bus.read(0xFFFE) as u16 | ((bus.read(0xFFFF) as u16) << 8); s.cycles += 7;"@,
            Line::Straight(braced, body) => code::braced_text((braced, body)),
            Line::Wait(n) => "s.cycles += "@ + emitter::decimal(n as nat) + ";"@,
        }
    }

    /// What the code does.
    #[verifier::opaque]
    pub open spec fn run<M: WrittenBus>(self, m: Machine<M>) -> Machine<M> {
        let cpu = m.cpu;
        match self {
            Line::Load(v, value, n) => {
                let b = value.get(m);
                let loaded = match v {
                    Var::A => Cpu { a: b, ..cpu },
                    Var::X => Cpu { x: b, ..cpu },
                    _ => Cpu { y: b, ..cpu },
                };
                value.seen(m).set(Cpu { z: b == 0, n: b & 0x80 != 0, ..loaded }.spent(n as int))
            },
            Line::LoadBoth(value, n) => {
                let b = value.get(m);
                value.seen(m).set(
                    Cpu { a: b, x: b, z: b == 0, n: b & 0x80 != 0, ..cpu }.spent(n as int),
                )
            },
            Line::Logic(op, value, n) => {
                let b = match op {
                    Logic::And => cpu.a & value.get(m),
                    Logic::Or => cpu.a | value.get(m),
                    Logic::Eor => cpu.a ^ value.get(m),
                };
                value.seen(m).set(Cpu { a: b, z: b == 0, n: b & 0x80 != 0, ..cpu }.spent(n as int))
            },
            Line::Sum(add, value, n) => value.seen(m).set(
                (if add {
                    cpu.added(value.get(m))
                } else {
                    cpu.subtracted(value.get(m))
                }).spent(n as int),
            ),
            Line::Compare(v, value, n) => {
                let reg = match v {
                    Var::A => cpu.a,
                    Var::X => cpu.x,
                    _ => cpu.y,
                };
                value.seen(m).set(cpu.compared(reg, value.get(m)).spent(n as int))
            },
            Line::TestBits(value, n) => {
                let b = value.get(m);
                value.seen(m).set(
                    Cpu { z: cpu.a & b == 0, v: b & 0x40 != 0, n: b & 0x80 != 0, ..cpu }.spent(
                        n as int,
                    ),
                )
            },
            Line::Store(cell, v, n) => {
                let b = match v {
                    Var::A => cpu.a,
                    Var::X => cpu.x,
                    _ => cpu.y,
                };
                Machine { cpu: cpu.spent(n as int), mem: put(m.mem, cell.is_ram(), cell.address(m), b) }
            },
            Line::StoreBoth(cell, n) => Machine {
                cpu: cpu.spent(n as int),
                mem: put(m.mem, cell.is_ram(), cell.address(m), cpu.a & cpu.x),
            },
            Line::Change(cell, body, n) => {
                let read = Value::At(cell);
                let after = code::run_code(
                    body,
                    Env { m: read.seen(m), v: read.get(m), oc: 0, st: 0 },
                );
                Machine {
                    cpu: after.m.cpu.spent(n as int),
                    mem: put(after.m.mem, cell.is_ram(), cell.address(m), after.v),
                }
            },
            Line::Branch(flag, wanted, next, target) => if flag.get(cpu) == wanted {
                m.set(
                    Cpu {
                        pc: target,
                        ..cpu.spent(
                            if next & 0xFF00 != target & 0xFF00 {
                                4
                            } else {
                                3
                            },
                        )
                    },
                )
            } else {
                m.set(Cpu { pc: next, ..cpu.spent(2) })
            },
            Line::Jump(w) => m.set(Cpu { pc: w, ..cpu.spent(3) }),
            Line::JumpThrough(w) => {
                let high = (w & 0xFF00) | (w.wrapping_add(1) & 0x00FF);
                let once = m.read(w);
                let target = (m.peek(w) as u16) | ((once.peek(high) as u16) << 8);
                once.read(high).set(Cpu { pc: target, ..cpu.spent(5) })
            },
            Line::Call(back, w) => {
                let saved = m.pushed_word(back);
                saved.set(Cpu { pc: w, ..saved.cpu.spent(6) })
            },
            Line::Break(back) => {
                let saved = m.pushed_word(back).pushed(cpu.status_byte() | 0x10);
                let once = saved.read(0xFFFE);
                let target = (saved.peek(0xFFFE) as u16) | ((once.peek(0xFFFF) as u16) << 8);
                once.read(0xFFFF).set(Cpu { i: true, pc: target, ..saved.cpu.spent(7) })
            },
            Line::Straight(_, body) => code::run_code(body, Env { m, v: 0, oc: 0, st: 0 }).m,
            Line::Wait(n) => m.set(cpu.spent(n as int)),
        }
    }
}

/// A store, as written.
pub open spec fn stored_text(cell: Cell, val: Seq<char>, n: u8) -> Seq<char> {
    if cell.is_ram() {
        "unsafe { *bus.ram.get_unchecked_mut("@ + cell.index_text() + ") = "@ + val
            + "; } s.cycles += "@ + emitter::decimal(n as nat) + ";"@
    } else {
        "bus.write("@ + cell.address_text() + ", "@ + val + "); s.cycles += "@ + emitter::decimal(
            n as nat,
        ) + ";"@
    }
}

/// A byte is put at an address, into RAM itself or through the bus.
pub open spec fn put<M: WrittenBus>(mem: M, ram: bool, addr: u16, b: u8) -> M {
    if ram {
        mem.with_ram(mem.ram().update(addr as int, b))
    } else {
        mem.after_store(addr, b)
    }
}

/// The code of an instruction.
pub open spec fn line_of(i: Instruction) -> Line {
    let info = i.info();
    let cell = Cell::of(info.mode, i.operand);
    let n = info.cycles;
    let immediate = info.mode == Mode::Immediate;
    let value = if immediate {
        Value::Byte(i.operand.0)
    } else {
        Value::At(cell)
    };
    let short = if immediate {
        Value::Short(i.operand.0)
    } else {
        Value::At(cell)
    };
    let next = i.addr.wrapping_add(2);
    let target = ((next + (if i.operand.0 < 128 {
        i.operand.0 as int
    } else {
        i.operand.0 - 256
    })) % 65536) as u16;
    match info.op {
        Op::Lda => Line::Load(Var::A, short, n),
        Op::Ldx => Line::Load(Var::X, short, n),
        Op::Ldy => Line::Load(Var::Y, short, n),
        Op::Lax => Line::LoadBoth(value, n),
        Op::And => Line::Logic(Logic::And, value, n),
        Op::Ora => Line::Logic(Logic::Or, value, n),
        Op::Eor => Line::Logic(Logic::Eor, value, n),
        Op::Adc => Line::Sum(true, value, n),
        Op::Sbc => Line::Sum(false, value, n),
        Op::Cpa => Line::Compare(Var::A, value, n),
        Op::Cpx => Line::Compare(Var::X, value, n),
        Op::Cpy => Line::Compare(Var::Y, value, n),
        Op::Bit => Line::TestBits(value, n),
        Op::Sta => Line::Store(cell, Var::A, n),
        Op::Stx => Line::Store(cell, Var::X, n),
        Op::Sty => Line::Store(cell, Var::Y, n),
        Op::Sax => Line::StoreBoth(cell, n),
        Op::Bpl => Line::Branch(Flag::N, false, next, target),
        Op::Bmi => Line::Branch(Flag::N, true, next, target),
        Op::Bvc => Line::Branch(Flag::V, false, next, target),
        Op::Bvs => Line::Branch(Flag::V, true, next, target),
        Op::Bcc => Line::Branch(Flag::C, false, next, target),
        Op::Bcs => Line::Branch(Flag::C, true, next, target),
        Op::Bne => Line::Branch(Flag::Z, false, next, target),
        Op::Beq => Line::Branch(Flag::Z, true, next, target),
        Op::Jmp => Line::Jump(i.word()),
        Op::JmpIndirect => Line::JumpThrough(i.word()),
        Op::Jsr => Line::Call(next, i.word()),
        Op::Brk => Line::Break(next),
        Op::Nop => Line::Wait(n),
        _ => if instr::class_of(info.op) == Class::Modify {
            Line::Change(cell, code::modify_code(info.op), n)
        } else {
            Line::Straight(code::register_code(info.op).0, code::register_code(info.op).1)
        },
    }
}

/// A branch's condition reads as a test of its flag, and holds exactly if the branch is
/// taken.
pub proof fn conditions_hold(op: Op, flag: Flag, wanted: bool, cpu: Cpu)
    requires
        instr::class_of(op) == Class::Branch,
        emitter::condition_text(op) == condition(flag, wanted),
        flag is C || flag is Z || flag is V || flag is N,
    ensures
        flag.get(cpu) == wanted <==> cpu.branches(op),
{
    reveal_strlit("!s.n");
    reveal_strlit("s.n");
    reveal_strlit("!s.v");
    reveal_strlit("s.v");
    reveal_strlit("!s.c");
    reveal_strlit("s.c");
    reveal_strlit("!s.z");
    reveal_strlit("s.z");
    reveal_strlit("!");
    let text = condition(flag, wanted);
    if wanted {
        assert(text.len() == 3 && text[2] == flag.text()[2]);
    } else {
        assert(text.len() == 4 && text[0] == '!' && text[3] == flag.text()[2]);
    }
}

/// Every branch has such a condition.
pub proof fn conditions_read(op: Op)
    requires
        instr::class_of(op) == Class::Branch,
    ensures
        op == Op::Bpl ==> emitter::condition_text(op) == condition(Flag::N, false),
        op == Op::Bmi ==> emitter::condition_text(op) == condition(Flag::N, true),
        op == Op::Bvc ==> emitter::condition_text(op) == condition(Flag::V, false),
        op == Op::Bvs ==> emitter::condition_text(op) == condition(Flag::V, true),
        op == Op::Bcc ==> emitter::condition_text(op) == condition(Flag::C, false),
        op == Op::Bcs ==> emitter::condition_text(op) == condition(Flag::C, true),
        op == Op::Bne ==> emitter::condition_text(op) == condition(Flag::Z, false),
        op == Op::Beq ==> emitter::condition_text(op) == condition(Flag::Z, true),
{
    reveal_strlit("!s.n");
    reveal_strlit("s.n");
    reveal_strlit("!s.v");
    reveal_strlit("s.v");
    reveal_strlit("!s.c");
    reveal_strlit("s.c");
    reveal_strlit("!s.z");
    reveal_strlit("s.z");
    reveal_strlit("!");
    assert("!s.n"@ =~= "!"@ + "s.n"@);
    assert("!s.v"@ =~= "!"@ + "s.v"@);
    assert("!s.c"@ =~= "!"@ + "s.c"@);
    assert("!s.z"@ =~= "!"@ + "s.z"@);
}

/// What opcodes have operands of which kind.
#[verifier::rlimit(50)]
proof fn lemma_kinds(opcode: u8)
    ensures
        ({
            let info = instr::instr_of(opcode);
            let class = instr::class_of(info.op);
            &&& class == Class::Read || class == Class::Store || class == Class::Modify
                ==> !(info.mode is Implied || info.mode is Relative || info.mode is Skip1
                || info.mode is Skip2)
            &&& class == Class::Store || class == Class::Modify ==> !(info.mode is Immediate)
            &&& class == Class::Modify ==> !(info.mode is ZeroPageY)
            &&& class == Class::Branch ==> info.mode is Relative
            &&& class == Class::Register && info.op != Op::Nop ==> info.mode is Implied
            &&& class == Class::Control ==> info.mode is Implied || info.mode is Absolute
            &&& info.op == Op::Jmp || info.op == Op::Jsr || info.op == Op::JmpIndirect
                ==> info.mode is Absolute
            &&& class == Class::Control && !(info.op == Op::Jmp || info.op == Op::Jsr || info.op
                == Op::JmpIndirect) ==> info.mode is Implied
        }),
{
}

/// Where an operand is read, the text for it is that of its value.
#[verifier::rlimit(50)]
proof fn lemma_value_text(i: Instruction)
    requires
        instr::class_of(i.info().op) == Class::Read,
    ensures
        emitter::value_text(i.info().mode, i.operand) == (if i.info().mode == Mode::Immediate {
            Value::Byte(i.operand.0)
        } else {
            Value::At(Cell::of(i.info().mode, i.operand))
        }).text(),
{
    lemma_kinds(i.opcode);
}

/// The text written for an instruction is that of its code.
#[verifier::spinoff_prover]
#[verifier::rlimit(50)]
pub proof fn instructions_read(i: Instruction)
    ensures
        emitter::instruction_text(i) == line_of(i).text(),
{
    reveal(emitter::instruction_text);
    lemma_kinds(i.opcode);
    let op = i.info().op;
    match instr::class_of(op) {
        Class::Read => {
            lemma_value_text(i);
        },
        Class::Modify => {
            code::modify_text_reads(op);
        },
        Class::Register => {
            if op != Op::Nop {
                lemma_register_ops(op);
                code::register_text_reads(op);
            }
        },
        Class::Branch => {
            conditions_read(op);
        },
        Class::Control => {
            if code::is_register_code(op) {
                code::register_text_reads(op);
            }
        },
        Class::Store => {},
    }
}

proof fn lemma_register_ops(op: Op)
    requires
        instr::class_of(op) == Class::Register,
        op != Op::Nop,
    ensures
        code::is_register_code(op),
{
}

/// A program in the cartridge: fetching it has no effect but on the program counter.
pub open spec fn runs_from_rom<M: WrittenBus>(m: Machine<M>) -> bool {
    &&& m.cpu.pc >= 0x8000
    &&& m.cpu.cycles <= u64::MAX - 16
}

/// Loads that fetch an instruction's bytes, and those from the zero page, have no effect.
pub open spec fn quiet<M: Memory>(f: Machine<M>) -> bool {
    &&& f.mem.after_load(f.cpu.pc) == f.mem
    &&& f.mem.after_load(f.cpu.pc.wrapping_add(1)) == f.mem
    &&& forall|p: u16| p < 256 ==> #[trigger] f.mem.after_load(p) == f.mem
}

/// Where each addressing mode finds its operand, if fetching has no effect.
pub open spec fn located<M: Memory>(f: Machine<M>, mode: Mode, addr: u16) -> bool {
    let first = f.mem.load(f.cpu.pc);
    let word = bits::word(first, f.mem.load(f.cpu.pc.wrapping_add(1)));
    let ptr = first.wrapping_add(f.cpu.x);
    match mode {
        Mode::ZeroPage => addr == first,
        Mode::ZeroPageX => addr == (first + f.cpu.x) % 256,
        Mode::ZeroPageY => addr == (first + f.cpu.y) % 256,
        Mode::Absolute => addr == word,
        Mode::AbsoluteX => addr == (word + f.cpu.x) % 65536,
        Mode::AbsoluteY => addr == (word + f.cpu.y) % 65536,
        Mode::IndirectX => addr == bits::word(
            f.mem.load(ptr as u16),
            f.mem.load(ptr.wrapping_add(1) as u16),
        ),
        Mode::IndirectY => addr == (bits::word(
            f.mem.load(first as u16),
            f.mem.load(first.wrapping_add(1) as u16),
        ) + f.cpu.y) % 65536,
        _ => addr == f.cpu.pc,
    }
}

/// Locating an operand.
#[verifier::rlimit(60)]
#[verifier::spinoff_prover]
pub proof fn operands_are_located<M: Memory>(f: Machine<M>, mode: Mode)
    requires
        quiet(f),
    ensures
        ({
            let o = f.operand(mode);
            &&& o.next == f.set(Cpu { pc: o.next.cpu.pc, ..f.cpu })
            &&& located(f, mode, o.addr)
            &&& mode is Relative ==> o.next == f
            &&& !(mode is Relative) ==> o.next.cpu.pc == f.cpu.pc.wrapping_add(
                (recompiler::length_of(mode) - 1) as u16,
            )
            &&& o.crossed ==> instr_laws::is_indexed_word(mode)
        }),
{
    reveal(Machine::operand);
    let first = f.next_byte();
    assert(f.fetched() == f.set(f.cpu.skipped(1)));
    match mode {
        Mode::IndirectX => {
            let ptr = first.wrapping_add(f.cpu.x);
            assert(f.mem.after_load(ptr as u16) == f.mem);
            assert(f.mem.after_load(ptr.wrapping_add(1) as u16) == f.mem);
            assert(f.fetched().read_pointer(ptr) == f.fetched());
        },
        Mode::IndirectY => {
            assert(f.mem.after_load(first as u16) == f.mem);
            assert(f.mem.after_load(first.wrapping_add(1) as u16) == f.mem);
            assert(f.fetched().read_pointer(first) == f.fetched());
        },
        _ => {},
    }
}

/// An index carries the address to another page exactly if the low byte overflows.
#[verifier::rlimit(60)]
#[verifier::spinoff_prover]
pub proof fn indexing_leaves_the_page<M: Memory>(f: Machine<M>, mode: Mode)
    requires
        quiet(f),
    ensures
        ({
            let first = f.mem.load(f.cpu.pc);
            match mode {
                Mode::AbsoluteX => f.operand(mode).crossed <==> first + f.cpu.x > 255,
                Mode::AbsoluteY => f.operand(mode).crossed <==> first + f.cpu.y > 255,
                Mode::IndirectY => f.operand(mode).crossed <==> f.mem.load(first as u16) + f.cpu.y
                    > 255,
                _ => !f.operand(mode).crossed,
            }
        }),
{
    reveal(Machine::operand);
    let first = f.mem.load(f.cpu.pc);
    assert(f.fetched() == f.set(f.cpu.skipped(1)));
    match mode {
        Mode::AbsoluteX => {
            lemma_page(f.next_word(), first, f.mem.load(f.cpu.pc.wrapping_add(1)), f.cpu.x);
        },
        Mode::AbsoluteY => {
            lemma_page(f.next_word(), first, f.mem.load(f.cpu.pc.wrapping_add(1)), f.cpu.y);
        },
        Mode::IndirectY => {
            let next = first.wrapping_add(1);
            assert(f.mem.after_load(first as u16) == f.mem);
            lemma_page(
                f.fetched().peek_pointer(first),
                f.mem.load(first as u16),
                f.mem.load(next as u16),
                f.cpu.y,
            );
        },
        _ => {},
    }
}

proof fn lemma_page(base: u16, lo: u8, hi: u8, index: u8)
    requires
        base == lo + 256 * hi,
    ensures
        machine::pages_differ(base, base.wrapping_add(index as u16)) <==> lo + index > 255,
{
}

/// In the cartridge and in RAM loads are quiet.
proof fn lemma_quiet<M: WrittenBus>(f: Machine<M>)
    requires
        f.cpu.pc >= 0x8000 || f.cpu.pc == 0,
    ensures
        quiet(f),
        forall|p: u16| p < 256 ==> #[trigger] f.mem.load(p) == f.mem.ram()[p as int],
{
    f.mem.quiet_loads(f.cpu.pc);
    f.mem.quiet_loads(f.cpu.pc.wrapping_add(1));
    assert forall|p: u16| p < 256 implies #[trigger] f.mem.after_load(p) == f.mem by {
        f.mem.quiet_loads(p);
    }
    assert forall|p: u16| p < 256 implies #[trigger] f.mem.load(p) == f.mem.ram()[p as int] by {
        f.mem.quiet_loads(p);
    }
}

/// The pointer modes in RAM.
#[verifier::rlimit(50)]
proof fn lemma_cell<M: WrittenBus>(f: Machine<M>, mode: Mode, operand: (u8, u8), addr: u16)
    requires
        quiet(f),
        forall|p: u16| p < 256 ==> #[trigger] f.mem.load(p) == f.mem.ram()[p as int],
        located(f, mode, addr),
        operand.0 == f.mem.load(f.cpu.pc),
        mode is Absolute || mode is AbsoluteX || mode is AbsoluteY ==> operand.1 == f.mem.load(
            f.cpu.pc.wrapping_add(1),
        ),
        !(mode is Immediate || mode is Implied || mode is Relative || mode is Skip1
            || mode is Skip2),
    ensures
        addr == Cell::of(mode, operand).address(f),
{
    let ptr = operand.0.wrapping_add(f.cpu.x);
    let next = operand.0.wrapping_add(1);
    match mode {
        Mode::IndirectX => {
            assert(ptr == (operand.0 + f.cpu.x) % 256);
            assert(ptr.wrapping_add(1) == (operand.0 + f.cpu.x + 1) % 256);
            assert(f.mem.load(ptr as u16) == f.mem.ram()[ptr as int]);
            assert(f.mem.load(ptr.wrapping_add(1) as u16) == f.mem.ram()[ptr.wrapping_add(1) as int]);
        },
        Mode::IndirectY => {
            assert(next == (operand.0 + 1) % 256);
            assert(f.mem.load(operand.0 as u16) == f.mem.ram()[operand.0 as int]);
            assert(f.mem.load(next as u16) == f.mem.ram()[next as int]);
        },
        _ => {},
    }
}

/// An operand is found where its code says, and finding it moves the program counter alone.
#[verifier::rlimit(50)]
proof fn lemma_operand_found<M: WrittenBus>(m: Machine<M>, i: Instruction)
    requires
        runs_from_rom(m),
        recompiler_laws::about_to_run(m, i),
    ensures
        ({
            let mode = i.info().mode;
            let o = m.fetched().operand(mode);
            let cell = Cell::of(mode, i.operand);
            let s = start(m, i);
            &&& m.fetched() == m.set(Cpu { pc: m.cpu.pc.wrapping_add(1), ..m.cpu })
            &&& !(mode is Relative) ==> o.next == s
            &&& mode is Relative ==> o.next == m.fetched() && m.fetched().fetched() == s
            &&& mode is Immediate ==> m.mem.load(o.addr) == i.operand.0 && m.mem.after_load(o.addr)
                == m.mem
            &&& !(mode is Immediate || mode is Implied || mode is Relative || mode is Skip1
                || mode is Skip2) ==> o.addr == cell.address(s)
            &&& o.crossed ==> instr_laws::is_indexed_word(mode)
        }),
{
    let mode = i.info().mode;
    let f = m.fetched();
    lemma_quiet(m);
    assert(f == m.set(Cpu { pc: m.cpu.pc.wrapping_add(1), ..m.cpu }));
    lemma_quiet(f);
    assert(f.fetched() == f.set(Cpu { pc: f.cpu.pc.wrapping_add(1), ..f.cpu }));
    operands_are_located(f, mode);
    if !(mode is Immediate || mode is Implied || mode is Relative || mode is Skip1
        || mode is Skip2) {
        lemma_cell(f, mode, i.operand, f.operand(mode).addr);
    }
}

/// The machine that written code finds: the program counter, which it does not look at, is
/// taken to be behind the instruction.
pub open spec fn start<M: WrittenBus>(m: Machine<M>, i: Instruction) -> Machine<M> {
    m.set(Cpu { pc: i.after(), ..m.cpu })
}

/// The interpreter and the written code leave the same machine, but for the cycle that the
/// interpreter adds where an indexed read leaves its page.
pub open spec fn agree<M: WrittenBus>(i: Instruction, ran: Machine<M>, written: Machine<M>) -> bool {
    let late = ran.cpu.cycles - written.cpu.cycles;
    &&& ran.mem == written.mem
    &&& ran.cpu == (Cpu { cycles: ran.cpu.cycles, ..written.cpu })
    &&& late == 0 || (late == 1 && instr::class_of(i.info().op) == Class::Read
        && instr_laws::is_indexed_word(i.info().mode))
}

/// What the interpreter does with an operand that it reads: leaving the page costs a cycle.
#[verifier::rlimit(50)]
pub proof fn reads_run<M: Memory>(m: Machine<M>)
    requires
        instr::class_of(instr::instr_of(m.next_byte()).op) == Class::Read,
        m.cpu.cycles <= u64::MAX - 16,
        m.fetched().operand(instr::instr_of(m.next_byte()).mode).next.cpu.cycles == m.cpu.cycles,
    ensures
        ({
            let info = instr::instr_of(m.next_byte());
            let o = m.fetched().operand(info.mode);
            let after = o.next.cpu.after_reading(info.op, o.next.peek(o.addr));
            let ran = m.ran();
            &&& ran.mem == o.next.mem.after_load(o.addr)
            &&& ran.cpu == (Cpu { cycles: ran.cpu.cycles, ..after })
            &&& ran.cpu.cycles == m.cpu.cycles + info.cycles + (if o.crossed {
                1int
            } else {
                0
            })
        }),
{
    let info = instr::instr_of(m.next_byte());
    let o = m.fetched().operand(info.mode);
    reveal(Machine::executed);
    reveal(Machine::operated);
    reveal(Cpu::after_reading);
    reveal(Cpu::added);
    assert(info.cycles <= 8);
}

/// The value that an instruction's code reads.
pub open spec fn value_of(i: Instruction) -> Value {
    if i.info().mode == Mode::Immediate {
        Value::Byte(i.operand.0)
    } else {
        Value::At(Cell::of(i.info().mode, i.operand))
    }
}

/// A place that code reads holds the operand.
proof fn lemma_place_read<M: WrittenBus>(s: Machine<M>, cell: Cell)
    ensures
        Value::At(cell).get(s) == s.mem.load(cell.address(s)),
        Value::At(cell).seen(s) == (Machine { mem: s.mem.after_load(cell.address(s)), ..s }),
{
    if cell.is_ram() {
        s.mem.quiet_loads(cell.address(s));
    }
}

proof fn lemma_line_lda<M: WrittenBus>(m: Machine<M>, value: Value, n: u8)
    ensures
        Line::Load(Var::A, value, n).run(m) == value.seen(m).set(
            m.cpu.after_reading(Op::Lda, value.get(m)).spent(n as int),
        ),
{
    reveal(Line::run);
    reveal(Cpu::after_reading);
    let b = value.get(m);
    code_laws::shifts_in_numbers(b);
}

proof fn lemma_line_ldx<M: WrittenBus>(m: Machine<M>, value: Value, n: u8)
    ensures
        Line::Load(Var::X, value, n).run(m) == value.seen(m).set(
            m.cpu.after_reading(Op::Ldx, value.get(m)).spent(n as int),
        ),
{
    reveal(Line::run);
    reveal(Cpu::after_reading);
    let b = value.get(m);
    code_laws::shifts_in_numbers(b);
}

proof fn lemma_line_ldy<M: WrittenBus>(m: Machine<M>, value: Value, n: u8)
    ensures
        Line::Load(Var::Y, value, n).run(m) == value.seen(m).set(
            m.cpu.after_reading(Op::Ldy, value.get(m)).spent(n as int),
        ),
{
    reveal(Line::run);
    reveal(Cpu::after_reading);
    let b = value.get(m);
    code_laws::shifts_in_numbers(b);
}

proof fn lemma_line_lax<M: WrittenBus>(m: Machine<M>, value: Value, n: u8)
    ensures
        Line::LoadBoth(value, n).run(m) == value.seen(m).set(
            m.cpu.after_reading(Op::Lax, value.get(m)).spent(n as int),
        ),
{
    reveal(Line::run);
    reveal(Cpu::after_reading);
    let b = value.get(m);
    code_laws::shifts_in_numbers(b);
}

proof fn lemma_line_adc<M: WrittenBus>(m: Machine<M>, value: Value, n: u8)
    ensures
        Line::Sum(true, value, n).run(m) == value.seen(m).set(
            m.cpu.after_reading(Op::Adc, value.get(m)).spent(n as int),
        ),
{
    reveal(Line::run);
    reveal(Cpu::after_reading);
    let b = value.get(m);
    code_laws::shifts_in_numbers(b);
}

proof fn lemma_line_sbc<M: WrittenBus>(m: Machine<M>, value: Value, n: u8)
    ensures
        Line::Sum(false, value, n).run(m) == value.seen(m).set(
            m.cpu.after_reading(Op::Sbc, value.get(m)).spent(n as int),
        ),
{
    reveal(Line::run);
    reveal(Cpu::after_reading);
    let b = value.get(m);
    code_laws::shifts_in_numbers(b);
}

proof fn lemma_line_cpa<M: WrittenBus>(m: Machine<M>, value: Value, n: u8)
    ensures
        Line::Compare(Var::A, value, n).run(m) == value.seen(m).set(
            m.cpu.after_reading(Op::Cpa, value.get(m)).spent(n as int),
        ),
{
    reveal(Line::run);
    reveal(Cpu::after_reading);
    let b = value.get(m);
    code_laws::shifts_in_numbers(b);
}

proof fn lemma_line_cpx<M: WrittenBus>(m: Machine<M>, value: Value, n: u8)
    ensures
        Line::Compare(Var::X, value, n).run(m) == value.seen(m).set(
            m.cpu.after_reading(Op::Cpx, value.get(m)).spent(n as int),
        ),
{
    reveal(Line::run);
    reveal(Cpu::after_reading);
    let b = value.get(m);
    code_laws::shifts_in_numbers(b);
}

proof fn lemma_line_cpy<M: WrittenBus>(m: Machine<M>, value: Value, n: u8)
    ensures
        Line::Compare(Var::Y, value, n).run(m) == value.seen(m).set(
            m.cpu.after_reading(Op::Cpy, value.get(m)).spent(n as int),
        ),
{
    reveal(Line::run);
    reveal(Cpu::after_reading);
    let b = value.get(m);
    code_laws::shifts_in_numbers(b);
}

proof fn lemma_line_and<M: WrittenBus>(m: Machine<M>, value: Value, n: u8)
    ensures
        Line::Logic(Logic::And, value, n).run(m) == value.seen(m).set(
            m.cpu.after_reading(Op::And, value.get(m)).spent(n as int),
        ),
{
    reveal(Line::run);
    reveal(Cpu::after_reading);
    let b = value.get(m);
    code_laws::shifts_in_numbers(m.cpu.a & b);
}

proof fn lemma_line_ora<M: WrittenBus>(m: Machine<M>, value: Value, n: u8)
    ensures
        Line::Logic(Logic::Or, value, n).run(m) == value.seen(m).set(
            m.cpu.after_reading(Op::Ora, value.get(m)).spent(n as int),
        ),
{
    reveal(Line::run);
    reveal(Cpu::after_reading);
    let b = value.get(m);
    code_laws::shifts_in_numbers(m.cpu.a | b);
}

proof fn lemma_line_eor<M: WrittenBus>(m: Machine<M>, value: Value, n: u8)
    ensures
        Line::Logic(Logic::Eor, value, n).run(m) == value.seen(m).set(
            m.cpu.after_reading(Op::Eor, value.get(m)).spent(n as int),
        ),
{
    reveal(Line::run);
    reveal(Cpu::after_reading);
    let b = value.get(m);
    code_laws::shifts_in_numbers(m.cpu.a ^ b);
}

proof fn lemma_line_bit<M: WrittenBus>(m: Machine<M>, value: Value, n: u8)
    ensures
        Line::TestBits(value, n).run(m) == value.seen(m).set(
            m.cpu.after_reading(Op::Bit, value.get(m)).spent(n as int),
        ),
{
    reveal(Line::run);
    reveal(Cpu::after_reading);
    let b = value.get(m);
    code_laws::shifts_in_numbers(b);
    bits::lemma_bit8(b);
}

/// The code of a read does with its value what the operation does.
#[verifier::rlimit(50)]
proof fn lemma_line_reads<M: WrittenBus>(m: Machine<M>, i: Instruction)
    requires
        instr::class_of(i.info().op) == Class::Read,
    ensures
        line_of(i).run(m) == value_of(i).seen(m).set(
            m.cpu.after_reading(i.info().op, value_of(i).get(m)).spent(i.info().cycles as int),
        ),
{
    let n = i.info().cycles;
    let value = value_of(i);
    let short = if i.info().mode == Mode::Immediate {
        Value::Short(i.operand.0)
    } else {
        value
    };
    assert(short.get(m) == value.get(m) && short.seen(m) == value.seen(m));
    match i.info().op {
        Op::Lda => lemma_line_lda(m, short, n),
        Op::Ldx => lemma_line_ldx(m, short, n),
        Op::Ldy => lemma_line_ldy(m, short, n),
        Op::Lax => lemma_line_lax(m, value, n),
        Op::Adc => lemma_line_adc(m, value, n),
        Op::Sbc => lemma_line_sbc(m, value, n),
        Op::Cpa => lemma_line_cpa(m, value, n),
        Op::Cpx => lemma_line_cpx(m, value, n),
        Op::Cpy => lemma_line_cpy(m, value, n),
        Op::And => lemma_line_and(m, value, n),
        Op::Ora => lemma_line_ora(m, value, n),
        Op::Eor => lemma_line_eor(m, value, n),
        Op::Bit => lemma_line_bit(m, value, n),
        _ => {},
    }
}

/// Reads: loads, logic, sums and comparisons.
proof fn lemma_reads_agree<M: WrittenBus>(m: Machine<M>, i: Instruction)
    requires
        runs_from_rom(m),
        recompiler_laws::about_to_run(m, i),
        instr::class_of(i.info().op) == Class::Read,
    ensures
        agree(i, m.ran(), line_of(i).run(start(m, i))),
{
    let s = start(m, i);
    lemma_kinds(i.opcode);
    lemma_operand_found(m, i);
    lemma_place_read(s, Cell::of(i.info().mode, i.operand));
    reads_run(m);
    lemma_line_reads(s, i);
    lemma_reading_takes_no_time(s.cpu, i.info().op, value_of(i).get(s));
}

proof fn lemma_reading_takes_no_time(c: Cpu, op: Op, v: u8)
    ensures
        c.after_reading(op, v).cycles == c.cycles,
{
    reveal(Cpu::after_reading);
    assert(c.added(v).cycles == c.cycles && c.added((255 - v) as u8).cycles == c.cycles) by {
        reveal(Cpu::added);
    }
}

/// What the interpreter does with an operand that it writes: its time is always the same.
pub proof fn stores_run<M: Memory>(m: Machine<M>)
    requires
        instr::class_of(instr::instr_of(m.next_byte()).op) == Class::Store,
        m.cpu.cycles <= u64::MAX - 16,
        m.fetched().operand(instr::instr_of(m.next_byte()).mode).next.cpu.cycles == m.cpu.cycles,
    ensures
        ({
            let info = instr::instr_of(m.next_byte());
            let o = m.fetched().operand(info.mode);
            let ran = m.ran();
            &&& ran.mem == o.next.mem.after_store(o.addr, o.next.cpu.stored(info.op))
            &&& ran.cpu == o.next.cpu.spent(info.cycles as int)
        }),
{
    reveal(Machine::executed);
    reveal(Machine::operated);
}

/// What the interpreter does with an operand that it changes: its time is always the same.
pub proof fn changes_run<M: Memory>(m: Machine<M>)
    requires
        instr::class_of(instr::instr_of(m.next_byte()).op) == Class::Modify,
        m.fetched().operand(instr::instr_of(m.next_byte()).mode).next.cpu.cycles == m.cpu.cycles,
    ensures
        ({
            let info = instr::instr_of(m.next_byte());
            let o = m.fetched().operand(info.mode);
            let b = o.next.mem.load(o.addr);
            let ran = m.ran();
            &&& ran.mem == o.next.mem.after_load(o.addr).after_store(
                o.addr,
                o.next.cpu.new_value(info.op, b),
            )
            &&& ran.cpu == o.next.cpu.after_modifying(info.op, b).spent(info.cycles as int)
        }),
{
    reveal(Machine::executed);
    reveal(Machine::operated);
}

/// Putting a byte at a place is a store.
proof fn lemma_put<M: WrittenBus>(s: Machine<M>, mem: M, cell: Cell, b: u8)
    ensures
        put(mem, cell.is_ram(), cell.address(s), b) == mem.after_store(cell.address(s), b),
{
    if cell.is_ram() {
        assert(cell.address(s) < 0x800);
        mem.ram_stores(cell.address(s), b);
    }
}

/// Stores.
proof fn lemma_stores_agree<M: WrittenBus>(m: Machine<M>, i: Instruction)
    requires
        runs_from_rom(m),
        recompiler_laws::about_to_run(m, i),
        instr::class_of(i.info().op) == Class::Store,
    ensures
        agree(i, m.ran(), line_of(i).run(start(m, i))),
{
    let s = start(m, i);
    let cell = Cell::of(i.info().mode, i.operand);
    lemma_kinds(i.opcode);
    lemma_operand_found(m, i);
    stores_run(m);
    lemma_put(s, s.mem, cell, s.cpu.stored(i.info().op));
    reveal(Line::run);
}

/// Changes of an operand.
#[verifier::rlimit(50)]
proof fn lemma_changes_agree<M: WrittenBus>(m: Machine<M>, i: Instruction)
    requires
        runs_from_rom(m),
        recompiler_laws::about_to_run(m, i),
        instr::class_of(i.info().op) == Class::Modify,
    ensures
        agree(i, m.ran(), line_of(i).run(start(m, i))),
{
    let s = start(m, i);
    let op = i.info().op;
    let cell = Cell::of(i.info().mode, i.operand);
    lemma_kinds(i.opcode);
    lemma_operand_found(m, i);
    changes_run(m);
    lemma_place_read(s, cell);
    let read = Value::At(cell);
    let e = Env { m: read.seen(s), v: read.get(s), oc: 0, st: 0 };
    code_laws::modify_code_runs(op, e);
    lemma_put(s, read.seen(s).mem, cell, s.cpu.new_value(op, read.get(s)));
    lemma_change_runs(s, cell, op, i.info().cycles);
}

/// What the code of a change does.
proof fn lemma_change_runs<M: WrittenBus>(s: Machine<M>, cell: Cell, op: Op, n: u8)
    requires
        instr::class_of(op) == Class::Modify,
    ensures
        ({
            let read = Value::At(cell);
            let e = Env { m: read.seen(s), v: read.get(s), oc: 0, st: 0 };
            let after = code::run_code(code::modify_code(op), e);
            Line::Change(cell, code::modify_code(op), n).run(s) == (Machine {
                cpu: after.m.cpu.spent(n as int),
                mem: put(after.m.mem, cell.is_ram(), cell.address(s), after.v),
            })
        }),
{
    reveal(Line::run);
}

/// Registers, flags and pauses.
#[verifier::rlimit(50)]
proof fn lemma_registers_agree<M: WrittenBus>(m: Machine<M>, i: Instruction)
    requires
        runs_from_rom(m),
        recompiler_laws::about_to_run(m, i),
        instr::class_of(i.info().op) == Class::Register,
    ensures
        agree(i, m.ran(), line_of(i).run(start(m, i))),
{
    let s = start(m, i);
    let op = i.info().op;
    lemma_kinds(i.opcode);
    lemma_operand_found(m, i);
    instr_laws::cycles_follow_access(i.opcode);
    assert(m.ran().cpu == s.cpu.after_register_op(op).spent(i.info().cycles as int) && m.ran().mem
        == s.mem) by {
        reveal(Machine::executed);
        reveal(Machine::operated);
    }
    if op == Op::Nop {
        assert(s.cpu.after_register_op(op) == s.cpu) by {
            reveal(Cpu::after_register_op);
        }
        lemma_wait_runs(s, i.info().cycles);
    } else {
        let e = Env { m: s, v: 0, oc: 0, st: 0 };
        code_laws::register_code_runs(op, e);
        lemma_straight_runs(s, op);
    }
}

proof fn lemma_wait_runs<M: WrittenBus>(s: Machine<M>, n: u8)
    ensures
        Line::Wait(n).run(s) == s.set(s.cpu.spent(n as int)),
{
    reveal(Line::run);
}

proof fn lemma_straight_runs<M: WrittenBus>(s: Machine<M>, op: Op)
    ensures
        ({
            let (braced, body) = code::register_code(op);
            Line::Straight(braced, body).run(s) == code::run_code(
                body,
                Env { m: s, v: 0, oc: 0, st: 0 },
            ).m
        }),
{
    reveal(Line::run);
}

/// Where a branch leads, and when.
pub open spec fn led<M: WrittenBus>(
    s: Machine<M>,
    taken: bool,
    next: u16,
    target: u16,
) -> Machine<M> {
    if taken {
        s.set(
            Cpu {
                pc: target,
                ..s.cpu.spent(
                    if machine::pages_differ(next, target) {
                        4
                    } else {
                        3
                    },
                )
            },
        )
    } else {
        s.set(Cpu { pc: next, ..s.cpu.spent(2) })
    }
}

/// What the code of a branch does.
proof fn lemma_branch_code<M: WrittenBus>(
    s: Machine<M>,
    flag: Flag,
    wanted: bool,
    next: u16,
    target: u16,
)
    ensures
        Line::Branch(flag, wanted, next, target).run(s) == led(
            s,
            flag.get(s.cpu) == wanted,
            next,
            target,
        ),
{
    reveal(Line::run);
    bits::lemma_word_parts(next);
    bits::lemma_word_parts(target);
}

proof fn lemma_branch_line<M: WrittenBus>(s: Machine<M>, i: Instruction)
    requires
        instr::class_of(i.info().op) == Class::Branch,
    ensures
        ({
            let next = i.addr.wrapping_add(2);
            let target = machine::branch_target(next, i.operand.0);
            line_of(i).run(s) == led(s, s.cpu.branches(i.info().op), next, target)
        }),
{
    let next = i.addr.wrapping_add(2);
    let target = machine::branch_target(next, i.operand.0);
    match i.info().op {
        Op::Bpl => lemma_branch_code(s, Flag::N, false, next, target),
        Op::Bmi => lemma_branch_code(s, Flag::N, true, next, target),
        Op::Bvc => lemma_branch_code(s, Flag::V, false, next, target),
        Op::Bvs => lemma_branch_code(s, Flag::V, true, next, target),
        Op::Bcc => lemma_branch_code(s, Flag::C, false, next, target),
        Op::Bcs => lemma_branch_code(s, Flag::C, true, next, target),
        Op::Bne => lemma_branch_code(s, Flag::Z, false, next, target),
        _ => lemma_branch_code(s, Flag::Z, true, next, target),
    }
}

/// What the interpreter does with a branch.
#[verifier::rlimit(50)]
proof fn lemma_branch_ran<M: WrittenBus>(m: Machine<M>, i: Instruction)
    requires
        runs_from_rom(m),
        recompiler_laws::about_to_run(m, i),
        instr::class_of(i.info().op) == Class::Branch,
    ensures
        ({
            let next = i.addr.wrapping_add(2);
            let target = machine::branch_target(next, i.operand.0);
            m.ran() == led(start(m, i), m.cpu.branches(i.info().op), next, target)
        }),
{
    lemma_kinds(i.opcode);
    lemma_operand_found(m, i);
    instr_laws::cycles_follow_access(i.opcode);
    let f = m.fetched();
    assert(start(m, i).cpu.pc == i.addr.wrapping_add(2));
    assert(f.cpu.branches(i.info().op) == m.cpu.branches(i.info().op));
    let done = f.branched(m.cpu.branches(i.info().op));
    assert(m.ran() == done.set(done.cpu.spent(2))) by {
        reveal(Machine::executed);
        reveal(Machine::operated);
    }
}

/// Branches.
proof fn lemma_branches_agree<M: WrittenBus>(m: Machine<M>, i: Instruction)
    requires
        runs_from_rom(m),
        recompiler_laws::about_to_run(m, i),
        instr::class_of(i.info().op) == Class::Branch,
    ensures
        agree(i, m.ran(), line_of(i).run(start(m, i))),
{
    let s = start(m, i);
    lemma_branch_ran(m, i);
    lemma_branch_line(s, i);
    assert(s.cpu.branches(i.info().op) == m.cpu.branches(i.info().op));
}

/// Jumps, calls, returns and the stack.
#[verifier::rlimit(50)]
proof fn lemma_controls_agree<M: WrittenBus>(m: Machine<M>, i: Instruction)
    requires
        runs_from_rom(m),
        recompiler_laws::about_to_run(m, i),
        instr::class_of(i.info().op) == Class::Control,
    ensures
        agree(i, m.ran(), line_of(i).run(start(m, i))),
{
    let s = start(m, i);
    let op = i.info().op;
    lemma_kinds(i.opcode);
    lemma_operand_found(m, i);
    instr_laws::cycles_follow_access(i.opcode);
    let o = m.fetched().operand(i.info().mode);
    let done = s.controlled(op, o.addr);
    assert(m.ran() == done.set(done.cpu.spent(i.info().cycles as int))) by {
        reveal(Machine::executed);
        reveal(Machine::operated);
    }
    if code::is_register_code(op) {
        code_laws::stack_code_runs(op, o.addr, Env { m: s, v: 0, oc: 0, st: 0 });
        lemma_straight_runs(s, op);
    } else {
        lemma_jumps_run(s, i, o.addr);
    }
}

/// The address of a pointer's high byte.
proof fn lemma_next_in_page(w: u16)
    ensures
        (w & 0xFF00) | (w.wrapping_add(1) & 0x00FF) == machine::next_in_page(w),
{
    let v = w.wrapping_add(1);
    bits::lemma_word_parts(w);
    bits::lemma_word_parts(v);
    assert((w & 0xFF00) | (v & 0x00FF) == (w & 0xFF00) + (v & 0x00FF)) by (bit_vector);
    assert(v % 256 == (w + 1) % 256);
}

/// What the code of a jump, a call or a software interrupt does.
#[verifier::rlimit(50)]
proof fn lemma_jumps_run<M: WrittenBus>(s: Machine<M>, i: Instruction, addr: u16)
    requires
        i.info().op == Op::Jmp || i.info().op == Op::JmpIndirect || i.info().op == Op::Jsr
            || i.info().op == Op::Brk,
        s.cpu.pc == i.after(),
        s.cpu.cycles <= u64::MAX - 16,
        i.info().op != Op::Brk ==> addr == i.word(),
    ensures
        ({
            let done = s.controlled(i.info().op, addr);
            line_of(i).run(s) == done.set(done.cpu.spent(i.info().cycles as int))
        }),
{
    reveal(Line::run);
    reveal(Machine::controlled);
    lemma_kinds(i.opcode);
    instr_laws::cycles_follow_access(i.opcode);
    match i.info().op {
        Op::JmpIndirect => {
            reveal(Machine::jumped_through);
            lemma_next_in_page(addr);
            bits::lemma_word(
                s.peek(addr),
                s.read(addr).peek(machine::next_in_page(addr)),
            );
        },
        Op::Jsr => {
            reveal(Machine::called);
            assert(i.after().wrapping_sub(1) == i.addr.wrapping_add(2));
        },
        Op::Brk => {
            reveal(Machine::broken);
            reveal(Machine::interrupted);
            code_laws::break_status(s.cpu);
            assert(i.after().wrapping_add(1) == i.addr.wrapping_add(2));
            let saved = s.pushed_word(i.addr.wrapping_add(2)).pushed(
                (s.cpu.status_byte() + 16) as u8,
            );
            bits::lemma_word(saved.peek(0xFFFE), saved.read(0xFFFE).peek(0xFFFF));
            lemma_push_keeps(s, i.addr.wrapping_add(2), (s.cpu.status_byte() + 16) as u8);
        },
        _ => {},
    }
}

/// Pushing moves the stack pointer and nothing else in the processor, and does not look at
/// the program counter.
proof fn lemma_push_keeps<M: WrittenBus>(s: Machine<M>, back: u16, status: u8)
    ensures
        ({
            let saved = s.pushed_word(back).pushed(status);
            let moved = s.set(s.cpu.skipped(1)).pushed_word(back).pushed(status);
            &&& moved == saved.set(Cpu { pc: s.cpu.pc.wrapping_add(1), ..saved.cpu })
            &&& saved.cpu == (Cpu { sp: saved.cpu.sp, ..s.cpu })
        }),
{
    reveal(Machine::pushed);
    reveal(Machine::pushed_word);
}

/// The code written for an instruction, run on a machine, leaves it as the interpreter does,
/// registers, flags, stack, program counter and memory: only the cycle that an indexed read
/// takes when it leaves its page is not counted.
pub proof fn written_code_runs_as_interpreted<M: WrittenBus>(m: Machine<M>, i: Instruction)
    requires
        runs_from_rom(m),
        recompiler_laws::about_to_run(m, i),
    ensures
        emitter::instruction_text(i) == line_of(i).text(),
        agree(i, m.ran(), line_of(i).run(start(m, i))),
{
    instructions_read(i);
    match instr::class_of(i.info().op) {
        Class::Read => lemma_reads_agree(m, i),
        Class::Store => lemma_stores_agree(m, i),
        Class::Modify => lemma_changes_agree(m, i),
        Class::Register => lemma_registers_agree(m, i),
        Class::Branch => lemma_branches_agree(m, i),
        Class::Control => lemma_controls_agree(m, i),
    }
}

} // verus!
