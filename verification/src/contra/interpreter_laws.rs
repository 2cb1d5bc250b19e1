//! The interpreter against the processor of the other machine.

use vstd::prelude::*;
use crate::bits;
use crate::bus;
use crate::contra;
use crate::contra::recompiler;
use crate::instr;
use crate::instr::{Class, Instr, Mode, Op};
use crate::machine;
use crate::machine::Machine;

verus! {

/// RAM or program memory: both machines have the same there.
pub open spec fn plain(addr: u16) -> bool {
    addr < 0x2000 || addr >= 0x8000
}

/// Equal processors, RAM and cartridges.
pub open spec fn alike(a: Machine<bus::BusModel>, b: Machine<contra::bus::BusModel>) -> bool {
    &&& a.cpu == b.cpu
    &&& a.mem.ram == b.mem.ram
    &&& a.mem.cart == b.mem.cart
    &&& a.mem.ram.len() == 2048
}

/// The instruction at the program counter touches RAM and program memory only: its own
/// bytes, and its operand where it has one in memory.
pub open spec fn stays_plain(m: Machine<bus::BusModel>) -> bool {
    let info = instr::instr_of(m.next_byte());
    &&& plain(m.cpu.pc)
    &&& reads_operand_bytes(info.mode) ==> {
        &&& recompiler::length_of(info.mode) >= 2 ==> plain(m.cpu.pc.wrapping_add(1))
        &&& recompiler::length_of(info.mode) >= 3 ==> plain(m.cpu.pc.wrapping_add(2))
    }
    &&& touches_operand(info.op) ==> plain(m.fetched().operand(info.mode).addr)
}

/// The bytes behind the opcode are read.
pub open spec fn reads_operand_bytes(mode: Mode) -> bool {
    !(mode is Implied || mode is Skip1 || mode is Skip2)
}

/// The operation reads or writes its operand.
pub open spec fn touches_operand(op: Op) -> bool {
    match instr::class_of(op) {
        Class::Read | Class::Store | Class::Modify => true,
        _ => op is JmpIndirect,
    }
}

/// A read from RAM or program memory is without effect, and alike on both.
proof fn lemma_read(
    a: Machine<bus::BusModel>,
    b: Machine<contra::bus::BusModel>,
    addr: u16,
)
    requires
        alike(a, b),
        plain(addr),
    ensures
        a.read(addr) == a,
        b.read(addr) == b,
        a.peek(addr) == b.peek(addr),
{
}

/// A write to RAM or program memory is alike on both.
proof fn lemma_write(
    a: Machine<bus::BusModel>,
    b: Machine<contra::bus::BusModel>,
    addr: u16,
    val: u8,
)
    requires
        alike(a, b),
        plain(addr),
    ensures
        alike(a.write(addr, val), b.write(addr, val)),
{
}

proof fn lemma_push(a: Machine<bus::BusModel>, b: Machine<contra::bus::BusModel>, val: u8)
    requires
        alike(a, b),
    ensures
        alike(a.pushed(val), b.pushed(val)),
{
    reveal(Machine::pushed);
    lemma_write(a, b, (0x100 + a.cpu.sp) as u16, val);
}

proof fn lemma_pull(a: Machine<bus::BusModel>, b: Machine<contra::bus::BusModel>)
    requires
        alike(a, b),
    ensures
        alike(a.pulled(), b.pulled()),
        a.top() == b.top(),
{
    reveal(Machine::pulled);
    reveal(Machine::top);
    lemma_read(a, b, (0x100 + a.cpu.sp.wrapping_add(1)) as u16);
}

proof fn lemma_push_word(a: Machine<bus::BusModel>, b: Machine<contra::bus::BusModel>, val: u16)
    requires
        alike(a, b),
    ensures
        alike(a.pushed_word(val), b.pushed_word(val)),
{
    reveal(Machine::pushed_word);
    let hi = bits::high(val);
    lemma_push(a, b, hi);
    lemma_push(a.pushed(hi), b.pushed(hi), bits::low(val));
}

proof fn lemma_pull_word(a: Machine<bus::BusModel>, b: Machine<contra::bus::BusModel>)
    requires
        alike(a, b),
    ensures
        alike(a.pulled_word(), b.pulled_word()),
        a.top_word() == b.top_word(),
{
    reveal(Machine::pulled_word);
    reveal(Machine::top_word);
    lemma_pull(a, b);
    lemma_pull(a.pulled(), b.pulled());
}

/// Operands are found alike.
proof fn lemma_operand(a: Machine<bus::BusModel>, b: Machine<contra::bus::BusModel>, mode: Mode)
    requires
        alike(a, b),
        reads_operand_bytes(mode) ==> {
            &&& recompiler::length_of(mode) >= 2 ==> plain(a.cpu.pc)
            &&& recompiler::length_of(mode) >= 3 ==> plain(a.cpu.pc.wrapping_add(1))
        },
    ensures
        alike(a.operand(mode).next, b.operand(mode).next),
        a.operand(mode).addr == b.operand(mode).addr,
        a.operand(mode).crossed == b.operand(mode).crossed,
        a.operand(mode).next.mem == a.mem,
        b.operand(mode).next.mem == b.mem,
{
    reveal(Machine::operand);
    let pc = a.cpu.pc;
    if reads_operand_bytes(mode) {
        lemma_read(a, b, pc);
        let ptr = a.next_byte();
        let moved = ptr.wrapping_add(a.cpu.x);
        lemma_read(a, b, ptr as u16);
        lemma_read(a, b, ptr.wrapping_add(1) as u16);
        lemma_read(a, b, moved as u16);
        lemma_read(a, b, moved.wrapping_add(1) as u16);
        assert(alike(a.fetched(), b.fetched()));
        if recompiler::length_of(mode) >= 3 {
            lemma_read(a, b, pc.wrapping_add(1));
        }
    }
}

/// Jumps, calls, returns and stack operations are alike.
proof fn lemma_controlled(
    a: Machine<bus::BusModel>,
    b: Machine<contra::bus::BusModel>,
    op: Op,
    addr: u16,
)
    requires
        alike(a, b),
        op is JmpIndirect ==> plain(addr),
    ensures
        alike(a.controlled(op, addr), b.controlled(op, addr)),
{
    reveal(Machine::controlled);
    match op {
        Op::JmpIndirect => {
            reveal(Machine::jumped_through);
            lemma_read(a, b, addr);
            lemma_same_page(addr);
            lemma_read(a, b, machine::next_in_page(addr));
        },
        Op::Jsr => {
            reveal(Machine::called);
            lemma_push_word(a, b, a.cpu.pc.wrapping_sub(1));
        },
        Op::Rts => {
            reveal(Machine::returned);
            lemma_pull_word(a, b);
        },
        Op::Rti => {
            reveal(Machine::interrupt_returned);
            reveal(Machine::status_pulled);
            lemma_pull(a, b);
            lemma_pull_word(a.status_pulled(), b.status_pulled());
        },
        Op::Brk => {
            lemma_broken(a, b);
        },
        Op::Pha => {
            lemma_push(a, b, a.cpu.a);
        },
        Op::Php => {
            lemma_push(a, b, (a.cpu.status_byte() + 16) as u8);
        },
        Op::Pla => {
            reveal(Machine::accumulator_pulled);
            lemma_pull(a, b);
        },
        Op::Plp => {
            reveal(Machine::status_pulled);
            lemma_pull(a, b);
        },
        _ => {},
    }
}

/// RAM and program memory begin and end with a page.
proof fn lemma_same_page(addr: u16)
    requires
        plain(addr),
    ensures
        plain(machine::next_in_page(addr)),
{
}

/// Software interrupts are alike.
proof fn lemma_broken(a: Machine<bus::BusModel>, b: Machine<contra::bus::BusModel>)
    requires
        alike(a, b),
    ensures
        alike(a.broken(), b.broken()),
{
    reveal(Machine::broken);
    reveal(Machine::interrupted);
    let c = a.set(a.cpu.skipped(1));
    let d = b.set(b.cpu.skipped(1));
    let status = (a.cpu.status_byte() + 16) as u8;
    lemma_push_word(c, d, c.cpu.pc);
    let e = c.pushed_word(c.cpu.pc);
    let f = d.pushed_word(c.cpu.pc);
    lemma_push(e, f, status);
    lemma_read(e.pushed(status), f.pushed(status), 0xFFFE);
    lemma_read(e.pushed(status), f.pushed(status), 0xFFFF);
}

/// Operations are alike.
proof fn lemma_operated(
    a: Machine<bus::BusModel>,
    b: Machine<contra::bus::BusModel>,
    op: Op,
    addr: u16,
)
    requires
        alike(a, b),
        touches_operand(op) ==> plain(addr),
        instr::class_of(op) is Branch ==> plain(a.cpu.pc),
    ensures
        alike(a.operated(op, addr), b.operated(op, addr)),
{
    reveal(Machine::operated);
    match instr::class_of(op) {
        Class::Read => {
            lemma_read(a, b, addr);
        },
        Class::Store => {
            lemma_write(a, b, addr, a.cpu.stored(op));
        },
        Class::Modify => {
            lemma_read(a, b, addr);
            lemma_write(a, b, addr, a.cpu.new_value(op, a.peek(addr)));
        },
        Class::Register => {},
        Class::Branch => {
            lemma_read(a, b, a.cpu.pc);
        },
        Class::Control => {
            lemma_controlled(a, b, op, addr);
        },
    }
}

/// The interpreter does what the processor does: with equal registers, RAM and cartridge,
/// an instruction that touches RAM and program memory only leaves equal registers, cycles,
/// RAM, cartridge and selected bank.
pub proof fn interpreter_agrees(
    a: Machine<bus::BusModel>,
    b: Machine<contra::bus::BusModel>,
)
    requires
        alike(a, b),
        stays_plain(a),
        a.cpu.stall == 0,
        !a.cpu.nmi_pending,
        !(a.cpu.irq_pending && !a.cpu.i),
    ensures
        alike(a.stepped(), b.ran()),
{
    reveal(Machine::stepped);
    reveal(Machine::executed);
    lemma_read(a, b, a.cpu.pc);
    let info: Instr = instr::instr_of(a.next_byte());
    lemma_branches(a.next_byte());
    let f = a.fetched();
    let g = b.fetched();
    assert(alike(f, g));
    assert(a.cpu.pc.wrapping_add(1).wrapping_add(1) == a.cpu.pc.wrapping_add(2));
    lemma_operand(f, g, info.mode);
    let o = f.operand(info.mode);
    let p = g.operand(info.mode);
    reveal(Machine::operand);
    lemma_operated(o.next, p.next, info.op, o.addr);
}

/// Branches are relative.
proof fn lemma_branches(opcode: u8)
    ensures
        instr::class_of(instr::instr_of(opcode).op) is Branch ==> instr::instr_of(
            opcode,
        ).mode is Relative,
{
}

} // verus!
