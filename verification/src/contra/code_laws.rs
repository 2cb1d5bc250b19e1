//! The straight-line code that the recompiler writes does what the interpreter does.

use vstd::prelude::*;
use crate::bits;
use crate::contra::code;
use crate::contra::code::{Env, Step};
use crate::cpu::Cpu;
use crate::instr;
use crate::instr::{Class, Op};
use crate::machine::Machine;
use crate::memory::Memory;

verus! {

/// Shifts and rotations in numbers.
#[verifier::rlimit(50)]
pub proof fn shifts_in_numbers(v: u8)
    ensures
        v << 1 == 2 * v % 256,
        v >> 1 == v / 2,
        (v << 1) | 0 == 2 * v % 256,
        (v << 1) | 1 == 2 * v % 256 + 1,
        (v >> 1) | (0u8 << 7) == v / 2,
        (v >> 1) | (1u8 << 7) == v / 2 + 128,
        (v & 0x80 != 0) == (v >= 128),
        (v & 1 != 0) == (v % 2 == 1),
{
    assert({
        &&& v << 1 == 2 * v % 256
        &&& v >> 1 == v / 2
        &&& (v << 1) | 0 == 2 * v % 256
        &&& (v << 1) | 1 == 2 * v % 256 + 1
        &&& (v >> 1) | (0u8 << 7) == v / 2
        &&& (v >> 1) | (1u8 << 7) == v / 2 + 128
        &&& (v & 0x80 != 0) == (v >= 128)
        &&& (v & 1 != 0) == (v % 2 == 1)
    }) by (bit_vector);
}

/// The status byte with bit 4 set.
#[verifier::rlimit(50)]
pub proof fn break_status(cpu: Cpu)
    ensures
        cpu.status_byte() | 0x10 == cpu.status_byte() + 16,
{
    let s = cpu.status_byte();
    bits::bit_weights(s);
    bits::lemma_bit8(s);
    bits::bitwise_operators(s, 0x10);
}

#[verifier::rlimit(50)]
proof fn lemma_runs_asla<M: Memory>(e: Env<M>)
    ensures
        code::run_code(code::register_code(Op::AslA).1, e).m == e.m.set(
            e.m.cpu.after_register_op(Op::AslA).spent(2),
        ),
{
    reveal_with_fuel(code::run_code, 9);
    reveal(Cpu::after_register_op);
    let after = e.m.cpu.after_register_op(Op::AslA);
    shifts_in_numbers(e.m.cpu.a);
    shifts_in_numbers(after.a);
    shifts_in_numbers(after.x);
    shifts_in_numbers(after.y);
}

#[verifier::rlimit(50)]
proof fn lemma_runs_lsra<M: Memory>(e: Env<M>)
    ensures
        code::run_code(code::register_code(Op::LsrA).1, e).m == e.m.set(
            e.m.cpu.after_register_op(Op::LsrA).spent(2),
        ),
{
    reveal_with_fuel(code::run_code, 9);
    reveal(Cpu::after_register_op);
    let after = e.m.cpu.after_register_op(Op::LsrA);
    shifts_in_numbers(e.m.cpu.a);
    shifts_in_numbers(after.a);
    shifts_in_numbers(after.x);
    shifts_in_numbers(after.y);
}

#[verifier::rlimit(50)]
proof fn lemma_runs_rola<M: Memory>(e: Env<M>)
    ensures
        code::run_code(code::register_code(Op::RolA).1, e).m == e.m.set(
            e.m.cpu.after_register_op(Op::RolA).spent(2),
        ),
{
    reveal_with_fuel(code::run_code, 9);
    reveal(Cpu::after_register_op);
    let after = e.m.cpu.after_register_op(Op::RolA);
    shifts_in_numbers(e.m.cpu.a);
    shifts_in_numbers(after.a);
    shifts_in_numbers(after.x);
    shifts_in_numbers(after.y);
}

#[verifier::rlimit(50)]
proof fn lemma_runs_rora<M: Memory>(e: Env<M>)
    ensures
        code::run_code(code::register_code(Op::RorA).1, e).m == e.m.set(
            e.m.cpu.after_register_op(Op::RorA).spent(2),
        ),
{
    reveal_with_fuel(code::run_code, 9);
    reveal(Cpu::after_register_op);
    let after = e.m.cpu.after_register_op(Op::RorA);
    shifts_in_numbers(e.m.cpu.a);
    shifts_in_numbers(after.a);
    shifts_in_numbers(after.x);
    shifts_in_numbers(after.y);
}

#[verifier::rlimit(50)]
proof fn lemma_runs_inx<M: Memory>(e: Env<M>)
    ensures
        code::run_code(code::register_code(Op::Inx).1, e).m == e.m.set(
            e.m.cpu.after_register_op(Op::Inx).spent(2),
        ),
{
    reveal_with_fuel(code::run_code, 9);
    reveal(Cpu::after_register_op);
    let after = e.m.cpu.after_register_op(Op::Inx);
    shifts_in_numbers(e.m.cpu.a);
    shifts_in_numbers(after.a);
    shifts_in_numbers(after.x);
    shifts_in_numbers(after.y);
}

#[verifier::rlimit(50)]
proof fn lemma_runs_iny<M: Memory>(e: Env<M>)
    ensures
        code::run_code(code::register_code(Op::Iny).1, e).m == e.m.set(
            e.m.cpu.after_register_op(Op::Iny).spent(2),
        ),
{
    reveal_with_fuel(code::run_code, 9);
    reveal(Cpu::after_register_op);
    let after = e.m.cpu.after_register_op(Op::Iny);
    shifts_in_numbers(e.m.cpu.a);
    shifts_in_numbers(after.a);
    shifts_in_numbers(after.x);
    shifts_in_numbers(after.y);
}

#[verifier::rlimit(50)]
proof fn lemma_runs_dex<M: Memory>(e: Env<M>)
    ensures
        code::run_code(code::register_code(Op::Dex).1, e).m == e.m.set(
            e.m.cpu.after_register_op(Op::Dex).spent(2),
        ),
{
    reveal_with_fuel(code::run_code, 9);
    reveal(Cpu::after_register_op);
    let after = e.m.cpu.after_register_op(Op::Dex);
    shifts_in_numbers(e.m.cpu.a);
    shifts_in_numbers(after.a);
    shifts_in_numbers(after.x);
    shifts_in_numbers(after.y);
}

#[verifier::rlimit(50)]
proof fn lemma_runs_dey<M: Memory>(e: Env<M>)
    ensures
        code::run_code(code::register_code(Op::Dey).1, e).m == e.m.set(
            e.m.cpu.after_register_op(Op::Dey).spent(2),
        ),
{
    reveal_with_fuel(code::run_code, 9);
    reveal(Cpu::after_register_op);
    let after = e.m.cpu.after_register_op(Op::Dey);
    shifts_in_numbers(e.m.cpu.a);
    shifts_in_numbers(after.a);
    shifts_in_numbers(after.x);
    shifts_in_numbers(after.y);
}

#[verifier::rlimit(50)]
proof fn lemma_runs_tax<M: Memory>(e: Env<M>)
    ensures
        code::run_code(code::register_code(Op::Tax).1, e).m == e.m.set(
            e.m.cpu.after_register_op(Op::Tax).spent(2),
        ),
{
    reveal_with_fuel(code::run_code, 9);
    reveal(Cpu::after_register_op);
    let after = e.m.cpu.after_register_op(Op::Tax);
    shifts_in_numbers(e.m.cpu.a);
    shifts_in_numbers(after.a);
    shifts_in_numbers(after.x);
    shifts_in_numbers(after.y);
}

#[verifier::rlimit(50)]
proof fn lemma_runs_txa<M: Memory>(e: Env<M>)
    ensures
        code::run_code(code::register_code(Op::Txa).1, e).m == e.m.set(
            e.m.cpu.after_register_op(Op::Txa).spent(2),
        ),
{
    reveal_with_fuel(code::run_code, 9);
    reveal(Cpu::after_register_op);
    let after = e.m.cpu.after_register_op(Op::Txa);
    shifts_in_numbers(e.m.cpu.a);
    shifts_in_numbers(after.a);
    shifts_in_numbers(after.x);
    shifts_in_numbers(after.y);
}

#[verifier::rlimit(50)]
proof fn lemma_runs_tay<M: Memory>(e: Env<M>)
    ensures
        code::run_code(code::register_code(Op::Tay).1, e).m == e.m.set(
            e.m.cpu.after_register_op(Op::Tay).spent(2),
        ),
{
    reveal_with_fuel(code::run_code, 9);
    reveal(Cpu::after_register_op);
    let after = e.m.cpu.after_register_op(Op::Tay);
    shifts_in_numbers(e.m.cpu.a);
    shifts_in_numbers(after.a);
    shifts_in_numbers(after.x);
    shifts_in_numbers(after.y);
}

#[verifier::rlimit(50)]
proof fn lemma_runs_tya<M: Memory>(e: Env<M>)
    ensures
        code::run_code(code::register_code(Op::Tya).1, e).m == e.m.set(
            e.m.cpu.after_register_op(Op::Tya).spent(2),
        ),
{
    reveal_with_fuel(code::run_code, 9);
    reveal(Cpu::after_register_op);
    let after = e.m.cpu.after_register_op(Op::Tya);
    shifts_in_numbers(e.m.cpu.a);
    shifts_in_numbers(after.a);
    shifts_in_numbers(after.x);
    shifts_in_numbers(after.y);
}

#[verifier::rlimit(50)]
proof fn lemma_runs_txs<M: Memory>(e: Env<M>)
    ensures
        code::run_code(code::register_code(Op::Txs).1, e).m == e.m.set(
            e.m.cpu.after_register_op(Op::Txs).spent(2),
        ),
{
    reveal_with_fuel(code::run_code, 9);
    reveal(Cpu::after_register_op);
    let after = e.m.cpu.after_register_op(Op::Txs);
    shifts_in_numbers(e.m.cpu.a);
    shifts_in_numbers(after.a);
    shifts_in_numbers(after.x);
    shifts_in_numbers(after.y);
}

#[verifier::rlimit(50)]
proof fn lemma_runs_tsx<M: Memory>(e: Env<M>)
    ensures
        code::run_code(code::register_code(Op::Tsx).1, e).m == e.m.set(
            e.m.cpu.after_register_op(Op::Tsx).spent(2),
        ),
{
    reveal_with_fuel(code::run_code, 9);
    reveal(Cpu::after_register_op);
    let after = e.m.cpu.after_register_op(Op::Tsx);
    shifts_in_numbers(e.m.cpu.a);
    shifts_in_numbers(after.a);
    shifts_in_numbers(after.x);
    shifts_in_numbers(after.y);
}

#[verifier::rlimit(50)]
proof fn lemma_runs_clc<M: Memory>(e: Env<M>)
    ensures
        code::run_code(code::register_code(Op::Clc).1, e).m == e.m.set(
            e.m.cpu.after_register_op(Op::Clc).spent(2),
        ),
{
    reveal_with_fuel(code::run_code, 9);
    reveal(Cpu::after_register_op);
    let after = e.m.cpu.after_register_op(Op::Clc);
    shifts_in_numbers(e.m.cpu.a);
    shifts_in_numbers(after.a);
    shifts_in_numbers(after.x);
    shifts_in_numbers(after.y);
}

#[verifier::rlimit(50)]
proof fn lemma_runs_sec<M: Memory>(e: Env<M>)
    ensures
        code::run_code(code::register_code(Op::Sec).1, e).m == e.m.set(
            e.m.cpu.after_register_op(Op::Sec).spent(2),
        ),
{
    reveal_with_fuel(code::run_code, 9);
    reveal(Cpu::after_register_op);
    let after = e.m.cpu.after_register_op(Op::Sec);
    shifts_in_numbers(e.m.cpu.a);
    shifts_in_numbers(after.a);
    shifts_in_numbers(after.x);
    shifts_in_numbers(after.y);
}

#[verifier::rlimit(50)]
proof fn lemma_runs_cli<M: Memory>(e: Env<M>)
    ensures
        code::run_code(code::register_code(Op::Cli).1, e).m == e.m.set(
            e.m.cpu.after_register_op(Op::Cli).spent(2),
        ),
{
    reveal_with_fuel(code::run_code, 9);
    reveal(Cpu::after_register_op);
    let after = e.m.cpu.after_register_op(Op::Cli);
    shifts_in_numbers(e.m.cpu.a);
    shifts_in_numbers(after.a);
    shifts_in_numbers(after.x);
    shifts_in_numbers(after.y);
}

#[verifier::rlimit(50)]
proof fn lemma_runs_sei<M: Memory>(e: Env<M>)
    ensures
        code::run_code(code::register_code(Op::Sei).1, e).m == e.m.set(
            e.m.cpu.after_register_op(Op::Sei).spent(2),
        ),
{
    reveal_with_fuel(code::run_code, 9);
    reveal(Cpu::after_register_op);
    let after = e.m.cpu.after_register_op(Op::Sei);
    shifts_in_numbers(e.m.cpu.a);
    shifts_in_numbers(after.a);
    shifts_in_numbers(after.x);
    shifts_in_numbers(after.y);
}

#[verifier::rlimit(50)]
proof fn lemma_runs_clv<M: Memory>(e: Env<M>)
    ensures
        code::run_code(code::register_code(Op::Clv).1, e).m == e.m.set(
            e.m.cpu.after_register_op(Op::Clv).spent(2),
        ),
{
    reveal_with_fuel(code::run_code, 9);
    reveal(Cpu::after_register_op);
    let after = e.m.cpu.after_register_op(Op::Clv);
    shifts_in_numbers(e.m.cpu.a);
    shifts_in_numbers(after.a);
    shifts_in_numbers(after.x);
    shifts_in_numbers(after.y);
}

#[verifier::rlimit(50)]
proof fn lemma_runs_cld<M: Memory>(e: Env<M>)
    ensures
        code::run_code(code::register_code(Op::Cld).1, e).m == e.m.set(
            e.m.cpu.after_register_op(Op::Cld).spent(2),
        ),
{
    reveal_with_fuel(code::run_code, 9);
    reveal(Cpu::after_register_op);
    let after = e.m.cpu.after_register_op(Op::Cld);
    shifts_in_numbers(e.m.cpu.a);
    shifts_in_numbers(after.a);
    shifts_in_numbers(after.x);
    shifts_in_numbers(after.y);
}

#[verifier::rlimit(50)]
proof fn lemma_runs_sed<M: Memory>(e: Env<M>)
    ensures
        code::run_code(code::register_code(Op::Sed).1, e).m == e.m.set(
            e.m.cpu.after_register_op(Op::Sed).spent(2),
        ),
{
    reveal_with_fuel(code::run_code, 9);
    reveal(Cpu::after_register_op);
    let after = e.m.cpu.after_register_op(Op::Sed);
    shifts_in_numbers(e.m.cpu.a);
    shifts_in_numbers(after.a);
    shifts_in_numbers(after.x);
    shifts_in_numbers(after.y);
}

/// Code for an operation on registers and flags runs as the operation, in two cycles.
#[verifier::rlimit(50)]
pub proof fn register_code_runs<M: Memory>(op: Op, e: Env<M>)
    requires
        instr::class_of(op) == Class::Register,
        op != Op::Nop,
    ensures
        code::is_register_code(op),
        ({
            let after = code::run_code(code::register_code(op).1, e).m;
            after == e.m.set(e.m.cpu.after_register_op(op).spent(2))
        }),
{
    match op {
        Op::AslA => lemma_runs_asla(e),
        Op::LsrA => lemma_runs_lsra(e),
        Op::RolA => lemma_runs_rola(e),
        Op::RorA => lemma_runs_rora(e),
        Op::Inx => lemma_runs_inx(e),
        Op::Iny => lemma_runs_iny(e),
        Op::Dex => lemma_runs_dex(e),
        Op::Dey => lemma_runs_dey(e),
        Op::Tax => lemma_runs_tax(e),
        Op::Txa => lemma_runs_txa(e),
        Op::Tay => lemma_runs_tay(e),
        Op::Tya => lemma_runs_tya(e),
        Op::Txs => lemma_runs_txs(e),
        Op::Tsx => lemma_runs_tsx(e),
        Op::Clc => lemma_runs_clc(e),
        Op::Sec => lemma_runs_sec(e),
        Op::Cli => lemma_runs_cli(e),
        Op::Sei => lemma_runs_sei(e),
        Op::Clv => lemma_runs_clv(e),
        Op::Cld => lemma_runs_cld(e),
        Op::Sed => lemma_runs_sed(e),
        _ => {},
    }
}

#[verifier::rlimit(50)]
proof fn lemma_runs_rts<M: Memory>(addr: u16, e: Env<M>)
    ensures
        ({
            let done = e.m.controlled(Op::Rts, addr);
            code::run_code(code::register_code(Op::Rts).1, e).m == done.set(
                done.cpu.spent(6),
            )
        }),
{
    reveal_with_fuel(code::run_code, 9);
    reveal(Step::call);
    reveal(Machine::controlled);
    reveal(Machine::accumulator_pulled);
    reveal(Machine::status_pulled);
    reveal(Machine::returned);
    reveal(Machine::interrupt_returned);
    shifts_in_numbers(e.m.top());
    break_status(e.m.cpu);
}

#[verifier::rlimit(50)]
proof fn lemma_runs_rti<M: Memory>(addr: u16, e: Env<M>)
    ensures
        ({
            let done = e.m.controlled(Op::Rti, addr);
            code::run_code(code::register_code(Op::Rti).1, e).m == done.set(
                done.cpu.spent(6),
            )
        }),
{
    reveal_with_fuel(code::run_code, 9);
    reveal(Step::call);
    reveal(Machine::controlled);
    reveal(Machine::accumulator_pulled);
    reveal(Machine::status_pulled);
    reveal(Machine::returned);
    reveal(Machine::interrupt_returned);
    shifts_in_numbers(e.m.top());
    break_status(e.m.cpu);
}

#[verifier::rlimit(50)]
proof fn lemma_runs_pha<M: Memory>(addr: u16, e: Env<M>)
    ensures
        ({
            let done = e.m.controlled(Op::Pha, addr);
            code::run_code(code::register_code(Op::Pha).1, e).m == done.set(
                done.cpu.spent(3),
            )
        }),
{
    reveal_with_fuel(code::run_code, 9);
    reveal(Step::call);
    reveal(Machine::controlled);
    reveal(Machine::accumulator_pulled);
    reveal(Machine::status_pulled);
    reveal(Machine::returned);
    reveal(Machine::interrupt_returned);
    shifts_in_numbers(e.m.top());
    break_status(e.m.cpu);
}

#[verifier::rlimit(50)]
proof fn lemma_runs_pla<M: Memory>(addr: u16, e: Env<M>)
    ensures
        ({
            let done = e.m.controlled(Op::Pla, addr);
            code::run_code(code::register_code(Op::Pla).1, e).m == done.set(
                done.cpu.spent(4),
            )
        }),
{
    reveal_with_fuel(code::run_code, 9);
    reveal(Step::call);
    reveal(Machine::controlled);
    reveal(Machine::accumulator_pulled);
    reveal(Machine::status_pulled);
    reveal(Machine::returned);
    reveal(Machine::interrupt_returned);
    shifts_in_numbers(e.m.top());
    break_status(e.m.cpu);
}

#[verifier::rlimit(50)]
proof fn lemma_runs_php<M: Memory>(addr: u16, e: Env<M>)
    ensures
        ({
            let done = e.m.controlled(Op::Php, addr);
            code::run_code(code::register_code(Op::Php).1, e).m == done.set(
                done.cpu.spent(3),
            )
        }),
{
    reveal_with_fuel(code::run_code, 9);
    reveal(Step::call);
    reveal(Machine::controlled);
    reveal(Machine::accumulator_pulled);
    reveal(Machine::status_pulled);
    reveal(Machine::returned);
    reveal(Machine::interrupt_returned);
    shifts_in_numbers(e.m.top());
    break_status(e.m.cpu);
}

#[verifier::rlimit(50)]
proof fn lemma_runs_plp<M: Memory>(addr: u16, e: Env<M>)
    ensures
        ({
            let done = e.m.controlled(Op::Plp, addr);
            code::run_code(code::register_code(Op::Plp).1, e).m == done.set(
                done.cpu.spent(4),
            )
        }),
{
    reveal_with_fuel(code::run_code, 9);
    reveal(Step::call);
    reveal(Machine::controlled);
    reveal(Machine::accumulator_pulled);
    reveal(Machine::status_pulled);
    reveal(Machine::returned);
    reveal(Machine::interrupt_returned);
    shifts_in_numbers(e.m.top());
    break_status(e.m.cpu);
}

/// Code for a stack operation or a return runs as the operation, in its number of cycles.
#[verifier::rlimit(50)]
pub proof fn stack_code_runs<M: Memory>(op: Op, addr: u16, e: Env<M>)
    requires
        op == Op::Pha || op == Op::Php || op == Op::Pla || op == Op::Plp || op == Op::Rts || op
            == Op::Rti,
    ensures
        code::is_register_code(op),
        ({
            let after = code::run_code(code::register_code(op).1, e).m;
            let done = e.m.controlled(op, addr);
            let cycles: int = if op == Op::Pha || op == Op::Php {
                3
            } else if op == Op::Pla || op == Op::Plp {
                4
            } else {
                6
            };
            after == done.set(done.cpu.spent(cycles))
        }),
{
    match op {
        Op::Rts => lemma_runs_rts(addr, e),
        Op::Rti => lemma_runs_rti(addr, e),
        Op::Pha => lemma_runs_pha(addr, e),
        Op::Pla => lemma_runs_pla(addr, e),
        Op::Php => lemma_runs_php(addr, e),
        Op::Plp => lemma_runs_plp(addr, e),
        _ => {},
    }
}

#[verifier::rlimit(50)]
proof fn lemma_changes_asl<M: Memory>(e: Env<M>)
    ensures
        ({
            let after = code::run_code(code::modify_code(Op::Asl), e);
            &&& after.v == e.m.cpu.new_value(Op::Asl, e.v)
            &&& after.m == e.m.set(e.m.cpu.after_modifying(Op::Asl, e.v))
        }),
{
    reveal_with_fuel(code::run_code, 9);
    reveal(Cpu::new_value);
    reveal(Cpu::after_modifying);
    shifts_in_numbers(e.v);
    shifts_in_numbers(e.m.cpu.new_value(Op::Asl, e.v));
    shifts_in_numbers(e.m.cpu.after_modifying(Op::Asl, e.v).a);
}

#[verifier::rlimit(50)]
proof fn lemma_changes_lsr<M: Memory>(e: Env<M>)
    ensures
        ({
            let after = code::run_code(code::modify_code(Op::Lsr), e);
            &&& after.v == e.m.cpu.new_value(Op::Lsr, e.v)
            &&& after.m == e.m.set(e.m.cpu.after_modifying(Op::Lsr, e.v))
        }),
{
    reveal_with_fuel(code::run_code, 9);
    reveal(Cpu::new_value);
    reveal(Cpu::after_modifying);
    shifts_in_numbers(e.v);
    shifts_in_numbers(e.m.cpu.new_value(Op::Lsr, e.v));
    shifts_in_numbers(e.m.cpu.after_modifying(Op::Lsr, e.v).a);
}

#[verifier::rlimit(50)]
proof fn lemma_changes_rol<M: Memory>(e: Env<M>)
    ensures
        ({
            let after = code::run_code(code::modify_code(Op::Rol), e);
            &&& after.v == e.m.cpu.new_value(Op::Rol, e.v)
            &&& after.m == e.m.set(e.m.cpu.after_modifying(Op::Rol, e.v))
        }),
{
    reveal_with_fuel(code::run_code, 9);
    reveal(Cpu::new_value);
    reveal(Cpu::after_modifying);
    shifts_in_numbers(e.v);
    shifts_in_numbers(e.m.cpu.new_value(Op::Rol, e.v));
    shifts_in_numbers(e.m.cpu.after_modifying(Op::Rol, e.v).a);
}

#[verifier::rlimit(50)]
proof fn lemma_changes_ror<M: Memory>(e: Env<M>)
    ensures
        ({
            let after = code::run_code(code::modify_code(Op::Ror), e);
            &&& after.v == e.m.cpu.new_value(Op::Ror, e.v)
            &&& after.m == e.m.set(e.m.cpu.after_modifying(Op::Ror, e.v))
        }),
{
    reveal_with_fuel(code::run_code, 9);
    reveal(Cpu::new_value);
    reveal(Cpu::after_modifying);
    shifts_in_numbers(e.v);
    shifts_in_numbers(e.m.cpu.new_value(Op::Ror, e.v));
    shifts_in_numbers(e.m.cpu.after_modifying(Op::Ror, e.v).a);
}

#[verifier::rlimit(50)]
proof fn lemma_changes_inc<M: Memory>(e: Env<M>)
    ensures
        ({
            let after = code::run_code(code::modify_code(Op::Inc), e);
            &&& after.v == e.m.cpu.new_value(Op::Inc, e.v)
            &&& after.m == e.m.set(e.m.cpu.after_modifying(Op::Inc, e.v))
        }),
{
    reveal_with_fuel(code::run_code, 9);
    reveal(Cpu::new_value);
    reveal(Cpu::after_modifying);
    shifts_in_numbers(e.v);
    shifts_in_numbers(e.m.cpu.new_value(Op::Inc, e.v));
    shifts_in_numbers(e.m.cpu.after_modifying(Op::Inc, e.v).a);
}

#[verifier::rlimit(50)]
proof fn lemma_changes_dec<M: Memory>(e: Env<M>)
    ensures
        ({
            let after = code::run_code(code::modify_code(Op::Dec), e);
            &&& after.v == e.m.cpu.new_value(Op::Dec, e.v)
            &&& after.m == e.m.set(e.m.cpu.after_modifying(Op::Dec, e.v))
        }),
{
    reveal_with_fuel(code::run_code, 9);
    reveal(Cpu::new_value);
    reveal(Cpu::after_modifying);
    shifts_in_numbers(e.v);
    shifts_in_numbers(e.m.cpu.new_value(Op::Dec, e.v));
    shifts_in_numbers(e.m.cpu.after_modifying(Op::Dec, e.v).a);
}

#[verifier::rlimit(50)]
proof fn lemma_changes_dcp<M: Memory>(e: Env<M>)
    ensures
        ({
            let after = code::run_code(code::modify_code(Op::Dcp), e);
            &&& after.v == e.m.cpu.new_value(Op::Dcp, e.v)
            &&& after.m == e.m.set(e.m.cpu.after_modifying(Op::Dcp, e.v))
        }),
{
    reveal_with_fuel(code::run_code, 9);
    reveal(Step::call);
    reveal(Cpu::new_value);
    reveal(Cpu::after_modifying);
    shifts_in_numbers(e.v);
    shifts_in_numbers(e.m.cpu.new_value(Op::Dcp, e.v));
    shifts_in_numbers(e.m.cpu.after_modifying(Op::Dcp, e.v).a);
}

#[verifier::rlimit(50)]
proof fn lemma_changes_isb<M: Memory>(e: Env<M>)
    ensures
        ({
            let after = code::run_code(code::modify_code(Op::Isb), e);
            &&& after.v == e.m.cpu.new_value(Op::Isb, e.v)
            &&& after.m == e.m.set(e.m.cpu.after_modifying(Op::Isb, e.v))
        }),
{
    reveal_with_fuel(code::run_code, 9);
    reveal(Step::call);
    reveal(Cpu::new_value);
    reveal(Cpu::after_modifying);
    shifts_in_numbers(e.v);
    shifts_in_numbers(e.m.cpu.new_value(Op::Isb, e.v));
    shifts_in_numbers(e.m.cpu.after_modifying(Op::Isb, e.v).a);
}

#[verifier::rlimit(50)]
proof fn lemma_changes_slo<M: Memory>(e: Env<M>)
    ensures
        ({
            let after = code::run_code(code::modify_code(Op::Slo), e);
            &&& after.v == e.m.cpu.new_value(Op::Slo, e.v)
            &&& after.m == e.m.set(e.m.cpu.after_modifying(Op::Slo, e.v))
        }),
{
    reveal_with_fuel(code::run_code, 9);
    reveal(Cpu::new_value);
    reveal(Cpu::after_modifying);
    shifts_in_numbers(e.v);
    shifts_in_numbers(e.m.cpu.new_value(Op::Slo, e.v));
    shifts_in_numbers(e.m.cpu.after_modifying(Op::Slo, e.v).a);
}

#[verifier::rlimit(50)]
proof fn lemma_changes_rla<M: Memory>(e: Env<M>)
    ensures
        ({
            let after = code::run_code(code::modify_code(Op::Rla), e);
            &&& after.v == e.m.cpu.new_value(Op::Rla, e.v)
            &&& after.m == e.m.set(e.m.cpu.after_modifying(Op::Rla, e.v))
        }),
{
    reveal_with_fuel(code::run_code, 9);
    reveal(Cpu::new_value);
    reveal(Cpu::after_modifying);
    shifts_in_numbers(e.v);
    shifts_in_numbers(e.m.cpu.new_value(Op::Rla, e.v));
    shifts_in_numbers(e.m.cpu.after_modifying(Op::Rla, e.v).a);
}

#[verifier::rlimit(50)]
proof fn lemma_changes_sre<M: Memory>(e: Env<M>)
    ensures
        ({
            let after = code::run_code(code::modify_code(Op::Sre), e);
            &&& after.v == e.m.cpu.new_value(Op::Sre, e.v)
            &&& after.m == e.m.set(e.m.cpu.after_modifying(Op::Sre, e.v))
        }),
{
    reveal_with_fuel(code::run_code, 9);
    reveal(Cpu::new_value);
    reveal(Cpu::after_modifying);
    shifts_in_numbers(e.v);
    shifts_in_numbers(e.m.cpu.new_value(Op::Sre, e.v));
    shifts_in_numbers(e.m.cpu.after_modifying(Op::Sre, e.v).a);
}

#[verifier::rlimit(50)]
proof fn lemma_changes_rra<M: Memory>(e: Env<M>)
    ensures
        ({
            let after = code::run_code(code::modify_code(Op::Rra), e);
            &&& after.v == e.m.cpu.new_value(Op::Rra, e.v)
            &&& after.m == e.m.set(e.m.cpu.after_modifying(Op::Rra, e.v))
        }),
{
    reveal_with_fuel(code::run_code, 9);
    reveal(Step::call);
    reveal(Cpu::new_value);
    reveal(Cpu::after_modifying);
    shifts_in_numbers(e.v);
    shifts_in_numbers(e.m.cpu.new_value(Op::Rra, e.v));
    shifts_in_numbers(e.m.cpu.after_modifying(Op::Rra, e.v).a);
}

/// Code that changes a value leaves the value and the processor as the operation does, and
/// memory alone.
#[verifier::rlimit(50)]
pub proof fn modify_code_runs<M: Memory>(op: Op, e: Env<M>)
    requires
        instr::class_of(op) == Class::Modify,
    ensures
        ({
            let after = code::run_code(code::modify_code(op), e);
            &&& after.v == e.m.cpu.new_value(op, e.v)
            &&& after.m == e.m.set(e.m.cpu.after_modifying(op, e.v))
        }),
{
    match op {
        Op::Asl => lemma_changes_asl(e),
        Op::Lsr => lemma_changes_lsr(e),
        Op::Rol => lemma_changes_rol(e),
        Op::Ror => lemma_changes_ror(e),
        Op::Inc => lemma_changes_inc(e),
        Op::Dec => lemma_changes_dec(e),
        Op::Dcp => lemma_changes_dcp(e),
        Op::Isb => lemma_changes_isb(e),
        Op::Slo => lemma_changes_slo(e),
        Op::Rla => lemma_changes_rla(e),
        Op::Sre => lemma_changes_sre(e),
        Op::Rra => lemma_changes_rra(e),
        _ => {},
    }
}

} // verus!
