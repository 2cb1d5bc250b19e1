//! How opcodes are built: the bit fields that choose the operation and the addressing mode,
//! and what an instruction costs.

use vstd::prelude::*;
use crate::instr;
use crate::instr::{Class, Mode, Op};

verus! {

/// The opcode `rrrcccgg`: a row of three bits, a column of three bits, a group of two.
pub open spec fn opcode(row: int, column: int, group: int) -> u8 {
    (row * 32 + column * 4 + group) as u8
}

/// A field of three bits.
pub open spec fn is_field(n: int) -> bool {
    0 <= n < 8
}

/// The operations on the accumulator, by row.
pub open spec fn accumulator_op(row: int) -> Op {
    if row < 4 {
        if row == 0 {
            Op::Ora
        } else if row == 1 {
            Op::And
        } else if row == 2 {
            Op::Eor
        } else {
            Op::Adc
        }
    } else if row == 4 {
        Op::Sta
    } else if row == 5 {
        Op::Lda
    } else if row == 6 {
        Op::Cpa
    } else {
        Op::Sbc
    }
}

/// The operations on memory and on X, by row.
pub open spec fn memory_op(row: int) -> Op {
    if row < 4 {
        if row == 0 {
            Op::Asl
        } else if row == 1 {
            Op::Rol
        } else if row == 2 {
            Op::Lsr
        } else {
            Op::Ror
        }
    } else if row == 4 {
        Op::Stx
    } else if row == 5 {
        Op::Ldx
    } else if row == 6 {
        Op::Dec
    } else {
        Op::Inc
    }
}

/// The operations that join one on memory with one on the accumulator, by row.
pub open spec fn joined_op(row: int) -> Op {
    if row < 4 {
        if row == 0 {
            Op::Slo
        } else if row == 1 {
            Op::Rla
        } else if row == 2 {
            Op::Sre
        } else {
            Op::Rra
        }
    } else if row == 4 {
        Op::Sax
    } else if row == 5 {
        Op::Lax
    } else if row == 6 {
        Op::Dcp
    } else {
        Op::Isb
    }
}

/// The columns with one index register, where `wide` says that the operand is a word.
pub open spec fn indexed_mode(wide: bool, by_y: bool) -> Mode {
    if wide && by_y {
        Mode::AbsoluteY
    } else if wide {
        Mode::AbsoluteX
    } else if by_y {
        Mode::ZeroPageY
    } else {
        Mode::ZeroPageX
    }
}

/// Group 1: the row names the operation on the accumulator, the column the mode. A store
/// has no immediate form.
#[verifier::rlimit(50)]
pub proof fn accumulator_opcodes(row: int, column: int)
    requires
        is_field(row),
        is_field(column),
        !(row == 4 && column == 2),
    ensures
        ({
            let i = instr::instr_of(opcode(row, column, 1));
            &&& i.op == accumulator_op(row)
            &&& column == 0 ==> i.mode == Mode::IndirectX
            &&& column == 1 ==> i.mode == Mode::ZeroPage
            &&& column == 2 ==> i.mode == Mode::Immediate
            &&& column == 3 ==> i.mode == Mode::Absolute
            &&& column == 4 ==> i.mode == Mode::IndirectY
            &&& column == 5 ==> i.mode == Mode::ZeroPageX
            &&& column == 6 ==> i.mode == Mode::AbsoluteY
            &&& column == 7 ==> i.mode == Mode::AbsoluteX
        }),
{
}

/// Group 2: the row names the operation on memory. The odd columns are zero page, absolute
/// and their indexed forms; loads and stores of X are indexed by Y.
#[verifier::rlimit(50)]
pub proof fn memory_opcodes(row: int, column: int)
    requires
        is_field(row),
        is_field(column),
        column % 2 == 1,
        !(row == 4 && column == 7),
    ensures
        ({
            let i = instr::instr_of(opcode(row, column, 2));
            &&& i.op == memory_op(row)
            &&& column == 1 ==> i.mode == Mode::ZeroPage
            &&& column == 3 ==> i.mode == Mode::Absolute
            &&& column >= 5 ==> i.mode == indexed_mode(column == 7, row == 4 || row == 5)
        }),
{
}

/// Group 3 joins the operations of groups 1 and 2 of the same row; it has no immediate form
/// of its own. The store and the load of both registers are indexed by Y.
#[verifier::rlimit(50)]
pub proof fn joined_opcodes(row: int, column: int)
    requires
        is_field(row),
        is_field(column),
        column != 2,
        row == 4 ==> column != 4 && column != 6 && column != 7,
        row == 5 ==> column != 6,
    ensures
        ({
            let i = instr::instr_of(opcode(row, column, 3));
            &&& i.op == joined_op(row)
            &&& column == 0 ==> i.mode == Mode::IndirectX
            &&& column == 1 ==> i.mode == Mode::ZeroPage
            &&& column == 3 ==> i.mode == Mode::Absolute
            &&& column == 4 ==> i.mode == Mode::IndirectY
            &&& column == 5 ==> i.mode == indexed_mode(false, row == 4 || row == 5)
            &&& column == 6 ==> i.mode == Mode::AbsoluteY
            &&& column == 7 ==> i.mode == indexed_mode(true, row == 5)
        }),
{
}

/// The opcodes with one byte: shifts of the accumulator, transfers, steps of an index
/// register, flags and the stack.
#[verifier::rlimit(50)]
pub proof fn one_byte_opcodes(row: int)
    requires
        is_field(row),
    ensures
        ({
            let low = instr::instr_of(opcode(row, 2, 0));
            let high = instr::instr_of(opcode(row, 6, 0));
            let shift = instr::instr_of(opcode(row, 2, 2));
            let last = instr::instr_of(opcode(row, 6, 2));
            &&& low.op == seq![
                Op::Php,
                Op::Plp,
                Op::Pha,
                Op::Pla,
                Op::Dey,
                Op::Tay,
                Op::Iny,
                Op::Inx,
            ][row]
            &&& high.op == seq![
                Op::Clc,
                Op::Sec,
                Op::Cli,
                Op::Sei,
                Op::Tya,
                Op::Clv,
                Op::Cld,
                Op::Sed,
            ][row]
            &&& shift.op == seq![
                Op::AslA,
                Op::RolA,
                Op::LsrA,
                Op::RorA,
                Op::Txa,
                Op::Tax,
                Op::Dex,
                Op::Nop,
            ][row]
            &&& last.op == (if row == 4 {
                Op::Txs
            } else if row == 5 {
                Op::Tsx
            } else {
                Op::Nop
            })
            &&& low.mode == Mode::Implied && high.mode == Mode::Implied
            &&& shift.mode == Mode::Implied && last.mode == Mode::Implied
        }),
{
}

/// The branches: the upper two bits of the row name the flag (N, V, C, Z), the lowest
/// says whether the branch is taken on a set flag.
pub proof fn branch_opcodes(row: int)
    requires
        is_field(row),
    ensures
        ({
            let i = instr::instr_of(opcode(row, 4, 0));
            &&& i.mode == Mode::Relative
            &&& i.op == seq![
                Op::Bpl,
                Op::Bmi,
                Op::Bvc,
                Op::Bvs,
                Op::Bcc,
                Op::Bcs,
                Op::Bne,
                Op::Beq,
            ][row]
        }),
{
}

/// The rest of group 0: loads, stores and comparisons of the index registers, `BIT`, the
/// jumps, calls and returns.
pub proof fn index_opcodes(row: int, column: int)
    requires
        4 <= row < 8,
        0 <= column < 6,
        column == 0 ==> row != 4,
        column % 2 == 1 || column == 0,
        column == 5 ==> row < 6,
    ensures
        ({
            let i = instr::instr_of(opcode(row, column, 0));
            &&& row == 4 ==> i.op == Op::Sty
            &&& row == 5 ==> i.op == Op::Ldy
            &&& row == 6 ==> i.op == Op::Cpy
            &&& row == 7 ==> i.op == Op::Cpx
            &&& column == 0 ==> i.mode == Mode::Immediate
            &&& column == 1 ==> i.mode == Mode::ZeroPage
            &&& column == 3 ==> i.mode == Mode::Absolute
            &&& column == 5 ==> i.mode == Mode::ZeroPageX
        }),
{
}

/// The opcodes that fit no field.
pub proof fn single_opcodes()
    ensures
        instr::instr_of(0x00).op == Op::Brk && instr::instr_of(0x00).mode == Mode::Implied,
        instr::instr_of(0x20).op == Op::Jsr && instr::instr_of(0x20).mode == Mode::Absolute,
        instr::instr_of(0x40).op == Op::Rti && instr::instr_of(0x40).mode == Mode::Implied,
        instr::instr_of(0x60).op == Op::Rts && instr::instr_of(0x60).mode == Mode::Implied,
        instr::instr_of(0x4C).op == Op::Jmp && instr::instr_of(0x4C).mode == Mode::Absolute,
        instr::instr_of(0x6C).op == Op::JmpIndirect && instr::instr_of(0x6C).mode == Mode::Absolute,
        instr::instr_of(0x24).op == Op::Bit && instr::instr_of(0x24).mode == Mode::ZeroPage,
        instr::instr_of(0x2C).op == Op::Bit && instr::instr_of(0x2C).mode == Mode::Absolute,
        instr::instr_of(0xA2).op == Op::Ldx && instr::instr_of(0xA2).mode == Mode::Immediate,
        instr::instr_of(0xBC).op == Op::Ldy && instr::instr_of(0xBC).mode == Mode::AbsoluteX,
        instr::instr_of(0xEB) == instr::instr_of(0xE9),
{
}

/// The combinations of fields that name no operation.
#[verifier::rlimit(50)]
pub proof fn unclaimed_opcodes(row: int, column: int)
    requires
        is_field(row),
        is_field(column),
    ensures
        instr::instr_of(opcode(4, 2, 1)).op == Op::Nop,
        column == 4 || (column == 0 && row != 5) ==> instr::instr_of(opcode(row, column, 2)).op
            == Op::Nop,
        instr::instr_of(opcode(4, 7, 2)).op == Op::Nop,
        row != 7 ==> instr::instr_of(opcode(row, 2, 3)).op == Op::Nop,
        column == 4 || column == 6 || column == 7 ==> instr::instr_of(opcode(4, column, 3)).op
            == Op::Nop,
        instr::instr_of(opcode(5, 6, 3)).op == Op::Nop,
        instr::instr_of(opcode(4, 0, 0)).op == Op::Nop,
        column == 5 && (row < 4 || row > 5) ==> instr::instr_of(opcode(row, column, 0)).op
            == Op::Nop,
        column == 7 && row != 5 ==> instr::instr_of(opcode(row, column, 0)).op == Op::Nop,
        column == 1 && row < 4 && row != 1 ==> instr::instr_of(opcode(row, column, 0)).op
            == Op::Nop,
        instr::instr_of(opcode(0, 3, 0)).op == Op::Nop,
{
}

/// What no other opcode claims does nothing; of those, the ones in the columns of zero page
/// and immediate operands skip one byte, those in the columns of absolute operands two.
#[verifier::rlimit(50)]
pub proof fn idle_opcodes(code: u8)
    requires
        instr::instr_of(code).op == Op::Nop,
    ensures
        ({
            let column = code / 4 % 8;
            let i = instr::instr_of(code);
            &&& i.mode == Mode::Skip2 <==> (code % 4 == 0 && (column == 3 || column == 7) && code / 32 != 4)
            &&& i.mode == Mode::Skip1 <==> {
                ||| code % 4 == 0 && (column == 1 || column == 5)
                ||| code == 0x80
                ||| code == 0x82
                ||| code == 0x89
                ||| code == 0xC2
                ||| code == 0xE2
            }
            &&& i.mode == Mode::Implied || i.mode == Mode::Skip1 || i.mode == Mode::Skip2
            &&& i.cycles == (if i.mode == Mode::Skip2 || (code % 4 == 0 && column == 5) {
                4int
            } else if code % 4 == 0 && column == 1 {
                3
            } else {
                2
            })
        }),
{
}

/// The cycles to reach and read an operand.
pub open spec fn access_cycles(mode: Mode) -> int {
    match mode {
        Mode::Immediate => 2,
        Mode::ZeroPage => 3,
        Mode::ZeroPageX | Mode::ZeroPageY | Mode::Absolute => 4,
        Mode::AbsoluteX | Mode::AbsoluteY => 4,
        Mode::IndirectX => 6,
        Mode::IndirectY => 5,
        _ => 2,
    }
}

/// The address is a word moved by an index register.
pub open spec fn is_indexed_word(mode: Mode) -> bool {
    mode == Mode::AbsoluteX || mode == Mode::AbsoluteY || mode == Mode::IndirectY
}

/// What an instruction costs follows from how it touches memory: a store always pays for
/// the page that a read pays for only when it crosses it, and writing a changed operand
/// back takes two cycles more than that.
#[verifier::rlimit(50)]
pub proof fn cycles_follow_access(code: u8)
    ensures
        ({
            let i = instr::instr_of(code);
            let carried: int = if is_indexed_word(i.mode) {
                1
            } else {
                0
            };
            match instr::class_of(i.op) {
                Class::Read => i.cycles == access_cycles(i.mode),
                Class::Store => i.cycles == access_cycles(i.mode) + carried,
                Class::Modify => i.cycles == access_cycles(i.mode) + carried + 2,
                Class::Branch => i.cycles == 2,
                Class::Register => i.op != Op::Nop ==> i.cycles == 2,
                Class::Control => {
                    &&& i.op == Op::Jmp ==> i.cycles == 3
                    &&& i.op == Op::JmpIndirect ==> i.cycles == 5
                    &&& i.op == Op::Jsr || i.op == Op::Rts || i.op == Op::Rti ==> i.cycles == 6
                    &&& i.op == Op::Brk ==> i.cycles == 7
                    &&& i.op == Op::Pha || i.op == Op::Php ==> i.cycles == 3
                    &&& i.op == Op::Pla || i.op == Op::Plp ==> i.cycles == 4
                },
            }
        }),
{
}

/// How each operation touches memory.
pub proof fn classes(row: int)
    requires
        is_field(row),
    ensures
        instr::class_of(accumulator_op(row)) == (if row == 4 {
            Class::Store
        } else {
            Class::Read
        }),
        instr::class_of(memory_op(row)) == (if row == 4 {
            Class::Store
        } else if row == 5 {
            Class::Read
        } else {
            Class::Modify
        }),
        instr::class_of(joined_op(row)) == instr::class_of(memory_op(row)),
        instr::class_of(instr::instr_of(opcode(row, 4, 0)).op) == Class::Branch,
        instr::class_of(Op::Sty) == Class::Store,
        instr::class_of(Op::Ldy) == Class::Read,
        instr::class_of(Op::Cpx) == Class::Read,
        instr::class_of(Op::Cpy) == Class::Read,
        instr::class_of(Op::Bit) == Class::Read,
{
}

} // verus!
