//! What each operation of the processor makes of its operand, bit by bit and in numbers.

use vstd::prelude::*;
use crate::bits;
use crate::cpu::Cpu;
use crate::instr::Op;

verus! {

/// The zero and negative flags describe a result.
pub open spec fn describes(cpu: Cpu, result: u8) -> bool {
    &&& cpu.z <==> result == 0
    &&& cpu.n <==> bits::bit8(result, 7)
}

/// Only the accumulator and the zero and negative flags may differ.
pub open spec fn same_but_a(before: Cpu, after: Cpu) -> bool {
    after == (Cpu { a: after.a, z: after.z, n: after.n, ..before })
}

/// Only the flags N, V, Z and C may differ.
pub open spec fn same_but_flags(before: Cpu, after: Cpu) -> bool {
    after == (Cpu { n: after.n, v: after.v, z: after.z, c: after.c, ..before })
}

/// A byte as a two's complement number.
pub open spec fn value_of(b: u8) -> int {
    if bits::bit8(b, 7) {
        b - 256
    } else {
        b as int
    }
}

/// `AND`, `ORA` and `EOR` work bit by bit: a bit of the result is set if it is set in both,
/// in either, in exactly one of the accumulator and the operand.
pub proof fn logic_is_bitwise(cpu: Cpu, v: u8, k: int)
    requires
        0 <= k < 8,
    ensures
        bits::bit8(cpu.after_reading(Op::And, v).a, k) <==> bits::bit8(cpu.a, k) && bits::bit8(
            v,
            k,
        ),
        bits::bit8(cpu.after_reading(Op::Ora, v).a, k) <==> bits::bit8(cpu.a, k) || bits::bit8(
            v,
            k,
        ),
        bits::bit8(cpu.after_reading(Op::Eor, v).a, k) <==> bits::bit8(cpu.a, k) != bits::bit8(
            v,
            k,
        ),
{
    reveal(Cpu::after_reading);
    bits::bitwise_operators(cpu.a, v);
}

/// `EOR` twice with one operand gives the accumulator back, `EOR` with all bits set
/// complements it, and `AND` and `ORA` split the sum between them.
pub proof fn logic_relations(cpu: Cpu, v: u8)
    ensures
        cpu.after_reading(Op::Eor, v).after_reading(Op::Eor, v).a == cpu.a,
        cpu.after_reading(Op::Eor, 0xFF).a == 255 - cpu.a,
        cpu.after_reading(Op::Eor, cpu.a).a == 0,
        cpu.after_reading(Op::And, v).a + cpu.after_reading(Op::Ora, v).a == cpu.a + v,
        cpu.after_reading(Op::Eor, v).a + 2 * cpu.after_reading(Op::And, v).a == cpu.a + v,
{
    reveal(Cpu::after_reading);
    bits::bitwise_operators(cpu.a, v);
    bits::bitwise_operators(cpu.a, 0xFF);
    bits::bitwise_operators(cpu.a, cpu.a);
    assert(cpu.a & cpu.a == cpu.a) by {
        bits::bits_make_a_byte(cpu.a & cpu.a, cpu.a);
    }
}

/// The logic operations and the loads flag what they leave, and touch nothing else.
pub proof fn results_are_flagged(cpu: Cpu, op: Op, v: u8)
    requires
        op == Op::And || op == Op::Ora || op == Op::Eor || op == Op::Lda,
    ensures
        describes(cpu.after_reading(op, v), cpu.after_reading(op, v).a),
        same_but_a(cpu, cpu.after_reading(op, v)),
{
    reveal(Cpu::after_reading);
}

/// A load leaves the operand in its register, whatever was there, and flags it.
pub proof fn loads_keep_the_operand(cpu: Cpu, v: u8)
    ensures
        cpu.after_reading(Op::Lda, v).a == v,
        cpu.after_reading(Op::Ldx, v).x == v,
        cpu.after_reading(Op::Ldy, v).y == v,
        describes(cpu.after_reading(Op::Ldx, v), v),
        describes(cpu.after_reading(Op::Ldy, v), v),
        ({
            let x = cpu.after_reading(Op::Ldx, v);
            x == (Cpu { x: x.x, z: x.z, n: x.n, ..cpu })
        }),
        ({
            let y = cpu.after_reading(Op::Ldy, v);
            y == (Cpu { y: y.y, z: y.z, n: y.n, ..cpu })
        }),
        cpu.after_reading(Op::Lax, v) == cpu.after_reading(Op::Lda, v).after_reading(Op::Ldx, v),
{
    reveal(Cpu::after_reading);
}

/// `ADC` adds as whole numbers with the carry as ninth bit. As two's complement numbers the
/// sum is exact unless the overflow flag is raised, and then it is 256 off.
#[verifier::rlimit(50)]
pub proof fn addition_counts(cpu: Cpu, v: u8)
    ensures
        ({
            let sum = cpu.after_reading(Op::Adc, v);
            let carry: int = if cpu.c {
                1
            } else {
                0
            };
            &&& sum.a + (if sum.c {
                256int
            } else {
                0
            }) == cpu.a + v + carry
            &&& !sum.v <==> value_of(sum.a) == value_of(cpu.a) + value_of(v) + carry
            &&& describes(sum, sum.a)
            &&& sum == (Cpu { a: sum.a, n: sum.n, v: sum.v, z: sum.z, c: sum.c, ..cpu })
        }),
{
    reveal(Cpu::after_reading);
    reveal(Cpu::added);
}

/// `SBC` subtracts the operand and the borrow, which is a clear carry; a carry left set
/// says that nothing was borrowed.
#[verifier::rlimit(50)]
pub proof fn subtraction_counts(cpu: Cpu, v: u8)
    ensures
        ({
            let rest = cpu.after_reading(Op::Sbc, v);
            let borrow: int = if cpu.c {
                0
            } else {
                1
            };
            &&& rest.a - (if rest.c {
                0int
            } else {
                256
            }) == cpu.a - v - borrow
            &&& !rest.v <==> value_of(rest.a) == value_of(cpu.a) - value_of(v) - borrow
            &&& describes(rest, rest.a)
            &&& rest == (Cpu { a: rest.a, n: rest.n, v: rest.v, z: rest.z, c: rest.c, ..cpu })
        }),
{
    reveal(Cpu::after_reading);
    reveal(Cpu::added);
}

/// A comparison changes flags alone, and the branches behind it decide: equal or not,
/// below or not. Below means that the difference borrows.
#[verifier::rlimit(50)]
pub proof fn comparisons_steer_branches(cpu: Cpu, v: u8)
    ensures
        ({
            let a = cpu.after_reading(Op::Cpa, v);
            let x = cpu.after_reading(Op::Cpx, v);
            let y = cpu.after_reading(Op::Cpy, v);
            &&& a.branches(Op::Beq) <==> cpu.a == v
            &&& a.branches(Op::Bne) <==> cpu.a != v
            &&& a.branches(Op::Bcs) <==> cpu.a >= v
            &&& a.branches(Op::Bcc) <==> cpu.a < v
            &&& x.branches(Op::Beq) <==> cpu.x == v
            &&& x.branches(Op::Bne) <==> cpu.x != v
            &&& x.branches(Op::Bcs) <==> cpu.x >= v
            &&& x.branches(Op::Bcc) <==> cpu.x < v
            &&& y.branches(Op::Beq) <==> cpu.y == v
            &&& y.branches(Op::Bne) <==> cpu.y != v
            &&& y.branches(Op::Bcs) <==> cpu.y >= v
            &&& y.branches(Op::Bcc) <==> cpu.y < v
            &&& a.branches(Op::Bmi) <==> (cpu.a - v) % 256 >= 128
            &&& x.branches(Op::Bmi) <==> (cpu.x - v) % 256 >= 128
            &&& y.branches(Op::Bmi) <==> (cpu.y - v) % 256 >= 128
            &&& same_but_flags(cpu, a) && a.v == cpu.v
            &&& same_but_flags(cpu, x) && x.v == cpu.v
            &&& same_but_flags(cpu, y) && y.v == cpu.v
        }),
{
    reveal(Cpu::after_reading);
}

/// Branches come in pairs that exclude each other: on plus and minus, on overflow clear and
/// set, on carry clear and set, on not equal and equal.
pub proof fn branches_come_in_pairs(cpu: Cpu)
    ensures
        cpu.branches(Op::Bpl) != cpu.branches(Op::Bmi),
        cpu.branches(Op::Bvc) != cpu.branches(Op::Bvs),
        cpu.branches(Op::Bcc) != cpu.branches(Op::Bcs),
        cpu.branches(Op::Bne) != cpu.branches(Op::Beq),
{
}

/// After a load the sign and the zero of the operand decide the branches, after a sum its
/// carry and its overflow.
#[verifier::rlimit(50)]
pub proof fn results_steer_branches(cpu: Cpu, v: u8)
    ensures
        cpu.after_reading(Op::Lda, v).branches(Op::Bmi) <==> v >= 128,
        cpu.after_reading(Op::Lda, v).branches(Op::Bpl) <==> v < 128,
        cpu.after_reading(Op::Lda, v).branches(Op::Beq) <==> v == 0,
        ({
            let carry: int = if cpu.c {
                1
            } else {
                0
            };
            let sum = cpu.after_reading(Op::Adc, v);
            let exact = value_of(cpu.a) + value_of(v) + carry;
            &&& sum.branches(Op::Bcs) <==> cpu.a + v + carry > 255
            &&& sum.branches(Op::Bvs) <==> exact < -128 || exact > 127
            &&& sum.branches(Op::Bvc) <==> -128 <= exact <= 127
        }),
{
    reveal(Cpu::after_reading);
    reveal(Cpu::added);
    assert(bits::bit8(cpu.a, 7) <==> cpu.a >= 128);
    assert(bits::bit8(v, 7) <==> v >= 128);
}

/// `BIT` tells whether the accumulator and the operand share a set bit, and copies the two
/// highest bits of the operand to N and V.
#[verifier::rlimit(50)]
pub proof fn bit_test(cpu: Cpu, v: u8)
    ensures
        ({
            let after = cpu.after_reading(Op::Bit, v);
            &&& after.n <==> bits::bit8(v, 7)
            &&& after.v <==> bits::bit8(v, 6)
            &&& after.z <==> (forall|k: int|
                0 <= k < 8 ==> !(#[trigger] bits::bit8(cpu.a, k) && bits::bit8(v, k)))
            &&& same_but_flags(cpu, after) && after.c == cpu.c
        }),
{
    reveal(Cpu::after_reading);
    bits::bitwise_operators(cpu.a, v);
    let both = cpu.a & v;
    assert(both == 0 <==> (forall|k: int|
        0 <= k < 8 ==> !(#[trigger] bits::bit8(cpu.a, k) && bits::bit8(v, k)))) by {
        assert(forall|k: int| 0 <= k < 8 ==> !#[trigger] bits::bit8(0u8, k));
        if both == 0 {
            assert forall|k: int| 0 <= k < 8 implies !(#[trigger] bits::bit8(cpu.a, k)
                && bits::bit8(v, k)) by {
                assert(!bits::bit8(both, k));
            }
        }
        if forall|k: int| 0 <= k < 8 ==> !(#[trigger] bits::bit8(cpu.a, k) && bits::bit8(v, k)) {
            assert forall|k: int| 0 <= k < 8 implies #[trigger] bits::bit8(both, k) == bits::bit8(
                0u8,
                k,
            ) by {
                assert(bits::bit8(cpu.a, k) == bits::bit8(cpu.a, k));
            }
            bits::bits_make_a_byte(both, 0);
        }
    }
    assert(bits::bit8(v, 7) <==> v >= 128);
}

/// A store writes its register; the joint store writes the bits set in both A and X.
pub proof fn stores_write_registers(cpu: Cpu, k: int)
    requires
        0 <= k < 8,
    ensures
        cpu.stored(Op::Sta) == cpu.a,
        cpu.stored(Op::Stx) == cpu.x,
        cpu.stored(Op::Sty) == cpu.y,
        bits::bit8(cpu.stored(Op::Sax), k) <==> bits::bit8(cpu.a, k) && bits::bit8(cpu.x, k),
{
    bits::bitwise_operators(cpu.a, cpu.x);
}

/// A halved byte has its bits one place lower.
#[verifier::rlimit(50)]
proof fn lemma_halved(v: u8, r: u8, carry: bool, k: int)
    requires
        0 <= k < 8,
        r == v / 2 + (if carry {
            128int
        } else {
            0
        }),
    ensures
        bits::bit8(r, k) <==> if k < 7 {
            bits::bit8(v, k + 1)
        } else {
            carry
        },
{
    bits::bit_weights(v);
    bits::bit_weights(r);
    if k == 0 {
    } else if k == 1 {
    } else if k == 2 {
    } else if k == 3 {
    } else if k == 4 {
    } else if k == 5 {
    } else if k == 6 {
    } else {
        assert(k == 7);
    }
}

/// A doubled byte has its bits one place higher.
proof fn lemma_doubled(v: u8, r: u8, carry: bool, k: int)
    requires
        0 <= k < 8,
        r == 2 * v % 256 + (if carry {
            1int
        } else {
            0
        }),
    ensures
        bits::bit8(r, k) <==> if k > 0 {
            bits::bit8(v, k - 1)
        } else {
            carry
        },
{
    if k > 0 {
        lemma_halved(r, v, v >= 128, k - 1);
    } else {
        assert(r % 2 == 1 <==> carry);
    }
}

/// Shifts move every bit by one place: the bit that leaves goes to the carry, and a rotation
/// brings the old carry in at the other end.
#[verifier::rlimit(50)]
pub proof fn shifts_move_bits(cpu: Cpu, v: u8, k: int)
    requires
        0 <= k < 8,
    ensures
        bits::bit8(cpu.new_value(Op::Asl, v), k) <==> k > 0 && bits::bit8(v, k - 1),
        bits::bit8(cpu.new_value(Op::Rol, v), k) <==> if k > 0 {
            bits::bit8(v, k - 1)
        } else {
            cpu.c
        },
        bits::bit8(cpu.new_value(Op::Lsr, v), k) <==> k < 7 && bits::bit8(v, k + 1),
        bits::bit8(cpu.new_value(Op::Ror, v), k) <==> if k < 7 {
            bits::bit8(v, k + 1)
        } else {
            cpu.c
        },
        cpu.after_modifying(Op::Asl, v).c <==> bits::bit8(v, 7),
        cpu.after_modifying(Op::Rol, v).c <==> bits::bit8(v, 7),
        cpu.after_modifying(Op::Lsr, v).c <==> bits::bit8(v, 0),
        cpu.after_modifying(Op::Ror, v).c <==> bits::bit8(v, 0),
{
    reveal(Cpu::new_value);
    reveal(Cpu::after_modifying);
    lemma_doubled(v, cpu.new_value(Op::Asl, v), false, k);
    lemma_doubled(v, cpu.new_value(Op::Rol, v), cpu.c, k);
    lemma_halved(v, cpu.new_value(Op::Lsr, v), false, k);
    lemma_halved(v, cpu.new_value(Op::Ror, v), cpu.c, k);
}

/// `INC` and `DEC` step by one around the byte and undo each other.
pub proof fn steps_undo_each_other(cpu: Cpu, v: u8)
    ensures
        cpu.new_value(Op::Inc, v) == (v + 1) % 256,
        cpu.new_value(Op::Dec, v) == (v - 1) % 256,
        cpu.new_value(Op::Dec, cpu.new_value(Op::Inc, v)) == v,
        cpu.new_value(Op::Inc, cpu.new_value(Op::Dec, v)) == v,
        cpu.after_modifying(Op::Inc, v).c == cpu.c,
        cpu.after_modifying(Op::Dec, v).c == cpu.c,
{
    reveal(Cpu::new_value);
    reveal(Cpu::after_modifying);
}

/// The operations on memory flag the byte that they write back, and leave the registers and
/// the overflow flag alone.
pub proof fn written_bytes_are_flagged(cpu: Cpu, op: Op, v: u8)
    requires
        op == Op::Asl || op == Op::Rol || op == Op::Lsr || op == Op::Ror || op == Op::Inc || op
            == Op::Dec,
    ensures
        describes(cpu.after_modifying(op, v), cpu.new_value(op, v)),
        same_but_flags(cpu, cpu.after_modifying(op, v)),
        cpu.after_modifying(op, v).v == cpu.v,
{
    reveal(Cpu::new_value);
    reveal(Cpu::after_modifying);
}

/// A joined operation is the operation on memory followed by the one on the accumulator,
/// with the byte just written as its operand.
#[verifier::rlimit(50)]
pub proof fn joined_operations(cpu: Cpu, v: u8)
    ensures
        cpu.new_value(Op::Slo, v) == cpu.new_value(Op::Asl, v),
        cpu.new_value(Op::Rla, v) == cpu.new_value(Op::Rol, v),
        cpu.new_value(Op::Sre, v) == cpu.new_value(Op::Lsr, v),
        cpu.new_value(Op::Rra, v) == cpu.new_value(Op::Ror, v),
        cpu.new_value(Op::Isb, v) == cpu.new_value(Op::Inc, v),
        cpu.new_value(Op::Dcp, v) == cpu.new_value(Op::Dec, v),
        cpu.after_modifying(Op::Slo, v) == cpu.after_modifying(Op::Asl, v).after_reading(
            Op::Ora,
            cpu.new_value(Op::Asl, v),
        ),
        cpu.after_modifying(Op::Rla, v) == cpu.after_modifying(Op::Rol, v).after_reading(
            Op::And,
            cpu.new_value(Op::Rol, v),
        ),
        cpu.after_modifying(Op::Sre, v) == cpu.after_modifying(Op::Lsr, v).after_reading(
            Op::Eor,
            cpu.new_value(Op::Lsr, v),
        ),
        cpu.after_modifying(Op::Rra, v) == cpu.after_modifying(Op::Ror, v).after_reading(
            Op::Adc,
            cpu.new_value(Op::Ror, v),
        ),
        cpu.after_modifying(Op::Isb, v) == cpu.after_modifying(Op::Inc, v).after_reading(
            Op::Sbc,
            cpu.new_value(Op::Inc, v),
        ),
        cpu.after_modifying(Op::Dcp, v) == cpu.after_modifying(Op::Dec, v).after_reading(
            Op::Cpa,
            cpu.new_value(Op::Dec, v),
        ),
{
    reveal(Cpu::new_value);
    reveal(Cpu::after_modifying);
    reveal(Cpu::after_reading);
    reveal(Cpu::added);
}

/// Shifting the accumulator is shifting a byte in memory, and keeping the result in A.
pub proof fn accumulator_shifts(cpu: Cpu)
    ensures
        cpu.after_register_op(Op::AslA) == (Cpu {
            a: cpu.new_value(Op::Asl, cpu.a),
            ..cpu.after_modifying(Op::Asl, cpu.a)
        }),
        cpu.after_register_op(Op::LsrA) == (Cpu {
            a: cpu.new_value(Op::Lsr, cpu.a),
            ..cpu.after_modifying(Op::Lsr, cpu.a)
        }),
        cpu.after_register_op(Op::RolA) == (Cpu {
            a: cpu.new_value(Op::Rol, cpu.a),
            ..cpu.after_modifying(Op::Rol, cpu.a)
        }),
        cpu.after_register_op(Op::RorA) == (Cpu {
            a: cpu.new_value(Op::Ror, cpu.a),
            ..cpu.after_modifying(Op::Ror, cpu.a)
        }),
{
    reveal(Cpu::new_value);
    reveal(Cpu::after_modifying);
    reveal(Cpu::after_register_op);
}

/// Transfers load one register with another, so there and back again changes nothing but
/// flags. The stack pointer is set without a look at the flags.
pub proof fn transfers_copy(cpu: Cpu)
    ensures
        cpu.after_register_op(Op::Tax) == cpu.after_reading(Op::Ldx, cpu.a),
        cpu.after_register_op(Op::Tay) == cpu.after_reading(Op::Ldy, cpu.a),
        cpu.after_register_op(Op::Txa) == cpu.after_reading(Op::Lda, cpu.x),
        cpu.after_register_op(Op::Tya) == cpu.after_reading(Op::Lda, cpu.y),
        cpu.after_register_op(Op::Tsx) == cpu.after_reading(Op::Ldx, cpu.sp),
        cpu.after_register_op(Op::Txs).sp == cpu.x,
        cpu.after_register_op(Op::Txs) == (Cpu {
            sp: cpu.after_register_op(Op::Txs).sp,
            ..cpu
        }),
{
    reveal(Cpu::after_reading);
    reveal(Cpu::after_register_op);
}

/// The steps of the index registers are `INC` and `DEC` on a register.
pub proof fn register_steps(cpu: Cpu)
    ensures
        cpu.after_register_op(Op::Inx) == cpu.after_reading(Op::Ldx, cpu.new_value(Op::Inc, cpu.x)),
        cpu.after_register_op(Op::Dex) == cpu.after_reading(Op::Ldx, cpu.new_value(Op::Dec, cpu.x)),
        cpu.after_register_op(Op::Iny) == cpu.after_reading(Op::Ldy, cpu.new_value(Op::Inc, cpu.y)),
        cpu.after_register_op(Op::Dey) == cpu.after_reading(Op::Ldy, cpu.new_value(Op::Dec, cpu.y)),
        cpu.after_register_op(Op::Nop) == cpu,
{
    reveal(Cpu::new_value);
    reveal(Cpu::after_reading);
    reveal(Cpu::after_register_op);
}

/// The status byte holds the flags by position: C, Z, I, D in bits 0 to 3, V and N in bits 6
/// and 7; bit 4 is clear and bit 5 set.
pub proof fn status_positions(cpu: Cpu)
    ensures
        ({
            let s = cpu.status_byte();
            &&& bits::bit8(s, 0) == cpu.c
            &&& bits::bit8(s, 1) == cpu.z
            &&& bits::bit8(s, 2) == cpu.i
            &&& bits::bit8(s, 3) == cpu.d
            &&& !bits::bit8(s, 4)
            &&& bits::bit8(s, 5)
            &&& bits::bit8(s, 6) == cpu.v
            &&& bits::bit8(s, 7) == cpu.n
        }),
{
    bits::bit_weights(cpu.status_byte());
}

/// Each flag operation moves one bit of the status byte: to clear and to set a flag differ
/// by its weight, and nothing else changes.
#[verifier::rlimit(50)]
pub proof fn flag_operations(cpu: Cpu)
    ensures
        ({
            let clear = cpu.after_register_op(Op::Clc);
            let set = cpu.after_register_op(Op::Sec);
            &&& set.status_byte() - clear.status_byte() == 1
            &&& cpu.c ==> set == cpu
            &&& !cpu.c ==> clear == cpu
        }),
        ({
            let clear = cpu.after_register_op(Op::Cli);
            let set = cpu.after_register_op(Op::Sei);
            &&& set.status_byte() - clear.status_byte() == 4
            &&& cpu.i ==> set == cpu
            &&& !cpu.i ==> clear == cpu
        }),
        ({
            let clear = cpu.after_register_op(Op::Cld);
            let set = cpu.after_register_op(Op::Sed);
            &&& set.status_byte() - clear.status_byte() == 8
            &&& cpu.d ==> set == cpu
            &&& !cpu.d ==> clear == cpu
        }),
        cpu.v ==> cpu.status_byte() - cpu.after_register_op(Op::Clv).status_byte() == 64,
        !cpu.v ==> cpu.after_register_op(Op::Clv) == cpu,
        cpu.after_register_op(Op::Sec).branches(Op::Bcs),
        cpu.after_register_op(Op::Clc).branches(Op::Bcc),
        cpu.after_register_op(Op::Clv).branches(Op::Bvc),
        same_but_flags(cpu, cpu.after_register_op(Op::Clc)),
        same_but_flags(cpu, cpu.after_register_op(Op::Sec)),
        same_but_flags(cpu, cpu.after_register_op(Op::Clv)),
        cpu.after_register_op(Op::Sei) == (Cpu { i: true, ..cpu }),
        cpu.after_register_op(Op::Cli) == (Cpu { i: false, ..cpu }),
        cpu.after_register_op(Op::Sed) == (Cpu { d: true, ..cpu }),
        cpu.after_register_op(Op::Cld) == (Cpu { d: false, ..cpu }),
{
    reveal(Cpu::after_register_op);
}

} // verus!
