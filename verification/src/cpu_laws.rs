//! What holds of the processor on any bus whose page 1 is RAM.

use vstd::prelude::*;
use crate::bits;
use crate::bus;
use crate::contra;
use crate::cpu::Cpu;
use crate::machine::Machine;
use crate::memory::Memory;

verus! {

/// An address space with RAM in page 1, where the stack lives.
pub trait StackMemory: Memory {
    spec fn ready(self) -> bool;

    proof fn store_then_load(self, a: u16, val: u8, b: u16)
        requires
            self.ready(),
            0x100 <= a < 0x200,
            0x100 <= b < 0x200,
        ensures
            self.after_store(a, val).ready(),
            self.after_store(a, val).load(b) == (if a == b {
                val
            } else {
                self.load(b)
            }),
    ;

    proof fn load_keeps(self, a: u16, b: u16)
        requires
            self.ready(),
            0x100 <= b < 0x200,
        ensures
            self.after_load(a).ready(),
            self.after_load(a).load(b) == self.load(b),
    ;

    /// Program memory is read without effect and lies apart from the stack.
    proof fn program_stays(self, a: u16, val: u8, b: u16)
        requires
            self.ready(),
            0x100 <= a < 0x200,
            0x8000 <= b,
        ensures
            self.after_load(b) == self,
            self.after_store(a, val).load(b) == self.load(b),
    ;
}

impl StackMemory for bus::BusModel {
    open spec fn ready(self) -> bool {
        self.ram.len() == 2048
    }

    proof fn store_then_load(self, a: u16, val: u8, b: u16) {
        let after = Self { ram: self.ram.update(a as int, val), ..self };
        assert(a as int % 2048 == a && b as int % 2048 == b);
        assert(self.after_store(a, val) == after);
        assert(after.load(b) == after.ram[b as int]);
        assert(self.load(b) == self.ram[b as int]);
    }

    proof fn load_keeps(self, a: u16, b: u16) {
    }

    proof fn program_stays(self, a: u16, val: u8, b: u16) {
    }
}

impl StackMemory for contra::bus::BusModel {
    open spec fn ready(self) -> bool {
        self.ram.len() == 2048
    }

    proof fn store_then_load(self, a: u16, val: u8, b: u16) {
        let after = Self { ram: self.ram.update(a as int, val), ..self };
        assert(a as int % 2048 == a && b as int % 2048 == b);
        assert(self.after_store(a, val) == after);
        assert(after.load(b) == after.ram[b as int]);
        assert(self.load(b) == self.ram[b as int]);
    }

    proof fn load_keeps(self, a: u16, b: u16) {
    }

    proof fn program_stays(self, a: u16, val: u8, b: u16) {
    }
}

/// A pushed byte is the next one pulled, and pulling it restores the stack pointer.
pub proof fn push_then_pull<M: StackMemory>(m: Machine<M>, val: u8)
    requires
        m.mem.ready(),
    ensures
        m.pushed(val).mem.ready(),
        m.pushed(val).top() == val,
        m.pushed(val).pulled().cpu == m.cpu,
        m.pushed(val).pulled().mem.ready(),
{
    reveal(Machine::pushed);
    reveal(Machine::pulled);
    reveal(Machine::top);
    let a = (0x100 + m.cpu.sp) as u16;
    m.mem.store_then_load(a, val, a);
    m.pushed(val).mem.load_keeps(a, a);
    assert(m.cpu.sp.wrapping_sub(1).wrapping_add(1) == m.cpu.sp);
}

/// A pushed word is the next one pulled, and pulling it restores the stack pointer.
pub proof fn push_then_pull_word<M: StackMemory>(m: Machine<M>, val: u16)
    requires
        m.mem.ready(),
    ensures
        m.pushed_word(val).mem.ready(),
        m.pushed_word(val).top_word() == val,
        m.pushed_word(val).pulled_word().cpu == m.cpu,
        m.pushed_word(val).pulled_word().mem.ready(),
{
    reveal(Machine::pushed);
    reveal(Machine::pulled);
    reveal(Machine::top);
    reveal(Machine::pushed_word);
    reveal(Machine::pulled_word);
    reveal(Machine::top_word);
    bits::lemma_word_parts(val);
    let hi = bits::high(val);
    let lo = bits::low(val);
    let a = (0x100 + m.cpu.sp) as u16;
    let one = m.pushed(hi);
    let b = (0x100 + one.cpu.sp) as u16;
    let two = one.pushed(lo);
    m.mem.store_then_load(a, hi, a);
    one.mem.store_then_load(b, lo, b);
    one.mem.store_then_load(b, lo, a);
    two.mem.load_keeps(b, a);
    two.pulled().mem.load_keeps(a, a);
    assert(one.cpu.sp.wrapping_add(1) == m.cpu.sp);
    assert(two.cpu.sp.wrapping_add(1) == one.cpu.sp);
}

/// A call followed by a return resumes after the call, with the stack as it was.
pub proof fn call_then_return<M: StackMemory>(m: Machine<M>, addr: u16)
    requires
        m.mem.ready(),
    ensures
        m.called(addr).cpu.pc == addr,
        m.called(addr).returned().cpu == m.cpu,
{
    reveal(Machine::called);
    reveal(Machine::returned);
    let saved = m.pushed_word(m.cpu.pc.wrapping_sub(1));
    push_then_pull_word(m, m.cpu.pc.wrapping_sub(1));
    reveal(Machine::pulled);
    reveal(Machine::top);
    reveal(Machine::pulled_word);
    reveal(Machine::top_word);
    assert(m.called(addr).top_word() == saved.top_word());
    assert(m.called(addr).pulled_word().cpu == (Cpu { pc: addr, ..saved.pulled_word().cpu }));
    assert(m.cpu.pc.wrapping_sub(1).wrapping_add(1) == m.cpu.pc);
}

/// A call to a routine that returns at once, run as two instructions, resumes behind the
/// call after twelve cycles; registers, flags and stack pointer are as they were.
pub proof fn call_runs_and_returns<M: StackMemory>(m: Machine<M>)
    requires
        m.mem.ready(),
        0x8000 <= m.cpu.pc <= 0xFFFC,
        m.cpu.cycles <= u64::MAX - 12,
        m.next_byte() == 0x20,
        m.fetched().next_word() >= 0x8000,
        m.peek(m.fetched().next_word()) == 0x60,
    ensures
        m.ran().cpu.pc == m.fetched().next_word(),
        m.ran().ran().cpu == (Cpu {
            pc: (m.cpu.pc + 3) as u16,
            cycles: (m.cpu.cycles + 12) as u64,
            ..m.cpu
        }),
{
    reveal(Machine::executed);
    reveal(Machine::operand);
    reveal(Machine::operated);
    reveal(Machine::controlled);
    let pc = m.cpu.pc;
    let target = m.fetched().next_word();
    let sp = m.cpu.sp;
    m.mem.program_stays(0x100, 0, pc);
    m.mem.program_stays(0x100, 0, (pc + 1) as u16);
    m.mem.program_stays(0x100, 0, (pc + 2) as u16);
    let behind = m.set(Cpu { pc: (pc + 3) as u16, ..m.cpu });
    let inside = behind.called(target);
    call_then_return(behind, target);
    assert(m.fetched().fetched_word() == behind);
    let one = m.ran();
    assert(one == inside.set(inside.cpu.spent(6)));
    reveal(Machine::called);
    reveal(Machine::pushed_word);
    reveal(Machine::pushed);
    let last = (pc + 2) as u16;
    assert(behind.cpu.pc.wrapping_sub(1) == last);
    let a = (0x100 + sp) as u16;
    let b = (0x100 + sp.wrapping_sub(1)) as u16;
    let half = m.mem.after_store(a, bits::high(last));
    m.mem.store_then_load(a, bits::high(last), a);
    m.mem.program_stays(a, bits::high(last), target);
    half.store_then_load(b, bits::low(last), b);
    half.program_stays(b, bits::low(last), target);
    assert(inside.mem == half.after_store(b, bits::low(last)));
    inside.mem.program_stays(0x100, 0, target);
    assert(one.next_byte() == 0x60);
    let f = one.fetched();
    assert(f.mem == inside.mem);
    assert(one.ran() == f.returned().set(f.returned().cpu.spent(6)));
    reveal(Machine::returned);
    reveal(Machine::pulled);
    reveal(Machine::pulled_word);
    reveal(Machine::top);
    reveal(Machine::top_word);
    assert(f.top_word() == inside.top_word());
    assert(f.pulled_word().cpu == (Cpu {
        pc: f.cpu.pc,
        cycles: f.cpu.cycles,
        ..inside.pulled_word().cpu
    }));
}

/// The status byte holds all flags: restoring it restores them. Bit 5 reads as set and
/// bit 4 as clear, whatever was stored there.
pub proof fn status_round_trip(cpu: Cpu, other: Cpu, s: u8)
    ensures
        other.with_status(cpu.status_byte()) == (Cpu {
            c: cpu.c,
            z: cpu.z,
            i: cpu.i,
            d: cpu.d,
            v: cpu.v,
            n: cpu.n,
            ..other
        }),
        cpu.with_status(s).status_byte() == s - s / 16 % 4 * 16 + 32,
{
    lemma_flag_bits(cpu);
    assert(s - s / 16 % 4 * 16 + 32 == 32 + s % 2 + s / 2 % 2 * 2 + s / 4 % 2 * 4 + s / 8 % 2 * 8 + s
        / 64 % 2 * 64 + s / 128 % 2 * 128) by (bit_vector);
}

/// Each flag has its bit.
proof fn lemma_flag_bits(cpu: Cpu)
    ensures
        bits::bit8(cpu.status_byte(), 0) == cpu.c,
        bits::bit8(cpu.status_byte(), 1) == cpu.z,
        bits::bit8(cpu.status_byte(), 2) == cpu.i,
        bits::bit8(cpu.status_byte(), 3) == cpu.d,
        bits::bit8(cpu.status_byte(), 6) == cpu.v,
        bits::bit8(cpu.status_byte(), 7) == cpu.n,
{
    let c: int = if cpu.c { 1 } else { 0 };
    let z: int = if cpu.z { 1 } else { 0 };
    let i: int = if cpu.i { 1 } else { 0 };
    let d: int = if cpu.d { 1 } else { 0 };
    let v: int = if cpu.v { 1 } else { 0 };
    let n: int = if cpu.n { 1 } else { 0 };
    let b = cpu.status_byte() as int;
    assert(b == 32 + c + 2 * z + 4 * i + 8 * d + 64 * v + 128 * n);
    assert(b % 2 == c && b / 2 == 16 + z + 2 * i + 4 * d + 32 * v + 64 * n);
    assert(b / 2 % 2 == z && b / 4 == 8 + i + 2 * d + 16 * v + 32 * n);
    assert(b / 4 % 2 == i && b / 8 == 4 + d + 8 * v + 16 * n);
    assert(b / 8 % 2 == d && b / 64 == v + 2 * n);
    assert(b / 64 % 2 == v && b / 128 == n);
}

/// An interrupt followed by a return from it resumes where the processor was
/// interrupted, with all registers and flags; only time has passed.
pub proof fn interrupt_then_return<M: StackMemory>(m: Machine<M>, vector: u16)
    requires
        m.mem.ready(),
        m.cpu.cycles + 7 <= u64::MAX,
    ensures
        ({
            let taken = m.interrupted(m.cpu.status_byte(), vector);
            &&& taken.cpu.i
            &&& taken.interrupt_returned().cpu == m.cpu.spent(7)
        }),
{
    reveal(Machine::interrupted);
    reveal(Machine::interrupt_returned);
    reveal(Machine::status_pulled);
    reveal(Machine::pushed);
    reveal(Machine::pulled);
    reveal(Machine::top);
    reveal(Machine::pushed_word);
    reveal(Machine::pulled_word);
    reveal(Machine::top_word);
    reveal(Machine::read_word);
    let s = m.cpu.status_byte();
    let pc = m.cpu.pc;
    bits::lemma_word_parts(pc);
    status_round_trip(m.cpu, m.cpu, s);
    let a = (0x100 + m.cpu.sp) as u16;
    let one = m.pushed(bits::high(pc));
    let b = (0x100 + one.cpu.sp) as u16;
    let two = one.pushed(bits::low(pc));
    let c = (0x100 + two.cpu.sp) as u16;
    let three = two.pushed(s);
    assert(one.cpu.sp.wrapping_add(1) == m.cpu.sp);
    assert(two.cpu.sp.wrapping_add(1) == one.cpu.sp);
    assert(three.cpu.sp.wrapping_add(1) == two.cpu.sp);
    m.mem.store_then_load(a, bits::high(pc), a);
    one.mem.store_then_load(b, bits::low(pc), b);
    one.mem.store_then_load(b, bits::low(pc), a);
    two.mem.store_then_load(c, s, c);
    two.mem.store_then_load(c, s, b);
    two.mem.store_then_load(c, s, a);
    let first = three.mem.after_load(vector);
    let last = first.after_load(vector.wrapping_add(1));
    three.mem.load_keeps(vector, a);
    three.mem.load_keeps(vector, b);
    three.mem.load_keeps(vector, c);
    first.load_keeps(vector.wrapping_add(1), a);
    first.load_keeps(vector.wrapping_add(1), b);
    first.load_keeps(vector.wrapping_add(1), c);
    last.load_keeps(c, b);
    last.load_keeps(c, a);
    last.after_load(c).load_keeps(b, a);
    assert(m.interrupted(s, vector).mem == last);
}

/// Addition: result and carry together are the exact sum.
pub proof fn addition_is_exact(cpu: Cpu, val: u8)
    ensures
        cpu.added(val).a + 256 * cpu.added(val).carry() == cpu.a + val + cpu.carry(),
        cpu.added(val).z == (cpu.added(val).a == 0),
        cpu.added(val).n == (cpu.added(val).a >= 128),
{
    reveal(Cpu::added);
}

/// Subtraction: the result is the difference modulo 256, and the carry stays set
/// exactly if nothing was borrowed.
pub proof fn subtraction_borrows(cpu: Cpu, val: u8)
    ensures
        ({
            let exact = cpu.a - val - (1 - cpu.carry());
            &&& cpu.subtracted(val).a == exact % 256
            &&& cpu.subtracted(val).c == (exact >= 0)
        }),
{
    reveal(Cpu::added);
}

/// Subtracting what was added gives the accumulator back.
pub proof fn subtraction_undoes_addition(cpu: Cpu, val: u8)
    requires
        !cpu.c,
    ensures
        ({
            let sum = cpu.added(val);
            (Cpu { c: true, ..sum }).subtracted(val).a == cpu.a
        }),
{
    reveal(Cpu::added);
}

/// A comparison orders two bytes and changes no register.
pub proof fn comparison_orders(cpu: Cpu, reg: u8, val: u8)
    ensures
        cpu.compared(reg, val).c == (reg >= val),
        cpu.compared(reg, val).z == (reg == val),
        cpu.compared(reg, val).a == cpu.a,
        cpu.compared(reg, val).x == cpu.x,
        cpu.compared(reg, val).y == cpu.y,
{
}

/// Rotating left and then right restores the value and the carry.
pub proof fn rotations_undo_each_other(cpu: Cpu, val: u8)
    ensures
        ({
            let left = cpu.rotated_left(val);
            let after = Cpu { c: val >= 128, ..cpu };
            after.rotated_right(left) == val && (left % 2 == 1) == cpu.c
        }),
{
}

} // verus!
