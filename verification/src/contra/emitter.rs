//! Writes Rust code for the blocks that the disassembly found: one function per block, and
//! a dispatch by bank and address.
//!
//! The written code works on a `CpuState` named `s` and a `Bus` named `bus`. Operands in
//! RAM are reached directly, all others through the bus.

use vstd::prelude::*;
use crate::bits;
use crate::contra::recompiler;
use crate::contra::recompiler::{Block, BlockModel, Instruction};
use crate::contra::recompiler_laws;
use crate::cpu;
use crate::instr;
use crate::instr::{decode, Instr, Mode, Op};
use crate::machine;

verus! {

/// A hexadecimal digit.
pub open spec fn digit_text(n: int) -> Seq<char> {
    if n == 0 {
        "0"@
    } else if n == 1 {
        "1"@
    } else if n == 2 {
        "2"@
    } else if n == 3 {
        "3"@
    } else if n == 4 {
        "4"@
    } else if n == 5 {
        "5"@
    } else if n == 6 {
        "6"@
    } else if n == 7 {
        "7"@
    } else if n == 8 {
        "8"@
    } else if n == 9 {
        "9"@
    } else if n == 10 {
        "A"@
    } else if n == 11 {
        "B"@
    } else if n == 12 {
        "C"@
    } else if n == 13 {
        "D"@
    } else if n == 14 {
        "E"@
    } else {
        "F"@
    }
}

fn digit(n: u8) -> (text: &'static str)
    ensures
        text@ == digit_text(n as int),
{
    match n {
        0 => "0",
        1 => "1",
        2 => "2",
        3 => "3",
        4 => "4",
        5 => "5",
        6 => "6",
        7 => "7",
        8 => "8",
        9 => "9",
        10 => "A",
        11 => "B",
        12 => "C",
        13 => "D",
        14 => "E",
        _ => "F",
    }
}

/// A byte as two hexadecimal digits.
#[verifier::opaque]
pub open spec fn hex2(b: u8) -> Seq<char> {
    digit_text(b as int / 16) + digit_text(b as int % 16)
}

/// A word as four hexadecimal digits.
#[verifier::opaque]
pub open spec fn hex4(w: u16) -> Seq<char> {
    digit_text(w as int / 4096) + digit_text(w as int / 256 % 16) + digit_text(
        w as int / 16 % 16,
    ) + digit_text(w as int % 16)
}

/// A number in decimal.
pub open spec fn decimal(n: nat) -> Seq<char>
    decreases n,
{
    if n < 10 {
        digit_text(n as int)
    } else {
        decimal(n / 10) + digit_text((n % 10) as int)
    }
}

fn push_hex2(out: &mut String, b: u8)
    ensures
        final(out)@ == old(out)@ + hex2(b),
{
    proof {
        reveal(hex2);
    }
    out.append(digit(b / 16));
    out.append(digit(b % 16));
    assert(out@ =~= old(out)@ + hex2(b));
}

fn push_hex4(out: &mut String, w: u16)
    ensures
        final(out)@ == old(out)@ + hex4(w),
{
    proof {
        reveal(hex4);
    }
    out.append(digit((w / 4096) as u8));
    out.append(digit((w / 256 % 16) as u8));
    out.append(digit((w / 16 % 16) as u8));
    out.append(digit((w % 16) as u8));
    assert(out@ =~= old(out)@ + hex4(w));
}

fn push_decimal(out: &mut String, n: usize)
    ensures
        final(out)@ == old(out)@ + decimal(n as nat),
    decreases n,
{
    if n >= 10 {
        push_decimal(out, n / 10);
        out.append(digit((n % 10) as u8));
        assert(out@ =~= old(out)@ + decimal(n as nat));
    } else {
        out.append(digit(n as u8));
    }
}

/// The operand lies in RAM, whatever the registers hold.
pub open spec fn in_ram(mode: Mode, operand: (u8, u8)) -> bool {
    match mode {
        Mode::ZeroPage | Mode::ZeroPageX | Mode::ZeroPageY => true,
        Mode::Absolute => bits::word(operand.0, operand.1) < 0x0800,
        _ => false,
    }
}

fn is_in_ram(mode: Mode, operand: (u8, u8)) -> (yes: bool)
    ensures
        yes == in_ram(mode, operand),
{
    match mode {
        Mode::ZeroPage | Mode::ZeroPageX | Mode::ZeroPageY => true,
        Mode::Absolute => cpu::join(operand.0, operand.1) < 0x0800,
        _ => false,
    }
}

/// The index of an operand in RAM.
pub open spec fn index_text(mode: Mode, operand: (u8, u8)) -> Seq<char> {
    match mode {
        Mode::ZeroPageX => "(0x"@ + hex2(operand.0) + "u8).wrapping_add(s.x) as usize"@,
        Mode::ZeroPageY => "(0x"@ + hex2(operand.0) + "u8).wrapping_add(s.y) as usize"@,
        Mode::ZeroPage => "0x"@ + hex2(operand.0) + "usize"@,
        _ => "0x"@ + hex4(bits::word(operand.0, operand.1)) + "usize"@,
    }
}

fn gen_index(mode: Mode, operand: (u8, u8)) -> (text: String)
    ensures
        text@ == index_text(mode, operand),
{
    match mode {
        Mode::ZeroPageX => {
            let mut t: String = String::from_str("(0x");
            push_hex2(&mut t, operand.0);
            t.append("u8).wrapping_add(s.x) as usize");
            t
        },
        Mode::ZeroPageY => {
            let mut t: String = String::from_str("(0x");
            push_hex2(&mut t, operand.0);
            t.append("u8).wrapping_add(s.y) as usize");
            t
        },
        Mode::ZeroPage => {
            let mut t: String = String::from_str("0x");
            push_hex2(&mut t, operand.0);
            t.append("usize");
            t
        },
        _ => {
            let mut t: String = String::from_str("0x");
            push_hex4(&mut t, cpu::join(operand.0, operand.1));
            t.append("usize");
            t
        },
    }
}

/// The value of an operand in RAM.
pub open spec fn ram_text(mode: Mode, operand: (u8, u8)) -> Seq<char> {
    "unsafe { *bus.ram.get_unchecked("@ + index_text(mode, operand) + ") }"@
}

fn gen_ram(mode: Mode, operand: (u8, u8)) -> (text: String)
    ensures
        text@ == ram_text(mode, operand),
{
    let index: String = gen_index(mode, operand);
    let mut t: String = String::from_str("unsafe { *bus.ram.get_unchecked(");
    t.append(index.as_str());
    t.append(") }");
    t
}

/// Fetches a pointer at the operand plus X, as `lo` and `hi`.
pub open spec fn pointer_x_text(operand: (u8, u8)) -> Seq<char> {
    "{ let ptr = (0x"@ + hex2(operand.0)
        + "u8).wrapping_add(s.x); let lo = unsafe { *bus.ram.get_unchecked(ptr as usize) } as u16; let hi = unsafe { *bus.ram.get_unchecked(ptr.wrapping_add(1) as usize) } as u16; "@
}

/// Fetches a pointer at the operand, as `lo` and `hi`.
pub open spec fn pointer_text(operand: (u8, u8)) -> Seq<char> {
    "{ let lo = unsafe { *bus.ram.get_unchecked(0x"@ + hex2(operand.0) + "usize) } as u16; let hi = unsafe { *bus.ram.get_unchecked(0x"@ + hex2(
        operand.0.wrapping_add(1),
    ) + "usize) } as u16; "@
}

fn gen_pointer_x(operand: (u8, u8)) -> (text: String)
    ensures
        text@ == pointer_x_text(operand),
{
    let mut t: String = String::from_str("{ let ptr = (0x");
    push_hex2(&mut t, operand.0);
    t.append(
        "u8).wrapping_add(s.x); let lo = unsafe { *bus.ram.get_unchecked(ptr as usize) } as u16; let hi = unsafe { *bus.ram.get_unchecked(ptr.wrapping_add(1) as usize) } as u16; ",
    );
    t
}

fn gen_pointer(operand: (u8, u8)) -> (text: String)
    ensures
        text@ == pointer_text(operand),
{
    let mut t: String = String::from_str("{ let lo = unsafe { *bus.ram.get_unchecked(0x");
    push_hex2(&mut t, operand.0);
    t.append("usize) } as u16; let hi = unsafe { *bus.ram.get_unchecked(0x");
    push_hex2(&mut t, operand.0.wrapping_add(1));
    t.append("usize) } as u16; ");
    t
}

/// An expression for the value of an operand.
pub open spec fn value_text(mode: Mode, operand: (u8, u8)) -> Seq<char> {
    let word = bits::word(operand.0, operand.1);
    if in_ram(mode, operand) {
        ram_text(mode, operand)
    } else {
        match mode {
            Mode::Immediate => "0x"@ + hex2(operand.0) + "u8"@,
            Mode::Absolute => "bus.read(0x"@ + hex4(word) + ")"@,
            Mode::AbsoluteX => "bus.read(0x"@ + hex4(word) + "u16.wrapping_add(s.x as u16))"@,
            Mode::AbsoluteY => "bus.read(0x"@ + hex4(word) + "u16.wrapping_add(s.y as u16))"@,
            Mode::IndirectX => pointer_x_text(operand) + "bus.read(lo | (hi << 8)) }"@,
            Mode::IndirectY => pointer_text(operand)
                + "bus.read((lo | (hi << 8)).wrapping_add(s.y as u16)) }"@,
            _ => "0"@,
        }
    }
}

/// Writes an expression for the value of an operand.
pub fn gen_read_value(mode: Mode, operand: (u8, u8)) -> (text: String)
    ensures
        text@ == value_text(mode, operand),
{
    if is_in_ram(mode, operand) {
        return gen_ram(mode, operand);
    }
    let word: u16 = cpu::join(operand.0, operand.1);
    match mode {
        Mode::Immediate => {
            let mut t: String = String::from_str("0x");
            push_hex2(&mut t, operand.0);
            t.append("u8");
            t
        },
        Mode::Absolute => {
            let mut t: String = String::from_str("bus.read(0x");
            push_hex4(&mut t, word);
            t.append(")");
            t
        },
        Mode::AbsoluteX => {
            let mut t: String = String::from_str("bus.read(0x");
            push_hex4(&mut t, word);
            t.append("u16.wrapping_add(s.x as u16))");
            t
        },
        Mode::AbsoluteY => {
            let mut t: String = String::from_str("bus.read(0x");
            push_hex4(&mut t, word);
            t.append("u16.wrapping_add(s.y as u16))");
            t
        },
        Mode::IndirectX => {
            let mut t: String = gen_pointer_x(operand);
            t.append("bus.read(lo | (hi << 8)) }");
            t
        },
        Mode::IndirectY => {
            let mut t: String = gen_pointer(operand);
            t.append("bus.read((lo | (hi << 8)).wrapping_add(s.y as u16)) }");
            t
        },
        _ => String::from_str("0"),
    }
}

/// An expression for the address of an operand.
pub open spec fn address_text(mode: Mode, operand: (u8, u8)) -> Seq<char> {
    let word = bits::word(operand.0, operand.1);
    match mode {
        Mode::ZeroPage => "0x"@ + hex4(operand.0 as u16) + "u16"@,
        Mode::ZeroPageX => "(0x"@ + hex2(operand.0) + "u8).wrapping_add(s.x) as u16"@,
        Mode::ZeroPageY => "(0x"@ + hex2(operand.0) + "u8).wrapping_add(s.y) as u16"@,
        Mode::Absolute => "0x"@ + hex4(word) + "u16"@,
        Mode::AbsoluteX => "0x"@ + hex4(word) + "u16.wrapping_add(s.x as u16)"@,
        Mode::AbsoluteY => "0x"@ + hex4(word) + "u16.wrapping_add(s.y as u16)"@,
        Mode::IndirectX => pointer_x_text(operand) + "lo | (hi << 8) }"@,
        Mode::IndirectY => pointer_text(operand)
            + "(lo | (hi << 8)).wrapping_add(s.y as u16) }"@,
        _ => "0u16"@,
    }
}

/// Writes an expression for the address of an operand.
pub fn gen_write_addr(mode: Mode, operand: (u8, u8)) -> (text: String)
    ensures
        text@ == address_text(mode, operand),
{
    let word: u16 = cpu::join(operand.0, operand.1);
    match mode {
        Mode::ZeroPage => {
            let mut t: String = String::from_str("0x");
            push_hex4(&mut t, operand.0 as u16);
            t.append("u16");
            t
        },
        Mode::ZeroPageX => {
            let mut t: String = String::from_str("(0x");
            push_hex2(&mut t, operand.0);
            t.append("u8).wrapping_add(s.x) as u16");
            t
        },
        Mode::ZeroPageY => {
            let mut t: String = String::from_str("(0x");
            push_hex2(&mut t, operand.0);
            t.append("u8).wrapping_add(s.y) as u16");
            t
        },
        Mode::Absolute => {
            let mut t: String = String::from_str("0x");
            push_hex4(&mut t, word);
            t.append("u16");
            t
        },
        Mode::AbsoluteX => {
            let mut t: String = String::from_str("0x");
            push_hex4(&mut t, word);
            t.append("u16.wrapping_add(s.x as u16)");
            t
        },
        Mode::AbsoluteY => {
            let mut t: String = String::from_str("0x");
            push_hex4(&mut t, word);
            t.append("u16.wrapping_add(s.y as u16)");
            t
        },
        Mode::IndirectX => {
            let mut t: String = gen_pointer_x(operand);
            t.append("lo | (hi << 8) }");
            t
        },
        Mode::IndirectY => {
            let mut t: String = gen_pointer(operand);
            t.append("(lo | (hi << 8)).wrapping_add(s.y as u16) }");
            t
        },
        _ => String::from_str("0u16"),
    }
}

/// Code that stores `val` in an operand.
pub open spec fn store_text(
    mode: Mode,
    operand: (u8, u8),
    val: Seq<char>,
    cycles: u8,
) -> Seq<char> {
    if in_ram(mode, operand) {
        "unsafe { *bus.ram.get_unchecked_mut("@ + index_text(mode, operand) + ") = "@ + val
            + "; } s.cycles += "@ + decimal(cycles as nat) + ";"@
    } else {
        "bus.write("@ + address_text(mode, operand) + ", "@ + val + "); s.cycles += "@ + decimal(
            cycles as nat,
        ) + ";"@
    }
}

/// Writes code that stores `val` in an operand.
pub fn gen_store(mode: Mode, operand: (u8, u8), val: &str, cycles: u8) -> (text: String)
    ensures
        text@ == store_text(mode, operand, val@, cycles),
{
    if is_in_ram(mode, operand) {
        let index: String = gen_index(mode, operand);
        let mut t: String = String::from_str("unsafe { *bus.ram.get_unchecked_mut(");
        t.append(index.as_str());
        t.append(") = ");
        t.append(val);
        t.append("; } s.cycles += ");
        push_decimal(&mut t, cycles as usize);
        t.append(";");
        t
    } else {
        let addr: String = gen_write_addr(mode, operand);
        let mut t: String = String::from_str("bus.write(");
        t.append(addr.as_str());
        t.append(", ");
        t.append(val);
        t.append("); s.cycles += ");
        push_decimal(&mut t, cycles as usize);
        t.append(";");
        t
    }
}

/// Code that changes an operand: `body` changes its value `v`.
pub open spec fn modify_text(
    mode: Mode,
    operand: (u8, u8),
    body: Seq<char>,
    cycles: u8,
) -> Seq<char> {
    if in_ram(mode, operand) && !(mode is ZeroPageY) {
        "{ let p = unsafe { bus.ram.get_unchecked_mut("@ + index_text(mode, operand)
            + ") }; let mut v = *p; "@ + body
            + " *p = v; s.cycles += "@ + decimal(cycles as nat) + "; }"@
    } else {
        "{ let addr = "@ + address_text(mode, operand) + "; let mut v = bus.read(addr); "@ + body
            + " bus.write(addr, v); s.cycles += "@ + decimal(cycles as nat) + "; }"@
    }
}

/// Writes code that changes an operand.
pub fn gen_rmw(mode: Mode, operand: (u8, u8), body: &str, cycles: u8) -> (text: String)
    ensures
        text@ == modify_text(mode, operand, body@, cycles),
{
    if is_in_ram(mode, operand) && mode != Mode::ZeroPageY {
        let index: String = gen_index(mode, operand);
        let mut t: String = String::from_str("{ let p = unsafe { bus.ram.get_unchecked_mut(");
        t.append(index.as_str());
        t.append(") }; let mut v = *p; ");
        t.append(body);
        t.append(" *p = v; s.cycles += ");
        push_decimal(&mut t, cycles as usize);
        t.append("; }");
        t
    } else {
        let addr: String = gen_write_addr(mode, operand);
        let mut t: String = String::from_str("{ let addr = ");
        t.append(addr.as_str());
        t.append("; let mut v = bus.read(addr); ");
        t.append(body);
        t.append(" bus.write(addr, v); s.cycles += ");
        push_decimal(&mut t, cycles as usize);
        t.append("; }");
        t
    }
}

/// Code for an operation on registers, flags and the stack.
pub open spec fn register_text(op: Op) -> Seq<char> {
    match op {
        Op::AslA => "s.c = s.a & 0x80 != 0; s.a <<= 1; s.z = s.a == 0; s.n = s.a & 0x80 != 0; s.cycles += 2;"@,
        Op::LsrA => "s.c = s.a & 1 != 0; s.a >>= 1; s.z = s.a == 0; s.n = false; s.cycles += 2;"@,
        Op::RolA => "{ let oc = s.c as u8; s.c = s.a & 0x80 != 0; s.a = (s.a << 1) | oc; s.z = s.a == 0; s.n = s.a & 0x80 != 0; s.cycles += 2; }"@,
        Op::RorA => "{ let oc = s.c as u8; s.c = s.a & 1 != 0; s.a = (s.a >> 1) | (oc << 7); s.z = s.a == 0; s.n = s.a & 0x80 != 0; s.cycles += 2; }"@,
        Op::Inx => "s.x = s.x.wrapping_add(1); s.z = s.x == 0; s.n = s.x & 0x80 != 0; s.cycles += 2;"@,
        Op::Iny => "s.y = s.y.wrapping_add(1); s.z = s.y == 0; s.n = s.y & 0x80 != 0; s.cycles += 2;"@,
        Op::Dex => "s.x = s.x.wrapping_sub(1); s.z = s.x == 0; s.n = s.x & 0x80 != 0; s.cycles += 2;"@,
        Op::Dey => "s.y = s.y.wrapping_sub(1); s.z = s.y == 0; s.n = s.y & 0x80 != 0; s.cycles += 2;"@,
        Op::Rts => "s.pc = s.pull16(bus).wrapping_add(1); s.cycles += 6;"@,
        Op::Rti => "{ let st = s.pull(bus); s.set_status(st); s.pc = s.pull16(bus); s.cycles += 6; }"@,
        Op::Tax => "s.x = s.a; s.z = s.x == 0; s.n = s.x & 0x80 != 0; s.cycles += 2;"@,
        Op::Txa => "s.a = s.x; s.z = s.a == 0; s.n = s.a & 0x80 != 0; s.cycles += 2;"@,
        Op::Tay => "s.y = s.a; s.z = s.y == 0; s.n = s.y & 0x80 != 0; s.cycles += 2;"@,
        Op::Tya => "s.a = s.y; s.z = s.a == 0; s.n = s.a & 0x80 != 0; s.cycles += 2;"@,
        Op::Txs => "s.sp = s.x; s.cycles += 2;"@,
        Op::Tsx => "s.x = s.sp; s.z = s.x == 0; s.n = s.x & 0x80 != 0; s.cycles += 2;"@,
        Op::Pha => "s.push(bus, s.a); s.cycles += 3;"@,
        Op::Pla => "s.a = s.pull(bus); s.z = s.a == 0; s.n = s.a & 0x80 != 0; s.cycles += 4;"@,
        Op::Php => "s.push(bus, s.status() | 0x10); s.cycles += 3;"@,
        Op::Plp => "{ let st = s.pull(bus); s.set_status(st); s.cycles += 4; }"@,
        Op::Clc => "s.c = false; s.cycles += 2;"@,
        Op::Sec => "s.c = true; s.cycles += 2;"@,
        Op::Cli => "s.i = false; s.cycles += 2;"@,
        Op::Sei => "s.i = true; s.cycles += 2;"@,
        Op::Clv => "s.v = false; s.cycles += 2;"@,
        Op::Cld => "s.d = false; s.cycles += 2;"@,
        _ => "s.d = true; s.cycles += 2;"@,
    }
}

fn gen_register(op: Op) -> (text: &'static str)
    ensures
        text@ == register_text(op),
{
    match op {
        Op::AslA => "s.c = s.a & 0x80 != 0; s.a <<= 1; s.z = s.a == 0; s.n = s.a & 0x80 != 0; s.cycles += 2;",
        Op::LsrA => "s.c = s.a & 1 != 0; s.a >>= 1; s.z = s.a == 0; s.n = false; s.cycles += 2;",
        Op::RolA => "{ let oc = s.c as u8; s.c = s.a & 0x80 != 0; s.a = (s.a << 1) | oc; s.z = s.a == 0; s.n = s.a & 0x80 != 0; s.cycles += 2; }",
        Op::RorA => "{ let oc = s.c as u8; s.c = s.a & 1 != 0; s.a = (s.a >> 1) | (oc << 7); s.z = s.a == 0; s.n = s.a & 0x80 != 0; s.cycles += 2; }",
        Op::Inx => "s.x = s.x.wrapping_add(1); s.z = s.x == 0; s.n = s.x & 0x80 != 0; s.cycles += 2;",
        Op::Iny => "s.y = s.y.wrapping_add(1); s.z = s.y == 0; s.n = s.y & 0x80 != 0; s.cycles += 2;",
        Op::Dex => "s.x = s.x.wrapping_sub(1); s.z = s.x == 0; s.n = s.x & 0x80 != 0; s.cycles += 2;",
        Op::Dey => "s.y = s.y.wrapping_sub(1); s.z = s.y == 0; s.n = s.y & 0x80 != 0; s.cycles += 2;",
        Op::Rts => "s.pc = s.pull16(bus).wrapping_add(1); s.cycles += 6;",
        Op::Rti => "{ let st = s.pull(bus); s.set_status(st); s.pc = s.pull16(bus); s.cycles += 6; }",
        Op::Tax => "s.x = s.a; s.z = s.x == 0; s.n = s.x & 0x80 != 0; s.cycles += 2;",
        Op::Txa => "s.a = s.x; s.z = s.a == 0; s.n = s.a & 0x80 != 0; s.cycles += 2;",
        Op::Tay => "s.y = s.a; s.z = s.y == 0; s.n = s.y & 0x80 != 0; s.cycles += 2;",
        Op::Tya => "s.a = s.y; s.z = s.a == 0; s.n = s.a & 0x80 != 0; s.cycles += 2;",
        Op::Txs => "s.sp = s.x; s.cycles += 2;",
        Op::Tsx => "s.x = s.sp; s.z = s.x == 0; s.n = s.x & 0x80 != 0; s.cycles += 2;",
        Op::Pha => "s.push(bus, s.a); s.cycles += 3;",
        Op::Pla => "s.a = s.pull(bus); s.z = s.a == 0; s.n = s.a & 0x80 != 0; s.cycles += 4;",
        Op::Php => "s.push(bus, s.status() | 0x10); s.cycles += 3;",
        Op::Plp => "{ let st = s.pull(bus); s.set_status(st); s.cycles += 4; }",
        Op::Clc => "s.c = false; s.cycles += 2;",
        Op::Sec => "s.c = true; s.cycles += 2;",
        Op::Cli => "s.i = false; s.cycles += 2;",
        Op::Sei => "s.i = true; s.cycles += 2;",
        Op::Clv => "s.v = false; s.cycles += 2;",
        Op::Cld => "s.d = false; s.cycles += 2;",
        _ => "s.d = true; s.cycles += 2;",
    }
}

/// Code that changes a value `v`.
pub open spec fn modify_body(op: Op) -> Seq<char> {
    match op {
        Op::Asl => "s.c = v & 0x80 != 0; v <<= 1; s.z = v == 0; s.n = v & 0x80 != 0;"@,
        Op::Lsr => "s.c = v & 1 != 0; v >>= 1; s.z = v == 0; s.n = false;"@,
        Op::Rol => "let oc = s.c as u8; s.c = v & 0x80 != 0; v = (v << 1) | oc; s.z = v == 0; s.n = v & 0x80 != 0;"@,
        Op::Ror => "let oc = s.c as u8; s.c = v & 1 != 0; v = (v >> 1) | (oc << 7); s.z = v == 0; s.n = v & 0x80 != 0;"@,
        Op::Inc => "v = v.wrapping_add(1); s.z = v == 0; s.n = v & 0x80 != 0;"@,
        Op::Dec => "v = v.wrapping_sub(1); s.z = v == 0; s.n = v & 0x80 != 0;"@,
        Op::Dcp => "v = v.wrapping_sub(1); s.cmp_reg(s.a, v);"@,
        Op::Isb => "v = v.wrapping_add(1); s.sbc(v);"@,
        Op::Slo => "s.c = v & 0x80 != 0; v <<= 1; s.a |= v; s.z = s.a == 0; s.n = s.a & 0x80 != 0;"@,
        Op::Rla => "let oc = s.c as u8; s.c = v & 0x80 != 0; v = (v << 1) | oc; s.a &= v; s.z = s.a == 0; s.n = s.a & 0x80 != 0;"@,
        Op::Sre => "s.c = v & 1 != 0; v >>= 1; s.a ^= v; s.z = s.a == 0; s.n = s.a & 0x80 != 0;"@,
        _ => "let oc = s.c as u8; s.c = v & 1 != 0; v = (v >> 1) | (oc << 7); s.adc(v);"@,
    }
}

fn gen_body(op: Op) -> (text: &'static str)
    ensures
        text@ == modify_body(op),
{
    match op {
        Op::Asl => "s.c = v & 0x80 != 0; v <<= 1; s.z = v == 0; s.n = v & 0x80 != 0;",
        Op::Lsr => "s.c = v & 1 != 0; v >>= 1; s.z = v == 0; s.n = false;",
        Op::Rol => "let oc = s.c as u8; s.c = v & 0x80 != 0; v = (v << 1) | oc; s.z = v == 0; s.n = v & 0x80 != 0;",
        Op::Ror => "let oc = s.c as u8; s.c = v & 1 != 0; v = (v >> 1) | (oc << 7); s.z = v == 0; s.n = v & 0x80 != 0;",
        Op::Inc => "v = v.wrapping_add(1); s.z = v == 0; s.n = v & 0x80 != 0;",
        Op::Dec => "v = v.wrapping_sub(1); s.z = v == 0; s.n = v & 0x80 != 0;",
        Op::Dcp => "v = v.wrapping_sub(1); s.cmp_reg(s.a, v);",
        Op::Isb => "v = v.wrapping_add(1); s.sbc(v);",
        Op::Slo => "s.c = v & 0x80 != 0; v <<= 1; s.a |= v; s.z = s.a == 0; s.n = s.a & 0x80 != 0;",
        Op::Rla => "let oc = s.c as u8; s.c = v & 0x80 != 0; v = (v << 1) | oc; s.a &= v; s.z = s.a == 0; s.n = s.a & 0x80 != 0;",
        Op::Sre => "s.c = v & 1 != 0; v >>= 1; s.a ^= v; s.z = s.a == 0; s.n = s.a & 0x80 != 0;",
        _ => "let oc = s.c as u8; s.c = v & 1 != 0; v = (v >> 1) | (oc << 7); s.adc(v);",
    }
}

/// The condition of a branch.
pub open spec fn condition_text(op: Op) -> Seq<char> {
    match op {
        Op::Bpl => "!s.n"@,
        Op::Bmi => "s.n"@,
        Op::Bvc => "!s.v"@,
        Op::Bvs => "s.v"@,
        Op::Bcc => "!s.c"@,
        Op::Bcs => "s.c"@,
        Op::Bne => "!s.z"@,
        _ => "s.z"@,
    }
}

fn gen_condition(op: Op) -> (text: &'static str)
    ensures
        text@ == condition_text(op),
{
    match op {
        Op::Bpl => "!s.n",
        Op::Bmi => "s.n",
        Op::Bvc => "!s.v",
        Op::Bvs => "s.v",
        Op::Bcc => "!s.c",
        Op::Bcs => "s.c",
        Op::Bne => "!s.z",
        _ => "s.z",
    }
}

/// The name of an operation.
pub open spec fn op_name(op: Op) -> Seq<char> {
    match op {
        Op::Asl | Op::AslA => "ASL"@,
        Op::Lsr | Op::LsrA => "LSR"@,
        Op::Rol | Op::RolA => "ROL"@,
        Op::Ror | Op::RorA => "ROR"@,
        Op::Cpa => "CMP"@,
        Op::Jmp | Op::JmpIndirect => "JMP"@,
        Op::Adc => "ADC"@,
        Op::And => "AND"@,
        Op::Bcc => "BCC"@,
        Op::Bcs => "BCS"@,
        Op::Beq => "BEQ"@,
        Op::Bit => "BIT"@,
        Op::Bmi => "BMI"@,
        Op::Bne => "BNE"@,
        Op::Bpl => "BPL"@,
        Op::Brk => "BRK"@,
        Op::Bvc => "BVC"@,
        Op::Bvs => "BVS"@,
        Op::Clc => "CLC"@,
        Op::Cld => "CLD"@,
        Op::Cli => "CLI"@,
        Op::Clv => "CLV"@,
        Op::Cpx => "CPX"@,
        Op::Cpy => "CPY"@,
        Op::Dcp => "DCP"@,
        Op::Dec => "DEC"@,
        Op::Dex => "DEX"@,
        Op::Dey => "DEY"@,
        Op::Eor => "EOR"@,
        Op::Inc => "INC"@,
        Op::Inx => "INX"@,
        Op::Iny => "INY"@,
        Op::Isb => "ISB"@,
        Op::Jsr => "JSR"@,
        Op::Lax => "LAX"@,
        Op::Lda => "LDA"@,
        Op::Ldx => "LDX"@,
        Op::Ldy => "LDY"@,
        Op::Ora => "ORA"@,
        Op::Pha => "PHA"@,
        Op::Php => "PHP"@,
        Op::Pla => "PLA"@,
        Op::Plp => "PLP"@,
        Op::Rla => "RLA"@,
        Op::Rra => "RRA"@,
        Op::Rti => "RTI"@,
        Op::Rts => "RTS"@,
        Op::Sax => "SAX"@,
        Op::Sbc => "SBC"@,
        Op::Sec => "SEC"@,
        Op::Sed => "SED"@,
        Op::Sei => "SEI"@,
        Op::Slo => "SLO"@,
        Op::Sre => "SRE"@,
        Op::Sta => "STA"@,
        Op::Stx => "STX"@,
        Op::Sty => "STY"@,
        Op::Tax => "TAX"@,
        Op::Tay => "TAY"@,
        Op::Tsx => "TSX"@,
        Op::Txa => "TXA"@,
        Op::Txs => "TXS"@,
        Op::Tya => "TYA"@,
        _ => "NOP"@,
    }
}

fn name_op(op: Op) -> (text: &'static str)
    ensures
        text@ == op_name(op),
{
    match op {
        Op::Asl | Op::AslA => "ASL",
        Op::Lsr | Op::LsrA => "LSR",
        Op::Rol | Op::RolA => "ROL",
        Op::Ror | Op::RorA => "ROR",
        Op::Cpa => "CMP",
        Op::Jmp | Op::JmpIndirect => "JMP",
        Op::Adc => "ADC",
        Op::And => "AND",
        Op::Bcc => "BCC",
        Op::Bcs => "BCS",
        Op::Beq => "BEQ",
        Op::Bit => "BIT",
        Op::Bmi => "BMI",
        Op::Bne => "BNE",
        Op::Bpl => "BPL",
        Op::Brk => "BRK",
        Op::Bvc => "BVC",
        Op::Bvs => "BVS",
        Op::Clc => "CLC",
        Op::Cld => "CLD",
        Op::Cli => "CLI",
        Op::Clv => "CLV",
        Op::Cpx => "CPX",
        Op::Cpy => "CPY",
        Op::Dcp => "DCP",
        Op::Dec => "DEC",
        Op::Dex => "DEX",
        Op::Dey => "DEY",
        Op::Eor => "EOR",
        Op::Inc => "INC",
        Op::Inx => "INX",
        Op::Iny => "INY",
        Op::Isb => "ISB",
        Op::Jsr => "JSR",
        Op::Lax => "LAX",
        Op::Lda => "LDA",
        Op::Ldx => "LDX",
        Op::Ldy => "LDY",
        Op::Ora => "ORA",
        Op::Pha => "PHA",
        Op::Php => "PHP",
        Op::Pla => "PLA",
        Op::Plp => "PLP",
        Op::Rla => "RLA",
        Op::Rra => "RRA",
        Op::Rti => "RTI",
        Op::Rts => "RTS",
        Op::Sax => "SAX",
        Op::Sbc => "SBC",
        Op::Sec => "SEC",
        Op::Sed => "SED",
        Op::Sei => "SEI",
        Op::Slo => "SLO",
        Op::Sre => "SRE",
        Op::Sta => "STA",
        Op::Stx => "STX",
        Op::Sty => "STY",
        Op::Tax => "TAX",
        Op::Tay => "TAY",
        Op::Tsx => "TSX",
        Op::Txa => "TXA",
        Op::Txs => "TXS",
        Op::Tya => "TYA",
        _ => "NOP",
    }
}

/// The name of an instruction. Undocumented ones that do nothing are named by their length,
/// and those that stop the processor apart.
#[verifier::opaque]
pub open spec fn name_text(opcode: u8) -> Seq<char> {
    let info = instr::instr_of(opcode);
    if !(info.op is Nop) {
        op_name(info.op)
    } else if info.mode is Skip1 {
        "DOP"@
    } else if info.mode is Skip2 {
        "TOP"@
    } else if opcode == 0xEA || opcode == 0x1A || opcode == 0x3A || opcode == 0x5A || opcode
        == 0x7A || opcode == 0xDA || opcode == 0xFA {
        "NOP"@
    } else {
        "KIL"@
    }
}

fn gen_name(opcode: u8) -> (text: &'static str)
    ensures
        text@ == name_text(opcode),
{
    proof {
        reveal(name_text);
    }
    let info: Instr = decode(opcode);
    if info.op != Op::Nop {
        name_op(info.op)
    } else if info.mode == Mode::Skip1 {
        "DOP"
    } else if info.mode == Mode::Skip2 {
        "TOP"
    } else if opcode == 0xEA || opcode == 0x1A || opcode == 0x3A || opcode == 0x5A || opcode
        == 0x7A || opcode == 0xDA || opcode == 0xFA {
        "NOP"
    } else {
        "KIL"
    }
}

/// Code that loads a register.
pub open spec fn load_text(reg: Seq<char>, i: Instruction) -> Seq<char> {
    let value = if i.info().mode is Immediate {
        "0x"@ + hex2(i.operand.0)
    } else {
        value_text(i.info().mode, i.operand)
    };
    "s."@ + reg + " = "@ + value + "; s.z = s."@ + reg + " == 0; s.n = s."@ + reg
        + " & 0x80 != 0; s.cycles += "@ + decimal(i.info().cycles as nat) + ";"@
}

fn gen_load(reg: &str, i: &Instruction) -> (text: String)
    ensures
        text@ == load_text(reg@, *i),
{
    let info: Instr = decode(i.opcode);
    let value: String = if info.mode == Mode::Immediate {
        let mut v: String = String::from_str("0x");
        push_hex2(&mut v, i.operand.0);
        v
    } else {
        gen_read_value(info.mode, i.operand)
    };
    let mut t: String = String::from_str("s.");
    t.append(reg);
    t.append(" = ");
    t.append(value.as_str());
    t.append("; s.z = s.");
    t.append(reg);
    t.append(" == 0; s.n = s.");
    t.append(reg);
    t.append(" & 0x80 != 0; s.cycles += ");
    push_decimal(&mut t, info.cycles as usize);
    t.append(";");
    t
}

/// Code that changes the accumulator by an operand: `head` comes before the value and
/// `tail` behind it.
pub open spec fn accumulate_text(head: Seq<char>, tail: Seq<char>, i: Instruction) -> Seq<char> {
    head + value_text(i.info().mode, i.operand) + tail
        + "s.z = s.a == 0; s.n = s.a & 0x80 != 0; s.cycles += "@ + decimal(
        i.info().cycles as nat,
    ) + ";"@
}

fn gen_accumulate(head: &str, tail: &str, i: &Instruction) -> (text: String)
    ensures
        text@ == accumulate_text(head@, tail@, *i),
{
    let info: Instr = decode(i.opcode);
    let value: String = gen_read_value(info.mode, i.operand);
    let mut t: String = String::from_str(head);
    t.append(value.as_str());
    t.append(tail);
    t.append("s.z = s.a == 0; s.n = s.a & 0x80 != 0; s.cycles += ");
    push_decimal(&mut t, info.cycles as usize);
    t.append(";");
    t
}

/// Code that does something with an operand's value `val`.
pub open spec fn use_text(body: Seq<char>, i: Instruction) -> Seq<char> {
    "{ let val = "@ + value_text(i.info().mode, i.operand) + "; "@ + body + "; s.cycles += "@
        + decimal(i.info().cycles as nat) + "; }"@
}

fn gen_use(body: &str, i: &Instruction) -> (text: String)
    ensures
        text@ == use_text(body@, *i),
{
    let info: Instr = decode(i.opcode);
    let value: String = gen_read_value(info.mode, i.operand);
    let mut t: String = String::from_str("{ let val = ");
    t.append(value.as_str());
    t.append("; ");
    t.append(body);
    t.append("; s.cycles += ");
    push_decimal(&mut t, info.cycles as usize);
    t.append("; }");
    t
}

/// Code for a branch: one more cycle if it is taken, and another if it leaves the page.
pub open spec fn branch_text(i: Instruction) -> Seq<char> {
    let next = i.addr.wrapping_add(2);
    let target = machine::branch_target(next, i.operand.0);
    "s.cycles += 2; if "@ + condition_text(i.info().op) + " { s.cycles += 1; if 0x"@ + hex4(next)
        + " & 0xFF00 != 0x"@ + hex4(target) + " & 0xFF00 { s.cycles += 1; } s.pc = 0x"@ + hex4(
        target,
    ) + "; } else { s.pc = 0x"@ + hex4(next) + "; }"@
}

fn gen_branch(i: &Instruction) -> (text: String)
    ensures
        text@ == branch_text(*i),
{
    let next: u16 = i.addr.wrapping_add(2);
    let target: u16 = cpu::relative(next, i.operand.0);
    let mut t: String = String::from_str("s.cycles += 2; if ");
    t.append(gen_condition(decode(i.opcode).op));
    t.append(" { s.cycles += 1; if 0x");
    push_hex4(&mut t, next);
    t.append(" & 0xFF00 != 0x");
    push_hex4(&mut t, target);
    t.append(" & 0xFF00 { s.cycles += 1; } s.pc = 0x");
    push_hex4(&mut t, target);
    t.append("; } else { s.pc = 0x");
    push_hex4(&mut t, next);
    t.append("; }");
    t
}

/// Code for a jump, a call or a software interrupt.
pub open spec fn jump_text(i: Instruction) -> Seq<char> {
    let next = i.addr.wrapping_add(2);
    match i.info().op {
        Op::Jmp => "s.pc = 0x"@ + hex4(i.word()) + "; s.cycles += 3;"@,
        Op::JmpIndirect => "{ let lo = bus.read(0x"@ + hex4(i.word())
            + ") as u16; let hi_addr = (0x"@ + hex4(i.word()) + "u16 & 0xFF00) | ((0x"@ + hex4(
            i.word(),
        )
            + "u16 + 1) & 0x00FF); let hi = bus.read(hi_addr) as u16; s.pc = lo | (hi << 8); s.cycles += 5; }"@,
        Op::Jsr => "s.push16(bus, 0x"@ + hex4(next) + "); s.pc = 0x"@ + hex4(i.word())
            + "; s.cycles += 6;"@,
        _ => "s.push16(bus, 0x"@ + hex4(next)
            + "); s.push(bus, s.status() | 0x10); s.i = true; s.pc = bus.read(0xFFFE) as u16 | ((bus.read(0xFFFF) as u16) << 8); s.cycles += 7;"@,
    }
}

fn gen_jump(i: &Instruction) -> (text: String)
    ensures
        text@ == jump_text(*i),
{
    let next: u16 = i.addr.wrapping_add(2);
    let word: u16 = i.operand_word();
    match decode(i.opcode).op {
        Op::Jmp => {
            let mut t: String = String::from_str("s.pc = 0x");
            push_hex4(&mut t, word);
            t.append("; s.cycles += 3;");
            t
        },
        Op::JmpIndirect => {
            let mut t: String = String::from_str("{ let lo = bus.read(0x");
            push_hex4(&mut t, word);
            t.append(") as u16; let hi_addr = (0x");
            push_hex4(&mut t, word);
            t.append("u16 & 0xFF00) | ((0x");
            push_hex4(&mut t, word);
            t.append(
                "u16 + 1) & 0x00FF); let hi = bus.read(hi_addr) as u16; s.pc = lo | (hi << 8); s.cycles += 5; }",
            );
            t
        },
        Op::Jsr => {
            let mut t: String = String::from_str("s.push16(bus, 0x");
            push_hex4(&mut t, next);
            t.append("); s.pc = 0x");
            push_hex4(&mut t, word);
            t.append("; s.cycles += 6;");
            t
        },
        _ => {
            let mut t: String = String::from_str("s.push16(bus, 0x");
            push_hex4(&mut t, next);
            t.append(
                "); s.push(bus, s.status() | 0x10); s.i = true; s.pc = bus.read(0xFFFE) as u16 | ((bus.read(0xFFFF) as u16) << 8); s.cycles += 7;",
            );
            t
        },
    }
}

/// Code for an instruction that does nothing but take its time.
pub open spec fn wait_text(cycles: u8) -> Seq<char> {
    "s.cycles += "@ + decimal(cycles as nat) + ";"@
}

fn gen_wait(cycles: u8) -> (text: String)
    ensures
        text@ == wait_text(cycles),
{
    let mut t: String = String::from_str("s.cycles += ");
    push_decimal(&mut t, cycles as usize);
    t.append(";");
    t
}

/// Code for an instruction. Unlike the interpreter it adds no cycle when indexing leaves
/// the page.
#[verifier::opaque]
pub open spec fn instruction_text(i: Instruction) -> Seq<char> {
    let info = i.info();
    match info.op {
        Op::Lda => load_text("a"@, i),
        Op::Ldx => load_text("x"@, i),
        Op::Ldy => load_text("y"@, i),
        Op::Lax => accumulate_text("s.a = "@, "; s.x = s.a; "@, i),
        Op::And => accumulate_text("s.a &= "@, "; "@, i),
        Op::Ora => accumulate_text("s.a |= "@, "; "@, i),
        Op::Eor => accumulate_text("s.a ^= "@, "; "@, i),
        Op::Sta => store_text(info.mode, i.operand, "s.a"@, info.cycles),
        Op::Stx => store_text(info.mode, i.operand, "s.x"@, info.cycles),
        Op::Sty => store_text(info.mode, i.operand, "s.y"@, info.cycles),
        Op::Sax => store_text(info.mode, i.operand, "s.a & s.x"@, info.cycles),
        Op::Adc => use_text("s.adc(val)"@, i),
        Op::Sbc => use_text("s.sbc(val)"@, i),
        Op::Cpa => use_text("s.cmp_reg(s.a, val)"@, i),
        Op::Cpx => use_text("s.cmp_reg(s.x, val)"@, i),
        Op::Cpy => use_text("s.cmp_reg(s.y, val)"@, i),
        Op::Bit => use_text(
            "s.z = s.a & val == 0; s.v = val & 0x40 != 0; s.n = val & 0x80 != 0"@,
            i,
        ),
        Op::Asl | Op::Lsr | Op::Rol | Op::Ror | Op::Inc | Op::Dec | Op::Dcp | Op::Isb | Op::Slo
        | Op::Rla | Op::Sre | Op::Rra => {
            modify_text(info.mode, i.operand, modify_body(info.op), info.cycles)
        },
        Op::Bpl | Op::Bmi | Op::Bvc | Op::Bvs | Op::Bcc | Op::Bcs | Op::Bne | Op::Beq => {
            branch_text(i)
        },
        Op::Jmp | Op::JmpIndirect | Op::Jsr | Op::Brk => jump_text(i),
        Op::Nop => wait_text(info.cycles),
        _ => register_text(info.op),
    }
}

/// Writes code for an instruction.
pub fn gen_instruction(i: &Instruction) -> (text: String)
    ensures
        text@ == instruction_text(*i),
{
    proof {
        reveal(instruction_text);
    }
    let info: Instr = decode(i.opcode);
    match info.op {
        Op::Lda => gen_load("a", i),
        Op::Ldx => gen_load("x", i),
        Op::Ldy => gen_load("y", i),
        Op::Lax => gen_accumulate("s.a = ", "; s.x = s.a; ", i),
        Op::And => gen_accumulate("s.a &= ", "; ", i),
        Op::Ora => gen_accumulate("s.a |= ", "; ", i),
        Op::Eor => gen_accumulate("s.a ^= ", "; ", i),
        Op::Sta => gen_store(info.mode, i.operand, "s.a", info.cycles),
        Op::Stx => gen_store(info.mode, i.operand, "s.x", info.cycles),
        Op::Sty => gen_store(info.mode, i.operand, "s.y", info.cycles),
        Op::Sax => gen_store(info.mode, i.operand, "s.a & s.x", info.cycles),
        Op::Adc => gen_use("s.adc(val)", i),
        Op::Sbc => gen_use("s.sbc(val)", i),
        Op::Cpa => gen_use("s.cmp_reg(s.a, val)", i),
        Op::Cpx => gen_use("s.cmp_reg(s.x, val)", i),
        Op::Cpy => gen_use("s.cmp_reg(s.y, val)", i),
        Op::Bit => gen_use(
            "s.z = s.a & val == 0; s.v = val & 0x40 != 0; s.n = val & 0x80 != 0",
            i,
        ),
        Op::Asl | Op::Lsr | Op::Rol | Op::Ror | Op::Inc | Op::Dec | Op::Dcp | Op::Isb | Op::Slo
        | Op::Rla | Op::Sre | Op::Rra => {
            gen_rmw(info.mode, i.operand, gen_body(info.op), info.cycles)
        },
        Op::Bpl | Op::Bmi | Op::Bvc | Op::Bvs | Op::Bcc | Op::Bcs | Op::Bne | Op::Beq => {
            gen_branch(i)
        },
        Op::Jmp | Op::JmpIndirect | Op::Jsr | Op::Brk => gen_jump(i),
        Op::Nop => gen_wait(info.cycles),
        _ => String::from_str(gen_register(info.op)),
    }
}

/// Control leaves the straight line: the instruction sets the program counter itself.
pub open spec fn sets_counter(op: Op) -> bool {
    match op {
        Op::Bpl | Op::Bmi | Op::Bvc | Op::Bvs | Op::Bcc | Op::Bcs | Op::Bne | Op::Beq => true,
        Op::Jmp | Op::JmpIndirect | Op::Jsr | Op::Rts | Op::Rti | Op::Brk => true,
        _ => false,
    }
}

fn moves_counter(op: Op) -> (yes: bool)
    ensures
        yes == sets_counter(op),
{
    match op {
        Op::Bpl | Op::Bmi | Op::Bvc | Op::Bvs | Op::Bcc | Op::Bcs | Op::Bne | Op::Beq => true,
        Op::Jmp | Op::JmpIndirect | Op::Jsr | Op::Rts | Op::Rti | Op::Brk => true,
        _ => false,
    }
}

/// The name of a block's function.
#[verifier::opaque]
pub open spec fn block_name(b: BlockModel) -> Seq<char> {
    (if b.start >= 0xC000 {
        "block_fx"@
    } else {
        "block_b"@ + decimal(b.bank as nat)
    }) + "_0x"@ + hex4(b.start)
}

fn gen_block_name(b: &Block) -> (text: String)
    ensures
        text@ == block_name(b@),
{
    proof {
        reveal(block_name);
    }
    let mut t: String = if b.start >= 0xC000 {
        String::from_str("block_fx")
    } else {
        let mut banked: String = String::from_str("block_b");
        push_decimal(&mut banked, b.bank);
        banked
    };
    t.append("_0x");
    push_hex4(&mut t, b.start);
    t
}

/// The lines of the first `n` instructions of a block.
pub open spec fn lines_text(code: Seq<Instruction>, n: int) -> Seq<char>
    decreases n,
{
    if n <= 0 {
        Seq::empty()
    } else {
        lines_text(code, n - 1) + ("    // $"@ + hex4(code[n - 1].addr) + ": "@ + name_text(
            code[n - 1].opcode,
        ) + " "@ + hex2(code[n - 1].opcode) + "\n    "@ + instruction_text(code[n - 1]) + "\n"@)
    }
}

/// A block's function. Where the last instruction does not set the program counter, a line
/// behind it does.
#[verifier::opaque]
pub open spec fn block_text(b: BlockModel) -> Seq<char> {
    let last = b.code.last();
    "#[inline(never)]\nfn "@ + block_name(b) + "(s: &mut CpuState, bus: &mut Bus) {\n"@
        + lines_text(b.code, b.code.len() as int) + (if sets_counter(last.info().op) {
        "}\n\n"@
    } else {
        "    s.pc = 0x"@ + hex4(last.after()) + ";\n}\n\n"@
    })
}

fn gen_line(i: &Instruction) -> (text: String)
    ensures
        text@ == "    // $"@ + hex4(i.addr) + ": "@ + name_text(i.opcode) + " "@ + hex2(i.opcode)
            + "\n    "@ + instruction_text(*i) + "\n"@,
{
    let code: String = gen_instruction(i);
    let mut t: String = String::from_str("    // $");
    push_hex4(&mut t, i.addr);
    t.append(": ");
    t.append(gen_name(i.opcode));
    t.append(" ");
    push_hex2(&mut t, i.opcode);
    t.append("\n    ");
    t.append(code.as_str());
    t.append("\n");
    t
}

/// Writes a block's function.
pub fn gen_block(b: &Block) -> (text: String)
    requires
        b.instructions@.len() > 0,
    ensures
        text@ == block_text(b@),
{
    proof {
        reveal(block_text);
    }
    let mut lines: String = String::new();
    let mut n: usize = 0;
    while n < b.instructions.len()
        invariant
            n <= b.instructions@.len(),
            lines@ == lines_text(b@.code, n as int),
        decreases b.instructions@.len() - n,
    {
        let line: String = gen_line(&b.instructions[n]);
        lines.append(line.as_str());
        n = n + 1;
    }
    let last: &Instruction = &b.instructions[b.instructions.len() - 1];
    let end: String = if moves_counter(decode(last.opcode).op) {
        String::from_str("}\n\n")
    } else {
        let mut e: String = String::from_str("    s.pc = 0x");
        push_hex4(&mut e, last.next_address());
        e.append(";\n}\n\n");
        e
    };
    let name: String = gen_block_name(b);
    let mut t: String = String::from_str("#[inline(never)]\nfn ");
    t.append(name.as_str());
    t.append("(s: &mut CpuState, bus: &mut Bus) {\n");
    t.append(lines.as_str());
    t.append(end.as_str());
    t
}

/// The functions of the first `n` blocks.
pub open spec fn functions_text(blocks: Seq<BlockModel>, n: int) -> Seq<char>
    decreases n,
{
    if n <= 0 {
        Seq::empty()
    } else {
        functions_text(blocks, n - 1) + block_text(blocks[n - 1])
    }
}

/// The key by which a block is dispatched: its bank, or 255 for the fixed bank.
pub open spec fn block_key(b: BlockModel) -> nat {
    if b.start >= 0xC000 {
        255
    } else {
        b.bank as nat
    }
}

/// An arm of the dispatch.
#[verifier::opaque]
pub open spec fn arm_text(b: BlockModel) -> Seq<char> {
    "        ("@ + decimal(block_key(b)) + ", 0x"@ + hex4(b.start) + ") => "@ + block_name(b)
        + "(s, bus),\n"@
}

/// The arms of the first `n` blocks.
pub open spec fn arms_text(blocks: Seq<BlockModel>, n: int) -> Seq<char>
    decreases n,
{
    if n <= 0 {
        Seq::empty()
    } else {
        arms_text(blocks, n - 1) + arm_text(blocks[n - 1])
    }
}

fn gen_arm(b: &Block) -> (text: String)
    ensures
        text@ == arm_text(b@),
{
    proof {
        reveal(arm_text);
    }
    let name: String = gen_block_name(b);
    let mut t: String = String::from_str("        (");
    push_decimal(
        &mut t,
        if b.start >= 0xC000 {
            255
        } else {
            b.bank
        },
    );
    t.append(", 0x");
    push_hex4(&mut t, b.start);
    t.append(") => ");
    t.append(name.as_str());
    t.append("(s, bus),\n");
    t
}

/// Byte `n` of a bank in a table of 32 bytes per line.
pub open spec fn byte_text(bank: Seq<u8>, n: int) -> Seq<char> {
    (if n % 32 == 0 {
        "    0x"@
    } else {
        "0x"@
    }) + hex2(bank[n]) + (if n % 32 == 31 {
        ",\n"@
    } else {
        ","@
    })
}

/// The first `n` bytes of a bank.
pub open spec fn bank_text(bank: Seq<u8>, n: int) -> Seq<char>
    decreases n,
{
    if n <= 0 {
        Seq::empty()
    } else {
        bank_text(bank, n - 1) + byte_text(bank, n - 1)
    }
}

/// The bytes of the first `n` banks.
pub open spec fn banks_text(rom: Seq<Seq<u8>>, n: int) -> Seq<char>
    decreases n,
{
    if n <= 0 {
        Seq::empty()
    } else {
        banks_text(rom, n - 1) + bank_text(rom[n - 1], 16384)
    }
}

fn gen_byte(bank: &Vec<u8>, n: usize) -> (text: String)
    requires
        n < bank@.len(),
    ensures
        text@ == byte_text(bank@, n as int),
{
    let mut t: String = if n % 32 == 0 {
        String::from_str("    0x")
    } else {
        String::from_str("0x")
    };
    push_hex2(&mut t, bank[n]);
    if n % 32 == 31 {
        t.append(",\n");
    } else {
        t.append(",");
    }
    t
}

fn gen_bank(bank: &Vec<u8>) -> (text: String)
    requires
        bank@.len() == 16384,
    ensures
        text@ == bank_text(bank@, 16384),
{
    let mut t: String = String::new();
    let mut n: usize = 0;
    while n < 16384
        invariant
            n <= 16384,
            bank@.len() == 16384,
            t@ == bank_text(bank@, n as int),
        decreases 16384 - n,
    {
        let byte: String = gen_byte(bank, n);
        t.append(byte.as_str());
        n = n + 1;
    }
    t
}

/// The program itself, as a constant.
#[verifier::opaque]
pub open spec fn program_text(rom: Seq<Seq<u8>>) -> Seq<char> {
    "/// Embedded PRG ROM ("@ + decimal(rom.len()) + " banks, "@ + decimal(rom.len() * 16384)
        + " bytes)\npub const EMBEDDED_PRG: [u8; "@ + decimal(rom.len() * 16384) + "] = [\n"@
        + banks_text(rom, rom.len() as int) + "];\npub const EMBEDDED_PRG_BANKS: usize = "@
        + decimal(rom.len()) + ";\n\n"@
}

fn gen_program(banks: &[Vec<u8>]) -> (text: String)
    requires
        recompiler::valid_rom(recompiler::rom_of(banks@)),
        banks@.len() * 16384 <= usize::MAX,
    ensures
        text@ == program_text(recompiler::rom_of(banks@)),
{
    proof {
        reveal(program_text);
    }
    let ghost rom = recompiler::rom_of(banks@);
    let mut bytes: String = String::new();
    let mut n: usize = 0;
    while n < banks.len()
        invariant
            n <= banks@.len(),
            rom == recompiler::rom_of(banks@),
            recompiler::valid_rom(rom),
            bytes@ == banks_text(rom, n as int),
        decreases banks@.len() - n,
    {
        assert(rom[n as int].len() == 16384);
        let bank: String = gen_bank(&banks[n]);
        bytes.append(bank.as_str());
        n = n + 1;
    }
    let count: usize = banks.len();
    let total: usize = count * 16384;
    let mut t: String = String::from_str("/// Embedded PRG ROM (");
    push_decimal(&mut t, count);
    t.append(" banks, ");
    push_decimal(&mut t, total);
    t.append(" bytes)\npub const EMBEDDED_PRG: [u8; ");
    push_decimal(&mut t, total);
    t.append("] = [\n");
    t.append(bytes.as_str());
    t.append("];\npub const EMBEDDED_PRG_BANKS: usize = ");
    push_decimal(&mut t, count);
    t.append(";\n\n");
    t
}

/// A whole source file for a program: what it is, its bytes, a function per block and the
/// dispatch.
pub open spec fn file_text(rom: Seq<Seq<u8>>, blocks: Seq<BlockModel>) -> Seq<char> {
    "// Auto-generated by build.rs — do not edit\n// "@ + decimal(blocks.len()) + " compiled blocks from "@ + decimal(rom.len())
        + " PRG banks\n// Types CpuState and Bus are imported by the including module.\n\n"@
        + program_text(rom) + functions_text(blocks, blocks.len() as int)
        + "/// Dispatch to compiled block. Returns true if block was found.\npub fn dispatch(bank: usize, pc: u16, s: &mut CpuState, bus: &mut Bus) -> bool {\n    let key = if pc >= 0xC000 { 255u16 } else { bank as u16 };\n    match (key, pc) {\n"@
        + arms_text(blocks, blocks.len() as int)
        + "        _ => return false,\n    }\n    true\n}\n"@
}

/// Every block has code.
pub open spec fn all_have_code(blocks: Seq<BlockModel>) -> bool {
    forall|b: int| 0 <= b < blocks.len() ==> (#[trigger] blocks[b]).code.len() > 0
}

/// Writes the source file.
pub fn generate_code(blocks: &Vec<Block>, banks: &[Vec<u8>]) -> (text: String)
    requires
        recompiler::valid_rom(recompiler::rom_of(banks@)),
        banks@.len() * 16384 <= usize::MAX,
        all_have_code(recompiler::models(blocks@)),
    ensures
        text@ == file_text(recompiler::rom_of(banks@), recompiler::models(blocks@)),
{
    let ghost all = recompiler::models(blocks@);
    let mut functions: String = String::new();
    let mut arms: String = String::new();
    let mut n: usize = 0;
    while n < blocks.len()
        invariant
            n <= blocks@.len(),
            all == recompiler::models(blocks@),
            all_have_code(all),
            functions@ == functions_text(all, n as int),
            arms@ == arms_text(all, n as int),
        decreases blocks@.len() - n,
    {
        let b: &Block = &blocks[n];
        assert(b@ == all[n as int]);
        let function: String = gen_block(b);
        functions.append(function.as_str());
        let arm: String = gen_arm(b);
        arms.append(arm.as_str());
        n = n + 1;
    }
    let program: String = gen_program(banks);
    let mut t: String = String::from_str("// Auto-generated by build.rs — do not edit\n// ");
    push_decimal(&mut t, blocks.len());
    t.append(" compiled blocks from ");
    push_decimal(&mut t, banks.len());
    t.append(
        " PRG banks\n// Types CpuState and Bus are imported by the including module.\n\n",
    );
    t.append(program.as_str());
    t.append(functions.as_str());
    t.append(
        "/// Dispatch to compiled block. Returns true if block was found.\npub fn dispatch(bank: usize, pc: u16, s: &mut CpuState, bus: &mut Bus) -> bool {\n    let key = if pc >= 0xC000 { 255u16 } else { bank as u16 };\n    match (key, pc) {\n",
    );
    t.append(arms.as_str());
    t.append("        _ => return false,\n    }\n    true\n}\n");
    t
}

/// Compiles the program of an iNES image into a source file.
pub fn compile_image(data: &[u8]) -> (text: String)
    requires
        recompiler::has_program(data@),
        data@[4] > 0,
    ensures
        text@ == file_text(
            recompiler::image_rom(data@),
            recompiler::program_blocks(recompiler::image_rom(data@)),
        ),
{
    let parsed: (Vec<Vec<u8>>, usize, u8) = recompiler::parse_ines(data);
    let ghost rom = recompiler::image_rom(data@);
    assert(recompiler::rom_of(parsed.0@) =~= rom);
    let blocks: Vec<Block> = recompiler::disassemble(parsed.0.as_slice());
    proof {
        recompiler_laws::program_is_code(rom);
    }
    generate_code(&blocks, parsed.0.as_slice())
}

} // verus!
