//! The 6502 instruction set: operations, addressing modes and the opcode table.
//!
//! All documented opcodes are present, together with the undocumented ones that
//! games rely on (LAX, SAX, DCP, ISB, SLO, RLA, SRE, RRA and the multi-byte NOPs).
//! Every other opcode is a one-byte NOP of two cycles.

use vstd::prelude::*;

verus! {

/// How an instruction finds its operand.
#[derive(Clone, Copy, PartialEq, Eq, Structural)]
pub enum Mode {
    /// No operand bytes.
    Implied,
    /// The operand is the byte after the opcode.
    Immediate,
    /// One-byte address.
    ZeroPage,
    /// One-byte address plus X, wrapping inside the zero page.
    ZeroPageX,
    /// One-byte address plus Y, wrapping inside the zero page.
    ZeroPageY,
    /// Two-byte address.
    Absolute,
    /// Two-byte address plus X.
    AbsoluteX,
    /// Two-byte address plus Y.
    AbsoluteY,
    /// Pointer in the zero page at the operand plus X.
    IndirectX,
    /// Pointer in the zero page at the operand, plus Y.
    IndirectY,
    /// Signed branch offset.
    Relative,
    /// One operand byte that is stepped over without being read.
    Skip1,
    /// Two operand bytes that are stepped over without being read.
    Skip2,
}

/// What an instruction does.
#[derive(Clone, Copy, PartialEq, Eq, Structural)]
pub enum Op {
    /// Add with carry.
    Adc,
    /// Bitwise and.
    And,
    /// Shift memory left.
    Asl,
    /// Shift the accumulator left.
    AslA,
    /// Branch if carry clear.
    Bcc,
    /// Branch if carry set.
    Bcs,
    /// Branch if zero.
    Beq,
    /// Test bits.
    Bit,
    /// Branch if negative.
    Bmi,
    /// Branch if not zero.
    Bne,
    /// Branch if positive.
    Bpl,
    /// Software interrupt.
    Brk,
    /// Branch if overflow clear.
    Bvc,
    /// Branch if overflow set.
    Bvs,
    /// Clear carry.
    Clc,
    /// Clear decimal.
    Cld,
    /// Clear interrupt disable.
    Cli,
    /// Clear overflow.
    Clv,
    /// Compare with the accumulator.
    Cpa,
    /// Compare with X.
    Cpx,
    /// Compare with Y.
    Cpy,
    /// Decrement memory, then compare with the accumulator.
    Dcp,
    /// Decrement memory.
    Dec,
    /// Decrement X.
    Dex,
    /// Decrement Y.
    Dey,
    /// Bitwise exclusive or.
    Eor,
    /// Increment memory.
    Inc,
    /// Increment X.
    Inx,
    /// Increment Y.
    Iny,
    /// Increment memory, then subtract with borrow.
    Isb,
    /// Jump.
    Jmp,
    /// Jump through a pointer.
    JmpIndirect,
    /// Call a subroutine.
    Jsr,
    /// Load the accumulator and X.
    Lax,
    /// Load the accumulator.
    Lda,
    /// Load X.
    Ldx,
    /// Load Y.
    Ldy,
    /// Shift memory right.
    Lsr,
    /// Shift the accumulator right.
    LsrA,
    /// No operation.
    Nop,
    /// Bitwise or.
    Ora,
    /// Push the accumulator.
    Pha,
    /// Push the status byte.
    Php,
    /// Pull the accumulator.
    Pla,
    /// Pull the status byte.
    Plp,
    /// Rotate memory left, then and it into the accumulator.
    Rla,
    /// Rotate memory left through carry.
    Rol,
    /// Rotate the accumulator left through carry.
    RolA,
    /// Rotate memory right through carry.
    Ror,
    /// Rotate the accumulator right through carry.
    RorA,
    /// Rotate memory right, then add it with carry.
    Rra,
    /// Return from interrupt.
    Rti,
    /// Return from subroutine.
    Rts,
    /// Store the accumulator and-ed with X.
    Sax,
    /// Subtract with borrow.
    Sbc,
    /// Set carry.
    Sec,
    /// Set decimal.
    Sed,
    /// Set interrupt disable.
    Sei,
    /// Shift memory left, then or it into the accumulator.
    Slo,
    /// Shift memory right, then exclusive-or it into the accumulator.
    Sre,
    /// Store the accumulator.
    Sta,
    /// Store X.
    Stx,
    /// Store Y.
    Sty,
    /// Copy A to X.
    Tax,
    /// Copy A to Y.
    Tay,
    /// Copy the stack pointer to X.
    Tsx,
    /// Copy X to A.
    Txa,
    /// Copy X to the stack pointer.
    Txs,
    /// Copy Y to A.
    Tya,
}

/// An opcode's meaning: operation, addressing mode and base cycle count.
#[derive(Clone, Copy, PartialEq, Eq, Structural)]
pub struct Instr {
    pub op: Op,
    pub mode: Mode,
    pub cycles: u8,
}

/// The opcode table.
pub open spec fn instr_of(opcode: u8) -> Instr {
    match opcode {
        0x6D => Instr { op: Op::Adc, mode: Mode::Absolute, cycles: 4 },
        0x7D => Instr { op: Op::Adc, mode: Mode::AbsoluteX, cycles: 4 },
        0x79 => Instr { op: Op::Adc, mode: Mode::AbsoluteY, cycles: 4 },
        0x69 => Instr { op: Op::Adc, mode: Mode::Immediate, cycles: 2 },
        0x61 => Instr { op: Op::Adc, mode: Mode::IndirectX, cycles: 6 },
        0x71 => Instr { op: Op::Adc, mode: Mode::IndirectY, cycles: 5 },
        0x65 => Instr { op: Op::Adc, mode: Mode::ZeroPage, cycles: 3 },
        0x75 => Instr { op: Op::Adc, mode: Mode::ZeroPageX, cycles: 4 },
        0x2D => Instr { op: Op::And, mode: Mode::Absolute, cycles: 4 },
        0x3D => Instr { op: Op::And, mode: Mode::AbsoluteX, cycles: 4 },
        0x39 => Instr { op: Op::And, mode: Mode::AbsoluteY, cycles: 4 },
        0x29 => Instr { op: Op::And, mode: Mode::Immediate, cycles: 2 },
        0x21 => Instr { op: Op::And, mode: Mode::IndirectX, cycles: 6 },
        0x31 => Instr { op: Op::And, mode: Mode::IndirectY, cycles: 5 },
        0x25 => Instr { op: Op::And, mode: Mode::ZeroPage, cycles: 3 },
        0x35 => Instr { op: Op::And, mode: Mode::ZeroPageX, cycles: 4 },
        0x0E => Instr { op: Op::Asl, mode: Mode::Absolute, cycles: 6 },
        0x1E => Instr { op: Op::Asl, mode: Mode::AbsoluteX, cycles: 7 },
        0x06 => Instr { op: Op::Asl, mode: Mode::ZeroPage, cycles: 5 },
        0x16 => Instr { op: Op::Asl, mode: Mode::ZeroPageX, cycles: 6 },
        0x0A => Instr { op: Op::AslA, mode: Mode::Implied, cycles: 2 },
        0x90 => Instr { op: Op::Bcc, mode: Mode::Relative, cycles: 2 },
        0xB0 => Instr { op: Op::Bcs, mode: Mode::Relative, cycles: 2 },
        0xF0 => Instr { op: Op::Beq, mode: Mode::Relative, cycles: 2 },
        0x2C => Instr { op: Op::Bit, mode: Mode::Absolute, cycles: 4 },
        0x24 => Instr { op: Op::Bit, mode: Mode::ZeroPage, cycles: 3 },
        0x30 => Instr { op: Op::Bmi, mode: Mode::Relative, cycles: 2 },
        0xD0 => Instr { op: Op::Bne, mode: Mode::Relative, cycles: 2 },
        0x10 => Instr { op: Op::Bpl, mode: Mode::Relative, cycles: 2 },
        0x00 => Instr { op: Op::Brk, mode: Mode::Implied, cycles: 7 },
        0x50 => Instr { op: Op::Bvc, mode: Mode::Relative, cycles: 2 },
        0x70 => Instr { op: Op::Bvs, mode: Mode::Relative, cycles: 2 },
        0x18 => Instr { op: Op::Clc, mode: Mode::Implied, cycles: 2 },
        0xD8 => Instr { op: Op::Cld, mode: Mode::Implied, cycles: 2 },
        0x58 => Instr { op: Op::Cli, mode: Mode::Implied, cycles: 2 },
        0xB8 => Instr { op: Op::Clv, mode: Mode::Implied, cycles: 2 },
        0xCD => Instr { op: Op::Cpa, mode: Mode::Absolute, cycles: 4 },
        0xDD => Instr { op: Op::Cpa, mode: Mode::AbsoluteX, cycles: 4 },
        0xD9 => Instr { op: Op::Cpa, mode: Mode::AbsoluteY, cycles: 4 },
        0xC9 => Instr { op: Op::Cpa, mode: Mode::Immediate, cycles: 2 },
        0xC1 => Instr { op: Op::Cpa, mode: Mode::IndirectX, cycles: 6 },
        0xD1 => Instr { op: Op::Cpa, mode: Mode::IndirectY, cycles: 5 },
        0xC5 => Instr { op: Op::Cpa, mode: Mode::ZeroPage, cycles: 3 },
        0xD5 => Instr { op: Op::Cpa, mode: Mode::ZeroPageX, cycles: 4 },
        0xEC => Instr { op: Op::Cpx, mode: Mode::Absolute, cycles: 4 },
        0xE0 => Instr { op: Op::Cpx, mode: Mode::Immediate, cycles: 2 },
        0xE4 => Instr { op: Op::Cpx, mode: Mode::ZeroPage, cycles: 3 },
        0xCC => Instr { op: Op::Cpy, mode: Mode::Absolute, cycles: 4 },
        0xC0 => Instr { op: Op::Cpy, mode: Mode::Immediate, cycles: 2 },
        0xC4 => Instr { op: Op::Cpy, mode: Mode::ZeroPage, cycles: 3 },
        0xCF => Instr { op: Op::Dcp, mode: Mode::Absolute, cycles: 6 },
        0xDF => Instr { op: Op::Dcp, mode: Mode::AbsoluteX, cycles: 7 },
        0xDB => Instr { op: Op::Dcp, mode: Mode::AbsoluteY, cycles: 7 },
        0xC3 => Instr { op: Op::Dcp, mode: Mode::IndirectX, cycles: 8 },
        0xD3 => Instr { op: Op::Dcp, mode: Mode::IndirectY, cycles: 8 },
        0xC7 => Instr { op: Op::Dcp, mode: Mode::ZeroPage, cycles: 5 },
        0xD7 => Instr { op: Op::Dcp, mode: Mode::ZeroPageX, cycles: 6 },
        0xCE => Instr { op: Op::Dec, mode: Mode::Absolute, cycles: 6 },
        0xDE => Instr { op: Op::Dec, mode: Mode::AbsoluteX, cycles: 7 },
        0xC6 => Instr { op: Op::Dec, mode: Mode::ZeroPage, cycles: 5 },
        0xD6 => Instr { op: Op::Dec, mode: Mode::ZeroPageX, cycles: 6 },
        0xCA => Instr { op: Op::Dex, mode: Mode::Implied, cycles: 2 },
        0x88 => Instr { op: Op::Dey, mode: Mode::Implied, cycles: 2 },
        0x4D => Instr { op: Op::Eor, mode: Mode::Absolute, cycles: 4 },
        0x5D => Instr { op: Op::Eor, mode: Mode::AbsoluteX, cycles: 4 },
        0x59 => Instr { op: Op::Eor, mode: Mode::AbsoluteY, cycles: 4 },
        0x49 => Instr { op: Op::Eor, mode: Mode::Immediate, cycles: 2 },
        0x41 => Instr { op: Op::Eor, mode: Mode::IndirectX, cycles: 6 },
        0x51 => Instr { op: Op::Eor, mode: Mode::IndirectY, cycles: 5 },
        0x45 => Instr { op: Op::Eor, mode: Mode::ZeroPage, cycles: 3 },
        0x55 => Instr { op: Op::Eor, mode: Mode::ZeroPageX, cycles: 4 },
        0xEE => Instr { op: Op::Inc, mode: Mode::Absolute, cycles: 6 },
        0xFE => Instr { op: Op::Inc, mode: Mode::AbsoluteX, cycles: 7 },
        0xE6 => Instr { op: Op::Inc, mode: Mode::ZeroPage, cycles: 5 },
        0xF6 => Instr { op: Op::Inc, mode: Mode::ZeroPageX, cycles: 6 },
        0xE8 => Instr { op: Op::Inx, mode: Mode::Implied, cycles: 2 },
        0xC8 => Instr { op: Op::Iny, mode: Mode::Implied, cycles: 2 },
        0xEF => Instr { op: Op::Isb, mode: Mode::Absolute, cycles: 6 },
        0xFF => Instr { op: Op::Isb, mode: Mode::AbsoluteX, cycles: 7 },
        0xFB => Instr { op: Op::Isb, mode: Mode::AbsoluteY, cycles: 7 },
        0xE3 => Instr { op: Op::Isb, mode: Mode::IndirectX, cycles: 8 },
        0xF3 => Instr { op: Op::Isb, mode: Mode::IndirectY, cycles: 8 },
        0xE7 => Instr { op: Op::Isb, mode: Mode::ZeroPage, cycles: 5 },
        0xF7 => Instr { op: Op::Isb, mode: Mode::ZeroPageX, cycles: 6 },
        0x4C => Instr { op: Op::Jmp, mode: Mode::Absolute, cycles: 3 },
        0x6C => Instr { op: Op::JmpIndirect, mode: Mode::Absolute, cycles: 5 },
        0x20 => Instr { op: Op::Jsr, mode: Mode::Absolute, cycles: 6 },
        0xAF => Instr { op: Op::Lax, mode: Mode::Absolute, cycles: 4 },
        0xBF => Instr { op: Op::Lax, mode: Mode::AbsoluteY, cycles: 4 },
        0xA3 => Instr { op: Op::Lax, mode: Mode::IndirectX, cycles: 6 },
        0xB3 => Instr { op: Op::Lax, mode: Mode::IndirectY, cycles: 5 },
        0xA7 => Instr { op: Op::Lax, mode: Mode::ZeroPage, cycles: 3 },
        0xB7 => Instr { op: Op::Lax, mode: Mode::ZeroPageY, cycles: 4 },
        0xAD => Instr { op: Op::Lda, mode: Mode::Absolute, cycles: 4 },
        0xBD => Instr { op: Op::Lda, mode: Mode::AbsoluteX, cycles: 4 },
        0xB9 => Instr { op: Op::Lda, mode: Mode::AbsoluteY, cycles: 4 },
        0xA9 => Instr { op: Op::Lda, mode: Mode::Immediate, cycles: 2 },
        0xA1 => Instr { op: Op::Lda, mode: Mode::IndirectX, cycles: 6 },
        0xB1 => Instr { op: Op::Lda, mode: Mode::IndirectY, cycles: 5 },
        0xA5 => Instr { op: Op::Lda, mode: Mode::ZeroPage, cycles: 3 },
        0xB5 => Instr { op: Op::Lda, mode: Mode::ZeroPageX, cycles: 4 },
        0xAE => Instr { op: Op::Ldx, mode: Mode::Absolute, cycles: 4 },
        0xBE => Instr { op: Op::Ldx, mode: Mode::AbsoluteY, cycles: 4 },
        0xA2 => Instr { op: Op::Ldx, mode: Mode::Immediate, cycles: 2 },
        0xA6 => Instr { op: Op::Ldx, mode: Mode::ZeroPage, cycles: 3 },
        0xB6 => Instr { op: Op::Ldx, mode: Mode::ZeroPageY, cycles: 4 },
        0xAC => Instr { op: Op::Ldy, mode: Mode::Absolute, cycles: 4 },
        0xBC => Instr { op: Op::Ldy, mode: Mode::AbsoluteX, cycles: 4 },
        0xA0 => Instr { op: Op::Ldy, mode: Mode::Immediate, cycles: 2 },
        0xA4 => Instr { op: Op::Ldy, mode: Mode::ZeroPage, cycles: 3 },
        0xB4 => Instr { op: Op::Ldy, mode: Mode::ZeroPageX, cycles: 4 },
        0x4E => Instr { op: Op::Lsr, mode: Mode::Absolute, cycles: 6 },
        0x5E => Instr { op: Op::Lsr, mode: Mode::AbsoluteX, cycles: 7 },
        0x46 => Instr { op: Op::Lsr, mode: Mode::ZeroPage, cycles: 5 },
        0x56 => Instr { op: Op::Lsr, mode: Mode::ZeroPageX, cycles: 6 },
        0x4A => Instr { op: Op::LsrA, mode: Mode::Implied, cycles: 2 },
        0x04 | 0x44 | 0x64 => Instr { op: Op::Nop, mode: Mode::Skip1, cycles: 3 },
        0x14 | 0x34 | 0x54 | 0x74 | 0xD4 | 0xF4 => Instr { op: Op::Nop, mode: Mode::Skip1, cycles: 4 },
        0x80 | 0x82 | 0x89 | 0xC2 | 0xE2 => Instr { op: Op::Nop, mode: Mode::Skip1, cycles: 2 },
        0x0C | 0x1C | 0x3C | 0x5C | 0x7C | 0xDC | 0xFC => Instr { op: Op::Nop, mode: Mode::Skip2, cycles: 4 },
        0x0D => Instr { op: Op::Ora, mode: Mode::Absolute, cycles: 4 },
        0x1D => Instr { op: Op::Ora, mode: Mode::AbsoluteX, cycles: 4 },
        0x19 => Instr { op: Op::Ora, mode: Mode::AbsoluteY, cycles: 4 },
        0x09 => Instr { op: Op::Ora, mode: Mode::Immediate, cycles: 2 },
        0x01 => Instr { op: Op::Ora, mode: Mode::IndirectX, cycles: 6 },
        0x11 => Instr { op: Op::Ora, mode: Mode::IndirectY, cycles: 5 },
        0x05 => Instr { op: Op::Ora, mode: Mode::ZeroPage, cycles: 3 },
        0x15 => Instr { op: Op::Ora, mode: Mode::ZeroPageX, cycles: 4 },
        0x48 => Instr { op: Op::Pha, mode: Mode::Implied, cycles: 3 },
        0x08 => Instr { op: Op::Php, mode: Mode::Implied, cycles: 3 },
        0x68 => Instr { op: Op::Pla, mode: Mode::Implied, cycles: 4 },
        0x28 => Instr { op: Op::Plp, mode: Mode::Implied, cycles: 4 },
        0x2F => Instr { op: Op::Rla, mode: Mode::Absolute, cycles: 6 },
        0x3F => Instr { op: Op::Rla, mode: Mode::AbsoluteX, cycles: 7 },
        0x3B => Instr { op: Op::Rla, mode: Mode::AbsoluteY, cycles: 7 },
        0x23 => Instr { op: Op::Rla, mode: Mode::IndirectX, cycles: 8 },
        0x33 => Instr { op: Op::Rla, mode: Mode::IndirectY, cycles: 8 },
        0x27 => Instr { op: Op::Rla, mode: Mode::ZeroPage, cycles: 5 },
        0x37 => Instr { op: Op::Rla, mode: Mode::ZeroPageX, cycles: 6 },
        0x2E => Instr { op: Op::Rol, mode: Mode::Absolute, cycles: 6 },
        0x3E => Instr { op: Op::Rol, mode: Mode::AbsoluteX, cycles: 7 },
        0x26 => Instr { op: Op::Rol, mode: Mode::ZeroPage, cycles: 5 },
        0x36 => Instr { op: Op::Rol, mode: Mode::ZeroPageX, cycles: 6 },
        0x2A => Instr { op: Op::RolA, mode: Mode::Implied, cycles: 2 },
        0x6E => Instr { op: Op::Ror, mode: Mode::Absolute, cycles: 6 },
        0x7E => Instr { op: Op::Ror, mode: Mode::AbsoluteX, cycles: 7 },
        0x66 => Instr { op: Op::Ror, mode: Mode::ZeroPage, cycles: 5 },
        0x76 => Instr { op: Op::Ror, mode: Mode::ZeroPageX, cycles: 6 },
        0x6A => Instr { op: Op::RorA, mode: Mode::Implied, cycles: 2 },
        0x6F => Instr { op: Op::Rra, mode: Mode::Absolute, cycles: 6 },
        0x7F => Instr { op: Op::Rra, mode: Mode::AbsoluteX, cycles: 7 },
        0x7B => Instr { op: Op::Rra, mode: Mode::AbsoluteY, cycles: 7 },
        0x63 => Instr { op: Op::Rra, mode: Mode::IndirectX, cycles: 8 },
        0x73 => Instr { op: Op::Rra, mode: Mode::IndirectY, cycles: 8 },
        0x67 => Instr { op: Op::Rra, mode: Mode::ZeroPage, cycles: 5 },
        0x77 => Instr { op: Op::Rra, mode: Mode::ZeroPageX, cycles: 6 },
        0x40 => Instr { op: Op::Rti, mode: Mode::Implied, cycles: 6 },
        0x60 => Instr { op: Op::Rts, mode: Mode::Implied, cycles: 6 },
        0x8F => Instr { op: Op::Sax, mode: Mode::Absolute, cycles: 4 },
        0x83 => Instr { op: Op::Sax, mode: Mode::IndirectX, cycles: 6 },
        0x87 => Instr { op: Op::Sax, mode: Mode::ZeroPage, cycles: 3 },
        0x97 => Instr { op: Op::Sax, mode: Mode::ZeroPageY, cycles: 4 },
        0xED => Instr { op: Op::Sbc, mode: Mode::Absolute, cycles: 4 },
        0xFD => Instr { op: Op::Sbc, mode: Mode::AbsoluteX, cycles: 4 },
        0xF9 => Instr { op: Op::Sbc, mode: Mode::AbsoluteY, cycles: 4 },
        0xE9 | 0xEB => Instr { op: Op::Sbc, mode: Mode::Immediate, cycles: 2 },
        0xE1 => Instr { op: Op::Sbc, mode: Mode::IndirectX, cycles: 6 },
        0xF1 => Instr { op: Op::Sbc, mode: Mode::IndirectY, cycles: 5 },
        0xE5 => Instr { op: Op::Sbc, mode: Mode::ZeroPage, cycles: 3 },
        0xF5 => Instr { op: Op::Sbc, mode: Mode::ZeroPageX, cycles: 4 },
        0x38 => Instr { op: Op::Sec, mode: Mode::Implied, cycles: 2 },
        0xF8 => Instr { op: Op::Sed, mode: Mode::Implied, cycles: 2 },
        0x78 => Instr { op: Op::Sei, mode: Mode::Implied, cycles: 2 },
        0x0F => Instr { op: Op::Slo, mode: Mode::Absolute, cycles: 6 },
        0x1F => Instr { op: Op::Slo, mode: Mode::AbsoluteX, cycles: 7 },
        0x1B => Instr { op: Op::Slo, mode: Mode::AbsoluteY, cycles: 7 },
        0x03 => Instr { op: Op::Slo, mode: Mode::IndirectX, cycles: 8 },
        0x13 => Instr { op: Op::Slo, mode: Mode::IndirectY, cycles: 8 },
        0x07 => Instr { op: Op::Slo, mode: Mode::ZeroPage, cycles: 5 },
        0x17 => Instr { op: Op::Slo, mode: Mode::ZeroPageX, cycles: 6 },
        0x4F => Instr { op: Op::Sre, mode: Mode::Absolute, cycles: 6 },
        0x5F => Instr { op: Op::Sre, mode: Mode::AbsoluteX, cycles: 7 },
        0x5B => Instr { op: Op::Sre, mode: Mode::AbsoluteY, cycles: 7 },
        0x43 => Instr { op: Op::Sre, mode: Mode::IndirectX, cycles: 8 },
        0x53 => Instr { op: Op::Sre, mode: Mode::IndirectY, cycles: 8 },
        0x47 => Instr { op: Op::Sre, mode: Mode::ZeroPage, cycles: 5 },
        0x57 => Instr { op: Op::Sre, mode: Mode::ZeroPageX, cycles: 6 },
        0x8D => Instr { op: Op::Sta, mode: Mode::Absolute, cycles: 4 },
        0x9D => Instr { op: Op::Sta, mode: Mode::AbsoluteX, cycles: 5 },
        0x99 => Instr { op: Op::Sta, mode: Mode::AbsoluteY, cycles: 5 },
        0x81 => Instr { op: Op::Sta, mode: Mode::IndirectX, cycles: 6 },
        0x91 => Instr { op: Op::Sta, mode: Mode::IndirectY, cycles: 6 },
        0x85 => Instr { op: Op::Sta, mode: Mode::ZeroPage, cycles: 3 },
        0x95 => Instr { op: Op::Sta, mode: Mode::ZeroPageX, cycles: 4 },
        0x8E => Instr { op: Op::Stx, mode: Mode::Absolute, cycles: 4 },
        0x86 => Instr { op: Op::Stx, mode: Mode::ZeroPage, cycles: 3 },
        0x96 => Instr { op: Op::Stx, mode: Mode::ZeroPageY, cycles: 4 },
        0x8C => Instr { op: Op::Sty, mode: Mode::Absolute, cycles: 4 },
        0x84 => Instr { op: Op::Sty, mode: Mode::ZeroPage, cycles: 3 },
        0x94 => Instr { op: Op::Sty, mode: Mode::ZeroPageX, cycles: 4 },
        0xAA => Instr { op: Op::Tax, mode: Mode::Implied, cycles: 2 },
        0xA8 => Instr { op: Op::Tay, mode: Mode::Implied, cycles: 2 },
        0xBA => Instr { op: Op::Tsx, mode: Mode::Implied, cycles: 2 },
        0x8A => Instr { op: Op::Txa, mode: Mode::Implied, cycles: 2 },
        0x9A => Instr { op: Op::Txs, mode: Mode::Implied, cycles: 2 },
        0x98 => Instr { op: Op::Tya, mode: Mode::Implied, cycles: 2 },
        _ => Instr { op: Op::Nop, mode: Mode::Implied, cycles: 2 },
    }
}

/// How an operation touches memory.
#[derive(Clone, Copy, PartialEq, Eq, Structural)]
pub enum Class {
    /// Reads its operand. Indexing across a page costs one more cycle.
    Read,
    /// Writes its operand.
    Store,
    /// Reads its operand and writes it back changed.
    Modify,
    /// Works on registers and flags alone.
    Register,
    /// Branches on a flag.
    Branch,
    /// Jumps, calls, returns and stack operations.
    Control,
}

/// The class of an operation.
pub open spec fn class_of(op: Op) -> Class {
    match op {
        Op::Lda | Op::Ldx | Op::Ldy | Op::Lax | Op::Adc | Op::Sbc | Op::Cpa | Op::Cpx | Op::Cpy
        | Op::And | Op::Ora | Op::Eor | Op::Bit => Class::Read,
        Op::Sta | Op::Stx | Op::Sty | Op::Sax => Class::Store,
        Op::Asl | Op::Lsr | Op::Rol | Op::Ror | Op::Inc | Op::Dec | Op::Slo | Op::Sre | Op::Rla
        | Op::Rra | Op::Isb | Op::Dcp => Class::Modify,
        Op::Bpl | Op::Bmi | Op::Bvc | Op::Bvs | Op::Bcc | Op::Bcs | Op::Bne | Op::Beq => {
            Class::Branch
        },
        Op::Jmp | Op::JmpIndirect | Op::Jsr | Op::Rts | Op::Rti | Op::Brk | Op::Pha | Op::Php
        | Op::Pla | Op::Plp => Class::Control,
        _ => Class::Register,
    }
}

/// Looks an opcode up in the table.
pub fn decode(opcode: u8) -> (instr: Instr)
    ensures
        instr == instr_of(opcode),
        2 <= instr.cycles <= 8,
{
    match opcode {
        0x6D => Instr { op: Op::Adc, mode: Mode::Absolute, cycles: 4 },
        0x7D => Instr { op: Op::Adc, mode: Mode::AbsoluteX, cycles: 4 },
        0x79 => Instr { op: Op::Adc, mode: Mode::AbsoluteY, cycles: 4 },
        0x69 => Instr { op: Op::Adc, mode: Mode::Immediate, cycles: 2 },
        0x61 => Instr { op: Op::Adc, mode: Mode::IndirectX, cycles: 6 },
        0x71 => Instr { op: Op::Adc, mode: Mode::IndirectY, cycles: 5 },
        0x65 => Instr { op: Op::Adc, mode: Mode::ZeroPage, cycles: 3 },
        0x75 => Instr { op: Op::Adc, mode: Mode::ZeroPageX, cycles: 4 },
        0x2D => Instr { op: Op::And, mode: Mode::Absolute, cycles: 4 },
        0x3D => Instr { op: Op::And, mode: Mode::AbsoluteX, cycles: 4 },
        0x39 => Instr { op: Op::And, mode: Mode::AbsoluteY, cycles: 4 },
        0x29 => Instr { op: Op::And, mode: Mode::Immediate, cycles: 2 },
        0x21 => Instr { op: Op::And, mode: Mode::IndirectX, cycles: 6 },
        0x31 => Instr { op: Op::And, mode: Mode::IndirectY, cycles: 5 },
        0x25 => Instr { op: Op::And, mode: Mode::ZeroPage, cycles: 3 },
        0x35 => Instr { op: Op::And, mode: Mode::ZeroPageX, cycles: 4 },
        0x0E => Instr { op: Op::Asl, mode: Mode::Absolute, cycles: 6 },
        0x1E => Instr { op: Op::Asl, mode: Mode::AbsoluteX, cycles: 7 },
        0x06 => Instr { op: Op::Asl, mode: Mode::ZeroPage, cycles: 5 },
        0x16 => Instr { op: Op::Asl, mode: Mode::ZeroPageX, cycles: 6 },
        0x0A => Instr { op: Op::AslA, mode: Mode::Implied, cycles: 2 },
        0x90 => Instr { op: Op::Bcc, mode: Mode::Relative, cycles: 2 },
        0xB0 => Instr { op: Op::Bcs, mode: Mode::Relative, cycles: 2 },
        0xF0 => Instr { op: Op::Beq, mode: Mode::Relative, cycles: 2 },
        0x2C => Instr { op: Op::Bit, mode: Mode::Absolute, cycles: 4 },
        0x24 => Instr { op: Op::Bit, mode: Mode::ZeroPage, cycles: 3 },
        0x30 => Instr { op: Op::Bmi, mode: Mode::Relative, cycles: 2 },
        0xD0 => Instr { op: Op::Bne, mode: Mode::Relative, cycles: 2 },
        0x10 => Instr { op: Op::Bpl, mode: Mode::Relative, cycles: 2 },
        0x00 => Instr { op: Op::Brk, mode: Mode::Implied, cycles: 7 },
        0x50 => Instr { op: Op::Bvc, mode: Mode::Relative, cycles: 2 },
        0x70 => Instr { op: Op::Bvs, mode: Mode::Relative, cycles: 2 },
        0x18 => Instr { op: Op::Clc, mode: Mode::Implied, cycles: 2 },
        0xD8 => Instr { op: Op::Cld, mode: Mode::Implied, cycles: 2 },
        0x58 => Instr { op: Op::Cli, mode: Mode::Implied, cycles: 2 },
        0xB8 => Instr { op: Op::Clv, mode: Mode::Implied, cycles: 2 },
        0xCD => Instr { op: Op::Cpa, mode: Mode::Absolute, cycles: 4 },
        0xDD => Instr { op: Op::Cpa, mode: Mode::AbsoluteX, cycles: 4 },
        0xD9 => Instr { op: Op::Cpa, mode: Mode::AbsoluteY, cycles: 4 },
        0xC9 => Instr { op: Op::Cpa, mode: Mode::Immediate, cycles: 2 },
        0xC1 => Instr { op: Op::Cpa, mode: Mode::IndirectX, cycles: 6 },
        0xD1 => Instr { op: Op::Cpa, mode: Mode::IndirectY, cycles: 5 },
        0xC5 => Instr { op: Op::Cpa, mode: Mode::ZeroPage, cycles: 3 },
        0xD5 => Instr { op: Op::Cpa, mode: Mode::ZeroPageX, cycles: 4 },
        0xEC => Instr { op: Op::Cpx, mode: Mode::Absolute, cycles: 4 },
        0xE0 => Instr { op: Op::Cpx, mode: Mode::Immediate, cycles: 2 },
        0xE4 => Instr { op: Op::Cpx, mode: Mode::ZeroPage, cycles: 3 },
        0xCC => Instr { op: Op::Cpy, mode: Mode::Absolute, cycles: 4 },
        0xC0 => Instr { op: Op::Cpy, mode: Mode::Immediate, cycles: 2 },
        0xC4 => Instr { op: Op::Cpy, mode: Mode::ZeroPage, cycles: 3 },
        0xCF => Instr { op: Op::Dcp, mode: Mode::Absolute, cycles: 6 },
        0xDF => Instr { op: Op::Dcp, mode: Mode::AbsoluteX, cycles: 7 },
        0xDB => Instr { op: Op::Dcp, mode: Mode::AbsoluteY, cycles: 7 },
        0xC3 => Instr { op: Op::Dcp, mode: Mode::IndirectX, cycles: 8 },
        0xD3 => Instr { op: Op::Dcp, mode: Mode::IndirectY, cycles: 8 },
        0xC7 => Instr { op: Op::Dcp, mode: Mode::ZeroPage, cycles: 5 },
        0xD7 => Instr { op: Op::Dcp, mode: Mode::ZeroPageX, cycles: 6 },
        0xCE => Instr { op: Op::Dec, mode: Mode::Absolute, cycles: 6 },
        0xDE => Instr { op: Op::Dec, mode: Mode::AbsoluteX, cycles: 7 },
        0xC6 => Instr { op: Op::Dec, mode: Mode::ZeroPage, cycles: 5 },
        0xD6 => Instr { op: Op::Dec, mode: Mode::ZeroPageX, cycles: 6 },
        0xCA => Instr { op: Op::Dex, mode: Mode::Implied, cycles: 2 },
        0x88 => Instr { op: Op::Dey, mode: Mode::Implied, cycles: 2 },
        0x4D => Instr { op: Op::Eor, mode: Mode::Absolute, cycles: 4 },
        0x5D => Instr { op: Op::Eor, mode: Mode::AbsoluteX, cycles: 4 },
        0x59 => Instr { op: Op::Eor, mode: Mode::AbsoluteY, cycles: 4 },
        0x49 => Instr { op: Op::Eor, mode: Mode::Immediate, cycles: 2 },
        0x41 => Instr { op: Op::Eor, mode: Mode::IndirectX, cycles: 6 },
        0x51 => Instr { op: Op::Eor, mode: Mode::IndirectY, cycles: 5 },
        0x45 => Instr { op: Op::Eor, mode: Mode::ZeroPage, cycles: 3 },
        0x55 => Instr { op: Op::Eor, mode: Mode::ZeroPageX, cycles: 4 },
        0xEE => Instr { op: Op::Inc, mode: Mode::Absolute, cycles: 6 },
        0xFE => Instr { op: Op::Inc, mode: Mode::AbsoluteX, cycles: 7 },
        0xE6 => Instr { op: Op::Inc, mode: Mode::ZeroPage, cycles: 5 },
        0xF6 => Instr { op: Op::Inc, mode: Mode::ZeroPageX, cycles: 6 },
        0xE8 => Instr { op: Op::Inx, mode: Mode::Implied, cycles: 2 },
        0xC8 => Instr { op: Op::Iny, mode: Mode::Implied, cycles: 2 },
        0xEF => Instr { op: Op::Isb, mode: Mode::Absolute, cycles: 6 },
        0xFF => Instr { op: Op::Isb, mode: Mode::AbsoluteX, cycles: 7 },
        0xFB => Instr { op: Op::Isb, mode: Mode::AbsoluteY, cycles: 7 },
        0xE3 => Instr { op: Op::Isb, mode: Mode::IndirectX, cycles: 8 },
        0xF3 => Instr { op: Op::Isb, mode: Mode::IndirectY, cycles: 8 },
        0xE7 => Instr { op: Op::Isb, mode: Mode::ZeroPage, cycles: 5 },
        0xF7 => Instr { op: Op::Isb, mode: Mode::ZeroPageX, cycles: 6 },
        0x4C => Instr { op: Op::Jmp, mode: Mode::Absolute, cycles: 3 },
        0x6C => Instr { op: Op::JmpIndirect, mode: Mode::Absolute, cycles: 5 },
        0x20 => Instr { op: Op::Jsr, mode: Mode::Absolute, cycles: 6 },
        0xAF => Instr { op: Op::Lax, mode: Mode::Absolute, cycles: 4 },
        0xBF => Instr { op: Op::Lax, mode: Mode::AbsoluteY, cycles: 4 },
        0xA3 => Instr { op: Op::Lax, mode: Mode::IndirectX, cycles: 6 },
        0xB3 => Instr { op: Op::Lax, mode: Mode::IndirectY, cycles: 5 },
        0xA7 => Instr { op: Op::Lax, mode: Mode::ZeroPage, cycles: 3 },
        0xB7 => Instr { op: Op::Lax, mode: Mode::ZeroPageY, cycles: 4 },
        0xAD => Instr { op: Op::Lda, mode: Mode::Absolute, cycles: 4 },
        0xBD => Instr { op: Op::Lda, mode: Mode::AbsoluteX, cycles: 4 },
        0xB9 => Instr { op: Op::Lda, mode: Mode::AbsoluteY, cycles: 4 },
        0xA9 => Instr { op: Op::Lda, mode: Mode::Immediate, cycles: 2 },
        0xA1 => Instr { op: Op::Lda, mode: Mode::IndirectX, cycles: 6 },
        0xB1 => Instr { op: Op::Lda, mode: Mode::IndirectY, cycles: 5 },
        0xA5 => Instr { op: Op::Lda, mode: Mode::ZeroPage, cycles: 3 },
        0xB5 => Instr { op: Op::Lda, mode: Mode::ZeroPageX, cycles: 4 },
        0xAE => Instr { op: Op::Ldx, mode: Mode::Absolute, cycles: 4 },
        0xBE => Instr { op: Op::Ldx, mode: Mode::AbsoluteY, cycles: 4 },
        0xA2 => Instr { op: Op::Ldx, mode: Mode::Immediate, cycles: 2 },
        0xA6 => Instr { op: Op::Ldx, mode: Mode::ZeroPage, cycles: 3 },
        0xB6 => Instr { op: Op::Ldx, mode: Mode::ZeroPageY, cycles: 4 },
        0xAC => Instr { op: Op::Ldy, mode: Mode::Absolute, cycles: 4 },
        0xBC => Instr { op: Op::Ldy, mode: Mode::AbsoluteX, cycles: 4 },
        0xA0 => Instr { op: Op::Ldy, mode: Mode::Immediate, cycles: 2 },
        0xA4 => Instr { op: Op::Ldy, mode: Mode::ZeroPage, cycles: 3 },
        0xB4 => Instr { op: Op::Ldy, mode: Mode::ZeroPageX, cycles: 4 },
        0x4E => Instr { op: Op::Lsr, mode: Mode::Absolute, cycles: 6 },
        0x5E => Instr { op: Op::Lsr, mode: Mode::AbsoluteX, cycles: 7 },
        0x46 => Instr { op: Op::Lsr, mode: Mode::ZeroPage, cycles: 5 },
        0x56 => Instr { op: Op::Lsr, mode: Mode::ZeroPageX, cycles: 6 },
        0x4A => Instr { op: Op::LsrA, mode: Mode::Implied, cycles: 2 },
        0x04 | 0x44 | 0x64 => Instr { op: Op::Nop, mode: Mode::Skip1, cycles: 3 },
        0x14 | 0x34 | 0x54 | 0x74 | 0xD4 | 0xF4 => Instr { op: Op::Nop, mode: Mode::Skip1, cycles: 4 },
        0x80 | 0x82 | 0x89 | 0xC2 | 0xE2 => Instr { op: Op::Nop, mode: Mode::Skip1, cycles: 2 },
        0x0C | 0x1C | 0x3C | 0x5C | 0x7C | 0xDC | 0xFC => Instr { op: Op::Nop, mode: Mode::Skip2, cycles: 4 },
        0x0D => Instr { op: Op::Ora, mode: Mode::Absolute, cycles: 4 },
        0x1D => Instr { op: Op::Ora, mode: Mode::AbsoluteX, cycles: 4 },
        0x19 => Instr { op: Op::Ora, mode: Mode::AbsoluteY, cycles: 4 },
        0x09 => Instr { op: Op::Ora, mode: Mode::Immediate, cycles: 2 },
        0x01 => Instr { op: Op::Ora, mode: Mode::IndirectX, cycles: 6 },
        0x11 => Instr { op: Op::Ora, mode: Mode::IndirectY, cycles: 5 },
        0x05 => Instr { op: Op::Ora, mode: Mode::ZeroPage, cycles: 3 },
        0x15 => Instr { op: Op::Ora, mode: Mode::ZeroPageX, cycles: 4 },
        0x48 => Instr { op: Op::Pha, mode: Mode::Implied, cycles: 3 },
        0x08 => Instr { op: Op::Php, mode: Mode::Implied, cycles: 3 },
        0x68 => Instr { op: Op::Pla, mode: Mode::Implied, cycles: 4 },
        0x28 => Instr { op: Op::Plp, mode: Mode::Implied, cycles: 4 },
        0x2F => Instr { op: Op::Rla, mode: Mode::Absolute, cycles: 6 },
        0x3F => Instr { op: Op::Rla, mode: Mode::AbsoluteX, cycles: 7 },
        0x3B => Instr { op: Op::Rla, mode: Mode::AbsoluteY, cycles: 7 },
        0x23 => Instr { op: Op::Rla, mode: Mode::IndirectX, cycles: 8 },
        0x33 => Instr { op: Op::Rla, mode: Mode::IndirectY, cycles: 8 },
        0x27 => Instr { op: Op::Rla, mode: Mode::ZeroPage, cycles: 5 },
        0x37 => Instr { op: Op::Rla, mode: Mode::ZeroPageX, cycles: 6 },
        0x2E => Instr { op: Op::Rol, mode: Mode::Absolute, cycles: 6 },
        0x3E => Instr { op: Op::Rol, mode: Mode::AbsoluteX, cycles: 7 },
        0x26 => Instr { op: Op::Rol, mode: Mode::ZeroPage, cycles: 5 },
        0x36 => Instr { op: Op::Rol, mode: Mode::ZeroPageX, cycles: 6 },
        0x2A => Instr { op: Op::RolA, mode: Mode::Implied, cycles: 2 },
        0x6E => Instr { op: Op::Ror, mode: Mode::Absolute, cycles: 6 },
        0x7E => Instr { op: Op::Ror, mode: Mode::AbsoluteX, cycles: 7 },
        0x66 => Instr { op: Op::Ror, mode: Mode::ZeroPage, cycles: 5 },
        0x76 => Instr { op: Op::Ror, mode: Mode::ZeroPageX, cycles: 6 },
        0x6A => Instr { op: Op::RorA, mode: Mode::Implied, cycles: 2 },
        0x6F => Instr { op: Op::Rra, mode: Mode::Absolute, cycles: 6 },
        0x7F => Instr { op: Op::Rra, mode: Mode::AbsoluteX, cycles: 7 },
        0x7B => Instr { op: Op::Rra, mode: Mode::AbsoluteY, cycles: 7 },
        0x63 => Instr { op: Op::Rra, mode: Mode::IndirectX, cycles: 8 },
        0x73 => Instr { op: Op::Rra, mode: Mode::IndirectY, cycles: 8 },
        0x67 => Instr { op: Op::Rra, mode: Mode::ZeroPage, cycles: 5 },
        0x77 => Instr { op: Op::Rra, mode: Mode::ZeroPageX, cycles: 6 },
        0x40 => Instr { op: Op::Rti, mode: Mode::Implied, cycles: 6 },
        0x60 => Instr { op: Op::Rts, mode: Mode::Implied, cycles: 6 },
        0x8F => Instr { op: Op::Sax, mode: Mode::Absolute, cycles: 4 },
        0x83 => Instr { op: Op::Sax, mode: Mode::IndirectX, cycles: 6 },
        0x87 => Instr { op: Op::Sax, mode: Mode::ZeroPage, cycles: 3 },
        0x97 => Instr { op: Op::Sax, mode: Mode::ZeroPageY, cycles: 4 },
        0xED => Instr { op: Op::Sbc, mode: Mode::Absolute, cycles: 4 },
        0xFD => Instr { op: Op::Sbc, mode: Mode::AbsoluteX, cycles: 4 },
        0xF9 => Instr { op: Op::Sbc, mode: Mode::AbsoluteY, cycles: 4 },
        0xE9 | 0xEB => Instr { op: Op::Sbc, mode: Mode::Immediate, cycles: 2 },
        0xE1 => Instr { op: Op::Sbc, mode: Mode::IndirectX, cycles: 6 },
        0xF1 => Instr { op: Op::Sbc, mode: Mode::IndirectY, cycles: 5 },
        0xE5 => Instr { op: Op::Sbc, mode: Mode::ZeroPage, cycles: 3 },
        0xF5 => Instr { op: Op::Sbc, mode: Mode::ZeroPageX, cycles: 4 },
        0x38 => Instr { op: Op::Sec, mode: Mode::Implied, cycles: 2 },
        0xF8 => Instr { op: Op::Sed, mode: Mode::Implied, cycles: 2 },
        0x78 => Instr { op: Op::Sei, mode: Mode::Implied, cycles: 2 },
        0x0F => Instr { op: Op::Slo, mode: Mode::Absolute, cycles: 6 },
        0x1F => Instr { op: Op::Slo, mode: Mode::AbsoluteX, cycles: 7 },
        0x1B => Instr { op: Op::Slo, mode: Mode::AbsoluteY, cycles: 7 },
        0x03 => Instr { op: Op::Slo, mode: Mode::IndirectX, cycles: 8 },
        0x13 => Instr { op: Op::Slo, mode: Mode::IndirectY, cycles: 8 },
        0x07 => Instr { op: Op::Slo, mode: Mode::ZeroPage, cycles: 5 },
        0x17 => Instr { op: Op::Slo, mode: Mode::ZeroPageX, cycles: 6 },
        0x4F => Instr { op: Op::Sre, mode: Mode::Absolute, cycles: 6 },
        0x5F => Instr { op: Op::Sre, mode: Mode::AbsoluteX, cycles: 7 },
        0x5B => Instr { op: Op::Sre, mode: Mode::AbsoluteY, cycles: 7 },
        0x43 => Instr { op: Op::Sre, mode: Mode::IndirectX, cycles: 8 },
        0x53 => Instr { op: Op::Sre, mode: Mode::IndirectY, cycles: 8 },
        0x47 => Instr { op: Op::Sre, mode: Mode::ZeroPage, cycles: 5 },
        0x57 => Instr { op: Op::Sre, mode: Mode::ZeroPageX, cycles: 6 },
        0x8D => Instr { op: Op::Sta, mode: Mode::Absolute, cycles: 4 },
        0x9D => Instr { op: Op::Sta, mode: Mode::AbsoluteX, cycles: 5 },
        0x99 => Instr { op: Op::Sta, mode: Mode::AbsoluteY, cycles: 5 },
        0x81 => Instr { op: Op::Sta, mode: Mode::IndirectX, cycles: 6 },
        0x91 => Instr { op: Op::Sta, mode: Mode::IndirectY, cycles: 6 },
        0x85 => Instr { op: Op::Sta, mode: Mode::ZeroPage, cycles: 3 },
        0x95 => Instr { op: Op::Sta, mode: Mode::ZeroPageX, cycles: 4 },
        0x8E => Instr { op: Op::Stx, mode: Mode::Absolute, cycles: 4 },
        0x86 => Instr { op: Op::Stx, mode: Mode::ZeroPage, cycles: 3 },
        0x96 => Instr { op: Op::Stx, mode: Mode::ZeroPageY, cycles: 4 },
        0x8C => Instr { op: Op::Sty, mode: Mode::Absolute, cycles: 4 },
        0x84 => Instr { op: Op::Sty, mode: Mode::ZeroPage, cycles: 3 },
        0x94 => Instr { op: Op::Sty, mode: Mode::ZeroPageX, cycles: 4 },
        0xAA => Instr { op: Op::Tax, mode: Mode::Implied, cycles: 2 },
        0xA8 => Instr { op: Op::Tay, mode: Mode::Implied, cycles: 2 },
        0xBA => Instr { op: Op::Tsx, mode: Mode::Implied, cycles: 2 },
        0x8A => Instr { op: Op::Txa, mode: Mode::Implied, cycles: 2 },
        0x9A => Instr { op: Op::Txs, mode: Mode::Implied, cycles: 2 },
        0x98 => Instr { op: Op::Tya, mode: Mode::Implied, cycles: 2 },
        _ => Instr { op: Op::Nop, mode: Mode::Implied, cycles: 2 },
    }
}

/// Looks up an operation's class.
pub fn classify(op: Op) -> (class: Class)
    ensures
        class == class_of(op),
{
    match op {
        Op::Lda | Op::Ldx | Op::Ldy | Op::Lax | Op::Adc | Op::Sbc | Op::Cpa | Op::Cpx | Op::Cpy
        | Op::And | Op::Ora | Op::Eor | Op::Bit => Class::Read,
        Op::Sta | Op::Stx | Op::Sty | Op::Sax => Class::Store,
        Op::Asl | Op::Lsr | Op::Rol | Op::Ror | Op::Inc | Op::Dec | Op::Slo | Op::Sre | Op::Rla
        | Op::Rra | Op::Isb | Op::Dcp => Class::Modify,
        Op::Bpl | Op::Bmi | Op::Bvc | Op::Bvs | Op::Bcc | Op::Bcs | Op::Bne | Op::Beq => {
            Class::Branch
        },
        Op::Jmp | Op::JmpIndirect | Op::Jsr | Op::Rts | Op::Rti | Op::Brk | Op::Pha | Op::Php
        | Op::Pla | Op::Plp => Class::Control,
        _ => Class::Register,
    }
}

} // verus!
