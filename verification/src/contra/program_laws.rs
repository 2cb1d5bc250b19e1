//! What holds of the batched machine's memory map and of the program that the recompiler
//! writes for it.

use vstd::prelude::*;
use crate::apu;
use crate::bits;
use crate::contra::bus::BusModel;
use crate::contra::emitter;
use crate::contra::recompiler;
use crate::contra::recompiler::{BlockModel, Instruction};
use crate::contra::recompiler_laws;
use crate::instr;
use crate::instr::{Class, Mode, Op};
use crate::machine::Machine;
use crate::memory::Memory;
use crate::pacing;
use crate::picture_laws;
use crate::renderer;

verus! {

/// $2000-$3FFF: eight registers, over and over.
#[verifier::rlimit(80)]
#[verifier::spinoff_prover]
pub proof fn batched_registers_are_mirrored(b: BusModel, r: u16, k: u16, val: u8)
    requires
        r < 8,
        k < 1024,
    ensures
        ({
            let first = (0x2000 + r) as u16;
            let other = (0x2000 + 8 * k + r) as u16;
            &&& b.load(first) == b.load(other)
            &&& b.after_load(first) == b.after_load(other)
            &&& b.after_store(first, val) == b.after_store(other, val)
        }),
{
    crate::video_laws::registers_repeat(b.ppu.core, r, k, val, b.cart);
    assert((0x2000 + 8 * k + r) % 8 == r as int);
}

/// RAM repeats every 2048 bytes and gives back what was stored.
pub proof fn batched_ram(b: BusModel, addr: u16, other: u16, val: u8)
    requires
        b.ram.len() == 2048,
        addr < 0x2000,
        other < 0x2000,
    ensures
        b.after_store(addr, val).load(other) == (if (other - addr) % 2048 == 0 {
            val
        } else {
            b.load(other)
        }),
        b.after_load(addr) == b,
{
    assert((other - addr) % 2048 == 0 <==> other as int % 2048 == addr as int % 2048);
}

/// A store to the cartridge selects a bank and nothing else.
pub proof fn batched_stores_select(b: BusModel, addr: u16, val: u8)
    requires
        addr >= 0x8000,
    ensures
        b.after_store(addr, val) == (BusModel { cart: b.cart.selecting(val), ..b }),
        b.load(addr) == b.cart.prg_at(addr),
        b.after_load(addr) == b,
{
}

/// $4000-$4017: all but the transfer and the controllers are sound registers. Between them
/// and the cartridge nothing answers.
pub proof fn batched_sound_registers(b: BusModel, addr: u16, val: u8)
    requires
        0x4000 <= addr < 0x8000,
    ensures
        ({
            let after = b.after_store(addr, val);
            let sound = addr <= 0x4017 && addr != 0x4014 && addr != 0x4016;
            &&& sound ==> after == (BusModel { apu: b.apu.written(addr, val), ..b })
            &&& addr > 0x4017 ==> after == b && b.load(addr) == 0 && b.after_load(addr) == b
            &&& addr == 0x4015 ==> b.load(addr) == b.apu.status() && b.after_load(addr) == (
            BusModel { apu: b.apu.status_read(), ..b })
            &&& addr < 0x4015 ==> b.load(addr) == 0 && b.after_load(addr) == b
            &&& addr == 0x4014 ==> after == (BusModel { dma_page: val, dma_pending: true, ..b })
        }),
{
}

/// While the strobe is on a controller shows its first button; when it goes off the buttons
/// held are kept and come out one by one, lowest bit first, and then ones.
#[verifier::rlimit(50)]
pub proof fn batched_controllers(b: BusModel, val: u8)
    requires
        b.controller.len() == 2,
        b.controller_shift.len() == 2,
    ensures
        ({
            let after = b.after_store(0x4016, val);
            &&& after.controller_strobe <==> val % 2 == 1
            &&& b.controller_strobe && val % 2 == 0 ==> after.controller_shift == b.controller
            &&& !b.controller_strobe || val % 2 == 1 ==> after.controller_shift
                == b.controller_shift
        }),
        b.controller_strobe ==> b.load(0x4016) == b.controller[0] % 2,
        !b.controller_strobe ==> b.load(0x4016) == b.controller_shift[0] % 2,
        b.controller_strobe ==> b.load(0x4017) == b.controller[1] % 2,
        !b.controller_strobe ==> b.load(0x4017) == b.controller_shift[1] % 2,
        !b.controller_strobe ==> b.after_load(0x4016).controller_shift[0] == b.controller_shift[0]
            / 2 + 128,
        !b.controller_strobe ==> b.after_load(0x4017).controller_shift[1] == b.controller_shift[1]
            / 2 + 128,
{
}

/// Where a block's last instruction does not set the program counter, the line behind it
/// sets it to where the interpreter stands after that instruction; where it does, nothing
/// follows.
pub proof fn blocks_end_where_interpreted<M: Memory>(b: BlockModel, m: Machine<M>)
    requires
        b.code.len() > 0,
        recompiler_laws::about_to_run(m, b.code.last()),
        !emitter::sets_counter(b.code.last().info().op),
    ensures
        ({
            let head = "#[inline(never)]\nfn "@ + emitter::block_name(b)
                + "(s: &mut CpuState, bus: &mut Bus) {\n"@ + emitter::lines_text(
                b.code,
                b.code.len() as int,
            );
            emitter::block_text(b) == head + ("    s.pc = 0x"@ + emitter::hex4(m.ran().cpu.pc)
                + ";\n}\n\n"@)
        }),
{
    reveal(emitter::block_text);
    let last = b.code.last();
    recompiler_laws::processor_goes_on(m, last);
    if last.ends_block() {
        assert(last.successors().len() <= 1 ==> m.ran().cpu.pc == last.successors()[0]);
    }
}

/// The key that the written dispatch looks up: 255 in the fixed half of program space, else
/// the selected bank.
pub open spec fn looked_up(bank: int, pc: u16) -> int {
    if pc >= 0xC000 {
        255
    } else {
        bank
    }
}

/// Each block is found under its own bank and address, and two blocks at different places
/// under different keys.
pub proof fn blocks_are_dispatched(a: BlockModel, b: BlockModel)
    requires
        a.bank >= 0,
        b.bank >= 0,
    ensures
        emitter::block_key(a) == looked_up(a.bank as int, a.start),
        a.start != b.start || (a.start < 0xC000 && a.bank != b.bank) ==> (
            emitter::block_key(a),
            a.start,
        ) != (emitter::block_key(b), b.start),
{
}

/// Sixty frames last a second, to within a frame's rounding.
pub proof fn frames_last(n: int)
    requires
        0 <= n,
    ensures
        0 <= 3 * pacing::FRAME_NS * n - 50000000 * n <= n,
{
    assert(3 * pacing::FRAME_NS == 50000001);
}

/// A frame that is done early waits for the rest of its time; one that is late does not wait.
/// A schedule that falls more than three frames behind starts over.
pub proof fn frames_wait(due: int, now: int)
    ensures
        pacing::wait_for(due, now) >= 0,
        now <= due + pacing::FRAME_NS ==> now + pacing::wait_for(due, now) == due
            + pacing::FRAME_NS,
        now > due + pacing::FRAME_NS ==> pacing::wait_for(due, now) == 0,
        now > due + 4 * pacing::FRAME_NS ==> pacing::rescheduled(due, now) == now,
        now <= due + 4 * pacing::FRAME_NS ==> pacing::rescheduled(due, now) - due
            == pacing::FRAME_NS,
{
}

/// Of a second's 1789773 cycles a sample is taken 44100 times, to within one unit of the
/// phase for each sample.
pub proof fn samples_divide_the_second()
    ensures
        0 <= 44100 * apu::PHASE_SAMPLE - 1789773 * apu::PHASE_CYCLE < 44100,
{
}

/// A tile that is drawn shows its pattern: the low bits lie eight bytes before the high
/// bits, the leftmost pixel in the highest bit. Mirroring turns it left to right or top to
/// bottom; pixels of value 0 and those outside it keep their colour.
#[verifier::rlimit(50)]
pub proof fn tiles_are_drawn(
    chr: Seq<u8>,
    tile_addr: int,
    pal: Seq<u8>,
    x: int,
    y: int,
    flip_h: bool,
    flip_v: bool,
    dx: int,
    dy: int,
    c: (u8, u8, u8),
)
    requires
        0 <= tile_addr,
        tile_addr + 16 <= chr.len(),
        0 <= x + dx < 256,
        0 <= y + dy < 240,
    ensures
        ({
            let after = renderer::tile_over(
                chr,
                tile_addr,
                pal,
                x,
                y,
                flip_h,
                flip_v,
                256 * (y + dy) + x + dx,
                c,
            );
            let inside = 0 <= dx < 8 && 0 <= dy < 8;
            let row = if flip_v {
                7 - dy
            } else {
                dy
            };
            let bit = if flip_h {
                dx
            } else {
                7 - dx
            };
            let pixel = picture_laws::two_bits(
                bits::bit8(chr[tile_addr + row], bit),
                bits::bit8(chr[tile_addr + row + 8], bit),
            );
            &&& inside && pixel > 0 ==> after == renderer::color_of(pal[pixel])
            &&& inside && pixel == 0 ==> after == c
            &&& !inside ==> after == c
        }),
{
    let p = 256 * (y + dy) + x + dx;
    assert(p % 256 == x + dx && p / 256 == y + dy);
}

/// The comment beside an instruction names its operation by three letters.
#[verifier::rlimit(50)]
pub proof fn operations_are_named(op: Op)
    ensures
        op == Op::Asl || op == Op::AslA ==> emitter::op_name(op) == seq!['A', 'S', 'L'],
        op == Op::Lsr || op == Op::LsrA ==> emitter::op_name(op) == seq!['L', 'S', 'R'],
        op == Op::Rol || op == Op::RolA ==> emitter::op_name(op) == seq!['R', 'O', 'L'],
        op == Op::Ror || op == Op::RorA ==> emitter::op_name(op) == seq!['R', 'O', 'R'],
        op == Op::Cpa ==> emitter::op_name(op) == seq!['C', 'M', 'P'],
        op == Op::Jmp || op == Op::JmpIndirect ==> emitter::op_name(op) == seq!['J', 'M', 'P'],
        op == Op::Adc ==> emitter::op_name(op) == seq!['A', 'D', 'C'],
        op == Op::And ==> emitter::op_name(op) == seq!['A', 'N', 'D'],
        op == Op::Bcc ==> emitter::op_name(op) == seq!['B', 'C', 'C'],
        op == Op::Bcs ==> emitter::op_name(op) == seq!['B', 'C', 'S'],
        op == Op::Beq ==> emitter::op_name(op) == seq!['B', 'E', 'Q'],
        op == Op::Bit ==> emitter::op_name(op) == seq!['B', 'I', 'T'],
        op == Op::Bmi ==> emitter::op_name(op) == seq!['B', 'M', 'I'],
        op == Op::Bne ==> emitter::op_name(op) == seq!['B', 'N', 'E'],
        op == Op::Bpl ==> emitter::op_name(op) == seq!['B', 'P', 'L'],
        op == Op::Brk ==> emitter::op_name(op) == seq!['B', 'R', 'K'],
        op == Op::Bvc ==> emitter::op_name(op) == seq!['B', 'V', 'C'],
        op == Op::Bvs ==> emitter::op_name(op) == seq!['B', 'V', 'S'],
        op == Op::Clc ==> emitter::op_name(op) == seq!['C', 'L', 'C'],
        op == Op::Cld ==> emitter::op_name(op) == seq!['C', 'L', 'D'],
        op == Op::Cli ==> emitter::op_name(op) == seq!['C', 'L', 'I'],
        op == Op::Clv ==> emitter::op_name(op) == seq!['C', 'L', 'V'],
        op == Op::Cpx ==> emitter::op_name(op) == seq!['C', 'P', 'X'],
        op == Op::Cpy ==> emitter::op_name(op) == seq!['C', 'P', 'Y'],
        op == Op::Dcp ==> emitter::op_name(op) == seq!['D', 'C', 'P'],
        op == Op::Dec ==> emitter::op_name(op) == seq!['D', 'E', 'C'],
        op == Op::Dex ==> emitter::op_name(op) == seq!['D', 'E', 'X'],
        op == Op::Dey ==> emitter::op_name(op) == seq!['D', 'E', 'Y'],
        op == Op::Eor ==> emitter::op_name(op) == seq!['E', 'O', 'R'],
        op == Op::Inc ==> emitter::op_name(op) == seq!['I', 'N', 'C'],
        op == Op::Inx ==> emitter::op_name(op) == seq!['I', 'N', 'X'],
        op == Op::Iny ==> emitter::op_name(op) == seq!['I', 'N', 'Y'],
        op == Op::Isb ==> emitter::op_name(op) == seq!['I', 'S', 'B'],
        op == Op::Jsr ==> emitter::op_name(op) == seq!['J', 'S', 'R'],
        op == Op::Lax ==> emitter::op_name(op) == seq!['L', 'A', 'X'],
        op == Op::Lda ==> emitter::op_name(op) == seq!['L', 'D', 'A'],
        op == Op::Ldx ==> emitter::op_name(op) == seq!['L', 'D', 'X'],
        op == Op::Ldy ==> emitter::op_name(op) == seq!['L', 'D', 'Y'],
        op == Op::Ora ==> emitter::op_name(op) == seq!['O', 'R', 'A'],
        op == Op::Pha ==> emitter::op_name(op) == seq!['P', 'H', 'A'],
        op == Op::Php ==> emitter::op_name(op) == seq!['P', 'H', 'P'],
        op == Op::Pla ==> emitter::op_name(op) == seq!['P', 'L', 'A'],
        op == Op::Plp ==> emitter::op_name(op) == seq!['P', 'L', 'P'],
        op == Op::Rla ==> emitter::op_name(op) == seq!['R', 'L', 'A'],
        op == Op::Rra ==> emitter::op_name(op) == seq!['R', 'R', 'A'],
        op == Op::Rti ==> emitter::op_name(op) == seq!['R', 'T', 'I'],
        op == Op::Rts ==> emitter::op_name(op) == seq!['R', 'T', 'S'],
        op == Op::Sax ==> emitter::op_name(op) == seq!['S', 'A', 'X'],
        op == Op::Sbc ==> emitter::op_name(op) == seq!['S', 'B', 'C'],
        op == Op::Sec ==> emitter::op_name(op) == seq!['S', 'E', 'C'],
        op == Op::Sed ==> emitter::op_name(op) == seq!['S', 'E', 'D'],
        op == Op::Sei ==> emitter::op_name(op) == seq!['S', 'E', 'I'],
        op == Op::Slo ==> emitter::op_name(op) == seq!['S', 'L', 'O'],
        op == Op::Sre ==> emitter::op_name(op) == seq!['S', 'R', 'E'],
        op == Op::Sta ==> emitter::op_name(op) == seq!['S', 'T', 'A'],
        op == Op::Stx ==> emitter::op_name(op) == seq!['S', 'T', 'X'],
        op == Op::Sty ==> emitter::op_name(op) == seq!['S', 'T', 'Y'],
        op == Op::Tax ==> emitter::op_name(op) == seq!['T', 'A', 'X'],
        op == Op::Tay ==> emitter::op_name(op) == seq!['T', 'A', 'Y'],
        op == Op::Tsx ==> emitter::op_name(op) == seq!['T', 'S', 'X'],
        op == Op::Txa ==> emitter::op_name(op) == seq!['T', 'X', 'A'],
        op == Op::Txs ==> emitter::op_name(op) == seq!['T', 'X', 'S'],
        op == Op::Tya ==> emitter::op_name(op) == seq!['T', 'Y', 'A'],
        op == Op::Nop ==> emitter::op_name(op) == seq!['N', 'O', 'P'],
{
    reveal_strlit("ASL");
    reveal_strlit("LSR");
    reveal_strlit("ROL");
    reveal_strlit("ROR");
    reveal_strlit("CMP");
    reveal_strlit("JMP");
    reveal_strlit("ADC");
    reveal_strlit("AND");
    reveal_strlit("BCC");
    reveal_strlit("BCS");
    reveal_strlit("BEQ");
    reveal_strlit("BIT");
    reveal_strlit("BMI");
    reveal_strlit("BNE");
    reveal_strlit("BPL");
    reveal_strlit("BRK");
    reveal_strlit("BVC");
    reveal_strlit("BVS");
    reveal_strlit("CLC");
    reveal_strlit("CLD");
    reveal_strlit("CLI");
    reveal_strlit("CLV");
    reveal_strlit("CPX");
    reveal_strlit("CPY");
    reveal_strlit("DCP");
    reveal_strlit("DEC");
    reveal_strlit("DEX");
    reveal_strlit("DEY");
    reveal_strlit("EOR");
    reveal_strlit("INC");
    reveal_strlit("INX");
    reveal_strlit("INY");
    reveal_strlit("ISB");
    reveal_strlit("JSR");
    reveal_strlit("LAX");
    reveal_strlit("LDA");
    reveal_strlit("LDX");
    reveal_strlit("LDY");
    reveal_strlit("ORA");
    reveal_strlit("PHA");
    reveal_strlit("PHP");
    reveal_strlit("PLA");
    reveal_strlit("PLP");
    reveal_strlit("RLA");
    reveal_strlit("RRA");
    reveal_strlit("RTI");
    reveal_strlit("RTS");
    reveal_strlit("SAX");
    reveal_strlit("SBC");
    reveal_strlit("SEC");
    reveal_strlit("SED");
    reveal_strlit("SEI");
    reveal_strlit("SLO");
    reveal_strlit("SRE");
    reveal_strlit("STA");
    reveal_strlit("STX");
    reveal_strlit("STY");
    reveal_strlit("TAX");
    reveal_strlit("TAY");
    reveal_strlit("TSX");
    reveal_strlit("TXA");
    reveal_strlit("TXS");
    reveal_strlit("TYA");
    reveal_strlit("NOP");
    assert("ASL"@ =~= seq!['A', 'S', 'L']);
    assert("LSR"@ =~= seq!['L', 'S', 'R']);
    assert("ROL"@ =~= seq!['R', 'O', 'L']);
    assert("ROR"@ =~= seq!['R', 'O', 'R']);
    assert("CMP"@ =~= seq!['C', 'M', 'P']);
    assert("JMP"@ =~= seq!['J', 'M', 'P']);
    assert("ADC"@ =~= seq!['A', 'D', 'C']);
    assert("AND"@ =~= seq!['A', 'N', 'D']);
    assert("BCC"@ =~= seq!['B', 'C', 'C']);
    assert("BCS"@ =~= seq!['B', 'C', 'S']);
    assert("BEQ"@ =~= seq!['B', 'E', 'Q']);
    assert("BIT"@ =~= seq!['B', 'I', 'T']);
    assert("BMI"@ =~= seq!['B', 'M', 'I']);
    assert("BNE"@ =~= seq!['B', 'N', 'E']);
    assert("BPL"@ =~= seq!['B', 'P', 'L']);
    assert("BRK"@ =~= seq!['B', 'R', 'K']);
    assert("BVC"@ =~= seq!['B', 'V', 'C']);
    assert("BVS"@ =~= seq!['B', 'V', 'S']);
    assert("CLC"@ =~= seq!['C', 'L', 'C']);
    assert("CLD"@ =~= seq!['C', 'L', 'D']);
    assert("CLI"@ =~= seq!['C', 'L', 'I']);
    assert("CLV"@ =~= seq!['C', 'L', 'V']);
    assert("CPX"@ =~= seq!['C', 'P', 'X']);
    assert("CPY"@ =~= seq!['C', 'P', 'Y']);
    assert("DCP"@ =~= seq!['D', 'C', 'P']);
    assert("DEC"@ =~= seq!['D', 'E', 'C']);
    assert("DEX"@ =~= seq!['D', 'E', 'X']);
    assert("DEY"@ =~= seq!['D', 'E', 'Y']);
    assert("EOR"@ =~= seq!['E', 'O', 'R']);
    assert("INC"@ =~= seq!['I', 'N', 'C']);
    assert("INX"@ =~= seq!['I', 'N', 'X']);
    assert("INY"@ =~= seq!['I', 'N', 'Y']);
    assert("ISB"@ =~= seq!['I', 'S', 'B']);
    assert("JSR"@ =~= seq!['J', 'S', 'R']);
    assert("LAX"@ =~= seq!['L', 'A', 'X']);
    assert("LDA"@ =~= seq!['L', 'D', 'A']);
    assert("LDX"@ =~= seq!['L', 'D', 'X']);
    assert("LDY"@ =~= seq!['L', 'D', 'Y']);
    assert("ORA"@ =~= seq!['O', 'R', 'A']);
    assert("PHA"@ =~= seq!['P', 'H', 'A']);
    assert("PHP"@ =~= seq!['P', 'H', 'P']);
    assert("PLA"@ =~= seq!['P', 'L', 'A']);
    assert("PLP"@ =~= seq!['P', 'L', 'P']);
    assert("RLA"@ =~= seq!['R', 'L', 'A']);
    assert("RRA"@ =~= seq!['R', 'R', 'A']);
    assert("RTI"@ =~= seq!['R', 'T', 'I']);
    assert("RTS"@ =~= seq!['R', 'T', 'S']);
    assert("SAX"@ =~= seq!['S', 'A', 'X']);
    assert("SBC"@ =~= seq!['S', 'B', 'C']);
    assert("SEC"@ =~= seq!['S', 'E', 'C']);
    assert("SED"@ =~= seq!['S', 'E', 'D']);
    assert("SEI"@ =~= seq!['S', 'E', 'I']);
    assert("SLO"@ =~= seq!['S', 'L', 'O']);
    assert("SRE"@ =~= seq!['S', 'R', 'E']);
    assert("STA"@ =~= seq!['S', 'T', 'A']);
    assert("STX"@ =~= seq!['S', 'T', 'X']);
    assert("STY"@ =~= seq!['S', 'T', 'Y']);
    assert("TAX"@ =~= seq!['T', 'A', 'X']);
    assert("TAY"@ =~= seq!['T', 'A', 'Y']);
    assert("TSX"@ =~= seq!['T', 'S', 'X']);
    assert("TXA"@ =~= seq!['T', 'X', 'A']);
    assert("TXS"@ =~= seq!['T', 'X', 'S']);
    assert("TYA"@ =~= seq!['T', 'Y', 'A']);
    assert("NOP"@ =~= seq!['N', 'O', 'P']);
}

/// A block ends with an instruction that may go elsewhere, and with a store to a fixed
/// address that switches the bank or starts a transfer; with no other.
pub proof fn blocks_end(i: Instruction)
    ensures
        ({
            let class = instr::class_of(i.info().op);
            let stack = i.info().op == Op::Pha || i.info().op == Op::Php || i.info().op == Op::Pla
                || i.info().op == Op::Plp;
            &&& class == Class::Branch ==> i.ends_block()
            &&& class == Class::Control ==> (i.ends_block() <==> !stack)
            &&& class == Class::Store ==> (i.ends_block() <==> i.info().mode == Mode::Absolute && (
            i.word() == 0x4014 || i.word() >= 0x8000))
            &&& class == Class::Read || class == Class::Modify || class == Class::Register
                ==> !i.ends_block()
        }),
{
}

/// Where a search of a switchable bank begins: at every address of it that is jumped to or
/// called, and at its first where that is asked for; in ascending order.
#[verifier::rlimit(50)]
pub proof fn searches_begin(blocks: Seq<BlockModel>, common: bool, n: int)
    requires
        0x8000 <= n <= 0xC000,
    ensures
        ({
            let entries = recompiler::entries_below(blocks, common, n);
            &&& forall|a: int, b: int|
                0 <= a < b < entries.len() ==> #[trigger] entries[a] < #[trigger] entries[b]
            &&& forall|a: int|
                0 <= a < entries.len() ==> 0x8000 <= #[trigger] entries[a] < n
            &&& forall|at: u16|
                entries.contains(at) <==> 0x8000 <= at < n && (recompiler::called(
                    blocks,
                    at as int,
                ) || (common && at == 0x8000))
        }),
    decreases n,
{
    if n > 0x8000 {
        searches_begin(blocks, common, n - 1);
        let before = recompiler::entries_below(blocks, common, n - 1);
        let entries = recompiler::entries_below(blocks, common, n);
        assert forall|at: u16|
            entries.contains(at) <==> 0x8000 <= at < n && (recompiler::called(blocks, at as int)
                || (common && at == 0x8000)) by {
            if entries == before {
                assert(before.contains(at) <==> 0x8000 <= at < n - 1 && (recompiler::called(
                    blocks,
                    at as int,
                ) || (common && at == 0x8000)));
            } else {
                assert(entries == before.push((n - 1) as u16));
                assert(entries[before.len() as int] == n - 1);
                if before.contains(at) {
                    let k = before.index_of(at);
                    assert(entries[k] == at);
                }
                if entries.contains(at) && at != n - 1 {
                    let k = entries.index_of(at);
                    assert(before[k] == at);
                }
            }
        }
    }
}

/// A jump or a call leads into the switchable bank if its target lies there.
pub proof fn calls_into_banks(i: Instruction)
    ensures
        i.calls_bank() <==> (i.opcode == 0x20 || i.opcode == 0x4C) && i.word() / 16384 == 2,
{
}

/// An arm of the written dispatch: its key and address lead to its block.
pub proof fn arms_lead_to_blocks(b: BlockModel)
    requires
        b.bank >= 0,
    ensures
        emitter::arm_text(b) == "        ("@ + emitter::decimal(
            looked_up(b.bank, b.start) as nat,
        ) + ", 0x"@ + emitter::hex4(b.start) + ") => "@ + emitter::block_name(b) + "(s, bus),\n"@,
        b.start >= 0xC000 ==> emitter::block_name(b) == "block_fx"@ + "_0x"@ + emitter::hex4(
            b.start,
        ),
        b.start < 0xC000 ==> emitter::block_name(b) == "block_b"@ + emitter::decimal(b.bank as nat)
            + "_0x"@ + emitter::hex4(b.start),
{
    reveal(emitter::arm_text);
    reveal(emitter::block_name);
}

} // verus!
