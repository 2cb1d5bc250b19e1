//! Finds the code in a program: disassembly by recursive descent into blocks of
//! straight-line code.
//!
//! A block begins where something jumps to and ends with the first instruction that
//! leaves straight-line code: a branch, jump, call or return, or a store that starts a
//! transfer or switches banks. An instruction belongs to at most one block.

use std::collections::VecDeque;
use vstd::prelude::*;
use vstd::slice::{slice_subrange, slice_to_vec};
use crate::bits;
use crate::cartridge;
use crate::cartridge::PRG_BANK_SIZE;
use crate::cpu;
use crate::instr;
use crate::instr::{decode, Instr, Mode, Op};
use crate::machine;

verus! {

/// A decoded instruction.
#[derive(Clone, Copy)]
pub struct Instruction {
    pub addr: u16,
    pub opcode: u8,
    /// The bytes after the opcode, 0 where there are none.
    pub operand: (u8, u8),
}

/// Straight-line code.
pub struct Block {
    /// The bank at $8000 when the code was found; the last bank stands for itself.
    pub bank: usize,
    pub start: u16,
    pub instructions: Vec<Instruction>,
}

/// What a block holds.
#[verifier::ext_equal]
pub ghost struct BlockModel {
    pub bank: int,
    pub start: u16,
    pub code: Seq<Instruction>,
}

impl View for Block {
    type V = BlockModel;

    open spec fn view(&self) -> BlockModel {
        BlockModel { bank: self.bank as int, start: self.start, code: self.instructions@ }
    }
}

/// What a list of blocks holds.
pub open spec fn models(blocks: Seq<Block>) -> Seq<BlockModel> {
    Seq::new(blocks.len(), |i: int| blocks[i]@)
}

/// The contents of program banks.
pub open spec fn rom_of(banks: Seq<Vec<u8>>) -> Seq<Seq<u8>> {
    Seq::new(banks.len(), |i: int| banks[i]@)
}

/// There is a bank, and every bank has its 16 KB.
pub open spec fn valid_rom(rom: Seq<Seq<u8>>) -> bool {
    rom.len() > 0 && forall|i: int| 0 <= i < rom.len() ==> (#[trigger] rom[i]).len() == 16384
}

/// The image has a header and all of its program.
pub open spec fn has_program(data: Seq<u8>) -> bool {
    data.len() >= 16 && cartridge::has_magic(data) && data.len() >= cartridge::chr_start(data)
}

/// Whether the image has a program that can be compiled.
pub fn can_compile(data: &[u8]) -> (fits: bool)
    ensures
        fits == (has_program(data@) && data@[4] > 0),
{
    if data.len() < 16 {
        return false;
    }
    if !(data[0] == 0x4E && data[1] == 0x45 && data[2] == 0x53 && data[3] == 0x1A) {
        return false;
    }
    proof {
        bits::lemma_bit8(data[6]);
    }
    let start: usize = if data[6] & 4 != 0 {
        528
    } else {
        16
    };
    data[4] > 0 && data.len() >= start + data[4] as usize * PRG_BANK_SIZE
}

/// The program banks of an image.
pub open spec fn image_rom(data: Seq<u8>) -> Seq<Seq<u8>> {
    Seq::new(
        data[4] as nat,
        |i: int|
            data.subrange(
                cartridge::prg_start(data) + i * 16384,
                cartridge::prg_start(data) + i * 16384 + 16384,
            ),
    )
}

/// Splits an iNES image into its program banks. Also returns their number, and 1 for
/// vertical mirroring and 0 for horizontal.
pub fn parse_ines(data: &[u8]) -> (parsed: (Vec<Vec<u8>>, usize, u8))
    requires
        has_program(data@),
    ensures
        rom_of(parsed.0@) == image_rom(data@),
        data@[4] > 0 ==> valid_rom(rom_of(parsed.0@)),
        parsed.1 == data@[4],
        parsed.2 == (if bits::bit8(data@[6], 0) {
            1int
        } else {
            0
        }),
{
    let count: usize = data[4] as usize;
    proof {
        bits::lemma_bit8(data[6]);
    }
    let mirroring: u8 = if data[6] & 1 == 1 {
        1
    } else {
        0
    };
    let start: usize = if data[6] & 4 != 0 {
        528
    } else {
        16
    };
    let mut banks: Vec<Vec<u8>> = Vec::new();
    let mut i: usize = 0;
    while i < count
        invariant
            i <= count <= 255,
            start == cartridge::prg_start(data@),
            start <= 528,
            start + count * 16384 <= data@.len(),
            banks@.len() == i,
            forall|k: int|
                0 <= k < i ==> #[trigger] banks@[k]@ == data@.subrange(
                    start + k * 16384,
                    start + k * 16384 + 16384,
                ),
        decreases count - i,
    {
        let from: usize = start + i * PRG_BANK_SIZE;
        banks.push(slice_to_vec(slice_subrange(data, from, from + PRG_BANK_SIZE)));
        i = i + 1;
    }
    assert(rom_of(banks@) =~= image_rom(data@));
    (banks, count, mirroring)
}

/// The byte at a program address when `bank` is selected; 0 below the program.
pub open spec fn byte_at(rom: Seq<Seq<u8>>, bank: int, addr: u16) -> u8 {
    if addr >= 0xC000 {
        rom.last()[addr - 0xC000]
    } else if addr >= 0x8000 {
        rom[bank][addr - 0x8000]
    } else {
        0
    }
}

pub fn read_prg(banks: &[Vec<u8>], bank: usize, addr: u16) -> (val: u8)
    requires
        valid_rom(rom_of(banks@)),
        bank < banks@.len(),
    ensures
        val == byte_at(rom_of(banks@), bank as int, addr),
{
    let ghost rom = rom_of(banks@);
    assert(rom[bank as int].len() == 16384);
    assert(rom[rom.len() - 1].len() == 16384);
    if addr >= 0xC000 {
        banks[banks.len() - 1][(addr - 0xC000) as usize]
    } else if addr >= 0x8000 {
        banks[bank][(addr - 0x8000) as usize]
    } else {
        0
    }
}

/// Bytes that an instruction takes.
pub open spec fn length_of(mode: Mode) -> int {
    match mode {
        Mode::Implied => 1,
        Mode::Absolute | Mode::AbsoluteX | Mode::AbsoluteY | Mode::Skip2 => 3,
        _ => 2,
    }
}

fn length(mode: Mode) -> (n: u16)
    ensures
        n == length_of(mode),
        1 <= n <= 3,
{
    match mode {
        Mode::Implied => 1,
        Mode::Absolute | Mode::AbsoluteX | Mode::AbsoluteY | Mode::Skip2 => 3,
        _ => 2,
    }
}

/// The instruction at an address.
pub open spec fn decoded(rom: Seq<Seq<u8>>, bank: int, addr: u16) -> Instruction {
    let opcode = byte_at(rom, bank, addr);
    let n = length_of(instr::instr_of(opcode).mode);
    Instruction {
        addr,
        opcode,
        operand: (
            if n >= 2 {
                byte_at(rom, bank, addr.wrapping_add(1))
            } else {
                0
            },
            if n >= 3 {
                byte_at(rom, bank, addr.wrapping_add(2))
            } else {
                0
            },
        ),
    }
}

impl Instruction {
    /// Its entry in the opcode table.
    pub open spec fn info(self) -> Instr {
        instr::instr_of(self.opcode)
    }

    /// The operand as a word.
    pub open spec fn word(self) -> u16 {
        bits::word(self.operand.0, self.operand.1)
    }

    /// The address behind it.
    pub open spec fn after(self) -> u16 {
        self.addr.wrapping_add(length_of(self.info().mode) as u16)
    }

    /// A store to an address that starts a transfer or switches banks.
    pub open spec fn switches(self) -> bool {
        &&& self.info().op is Sta || self.info().op is Stx || self.info().op is Sty
            || self.info().op is Sax
        &&& self.info().mode is Absolute
        &&& self.word() == 0x4014 || self.word() >= 0x8000
    }

    /// It leaves straight-line code.
    pub open spec fn ends_block(self) -> bool {
        match self.info().op {
            Op::Bpl | Op::Bmi | Op::Bvc | Op::Bvs | Op::Bcc | Op::Bcs | Op::Bne | Op::Beq => true,
            Op::Jmp | Op::JmpIndirect | Op::Jsr | Op::Rts | Op::Rti | Op::Brk => true,
            _ => self.switches(),
        }
    }

    /// Where the program goes on after it, as far as that can be told. Only for
    /// instructions that end a block.
    pub open spec fn successors(self) -> Seq<u16> {
        match self.info().op {
            Op::Bpl | Op::Bmi | Op::Bvc | Op::Bvs | Op::Bcc | Op::Bcs | Op::Bne | Op::Beq => {
                seq![machine::branch_target(self.after(), self.operand.0), self.after()]
            },
            Op::Jmp => seq![self.word()],
            Op::Jsr => seq![self.word(), self.after()],
            Op::JmpIndirect | Op::Rts | Op::Rti | Op::Brk => Seq::empty(),
            _ => seq![self.after()],
        }
    }

    /// A jump or call into the switchable bank.
    pub open spec fn calls_bank(self) -> bool {
        (self.info().op is Jsr || self.info().op is Jmp) && 0x8000 <= self.word() < 0xC000
    }

    /// Decodes the instruction at an address.
    fn read(banks: &[Vec<u8>], bank: usize, addr: u16) -> (i: Instruction)
        requires
            valid_rom(rom_of(banks@)),
            bank < banks@.len(),
        ensures
            i == decoded(rom_of(banks@), bank as int, addr),
    {
        let opcode: u8 = read_prg(banks, bank, addr);
        let n: u16 = length(decode(opcode).mode);
        let first: u8 = if n >= 2 {
            read_prg(banks, bank, addr.wrapping_add(1))
        } else {
            0
        };
        let second: u8 = if n >= 3 {
            read_prg(banks, bank, addr.wrapping_add(2))
        } else {
            0
        };
        Instruction { addr, opcode, operand: (first, second) }
    }

    /// The operand as a word.
    pub fn operand_word(&self) -> (w: u16)
        ensures
            w == self.word(),
    {
        cpu::join(self.operand.0, self.operand.1)
    }

    /// The address behind it.
    pub fn next_address(&self) -> (addr: u16)
        ensures
            addr == self.after(),
    {
        self.addr.wrapping_add(length(decode(self.opcode).mode))
    }

    fn is_last(&self) -> (last: bool)
        ensures
            last == self.ends_block(),
    {
        let info: Instr = decode(self.opcode);
        match info.op {
            Op::Bpl | Op::Bmi | Op::Bvc | Op::Bvs | Op::Bcc | Op::Bcs | Op::Bne | Op::Beq => true,
            Op::Jmp | Op::JmpIndirect | Op::Jsr | Op::Rts | Op::Rti | Op::Brk => true,
            Op::Sta | Op::Stx | Op::Sty | Op::Sax => {
                let word: u16 = self.operand_word();
                info.mode == Mode::Absolute && (word == 0x4014 || word >= 0x8000)
            },
            _ => false,
        }
    }

    /// Adds the addresses where the program goes on.
    fn push_successors(&self, work: &mut VecDeque<u16>)
        ensures
            final(work)@ == old(work)@ + self.successors(),
    {
        let next: u16 = self.next_address();
        let word: u16 = self.operand_word();
        match decode(self.opcode).op {
            Op::Bpl | Op::Bmi | Op::Bvc | Op::Bvs | Op::Bcc | Op::Bcs | Op::Bne | Op::Beq => {
                work.push_back(cpu::relative(next, self.operand.0));
                work.push_back(next);
            },
            Op::Jmp => {
                work.push_back(word);
            },
            Op::Jsr => {
                work.push_back(word);
                work.push_back(next);
            },
            Op::JmpIndirect | Op::Rts | Op::Rti | Op::Brk => {},
            _ => {
                work.push_back(next);
            },
        }
        assert(work@ =~= old(work)@ + self.successors());
    }

    fn enters_bank(&self) -> (yes: bool)
        ensures
            yes == self.calls_bank(),
    {
        let op: Op = decode(self.opcode).op;
        let word: u16 = self.operand_word();
        (op == Op::Jsr || op == Op::Jmp) && 0x8000 <= word && word < 0xC000
    }
}

/// The straight-line code at an address, up to the first instruction that ends a block,
/// the first address that has been visited or the end of the address space.
pub open spec fn straight(
    rom: Seq<Seq<u8>>,
    bank: int,
    addr: u16,
    visited: Seq<bool>,
) -> Seq<Instruction>
    decreases 65536 - addr,
{
    if addr < 0x8000 || visited[addr as int] {
        Seq::empty()
    } else {
        let i = decoded(rom, bank, addr);
        if i.ends_block() || i.after() <= addr {
            seq![i]
        } else {
            seq![i] + straight(rom, bank, i.after(), visited)
        }
    }
}

/// The addresses visited once a block's instructions are.
pub open spec fn visiting(visited: Seq<bool>, code: Seq<Instruction>) -> Seq<bool>
    decreases code.len(),
{
    if code.len() == 0 {
        visited
    } else {
        visiting(visited, code.drop_last()).update(code.last().addr as int, true)
    }
}

/// A search for code: addresses to look at, addresses that belong to a block, and the
/// blocks found.
#[verifier::ext_equal]
pub ghost struct Search {
    pub work: Seq<u16>,
    pub visited: Seq<bool>,
    pub blocks: Seq<BlockModel>,
}

/// A search of `bank` looks for code at this address. The fixed bank's code is found by the
/// search of that bank alone.
pub open spec fn in_reach(rom: Seq<Seq<u8>>, bank: int, addr: u16) -> bool {
    addr >= 0x8000 && (bank == rom.len() - 1 || addr < 0xC000)
}

impl Search {
    /// A search that begins at the given addresses.
    pub open spec fn from(entries: Seq<u16>) -> Search {
        Search {
            work: entries,
            visited: Seq::new(65536, |a: int| false),
            blocks: Seq::empty(),
        }
    }

    /// The code at the first address to look at becomes a block, unless it belongs to one
    /// already; where it leads to is looked at later.
    pub open spec fn stepped(self, rom: Seq<Seq<u8>>, bank: int) -> Search {
        if self.work.len() == 0 {
            self
        } else {
            let start = self.work[0];
            let rest = self.work.subrange(1, self.work.len() as int);
            if self.visited[start as int] || !in_reach(rom, bank, start) {
                Search { work: rest, ..self }
            } else {
                let code = straight(rom, bank, start, self.visited);
                Search {
                    work: if code.last().ends_block() {
                        rest + code.last().successors()
                    } else {
                        rest
                    },
                    visited: visiting(self.visited, code),
                    blocks: self.blocks.push(BlockModel { bank, start, code }),
                }
            }
        }
    }

    /// `n` steps.
    pub open spec fn steps(self, rom: Seq<Seq<u8>>, bank: int, n: nat) -> Search
        decreases n,
    {
        if n == 0 {
            self
        } else {
            self.steps(rom, bank, (n - 1) as nat).stepped(rom, bank)
        }
    }

    /// Nothing is left to look at.
    pub open spec fn done(self) -> bool {
        self.work.len() == 0
    }

    /// The search at its end.
    pub open spec fn finished(self, rom: Seq<Seq<u8>>, bank: int) -> Search {
        self.steps(rom, bank, choose|n: nat| (#[trigger] self.steps(rom, bank, n)).done())
    }
}

/// The blocks that a search from the given addresses finds.
pub open spec fn bank_blocks(
    rom: Seq<Seq<u8>>,
    bank: int,
    entries: Seq<u16>,
) -> Seq<BlockModel> {
    Search::from(entries).finished(rom, bank).blocks
}

/// A search that has ended stays as it is.
proof fn lemma_done_stays(s: Search, rom: Seq<Seq<u8>>, bank: int, n: nat, m: nat)
    requires
        s.steps(rom, bank, n).done(),
        n <= m,
    ensures
        s.steps(rom, bank, m) == s.steps(rom, bank, n),
    decreases m - n,
{
    if n < m {
        lemma_done_stays(s, rom, bank, n, (m - 1) as nat);
    }
}

/// However long a search runs, it ends the same way.
pub proof fn lemma_finished(s: Search, rom: Seq<Seq<u8>>, bank: int, n: nat)
    requires
        s.steps(rom, bank, n).done(),
    ensures
        s.finished(rom, bank) == s.steps(rom, bank, n),
{
    let m = choose|m: nat| (#[trigger] s.steps(rom, bank, m)).done();
    if n <= m {
        lemma_done_stays(s, rom, bank, n, m);
    } else {
        lemma_done_stays(s, rom, bank, m, n);
    }
}

/// Addresses not visited.
pub open spec fn unvisited(visited: Seq<bool>) -> nat
    decreases visited.len(),
{
    if visited.len() == 0 {
        0
    } else {
        unvisited(visited.drop_last()) + (if visited.last() {
            0nat
        } else {
            1
        })
    }
}

proof fn lemma_visit(visited: Seq<bool>, a: int)
    requires
        0 <= a < visited.len(),
    ensures
        unvisited(visited.update(a, true)) == unvisited(visited) - (if visited[a] {
            0int
        } else {
            1
        }),
    decreases visited.len(),
{
    let v = visited.update(a, true);
    if a == visited.len() - 1 {
        assert(v.drop_last() =~= visited.drop_last());
    } else {
        assert(v.drop_last() =~= visited.drop_last().update(a, true));
        lemma_visit(visited.drop_last(), a);
    }
}

/// A block's instructions are visited, and nothing else.
pub proof fn lemma_visiting(visited: Seq<bool>, code: Seq<Instruction>)
    requires
        visited.len() == 65536,
    ensures
        visiting(visited, code).len() == 65536,
        unvisited(visiting(visited, code)) <= unvisited(visited),
        forall|a: u16| #[trigger]
            visiting(visited, code)[a as int] == (visited[a as int] || exists|k: int|
                0 <= k < code.len() && #[trigger] code[k].addr == a),
    decreases code.len(),
{
    if code.len() > 0 {
        let less = code.drop_last();
        lemma_visiting(visited, less);
        lemma_visit(visiting(visited, less), code.last().addr as int);
        assert forall|a: u16| #[trigger]
            visiting(visited, code)[a as int] == (visited[a as int] || exists|k: int|
                0 <= k < code.len() && #[trigger] code[k].addr == a) by {
            if a == code.last().addr {
                assert(code[code.len() - 1].addr == a);
            } else if visiting(visited, less)[a as int] && !visited[a as int] {
                let k = choose|k: int| 0 <= k < less.len() && #[trigger] less[k].addr == a;
                assert(code[k].addr == a);
            } else if exists|k: int| 0 <= k < code.len() && #[trigger] code[k].addr == a {
                let k = choose|k: int| 0 <= k < code.len() && #[trigger] code[k].addr == a;
                assert(less[k].addr == a);
            }
        }
    }
}

/// A new block takes its first address.
pub proof fn lemma_visiting_shrinks(visited: Seq<bool>, code: Seq<Instruction>)
    requires
        visited.len() == 65536,
        code.len() > 0,
        !visited[code[0].addr as int],
    ensures
        unvisited(visiting(visited, code)) < unvisited(visited),
    decreases code.len(),
{
    let less = code.drop_last();
    lemma_visiting(visited, less);
    lemma_visit(visiting(visited, less), code.last().addr as int);
    if code.len() > 1 {
        lemma_visiting_shrinks(visited, less);
    } else {
        assert(less.len() == 0);
    }
}

/// Where straight-line code begins and how far it reaches.
proof fn lemma_straight(rom: Seq<Seq<u8>>, bank: int, addr: u16, visited: Seq<bool>)
    requires
        addr >= 0x8000,
        !visited[addr as int],
    ensures
        ({
            let code = straight(rom, bank, addr, visited);
            &&& code.len() > 0
            &&& code[0] == decoded(rom, bank, addr)
        }),
{
}

/// Reads straight-line code.
fn read_straight(banks: &[Vec<u8>], bank: usize, start: u16, visited: &Vec<bool>) -> (code: Vec<
    Instruction,
>)
    requires
        valid_rom(rom_of(banks@)),
        bank < banks@.len(),
        visited@.len() == 65536,
        start >= 0x8000,
        !visited@[start as int],
    ensures
        code@ == straight(rom_of(banks@), bank as int, start, visited@),
{
    let ghost rom = rom_of(banks@);
    let mut code: Vec<Instruction> = Vec::new();
    let mut addr: u16 = start;
    let ghost whole = straight(rom, bank as int, start, visited@);
    let mut more: bool = true;
    assert(code@ + straight(rom, bank as int, addr, visited@) =~= whole);
    while more && addr >= 0x8000 && !visited[addr as usize]
        invariant
            rom == rom_of(banks@),
            valid_rom(rom),
            bank < banks@.len(),
            visited@.len() == 65536,
            more ==> code@ + straight(rom, bank as int, addr, visited@) == whole,
            !more ==> code@ == whole,
        decreases 65536 - addr, more as int,
    {
        let i: Instruction = Instruction::read(banks, bank, addr);
        let next: u16 = i.next_address();
        let ghost before = code@;
        code.push(i);
        if i.is_last() || next <= addr {
            more = false;
            assert(code@ =~= before + seq![i]);
        } else {
            assert(code@ + straight(rom, bank as int, next, visited@) =~= before + (seq![i]
                + straight(rom, bank as int, next, visited@)));
            addr = next;
        }
    }
    assert(code@ + Seq::<Instruction>::empty() =~= code@);
    code
}

/// Searches a bank for code, from the given addresses on.
pub fn disassemble_bank(banks: &[Vec<u8>], bank: usize, entries: &[u16]) -> (blocks: Vec<Block>)
    requires
        valid_rom(rom_of(banks@)),
        bank < banks@.len(),
    ensures
        models(blocks@) == bank_blocks(rom_of(banks@), bank as int, entries@),
{
    let ghost rom = rom_of(banks@);
    let ghost first = Search::from(entries@);
    let mut blocks: Vec<Block> = Vec::new();
    let mut visited: Vec<bool> = vec![false; 65536];
    let mut work: VecDeque<u16> = VecDeque::new();
    let mut e: usize = 0;
    while e < entries.len()
        invariant
            e <= entries@.len(),
            work@ == entries@.take(e as int),
        decreases entries.len() - e,
    {
        work.push_back(entries[e]);
        e = e + 1;
        assert(work@ =~= entries@.take(e as int));
    }
    assert(work@ =~= entries@);
    assert(visited@ =~= first.visited);
    assert(models(blocks@) =~= first.blocks);
    let ghost mut n: nat = 0;
    while work.len() > 0
        invariant
            rom == rom_of(banks@),
            valid_rom(rom),
            bank < banks@.len(),
            visited@.len() == 65536,
            first.steps(rom, bank as int, n) == (Search {
                work: work@,
                visited: visited@,
                blocks: models(blocks@),
            }),
        decreases unvisited(visited@), work@.len(),
    {
        let ghost before = first.steps(rom, bank as int, n);
        let start: u16 = match work.pop_front() {
            Some(a) => a,
            None => 0,
        };
        proof {
            n = n + 1;
        }
        if !visited[start as usize] && start >= 0x8000 && (bank == banks.len() - 1 || start
            < 0xC000) {
            let code: Vec<Instruction> = read_straight(banks, bank, start, &visited);
            proof {
                lemma_straight(rom, bank as int, start, visited@);
                lemma_visiting_shrinks(visited@, code@);
                lemma_visiting(visited@, code@);
            }
            let mut k: usize = 0;
            let ghost was = visited@;
            assert(visited@ == visiting(was, code@.take(0)));
            while k < code.len()
                invariant
                    k <= code@.len(),
                    was.len() == 65536,
                    visited@.len() == 65536,
                    visited@ == visiting(was, code@.take(k as int)),
                decreases code@.len() - k,
            {
                visited.set(code[k].addr as usize, true);
                k = k + 1;
                assert(code@.take(k as int).drop_last() =~= code@.take(k - 1));
            }
            assert(code@.take(k as int) =~= code@);
            let last: Instruction = code[code.len() - 1];
            if last.is_last() {
                last.push_successors(&mut work);
            }
            let ghost found = models(blocks@);
            blocks.push(Block { bank, start, instructions: code });
            assert(models(blocks@) =~= found.push(blocks@.last()@));
        }
        assert(first.steps(rom, bank as int, n) =~= before.stepped(rom, bank as int));
    }
    proof {
        assert(first.steps(rom, bank as int, n).done());
        lemma_finished(first, rom, bank as int, n);
    }
    blocks
}

/// One of the blocks jumps to or calls this address of the switchable bank.
pub open spec fn called(blocks: Seq<BlockModel>, addr: int) -> bool {
    exists|b: int, k: int|
        0 <= b < blocks.len() && 0 <= k < blocks[b].code.len() && (
        #[trigger] blocks[b].code[k]).calls_bank() && blocks[b].code[k].word() == addr
}

/// The addresses of the switchable bank below `n` that are called, and $8000 where it is
/// asked for, in ascending order.
pub open spec fn entries_below(blocks: Seq<BlockModel>, common: bool, n: int) -> Seq<u16>
    decreases n,
{
    if n <= 0x8000 {
        Seq::empty()
    } else if called(blocks, n - 1) || (common && n - 1 == 0x8000) {
        entries_below(blocks, common, n - 1).push((n - 1) as u16)
    } else {
        entries_below(blocks, common, n - 1)
    }
}

/// Where the search of a switchable bank begins.
pub open spec fn switch_entries(blocks: Seq<BlockModel>, common: bool) -> Seq<u16> {
    entries_below(blocks, common, 0xC000)
}

/// The addresses that the interrupt vectors hold: reset, NMI and IRQ.
pub open spec fn vectors(rom: Seq<Seq<u8>>) -> Seq<u16> {
    let last = rom.last();
    seq![
        bits::word(last[0x3FFC], last[0x3FFD]),
        bits::word(last[0x3FFA], last[0x3FFB]),
        bits::word(last[0x3FFE], last[0x3FFF]),
    ]
}

/// The blocks of the fixed bank, found from the vectors.
pub open spec fn fixed_blocks(rom: Seq<Seq<u8>>) -> Seq<BlockModel> {
    bank_blocks(rom, rom.len() - 1, vectors(rom))
}

/// The fixed bank's blocks, and those of the first `n` switchable banks that can be
/// reached from it or begin the bank.
pub open spec fn first_pass(rom: Seq<Seq<u8>>, n: int) -> Seq<BlockModel>
    decreases n,
{
    if n <= 0 {
        fixed_blocks(rom)
    } else {
        first_pass(rom, n - 1) + bank_blocks(
            rom,
            n - 1,
            switch_entries(fixed_blocks(rom), true),
        )
    }
}

/// A block with this bank and start is in the list.
pub open spec fn listed(blocks: Seq<BlockModel>, b: BlockModel) -> bool {
    exists|i: int|
        0 <= i < blocks.len() && (#[trigger] blocks[i]).bank == b.bank && blocks[i].start
            == b.start
}

/// The first `n` of the new blocks are added, unless they are listed already.
pub open spec fn extended(
    blocks: Seq<BlockModel>,
    new: Seq<BlockModel>,
    n: int,
) -> Seq<BlockModel>
    decreases n,
{
    if n <= 0 {
        blocks
    } else {
        let less = extended(blocks, new, n - 1);
        if listed(less, new[n - 1]) {
            less
        } else {
            less.push(new[n - 1])
        }
    }
}

/// Whatever one bank calls is searched for in each of the first `n` switchable banks.
pub open spec fn second_pass(rom: Seq<Seq<u8>>, n: int) -> Seq<BlockModel>
    decreases n,
{
    let all = first_pass(rom, rom.len() - 1);
    if n <= 0 {
        all
    } else {
        let new = bank_blocks(rom, n - 1, switch_entries(all, false));
        extended(second_pass(rom, n - 1), new, new.len() as int)
    }
}

/// Two blocks lie at the same place: the same start, and the same bank where that matters.
pub open spec fn same_place(a: BlockModel, b: BlockModel) -> bool {
    a.start == b.start && (a.start >= 0xC000 || a.bank == b.bank)
}

/// One of the first `n` blocks lies at the same place as `b`.
pub open spec fn placed(blocks: Seq<BlockModel>, n: int, b: BlockModel) -> bool {
    exists|i: int| 0 <= i < n && same_place(#[trigger] blocks[i], b)
}

/// The first `n` blocks without those whose place an earlier one takes.
pub open spec fn deduplicated(blocks: Seq<BlockModel>, n: int) -> Seq<BlockModel>
    decreases n,
{
    if n <= 0 {
        Seq::empty()
    } else if placed(blocks, n - 1, blocks[n - 1]) {
        deduplicated(blocks, n - 1)
    } else {
        deduplicated(blocks, n - 1).push(blocks[n - 1])
    }
}

/// All the code of a program.
pub open spec fn program_blocks(rom: Seq<Seq<u8>>) -> Seq<BlockModel> {
    let all = second_pass(rom, rom.len() - 1);
    deduplicated(all, all.len() as int)
}

/// What one more block adds to the addresses that are called.
proof fn lemma_called_step(blocks: Seq<BlockModel>, b: int, addr: int)
    requires
        0 <= b < blocks.len(),
    ensures
        called(blocks.take(b + 1), addr) == (called(blocks.take(b), addr) || exists|k: int|
            0 <= k < blocks[b].code.len() && (#[trigger] blocks[b].code[k]).calls_bank()
                && blocks[b].code[k].word() == addr),
{
    let less = blocks.take(b);
    let more = blocks.take(b + 1);
    if called(more, addr) {
        let (c, k) = choose|c: int, k: int|
            0 <= c < more.len() && 0 <= k < more[c].code.len() && (
            #[trigger] more[c].code[k]).calls_bank() && more[c].code[k].word() == addr;
        if c < b {
            assert(less[c].code[k].calls_bank());
        } else {
            assert(blocks[b].code[k].calls_bank());
        }
    }
    if called(less, addr) {
        let (c, k) = choose|c: int, k: int|
            0 <= c < less.len() && 0 <= k < less[c].code.len() && (
            #[trigger] less[c].code[k]).calls_bank() && less[c].code[k].word() == addr;
        assert(more[c].code[k].calls_bank());
    }
    if exists|k: int|
        0 <= k < blocks[b].code.len() && (#[trigger] blocks[b].code[k]).calls_bank()
            && blocks[b].code[k].word() == addr {
        let k = choose|k: int|
            0 <= k < blocks[b].code.len() && (#[trigger] blocks[b].code[k]).calls_bank()
                && blocks[b].code[k].word() == addr;
        assert(more[b].code[k].calls_bank());
    }
}

/// The addresses of the switchable bank that the blocks call.
fn find_called(blocks: &Vec<Block>) -> (marks: Vec<bool>)
    ensures
        marks@.len() == 16384,
        forall|a: int|
            0x8000 <= a < 0xC000 ==> #[trigger] marks@[a - 0x8000] == called(models(blocks@), a),
{
    let ghost all = models(blocks@);
    let mut marks: Vec<bool> = vec![false; 16384];
    let mut b: usize = 0;
    while b < blocks.len()
        invariant
            b <= blocks@.len(),
            all == models(blocks@),
            marks@.len() == 16384,
            forall|a: int|
                0x8000 <= a < 0xC000 ==> #[trigger] marks@[a - 0x8000] == called(
                    all.take(b as int),
                    a,
                ),
        decreases blocks@.len() - b,
    {
        let mut k: usize = 0;
        let ghost before = marks@;
        while k < blocks[b].instructions.len()
            invariant
                b < blocks@.len(),
                all == models(blocks@),
                k <= blocks@[b as int].instructions@.len(),
                marks@.len() == 16384,
                before.len() == 16384,
                forall|a: int|
                    0x8000 <= a < 0xC000 ==> #[trigger] marks@[a - 0x8000] == (before[a - 0x8000]
                        || exists|j: int|
                        0 <= j < k && (#[trigger] all[b as int].code[j]).calls_bank()
                            && all[b as int].code[j].word() == a),
            decreases blocks@[b as int].instructions@.len() - k,
        {
            let i: Instruction = blocks[b].instructions[k];
            assert(i == all[b as int].code[k as int]);
            if i.enters_bank() {
                marks.set((i.operand_word() - 0x8000) as usize, true);
            }
            k = k + 1;
        }
        proof {
            assert forall|a: int| 0x8000 <= a < 0xC000 implies #[trigger] marks@[a - 0x8000]
                == called(all.take(b + 1), a) by {
                lemma_called_step(all, b as int, a);
                assert(marks@[a - 0x8000] == (before[a - 0x8000] || exists|j: int|
                    0 <= j < k && (#[trigger] all[b as int].code[j]).calls_bank()
                        && all[b as int].code[j].word() == a));
            }
        }
        b = b + 1;
    }
    assert(all.take(b as int) =~= all);
    marks
}

/// The addresses where the search of a switchable bank begins.
fn find_entries(blocks: &Vec<Block>, common: bool) -> (entries: Vec<u16>)
    ensures
        entries@ == switch_entries(models(blocks@), common),
{
    let marks: Vec<bool> = find_called(blocks);
    let mut entries: Vec<u16> = Vec::new();
    let mut a: u16 = 0x8000;
    while a < 0xC000
        invariant
            0x8000 <= a <= 0xC000,
            marks@.len() == 16384,
            forall|x: int|
                0x8000 <= x < 0xC000 ==> #[trigger] marks@[x - 0x8000] == called(
                    models(blocks@),
                    x,
                ),
            entries@ == entries_below(models(blocks@), common, a as int),
        decreases 0xC000 - a,
    {
        if marks[(a - 0x8000) as usize] || (common && a == 0x8000) {
            entries.push(a);
        }
        a = a + 1;
    }
    entries
}

/// Adds the blocks that are not listed yet.
fn extend_blocks(blocks: &mut Vec<Block>, new: &Vec<Block>)
    ensures
        models(final(blocks)@) == extended(
            models(old(blocks)@),
            models(new@),
            new@.len() as int,
        ),
{
    let ghost all = models(blocks@);
    let mut n: usize = 0;
    while n < new.len()
        invariant
            n <= new@.len(),
            all == models(old(blocks)@),
            models(blocks@) == extended(all, models(new@), n as int),
        decreases new@.len() - n,
    {
        let b: &Block = &new[n];
        let ghost less = models(blocks@);
        assert(b@ == models(new@)[n as int]);
        let mut found: bool = false;
        let mut i: usize = 0;
        while i < blocks.len() && !found
            invariant
                i <= blocks@.len(),
                less == models(blocks@),
                found ==> listed(less, b@),
                !found ==> forall|j: int|
                    0 <= j < i ==> (#[trigger] less[j]).bank != b@.bank || less[j].start
                        != b@.start,
            decreases blocks@.len() - i + (if found {
                0int
            } else {
                1
            }),
        {
            if blocks[i].bank == b.bank && blocks[i].start == b.start {
                found = true;
                assert(less[i as int].bank == b@.bank);
            } else {
                i = i + 1;
            }
        }
        if !found {
            let instructions: Vec<Instruction> = slice_to_vec(b.instructions.as_slice());
            blocks.push(Block { bank: b.bank, start: b.start, instructions });
            assert(models(blocks@) =~= less.push(b@));
        }
        n = n + 1;
    }
}

/// Leaves out the blocks whose place an earlier one takes.
fn deduplicate(blocks: &Vec<Block>) -> (kept: Vec<Block>)
    ensures
        models(kept@) == deduplicated(models(blocks@), blocks@.len() as int),
{
    let ghost all = models(blocks@);
    let mut kept: Vec<Block> = Vec::new();
    let mut n: usize = 0;
    assert(models(kept@) =~= deduplicated(all, 0));
    while n < blocks.len()
        invariant
            n <= blocks@.len(),
            all == models(blocks@),
            models(kept@) == deduplicated(all, n as int),
        decreases blocks@.len() - n,
    {
        let b: &Block = &blocks[n];
        assert(b@ == all[n as int]);
        let ghost less = models(kept@);
        let mut found: bool = false;
        let mut i: usize = 0;
        while i < n && !found
            invariant
                i <= n < blocks@.len(),
                all == models(blocks@),
                b@ == all[n as int],
                found ==> placed(all, n as int, b@),
                !found ==> forall|j: int|
                    0 <= j < i ==> !same_place(#[trigger] all[j], b@),
            decreases n - i + (if found {
                0int
            } else {
                1
            }),
        {
            let earlier: &Block = &blocks[i];
            assert(earlier@ == all[i as int]);
            if earlier.start == b.start && (earlier.start >= 0xC000 || earlier.bank == b.bank) {
                found = true;
                assert(same_place(all[i as int], b@));
            } else {
                i = i + 1;
            }
        }
        if !found {
            let instructions: Vec<Instruction> = slice_to_vec(b.instructions.as_slice());
            kept.push(Block { bank: b.bank, start: b.start, instructions });
            assert(models(kept@) =~= less.push(b@));
        }
        n = n + 1;
    }
    kept
}

/// Finds the code of a program: from the interrupt vectors through the fixed bank, and
/// from there through the switchable banks.
pub fn disassemble(banks: &[Vec<u8>]) -> (blocks: Vec<Block>)
    requires
        valid_rom(rom_of(banks@)),
    ensures
        models(blocks@) == program_blocks(rom_of(banks@)),
{
    let ghost rom = rom_of(banks@);
    let last: usize = banks.len() - 1;
    assert(rom[last as int].len() == 16384);
    let top: &Vec<u8> = &banks[last];
    let starts: [u16; 3] = [
        cpu::join(top[0x3FFC], top[0x3FFD]),
        cpu::join(top[0x3FFA], top[0x3FFB]),
        cpu::join(top[0x3FFE], top[0x3FFF]),
    ];
    assert(starts@ =~= vectors(rom));
    let mut all: Vec<Block> = disassemble_bank(banks, last, starts.as_slice());
    let entries: Vec<u16> = find_entries(&all, true);
    let mut bank: usize = 0;
    while bank < last
        invariant
            bank <= last,
            last == banks@.len() - 1,
            rom == rom_of(banks@),
            valid_rom(rom),
            entries@ == switch_entries(fixed_blocks(rom), true),
            models(all@) == first_pass(rom, bank as int),
        decreases last - bank,
    {
        let ghost before = models(all@);
        let mut found: Vec<Block> = disassemble_bank(banks, bank, entries.as_slice());
        let ghost new = models(found@);
        all.append(&mut found);
        assert(models(all@) =~= before + new);
        bank = bank + 1;
    }
    let targets: Vec<u16> = find_entries(&all, false);
    bank = 0;
    while bank < last
        invariant
            bank <= last,
            last == banks@.len() - 1,
            rom == rom_of(banks@),
            valid_rom(rom),
            targets@ == switch_entries(first_pass(rom, rom.len() - 1), false),
            models(all@) == second_pass(rom, bank as int),
        decreases last - bank,
    {
        let found: Vec<Block> = disassemble_bank(banks, bank, targets.as_slice());
        extend_blocks(&mut all, &found);
        bank = bank + 1;
    }
    deduplicate(&all)
}

} // verus!
