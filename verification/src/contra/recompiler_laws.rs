//! What holds of the code that the disassembly finds.

use vstd::prelude::*;
use crate::contra::recompiler;
use crate::contra::recompiler::{BlockModel, Instruction, Search};
use crate::cpu::Cpu;
use crate::instr;
use crate::instr::{Class, Mode, Op};
use crate::machine::Machine;
use crate::memory::Memory;

verus! {

/// A block of straight-line code of the program: the instructions follow each other, each
/// is what the program holds at its address, and only the last may leave the block.
pub open spec fn valid_block(rom: Seq<Seq<u8>>, bank: int, b: BlockModel) -> bool {
    &&& b.bank == bank
    &&& recompiler::in_reach(rom, bank, b.start)
    &&& b.code.len() > 0
    &&& b.code[0].addr == b.start
    &&& valid_code(rom, bank, b.code)
}

/// Instructions of the program that follow each other in memory.
#[verifier::opaque]
pub open spec fn valid_code(rom: Seq<Seq<u8>>, bank: int, code: Seq<Instruction>) -> bool {
    &&& forall|k: int|
        0 <= k < code.len() ==> {
            &&& code[k] == recompiler::decoded(rom, bank, (#[trigger] code[k]).addr)
            &&& code[k].addr >= 0x8000
        }
    &&& forall|k: int|
        0 <= k < code.len() - 1 ==> {
            &&& !(#[trigger] code[k]).ends_block()
            &&& code[k + 1].addr == code[k].after()
            &&& code[k].addr < code[k + 1].addr
        }
}

/// The address is that of an instruction in one of the blocks.
#[verifier::opaque]
pub open spec fn covered(blocks: Seq<BlockModel>, addr: u16) -> bool {
    exists|b: int, k: int|
        0 <= b < blocks.len() && 0 <= k < blocks[b].code.len() && (
        #[trigger] blocks[b].code[k]).addr == addr
}

/// No address occurs twice.
#[verifier::opaque]
pub open spec fn disjoint(blocks: Seq<BlockModel>) -> bool {
    forall|b: int, k: int, c: int, j: int|
        0 <= b < blocks.len() && 0 <= k < blocks[b].code.len() && 0 <= c < blocks.len() && 0 <= j
            < blocks[c].code.len() && (#[trigger] blocks[b].code[k]).addr == (
        #[trigger] blocks[c].code[j]).addr ==> b == c && k == j
}

/// Straight-line code, and where it stops.
proof fn lemma_straight(rom: Seq<Seq<u8>>, bank: int, addr: u16, visited: Seq<bool>)
    ensures
        ({
            let code = recompiler::straight(rom, bank, addr, visited);
            &&& valid_code(rom, bank, code)
            &&& code.len() > 0 ==> code[0].addr == addr
            &&& forall|k: int|
                0 <= k < code.len() ==> (#[trigger] code[k]).addr >= addr
                    && !visited[code[k].addr as int]
            &&& addr >= 0x8000 && !visited[addr as int] ==> code.len() > 0
            &&& code.len() > 0 && !code.last().ends_block() ==> code.last().after() < 0x8000
                || visited[code.last().after() as int]
        }),
    decreases 65536 - addr,
{
    reveal(valid_code);
    let code = recompiler::straight(rom, bank, addr, visited);
    if addr >= 0x8000 && !visited[addr as int] {
        let i = recompiler::decoded(rom, bank, addr);
        if !i.ends_block() && i.after() > addr {
            lemma_straight(rom, bank, i.after(), visited);
            let rest = recompiler::straight(rom, bank, i.after(), visited);
            assert(code =~= seq![i] + rest);
            assert forall|k: int| 0 <= k < code.len() implies {
                &&& code[k] == recompiler::decoded(rom, bank, (#[trigger] code[k]).addr)
                &&& code[k].addr >= addr
                &&& !visited[code[k].addr as int]
            } by {
                if k > 0 {
                    assert(code[k] == rest[k - 1]);
                }
            }
            assert forall|k: int| 0 <= k < code.len() - 1 implies {
                &&& !(#[trigger] code[k]).ends_block()
                &&& code[k + 1].addr == code[k].after()
                &&& code[k].addr < code[k + 1].addr
            } by {
                assert(code[k + 1] == rest[k]);
                if k > 0 {
                    assert(code[k] == rest[k - 1]);
                }
            }
            if rest.len() > 0 {
                assert(code.last() == rest.last());
            } else {
                assert(code.last() == i);
            }
        }
    }
}

/// Code that follows itself has ascending addresses.
proof fn lemma_ascending(rom: Seq<Seq<u8>>, bank: int, code: Seq<Instruction>, k: int, j: int)
    requires
        valid_code(rom, bank, code),
        0 <= k < j < code.len(),
    ensures
        code[k].addr < code[j].addr,
    decreases j - k,
{
    reveal(valid_code);
    assert(code[j - 1].addr < code[j - 1 + 1].addr);
    if k < j - 1 {
        lemma_ascending(rom, bank, code, k, j - 1);
    }
}

/// The blocks are valid and disjoint, and the visited addresses are theirs.
pub open spec fn blocks_invariant(rom: Seq<Seq<u8>>, bank: int, s: Search) -> bool {
    &&& s.visited.len() == 65536
    &&& forall|b: int| 0 <= b < s.blocks.len() ==> valid_block(rom, bank, #[trigger] s.blocks[b])
    &&& disjoint(s.blocks)
    &&& forall|a: u16| #[trigger] s.visited[a as int] == covered(s.blocks, a)
}

/// What every state of a search keeps: the blocks are as they should be, and every address
/// that the program can go on to, from an entry or a block, is visited, waits to be looked
/// at, or is out of reach.
pub open spec fn search_invariant(
    rom: Seq<Seq<u8>>,
    bank: int,
    entries: Seq<u16>,
    s: Search,
) -> bool {
    &&& blocks_invariant(rom, bank, s)
    &&& forall|e: int| 0 <= e < entries.len() ==> handled(rom, bank, s, #[trigger] entries[e])
    &&& forall|b: int| 0 <= b < s.blocks.len() ==> goes_on(rom, bank, s, #[trigger] s.blocks[b])
}

/// The address is visited, waits to be looked at, or is out of reach.
pub open spec fn handled(rom: Seq<Seq<u8>>, bank: int, s: Search, addr: u16) -> bool {
    s.visited[addr as int] || s.work.contains(addr) || !recompiler::in_reach(rom, bank, addr)
}

/// Wherever the program goes on after the block is handled. Code that runs into code
/// already visited goes on there.
pub open spec fn goes_on(rom: Seq<Seq<u8>>, bank: int, s: Search, b: BlockModel) -> bool {
    let last = b.code.last();
    if last.ends_block() {
        forall|k: int|
            0 <= k < last.successors().len() ==> handled(
                rom,
                bank,
                s,
                #[trigger] last.successors()[k],
            )
    } else {
        last.after() < 0x8000 || s.visited[last.after() as int]
    }
}

/// A step forgets nothing.
proof fn lemma_handled_stays(rom: Seq<Seq<u8>>, bank: int, s: Search, addr: u16)
    requires
        s.visited.len() == 65536,
        handled(rom, bank, s, addr),
    ensures
        handled(rom, bank, s.stepped(rom, bank), addr),
{
    let t = s.stepped(rom, bank);
    if s.work.len() > 0 {
        let start = s.work[0];
        let rest = s.work.subrange(1, s.work.len() as int);
        let code = recompiler::straight(rom, bank, start, s.visited);
        recompiler::lemma_visiting(s.visited, code);
        lemma_straight(rom, bank, start, s.visited);
        if s.work.contains(addr) && !s.visited[addr as int] && recompiler::in_reach(
            rom,
            bank,
            addr,
        ) {
            let i = s.work.index_of(addr);
            if i == 0 {
                assert(code[0].addr == addr);
                assert(t.visited[addr as int]);
            } else {
                assert(rest[i - 1] == addr);
                assert(t.work[i - 1] == addr);
            }
        }
    }
}

/// A step keeps what is known of the blocks.
proof fn lemma_blocks_keep(rom: Seq<Seq<u8>>, bank: int, s: Search)
    requires
        blocks_invariant(rom, bank, s),
    ensures
        blocks_invariant(rom, bank, s.stepped(rom, bank)),
{
    let t = s.stepped(rom, bank);
    if s.work.len() > 0 && !s.visited[s.work[0] as int] && recompiler::in_reach(
        rom,
        bank,
        s.work[0],
    ) {
        let start = s.work[0];
        let code = recompiler::straight(rom, bank, start, s.visited);
        recompiler::lemma_visiting(s.visited, code);
        lemma_straight(rom, bank, start, s.visited);
        let new = BlockModel { bank, start, code };
        assert(t.blocks =~= s.blocks.push(new));
        assert(valid_block(rom, bank, new));
        lemma_new_block(rom, bank, s.blocks, s.visited, new);
        assert forall|a: u16| #[trigger] t.visited[a as int] == covered(t.blocks, a) by {
            lemma_covered_push(s.blocks, new, a);
            assert(s.visited[a as int] == covered(s.blocks, a));
        }
    }
}

/// Where a block goes on stays handled.
proof fn lemma_goes_on_stays(rom: Seq<Seq<u8>>, bank: int, s: Search, b: BlockModel)
    requires
        s.visited.len() == 65536,
        goes_on(rom, bank, s, b),
    ensures
        goes_on(rom, bank, s.stepped(rom, bank), b),
{
    let t = s.stepped(rom, bank);
    let last = b.code.last();
    if last.ends_block() {
        assert forall|k: int| 0 <= k < last.successors().len() implies handled(
            rom,
            bank,
            t,
            #[trigger] last.successors()[k],
        ) by {
            lemma_handled_stays(rom, bank, s, last.successors()[k]);
        }
    } else if s.work.len() > 0 {
        recompiler::lemma_visiting(
            s.visited,
            recompiler::straight(rom, bank, s.work[0], s.visited),
        );
    }
}

/// Where a new block goes on is handled.
proof fn lemma_new_goes_on(rom: Seq<Seq<u8>>, bank: int, s: Search)
    requires
        s.visited.len() == 65536,
        s.work.len() > 0,
        !s.visited[s.work[0] as int],
        recompiler::in_reach(rom, bank, s.work[0]),
    ensures
        goes_on(rom, bank, s.stepped(rom, bank), s.stepped(rom, bank).blocks.last()),
{
    let t = s.stepped(rom, bank);
    let start = s.work[0];
    let rest = s.work.subrange(1, s.work.len() as int);
    let code = recompiler::straight(rom, bank, start, s.visited);
    recompiler::lemma_visiting(s.visited, code);
    lemma_straight(rom, bank, start, s.visited);
    let last = code.last();
    if last.ends_block() {
        assert forall|k: int| 0 <= k < last.successors().len() implies handled(
            rom,
            bank,
            t,
            #[trigger] last.successors()[k],
        ) by {
            assert(t.work[rest.len() + k] == last.successors()[k]);
        }
    }
}

/// A step keeps the invariant.
proof fn lemma_step_keeps(rom: Seq<Seq<u8>>, bank: int, entries: Seq<u16>, s: Search)
    requires
        search_invariant(rom, bank, entries, s),
    ensures
        search_invariant(rom, bank, entries, s.stepped(rom, bank)),
{
    let t = s.stepped(rom, bank);
    lemma_blocks_keep(rom, bank, s);
    assert forall|e: int| 0 <= e < entries.len() implies handled(
        rom,
        bank,
        t,
        #[trigger] entries[e],
    ) by {
        lemma_handled_stays(rom, bank, s, entries[e]);
    }
    assert forall|b: int| 0 <= b < t.blocks.len() implies goes_on(
        rom,
        bank,
        t,
        #[trigger] t.blocks[b],
    ) by {
        if b < s.blocks.len() {
            assert(t.blocks[b] == s.blocks[b]);
            lemma_goes_on_stays(rom, bank, s, s.blocks[b]);
        } else {
            lemma_new_goes_on(rom, bank, s);
        }
    }
}

/// What a new block covers.
proof fn lemma_covered_push(blocks: Seq<BlockModel>, new: BlockModel, addr: u16)
    ensures
        covered(blocks.push(new), addr) == (covered(blocks, addr) || exists|k: int|
            0 <= k < new.code.len() && #[trigger] new.code[k].addr == addr),
{
    reveal(covered);
    let all = blocks.push(new);
    let n = blocks.len() as int;
    if covered(all, addr) {
        let (b, k) = choose|b: int, k: int|
            0 <= b < all.len() && 0 <= k < all[b].code.len() && (
            #[trigger] all[b].code[k]).addr == addr;
        if b < n {
            assert(blocks[b].code[k].addr == addr);
        } else {
            assert(new.code[k].addr == addr);
        }
    }
    if covered(blocks, addr) {
        let (b, k) = choose|b: int, k: int|
            0 <= b < blocks.len() && 0 <= k < blocks[b].code.len() && (
            #[trigger] blocks[b].code[k]).addr == addr;
        assert(all[b].code[k].addr == addr);
    }
    if exists|k: int| 0 <= k < new.code.len() && #[trigger] new.code[k].addr == addr {
        let k = choose|k: int| 0 <= k < new.code.len() && #[trigger] new.code[k].addr == addr;
        assert(all[n].code[k].addr == addr);
    }
}

/// A block of addresses not yet visited is disjoint from the others.
proof fn lemma_new_block(
    rom: Seq<Seq<u8>>,
    bank: int,
    blocks: Seq<BlockModel>,
    visited: Seq<bool>,
    new: BlockModel,
)
    requires
        disjoint(blocks),
        forall|a: u16| #[trigger] visited[a as int] == covered(blocks, a),
        valid_code(rom, bank, new.code),
        forall|k: int|
            0 <= k < new.code.len() ==> !visited[(#[trigger] new.code[k]).addr as int],
    ensures
        disjoint(blocks.push(new)),
{
    reveal(disjoint);
    reveal(covered);
    let all = blocks.push(new);
    let n = blocks.len() as int;
    assert forall|b: int, k: int, c: int, j: int|
        0 <= b < all.len() && 0 <= k < all[b].code.len() && 0 <= c < all.len() && 0 <= j
            < all[c].code.len() && (#[trigger] all[b].code[k]).addr == (
        #[trigger] all[c].code[j]).addr implies b == c && k == j by {
        if b < n && c < n {
            assert(blocks[b].code[k].addr == blocks[c].code[j].addr);
        } else if b < n {
            assert(covered(blocks, blocks[b].code[k].addr));
            assert(visited[new.code[j].addr as int]);
        } else if c < n {
            assert(covered(blocks, blocks[c].code[j].addr));
            assert(visited[new.code[k].addr as int]);
        } else if k < j {
            lemma_ascending(rom, bank, new.code, k, j);
        } else if j < k {
            lemma_ascending(rom, bank, new.code, j, k);
        }
    }
}

/// The invariant holds at every step of a search.
proof fn lemma_invariant(rom: Seq<Seq<u8>>, bank: int, entries: Seq<u16>, n: nat)
    ensures
        search_invariant(rom, bank, entries, Search::from(entries).steps(rom, bank, n)),
    decreases n,
{
    let s = Search::from(entries);
    if n == 0 {
        reveal(disjoint);
        reveal(covered);
        assert forall|e: int| 0 <= e < entries.len() implies handled(
            rom,
            bank,
            s,
            #[trigger] entries[e],
        ) by {
            assert(s.work[e] == entries[e]);
        }
    } else {
        lemma_invariant(rom, bank, entries, (n - 1) as nat);
        lemma_step_keeps(rom, bank, entries, s.steps(rom, bank, (n - 1) as nat));
    }
}

/// The first step of several can be taken apart.
proof fn lemma_first_step(s: Search, rom: Seq<Seq<u8>>, bank: int, n: nat)
    ensures
        s.steps(rom, bank, n + 1) == s.stepped(rom, bank).steps(rom, bank, n),
    decreases n,
{
    if n == 0 {
        assert(s.steps(rom, bank, 0) == s);
        assert(s.steps(rom, bank, 1) == s.steps(rom, bank, 0).stepped(rom, bank));
    } else {
        lemma_first_step(s, rom, bank, (n - 1) as nat);
    }
}

/// Every search ends: whenever there is more to look at, an address has been visited that
/// had not been.
pub proof fn search_ends(rom: Seq<Seq<u8>>, bank: int, s: Search)
    requires
        s.visited.len() == 65536,
    ensures
        exists|n: nat| (#[trigger] s.steps(rom, bank, n)).done(),
    decreases recompiler::unvisited(s.visited), s.work.len(),
{
    if s.work.len() == 0 {
        assert(s.steps(rom, bank, 0).done());
    } else {
        let t = s.stepped(rom, bank);
        let start = s.work[0];
        let code = recompiler::straight(rom, bank, start, s.visited);
        lemma_straight(rom, bank, start, s.visited);
        recompiler::lemma_visiting(s.visited, code);
        if !s.visited[start as int] && recompiler::in_reach(rom, bank, start) {
            recompiler::lemma_visiting_shrinks(s.visited, code);
        }
        search_ends(rom, bank, t);
        let n = choose|n: nat| (#[trigger] t.steps(rom, bank, n)).done();
        lemma_first_step(s, rom, bank, n);
        assert(s.steps(rom, bank, n + 1).done());
    }
}

/// A finished search has looked at everything and keeps the invariant.
proof fn lemma_end(rom: Seq<Seq<u8>>, bank: int, entries: Seq<u16>)
    ensures
        ({
            let s = Search::from(entries).finished(rom, bank);
            s.done() && search_invariant(rom, bank, entries, s)
        }),
{
    search_ends(rom, bank, Search::from(entries));
    let n = choose|n: nat| (#[trigger] Search::from(entries).steps(rom, bank, n)).done();
    recompiler::lemma_finished(Search::from(entries), rom, bank, n);
    lemma_invariant(rom, bank, entries, n);
}

/// Every block is straight-line code of the program.
pub proof fn blocks_are_code(rom: Seq<Seq<u8>>, bank: int, entries: Seq<u16>, b: int)
    requires
        0 <= b < recompiler::bank_blocks(rom, bank, entries).len(),
    ensures
        valid_block(rom, bank, recompiler::bank_blocks(rom, bank, entries)[b]),
{
    lemma_end(rom, bank, entries);
}

/// No instruction belongs to two blocks of a bank.
pub proof fn blocks_are_disjoint(rom: Seq<Seq<u8>>, bank: int, entries: Seq<u16>)
    ensures
        disjoint(recompiler::bank_blocks(rom, bank, entries)),
{
    lemma_end(rom, bank, entries);
}

/// Every entry in reach is found.
pub proof fn entries_are_found(rom: Seq<Seq<u8>>, bank: int, entries: Seq<u16>, e: int)
    requires
        0 <= e < entries.len(),
        recompiler::in_reach(rom, bank, entries[e]),
    ensures
        covered(recompiler::bank_blocks(rom, bank, entries), entries[e]),
{
    lemma_end(rom, bank, entries);
    let s = Search::from(entries).finished(rom, bank);
    assert(handled(rom, bank, s, entries[e]));
    assert(s.visited[entries[e] as int]);
}

/// Wherever a block leads is found too: the search misses no code in reach, but for jumps
/// through pointers and returns.
pub proof fn successors_are_found(
    rom: Seq<Seq<u8>>,
    bank: int,
    entries: Seq<u16>,
    b: int,
    addr: u16,
)
    requires
        0 <= b < recompiler::bank_blocks(rom, bank, entries).len(),
        recompiler::in_reach(rom, bank, addr),
        ({
            let last = recompiler::bank_blocks(rom, bank, entries)[b].code.last();
            if last.ends_block() {
                last.successors().contains(addr)
            } else {
                last.after() == addr
            }
        }),
    ensures
        covered(recompiler::bank_blocks(rom, bank, entries), addr),
{
    lemma_end(rom, bank, entries);
    let s = Search::from(entries).finished(rom, bank);
    assert(goes_on(rom, bank, s, s.blocks[b]));
    let last = s.blocks[b].code.last();
    if last.ends_block() {
        let k = last.successors().index_of(addr);
        assert(handled(rom, bank, s, last.successors()[k]));
    }
    assert(s.visited[addr as int]);
}

/// What is kept of the first `n` blocks: each of them has its place, and no place is taken
/// twice.
proof fn lemma_deduplicated(blocks: Seq<BlockModel>, n: int)
    requires
        0 <= n <= blocks.len(),
    ensures
        ({
            let kept = recompiler::deduplicated(blocks, n);
            &&& forall|i: int|
                0 <= i < n ==> recompiler::placed(kept, kept.len() as int, #[trigger] blocks[i])
            &&& forall|j: int|
                0 <= j < kept.len() ==> recompiler::placed(blocks, n, #[trigger] kept[j])
            &&& forall|i: int, j: int|
                0 <= i < j < kept.len() ==> !recompiler::same_place(
                    #[trigger] kept[i],
                    #[trigger] kept[j],
                )
        }),
    decreases n,
{
    if n > 0 {
        lemma_deduplicated(blocks, n - 1);
        let less = recompiler::deduplicated(blocks, n - 1);
        let kept = recompiler::deduplicated(blocks, n);
        let new = blocks[n - 1];
        if recompiler::placed(blocks, n - 1, new) {
            let i = choose|i: int|
                0 <= i < n - 1 && recompiler::same_place(#[trigger] blocks[i], new);
            assert(recompiler::placed(less, less.len() as int, blocks[i]));
            let j = choose|j: int|
                0 <= j < less.len() && recompiler::same_place(#[trigger] less[j], blocks[i]);
            assert(recompiler::same_place(less[j], new));
        } else {
            assert(kept[kept.len() - 1] == new);
            assert(recompiler::same_place(new, new));
            assert forall|i: int| 0 <= i < n implies recompiler::placed(
                kept,
                kept.len() as int,
                #[trigger] blocks[i],
            ) by {
                if i < n - 1 {
                    assert(recompiler::placed(less, less.len() as int, blocks[i]));
                    let j = choose|j: int|
                        0 <= j < less.len() && recompiler::same_place(
                            #[trigger] less[j],
                            blocks[i],
                        );
                    assert(kept[j] == less[j]);
                }
            }
            assert forall|i: int, j: int| 0 <= i < j < kept.len() implies !recompiler::same_place(
                #[trigger] kept[i],
                #[trigger] kept[j],
            ) by {
                if j == kept.len() - 1 {
                    assert(kept[i] == less[i]);
                    assert(recompiler::placed(blocks, n - 1, less[i]));
                    let o = choose|o: int|
                        0 <= o < n - 1 && recompiler::same_place(#[trigger] blocks[o], less[i]);
                    if recompiler::same_place(kept[i], new) {
                        assert(recompiler::same_place(blocks[o], new));
                    }
                } else {
                    assert(kept[i] == less[i] && kept[j] == less[j]);
                }
            }
        }
        assert forall|j: int| 0 <= j < kept.len() implies recompiler::placed(
            blocks,
            n,
            #[trigger] kept[j],
        ) by {
            if j < less.len() {
                assert(kept[j] == less[j]);
                assert(recompiler::placed(blocks, n - 1, less[j]));
                let o = choose|o: int|
                    0 <= o < n - 1 && recompiler::same_place(#[trigger] blocks[o], less[j]);
                assert(recompiler::same_place(blocks[o], kept[j]));
            } else {
                assert(recompiler::same_place(blocks[n - 1], kept[j]));
            }
        }
    }
}

/// A dispatch by bank and address finds at most one block.
pub proof fn places_are_unique(rom: Seq<Seq<u8>>, i: int, j: int)
    requires
        0 <= i < j < recompiler::program_blocks(rom).len(),
    ensures
        !recompiler::same_place(
            recompiler::program_blocks(rom)[i],
            recompiler::program_blocks(rom)[j],
        ),
{
    let all = recompiler::second_pass(rom, rom.len() - 1);
    lemma_deduplicated(all, all.len() as int);
}

/// Leaving out duplicates loses no place.
pub proof fn places_are_kept(rom: Seq<Seq<u8>>, i: int)
    requires
        0 <= i < recompiler::second_pass(rom, rom.len() - 1).len(),
    ensures
        recompiler::placed(
            recompiler::program_blocks(rom),
            recompiler::program_blocks(rom).len() as int,
            recompiler::second_pass(rom, rom.len() - 1)[i],
        ),
{
    let all = recompiler::second_pass(rom, rom.len() - 1);
    lemma_deduplicated(all, all.len() as int);
}

/// Every block is code of its own bank, and the bank is one of the program's.
pub open spec fn all_valid(rom: Seq<Seq<u8>>, blocks: Seq<BlockModel>) -> bool {
    forall|b: int|
        0 <= b < blocks.len() ==> {
            &&& 0 <= (#[trigger] blocks[b]).bank < rom.len()
            &&& valid_block(rom, blocks[b].bank, blocks[b])
        }
}

proof fn lemma_bank_valid(rom: Seq<Seq<u8>>, bank: int, entries: Seq<u16>)
    requires
        0 <= bank < rom.len(),
    ensures
        all_valid(rom, recompiler::bank_blocks(rom, bank, entries)),
{
    let blocks = recompiler::bank_blocks(rom, bank, entries);
    assert forall|b: int| 0 <= b < blocks.len() implies {
        &&& 0 <= (#[trigger] blocks[b]).bank < rom.len()
        &&& valid_block(rom, blocks[b].bank, blocks[b])
    } by {
        blocks_are_code(rom, bank, entries, b);
    }
}

proof fn lemma_first_pass_valid(rom: Seq<Seq<u8>>, n: int)
    requires
        0 <= n < rom.len(),
    ensures
        all_valid(rom, recompiler::first_pass(rom, n)),
    decreases n,
{
    if n == 0 {
        lemma_bank_valid(rom, rom.len() - 1, recompiler::vectors(rom));
    } else {
        lemma_first_pass_valid(rom, n - 1);
        lemma_bank_valid(
            rom,
            n - 1,
            recompiler::switch_entries(recompiler::fixed_blocks(rom), true),
        );
    }
}

proof fn lemma_extended_valid(
    rom: Seq<Seq<u8>>,
    blocks: Seq<BlockModel>,
    new: Seq<BlockModel>,
    n: int,
)
    requires
        all_valid(rom, blocks),
        all_valid(rom, new),
        0 <= n <= new.len(),
    ensures
        all_valid(rom, recompiler::extended(blocks, new, n)),
    decreases n,
{
    if n > 0 {
        lemma_extended_valid(rom, blocks, new, n - 1);
    }
}

proof fn lemma_second_pass_valid(rom: Seq<Seq<u8>>, n: int)
    requires
        0 <= n < rom.len(),
    ensures
        all_valid(rom, recompiler::second_pass(rom, n)),
    decreases n,
{
    let all = recompiler::first_pass(rom, rom.len() - 1);
    if n == 0 {
        lemma_first_pass_valid(rom, rom.len() - 1);
    } else {
        lemma_second_pass_valid(rom, n - 1);
        let entries = recompiler::switch_entries(all, false);
        lemma_bank_valid(rom, n - 1, entries);
        let new = recompiler::bank_blocks(rom, n - 1, entries);
        lemma_extended_valid(
            rom,
            recompiler::second_pass(rom, n - 1),
            new,
            new.len() as int,
        );
    }
}

proof fn lemma_deduplicated_valid(rom: Seq<Seq<u8>>, blocks: Seq<BlockModel>, n: int)
    requires
        all_valid(rom, blocks),
        0 <= n <= blocks.len(),
    ensures
        all_valid(rom, recompiler::deduplicated(blocks, n)),
    decreases n,
{
    if n > 0 {
        lemma_deduplicated_valid(rom, blocks, n - 1);
    }
}

/// Everything that is found in a program is code of the program.
pub proof fn program_is_code(rom: Seq<Seq<u8>>)
    requires
        rom.len() > 0,
    ensures
        all_valid(rom, recompiler::program_blocks(rom)),
{
    let all = recompiler::second_pass(rom, rom.len() - 1);
    lemma_second_pass_valid(rom, rom.len() - 1);
    lemma_deduplicated_valid(rom, all, all.len() as int);
}

/// The processor is about to run the instruction.
pub open spec fn about_to_run<M: Memory>(m: Machine<M>, i: Instruction) -> bool {
    let n = recompiler::length_of(i.info().mode);
    &&& i.addr == m.cpu.pc
    &&& i.opcode == m.next_byte()
    &&& n >= 2 ==> i.operand.0 == m.fetched().next_byte()
    &&& n >= 3 ==> i.operand.1 == m.fetched().fetched().next_byte()
}

/// Which modes go with which operations.
proof fn lemma_modes(opcode: u8)
    ensures
        ({
            let info = instr::instr_of(opcode);
            &&& info.mode is Relative <==> instr::class_of(info.op) is Branch
            &&& instr::class_of(info.op) is Control ==> info.mode is Implied
                || info.mode is Absolute
            &&& info.op is Jmp || info.op is Jsr ==> info.mode is Absolute
            &&& info.op is Pha || info.op is Php || info.op is Pla || info.op is Plp
                ==> info.mode is Implied
        }),
{
}

/// Locating an operand moves the program counter behind the instruction, except for
/// branches.
proof fn lemma_operand_moves<M: Memory>(m: Machine<M>, mode: Mode)
    requires
        !(mode is Relative),
    ensures
        m.operand(mode).next.cpu.pc == m.cpu.pc.wrapping_add(
            (recompiler::length_of(mode) - 1) as u16,
        ),
{
    reveal(Machine::operand);
}

/// Operations other than branches and jumps leave the program counter alone.
proof fn lemma_operation_stays<M: Memory>(m: Machine<M>, op: Op, addr: u16)
    requires
        match instr::class_of(op) {
            Class::Branch => false,
            Class::Control => op is Pha || op is Php || op is Pla || op is Plp,
            _ => true,
        },
    ensures
        m.operated(op, addr).cpu.pc == m.cpu.pc,
{
    reveal(Machine::operated);
    reveal(Machine::controlled);
    reveal(Machine::pushed);
    reveal(Machine::pulled);
    reveal(Machine::accumulator_pulled);
    reveal(Machine::status_pulled);
    reveal(Cpu::after_reading);
    reveal(Cpu::after_modifying);
    reveal(Cpu::after_register_op);
    reveal(Cpu::added);
}

/// The processor goes where the disassembly says: behind an instruction that does not end
/// a block, and to one of the successors otherwise. Jumps through pointers, returns and
/// interrupts are not foreseen.
pub proof fn processor_goes_on<M: Memory>(m: Machine<M>, i: Instruction)
    requires
        about_to_run(m, i),
        !(i.info().op is JmpIndirect || i.info().op is Rts || i.info().op is Rti
            || i.info().op is Brk),
    ensures
        if i.ends_block() {
            i.successors().contains(m.ran().cpu.pc)
        } else {
            m.ran().cpu.pc == i.after()
        },
{
    let info = i.info();
    let f = m.fetched();
    lemma_modes(i.opcode);
    reveal(Machine::executed);
    let next = m.ran().cpu.pc;
    if info.mode is Relative {
        reveal(Machine::operand);
        reveal(Machine::operated);
        assert(next == i.after() || next == i.successors()[0]);
        assert(i.successors()[1] == i.after());
    } else {
        lemma_operand_moves(f, info.mode);
        let o = f.operand(info.mode);
        assert(o.next.cpu.pc == i.after());
        if info.op is Jmp || info.op is Jsr {
            reveal(Machine::operand);
            reveal(Machine::operated);
            reveal(Machine::controlled);
            reveal(Machine::called);
            assert(o.addr == i.word());
            assert(next == i.word());
            assert(i.successors()[0] == next);
        } else {
            lemma_operation_stays(o.next, info.op, o.addr);
            assert(next == i.after());
            if i.ends_block() {
                assert(i.successors()[0] == next);
            }
        }
    }
}

} // verus!
