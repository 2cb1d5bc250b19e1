// Disassembly and the code written for it.

use contra_nes::contra::emitter::{
    compile_image, gen_block, gen_instruction, gen_read_value, gen_rmw, gen_store, gen_write_addr,
    generate_code,
};
use contra_nes::contra::recompiler::{
    can_compile, disassemble, disassemble_bank, parse_ines, read_prg, Block, Instruction,
};
use contra_nes::instr::Mode;

/// Two banks. Bank 0 holds a routine at $8010, the fixed bank the program.
fn banks() -> Vec<Vec<u8>> {
    let mut low = vec![0u8; 16384];
    // $8000: RTS
    low[0] = 0x60;
    // $8010: INX; BNE $8010; RTS
    low[0x10..0x14].copy_from_slice(&[0xE8, 0xD0, 0xFD, 0x60]);
    let mut high = vec![0u8; 16384];
    // $C000: LDA #$05; STA $8000; JSR $8010; JMP $C00B; NOP; NOP; RTI at $C020
    high[..13].copy_from_slice(&[
        0xA9, 0x05, 0x8D, 0x00, 0x80, 0x20, 0x10, 0x80, 0x4C, 0x0B, 0xC0, 0xEA, 0x60,
    ]);
    high[0x20] = 0x40;
    high[0x3FFA..0x4000].copy_from_slice(&[0x20, 0xC0, 0x00, 0xC0, 0x20, 0xC0]);
    vec![low, high]
}

fn image() -> Vec<u8> {
    let mut data = vec![b'N', b'E', b'S', 0x1A, 2, 0, 1, 0];
    data.resize(16, 0);
    for bank in banks() {
        data.extend(bank);
    }
    data
}

fn starts(blocks: &[Block]) -> Vec<(usize, u16, usize)> {
    blocks.iter().map(|b| (b.bank, b.start, b.instructions.len())).collect()
}

#[test]
fn images_split_into_banks() {
    let data = image();
    assert!(can_compile(&data));
    let (parsed, count, mirroring) = parse_ines(&data);
    assert_eq!((count, mirroring), (2, 1));
    assert!(parsed == banks());
    assert!(!can_compile(&data[..data.len() - 1]));
    assert!(!can_compile(&data[..10]));
    let mut none = data.clone();
    none[4] = 0;
    assert!(!can_compile(&none));
    none[0] = 0;
    assert!(!can_compile(&none));
}

#[test]
fn program_bytes_depend_on_the_bank() {
    let b = banks();
    assert_eq!(read_prg(&b, 0, 0x8000), 0x60);
    assert_eq!(read_prg(&b, 1, 0x8000), 0xA9);
    assert_eq!(read_prg(&b, 0, 0xC000), 0xA9);
    assert_eq!(read_prg(&b, 0, 0x7FFF), 0);
}

#[test]
fn blocks_end_where_control_leaves() {
    let b = banks();
    let blocks = disassemble_bank(&b, 1, &[0xC000, 0xC020, 0x0000]);
    assert_eq!(
        starts(&blocks),
        [
            // LDA; STA $8000 switches banks
            (1, 0xC000, 2),
            (1, 0xC020, 1),
            // JSR $8010
            (1, 0xC005, 1),
            // what the fixed bank holds at $8010: zeros, BRK
            (1, 0x8010, 1),
            // JMP $C00B
            (1, 0xC008, 1),
            // NOP; RTS
            (1, 0xC00B, 2),
        ]
    );
    let first = &blocks[0].instructions;
    assert_eq!((first[0].addr, first[0].opcode, first[0].operand), (0xC000, 0xA9, (5, 0)));
    assert_eq!((first[1].addr, first[1].operand_word(), first[1].next_address()), (0xC002, 0x8000, 0xC005));
}

#[test]
fn no_instruction_belongs_to_two_blocks() {
    let b = banks();
    let blocks = disassemble_bank(&b, 0, &[0x8011, 0x8010, 0xC000]);
    // $8010 runs into $8011, which is a block already; the fixed bank is out of reach.
    assert_eq!(starts(&blocks), [(0, 0x8011, 1), (0, 0x8010, 1), (0, 0x8013, 1)]);
    let mut seen: Vec<u16> = Vec::new();
    for block in &blocks {
        for i in &block.instructions {
            assert!(!seen.contains(&i.addr));
            seen.push(i.addr);
        }
    }
}

#[test]
fn programs_are_searched_through_all_banks() {
    let blocks = disassemble(&banks());
    let found = starts(&blocks);
    assert!(found.contains(&(1, 0xC000, 2)));
    assert!(found.contains(&(0, 0x8000, 1)));
    assert!(found.contains(&(0, 0x8010, 2)));
    assert!(found.contains(&(0, 0x8013, 1)));
    for (i, a) in blocks.iter().enumerate() {
        for b in &blocks[i + 1..] {
            assert!(a.start != b.start || (a.start < 0xC000 && a.bank != b.bank));
        }
    }
}

fn code(addr: u16, opcode: u8, lo: u8, hi: u8) -> String {
    gen_instruction(&Instruction { addr, opcode, operand: (lo, hi) })
}

#[test]
fn operands_become_expressions() {
    assert_eq!(gen_read_value(Mode::Immediate, (0x0A, 0)), "0x0Au8");
    assert_eq!(gen_read_value(Mode::ZeroPage, (0x10, 0)), "unsafe { *bus.ram.get_unchecked(0x10usize) }");
    assert_eq!(
        gen_read_value(Mode::ZeroPageY, (0x10, 0)),
        "unsafe { *bus.ram.get_unchecked((0x10u8).wrapping_add(s.y) as usize) }"
    );
    assert_eq!(gen_read_value(Mode::Absolute, (0xFF, 0x07)), "unsafe { *bus.ram.get_unchecked(0x07FFusize) }");
    assert_eq!(gen_read_value(Mode::Absolute, (0x02, 0x20)), "bus.read(0x2002)");
    assert_eq!(
        gen_read_value(Mode::IndirectY, (0xFF, 0)),
        "{ let lo = unsafe { *bus.ram.get_unchecked(0xFFusize) } as u16; \
         let hi = unsafe { *bus.ram.get_unchecked(0x00usize) } as u16; \
         bus.read((lo | (hi << 8)).wrapping_add(s.y as u16)) }"
    );
    assert_eq!(gen_write_addr(Mode::ZeroPage, (0x10, 0)), "0x0010u16");
    assert_eq!(
        gen_write_addr(Mode::AbsoluteX, (0x00, 0x03)),
        "0x0300u16.wrapping_add(s.x as u16)"
    );
    assert_eq!(
        gen_write_addr(Mode::IndirectX, (0x20, 0)),
        "{ let ptr = (0x20u8).wrapping_add(s.x); \
         let lo = unsafe { *bus.ram.get_unchecked(ptr as usize) } as u16; \
         let hi = unsafe { *bus.ram.get_unchecked(ptr.wrapping_add(1) as usize) } as u16; lo | (hi << 8) }"
    );
    assert_eq!(
        gen_store(Mode::Absolute, (0x14, 0x40), "s.a", 4),
        "bus.write(0x4014u16, s.a); s.cycles += 4;"
    );
    assert_eq!(
        gen_store(Mode::ZeroPage, (0x01, 0), "s.y", 3),
        "unsafe { *bus.ram.get_unchecked_mut(0x01usize) = s.y; } s.cycles += 3;"
    );
    assert_eq!(
        gen_rmw(Mode::ZeroPage, (0x01, 0), "v = 1;", 5),
        "{ let p = unsafe { bus.ram.get_unchecked_mut(0x01usize) }; let mut v = *p; v = 1; \
         *p = v; s.cycles += 5; }"
    );
    assert_eq!(
        gen_rmw(Mode::Absolute, (0x00, 0x60), "v = 1;", 6),
        "{ let addr = 0x6000u16; let mut v = bus.read(addr); v = 1; bus.write(addr, v); \
         s.cycles += 6; }"
    );
}

#[test]
fn instructions_become_statements() {
    assert_eq!(
        code(0xC000, 0xA9, 0x05, 0),
        "s.a = 0x05; s.z = s.a == 0; s.n = s.a & 0x80 != 0; s.cycles += 2;"
    );
    assert_eq!(
        code(0xC000, 0xA6, 0x05, 0),
        "s.x = unsafe { *bus.ram.get_unchecked(0x05usize) }; s.z = s.x == 0; s.n = s.x & 0x80 != 0; s.cycles += 3;"
    );
    assert_eq!(
        code(0xC000, 0x29, 0x0F, 0),
        "s.a &= 0x0Fu8; s.z = s.a == 0; s.n = s.a & 0x80 != 0; s.cycles += 2;"
    );
    assert_eq!(code(0xC000, 0xC9, 1, 0), "{ let val = 0x01u8; s.cmp_reg(s.a, val); s.cycles += 2; }");
    assert_eq!(
        code(0xC000, 0xE6, 0x10, 0),
        "{ let p = unsafe { bus.ram.get_unchecked_mut(0x10usize) }; let mut v = *p; v = v.wrapping_add(1); \
         s.z = v == 0; s.n = v & 0x80 != 0; *p = v; s.cycles += 5; }"
    );
    assert_eq!(
        code(0xC0FD, 0xD0, 0x02, 0),
        "s.cycles += 2; if !s.z { s.cycles += 1; if 0xC0FF & 0xFF00 != 0xC101 & 0xFF00 \
         { s.cycles += 1; } s.pc = 0xC101; } else { s.pc = 0xC0FF; }"
    );
    assert_eq!(code(0xC000, 0x4C, 0x34, 0x12), "s.pc = 0x1234; s.cycles += 3;");
    assert_eq!(code(0xC000, 0x20, 0x34, 0x12), "s.push16(bus, 0xC002); s.pc = 0x1234; s.cycles += 6;");
    assert_eq!(
        code(0xC000, 0x6C, 0xFF, 0x02),
        "{ let lo = bus.read(0x02FF) as u16; let hi_addr = (0x02FFu16 & 0xFF00) | \
         ((0x02FFu16 + 1) & 0x00FF); let hi = bus.read(hi_addr) as u16; \
         s.pc = lo | (hi << 8); s.cycles += 5; }"
    );
    assert_eq!(code(0xC000, 0x60, 0, 0), "s.pc = s.pull16(bus).wrapping_add(1); s.cycles += 6;");
    assert_eq!(code(0xC000, 0xF8, 0, 0), "s.d = true; s.cycles += 2;");
    assert_eq!(code(0xC000, 0x0C, 0, 0), "s.cycles += 4;");
    assert_eq!(
        code(0xC000, 0x00, 0, 0),
        "s.push16(bus, 0xC002); s.push(bus, s.status() | 0x10); s.i = true; \
         s.pc = bus.read(0xFFFE) as u16 | ((bus.read(0xFFFF) as u16) << 8); s.cycles += 7;"
    );
}

#[test]
fn blocks_become_functions() {
    let b = banks();
    let blocks = disassemble_bank(&b, 1, &[0xC000]);
    assert_eq!(
        gen_block(&blocks[0]),
        "#[inline(never)]\nfn block_fx_0xC000(s: &mut CpuState, bus: &mut Bus) {\n\
         \x20   // $C000: LDA A9\n\
         \x20   s.a = 0x05; s.z = s.a == 0; s.n = s.a & 0x80 != 0; s.cycles += 2;\n\
         \x20   // $C002: STA 8D\n\
         \x20   bus.write(0x8000u16, s.a); s.cycles += 4;\n\
         \x20   s.pc = 0xC005;\n}\n\n"
    );
}

#[test]
fn files_hold_program_functions_and_dispatch() {
    let data = image();
    let text = compile_image(&data);
    let b = banks();
    let blocks = disassemble(&b);
    assert_eq!(text, generate_code(&blocks, &b));
    assert!(text.starts_with(&format!(
        "// Auto-generated by build.rs \u{2014} do not edit\n// {} compiled blocks from 2 PRG banks\n",
        blocks.len()
    )));
    assert!(text.contains("pub const EMBEDDED_PRG: [u8; 32768] = [\n    0x60,0x00,"));
    assert!(text.contains("pub const EMBEDDED_PRG_BANKS: usize = 2;\n"));
    assert!(text.contains("        (255, 0xC000) => block_fx_0xC000(s, bus),\n"));
    assert!(text.contains("        (0, 0x8010) => block_b0_0x8010(s, bus),\n"));
    assert!(text.ends_with("        _ => return false,\n    }\n    true\n}\n"));
    assert_eq!(text.matches("\nfn block_").count(), blocks.len());
}
