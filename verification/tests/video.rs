// The picture processors.

use contra_nes::cartridge::Cartridge;
use contra_nes::contra::ppu::Ppu as BatchedPpu;
use contra_nes::contra::renderer::Renderer;
use contra_nes::contra::sprite::SpriteList;
use contra_nes::contra::tile_map::TileMap;
use contra_nes::palette::{color_rgb, pack};
use contra_nes::ppu::Ppu;

/// Character RAM with tile 1 solid in colour 1, tile 2 solid in colour 3 and tile 3 a
/// single pixel at its top left.
fn cartridge() -> Cartridge {
    let mut cart = Cartridge::from_embedded(&vec![0; 16384], 1);
    for row in 0..8 {
        cart.write_chr(16 + row, 0xFF);
        cart.write_chr(32 + row, 0xFF);
        cart.write_chr(40 + row, 0xFF);
    }
    cart.write_chr(48, 0x80);
    cart
}

fn set_address(ppu: &mut Ppu, cart: &mut Cartridge, addr: u16) {
    ppu.write_register(0x2006, (addr >> 8) as u8, cart);
    ppu.write_register(0x2006, addr as u8, cart);
}

fn ticks(ppu: &mut Ppu, cart: &Cartridge, n: u32) -> u32 {
    (0..n).filter(|_| ppu.tick(cart)).count() as u32
}

#[test]
fn address_comes_in_two_writes() {
    let mut cart = cartridge();
    let mut ppu = Box::new(Ppu::new());
    set_address(&mut ppu, &mut cart, 0x6123);
    assert_eq!((ppu.core.v, ppu.core.t, ppu.core.w), (0x2123, 0x2123, false));
}

#[test]
fn scroll_comes_in_two_writes() {
    let mut cart = cartridge();
    let mut ppu = Box::new(Ppu::new());
    ppu.write_register(0x2000, 0x02, &mut cart);
    ppu.write_register(0x2005, 0x7D, &mut cart);
    ppu.write_register(0x2005, 0x5E, &mut cart);
    assert_eq!(ppu.core.x, 5);
    assert_eq!(ppu.core.t, 0x6000 | 0x0800 | (0x0B << 5) | 0x0F);
    assert!(!ppu.core.w);
}

#[test]
fn video_memory_is_read_one_behind() {
    let mut cart = cartridge();
    let mut ppu = Box::new(Ppu::new());
    set_address(&mut ppu, &mut cart, 0x2400);
    ppu.write_register(0x2007, 0x42, &mut cart);
    ppu.write_register(0x2007, 0x43, &mut cart);
    assert_eq!(ppu.core.v, 0x2402);
    set_address(&mut ppu, &mut cart, 0x2400);
    ppu.read_register(0x2007, &cart);
    assert_eq!(ppu.read_register(0x2007, &cart), 0x42);
    assert_eq!(ppu.read_register(0x2007, &cart), 0x43);
    // Patterns go to the cartridge; with bit 2 of the control the address moves by 32.
    ppu.write_register(0x2000, 0x04, &mut cart);
    set_address(&mut ppu, &mut cart, 0x0100);
    ppu.write_register(0x2007, 0x99, &mut cart);
    assert_eq!((cart.read_chr(0x0100), ppu.core.v), (0x99, 0x0120));
}

#[test]
fn palette_is_mirrored_and_read_at_once() {
    let mut cart = cartridge();
    let mut ppu = Box::new(Ppu::new());
    set_address(&mut ppu, &mut cart, 0x3F10);
    ppu.write_register(0x2007, 0x21, &mut cart);
    ppu.write_register(0x2007, 0x22, &mut cart);
    assert_eq!((ppu.core.palette[0], ppu.core.palette[0x11]), (0x21, 0x22));
    set_address(&mut ppu, &mut cart, 0x3F00);
    assert_eq!(ppu.read_register(0x2007, &cart), 0x21);
    set_address(&mut ppu, &mut cart, 0x3FF1);
    assert_eq!(ppu.read_register(0x2007, &cart), 0x22);
}

#[test]
fn status_read_acknowledges() {
    let mut cart = cartridge();
    let mut ppu = Box::new(Ppu::new());
    ppu.core.status = 0xE0;
    ppu.core.nmi_occurred = true;
    ppu.write_register(0x2005, 0x1F, &mut cart);
    assert_eq!(ppu.read_register(0x2002, &cart), 0xFF);
    assert_eq!((ppu.core.status, ppu.core.nmi_occurred, ppu.core.w), (0x60, false, false));
}

#[test]
fn sprite_memory_moves_on_when_written() {
    let mut cart = cartridge();
    let mut ppu = Box::new(Ppu::new());
    ppu.write_register(0x2003, 0xFF, &mut cart);
    ppu.write_register(0x2004, 0x11, &mut cart);
    ppu.write_register(0x2004, 0x22, &mut cart);
    assert_eq!((ppu.core.oam[255], ppu.core.oam[0], ppu.core.oam_addr), (0x11, 0x22, 1));
    let mut page = [0u8; 256];
    page[0] = 0x33;
    page[255] = 0x44;
    ppu.write_oam_dma(&page);
    assert_eq!((ppu.core.oam[1], ppu.core.oam[0]), (0x33, 0x44));
}

#[test]
fn frames_take_their_dots() {
    let cart = cartridge();
    let mut ppu = Box::new(Ppu::new());
    let dots = |ppu: &mut Ppu| {
        let frame = ppu.core.frame_count;
        let mut n = 0;
        while ppu.core.frame_count == frame {
            ppu.tick(&cart);
            n += 1;
        }
        n
    };
    dots(&mut ppu);
    assert_eq!((dots(&mut ppu), dots(&mut ppu)), (341 * 262, 341 * 262));
    // With rendering on, every other frame is one dot shorter.
    ppu.core.mask = 0x08;
    let pair = dots(&mut ppu) + dots(&mut ppu);
    assert_eq!(pair, 2 * 341 * 262 - 1);
}

#[test]
fn blanking_interrupts_once() {
    let mut cart = cartridge();
    let mut ppu = Box::new(Ppu::new());
    ppu.core.scanline = 241;
    ppu.core.dot = 0;
    assert_eq!(ticks(&mut ppu, &cart, 2), 0);
    assert_eq!(ppu.core.status & 0x80, 0x80);
    // Not enabled: no interrupt.
    assert_eq!(ticks(&mut ppu, &cart, 100), 0);
    // Enabled during the blanking, it arrives fifteen dots later.
    ppu.write_register(0x2000, 0x80, &mut cart);
    assert_eq!(ticks(&mut ppu, &cart, 14), 0);
    assert_eq!(ticks(&mut ppu, &cart, 1), 1);
    assert_eq!(ticks(&mut ppu, &cart, 1000), 0);
    // The flag ends with the blanking.
    ppu.core.scanline = 261;
    ppu.core.dot = 1;
    ticks(&mut ppu, &cart, 1);
    assert_eq!(ppu.core.status & 0xE0, 0);
}

/// A picture of tile 1 in palette 0 everywhere.
fn fill_background(nt_ram: &mut [u8; 2048], palette: &mut [u8; 32]) {
    for i in 0..960 {
        nt_ram[i] = 1;
        nt_ram[1024 + i] = 1;
    }
    palette[0] = 0x0F;
    palette[1] = 0x16;
    palette[0x11] = 0x2A;
    palette[0x13] = 0x30;
}

fn pixel(ppu: &Ppu, x: usize, y: usize) -> (u8, u8, u8) {
    let o = (y * 256 + x) * 3;
    (ppu.framebuffer[o], ppu.framebuffer[o + 1], ppu.framebuffer[o + 2])
}

#[test]
fn background_and_sprites_are_drawn() {
    let cart = cartridge();
    let mut ppu = Box::new(Ppu::new());
    fill_background(&mut ppu.core.nt_ram, &mut ppu.core.palette);
    ppu.core.mask = 0x1E;
    ppu.core.oam = [0xFF; 256];
    // A solid sprite in front, one behind the background, one pixel as first sprite.
    ppu.core.oam[0..4].copy_from_slice(&[50, 3, 0x00, 60]);
    ppu.core.oam[4..8].copy_from_slice(&[50, 2, 0x00, 100]);
    ppu.core.oam[8..12].copy_from_slice(&[50, 2, 0x20, 150]);
    let frame = ppu.core.frame_count + 2;
    while ppu.core.frame_count < frame {
        ppu.tick(&cart);
    }
    assert_eq!(pixel(&ppu, 20, 20), color_rgb(0x16));
    assert_eq!(pixel(&ppu, 60, 51), color_rgb(0x2A));
    assert_eq!(pixel(&ppu, 61, 51), color_rgb(0x16));
    assert_eq!(pixel(&ppu, 60, 50), color_rgb(0x16));
    for x in 100..108 {
        assert_eq!(pixel(&ppu, x, 58), color_rgb(0x30));
        assert_eq!(pixel(&ppu, x, 59), color_rgb(0x16));
    }
    assert_eq!(pixel(&ppu, 150, 55), color_rgb(0x16));
}

#[test]
fn first_sprite_hits_the_background() {
    let cart = cartridge();
    let mut ppu = Box::new(Ppu::new());
    fill_background(&mut ppu.core.nt_ram, &mut ppu.core.palette);
    ppu.core.mask = 0x1E;
    ppu.core.oam = [0xFF; 256];
    ppu.core.oam[0..4].copy_from_slice(&[50, 3, 0x00, 60]);
    while ppu.core.scanline != 51 || ppu.core.dot != 61 {
        ppu.tick(&cart);
    }
    assert_eq!(ppu.core.status & 0x40, 0);
    ppu.tick(&cart);
    assert_eq!(ppu.core.status & 0x40, 0x40);
}

#[test]
fn more_than_eight_sprites_overflow() {
    let cart = cartridge();
    let mut ppu = Box::new(Ppu::new());
    ppu.core.mask = 0x18;
    ppu.core.oam = [0xFF; 256];
    for i in 0..9 {
        ppu.core.oam[4 * i] = 10;
        ppu.core.oam[4 * i + 3] = (20 * i) as u8;
    }
    while ppu.core.scanline != 10 || ppu.core.dot != 257 {
        ppu.tick(&cart);
    }
    assert_eq!((ppu.core.status & 0x20, ppu.sprite_count), (0, 0));
    ppu.tick(&cart);
    assert_eq!((ppu.core.status & 0x20, ppu.sprite_count), (0x20, 8));
    assert_eq!(ppu.sprite_units[7].x, 140);
}

#[test]
fn scrolling_wraps_around() {
    let mut ppu = Box::new(Ppu::new());
    ppu.core.v = 31;
    ppu.core.increment_x();
    assert_eq!(ppu.core.v, 0x0400);
    ppu.core.v = 0x7000 | (29 << 5);
    ppu.core.increment_y();
    assert_eq!(ppu.core.v, 0x0800);
    ppu.core.v = 0x7000 | (31 << 5);
    ppu.core.increment_y();
    assert_eq!(ppu.core.v, 0);
    ppu.core.v = 0x1000;
    ppu.core.increment_y();
    assert_eq!(ppu.core.v, 0x2000);
}

#[test]
fn scrolling_down_changes_nametable() {
    let mut ppu = Box::new(Ppu::new());
    for start in [0x0000u16, 0x7BBF, 0x2417] {
        ppu.core.v = start;
        for _ in 0..240 {
            ppu.core.increment_y();
            assert_eq!(ppu.core.v & 0x041F, start & 0x041F);
        }
        assert_eq!(ppu.core.v, start ^ 0x0800);
    }
    ppu.core.v = 0x7BE5;
    ppu.core.increment_y();
    assert_eq!(ppu.core.v, 0x0805);
}

#[test]
fn blank_lines_agree() {
    let cart = cartridge();
    let mut whole = Box::new(BatchedPpu::new());
    let mut bare = Box::new(BatchedPpu::new());
    for core in [&mut whole.core, &mut bare.core] {
        core.v = 0x1234;
        core.nmi_output = true;
    }
    for _ in 0..600 {
        assert_eq!(whole.finish_scanline(&cart), bare.finish_scanline_minimal(&cart));
        assert_eq!((whole.core.v, whole.core.status), (bare.core.v, bare.core.status));
        assert_eq!(whole.core.nmi_line, bare.core.nmi_line);
        assert!(whole.framebuffer == bare.framebuffer);
    }
}

#[test]
fn the_two_processors_keep_the_same_time() {
    let mut cart = cartridge();
    let mut dotted = Box::new(Ppu::new());
    let mut batched = Box::new(BatchedPpu::new());
    dotted.write_register(0x2000, 0x80, &mut cart);
    batched.write_register(0x2000, 0x80, &mut cart);
    for _ in 0..2 * 341 * 262 {
        assert_eq!(dotted.tick(&cart), batched.tick(&cart));
        assert_eq!(
            (dotted.core.scanline, dotted.core.dot, dotted.core.status),
            (batched.core.scanline, batched.core.dot, batched.core.status)
        );
    }
}

#[test]
fn batched_lines_draw_columns() {
    let cart = cartridge();
    let mut ppu = Box::new(BatchedPpu::new());
    fill_background(&mut ppu.core.nt_ram, &mut ppu.core.palette);
    let mut registers = cartridge();
    ppu.core.v = 0x3F01;
    ppu.write_register(0x2007, 0x16, &mut registers);
    ppu.core.v = 0;
    ppu.core.mask = 0x1E;
    ppu.core.oam = [0xFF; 256];
    ppu.core.oam[0..4].copy_from_slice(&[1, 2, 0x00, 100]);
    for _ in 0..4 {
        assert!(!ppu.finish_scanline(&cart));
    }
    assert_eq!(ppu.core.scanline, 4);
    let (r, g, b) = color_rgb(0x16);
    assert_eq!(ppu.framebuffer[2 * 256 + 50], pack(r, g, b));
    assert_eq!(ppu.framebuffer[2 * 256 + 255], pack(r, g, b));
    assert_ne!(ppu.framebuffer[2 * 256 + 100], pack(r, g, b));
    assert_eq!(ppu.core.status & 0x40, 0x40);
}

#[test]
fn lines_without_pixels_keep_flags_and_time() {
    let cart = cartridge();
    let mut whole = Box::new(BatchedPpu::new());
    let mut bare = Box::new(BatchedPpu::new());
    let mut registers = cartridge();
    whole.write_register(0x2000, 0x80, &mut registers);
    bare.write_register(0x2000, 0x80, &mut registers);
    for _ in 0..3 * 262 {
        assert_eq!(whole.finish_scanline(&cart), bare.finish_scanline_minimal(&cart));
        assert_eq!(whole.core.scanline, bare.core.scanline);
        assert_eq!(whole.core.frame_count, bare.core.frame_count);
        assert_eq!(whole.core.status, bare.core.status);
    }
    assert_eq!(whole.core.frame_count, 3);
}

#[test]
fn lines_leave_what_dots_leave() {
    let cart = cartridge();
    let mut registers = cartridge();
    let mut dotted = Box::new(Ppu::new());
    let mut batched = Box::new(BatchedPpu::new());
    for val in [0x5B, 0x37] {
        dotted.write_register(0x2005, val, &mut registers);
        batched.write_register(0x2005, val, &mut registers);
    }
    for core in [&mut dotted.core, &mut batched.core] {
        core.mask = 0x1E;
        core.v = 0x23FE;
        core.oam = [0xFF; 256];
        for i in 0..9 {
            core.oam[4 * i] = 0;
        }
    }
    for _ in 0..3 {
        ticks(&mut dotted, &cart, 341);
        batched.finish_scanline(&cart);
        assert_eq!(dotted.core.v, batched.core.v);
        assert_eq!(dotted.core.scanline, batched.core.scanline);
        assert_eq!(dotted.core.status & 0xA0, batched.core.status & 0xA0);
    }
    assert_eq!(dotted.core.status & 0x20, 0x20);
}

#[test]
fn tile_map_gives_back() {
    let mut map = TileMap::new();
    map.write_raw(1024 + 5 * 32 + 7, 0x55);
    assert_eq!(map.get_tile(1, 7, 5), 0x55);
    assert_eq!(map.get_tile(3, 7, 5), 0x55);
    assert_eq!(map.read_raw(1024 + 5 * 32 + 7), 0x55);
    assert_eq!(map.get_tile(0, 7, 5), 0);
    map.write_raw(960 + 8 + 1, 0b11_10_01_00);
    assert_eq!(map.get_palette(0, 4, 4), 0);
    assert_eq!(map.get_palette(0, 6, 5), 1);
    assert_eq!(map.get_palette(0, 5, 6), 2);
    assert_eq!(map.get_palette(0, 7, 7), 3);
}

#[test]
fn sprites_are_parsed() {
    let mut oam = [0u8; 256];
    oam[252..256].copy_from_slice(&[10, 20, 0xE3, 40]);
    let mut list = SpriteList::new();
    list.parse_oam(&oam);
    let s = list.sprites[63];
    assert_eq!((s.y, s.tile, s.palette, s.x), (10, 20, 3, 40));
    assert!(s.behind_bg && s.flip_h && s.flip_v);
    assert!(!list.sprites[0].behind_bg);
}

#[test]
fn evaluation_forgets_earlier_lines() {
    let cart = cartridge();
    let mut oam = [0xFFu8; 256];
    oam[0..4].copy_from_slice(&[9, 2, 0x00, 100]);
    oam[4..8].copy_from_slice(&[50, 1, 0x01, 30]);
    let mut list = SpriteList::new();
    list.parse_oam(&oam);
    let mut fresh = Renderer::new();
    let mut used = Renderer::new();
    used.evaluate_sprites(&list, 10, false, 0, 0, &cart);
    for r in [&mut fresh, &mut used] {
        r.evaluate_sprites(&list, 52, false, 0, 0, &cart);
    }
    for px in 0..256 {
        let (a, b) = (fresh.sp_line.columns[px], used.sp_line.columns[px]);
        assert_eq!((a.color, a.palette, a.behind, a.zero), (b.color, b.palette, b.behind, b.zero));
        assert_eq!(a.color != 0, (30..38).contains(&px));
    }
    assert_eq!((fresh.sp_line.used, used.sp_line.used), (true, true));
}

#[test]
fn scanlines_mix_tiles_and_sprites() {
    let cart = cartridge();
    let mut palette = [0u8; 32];
    let mut map = TileMap::new();
    fill_background(&mut map.data, &mut palette);
    let mut renderer = Renderer::new();
    renderer.rebuild_pal_cache(&palette);
    let (r, g, b) = color_rgb(0x16);
    assert_eq!(renderer.pal_cache[1], pack(r, g, b));
    let mut oam = [0xFFu8; 256];
    oam[0..4].copy_from_slice(&[9, 2, 0x00, 100]);
    let mut list = SpriteList::new();
    list.parse_oam(&oam);
    renderer.evaluate_sprites(&list, 10, false, 0, 0, &cart);
    let mut picture = vec![7u32; 256 * 240];
    assert!(renderer.render_scanline(&map, &cart, &mut picture, 11, 0, 3, 0, 0x1E));
    assert_eq!(picture[11 * 256], renderer.pal_cache[1]);
    assert_eq!(picture[11 * 256 + 99], renderer.pal_cache[1]);
    assert_eq!(picture[11 * 256 + 100], renderer.pal_cache[0x13]);
    assert_eq!(picture[11 * 256 + 108], renderer.pal_cache[1]);
    assert_eq!((picture[11 * 256 - 1], picture[12 * 256]), (7, 7));
    // Without sprites there is nothing to hit.
    assert!(!renderer.render_scanline(&map, &cart, &mut picture, 11, 0, 0, 0, 0x0E));
    assert_eq!(picture[11 * 256 + 100], renderer.pal_cache[1]);
}
