// Image files, the tile renderer and the replay.

use contra_nes::bits::reverse;
use contra_nes::game::Game;
use contra_nes::image::{
    argb_from_rgb24, bmp_from_argb, bmp_from_rgb24, ppm_from_rgb24, render_to_terminal,
};
use contra_nes::palette::{color_rgb, pack, NES_PAL};
use contra_nes::renderer::{
    attribute_group, draw_tile, render_background, render_frame, render_sprites,
    sprite_tile_address, Renderer, FB_SIZE, NES_PALETTE,
};

#[test]
fn bitmaps_are_padded_and_upside_down() {
    // Two rows of one pixel: red over blue.
    let file = bmp_from_rgb24(&[255, 0, 0, 0, 0, 255], 1, 2);
    assert_eq!(file.len(), 62);
    assert_eq!(&file[..6], [b'B', b'M', 62, 0, 0, 0]);
    assert_eq!(&file[10..18], [54, 0, 0, 0, 40, 0, 0, 0]);
    assert_eq!(&file[18..30], [1, 0, 0, 0, 2, 0, 0, 0, 1, 0, 24, 0]);
    assert_eq!(&file[34..38], [8, 0, 0, 0]);
    assert_eq!(&file[54..], [255, 0, 0, 0, 0, 0, 255, 0]);
    assert_eq!(file, bmp_from_argb(&[0x00FF0000, 0x000000FF], 1, 2));
}

#[test]
fn portable_pixmaps_have_a_text_header() {
    let file = ppm_from_rgb24(&[1, 2, 3, 4, 5, 6, 7], 2, 1);
    assert_eq!(file, b"P6\n2 1\n255\n\x01\x02\x03\x04\x05\x06");
    assert!(ppm_from_rgb24(&vec![0; FB_SIZE], 256, 240).starts_with(b"P6\n256 240\n255\n"));
}

#[test]
fn terminal_shows_two_rows_per_line() {
    let mut fb = vec![0u8; FB_SIZE];
    fb[..3].copy_from_slice(&[1, 20, 255]);
    let o = 120 * 256 * 3;
    fb[o..o + 3].copy_from_slice(&[7, 8, 9]);
    let out = render_to_terminal(&fb, 120);
    let expected = "\x1b[H\x1b[38;2;1;20;255m\x1b[48;2;7;8;9m\u{2580}\
        \x1b[38;2;0;0;0m\x1b[48;2;0;0;0m\u{2580}\x1b[0m\n";
    assert_eq!(out, expected.as_bytes());
    // One row is left over at this scale.
    let text = String::from_utf8(render_to_terminal(&fb, 80)).unwrap();
    assert_eq!(text.matches('\n').count(), 2);
    assert_eq!(render_to_terminal(&fb, 1000), b"\x1b[H");
}

#[test]
fn pixels_are_packed() {
    let mut fb = vec![0u8; FB_SIZE];
    fb[3..6].copy_from_slice(&[0x12, 0x34, 0x56]);
    let pixels = argb_from_rgb24(&fb);
    assert_eq!((pixels.len(), pixels[0], pixels[1]), (61440, 0, 0x123456));
    assert_eq!(pack(0xFF, 0x80, 0x01), 0xFF8001);
}

#[test]
fn colours_come_from_the_palette() {
    assert_eq!(color_rgb(0x40), color_rgb(0x00));
    assert_eq!(color_rgb(0x30), (NES_PAL[0x30][0], NES_PAL[0x30][1], NES_PAL[0x30][2]));
    assert_eq!(reverse(0b1101_0001), 0b1000_1011);
}

/// Patterns with tile 1 solid in colour 1 and tile 2 with one pixel of colour 2 at its
/// top left.
fn patterns() -> Vec<u8> {
    let mut chr = vec![0u8; 8192];
    for row in 0..8 {
        chr[16 + row] = 0xFF;
    }
    chr[40] = 0x80;
    chr
}

fn pixel(fb: &[u8], x: usize, y: usize) -> (u8, u8, u8) {
    let o = (y * 256 + x) * 3;
    (fb[o], fb[o + 1], fb[o + 2])
}

#[test]
fn tiles_are_clipped_and_flipped() {
    let chr = patterns();
    let pal = [0x0F, 0x16, 0x2A, 0x30];
    let mut fb = vec![9u8; FB_SIZE];
    draw_tile(&mut fb, &chr, 16, &pal, -4, 236, false, false);
    assert_eq!(pixel(&fb, 0, 236), NES_PALETTE[0x16]);
    assert_eq!(pixel(&fb, 3, 239), NES_PALETTE[0x16]);
    assert_eq!(pixel(&fb, 4, 239), (9, 9, 9));
    assert_eq!(pixel(&fb, 0, 235), (9, 9, 9));
    let mut fb = vec![9u8; FB_SIZE];
    draw_tile(&mut fb, &chr, 32, &pal, 10, 10, true, true);
    assert_eq!(pixel(&fb, 17, 17), NES_PALETTE[0x2A]);
    assert_eq!(pixel(&fb, 10, 10), (9, 9, 9));
    // An empty tile draws nothing.
    let before = fb.clone();
    draw_tile(&mut fb, &chr, 0, &pal, 0, 0, false, false);
    assert!(fb == before);
}

#[test]
fn background_scrolls() {
    let chr = patterns();
    let mut nametable = vec![0u8; 2048];
    nametable[0] = 1;
    nametable[960] = 0b0000_0010;
    let mut palette = vec![0x0Fu8; 32];
    palette[9] = 0x16;
    let mut fb = vec![0u8; FB_SIZE];
    render_background(&mut fb, &chr, &nametable, &palette, 3, 0, 0, 0x08);
    assert_eq!(pixel(&fb, 0, 0), NES_PALETTE[0x16]);
    assert_eq!(pixel(&fb, 4, 7), NES_PALETTE[0x16]);
    assert_eq!(pixel(&fb, 5, 0), NES_PALETTE[0x0F]);
    render_background(&mut fb, &chr, &nametable, &palette, 3, 0, 0, 0x00);
    assert_eq!(pixel(&fb, 0, 0), NES_PALETTE[0x0F]);
    assert_eq!(attribute_group(0b11_10_01_00, true, false), 1);
    assert_eq!(attribute_group(0b11_10_01_00, false, true), 2);
}

#[test]
fn earlier_sprites_lie_on_top() {
    let chr = patterns();
    let mut palette = vec![0x0Fu8; 32];
    palette[17] = 0x16;
    palette[21] = 0x2A;
    let sprites = [(9u8, 1u8, 0u8, 20u8), (9, 1, 1, 24)];
    let mut fb = vec![9u8; FB_SIZE];
    render_sprites(&mut fb, &chr, &sprites, &palette, 0, 0x10);
    assert_eq!(pixel(&fb, 20, 10), NES_PALETTE[0x16]);
    assert_eq!(pixel(&fb, 27, 10), NES_PALETTE[0x16]);
    assert_eq!(pixel(&fb, 28, 10), NES_PALETTE[0x2A]);
    assert_eq!(pixel(&fb, 20, 9), (9, 9, 9));
    let mut off = vec![9u8; FB_SIZE];
    render_sprites(&mut off, &chr, &sprites, &palette, 0, 0x00);
    assert!(off.iter().all(|&b| b == 9));
    assert_eq!(sprite_tile_address(0x13, true, false, 9), 0x1130);
    assert_eq!(sprite_tile_address(0x13, false, true, 3), 0x1130);
}

#[test]
fn first_sprite_wins_behind_the_background_too() {
    let mut chr = vec![0u8; 8192];
    chr[0] = 0x80;
    let mut palette = vec![0x0Fu8; 32];
    palette[17] = 0x20;
    palette[21] = 0x16;
    let sprites = [(9u8, 0u8, 0x20u8, 10u8), (9, 0, 0x01, 10)];
    let mut fb = vec![0u8; FB_SIZE];
    render_sprites(&mut fb, &chr, &sprites, &palette, 0, 0x10);
    assert_eq!(&fb[7710..7713], [255, 255, 255]);
    // Over an opaque background the first sprite does not show.
    let mut fb = vec![9u8; FB_SIZE];
    render_sprites(&mut fb, &chr, &sprites, &palette, 0, 0x10);
    assert_eq!(pixel(&fb, 10, 10), NES_PALETTE[0x16]);
    let mut fb = vec![9u8; FB_SIZE];
    render_sprites(&mut fb, &chr, &sprites[..1], &palette, 0, 0x10);
    assert_eq!(pixel(&fb, 10, 10), (9, 9, 9));
}

#[test]
fn pictures_do_not_depend_on_what_was_there() {
    let chr = patterns();
    let nametable = vec![1u8; 2048];
    let palette: Vec<u8> = (0..32).collect();
    let sprites = [(9u8, 2u8, 0x40u8, 20u8)];
    let mut a = vec![0u8; FB_SIZE];
    let mut b = vec![77u8; FB_SIZE];
    for fb in [&mut a, &mut b] {
        render_frame(fb, &chr, &nametable, &palette, &sprites, 5, 6, 0, 0x18);
    }
    assert!(a == b);
    render_frame(&mut b, &chr, &nametable, &palette, &sprites, 5, 6, 0, 0x18);
    assert!(a == b);
    assert_eq!(pixel(&a, 27, 10), NES_PALETTE[18]);
    Renderer::new().render(&a);
}

/// A trace of the given deltas on patterns(), an empty nametable and palette 0-31.
fn trace(frames: u32, deltas: &[u8]) -> Vec<u8> {
    let mut t = frames.to_le_bytes().to_vec();
    t.extend(patterns());
    t.extend(vec![0u8; 2048]);
    t.extend(0..32u8);
    t.extend_from_slice(deltas);
    t
}

#[test]
fn replay_applies_its_deltas() {
    // Scroll 8, one patch (cell 1 becomes tile 1), one sprite.
    let delta = [
        8, 0, 0, 0, 0, 0, 0x18, 0, 0, 1, 0, 1, 0, 1, 1, 19, 2, 0, 40,
    ];
    let t = trace(1, &delta);
    let mut game = Game::new(&[], 0, &t);
    assert_eq!(game.frame_count(), 0);
    assert!(game.can_update());
    game.update();
    assert_eq!((game.frame_count(), game.scroll_x, game.mask), (1, 8, 0x18));
    assert_eq!(game.nametable[1], 1);
    assert_eq!(pixel(game.framebuffer(), 0, 0), color_rgb(1));
    assert_eq!(pixel(game.framebuffer(), 8, 0), color_rgb(0));
    assert_eq!(pixel(game.framebuffer(), 40, 20), color_rgb(18));
    // The last picture stays.
    let before = game.framebuffer().to_vec();
    assert!(game.can_update());
    game.update();
    assert!(game.framebuffer() == &before[..]);
    assert_eq!(game.frame_count(), 2);
    game.render();
    assert!(game.framebuffer() == &before[..]);
    assert_eq!(game.audio_buffer(0.0f32).available(), 0);
}

#[test]
fn replay_replaces_patterns_and_palette() {
    let mut delta = vec![0, 0, 0, 0, 0, 0, 0x08, 1];
    delta.extend(vec![0xFFu8; 8192]);
    delta.push(1);
    delta.extend(vec![0x21u8; 32]);
    delta.extend([0, 0, 0]);
    let mut game = Game::new(&[], 0, &trace(1, &delta));
    assert!(game.can_update());
    game.update();
    assert_eq!((game.chr_data[0], game.pal_data[3]), (0xFF, 0x21));
    assert_eq!(pixel(game.framebuffer(), 100, 100), color_rgb(0x21));
}

#[test]
fn replay_notices_a_trace_that_is_cut_short() {
    let delta = [0, 0, 0, 0, 0, 0, 0x18, 0, 0, 2, 0, 1, 0, 1];
    let game = Game::new(&[], 0, &trace(1, &delta));
    assert!(!game.can_update());
    let game = Game::new(&[], 0, &trace(1, &[]));
    assert!(!game.can_update());
}

#[test]
fn frames_count_updates() {
    let delta = [0, 0, 0, 0, 0, 0, 0x18, 0, 0, 0, 0, 1, 19, 2, 0, 40];
    let t = trace(1, &delta);
    let mut a = Game::new(&[], 0, &t);
    let mut b = Game::new(&[1, 2, 3], 1, &t);
    for k in 1..=4u64 {
        a.update();
        b.render();
        b.set_button(0, 3, k % 2 == 0);
        b.update();
        b.render();
        assert_eq!((a.frame_count(), b.frame_count()), (k, k));
        assert!(a.framebuffer() == b.framebuffer());
    }
}

#[test]
fn buttons_do_not_change_the_replay() {
    let delta = [0, 0, 0, 0, 0, 0, 0x18, 0, 0, 0, 0, 1, 19, 2, 0, 40];
    let t = trace(1, &delta);
    let mut a = Game::new(&[], 0, &t);
    let mut b = Game::new(&[], 0, &t);
    b.set_button(0, 0, true);
    b.set_button(1, 7, true);
    b.set_button(2, 7, true);
    assert_eq!(b.buttons, [1, 0x80]);
    a.update();
    b.update();
    assert!(a.framebuffer() == b.framebuffer());
}
