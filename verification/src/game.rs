//! Replays a recorded trace of picture states.
//!
//! A trace begins with the number of frames (four bytes, low byte first), 8192 bytes of
//! tile patterns, 2048 bytes of nametables and 32 bytes of palette. Each frame follows
//! as a delta: scroll positions, fine scroll, control and mask registers, new patterns
//! and palette if they changed, patches to the nametables, and the list of sprites.

use vstd::prelude::*;
use vstd::slice::{slice_subrange, slice_to_vec};
use crate::audio::AudioBuffer;
use crate::bits;
use crate::bus;
use crate::palette;
use crate::renderer;

verus! {

pub struct Game {
    /// Tile patterns.
    pub chr_data: Vec<u8>,
    /// Two nametables.
    pub nametable: Vec<u8>,
    /// Palette entries, as colour numbers.
    pub pal_data: Vec<u8>,
    /// Row, tile, attributes and column of each sprite.
    pub sprites: Vec<(u8, u8, u8, u8)>,
    pub scroll_x: u16,
    pub scroll_y: u16,
    pub ctrl: u8,
    pub mask: u8,
    /// The picture, RGB24.
    pub framebuffer: Vec<u8>,
    pub frame_index: usize,
    /// Where the next delta begins.
    pub trace_offset: usize,
    pub total_frames: u32,
    /// Buttons held, one byte per controller.
    pub buttons: [u8; 2],
    pub trace: Vec<u8>,
}

/// The state of a replay.
#[verifier::ext_equal]
pub ghost struct GameModel {
    pub chr_data: Seq<u8>,
    pub nametable: Seq<u8>,
    pub pal_data: Seq<u8>,
    pub sprites: Seq<(u8, u8, u8, u8)>,
    pub scroll_x: u16,
    pub scroll_y: u16,
    pub ctrl: u8,
    pub mask: u8,
    pub framebuffer: Seq<u8>,
    pub frame_index: int,
    pub trace_offset: int,
    pub total_frames: int,
    pub buttons: Seq<u8>,
    pub trace: Seq<u8>,
}

/// The word at an offset, low byte first.
pub open spec fn word_at(data: Seq<u8>, off: int) -> int {
    data[off] + 256 * data[off + 1]
}

/// The 32-bit number at an offset, low byte first.
pub open spec fn long_at(data: Seq<u8>, off: int) -> int {
    data[off] + 256 * data[off + 1] + 65536 * data[off + 2] + 16777216 * data[off + 3]
}

/// Bytes of a trace's header.
pub open spec fn header_len() -> int {
    4int + 8192 + 2048 + 32
}

/// Where the parts of the delta at `off` begin: each part's place depends on the sizes
/// of the parts before it.
pub ghost struct Delta {
    pub trace: Seq<u8>,
    pub off: int,
}

impl Delta {
    pub open spec fn chr_changed(self) -> bool {
        self.trace[self.off + 7] != 0
    }

    /// The flag that tells whether the palette changed.
    pub open spec fn pal_flag(self) -> int {
        self.off + 8 + (if self.chr_changed() {
            8192int
        } else {
            0
        })
    }

    pub open spec fn pal_changed(self) -> bool {
        self.trace[self.pal_flag()] != 0
    }

    /// The number of nametable patches.
    pub open spec fn patch_count_at(self) -> int {
        self.pal_flag() + 1 + (if self.pal_changed() {
            32int
        } else {
            0
        })
    }

    pub open spec fn patch_count(self) -> int {
        word_at(self.trace, self.patch_count_at())
    }

    /// The number of sprites.
    pub open spec fn sprite_count_at(self) -> int {
        self.patch_count_at() + 2 + 3 * self.patch_count()
    }

    pub open spec fn sprite_count(self) -> int {
        self.trace[self.sprite_count_at()] as int
    }

    /// Past the last byte.
    pub open spec fn end(self) -> int {
        self.sprite_count_at() + 1 + 4 * self.sprite_count()
    }

    /// The trace holds the whole delta.
    pub open spec fn fits(self) -> bool {
        let len = self.trace.len();
        &&& self.off + 8 <= len
        &&& self.pal_flag() + 1 <= len
        &&& self.patch_count_at() + 2 <= len
        &&& self.sprite_count_at() + 1 <= len
        &&& self.end() <= len
    }

    /// The nametables after the first `n` patches; patches past their end are ignored.
    pub open spec fn patched(self, nametable: Seq<u8>, n: int) -> Seq<u8>
        decreases n,
    {
        if n <= 0 {
            nametable
        } else {
            let before = self.patched(nametable, n - 1);
            let at = self.patch_count_at() + 2 + 3 * (n - 1);
            let cell = word_at(self.trace, at);
            if cell < before.len() {
                before.update(cell, self.trace[at + 2])
            } else {
                before
            }
        }
    }

    /// The sprites.
    pub open spec fn sprites(self) -> Seq<(u8, u8, u8, u8)> {
        Seq::new(
            self.sprite_count() as nat,
            |k: int|
                {
                    let at = self.sprite_count_at() + 1 + 4 * k;
                    (self.trace[at], self.trace[at + 1], self.trace[at + 2], self.trace[at + 3])
                },
        )
    }
}

impl GameModel {
    pub open spec fn wf(self) -> bool {
        &&& self.chr_data.len() == 8192
        &&& self.nametable.len() == 2048
        &&& self.pal_data.len() == 32
        &&& self.framebuffer.len() == 184320
        &&& 0 <= self.trace_offset <= self.trace.len()
    }

    pub open spec fn delta(self) -> Delta {
        Delta { trace: self.trace, off: self.trace_offset }
    }

    /// The trace has another frame.
    pub open spec fn frames_left(self) -> bool {
        self.frame_index < self.total_frames
    }

    /// The next frame's delta is applied.
    pub open spec fn delta_applied(self) -> GameModel {
        let d = self.delta();
        let t = self.trace;
        GameModel {
            scroll_x: word_at(t, d.off) as u16,
            scroll_y: word_at(t, d.off + 2) as u16,
            ctrl: t[d.off + 5],
            mask: t[d.off + 6],
            chr_data: if d.chr_changed() {
                t.subrange(d.off + 8, d.off + 8 + 8192)
            } else {
                self.chr_data
            },
            pal_data: if d.pal_changed() {
                t.subrange(d.pal_flag() + 1, d.pal_flag() + 1 + 32)
            } else {
                self.pal_data
            },
            nametable: d.patched(self.nametable, d.patch_count()),
            sprites: d.sprites(),
            trace_offset: d.end(),
            ..self
        }
    }

    /// The two-bit pixel of the pattern byte pair at `addr`.
    pub open spec fn pattern_pixel(self, addr: int, bit: int) -> int {
        if addr + 8 < self.chr_data.len() {
            (if bits::bit8(self.chr_data[addr], bit) {
                1int
            } else {
                0
            }) + (if bits::bit8(self.chr_data[addr + 8], bit) {
                2int
            } else {
                0
            })
        } else {
            0
        }
    }

    /// The palette slot of the background at column `x` and row `y`, 0 where it is
    /// transparent. The nametables lie side by side; below them there is nothing.
    pub open spec fn background_slot(self, x: int, y: int) -> int {
        let abs_x = (x + self.scroll_x) % 65536;
        let abs_y = (y + self.scroll_y) % 65536;
        let base = (abs_y / 240 % 2 * 2 + abs_x / 256 % 2) * 1024;
        let column = abs_x % 256 / 8;
        let row = abs_y % 240 / 8;
        if base + row * 32 + column >= self.nametable.len() {
            0
        } else {
            let tile = self.nametable[base + row * 32 + column];
            let attr = renderer::byte_or(self.nametable, base + 960 + row / 4 * 8 + column / 4, 0);
            let group = attr as int / bits::weight(row / 2 % 2 * 4 + column / 2 % 2 * 2) % 4;
            let table = if bits::bit8(self.ctrl, 4) {
                0x1000int
            } else {
                0
            };
            let pixel = self.pattern_pixel(
                table + tile * 16 + abs_y % 240 % 8,
                7 - abs_x % 256 % 8,
            );
            if pixel == 0 {
                0
            } else {
                group * 4 + pixel
            }
        }
    }

    pub open spec fn sprite_height(self) -> int {
        if bits::bit8(self.ctrl, 5) {
            16
        } else {
            8
        }
    }

    /// The two-bit pixel of a sprite at column `x` and row `y`. It appears one row below
    /// its stated row.
    pub open spec fn sprite_pixel(self, sp: (u8, u8, u8, u8), x: int, y: int) -> int {
        let h = self.sprite_height();
        let down = y - (sp.0 + 1);
        let right = x - sp.3;
        if 0 <= right < 8 && 0 <= down < h {
            let row = renderer::flipped(bits::bit8(sp.2, 7), down, h);
            let col = renderer::flipped(bits::bit8(sp.2, 6), right, 8);
            let tile_addr = if h == 16 {
                sp.1 % 2 * 0x1000 + (sp.1 / 2 * 2 + row / 8) * 16
            } else {
                (if bits::bit8(self.ctrl, 3) {
                    0x1000int
                } else {
                    0
                }) + sp.1 * 16
            };
            self.pattern_pixel(tile_addr + row % 8, 7 - col)
        } else {
            0
        }
    }

    /// The first of the sprites from `from` on that is opaque at column `x` and row `y`.
    pub open spec fn front_sprite(self, x: int, y: int, from: int) -> Option<int>
        decreases self.sprites.len() - from,
    {
        if from >= self.sprites.len() {
            None
        } else if self.sprite_pixel(self.sprites[from], x, y) != 0 {
            Some(from)
        } else {
            self.front_sprite(x, y, from + 1)
        }
    }

    /// The palette slot of the sprites at column `x` and row `y`, and whether they lie
    /// behind the background.
    pub open spec fn sprite_slot(self, x: int, y: int) -> Option<(int, bool)> {
        match self.front_sprite(x, y, 0) {
            Some(s) => Some(
                (
                    (self.sprites[s].2 % 4 + 4) * 4 + self.sprite_pixel(self.sprites[s], x, y),
                    bits::bit8(self.sprites[s].2, 5),
                ),
            ),
            None => None,
        }
    }

    /// The palette slot shown at column `x` and row `y`.
    pub open spec fn slot(self, x: int, y: int) -> int {
        let back = if bits::bit8(self.mask, 3) {
            self.background_slot(x, y)
        } else {
            0
        };
        let front = if bits::bit8(self.mask, 4) {
            self.sprite_slot(x, y)
        } else {
            None
        };
        match front {
            Some((slot, behind)) => if back == 0 || !behind {
                slot
            } else {
                back
            },
            None => back,
        }
    }

    /// The colour shown at column `x` and row `y`.
    pub open spec fn color(self, x: int, y: int) -> (u8, u8, u8) {
        palette::rgb(self.pal_data[self.slot(x, y)])
    }

    /// The picture is drawn.
    pub open spec fn drawn(self) -> GameModel {
        GameModel {
            framebuffer: Seq::new(
                184320,
                |i: int| renderer::channel(self.color(i / 3 % 256, i / 3 / 256), i % 3),
            ),
            ..self
        }
    }

    /// One frame: the next delta, if there is one, and a new picture.
    pub open spec fn updated(self) -> GameModel {
        let s = if self.frames_left() {
            self.delta_applied()
        } else {
            self
        };
        GameModel { frame_index: self.frame_index + 1, ..s.drawn() }
    }

    /// `n` frames.
    pub open spec fn updated_times(self, n: nat) -> GameModel
        decreases n,
    {
        if n == 0 {
            self
        } else {
            self.updated_times((n - 1) as nat).updated()
        }
    }
}

/// A replay at its start.
pub open spec fn game_of(trace: Seq<u8>) -> GameModel {
    GameModel {
        chr_data: trace.subrange(4, 8196),
        nametable: trace.subrange(8196, 10244),
        pal_data: trace.subrange(10244, 10276),
        sprites: Seq::empty(),
        scroll_x: 0,
        scroll_y: 0,
        ctrl: 0,
        mask: 0,
        framebuffer: Seq::new(184320, |i: int| 0u8),
        frame_index: 0,
        trace_offset: 10276,
        total_frames: long_at(trace, 0),
        buttons: Seq::new(2, |i: int| 0u8),
        trace,
    }
}

fn read_u8(data: &[u8], off: &mut usize) -> (v: u8)
    requires
        *old(off) < data@.len(),
    ensures
        v == data@[*old(off) as int],
        *final(off) == *old(off) + 1,
{
    assert(data.len() >= *off + 1);
    let v: u8 = data[*off];
    *off = *off + 1;
    v
}

fn read_u16(data: &[u8], off: &mut usize) -> (v: u16)
    requires
        *old(off) + 2 <= data@.len(),
    ensures
        v == word_at(data@, *old(off) as int),
        *final(off) == *old(off) + 2,
{
    let lo: u8 = read_u8(data, off);
    let hi: u8 = read_u8(data, off);
    lo as u16 + 256 * hi as u16
}

fn read_u32(data: &[u8], off: &mut usize) -> (v: u32)
    requires
        *old(off) + 4 <= data@.len(),
    ensures
        v == long_at(data@, *old(off) as int),
        *final(off) == *old(off) + 4,
{
    let lo: u16 = read_u16(data, off);
    let hi: u16 = read_u16(data, off);
    lo as u32 + 65536 * hi as u32
}

fn read_bytes(data: &[u8], off: &mut usize, len: usize) -> (bytes: Vec<u8>)
    requires
        *old(off) + len <= data@.len(),
    ensures
        bytes@ == data@.subrange(*old(off) as int, *old(off) + len),
        *final(off) == *old(off) + len,
{
    assert(data.len() >= *off + len);
    let bytes: Vec<u8> = slice_to_vec(slice_subrange(data, *off, *off + len));
    *off = *off + len;
    bytes
}

impl View for Game {
    type V = GameModel;

    open spec fn view(&self) -> GameModel {
        GameModel {
            chr_data: self.chr_data@,
            nametable: self.nametable@,
            pal_data: self.pal_data@,
            sprites: self.sprites@,
            scroll_x: self.scroll_x,
            scroll_y: self.scroll_y,
            ctrl: self.ctrl,
            mask: self.mask,
            framebuffer: self.framebuffer@,
            frame_index: self.frame_index as int,
            trace_offset: self.trace_offset as int,
            total_frames: self.total_frames as int,
            buttons: self.buttons@,
            trace: self.trace@,
        }
    }
}

impl Game {
    pub open spec fn wf(&self) -> bool {
        self@.wf()
    }

    /// A replay of a trace. The program plays no part in it.
    pub fn new(_prg_data: &[u8], _prg_banks: usize, trace: &[u8]) -> (game: Game)
        requires
            trace@.len() >= header_len(),
        ensures
            game.wf(),
            game@ == game_of(trace@),
    {
        let mut off: usize = 0;
        let total_frames: u32 = read_u32(trace, &mut off);
        let chr_data: Vec<u8> = read_bytes(trace, &mut off, 8192);
        let nametable: Vec<u8> = read_bytes(trace, &mut off, 2048);
        let pal_data: Vec<u8> = read_bytes(trace, &mut off, 32);
        Game {
            chr_data,
            nametable,
            pal_data,
            sprites: Vec::new(),
            scroll_x: 0,
            scroll_y: 0,
            ctrl: 0,
            mask: 0,
            framebuffer: blank_picture(),
            frame_index: 0,
            trace_offset: off,
            total_frames,
            buttons: [0;2],
            trace: slice_to_vec(trace),
        }
    }

    /// Whether the trace holds what the next update reads.
    pub open spec fn update_fits(&self) -> bool {
        &&& self.frame_index < usize::MAX
        &&& self@.frames_left() ==> self@.delta().fits()
    }

    fn more_frames(&self) -> (more: bool)
        ensures
            more == self@.frames_left(),
    {
        (self.frame_index as u64) < self.total_frames as u64
    }

    /// Whether the next update can be made: false where the trace is cut short.
    pub fn can_update(&self) -> (fits: bool)
        requires
            self.wf(),
        ensures
            fits == self.update_fits(),
    {
        if self.frame_index == usize::MAX {
            return false;
        }
        if !self.more_frames() {
            return true;
        }
        let ghost d = self@.delta();
        let len: usize = self.trace.len();
        let off: usize = self.trace_offset;
        if len - off < 8 {
            return false;
        }
        let mut at: usize = off + 8;
        if self.trace[off + 7] != 0 {
            if len - at < 8192 {
                return false;
            }
            at = at + 8192;
        }
        assert(at == d.pal_flag());
        if len - at < 1 {
            return false;
        }
        let pal_changed: bool = self.trace[at] != 0;
        at = at + 1;
        if pal_changed {
            if len - at < 32 {
                return false;
            }
            at = at + 32;
        }
        assert(at == d.patch_count_at());
        if len - at < 2 {
            return false;
        }
        let patches: usize = self.trace[at] as usize + 256 * self.trace[at + 1] as usize;
        at = at + 2;
        if len - at < 3 * patches {
            return false;
        }
        at = at + 3 * patches;
        assert(at == d.sprite_count_at());
        if len - at < 1 {
            return false;
        }
        let count: usize = self.trace[at] as usize;
        len - at - 1 >= 4 * count
    }

    /// One frame: applies the next delta, if there is one, and draws the picture.
    pub fn update(&mut self)
        requires
            old(self).wf(),
            old(self).update_fits(),
        ensures
            final(self).wf(),
            final(self)@ == old(self)@.updated(),
    {
        if self.more_frames() {
            self.read_frame_delta();
        }
        self.render_frame();
        self.frame_index = self.frame_index + 1;
    }

    /// Applies one frame's delta.
    fn read_frame_delta(&mut self)
        requires
            old(self).wf(),
            old(self)@.delta().fits(),
        ensures
            final(self).wf(),
            final(self)@ == old(self)@.delta_applied(),
            final(self).frame_index == old(self).frame_index,
    {
        let ghost d = self@.delta();
        let mut off: usize = self.trace_offset;
        let trace: &[u8] = self.trace.as_slice();
        let scroll_x: u16 = read_u16(trace, &mut off);
        let scroll_y: u16 = read_u16(trace, &mut off);
        let _fine_x: u8 = read_u8(trace, &mut off);
        let ctrl: u8 = read_u8(trace, &mut off);
        let mask: u8 = read_u8(trace, &mut off);
        let chr_changed: u8 = read_u8(trace, &mut off);
        let mut chr: Option<Vec<u8>> = None;
        if chr_changed != 0 {
            chr = Some(read_bytes(trace, &mut off, 8192));
        }
        assert(off == d.pal_flag());
        let pal_changed: u8 = read_u8(trace, &mut off);
        let mut pal: Option<Vec<u8>> = None;
        if pal_changed != 0 {
            pal = Some(read_bytes(trace, &mut off, 32));
        }
        assert(off == d.patch_count_at());
        self.scroll_x = scroll_x;
        self.scroll_y = scroll_y;
        self.ctrl = ctrl;
        self.mask = mask;
        match chr {
            Some(bytes) => {
                self.chr_data = bytes;
            },
            None => {},
        }
        match pal {
            Some(bytes) => {
                self.pal_data = bytes;
            },
            None => {},
        }
        self.trace_offset = off;
        self.read_patches(Ghost(d));
        self.read_sprites(Ghost(d));
    }

    /// Applies the nametable patches.
    fn read_patches(&mut self, Ghost(d): Ghost<Delta>)
        requires
            old(self).wf(),
            d.trace == old(self).trace@,
            d.fits(),
            0 <= d.off,
            old(self).trace_offset == d.patch_count_at(),
        ensures
            final(self).wf(),
            final(self)@ == (GameModel {
                nametable: d.patched(old(self).nametable@, d.patch_count()),
                trace_offset: d.sprite_count_at(),
                ..old(self)@
            }),
            final(self).frame_index == old(self).frame_index,
    {
        let mut off: usize = self.trace_offset;
        let count: u16 = read_u16(self.trace.as_slice(), &mut off);
        let mut k: u16 = 0;
        while k < count
            invariant
                k <= count,
                count == d.patch_count(),
                d.trace == self.trace@,
                d.fits(),
                0 <= d.off,
                off == d.patch_count_at() + 2 + 3 * k,
                self.wf(),
                self.frame_index == old(self).frame_index,
                self@ == (GameModel {
                    nametable: d.patched(old(self).nametable@, k as int),
                    ..old(self)@
                }),
            decreases count - k,
        {
            let cell: u16 = read_u16(self.trace.as_slice(), &mut off);
            let value: u8 = read_u8(self.trace.as_slice(), &mut off);
            if (cell as usize) < self.nametable.len() {
                self.nametable.set(cell as usize, value);
            }
            k = k + 1;
        }
        self.trace_offset = off;
    }

    /// Reads the list of sprites.
    fn read_sprites(&mut self, Ghost(d): Ghost<Delta>)
        requires
            old(self).wf(),
            d.trace == old(self).trace@,
            d.fits(),
            0 <= d.off,
            old(self).trace_offset == d.sprite_count_at(),
        ensures
            final(self).wf(),
            final(self)@ == (GameModel {
                sprites: d.sprites(),
                trace_offset: d.end(),
                ..old(self)@
            }),
            final(self).frame_index == old(self).frame_index,
    {
        let mut off: usize = self.trace_offset;
        let trace: &[u8] = self.trace.as_slice();
        let count: u8 = read_u8(trace, &mut off);
        let mut sprites: Vec<(u8, u8, u8, u8)> = Vec::new();
        while sprites.len() < count as usize
            invariant
                sprites.len() <= count,
                count == d.sprite_count(),
                d.trace == trace@,
                d.fits(),
                0 <= d.off,
                off == d.sprite_count_at() + 1 + 4 * sprites.len(),
                sprites@ == d.sprites().take(sprites.len() as int),
            decreases count - sprites.len(),
        {
            let y: u8 = read_u8(trace, &mut off);
            let tile: u8 = read_u8(trace, &mut off);
            let attr: u8 = read_u8(trace, &mut off);
            let x: u8 = read_u8(trace, &mut off);
            sprites.push((y, tile, attr, x));
        }
        assert(sprites@ =~= d.sprites());
        self.sprites = sprites;
        self.trace_offset = off;
    }

    /// The picture is drawn by `update`; nothing is left to do.
    pub fn render(&mut self)
        ensures
            *final(self) == *old(self),
    {
    }

    /// Presses or releases a button. Controllers other than 0 and 1 and buttons past 7
    /// are ignored.
    pub fn set_button(&mut self, player: usize, button: u8, pressed: bool)
        requires
            old(self).wf(),
        ensures
            final(self).wf(),
            final(self)@ == old(self)@.button_set(player as int, button, pressed),
    {
        if player < 2 && button < 8 {
            let held: u8 = self.buttons[player];
            self.buttons[player] = bus::set_pad(held, button, pressed);
        }
    }

    /// The picture, RGB24.
    pub fn framebuffer(&self) -> (pixels: &[u8])
        ensures
            pixels@ == self@.framebuffer,
    {
        self.framebuffer.as_slice()
    }

    /// The number of frames shown.
    pub fn frame_count(&self) -> (n: u64)
        ensures
            n == self@.frame_index,
    {
        self.frame_index as u64
    }

    /// A replay has no sound: this buffer is empty.
    pub fn audio_buffer<T: Copy>(&self, silence: T) -> (b: AudioBuffer<T>)
        ensures
            b.wf(),
            b.capacity == 4096,
            b.silence == silence,
            b@ == Seq::<T>::empty(),
    {
        AudioBuffer::new(4096, silence)
    }

    /// Draws the picture.
    fn render_frame(&mut self)
        requires
            old(self).wf(),
        ensures
            final(self).wf(),
            final(self)@ == old(self)@.drawn(),
            final(self).frame_index == old(self).frame_index,
    {
        let mut picture: Vec<u8> = Vec::new();
        let mut y: usize = 0;
        while y < 240
            invariant
                y <= 240,
                self.wf(),
                *self == *old(self),
                picture.len() == y * 768,
                forall|i: int|
                    0 <= i < picture.len() ==> #[trigger] picture@[i] == renderer::channel(
                        self@.color(i / 3 % 256, i / 3 / 256),
                        i % 3,
                    ),
            decreases 240 - y,
        {
            self.render_scanline(y, &mut picture);
            y = y + 1;
        }
        self.framebuffer = picture;
    }

    /// Adds a row to the picture.
    fn render_scanline(&self, y: usize, picture: &mut Vec<u8>)
        requires
            self.wf(),
            y < 240,
            old(picture).len() == y * 768,
            forall|i: int|
                0 <= i < old(picture).len() ==> #[trigger] old(picture)@[i] == renderer::channel(
                    self@.color(i / 3 % 256, i / 3 / 256),
                    i % 3,
                ),
        ensures
            final(picture).len() == y * 768 + 768,
            forall|i: int|
                0 <= i < final(picture).len() ==> #[trigger] final(picture)@[i]
                    == renderer::channel(self@.color(i / 3 % 256, i / 3 / 256), i % 3),
    {
        let mut x: usize = 0;
        while x < 256
            invariant
                self.wf(),
                x <= 256,
                y < 240,
                picture.len() == (y * 256 + x) * 3,
                forall|i: int|
                    0 <= i < picture.len() ==> #[trigger] picture@[i] == renderer::channel(
                        self@.color(i / 3 % 256, i / 3 / 256),
                        i % 3,
                    ),
            decreases 256 - x,
        {
            let c: (u8, u8, u8) = self.pixel_color(x, y);
            let ghost p = y * 256 + x;
            assert(p % 256 == x && p / 256 == y);
            assert(3 * p / 3 == p && (3 * p + 1) / 3 == p && (3 * p + 2) / 3 == p);
            picture.push(c.0);
            picture.push(c.1);
            picture.push(c.2);
            x = x + 1;
        }
    }

    /// The colour shown at column `x` and row `y`.
    fn pixel_color(&self, x: usize, y: usize) -> (c: (u8, u8, u8))
        requires
            self.wf(),
            x < 256,
            y < 240,
        ensures
            c == self@.color(x as int, y as int),
    {
        proof {
            bits::lemma_bit8(self.mask);
        }
        let back: usize = if self.mask & 0x08 != 0 {
            self.sample_background(y, x)
        } else {
            0
        };
        let front: Option<(usize, bool)> = if self.mask & 0x10 != 0 {
            self.sample_sprites(y, x)
        } else {
            None
        };
        let slot: usize = match front {
            Some((s, behind)) => if back == 0 || !behind {
                s
            } else {
                back
            },
            None => back,
        };
        palette::color_rgb(self.pal_data[slot])
    }

    /// The two-bit pixel of the pattern byte pair at `addr`.
    fn pattern_bits(&self, addr: usize, bit: u8) -> (pixel: u8)
        requires
            bit < 8,
            addr <= 0x3000,
        ensures
            pixel == self@.pattern_pixel(addr as int, bit as int),
            pixel < 4,
    {
        if addr + 8 < self.chr_data.len() {
            bits::bit_at(self.chr_data[addr], bit) + 2 * bits::bit_at(self.chr_data[addr + 8], bit)
        } else {
            0
        }
    }

    /// The palette slot of the background, 0 where it is transparent.
    fn sample_background(&self, scanline: usize, pixel: usize) -> (slot: usize)
        requires
            self.wf(),
            pixel < 256,
            scanline < 240,
        ensures
            slot == self@.background_slot(pixel as int, scanline as int),
            slot < 16,
    {
        proof {
            bits::lemma_bit8(self.ctrl);
        }
        let abs_x: usize = (pixel + self.scroll_x as usize) % 65536;
        let abs_y: usize = (scanline + self.scroll_y as usize) % 65536;
        let base: usize = (abs_y / 240 % 2 * 2 + abs_x / 256 % 2) * 1024;
        let column: usize = abs_x % 256 / 8;
        let row: usize = abs_y % 240 / 8;
        let at: usize = base + row * 32 + column;
        if at >= self.nametable.len() {
            return 0;
        }
        let tile: u8 = self.nametable[at];
        let attr_at: usize = base + 960 + row / 4 * 8 + column / 4;
        let attr: u8 = if attr_at < self.nametable.len() {
            self.nametable[attr_at]
        } else {
            0
        };
        let group: u8 = renderer::attribute_group(attr, column / 2 % 2 == 1, row / 2 % 2 == 1);
        let table: usize = if self.ctrl & 0x10 != 0 {
            0x1000
        } else {
            0
        };
        let value: u8 = self.pattern_bits(
            table + tile as usize * 16 + abs_y % 240 % 8,
            7 - (abs_x % 256 % 8) as u8,
        );
        if value == 0 {
            0
        } else {
            group as usize * 4 + value as usize
        }
    }

    /// The two-bit pixel of a sprite.
    fn sprite_value(&self, sp: (u8, u8, u8, u8), scanline: usize, pixel: usize) -> (value: u8)
        requires
            self.wf(),
            pixel < 256,
            scanline < 240,
        ensures
            value == self@.sprite_pixel(sp, pixel as int, scanline as int),
            value < 4,
    {
        proof {
            bits::lemma_bit8(self.ctrl);
            bits::lemma_bit8(sp.2);
        }
        let sx: usize = sp.3 as usize;
        let sy: usize = sp.0 as usize + 1;
        let tall: bool = self.ctrl & 0x20 != 0;
        let height: usize = if tall {
            16
        } else {
            8
        };
        if pixel < sx || pixel >= sx + 8 || scanline < sy || scanline >= sy + height {
            return 0;
        }
        let col: usize = if sp.2 & 0x40 != 0 {
            7 - (pixel - sx)
        } else {
            pixel - sx
        };
        let row: usize = if sp.2 & 0x80 != 0 {
            height - 1 - (scanline - sy)
        } else {
            scanline - sy
        };
        let tile_addr: usize = renderer::sprite_tile_address(
            sp.1,
            tall,
            self.ctrl & 0x08 != 0,
            row,
        );
        self.pattern_bits(tile_addr + row % 8, 7 - col as u8)
    }

    /// The palette slot of the first opaque sprite, and whether it lies behind the
    /// background.
    fn sample_sprites(&self, scanline: usize, pixel: usize) -> (found: Option<(usize, bool)>)
        requires
            self.wf(),
            pixel < 256,
            scanline < 240,
        ensures
            match found {
                Some((slot, behind)) => self@.sprite_slot(pixel as int, scanline as int) == Some(
                    (slot as int, behind),
                ) && slot < 32,
                None => self@.sprite_slot(pixel as int, scanline as int) is None,
            },
    {
        let mut s: usize = 0;
        while s < self.sprites.len()
            invariant
                self.wf(),
                pixel < 256,
                scanline < 240,
                s <= self.sprites.len(),
                self@.front_sprite(pixel as int, scanline as int, 0) == self@.front_sprite(
                    pixel as int,
                    scanline as int,
                    s as int,
                ),
            decreases self.sprites.len() - s,
        {
            let sp: (u8, u8, u8, u8) = self.sprites[s];
            let value: u8 = self.sprite_value(sp, scanline, pixel);
            if value != 0 {
                proof {
                    bits::lemma_bit8(sp.2);
                }
                return Some(((sp.2 % 4 + 4) as usize * 4 + value as usize, sp.2 & 0x20 != 0));
            }
            s = s + 1;
        }
        None
    }
}

/// A black picture.
fn blank_picture() -> (picture: Vec<u8>)
    ensures
        picture@ == Seq::new(184320, |i: int| 0u8),
{
    let mut picture: Vec<u8> = Vec::new();
    while picture.len() < 184320
        invariant
            picture.len() <= 184320,
            forall|i: int| 0 <= i < picture.len() ==> #[trigger] picture@[i] == 0,
        decreases 184320 - picture.len(),
    {
        picture.push(0);
    }
    assert(picture@ =~= Seq::new(184320, |i: int| 0u8));
    picture
}

/// The same replay, whatever buttons are held.
pub open spec fn same_but_buttons(a: GameModel, b: GameModel) -> bool {
    a == (GameModel { buttons: a.buttons, ..b })
}

/// Buttons do not influence a replay: after any number of frames everything but the
/// buttons is the same.
pub proof fn buttons_do_not_matter(a: GameModel, b: GameModel, n: nat)
    requires
        same_but_buttons(a, b),
    ensures
        same_but_buttons(a.updated_times(n), b.updated_times(n)),
    decreases n,
{
    if n > 0 {
        buttons_do_not_matter(a, b, (n - 1) as nat);
        let x = a.updated_times((n - 1) as nat);
        let y = b.updated_times((n - 1) as nat);
        assert(x == (GameModel { buttons: x.buttons, ..y }));
        lemma_same_picture(x, y);
        lemma_same_picture(x.delta_applied(), y.delta_applied());
    }
}

/// Equal states but for the buttons draw equal pictures.
proof fn lemma_same_picture(x: GameModel, y: GameModel)
    requires
        same_but_buttons(x, y),
    ensures
        same_but_buttons(x.drawn(), y.drawn()),
{
    assert forall|i: int, j: int, k: int| #[trigger]
        x.front_sprite(i, j, k) == y.front_sprite(i, j, k) by {
        lemma_same_front(x, y, i, j, k);
    }
    assert forall|i: int, j: int| #[trigger] x.color(i, j) == y.color(i, j) by {
        assert(x.front_sprite(i, j, 0) == y.front_sprite(i, j, 0));
    }
    assert(x.drawn().framebuffer =~= y.drawn().framebuffer);
}

proof fn lemma_same_front(x: GameModel, y: GameModel, i: int, j: int, k: int)
    requires
        same_but_buttons(x, y),
    ensures
        x.front_sprite(i, j, k) == y.front_sprite(i, j, k),
    decreases x.sprites.len() - k,
{
    if k < x.sprites.len() {
        lemma_same_front(x, y, i, j, k + 1);
    }
}

/// What a caller does with a replay.
pub ghost enum Call {
    Update,
    Render,
    SetButton { player: int, button: u8, pressed: bool },
}

impl GameModel {
    /// A button pressed or released. Controllers other than 0 and 1 and buttons past 7 are
    /// ignored.
    pub open spec fn button_set(self, player: int, button: u8, pressed: bool) -> GameModel {
        if 0 <= player < 2 && button < 8 {
            GameModel {
                buttons: self.buttons.update(
                    player,
                    bus::pad_set(self.buttons[player], button, pressed),
                ),
                ..self
            }
        } else {
            self
        }
    }

    /// After a call. Rendering is part of an update and does nothing by itself.
    pub open spec fn after_call(self, call: Call) -> GameModel {
        match call {
            Call::Update => self.updated(),
            Call::Render => self,
            Call::SetButton { player, button, pressed } => self.button_set(
                player,
                button,
                pressed,
            ),
        }
    }

    /// After several calls.
    pub open spec fn after_calls(self, calls: Seq<Call>) -> GameModel
        decreases calls.len(),
    {
        if calls.len() == 0 {
            self
        } else {
            self.after_calls(calls.drop_last()).after_call(calls.last())
        }
    }
}

/// How many of the calls are updates.
pub open spec fn updates(calls: Seq<Call>) -> nat
    decreases calls.len(),
{
    if calls.len() == 0 {
        0
    } else {
        updates(calls.drop_last()) + (if calls.last() is Update {
            1nat
        } else {
            0
        })
    }
}

/// Only updates matter: whatever buttons are set and however often `render` is called in
/// between, a replay is, but for the buttons, where its updates alone lead.
pub proof fn only_updates_matter(game: GameModel, calls: Seq<Call>)
    ensures
        same_but_buttons(game.after_calls(calls), game.updated_times(updates(calls))),
    decreases calls.len(),
{
    if calls.len() > 0 {
        only_updates_matter(game, calls.drop_last());
        let a = game.after_calls(calls.drop_last());
        let b = game.updated_times(updates(calls.drop_last()));
        if calls.last() is Update {
            buttons_do_not_matter(a, b, 1);
            assert(a.updated_times(0) == a && b.updated_times(0) == b);
            assert(a.updated_times(1) == a.updated());
            assert(b.updated_times(1) == b.updated());
        }
    }
}

/// Two replays of the same trace show the same picture and count the same frames after the
/// same number of updates, whatever other calls are made on each.
pub proof fn replays_agree(trace: Seq<u8>, calls: Seq<Call>, others: Seq<Call>)
    requires
        updates(calls) == updates(others),
    ensures
        ({
            let a = game_of(trace).after_calls(calls);
            let b = game_of(trace).after_calls(others);
            &&& same_but_buttons(a, b)
            &&& a.framebuffer == b.framebuffer
            &&& a.frame_index == b.frame_index
        }),
{
    only_updates_matter(game_of(trace), calls);
    only_updates_matter(game_of(trace), others);
}

/// The frame count of a replay is the number of updates, before and after the trace ends;
/// nothing else advances it.
pub proof fn frames_count_updates(trace: Seq<u8>, calls: Seq<Call>)
    ensures
        game_of(trace).after_calls(calls).frame_index == updates(calls),
    decreases calls.len(),
{
    if calls.len() > 0 {
        frames_count_updates(trace, calls.drop_last());
    }
}

/// Once the trace has run out, the last picture stays.
pub proof fn last_picture_stays(game: GameModel)
    requires
        !game.frames_left(),
    ensures
        game.updated().framebuffer == game.drawn().framebuffer,
        game.drawn().drawn() == game.drawn(),
{
    assert forall|i: int, j: int| #[trigger]
        game.drawn().color(i, j) == game.color(i, j) by {
        lemma_same_front_drawn(game, i, j, 0);
    }
    assert(game.drawn().drawn().framebuffer =~= game.drawn().framebuffer);
}

proof fn lemma_same_front_drawn(game: GameModel, i: int, j: int, k: int)
    ensures
        game.drawn().front_sprite(i, j, k) == game.front_sprite(i, j, k),
    decreases game.sprites.len() - k,
{
    if k < game.sprites.len() {
        lemma_same_front_drawn(game, i, j, k + 1);
    }
}

} // verus!
