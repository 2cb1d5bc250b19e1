//! iNES ROM images and the UxROM board (mapper 2).
//!
//! An image is a 16-byte header, an optional 512-byte trainer, 16 KB program banks
//! and 8 KB of character data. The board maps one selectable bank at $8000 and the
//! last bank, fixed, at $C000. Character memory is 8 KB of RAM.

use vstd::prelude::*;
use vstd::slice::{slice_subrange, slice_to_vec};
use crate::bits;

verus! {

pub const PRG_BANK_SIZE: usize = 16384;

pub const CHR_RAM_SIZE: usize = 8192;

/// How the four nametables share 2 KB of video RAM.
#[derive(Clone, Copy, PartialEq, Eq, Structural)]
pub enum Mirroring {
    Horizontal,
    Vertical,
}

/// Why a byte sequence is not a usable iNES image.
#[derive(Clone, Copy, PartialEq, Eq, Structural)]
pub enum InesError {
    /// Shorter than the header.
    TooSmall,
    /// The magic number is missing.
    NotInes,
    /// There is no program bank.
    NoProgram,
    /// The program or character data that the header announces is cut short.
    Truncated,
}

pub struct Cartridge {
    pub prg: Vec<u8>,
    pub chr_ram: [u8; CHR_RAM_SIZE],
    pub mirroring: Mirroring,
    pub prg_banks: usize,
    pub bank_select: usize,
    /// Byte offset of the selected bank.
    pub prg_switch_offset: usize,
    /// Byte offset of the last bank.
    pub prg_fixed_offset: usize,
}

/// A cartridge as the console sees it.
#[verifier::ext_equal]
pub ghost struct CartModel {
    pub prg: Seq<u8>,
    pub chr: Seq<u8>,
    pub mirroring: Mirroring,
    pub banks: int,
    pub bank: int,
}

impl CartModel {
    /// Some program banks, all backed by data, one of them selected.
    pub open spec fn wf(self) -> bool {
        &&& self.banks > 0
        &&& self.prg.len() >= self.banks * 16384
        &&& 0 <= self.bank < self.banks
        &&& self.chr.len() == 8192
    }

    /// The program byte at a processor address: the selected bank below $C000, the
    /// last bank above.
    pub open spec fn prg_at(self, addr: u16) -> u8 {
        if addr < 0xC000 {
            self.prg[self.bank * 16384 + (addr - 0x8000)]
        } else {
            self.prg[(self.banks - 1) * 16384 + (addr - 0xC000)]
        }
    }

    /// Any write to program space selects a bank.
    pub open spec fn selecting(self, val: u8) -> CartModel {
        CartModel { bank: val as int % self.banks, ..self }
    }

    /// The character byte at a video address.
    pub open spec fn chr_at(self, addr: int) -> u8 {
        self.chr[addr % 8192]
    }

    pub open spec fn storing(self, addr: u16, val: u8) -> CartModel {
        CartModel { chr: self.chr.update(addr as int % 8192, val), ..self }
    }
}

/// Where a nametable address at or above $2000 lies in video RAM: vertical mirroring
/// repeats tables 0 and 1 below themselves, horizontal mirroring repeats each table
/// to its right.
pub open spec fn nametable_slot(mirroring: Mirroring, addr: u16) -> int {
    let table = (addr - 0x2000) / 1024 % 4;
    let offset = (addr - 0x2000) % 1024;
    match mirroring {
        Mirroring::Vertical => table % 2 * 1024 + offset,
        Mirroring::Horizontal => table / 2 * 1024 + offset,
    }
}

/// Where program data begins: after the header and the trainer, if there is one.
pub open spec fn prg_start(data: Seq<u8>) -> int {
    if bits::bit8(data[6], 2) {
        528
    } else {
        16
    }
}

/// Where character data begins.
pub open spec fn chr_start(data: Seq<u8>) -> int {
    prg_start(data) + data[4] * 16384
}

/// The magic number: "NES" and an MS-DOS end-of-file.
pub open spec fn has_magic(data: Seq<u8>) -> bool {
    data[0] == 0x4E && data[1] == 0x45 && data[2] == 0x53 && data[3] == 0x1A
}

/// The first of the defects that keep an image from being loaded.
pub open spec fn ines_defect(data: Seq<u8>) -> Option<InesError> {
    if data.len() < 16 {
        Some(InesError::TooSmall)
    } else if !has_magic(data) {
        Some(InesError::NotInes)
    } else if data[4] == 0 {
        Some(InesError::NoProgram)
    } else if data.len() < chr_start(data) + (if data[5] > 0 {
        8192int
    } else {
        0
    }) {
        Some(InesError::Truncated)
    } else {
        None
    }
}

/// The cartridge that an image describes.
pub open spec fn ines_cart(data: Seq<u8>) -> CartModel {
    CartModel {
        prg: data.subrange(prg_start(data), chr_start(data)),
        chr: if data[5] > 0 {
            data.subrange(chr_start(data), chr_start(data) + 8192)
        } else {
            Seq::new(8192, |i: int| 0u8)
        },
        mirroring: if bits::bit8(data[6], 0) {
            Mirroring::Vertical
        } else {
            Mirroring::Horizontal
        },
        banks: data[4] as int,
        bank: 0,
    }
}

proof fn lemma_mirror(a: usize)
    requires
        a <= 0xDFFF,
    ensures
        ({
            let table = (a >> 10) & 3;
            let offset = a & 0x3FF;
            &&& table == a / 1024 % 4
            &&& offset == a % 1024
            &&& ((table & 1) << 10) | offset == table % 2 * 1024 + offset
            &&& ((table >> 1) << 10) | offset == table / 2 * 1024 + offset
        }),
{
    assert({
        let table = (a >> 10) & 3;
        let offset = a & 0x3FF;
        &&& table == a / 1024 % 4
        &&& offset == a % 1024
        &&& ((table & 1) << 10) | offset == table % 2 * 1024 + offset
        &&& ((table >> 1) << 10) | offset == table / 2 * 1024 + offset
    }) by (bit_vector)
        requires
            a <= 0xDFFF,
    ;
}

proof fn lemma_chr_mask(a: u16)
    ensures
        a & 0x1FFF == a % 8192,
{
    assert(a & 0x1FFF == a % 8192) by (bit_vector);
}

impl View for Cartridge {
    type V = CartModel;

    open spec fn view(&self) -> CartModel {
        CartModel {
            prg: self.prg@,
            chr: self.chr_ram@,
            mirroring: self.mirroring,
            banks: self.prg_banks as int,
            bank: self.bank_select as int,
        }
    }
}

impl Cartridge {
    /// The model is well formed and the cached offsets belong to it.
    pub open spec fn wf(&self) -> bool {
        &&& self@.wf()
        &&& self.prg_switch_offset == self.bank_select * 16384
        &&& self.prg_fixed_offset == (self.prg_banks - 1) * 16384
    }

    /// Program data without a header: character RAM, vertical mirroring.
    pub fn from_embedded(prg_data: &[u8], prg_banks: usize) -> (cart: Cartridge)
        requires
            prg_banks > 0,
            prg_data@.len() >= prg_banks * 16384,
        ensures
            cart.wf(),
            cart@ == (CartModel {
                prg: prg_data@,
                chr: Seq::new(8192, |i: int| 0u8),
                mirroring: Mirroring::Vertical,
                banks: prg_banks as int,
                bank: 0,
            }),
    {
        assert(prg_data.len() >= prg_banks * 16384);
        let cart: Cartridge = Cartridge {
            prg: slice_to_vec(prg_data),
            chr_ram: [0;8192],
            mirroring: Mirroring::Vertical,
            prg_banks,
            bank_select: 0,
            prg_switch_offset: 0,
            prg_fixed_offset: (prg_banks - 1) * PRG_BANK_SIZE,
        };
        cart
    }

    /// Whether `from_ines` can load an image, and if not, why.
    pub fn check_ines(data: &[u8]) -> (r: Result<(), InesError>)
        ensures
            match r {
                Ok(_) => ines_defect(data@) is None,
                Err(e) => ines_defect(data@) == Some(e),
            },
    {
        if data.len() < 16 {
            return Err(InesError::TooSmall);
        }
        if !(data[0] == 0x4E && data[1] == 0x45 && data[2] == 0x53 && data[3] == 0x1A) {
            return Err(InesError::NotInes);
        }
        if data[4] == 0 {
            return Err(InesError::NoProgram);
        }
        proof {
            bits::lemma_bit8(data[6]);
        }
        let start: usize = if data[6] & 4 != 0 {
            528
        } else {
            16
        };
        let chr: usize = if data[5] > 0 {
            8192
        } else {
            0
        };
        if data.len() < start + data[4] as usize * PRG_BANK_SIZE + chr {
            return Err(InesError::Truncated);
        }
        Ok(())
    }

    /// The mapper number of an image: the high halves of two header bytes.
    pub fn mapper_number(data: &[u8]) -> (mapper: u8)
        requires
            data@.len() >= 8,
        ensures
            mapper == data@[7] / 16 * 16 + data@[6] / 16,
    {
        data[7] / 16 * 16 + data[6] / 16
    }

    /// Loads an iNES image.
    pub fn from_ines(data: &[u8]) -> (cart: Cartridge)
        requires
            ines_defect(data@) is None,
        ensures
            cart.wf(),
            cart@ == ines_cart(data@),
    {
        let prg_banks: usize = data[4] as usize;
        let flags6: u8 = data[6];
        proof {
            bits::lemma_bit8(flags6);
        }
        let mirroring: Mirroring = if flags6 & 1 == 1 {
            Mirroring::Vertical
        } else {
            Mirroring::Horizontal
        };
        let start: usize = if flags6 & 4 != 0 {
            528
        } else {
            16
        };
        let size: usize = prg_banks * PRG_BANK_SIZE;
        let prg: Vec<u8> = slice_to_vec(slice_subrange(data, start, start + size));
        let mut chr_ram: [u8; 8192] = [0;8192];
        if data[5] > 0 {
            let mut i: usize = 0;
            while i < 8192
                invariant
                    i <= 8192,
                    start == prg_start(data@),
                    start + size == chr_start(data@),
                    data@.len() >= start + size + 8192,
                    forall|j: int| 0 <= j < i ==> chr_ram@[j] == data@[start + size + j],
                decreases 8192 - i,
            {
                chr_ram[i] = data[start + size + i];
                i = i + 1;
            }
        }
        let cart: Cartridge = Cartridge {
            prg,
            chr_ram,
            mirroring,
            prg_banks,
            bank_select: 0,
            prg_switch_offset: 0,
            prg_fixed_offset: (prg_banks - 1) * PRG_BANK_SIZE,
        };
        assert(cart@.chr == ines_cart(data@).chr);
        cart
    }

    /// A processor read from program space.
    pub fn read_prg(&self, addr: u16) -> (val: u8)
        requires
            self.wf(),
            addr >= 0x8000,
        ensures
            val == self@.prg_at(addr),
    {
        let a: usize = addr as usize;
        proof {
            let banks = self.prg_banks as int;
            let bank = self.bank_select as int;
            assert(bank * 16384 + 16384 <= banks * 16384) by (nonlinear_arith)
                requires
                    bank < banks,
            ;
        }
        if a < 0xC000 {
            self.prg[self.prg_switch_offset + (a - 0x8000)]
        } else {
            self.prg[self.prg_fixed_offset + (a - 0xC000)]
        }
    }

    /// A processor write to program space selects the bank at $8000.
    pub fn write_prg(&mut self, _addr: u16, val: u8)
        requires
            old(self).wf(),
        ensures
            final(self).wf(),
            final(self)@ == old(self)@.selecting(val),
    {
        self.bank_select = (val as usize) % self.prg_banks;
        self.prg_switch_offset = self.bank_select * PRG_BANK_SIZE;
    }

    /// A video read from character RAM.
    pub fn read_chr(&self, addr: u16) -> (val: u8)
        ensures
            val == self@.chr_at(addr as int),
    {
        proof {
            lemma_chr_mask(addr);
        }
        self.chr_ram[(addr & 0x1FFF) as usize]
    }

    /// A video write to character RAM.
    pub fn write_chr(&mut self, addr: u16, val: u8)
        ensures
            old(self).wf() ==> final(self).wf(),
            final(self)@ == old(self)@.storing(addr, val),
    {
        proof {
            lemma_chr_mask(addr);
        }
        self.chr_ram[(addr & 0x1FFF) as usize] = val;
    }

    /// Maps a nametable address to its place in 2 KB of video RAM.
    pub fn mirror_nt(&self, addr: u16) -> (slot: usize)
        requires
            addr >= 0x2000,
        ensures
            slot == nametable_slot(self@.mirroring, addr),
            slot < 2048,
    {
        let a: usize = (addr - 0x2000) as usize;
        proof {
            lemma_mirror(a);
        }
        let table: usize = (a >> 10) & 3;
        let offset: usize = a & 0x3FF;
        match self.mirroring {
            Mirroring::Vertical => ((table & 1) << 10) | offset,
            Mirroring::Horizontal => ((table >> 1) << 10) | offset,
        }
    }
}

/// The bank at $C000 never moves.
pub proof fn fixed_bank_stays(cart: CartModel, val: u8, addr: u16)
    requires
        addr >= 0xC000,
    ensures
        cart.selecting(val).prg_at(addr) == cart.prg_at(addr),
{
}

/// Selecting a bank that exists puts its bytes at $8000, and selecting again forgets
/// the earlier choice.
pub proof fn selected_bank_shows(cart: CartModel, first: u8, val: u8, addr: u16)
    requires
        cart.wf(),
        val < cart.banks,
        0x8000 <= addr < 0xC000,
    ensures
        cart.selecting(val).wf(),
        cart.selecting(val).prg_at(addr) == cart.prg[val * 16384 + (addr - 0x8000)],
        cart.selecting(first).selecting(val) == cart.selecting(val),
{
    vstd::arithmetic::div_mod::lemma_small_mod(val as nat, cart.banks as nat);
}

/// Selecting the last bank makes both halves of program space show the same bytes.
pub proof fn last_bank_appears_twice(cart: CartModel, val: u8, addr: u16)
    requires
        cart.wf(),
        val == cart.banks - 1,
        0x8000 <= addr < 0xC000,
    ensures
        cart.selecting(val).prg_at(addr) == cart.prg_at((addr + 0x4000) as u16),
{
    vstd::arithmetic::div_mod::lemma_small_mod(val as nat, cart.banks as nat);
}

/// Character RAM gives back what was stored, at every mirror of the address, and
/// keeps everything else.
pub proof fn chr_gives_back(cart: CartModel, addr: u16, val: u8, other: u16)
    requires
        cart.wf(),
    ensures
        cart.storing(addr, val).wf(),
        cart.storing(addr, val).chr_at(other as int) == if other as int % 8192 == addr as int % 8192 {
            val
        } else {
            cart.chr_at(other as int)
        },
{
}

/// Vertical mirroring: tables 0 and 2 share memory, as do 1 and 3, and tables 0 and 1
/// are apart. Horizontal mirroring: 0 and 1, 2 and 3, and tables 0 and 2 are apart.
pub proof fn mirrored_tables(offset: u16, other: u16)
    requires
        offset < 1024,
        other < 1024,
    ensures
        nametable_slot(Mirroring::Vertical, (0x2000 + offset) as u16) == nametable_slot(
            Mirroring::Vertical,
            (0x2800 + offset) as u16,
        ),
        nametable_slot(Mirroring::Vertical, (0x2400 + offset) as u16) == nametable_slot(
            Mirroring::Vertical,
            (0x2C00 + offset) as u16,
        ),
        nametable_slot(Mirroring::Vertical, (0x2000 + offset) as u16) != nametable_slot(
            Mirroring::Vertical,
            (0x2400 + other) as u16,
        ),
        nametable_slot(Mirroring::Horizontal, (0x2000 + offset) as u16) == nametable_slot(
            Mirroring::Horizontal,
            (0x2400 + offset) as u16,
        ),
        nametable_slot(Mirroring::Horizontal, (0x2800 + offset) as u16) == nametable_slot(
            Mirroring::Horizontal,
            (0x2C00 + offset) as u16,
        ),
        nametable_slot(Mirroring::Horizontal, (0x2000 + offset) as u16) != nametable_slot(
            Mirroring::Horizontal,
            (0x2800 + other) as u16,
        ),
{
}

} // verus!
