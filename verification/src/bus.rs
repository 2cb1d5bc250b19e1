//! The system bus.
//!
//! | Addresses     |                                          |
//! |---------------|------------------------------------------|
//! | `$0000-$1FFF` | 2 KB of RAM, four times                  |
//! | `$2000-$3FFF` | picture registers, every eight bytes     |
//! | `$4000-$4017` | sound registers, transfer, controllers   |
//! | `$8000-$FFFF` | cartridge                                |

use vstd::prelude::*;
use crate::apu;
use crate::apu::{Apu, ApuModel};
use crate::bits;
use crate::cartridge::{CartModel, Cartridge};
use crate::memory;
use crate::memory::{Memory, SystemBus};
use crate::ppu;
use crate::ppu::{Ppu, PpuModel};

verus! {

pub struct Bus {
    pub ram: [u8; 2048],
    pub cart: Cartridge,
    pub ppu: Ppu,
    pub apu: Apu,
    /// Buttons held, one byte per controller.
    pub controller: [u8; 2],
    /// Buttons still to be read, next one in bit 0.
    pub controller_shift: [u8; 2],
    pub controller_strobe: bool,
    /// Page of a transfer to sprite memory.
    pub dma_page: u8,
    pub dma_pending: bool,
}

/// State of everything on the bus.
#[verifier::ext_equal]
pub ghost struct BusModel {
    pub ram: Seq<u8>,
    pub cart: CartModel,
    pub ppu: PpuModel,
    pub apu: ApuModel,
    pub controller: Seq<u8>,
    pub controller_shift: Seq<u8>,
    pub controller_strobe: bool,
    pub dma_page: u8,
    pub dma_pending: bool,
}

/// A controller's shift register after a read; ones follow the buttons.
pub open spec fn shifted_out(s: u8) -> u8 {
    (s / 2 + 128) as u8
}

/// The buttons held after `button` is pressed or released.
pub open spec fn pad_set(held: u8, button: u8, pressed: bool) -> u8 {
    let w = bits::weight(button as int);
    if pressed == bits::bit8(held, button as int) {
        held
    } else if pressed {
        (held + w) as u8
    } else {
        (held - w) as u8
    }
}

pub fn set_pad(held: u8, button: u8, pressed: bool) -> (now: u8)
    requires
        button < 8,
    ensures
        now == pad_set(held, button, pressed),
{
    let mask: u8 = 1u8 << button;
    proof {
        bits::lemma_bit8(held);
        assert(1u8 << 0u8 == 1 && 1u8 << 1u8 == 2 && 1u8 << 2u8 == 4 && 1u8 << 3u8 == 8 && 1u8 << 4u8
            == 16 && 1u8 << 5u8 == 32 && 1u8 << 6u8 == 64 && 1u8 << 7u8 == 128) by (bit_vector);
        assert(mask == bits::weight(button as int));
        assert((held & mask != 0) == bits::bit8(held, button as int));
        assert({
            &&& held & mask != 0 && (mask == 1 || mask == 2 || mask == 4 || mask == 8 || mask == 16
                || mask == 32 || mask == 64 || mask == 128) ==> held | mask == held && held & !mask
                == held - mask
            &&& held & mask == 0 ==> held | mask == held + mask && held & !mask == held
        }) by (bit_vector);
    }
    if pressed {
        held | mask
    } else {
        held & !mask
    }
}

impl BusModel {
    /// A read of controller `i` shifts its buttons on.
    pub open spec fn pad_read(self, i: int) -> BusModel {
        BusModel {
            controller_shift: self.controller_shift.update(i, shifted_out(self.controller_shift[i])),
            ..self
        }
    }

    /// While the strobe is on, the buttons held are copied for reading.
    pub open spec fn strobed(self, on: bool) -> BusModel {
        BusModel {
            controller_strobe: on,
            controller_shift: if on {
                self.controller
            } else {
                self.controller_shift
            },
            ..self
        }
    }

    pub open spec fn clocks(self) -> Seq<int> {
        seq![
            self.ppu.core.frame_count,
            self.ppu.core.scanline,
            self.ppu.core.dot,
            self.apu.cycle_count,
        ]
    }

    /// The transfer: 256 bytes of a page are read and copied into sprite memory.
    #[verifier::opaque]
    pub open spec fn transferred(self) -> BusModel {
        let base = self.dma_page * 256;
        let read = memory::after_loads(self, base, 256);
        BusModel {
            ppu: read.ppu.with_core(
                read.ppu.core.oam_filled(memory::loads(self, base, 256)),
            ),
            dma_pending: false,
            ..read
        }
    }
}

impl Memory for BusModel {
    open spec fn load(self, addr: u16) -> u8 {
        if addr < 0x2000 {
            self.ram[addr as int % 2048]
        } else if addr < 0x4000 {
            self.ppu.core.register_value(addr, self.cart)
        } else if addr == 0x4015 {
            self.apu.status()
        } else if addr == 0x4016 {
            self.controller_shift[0] % 2
        } else if addr == 0x4017 {
            self.controller_shift[1] % 2
        } else if addr >= 0x8000 {
            self.cart.prg_at(addr)
        } else {
            0
        }
    }

    open spec fn after_load(self, addr: u16) -> BusModel {
        if 0x2000 <= addr < 0x4000 {
            BusModel {
                ppu: self.ppu.with_core(self.ppu.core.register_read(addr, self.cart)),
                ..self
            }
        } else if addr == 0x4015 {
            BusModel { apu: self.apu.status_read(), ..self }
        } else if addr == 0x4016 {
            self.pad_read(0)
        } else if addr == 0x4017 {
            self.pad_read(1)
        } else {
            self
        }
    }

    open spec fn after_store(self, addr: u16, val: u8) -> BusModel {
        if addr < 0x2000 {
            BusModel { ram: self.ram.update(addr as int % 2048, val), ..self }
        } else if addr < 0x4000 {
            BusModel {
                ppu: self.ppu.with_core(self.ppu.core.register_written(addr, val, self.cart)),
                cart: self.ppu.core.cart_written(addr, val, self.cart),
                ..self
            }
        } else if addr == 0x4014 {
            BusModel { dma_page: val, dma_pending: true, ..self }
        } else if addr == 0x4016 {
            self.strobed(bits::bit8(val, 0))
        } else if addr <= 0x4017 {
            BusModel { apu: self.apu.written(addr, val), ..self }
        } else if addr >= 0x8000 {
            BusModel { cart: self.cart.selecting(val), ..self }
        } else {
            self
        }
    }
}

impl View for Bus {
    type V = BusModel;

    open spec fn view(&self) -> BusModel {
        BusModel {
            ram: self.ram@,
            cart: self.cart@,
            ppu: self.ppu@,
            apu: self.apu@,
            controller: self.controller@,
            controller_shift: self.controller_shift@,
            controller_strobe: self.controller_strobe,
            dma_page: self.dma_page,
            dma_pending: self.dma_pending,
        }
    }
}

/// Everything but the cartridge at power-on.
pub open spec fn bus_at_power_on(cart: CartModel) -> BusModel {
    BusModel {
        ram: Seq::new(2048, |i: int| 0u8),
        cart,
        ppu: ppu::ppu_at_power_on(),
        apu: apu::apu_at_power_on(),
        controller: Seq::new(2, |i: int| 0u8),
        controller_shift: Seq::new(2, |i: int| 0u8),
        controller_strobe: false,
        dma_page: 0,
        dma_pending: false,
    }
}

impl Bus {
    pub open spec fn wf(&self) -> bool {
        &&& self.cart.wf()
        &&& self.ppu.wf()
        &&& self.apu.wf()
    }

    pub fn new(cart: Cartridge) -> (bus: Bus)
        requires
            cart.wf(),
        ensures
            bus.wf(),
            bus@ == bus_at_power_on(cart@),
    {
        Bus {
            ram: [0;2048],
            cart,
            ppu: Ppu::new(),
            apu: Apu::new(),
            controller: [0;2],
            controller_shift: [0;2],
            controller_strobe: false,
            dma_page: 0,
            dma_pending: false,
        }
    }

    /// Reads a byte, with the side effects that the register has.
    pub fn read(&mut self, addr: u16) -> (val: u8)
        requires
            old(self).wf(),
        ensures
            final(self).wf(),
            val == old(self)@.load(addr),
            final(self)@ == old(self)@.after_load(addr),
    {
        if addr >= 0x8000 {
            self.cart.read_prg(addr)
        } else if addr < 0x2000 {
            self.ram[(addr % 2048) as usize]
        } else if addr < 0x4000 {
            self.ppu.read_register(addr, &self.cart)
        } else if addr == 0x4015 {
            self.apu.read_status()
        } else if addr == 0x4016 {
            self.read_pad(0)
        } else if addr == 0x4017 {
            self.read_pad(1)
        } else {
            0
        }
    }

    /// The next button of controller `i`.
    fn read_pad(&mut self, i: usize) -> (val: u8)
        requires
            old(self).wf(),
            i < 2,
        ensures
            final(self).wf(),
            val == old(self)@.controller_shift[i as int] % 2,
            final(self)@ == old(self)@.pad_read(i as int),
    {
        let s: u8 = self.controller_shift[i];
        self.controller_shift[i] = s / 2 + 128;
        s % 2
    }

    /// Writes a byte.
    pub fn write(&mut self, addr: u16, val: u8)
        requires
            old(self).wf(),
        ensures
            final(self).wf(),
            final(self)@ == old(self)@.after_store(addr, val),
    {
        if addr < 0x2000 {
            self.ram[(addr % 2048) as usize] = val;
        } else if addr < 0x4000 {
            self.ppu.write_register(addr, val, &mut self.cart);
        } else if addr == 0x4014 {
            self.dma_page = val;
            self.dma_pending = true;
        } else if addr == 0x4016 {
            proof {
                bits::lemma_bit8(val);
            }
            self.strobe(val & 1 != 0);
        } else if addr <= 0x4017 {
            self.apu.write_register(addr, val);
        } else if addr >= 0x8000 {
            self.cart.write_prg(addr, val);
        }
    }

    fn strobe(&mut self, on: bool)
        requires
            old(self).wf(),
        ensures
            final(self).wf(),
            final(self)@ == old(self)@.strobed(on),
    {
        self.controller_strobe = on;
        if on {
            self.controller_shift = self.controller;
        }
    }

    /// Carries out the pending transfer and returns the cycles it takes.
    pub fn do_dma(&mut self) -> (cycles: u32)
        requires
            old(self).wf(),
        ensures
            final(self).wf(),
            final(self)@ == old(self)@.transferred(),
            final(self)@.clocks() == old(self)@.clocks(),
            !final(self).dma_pending,
            cycles == 513,
    {
        proof {
            reveal(BusModel::transferred);
        }
        let base: u16 = self.dma_page as u16 * 256;
        let mut data: [u8; 256] = [0;256];
        let mut i: u16 = 0;
        while i < 256
            invariant
                i <= 256,
                self.wf(),
                base == old(self).dma_page * 256,
                self@ == memory::after_loads(old(self)@, base as int, i as nat),
                self@.clocks() == old(self)@.clocks(),
                forall|j: int|
                    0 <= j < i ==> data@[j] == #[trigger] memory::loads(
                        old(self)@,
                        base as int,
                        i as nat,
                    )[j],
            decreases 256 - i,
        {
            proof {
                memory::lemma_loads_len(old(self)@, base as int, i as nat);
            }
            data[i as usize] = self.read(base + i);
            i = i + 1;
        }
        proof {
            memory::lemma_loads_len(old(self)@, base as int, 256);
            assert(data@ =~= memory::loads(old(self)@, base as int, 256));
        }
        self.ppu.write_oam_dma(&data);
        self.dma_pending = false;
        513
    }
}

impl SystemBus for Bus {
    type M = BusModel;

    open spec fn mem(&self) -> BusModel {
        self@
    }

    open spec fn valid(&self) -> bool {
        self.wf()
    }

    /// Frame, scanline and dot of the picture, cycle of the sound.
    open spec fn clocks(&self) -> Seq<int> {
        self@.clocks()
    }

    fn load(&mut self, addr: u16) -> (val: u8) {
        self.read(addr)
    }

    fn store(&mut self, addr: u16, val: u8) {
        self.write(addr, val);
    }
}

} // verus!
