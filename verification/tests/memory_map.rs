// Cartridges, the memory map and the controllers.

use contra_nes::bus::{set_pad, Bus};
use contra_nes::cartridge::{Cartridge, InesError, Mirroring};
use contra_nes::contra::bus::Bus as BatchedBus;

/// An image with `banks` program banks, each filled with its number.
fn image(banks: u8, chr: u8, flags6: u8) -> Vec<u8> {
    let mut data = vec![b'N', b'E', b'S', 0x1A, banks, chr, flags6, 0x40];
    data.resize(16, 0);
    if flags6 & 4 != 0 {
        data.resize(528, 0xEE);
    }
    for b in 0..banks {
        data.extend(vec![b; 16384]);
    }
    for i in 0..chr as usize * 8192 {
        data.push((i % 251) as u8);
    }
    data
}

fn defect(data: &[u8]) -> Option<InesError> {
    Cartridge::check_ines(data).err()
}

#[test]
fn defective_images_are_refused() {
    assert!(defect(&[]) == Some(InesError::TooSmall));
    assert!(defect(&image(1, 0, 0)[..15]) == Some(InesError::TooSmall));
    let mut bad = image(1, 0, 0);
    bad[3] = 0;
    assert!(defect(&bad) == Some(InesError::NotInes));
    assert!(defect(&image(0, 0, 0)) == Some(InesError::NoProgram));
    let short = image(2, 0, 0);
    assert!(defect(&short[..short.len() - 1]) == Some(InesError::Truncated));
    let short = image(1, 1, 0);
    assert!(defect(&short[..short.len() - 1]) == Some(InesError::Truncated));
    assert!(defect(&image(1, 0, 4)[..16400]) == Some(InesError::Truncated));
    assert!(defect(&image(2, 1, 5)).is_none());
}

#[test]
fn images_load() {
    let cart = Cartridge::from_ines(&image(3, 1, 0x21));
    assert_eq!(cart.prg_banks, 3);
    assert!(cart.mirroring == Mirroring::Vertical);
    assert_eq!(Cartridge::mapper_number(&image(3, 1, 0x21)), 0x42);
    assert_eq!((cart.read_chr(0), cart.read_chr(250), cart.read_chr(251)), (0, 250, 0));
    assert_eq!((cart.read_prg(0x8000), cart.read_prg(0xC000)), (0, 2));
    // A trainer precedes the program.
    let trained = Cartridge::from_ines(&image(1, 0, 4));
    assert_eq!(trained.read_prg(0x8000), 0);
    assert!(trained.mirroring == Mirroring::Horizontal);
    assert_eq!(trained.read_chr(0x1FFF), 0);
}

#[test]
fn stores_select_the_bank() {
    let mut cart = Cartridge::from_ines(&image(4, 0, 0));
    for val in 0..=255u8 {
        cart.write_prg(0x8000, val);
        assert_eq!(cart.bank_select, val as usize % 4);
        assert_eq!(cart.read_prg(0xBFFF), val % 4);
        assert_eq!(cart.read_prg(0xFFFF), 3);
    }
    cart.write_prg(0xFFFF, 3);
    assert_eq!(cart.read_prg(0x8123), cart.read_prg(0xC123));
}

#[test]
fn character_memory_gives_back() {
    let mut cart = Cartridge::from_embedded(&vec![0; 16384], 1);
    cart.write_chr(0x2005, 9);
    assert_eq!((cart.read_chr(0x0005), cart.read_chr(0x2005), cart.read_chr(0x0006)), (9, 9, 0));
}

#[test]
fn nametables_are_mirrored() {
    let vertical = Cartridge::from_ines(&image(1, 0, 1));
    let horizontal = Cartridge::from_ines(&image(1, 0, 0));
    let slots = |cart: &Cartridge| {
        [0x2000u16, 0x2400, 0x2800, 0x2C00].map(|a| cart.mirror_nt(a + 0x123))
    };
    assert_eq!(slots(&vertical), [0x123, 0x523, 0x123, 0x523]);
    assert_eq!(slots(&horizontal), [0x123, 0x123, 0x523, 0x523]);
}

#[test]
fn ram_appears_four_times() {
    let mut bus = Box::new(Bus::new(Cartridge::from_ines(&image(2, 0, 1))));
    bus.write(0x0FFF, 0x5A);
    for base in [0x0000u16, 0x0800, 0x1000, 0x1800] {
        assert_eq!(bus.read(base + 0x07FF), 0x5A);
        assert_eq!(bus.read(base + 0x07FE), 0);
    }
    assert_eq!(bus.read(0x5000), 0);
    bus.write(0xC000, 1);
    assert_eq!((bus.read(0x8000), bus.read(0xC000)), (1, 1));
    bus.write(0x6000, 0);
    assert_eq!(bus.read(0x8000), 1);
}

#[test]
fn buttons_come_out_in_order() {
    let mut bus = Box::new(Bus::new(Cartridge::from_ines(&image(1, 0, 1))));
    bus.controller = [0b1010_0110, 0b0000_0001];
    bus.write(0x4016, 1);
    bus.write(0x4016, 0);
    let first: Vec<u8> = (0..10).map(|_| bus.read(0x4016)).collect();
    assert_eq!(first, [0, 1, 1, 0, 0, 1, 0, 1, 1, 1]);
    let second: Vec<u8> = (0..9).map(|_| bus.read(0x4017)).collect();
    assert_eq!(second, [1, 0, 0, 0, 0, 0, 0, 0, 1]);
}

#[test]
fn batched_buttons_come_out_in_order() {
    let mut bus = Box::new(BatchedBus::new(Cartridge::from_ines(&image(1, 0, 1))));
    bus.controller = [0b1010_0111, 0];
    bus.write(0x4016, 1);
    // While the strobe is on the first button shows.
    assert_eq!([bus.read(0x4016), bus.read(0x4016), bus.read(0x4016)], [1, 1, 1]);
    bus.write(0x4016, 0);
    let buttons: Vec<u8> = (0..8).map(|_| bus.read(0x4016)).collect();
    assert_eq!(buttons, [1, 1, 1, 0, 0, 1, 0, 1]);
}

#[test]
fn buttons_are_pressed_and_released() {
    assert_eq!(set_pad(0, 7, true), 0x80);
    assert_eq!(set_pad(0xFF, 0, false), 0xFE);
    assert_eq!(set_pad(0x81, 3, true), 0x89);
    assert_eq!(set_pad(0x89, 3, true), 0x89);
}

#[test]
fn transfers_copy_a_page() {
    let mut bus = Box::new(Bus::new(Cartridge::from_ines(&image(1, 0, 1))));
    for i in 0..256u16 {
        bus.write(0x0300 + i, (i * 3 % 256) as u8);
    }
    bus.write(0x2003, 0x10);
    bus.write(0x4014, 0x03);
    assert!(bus.dma_pending);
    assert_eq!(bus.do_dma(), 513);
    assert!(!bus.dma_pending);
    assert_eq!(bus.ppu.core.oam[0x10], 0);
    assert_eq!(bus.ppu.core.oam[0x11], 3);
    assert_eq!(bus.ppu.core.oam[0x0F], (255 * 3 % 256) as u8);

    let mut batched = Box::new(BatchedBus::new(Cartridge::from_ines(&image(1, 0, 1))));
    batched.write(0x0305, 0x77);
    batched.write(0x4014, 0x03);
    assert_eq!(batched.do_dma(), 513);
    assert_eq!(batched.ppu.core.oam[5], 0x77);
}
