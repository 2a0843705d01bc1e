use ecg::nrf53::{
    get_perph_id, nsc_registers, region_indices, NSPeripheral, REGION_SIZE, SRAM_REGION_SIZE,
};
use ecg::stm32l562::{interrupt_bit, Peripheral};
use ecg::trustzone::{boot_settings, MemoryLayout, RegionParams, RegionSetting};

#[test]
fn all_peripherals_are_listed_once() {
    let all = Peripheral::all();
    assert_eq!(all.len(), 170);
    assert_eq!(all[0], Peripheral::ADC);
    assert_eq!(all[49], Peripheral::WWDG);
    assert_eq!(all[50], Peripheral::GPIOA(1));
    assert_eq!(all[168], Peripheral::DMA1);
    assert_eq!(all[169], Peripheral::DMA2);
    assert!(all.contains(&Peripheral::GPIOF(13)));
    assert!(!all.contains(&Peripheral::GPIOF(14)));
    assert!(!all.contains(&Peripheral::GPIOA(0)));
    assert!(all.contains(&Peripheral::GPIOH(15)));
}

#[test]
fn peripheral_id_is_taken_from_the_address() {
    assert_eq!(get_perph_id(0x5000_8000), 0x08);
    assert_eq!(get_perph_id(0x4002_9000), 0x29);
    assert_eq!(get_perph_id(0xFFFF_FFFF), 0xFF);
    assert_eq!(NSPeripheral::from_base_address(0x5084_2000).id(), 0x42);
}

#[test]
fn boot_sets_up_regions_in_order() {
    let layout = MemoryLayout {
        secure_flash_region: 0..0x40000,
        non_secure_flash_region: 0x40000..0x100000,
        secure_ram_region: 0x2000_0000..0x2001_0000,
        non_secure_ram_region: 0x2001_0000..0x2008_0000,
        nsc_flash_region: Some(0x3F000..0x40000),
    };
    let s = boot_settings(&layout);
    assert_eq!(s.len(), 5);
    let full = |secure| RegionParams { write: true, execute: true, read: true, lock: true, secure };
    match &s[0] {
        RegionSetting::Flash(r, p) => {
            assert_eq!(*r, 0..0x40000);
            assert_eq!(*p, full(true));
        }
        other => panic!("unexpected {:?}", other),
    }
    match &s[2] {
        RegionSetting::Memory(r, p) => {
            assert_eq!(*r, 0x2001_0000..0x2008_0000);
            assert_eq!(*p, full(false));
        }
        other => panic!("unexpected {:?}", other),
    }
    assert!(matches!(&s[4], RegionSetting::NonSecureCallable(r) if *r == (0x3F000..0x40000)));
    let without = MemoryLayout { nsc_flash_region: None, ..layout };
    assert_eq!(boot_settings(&without).len(), 4);
}

#[test]
fn nsc_registers_give_size_and_region() {
    // 0x1000 bytes to the end of region 3: the highest bit is 12, so 8.
    assert_eq!(nsc_registers(0xF000), Some((8, 3)));
    // A whole region: 0x4000 bytes, highest bit 14.
    assert_eq!(nsc_registers(0x10000), Some((10, 4)));
    // 32 bytes left: the smallest size, 1.
    assert_eq!(nsc_registers(0x3FFE0), Some((1, 15)));
    // The region field keeps 6 bits.
    assert_eq!(nsc_registers(0x4000 * 65), Some((10, 1)));
    // Fewer than 16 bytes cannot be expressed.
    assert_eq!(nsc_registers(0x3FFF8), None);
}

#[test]
fn region_indices_cover_the_range() {
    assert_eq!(region_indices(&(0x40000..0x100000), REGION_SIZE), 16..64);
    assert_eq!(region_indices(&(0x10000..0x80000), SRAM_REGION_SIZE), 8..64);
}

#[test]
fn interrupt_bits_split_by_word() {
    assert_eq!(interrupt_bit(0), (0, 1));
    assert_eq!(interrupt_bit(31), (0, 0x8000_0000));
    assert_eq!(interrupt_bit(42), (1, 1 << 10));
}
