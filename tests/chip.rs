use ecg::chip::Chip;

#[test]
fn chip_names_round_trip() {
    assert_eq!(Chip::STM32L562QEIxQ.chip_name(), "STM32L562QEIxQ");
    assert_eq!(Chip::NRF5340.chip_name(), "nRF5340_xxAA");
    for c in [Chip::STM32L562QEIxQ, Chip::NRF5340] {
        assert_eq!(Chip::from_name(c.chip_name()), Ok(c));
    }
}

#[test]
fn unknown_chip_is_rejected() {
    assert_eq!(Chip::from_name("nrf5340"), Err(()));
    assert_eq!(Chip::from_name(""), Err(()));
    assert_eq!("nRF5340_xxAA".parse::<Chip>(), Ok(Chip::NRF5340));
}

#[test]
fn only_the_stm32_needs_option_bytes() {
    assert!(Chip::STM32L562QEIxQ.needs_option_bytes());
    assert!(!Chip::NRF5340.needs_option_bytes());
}
