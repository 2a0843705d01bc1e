use vstd::prelude::*;

verus! {

/// The peripherals of the STM32L562 that can be handed to the non-secure
/// firmware. A `GPIO` variant names one pin of its port.
#[derive(Debug, Clone, Copy, PartialEq, Eq, Structural)]
pub enum Peripheral {
    ADC,
    AES,
    CRC,
    DFSDM,
    FSMCReg,
    Hash,
    Icache,
    OctoSPI1,
    PKA,
    RNG,
    SAI1,
    SAI2,
    SDMMC1,
    Comp,
    Crs,
    Dac,
    FdCan,
    I2C1,
    I2C2,
    I2C3,
    I2C4,
    IWDG,
    LPTIM1,
    LPTIM2,
    LPUart,
    OPAMP,
    SPI1,
    SPI2,
    SPI3,
    Tim1,
    Tim2,
    Tim3,
    Tim4,
    Tim5,
    Tim6,
    Tim7,
    Tim8,
    Tim15,
    Tim16,
    Tim17,
    TSC,
    Uart4,
    Uart5,
    Ucpd1,
    Usart1,
    Usart2,
    Usart3,
    USBFS,
    VrefBuf,
    WWDG,
    GPIOA(usize),
    GPIOB(usize),
    GPIOC(usize),
    GPIOD(usize),
    GPIOE(usize),
    GPIOF(usize),
    GPIOG(usize),
    GPIOH(usize),
    DMA1,
    DMA2,
}

/// The security controller of the STM32L562.
pub struct GTZC;

/// The peripherals without pins, in declaration order.
pub open spec fn simple_peripherals() -> Seq<Peripheral> {
    seq![
        Peripheral::ADC,
        Peripheral::AES,
        Peripheral::CRC,
        Peripheral::DFSDM,
        Peripheral::FSMCReg,
        Peripheral::Hash,
        Peripheral::Icache,
        Peripheral::OctoSPI1,
        Peripheral::PKA,
        Peripheral::RNG,
        Peripheral::SAI1,
        Peripheral::SAI2,
        Peripheral::SDMMC1,
        Peripheral::Comp,
        Peripheral::Crs,
        Peripheral::Dac,
        Peripheral::FdCan,
        Peripheral::I2C1,
        Peripheral::I2C2,
        Peripheral::I2C3,
        Peripheral::I2C4,
        Peripheral::IWDG,
        Peripheral::LPTIM1,
        Peripheral::LPTIM2,
        Peripheral::LPUart,
        Peripheral::OPAMP,
        Peripheral::SPI1,
        Peripheral::SPI2,
        Peripheral::SPI3,
        Peripheral::Tim1,
        Peripheral::Tim2,
        Peripheral::Tim3,
        Peripheral::Tim4,
        Peripheral::Tim5,
        Peripheral::Tim6,
        Peripheral::Tim7,
        Peripheral::Tim8,
        Peripheral::Tim15,
        Peripheral::Tim16,
        Peripheral::Tim17,
        Peripheral::TSC,
        Peripheral::Uart4,
        Peripheral::Uart5,
        Peripheral::Ucpd1,
        Peripheral::Usart1,
        Peripheral::Usart2,
        Peripheral::Usart3,
        Peripheral::USBFS,
        Peripheral::VrefBuf,
        Peripheral::WWDG,
    ]
}

/// The pin `pin` of GPIO port `port` (0 for port A, up to 7 for port H).
pub open spec fn gpio_pin(port: u8, pin: usize) -> Peripheral {
    match port {
        0 => Peripheral::GPIOA(pin),
        1 => Peripheral::GPIOB(pin),
        2 => Peripheral::GPIOC(pin),
        3 => Peripheral::GPIOD(pin),
        4 => Peripheral::GPIOE(pin),
        5 => Peripheral::GPIOF(pin),
        6 => Peripheral::GPIOG(pin),
        _ => Peripheral::GPIOH(pin),
    }
}

/// Pins `1..=count` of a port, in order.
pub open spec fn port_pins(port: u8, count: nat) -> Seq<Peripheral> {
    Seq::new(count, |i: int| gpio_pin(port, (i + 1) as usize))
}

/// Every peripheral that can be passed to the non-secure side: those
/// without pins, then the pins of ports A to H (port F has pins 1 to 13,
/// the others 1 to 15), then the two DMA controllers.
pub open spec fn all_peripherals() -> Seq<Peripheral> {
    simple_peripherals() + port_pins(0, 15) + port_pins(1, 15) + port_pins(2, 15) + port_pins(
        3,
        15,
    ) + port_pins(4, 15) + port_pins(5, 13) + port_pins(6, 15) + port_pins(7, 15) + seq![
        Peripheral::DMA1,
        Peripheral::DMA2,
    ]
}

fn gpio(port: u8, pin: usize) -> (r: Peripheral)
    ensures
        r == gpio_pin(port, pin),
{
    match port {
            0 => Peripheral::GPIOA(pin),
            1 => Peripheral::GPIOB(pin),
            2 => Peripheral::GPIOC(pin),
            3 => Peripheral::GPIOD(pin),
            4 => Peripheral::GPIOE(pin),
            5 => Peripheral::GPIOF(pin),
            6 => Peripheral::GPIOG(pin),
            _ => Peripheral::GPIOH(pin),
    }
}

fn push_port_pins(v: &mut Vec<Peripheral>, port: u8, count: usize)
    requires
        count < 16,
    ensures
        final(v)@ == old(v)@ + port_pins(port, count as nat),
{
    let ghost start = v@;
    let mut pin: usize = 1;
    while pin <= count
        invariant
            1 <= pin <= count + 1,
            count < 16,
            v@ == start + port_pins(port, (pin - 1) as nat),
        decreases count + 1 - pin,
    {
        v.push(gpio(port, pin));
        assert(port_pins(port, pin as nat) =~= port_pins(port, (pin - 1) as nat).push(
            gpio_pin(port, pin),
        ));
        pin += 1;
    }
}

impl Peripheral {
    /// Every peripheral that can be passed to the non-secure side.
    pub fn all() -> (r: Vec<Peripheral>)
        ensures
            r@ == all_peripherals(),
    {
        let mut v = vec![
            Peripheral::ADC,
            Peripheral::AES,
            Peripheral::CRC,
            Peripheral::DFSDM,
            Peripheral::FSMCReg,
            Peripheral::Hash,
            Peripheral::Icache,
            Peripheral::OctoSPI1,
            Peripheral::PKA,
            Peripheral::RNG,
            Peripheral::SAI1,
            Peripheral::SAI2,
            Peripheral::SDMMC1,
            Peripheral::Comp,
            Peripheral::Crs,
            Peripheral::Dac,
            Peripheral::FdCan,
            Peripheral::I2C1,
            Peripheral::I2C2,
            Peripheral::I2C3,
            Peripheral::I2C4,
            Peripheral::IWDG,
            Peripheral::LPTIM1,
            Peripheral::LPTIM2,
            Peripheral::LPUart,
            Peripheral::OPAMP,
            Peripheral::SPI1,
            Peripheral::SPI2,
            Peripheral::SPI3,
            Peripheral::Tim1,
            Peripheral::Tim2,
            Peripheral::Tim3,
            Peripheral::Tim4,
            Peripheral::Tim5,
            Peripheral::Tim6,
            Peripheral::Tim7,
            Peripheral::Tim8,
            Peripheral::Tim15,
            Peripheral::Tim16,
            Peripheral::Tim17,
            Peripheral::TSC,
            Peripheral::Uart4,
            Peripheral::Uart5,
            Peripheral::Ucpd1,
            Peripheral::Usart1,
            Peripheral::Usart2,
            Peripheral::Usart3,
            Peripheral::USBFS,
            Peripheral::VrefBuf,
            Peripheral::WWDG,
        ];
        assert(v@ =~= simple_peripherals());
        push_port_pins(&mut v, 0, 15);
        push_port_pins(&mut v, 1, 15);
        push_port_pins(&mut v, 2, 15);
        push_port_pins(&mut v, 3, 15);
        push_port_pins(&mut v, 4, 15);
        push_port_pins(&mut v, 5, 13);
        push_port_pins(&mut v, 6, 15);
        push_port_pins(&mut v, 7, 15);
        v.push(Peripheral::DMA1);
        v.push(Peripheral::DMA2);
        assert(v@ =~= all_peripherals());
        v
    }
}

} // verus!

verus! {

/// The NVIC register word and the bit in it that stand for interrupt `id`.
pub fn interrupt_bit(id: usize) -> (r: (usize, u32))
    ensures
        r.0 == id / 32,
        r.1 == 1u32 << ((id % 32) as u32),
{
    let bit = (id % 32) as u32;
    (id / 32, 1u32 << bit)
}

} // verus!
