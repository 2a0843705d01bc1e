use vstd::prelude::*;

verus! {

/// The target chips that a deployment can name.
#[derive(Debug, Clone, Copy, PartialEq, Eq, Structural)]
pub enum Chip {
    STM32L562QEIxQ,
    NRF5340,
}

/// The probe's name for a chip.
pub open spec fn chip_name_spec(c: Chip) -> Seq<char> {
    match c {
        Chip::STM32L562QEIxQ => "STM32L562QEIxQ"@,
        Chip::NRF5340 => "nRF5340_xxAA"@,
    }
}

impl Chip {
    /// The name under which the probe knows this chip.
    pub fn chip_name(&self) -> (r: &'static str)
        ensures
            r@ == chip_name_spec(*self),
    {
        match self {
            Chip::STM32L562QEIxQ => "STM32L562QEIxQ",
            Chip::NRF5340 => "nRF5340_xxAA",
        }
    }

    /// The chip that the probe knows under `name`.
    pub fn from_name(name: &str) -> (r: Result<Chip, ()>)
        ensures
            name@ == chip_name_spec(Chip::STM32L562QEIxQ) ==> r == Ok::<Chip, ()>(
                Chip::STM32L562QEIxQ,
            ),
            name@ == chip_name_spec(Chip::NRF5340) ==> r == Ok::<Chip, ()>(Chip::NRF5340),
            name@ != chip_name_spec(Chip::STM32L562QEIxQ) && name@ != chip_name_spec(Chip::NRF5340)
                ==> r is Err,
    {
        let given = String::from_str(name);
        let stm = String::from_str("STM32L562QEIxQ");
        let nrf = String::from_str("nRF5340_xxAA");
        proof {
            reveal_strlit("STM32L562QEIxQ");
            reveal_strlit("nRF5340_xxAA");
            assert(stm@[0] != nrf@[0]);
        }
        if given == stm {
            Ok(Chip::STM32L562QEIxQ)
        } else if given == nrf {
            Ok(Chip::NRF5340)
        } else {
            Err(())
        }
    }

    /// Whether TrustZone must be switched on in the chip's option bytes, and
    /// the chip wiped, before secure images can be flashed.
    pub fn needs_option_bytes(&self) -> (r: bool)
        ensures
            r == (*self == Chip::STM32L562QEIxQ),
    {
        match self {
            Chip::STM32L562QEIxQ => true,
            Chip::NRF5340 => false,
        }
    }
}

impl std::str::FromStr for Chip {
    type Err = ();

    fn from_str(s: &str) -> Result<Chip, ()> {
        Chip::from_name(s)
    }
}

} // verus!
