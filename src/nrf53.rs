use vstd::prelude::*;

verus! {

/// A peripheral of the nRF5340, by the identifier the SPU knows it under.
pub struct NSPeripheral(u8);

/// The SPU identifier of the peripheral whose registers start at
/// `base_addr`: bits 12 to 19 of the address.
pub open spec fn perph_id_spec(base_addr: u32) -> u8 {
    ((base_addr as int / 4096) % 256) as u8
}

/// The SPU identifier of the peripheral whose registers start at `base_addr`.
pub fn get_perph_id(base_addr: u32) -> (r: u8)
    ensures
        r == perph_id_spec(base_addr),
{
    let r = (base_addr >> 12) as u8;
    assert(((base_addr >> 12u32) as u8) == (((base_addr / 4096u32) % 256u32) as u8)) by (bit_vector);
    r
}

impl NSPeripheral {
    pub closed spec fn id_spec(&self) -> u8 {
        self.0
    }

    /// The peripheral whose registers start at `base_addr`.
    pub fn from_base_address(base_addr: u32) -> (r: Self)
        ensures
            r.id_spec() == perph_id_spec(base_addr),
    {
        NSPeripheral(get_perph_id(base_addr))
    }

    /// The SPU identifier of this peripheral.
    pub fn id(&self) -> (r: u8)
        ensures
            r == self.id_spec(),
    {
        self.0
    }
}

/// The size of one flash region of the SPU.
pub const REGION_SIZE: u32 = 0x4000;

/// The size of one RAM region of the SPU.
pub const SRAM_REGION_SIZE: u32 = 0x2000;

/// The SPU regions, of `region_size` bytes each, that cover `region`: from
/// the one holding its start up to, not including, the one holding its end.
pub fn region_indices(region: &core::ops::Range<u32>, region_size: u32) -> (r: core::ops::Range<u32>)
    requires
        region_size > 0,
    ensures
        r.start == region.start / region_size,
        r.end == region.end / region_size,
{
    core::ops::Range { start: region.start / region_size, end: region.end / region_size }
}

/// The size of the non-secure-callable area that starts at `sg_start`: the
/// rest of its flash region.
pub open spec fn nsc_size_spec(sg_start: u32) -> u32 {
    (REGION_SIZE - sg_start % REGION_SIZE) as u32
}

/// The SPU's register values for a non-secure-callable area that starts at
/// `sg_start` and runs to the end of its flash region: the size field,
/// which is the position of the size's highest set bit less 4 (32 bytes is
/// 1), and the region field, the flash region's number in 6 bits. `None`
/// where the area is smaller than 16 bytes, which the size field cannot
/// express.
pub fn nsc_registers(sg_start: u32) -> (r: Option<(u32, u32)>)
    ensures
        r is None <==> nsc_size_spec(sg_start) < 16,
        r matches Some((size_reg, region_reg)) ==> {
            &&& size_reg + 4 < 32
            &&& nsc_size_spec(sg_start) >> ((size_reg + 4) as u32) == 1
            &&& region_reg == (sg_start / REGION_SIZE) % 64
        },
{
    let nsc_size = REGION_SIZE - (sg_start % REGION_SIZE);
    if nsc_size < 16 {
        return None;
    }
    let zeros = nsc_size.leading_zeros();
    proof {
        vstd::std_specs::bits::axiom_u32_leading_zeros(nsc_size);
    }
    assert(zeros < 28) by {
        if zeros >= 28 {
            let ghost above: u32 = (32 - zeros) as u32;
            assert(nsc_size >> above == 0u32);
            assert(above <= 4u32 && nsc_size >> above == 0u32 ==> nsc_size < 16u32) by (bit_vector);
        }
    }
    assert(zeros > 0) by {
        assert(nsc_size <= 0x4000u32 ==> (nsc_size >> 31u32) & 1u32 == 0u32) by (bit_vector);
    }
    let top = 31 - zeros;
    assert(nsc_size >> top == 1u32) by {
        let ghost above: u32 = (32 - zeros) as u32;
        assert((nsc_size >> top) & 1u32 != 0u32);
        assert(nsc_size >> above == 0u32);
        assert(top < 31u32 && above == top + 1u32 && (nsc_size >> top) & 1u32 != 0u32 && nsc_size
            >> above == 0u32 ==> nsc_size >> top == 1u32) by (bit_vector);
    }
    let size_reg = top - 4;
    let region_reg = (sg_start / REGION_SIZE) & 0x3F;
    assert(((sg_start / 0x4000u32) & 0x3Fu32) == (sg_start / 0x4000u32) % 64u32) by (bit_vector);
    Some((size_reg, region_reg))
}

/// A peripheral register block that can be handed to the non-secure side.
pub trait PerphExt {
    fn perph() -> NSPeripheral;
}

} // verus!
