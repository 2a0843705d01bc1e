use core::ops::Range;
use vstd::prelude::*;

verus! {

/// The implementation-defined attribution unit of a TrustZone-M processor:
/// the part that decides which memory and which peripherals are secure. A
/// chip implements it so that the non-secure partition can be set up.
pub trait IDAU {
    type Peripheral;

    fn set_flash_region_params(&self, region: Range<u32>, params: RegionParams);

    fn set_memory_region_params(&self, region: Range<u32>, params: RegionParams);

    fn set_nsc_region(&self, region: Range<u32>);

    fn pass_peripheral_non_secure(&self, perph: &Self::Peripheral);

    fn prepare_boot(&self);
}

/// The permissions of a flash or RAM region.
#[derive(Debug, Clone, Copy, PartialEq, Eq, Structural)]
pub struct RegionParams {
    pub write: bool,
    pub execute: bool,
    pub read: bool,
    pub lock: bool,
    pub secure: bool,
}

/// The bounds of the secure and non-secure regions, which must not overlap.
pub struct MemoryLayout {
    pub secure_flash_region: Range<u32>,
    pub non_secure_flash_region: Range<u32>,
    pub secure_ram_region: Range<u32>,
    pub non_secure_ram_region: Range<u32>,
    pub nsc_flash_region: Option<Range<u32>>,
}

/// One region setting that booting applies.
#[derive(Debug)]
pub enum RegionSetting {
    Flash(Range<u32>, RegionParams),
    Memory(Range<u32>, RegionParams),
    NonSecureCallable(Range<u32>),
}

/// Full access, locked, secure or not.
pub open spec fn full_access(secure: bool) -> RegionParams {
    RegionParams { write: true, execute: true, read: true, lock: true, secure }
}

pub open spec fn same_range(a: Range<u32>, b: Range<u32>) -> bool {
    a.start == b.start && a.end == b.end
}

/// The region settings that booting applies, in order: the secure, then the
/// non-secure flash; the non-secure, then the secure RAM, all with full
/// access and locked; then the non-secure-callable flash, where there is one.
pub open spec fn boot_settings_ok(layout: MemoryLayout, r: Seq<RegionSetting>) -> bool {
    &&& r.len() == if layout.nsc_flash_region is Some { 5int } else { 4int }
    &&& r[0] matches RegionSetting::Flash(a, p) && same_range(a, layout.secure_flash_region) && p
        == full_access(true)
    &&& r[1] matches RegionSetting::Flash(a, p) && same_range(a, layout.non_secure_flash_region)
        && p == full_access(false)
    &&& r[2] matches RegionSetting::Memory(a, p) && same_range(a, layout.non_secure_ram_region)
        && p == full_access(false)
    &&& r[3] matches RegionSetting::Memory(a, p) && same_range(a, layout.secure_ram_region) && p
        == full_access(true)
    &&& layout.nsc_flash_region matches Some(n) ==> r[4] matches RegionSetting::NonSecureCallable(
        a,
    ) && same_range(a, n)
}

fn copy_range(r: &Range<u32>) -> (c: Range<u32>)
    ensures
        same_range(c, *r),
{
    Range { start: r.start, end: r.end }
}

fn full(secure: bool) -> (p: RegionParams)
    ensures
        p == full_access(secure),
{
    RegionParams { write: true, execute: true, read: true, lock: true, secure }
}

/// The region settings to apply before handing control to the non-secure
/// firmware.
pub fn boot_settings(layout: &MemoryLayout) -> (r: Vec<RegionSetting>)
    ensures
        boot_settings_ok(*layout, r@),
{
    let mut r: Vec<RegionSetting> = Vec::new();
    r.push(RegionSetting::Flash(copy_range(&layout.secure_flash_region), full(true)));
    r.push(RegionSetting::Flash(copy_range(&layout.non_secure_flash_region), full(false)));
    r.push(RegionSetting::Memory(copy_range(&layout.non_secure_ram_region), full(false)));
    r.push(RegionSetting::Memory(copy_range(&layout.secure_ram_region), full(true)));
    if let Some(n) = &layout.nsc_flash_region {
        r.push(RegionSetting::NonSecureCallable(copy_range(n)));
    }
    r
}

} // verus!
