//! The layout engine's centering arithmetic: composite runs of glyphs
//! and icons are centered inside a container by pinning the run's
//! left edge at half the free space, rounding half pixels down.

use vstd::prelude::*;

verus! {

/// The horizontal start offset that centers a run of `total` pixels
/// inside a container of `container` pixels. For even differences the
/// centering is exact; an odd difference rounds down by one pixel.
/// When the run is wider than the container the offset is negative and
/// the overhang is later clipped by the surface bounds.
pub open spec fn center_offset_spec(container: int, total: int) -> int {
    if container >= total {
        (container - total) / 2
    } else {
        -((total - container) / 2)
    }
}

/// Computes the centering offset of a run inside a container.
pub fn center_offset(container: i64, total: i64) -> (r: i64)
    requires
        -0x2000_0000_0000_0000 <= container <= 0x2000_0000_0000_0000,
        -0x2000_0000_0000_0000 <= total <= 0x2000_0000_0000_0000,
    ensures
        r == center_offset_spec(container as int, total as int),
{
    if container >= total {
        (container - total) / 2
    } else {
        -((total - container) / 2)
    }
}

} // verus!
