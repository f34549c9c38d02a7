use vstd::prelude::*;

verus! {

/// The inclusive range of pixel coordinates, along one axis of a grid
/// `extent` pixels long, that a bounding box from `lo` to `hi` (already
/// rounded outwards to whole pixels) covers: `lo` raised to `0` and `hi`
/// lowered to `extent - 1`. The range is empty when its start exceeds its
/// end.
pub fn pixel_span(lo: i32, hi: i32, extent: i32) -> (span: (i32, i32))
    requires
        extent > i32::MIN,
    ensures
        span.0 == (if lo < 0 { 0 } else { lo }),
        span.1 == (if hi > extent - 1 { extent - 1 } else { hi as int }),
{
    let start = if lo < 0 { 0 } else { lo };
    let last = extent - 1;
    let end = if hi > last { last } else { hi };
    (start, end)
}

/// Every pixel of a span lies in the grid and in the bounding box.
pub proof fn lemma_span_inside_grid(lo: i32, hi: i32, extent: i32, v: int)
    requires
        extent > i32::MIN,
        (if lo < 0 { 0 } else { lo }) <= v <= (if hi > extent - 1 { extent - 1 } else { hi as int }),
    ensures
        0 <= v < extent,
        lo <= v <= hi,
{
}

} // verus!
