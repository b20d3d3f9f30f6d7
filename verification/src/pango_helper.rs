//! The size of a text, as the text layout library measures it.

use vstd::prelude::*;

verus! {

/// A measured length in whole pixels, towards zero, where a pixel has so many units.
pub open spec fn whole_pixels(length: int, units: int) -> int {
    if length >= 0 {
        length / units
    } else {
        -((-length) / units)
    }
}

/// The width, the height and the baseline of a text in pixels, where it was measured as
/// `pixel_size` and `baseline`, the latter in units of which a pixel has `units`.
pub fn get_text_size(pixel_size: (i32, i32), baseline: i32, units: i32) -> (r: (i32, i32, i32))
    requires
        units > 0,
    ensures
        r.0 == pixel_size.0,
        r.1 == pixel_size.1,
        r.2 == whole_pixels(baseline as int, units as int),
        baseline >= 0 ==> 0 <= r.2 && r.2 * units <= baseline < (r.2 + 1) * units,
        baseline < 0 ==> r.2 <= 0 && (r.2 - 1) * units < baseline <= r.2 * units,
{
    proof {
        pixels_are_whole(baseline as int, units as int);
    }
    let (width, height): (i32, i32) = pixel_size;
    (width, height, baseline / units)
}

/// As many whole pixels are counted as the length has, and not one more, on either side of zero.
pub proof fn pixels_are_whole(length: int, units: int)
    requires
        units > 0,
    ensures
        ({
            let pixels = whole_pixels(length, units);
            &&& length >= 0 ==> 0 <= pixels && pixels * units <= length < (pixels + 1) * units
            &&& length < 0 ==> pixels <= 0 && (pixels - 1) * units < length <= pixels * units
            &&& whole_pixels(-length, units) == -pixels
        }),
{
    let n = if length >= 0 {
        length
    } else {
        -length
    };
    let q = n / units;
    assert(0 <= q && q * units <= n < (q + 1) * units) by (nonlinear_arith)
        requires
            n >= 0,
            units > 0,
            q == n / units,
    ;
    assert((-q) * units == -(q * units) && (-q - 1) * units == -((q + 1) * units))
        by (nonlinear_arith);
    assert(0int / units == 0) by (nonlinear_arith)
        requires
            units > 0,
    ;
}

} // verus!
