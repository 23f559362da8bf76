//! The adaptive text fitter: a single line of text is measured at a
//! starting scale, and while it overflows the pixel budget the scale drops
//! by half a point and a vertical compensation offset grows by a quarter
//! pixel, keeping the shrinking text visually anchored.  A hard floor of
//! half a point ends the loop; below it the layout is impossible.

use crate::error::RenderError;
use crate::metrics::{vis_units, FontMetrics, MAX_SCALE_HALF, MAX_TEXT_LEN};
use vstd::arithmetic::div_mod::{lemma_div_is_ordered, lemma_div_multiples_vanish};
use vstd::prelude::*;

verus! {

/// The outcome of fitting one line: the chosen scale (in half-points), the
/// downward compensation (in quarter pixels), and the measured visible
/// width (in pixels) at that scale.
#[derive(Clone, Copy, PartialEq, Eq, Structural, Debug)]
pub struct LineFit {
    pub scale_half: u32,
    pub y_off_quarters: u32,
    pub width: u32,
}

/// The scale and offset the shrink loop settles on for a text of visible
/// base width `vis` (milli-pixels per half-point), a starting scale of
/// `start` half-points and a budget of `max_units` milli-pixels: the first
/// scale from `start` downward at which the text fits, with one quarter
/// pixel of offset per step taken, or nothing if even half a point
/// overflows.
pub open spec fn spec_fit(vis: int, start: int, max_units: int) -> Option<(int, int)>
    decreases start
        when start >= 1
{
    if vis * start <= max_units {
        Some((start, 0))
    } else if start == 1 {
        None
    } else {
        match spec_fit(vis, start - 1, max_units) {
            Some((s, q)) => Some((s, q + 1)),
            None => None,
        }
    }
}

/// Law: the fitter never scales up, always lands within the budget, and
/// compensates exactly one quarter pixel per half point shed; when the
/// text cannot be reduced to fit (it overflows even at the minimum scale),
/// it signals failure instead of looping.
pub proof fn lemma_fit_within_budget(vis: int, start: int, max_units: int)
    requires
        start >= 1,
        vis >= 0,
    ensures
        match spec_fit(vis, start, max_units) {
            Some((s, q)) => 1 <= s <= start && vis * s <= max_units && q == start - s,
            None => vis * 1 > max_units,
        },
    decreases start,
{
    if !(vis * start <= max_units) && start > 1 {
        lemma_fit_within_budget(vis, start - 1, max_units);
    }
}

/// Law: the fitter is idempotent.  Refitting at the scale it chose fits at
/// once, so neither the scale nor the offset changes.
pub proof fn lemma_fit_idempotent(vis: int, start: int, max_units: int, s: int, q: int)
    requires
        start >= 1,
        vis >= 0,
        spec_fit(vis, start, max_units) == Some::<(int, int)>((s, q)),
    ensures
        spec_fit(vis, s, max_units) == Some::<(int, int)>((s, 0)),
{
    lemma_fit_within_budget(vis, start, max_units);
}

/// Shrinks the scale in half-point steps until the visible width of `text`
/// fits `line_width` pixels, compensating a quarter pixel of vertical
/// offset per step; fails with `LayoutImpossible` when even the minimum
/// scale of half a point overflows.
pub fn fit_line(m: &FontMetrics, text: &str, scale_half: u32, line_width: u32) -> (r: Result<
    LineFit,
    RenderError,
>)
    requires
        text@.len() <= MAX_TEXT_LEN,
        1 <= scale_half <= MAX_SCALE_HALF,
    ensures
        ({
            let vis = vis_units(m, text@);
            let max_units = (line_width as int) * 1000;
            match r {
                Ok(f) => {
                    &&& spec_fit(vis, scale_half as int, max_units) == Some(
                        (f.scale_half as int, f.y_off_quarters as int),
                    )
                    &&& f.width as int == (vis * f.scale_half) / 1000
                    &&& f.width <= line_width
                },
                Err(e) => {
                    &&& spec_fit(vis, scale_half as int, max_units) is None
                    &&& e == RenderError::LayoutImpossible
                },
            }
        }),
{
    let ghost max_ghost = (line_width as int) * 1000;
    let max_units: u64 = (line_width as u64) * 1000;
    let vis: u64 = measure_checked(m, text);
    let mut s: u32 = scale_half;
    loop
        invariant
            1 <= s <= scale_half <= MAX_SCALE_HALF,
            vis == vis_units(m, text@),
            vis <= (MAX_TEXT_LEN as int) * 0xFFFF,
            max_units == max_ghost,
            max_ghost == (line_width as int) * 1000,
            spec_fit(vis as int, scale_half as int, max_ghost) == (match spec_fit(
                vis as int,
                s as int,
                max_ghost,
            ) {
                Some((t, q)) => Some((t, q + (scale_half - s))),
                None => None::<(int, int)>,
            }),
        decreases s,
    {
        proof {
            assert(vis * s <= (MAX_TEXT_LEN as int) * 0xFFFF * MAX_SCALE_HALF) by (nonlinear_arith)
                requires
                    0 <= vis <= (MAX_TEXT_LEN as int) * 0xFFFF,
                    0 < s <= MAX_SCALE_HALF,
            ;
        }
        let scaled: u64 = vis * (s as u64);
        if scaled <= max_units {
            proof {
                lemma_div_is_ordered(scaled as int, max_ghost, 1000);
                lemma_div_multiples_vanish(line_width as int, 1000);
            }
            let width: u32 = (scaled / 1000) as u32;
            return Ok(LineFit { scale_half: s, y_off_quarters: scale_half - s, width });
        }
        if s == 1 {
            return Err(RenderError::LayoutImpossible);
        }
        s = s - 1;
    }
}

/// Measures `text`, bounding the result for the fitter's arithmetic.
fn measure_checked(m: &FontMetrics, text: &str) -> (u: u64)
    requires
        text@.len() <= MAX_TEXT_LEN,
    ensures
        u == vis_units(m, text@),
        u <= (MAX_TEXT_LEN as int) * 0xFFFF,
{
    proof {
        crate::metrics::lemma_vis_le_seg(m, text@);
        crate::metrics::lemma_seg_units_bounds(m, text@);
        vstd::arithmetic::mul::lemma_mul_inequality(
            text@.len() as int,
            MAX_TEXT_LEN as int,
            0xFFFF,
        );
    }
    crate::metrics::measure_base_units(m, text)
}

/// Measures the visible pixel width of `text` at a scale, as the drawing
/// step uses it to right-align and center text.
pub fn calc_line_width(m: &FontMetrics, text: &str, scale_half: u32) -> (w: u64)
    requires
        text@.len() <= MAX_TEXT_LEN,
        1 <= scale_half <= MAX_SCALE_HALF,
    ensures
        w as int == (vis_units(m, text@) * scale_half) / 1000,
{
    let vis: u64 = measure_checked(m, text);
    proof {
        assert(vis * scale_half <= (MAX_TEXT_LEN as int) * 0xFFFF * MAX_SCALE_HALF)
            by (nonlinear_arith)
            requires
                0 <= vis <= (MAX_TEXT_LEN as int) * 0xFFFF,
                0 < scale_half <= MAX_SCALE_HALF,
        ;
    }
    (vis * (scale_half as u64)) / 1000
}

} // verus!
