//! Pure glyph measurement.  A `FontMetrics` table holds one advance width
//! per character, in milli-pixels per half-point of scale, so the pixel
//! extent of a string at a scale is a deterministic integer sum.  The
//! measurement distinguishes visible extent from layout position: trailing
//! whitespace advances the cursor but adds no ink.

use vstd::prelude::*;

verus! {

/// Most characters a single measured text may have.  Keeps every width sum
/// inside `u64`.
pub const MAX_TEXT_LEN: usize = 0x10000000;

/// Largest accepted scale, in half-points.
pub const MAX_SCALE_HALF: u32 = 1000;

/// Per-character advance widths of one font, in milli-pixels per half-point
/// of scale.  Characters beyond the table fall back to a default advance.
pub struct FontMetrics {
    advances: Vec<u16>,
    default_advance: u16,
}

impl FontMetrics {
    /// The advance width of `c`, in milli-pixels per half-point.
    pub closed spec fn spec_advance(&self, c: char) -> u16 {
        if (c as int) < self.advances@.len() {
            self.advances@[c as int]
        } else {
            self.default_advance
        }
    }

    pub fn new(advances: Vec<u16>, default_advance: u16) -> (m: FontMetrics)
        ensures
            forall|c: char|
                #[trigger] m.spec_advance(c) == if (c as int) < advances@.len() {
                    advances@[c as int]
                } else {
                    default_advance
                },
    {
        FontMetrics { advances, default_advance }
    }

    /// Reads the advance width of `c`.
    pub fn advance(&self, c: char) -> (a: u16)
        ensures
            a == self.spec_advance(c),
    {
        let code = c as u32;
        if (code as usize) < self.advances.len() {
            self.advances[code as usize]
        } else {
            self.default_advance
        }
    }
}

/// The layout width of `s`: the sum of all its advances, in milli-pixels
/// per half-point.  This is where the cursor ends up after laying `s` out.
pub open spec fn seg_units(m: &FontMetrics, s: Seq<char>) -> int
    decreases s.len(),
{
    if s.len() == 0 {
        0
    } else {
        seg_units(m, s.drop_last()) + m.spec_advance(s.last())
    }
}

/// The visible width of `s`: the right edge of its last ink glyph.
/// Trailing spaces move the cursor but leave no ink, so they do not count.
pub open spec fn vis_units(m: &FontMetrics, s: Seq<char>) -> int
    decreases s.len(),
{
    if s.len() == 0 {
        0
    } else if s.last() == ' ' {
        vis_units(m, s.drop_last())
    } else {
        seg_units(m, s)
    }
}

/// A layout width is nonnegative and at most the character count times the
/// largest possible advance.
pub proof fn lemma_seg_units_bounds(m: &FontMetrics, s: Seq<char>)
    ensures
        0 <= seg_units(m, s) <= s.len() * 0xFFFF,
    decreases s.len(),
{
    if s.len() > 0 {
        lemma_seg_units_bounds(m, s.drop_last());
    }
}

/// The visible width never exceeds the layout width.
pub proof fn lemma_vis_le_seg(m: &FontMetrics, s: Seq<char>)
    ensures
        0 <= vis_units(m, s) <= seg_units(m, s),
    decreases s.len(),
{
    if s.len() > 0 {
        lemma_vis_le_seg(m, s.drop_last());
        lemma_seg_units_bounds(m, s.drop_last());
    }
}

/// Extending a prefix by one character adds that character's advance to the
/// layout width.
pub proof fn lemma_seg_units_take_step(m: &FontMetrics, s: Seq<char>, i: int)
    requires
        0 <= i < s.len(),
    ensures
        seg_units(m, s.take(i + 1)) == seg_units(m, s.take(i)) + m.spec_advance(s[i]),
{
    assert(s.take(i + 1).drop_last() =~= s.take(i));
    assert(s.take(i + 1).last() == s[i]);
}

/// Whether the glyph at index `i` of `s` still fits when the line budget is
/// `max_units` (already scaled): an ink glyph must keep its right edge
/// within the budget, a space only its layout position.
pub open spec fn glyph_fits(
    m: &FontMetrics,
    s: Seq<char>,
    scale_half: int,
    max_units: int,
    i: int,
) -> bool {
    if s[i] == ' ' {
        seg_units(m, s.take(i)) * scale_half <= max_units
    } else {
        seg_units(m, s.take(i + 1)) * scale_half <= max_units
    }
}

/// How many glyphs fit, counted from index `i`: the length of the longest
/// run of fitting glyphs starting there.
pub open spec fn fits_from(
    m: &FontMetrics,
    s: Seq<char>,
    scale_half: int,
    max_units: int,
    i: int,
) -> nat
    decreases s.len() - i
        when 0 <= i <= s.len()
{
    if i >= s.len() {
        0
    } else if glyph_fits(m, s, scale_half, max_units, i) {
        1 + fits_from(m, s, scale_half, max_units, i + 1)
    } else {
        0
    }
}

/// How many leading glyphs of `s` fit within `max_units`.
pub open spec fn spec_fits_count(
    m: &FontMetrics,
    s: Seq<char>,
    scale_half: int,
    max_units: int,
) -> nat {
    fits_from(m, s, scale_half, max_units, 0)
}

/// `fits_from` never counts past the end of the text.
pub proof fn lemma_fits_from_le(m: &FontMetrics, s: Seq<char>, scale_half: int, max_units: int, i: int)
    requires
        0 <= i <= s.len(),
    ensures
        i + fits_from(m, s, scale_half, max_units, i) <= s.len(),
    decreases s.len() - i,
{
    if i < s.len() && glyph_fits(m, s, scale_half, max_units, i) {
        lemma_fits_from_le(m, s, scale_half, max_units, i + 1);
    }
}

/// Layout width grows monotonically with the prefix length.
pub proof fn lemma_seg_units_take_monotone(m: &FontMetrics, s: Seq<char>, i: int, j: int)
    requires
        0 <= i <= j <= s.len(),
    ensures
        seg_units(m, s.take(i)) <= seg_units(m, s.take(j)),
    decreases j - i,
{
    if i < j {
        lemma_seg_units_take_monotone(m, s, i, j - 1);
        lemma_seg_units_take_step(m, s, j - 1);
    }
}

/// A prefix of fitting glyphs bounded by one non-fitting glyph (or the end
/// of the text) is exactly what `fits_from` counts.
proof fn lemma_fits_count_characterization(
    m: &FontMetrics,
    s: Seq<char>,
    scale_half: int,
    max_units: int,
    n: int,
    i: int,
)
    requires
        0 <= i <= n <= s.len(),
        forall|j: int| 0 <= j < n ==> glyph_fits(m, s, scale_half, max_units, j),
        n == s.len() || !glyph_fits(m, s, scale_half, max_units, n),
    ensures
        fits_from(m, s, scale_half, max_units, i) == n - i,
    decreases n - i,
{
    if i < n {
        lemma_fits_count_characterization(m, s, scale_half, max_units, n, i + 1);
    }
}

/// What the fit count means: every counted glyph fits, and the first glyph
/// past the count (if any) does not.
pub proof fn lemma_fits_from_props(
    m: &FontMetrics,
    s: Seq<char>,
    scale_half: int,
    max_units: int,
    i: int,
)
    requires
        0 <= i <= s.len(),
    ensures
        ({
            let f = fits_from(m, s, scale_half, max_units, i) as int;
            &&& i + f <= s.len()
            &&& forall|j: int| i <= j < i + f ==> glyph_fits(m, s, scale_half, max_units, j)
            &&& i + f < s.len() ==> !glyph_fits(m, s, scale_half, max_units, i + f)
        }),
    decreases s.len() - i,
{
    if i < s.len() && glyph_fits(m, s, scale_half, max_units, i) {
        lemma_fits_from_props(m, s, scale_half, max_units, i + 1);
    }
}

/// Counts how many leading glyphs of `text` fit when each advance is scaled
/// by `scale_half` and the budget is `max_units` milli-pixels.
pub fn fits_count(m: &FontMetrics, text: &str, scale_half: u32, max_units: u64) -> (n: usize)
    requires
        text@.len() <= MAX_TEXT_LEN,
        1 <= scale_half <= MAX_SCALE_HALF,
    ensures
        n == spec_fits_count(m, text@, scale_half as int, max_units as int),
        n <= text@.len(),
        forall|j: int| 0 <= j < n ==> glyph_fits(m, text@, scale_half as int, max_units as int, j),
        n == text@.len() || !glyph_fits(m, text@, scale_half as int, max_units as int, n as int),
    {
    let len = text.unicode_len();
    let mut i: usize = 0;
    let mut acc: u64 = 0;
    proof {
        assert(text@.take(0) =~= Seq::<char>::empty());
    }
    while i < len
        invariant
            len == text@.len(),
            len <= MAX_TEXT_LEN,
            1 <= scale_half <= MAX_SCALE_HALF,
            i <= len,
            acc == seg_units(m, text@.take(i as int)),
            acc <= i * 0xFFFF,
            forall|j: int|
                0 <= j < i ==> glyph_fits(m, text@, scale_half as int, max_units as int, j),
        decreases len - i,
    {
        let c = text.get_char(i);
        let a = m.advance(c);
        proof {
            lemma_seg_units_take_step(m, text@, i as int);
            assert((i + 1) * 0xFFFF == i * 0xFFFF + 0xFFFF) by (nonlinear_arith);
            assert(acc * scale_half <= (MAX_TEXT_LEN as int) * 0xFFFF * MAX_SCALE_HALF && (acc + a)
                * scale_half <= ((MAX_TEXT_LEN as int) * 0xFFFF + 0xFFFF) * MAX_SCALE_HALF) by (nonlinear_arith)
                requires
                    0 <= acc <= (MAX_TEXT_LEN as int) * 0xFFFF,
                    0 <= a <= 0xFFFF,
                    1 <= scale_half <= MAX_SCALE_HALF,
            ;
        }
        let next: u64 = acc + (a as u64);
        let fit: bool = if c == ' ' {
            acc * (scale_half as u64) <= max_units
        } else {
            next * (scale_half as u64) <= max_units
        };
        if fit {
            acc = next;
            i = i + 1;
        } else {
            proof {
                lemma_fits_count_characterization(
                    m,
                    text@,
                    scale_half as int,
                    max_units as int,
                    i as int,
                    0,
                );
            }
            return i;
        }
    }
    proof {
        lemma_fits_count_characterization(
            m,
            text@,
            scale_half as int,
            max_units as int,
            len as int,
            0,
        );
    }
    i
}

/// Measures the visible pixel extent of `text` in milli-pixels per
/// half-point: multiply by a scale in half-points for a scaled width.
pub fn measure_base_units(m: &FontMetrics, text: &str) -> (u: u64)
    requires
        text@.len() <= MAX_TEXT_LEN,
    ensures
        u == vis_units(m, text@),
{
    let len = text.unicode_len();
    let mut i: usize = 0;
    let mut acc: u64 = 0;
    let mut vis: u64 = 0;
    proof {
        assert(text@.take(0) =~= Seq::<char>::empty());
    }
    while i < len
        invariant
            len == text@.len(),
            len <= MAX_TEXT_LEN,
            i <= len,
            acc == seg_units(m, text@.take(i as int)),
            vis == vis_units(m, text@.take(i as int)),
            acc <= i * 0xFFFF,
        decreases len - i,
    {
        let c = text.get_char(i);
        let a = m.advance(c);
        proof {
            lemma_seg_units_take_step(m, text@, i as int);
            assert((i + 1) * 0xFFFF == i * 0xFFFF + 0xFFFF) by (nonlinear_arith);
            assert(text@.take(i + 1).drop_last() =~= text@.take(i as int));
            assert(text@.take(i + 1).last() == text@[i as int]);
        }
        acc = acc + (a as u64);
        if c != ' ' {
            vis = acc;
        }
        i = i + 1;
    }
    proof {
        assert(text@.take(len as int) =~= text@);
    }
    vis
}

} // verus!
