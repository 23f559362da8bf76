//! Greedy word-wrap.  The wrapper measures how many leading glyphs of the
//! remaining text fit the line budget, backs off to the nearest preceding
//! space, and emits the slice before it as a line; the breaking space is
//! consumed.  When no space precedes the boundary it falls back to a hard
//! break at the boundary (never less than one character), so the loop
//! always terminates and never indexes out of bounds.

use crate::metrics::{
    glyph_fits, spec_fits_count, fits_count, seg_units, vis_units, FontMetrics,
    lemma_fits_from_le, lemma_fits_from_props, lemma_seg_units_take_monotone, MAX_SCALE_HALF,
    MAX_TEXT_LEN,
};
use vstd::arithmetic::mul::lemma_mul_inequality;
use vstd::prelude::*;

verus! {

/// The index of the last space at or before index `n` of `s`, or -1 when
/// no space occurs there.
pub open spec fn last_space_at_or_before(s: Seq<char>, n: int) -> int
    decreases n + 1
        when n >= -1
{
    if n < 0 {
        -1
    } else if s[n] == ' ' {
        n
    } else {
        last_space_at_or_before(s, n - 1)
    }
}

/// What `last_space_at_or_before` returns: a space position at or before
/// `n` with no space after it up to `n`, or -1 when `s[0..=n]` is space-free.
pub proof fn lemma_last_space_props(s: Seq<char>, n: int)
    requires
        -1 <= n < s.len(),
    ensures
        ({
            let b = last_space_at_or_before(s, n);
            &&& -1 <= b <= n
            &&& b >= 0 ==> s[b] == ' '
            &&& forall|k: int| b < k <= n ==> s[k] != ' '
        }),
    decreases n + 1,
{
    if n >= 0 && s[n] != ' ' {
        lemma_last_space_props(s, n - 1);
    }
}

/// The lines that greedy wrapping cuts `s` into, top to bottom, for a
/// scaled line budget of `max_units`.
pub open spec fn spec_wrap(m: &FontMetrics, s: Seq<char>, scale_half: int, max_units: int) -> Seq<
    Seq<char>,
>
    decreases s.len()
        via spec_wrap_decreases
{
    if s.len() == 0 {
        Seq::empty()
    } else {
        let n = spec_fits_count(m, s, scale_half, max_units) as int;
        if n == s.len() {
            seq![s]
        } else {
            let b = last_space_at_or_before(s, n);
            if b >= 0 {
                seq![s.take(b)] + spec_wrap(m, s.skip(b + 1), scale_half, max_units)
            } else {
                let k = if n == 0 {
                    1int
                } else {
                    n
                };
                seq![s.take(k)] + spec_wrap(m, s.skip(k), scale_half, max_units)
            }
        }
    }
}

#[via_fn]
proof fn spec_wrap_decreases(m: &FontMetrics, s: Seq<char>, scale_half: int, max_units: int) {
    if s.len() != 0 {
        let n = spec_fits_count(m, s, scale_half, max_units) as int;
        lemma_fits_from_le(m, s, scale_half, max_units, 0);
        if n != s.len() {
            lemma_last_space_props(s, n);
        }
    }
}

/// Wrapping never produces more lines than characters: every line
/// consumes at least one character of the text.
pub proof fn lemma_wrap_len_le(m: &FontMetrics, s: Seq<char>, scale_half: int, max_units: int)
    ensures
        spec_wrap(m, s, scale_half, max_units).len() <= s.len(),
    decreases s.len(),
{
    if s.len() != 0 {
        let n = spec_fits_count(m, s, scale_half, max_units) as int;
        lemma_fits_from_le(m, s, scale_half, max_units, 0);
        if n != s.len() {
            let b = last_space_at_or_before(s, n);
            lemma_last_space_props(s, n);
            if b >= 0 {
                lemma_wrap_len_le(m, s.skip(b + 1), scale_half, max_units);
            } else {
                let k = if n == 0 {
                    1int
                } else {
                    n
                };
                lemma_wrap_len_le(m, s.skip(k), scale_half, max_units);
            }
        }
    }
}

/// Finds the last space at or before index `n` of `text`.
fn find_break(text: &str, n: usize) -> (b: Option<usize>)
    requires
        n < text@.len(),
    ensures
        match b {
            Some(i) => i as int == last_space_at_or_before(text@, n as int) && i <= n
                && text@[i as int] == ' ',
            None => last_space_at_or_before(text@, n as int) == -1,
        },
{
    let mut j: usize = n;
    loop
        invariant
            j <= n < text@.len(),
            forall|k: int| j < k <= n ==> text@[k] != ' ',
        decreases j,
    {
        proof {
            lemma_last_space_props(text@, n as int);
        }
        if text.get_char(j) == ' ' {
            return Some(j);
        }
        if j == 0 {
            return None;
        }
        j = j - 1;
    }
}

/// Wraps `text` greedily into lines whose visible width fits `line_width`
/// pixels at the given scale.  Lines come out in text order; each break
/// consumes the breaking space.
pub fn split_into_lines<'a>(
    m: &FontMetrics,
    text: &'a str,
    line_width: u32,
    scale_half: u32,
) -> (lines: Vec<&'a str>)
    requires
        text@.len() <= MAX_TEXT_LEN,
        1 <= scale_half <= MAX_SCALE_HALF,
    ensures
        lines@.map_values(|l: &'a str| l@) == spec_wrap(
            m,
            text@,
            scale_half as int,
            (line_width as int) * 1000,
        ),
        text@.len() > 0 ==> lines@.len() >= 1,
{
    proof {
        if text@.len() > 0 {
            lemma_wrap_nonempty(m, text@, scale_half as int, (line_width as int) * 1000);
        }
    }
    let max_units: u64 = (line_width as u64) * 1000;
    let len = text.unicode_len();
    let mut lines: Vec<&'a str> = Vec::new();
    let mut start: usize = 0;
    proof {
        assert(text@.skip(0) =~= text@);
        assert(lines@.map_values(|l: &'a str| l@) =~= Seq::<Seq<char>>::empty());
        assert(Seq::<Seq<char>>::empty() + spec_wrap(
            m,
            text@,
            scale_half as int,
            max_units as int,
        ) =~= spec_wrap(m, text@, scale_half as int, max_units as int));
    }
    while start < len
        invariant
            text@.len() == len <= MAX_TEXT_LEN,
            1 <= scale_half <= MAX_SCALE_HALF,
            max_units == (line_width as int) * 1000,
            start <= len,
            lines@.map_values(|l: &'a str| l@) + spec_wrap(
                m,
                text@.skip(start as int),
                scale_half as int,
                max_units as int,
            ) == spec_wrap(m, text@, scale_half as int, max_units as int),
        decreases len - start,
    {
        let ghost lines0 = lines@.map_values(|l: &'a str| l@);
        let rest = text.substring_char(start, len);
        proof {
            assert(rest@ =~= text@.skip(start as int));
        }
        let rest_len = len - start;
        let n = fits_count(m, rest, scale_half, max_units);
        if n == rest_len {
            lines.push(rest);
            proof {
                assert(spec_wrap(m, rest@, scale_half as int, max_units as int) =~= seq![rest@]);
                assert(text@.skip(len as int) =~= Seq::<char>::empty());
                assert(lines@.map_values(|l: &'a str| l@) =~= lines0 + seq![rest@]);
                assert((lines0 + seq![rest@]) + spec_wrap(
                    m,
                    Seq::<char>::empty(),
                    scale_half as int,
                    max_units as int,
                ) =~= lines0 + spec_wrap(m, rest@, scale_half as int, max_units as int));
            }
            start = len;
        } else {
            match find_break(rest, n) {
                Some(b) => {
                    let line = rest.substring_char(0, b);
                    lines.push(line);
                    proof {
                        assert(line@ =~= rest@.take(b as int));
                        assert(spec_wrap(m, rest@, scale_half as int, max_units as int)
                            =~= seq![rest@.take(b as int)] + spec_wrap(
                            m,
                            rest@.skip(b + 1),
                            scale_half as int,
                            max_units as int,
                        ));
                        assert(rest@.skip(b + 1) =~= text@.skip(start + b + 1));
                        assert(lines@.map_values(|l: &'a str| l@) =~= lines0 + seq![line@]);
                        assert((lines0 + seq![line@]) + spec_wrap(
                            m,
                            text@.skip(start + b + 1),
                            scale_half as int,
                            max_units as int,
                        ) =~= lines0 + spec_wrap(m, rest@, scale_half as int, max_units as int));
                    }
                    start = start + b + 1;
                },
                None => {
                    let k: usize = if n == 0 {
                        1
                    } else {
                        n
                    };
                    let line = rest.substring_char(0, k);
                    lines.push(line);
                    proof {
                        assert(line@ =~= rest@.take(k as int));
                        assert(spec_wrap(m, rest@, scale_half as int, max_units as int)
                            =~= seq![rest@.take(k as int)] + spec_wrap(
                            m,
                            rest@.skip(k as int),
                            scale_half as int,
                            max_units as int,
                        ));
                        assert(rest@.skip(k as int) =~= text@.skip(start + k));
                        assert(lines@.map_values(|l: &'a str| l@) =~= lines0 + seq![line@]);
                        assert((lines0 + seq![line@]) + spec_wrap(
                            m,
                            text@.skip(start + k),
                            scale_half as int,
                            max_units as int,
                        ) =~= lines0 + spec_wrap(m, rest@, scale_half as int, max_units as int));
                    }
                    start = start + k;
                },
            }
        }
    }
    proof {
        assert(text@.skip(len as int) =~= Seq::<char>::empty());
        assert(lines@.map_values(|l: &'a str| l@) + Seq::<Seq<char>>::empty() =~= lines@.map_values(
            |l: &'a str| l@,
        ));
    }
    lines
}


/// No character of `s[i..j)` is a space.
pub open spec fn space_free(s: Seq<char>, i: int, j: int) -> bool {
    forall|k: int| i <= k < j ==> s[k] != ' '
}

/// Every space-free stretch of `s` fits the scaled line budget on its own.
/// Greedy wrapping can only guarantee clean breaks for such texts.
pub open spec fn runs_fit(m: &FontMetrics, s: Seq<char>, scale_half: int, max_units: int) -> bool {
    forall|i: int, j: int|
        0 <= i <= j <= s.len() && space_free(s, i, j) ==> seg_units(m, #[trigger] s.subrange(i, j))
            * scale_half <= max_units
}

/// No two spaces of `s` are adjacent.
pub open spec fn no_consecutive_spaces(s: Seq<char>) -> bool {
    forall|i: int| 0 <= i < s.len() - 1 ==> !(#[trigger] s[i] == ' ' && s[i + 1] == ' ')
}

/// The lines concatenated again, with one space between each pair.
pub open spec fn join_with_spaces(lines: Seq<Seq<char>>) -> Seq<char>
    decreases lines.len(),
{
    if lines.len() == 0 {
        Seq::empty()
    } else if lines.len() == 1 {
        lines[0]
    } else {
        lines[0] + seq![' '] + join_with_spaces(lines.drop_first())
    }
}

/// A nonempty text wraps to at least one line.
pub proof fn lemma_wrap_nonempty(m: &FontMetrics, s: Seq<char>, scale_half: int, max_units: int)
    requires
        s.len() > 0,
    ensures
        spec_wrap(m, s, scale_half, max_units).len() >= 1,
{
}

/// If the first `l` glyphs of `s` all fit, the visible width of that prefix
/// stays within the budget: trailing spaces leave no ink, and every ink
/// glyph keeps its right edge inside.
proof fn lemma_all_fit_vis_within(
    m: &FontMetrics,
    s: Seq<char>,
    scale_half: int,
    max_units: int,
    l: int,
)
    requires
        0 <= l <= s.len(),
        max_units >= 0,
        forall|j: int| 0 <= j < l ==> glyph_fits(m, s, scale_half, max_units, j),
    ensures
        vis_units(m, s.take(l)) * scale_half <= max_units,
    decreases l,
{
    if l == 0 {
        assert(s.take(0) =~= Seq::<char>::empty());
    } else {
        assert(s.take(l).last() == s[l - 1]);
        if s[l - 1] == ' ' {
            assert(s.take(l).drop_last() =~= s.take(l - 1));
            lemma_all_fit_vis_within(m, s, scale_half, max_units, l - 1);
        } else {
            assert(glyph_fits(m, s, scale_half, max_units, l - 1));
        }
    }
}

/// Under the wrapping hypotheses, the glyph where the fit count stops is
/// never a space, so the wrapper always finds its break at a real space
/// strictly before the boundary, never at the boundary itself and never by
/// a hard break.
proof fn lemma_break_shape(m: &FontMetrics, s: Seq<char>, scale_half: int, max_units: int)
    requires
        scale_half >= 1,
        max_units >= 0,
        runs_fit(m, s, scale_half, max_units),
        no_consecutive_spaces(s),
        s.len() > 0,
        spec_fits_count(m, s, scale_half, max_units) < s.len(),
    ensures
        ({
            let n = spec_fits_count(m, s, scale_half, max_units) as int;
            let b = last_space_at_or_before(s, n);
            &&& s[n] != ' '
            &&& 0 <= b < n
            &&& s[b] == ' '
        }),
{
    let n = spec_fits_count(m, s, scale_half, max_units) as int;
    lemma_fits_from_props(m, s, scale_half, max_units, 0);
    assert(!glyph_fits(m, s, scale_half, max_units, n));
    if s[n] == ' ' {
        // A failing space would need the cursor already past the budget,
        // yet the glyph before it (ink, by no_consecutive_spaces) fit.
        if n == 0 {
            assert(s.take(0) =~= Seq::<char>::empty());
            assert(seg_units(m, s.take(0)) * scale_half == 0);
        } else {
            assert(s[n - 1] != ' ');
            assert(glyph_fits(m, s, scale_half, max_units, n - 1));
        }
        assert(false);
    }
    let b = last_space_at_or_before(s, n);
    lemma_last_space_props(s, n);
    if b < 0 {
        // No space up to the boundary: the whole space-free run through the
        // boundary fits by hypothesis, so the boundary glyph fits too.
        assert(space_free(s, 0, n + 1));
        assert(s.subrange(0, n + 1) =~= s.take(n + 1));
        assert(seg_units(m, s.take(n + 1)) * scale_half <= max_units);
        assert(glyph_fits(m, s, scale_half, max_units, n));
        assert(false);
    }
}

/// The wrapping hypotheses carry over to the text after a consumed break.
proof fn lemma_hypotheses_on_skip(
    m: &FontMetrics,
    s: Seq<char>,
    scale_half: int,
    max_units: int,
    c: int,
)
    requires
        0 <= c <= s.len(),
        runs_fit(m, s, scale_half, max_units),
        no_consecutive_spaces(s),
    ensures
        runs_fit(m, s.skip(c), scale_half, max_units),
        no_consecutive_spaces(s.skip(c)),
{
    let s2 = s.skip(c);
    assert forall|i: int, j: int|
        0 <= i <= j <= s2.len() && space_free(s2, i, j) implies seg_units(
        m,
        #[trigger] s2.subrange(i, j),
    ) * scale_half <= max_units by {
        assert(s2.subrange(i, j) =~= s.subrange(i + c, j + c));
        assert forall|k: int| i + c <= k < j + c implies s[k] != ' ' by {
            assert(s2[k - c] != ' ');
        }
        assert(space_free(s, i + c, j + c));
    }
    assert forall|i: int| 0 <= i < s2.len() - 1 implies !(#[trigger] s2[i] == ' ' && s2[i + 1]
        == ' ') by {
        assert(s2[i] == s[i + c] && s2[i + 1] == s[i + c + 1]);
    }
}

/// Law: for a text whose space-free runs each fit the line budget and which
/// has no adjacent spaces, the wrapped lines joined with single spaces
/// reconstruct the text exactly.  (A hard break, forced by an over-long
/// run, inserts a space the text never had; a doubled space can be consumed
/// at a line break without a line boundary to witness it.)
pub proof fn lemma_wrap_reconstructs(
    m: &FontMetrics,
    s: Seq<char>,
    scale_half: int,
    max_units: int,
)
    requires
        scale_half >= 1,
        max_units >= 0,
        runs_fit(m, s, scale_half, max_units),
        no_consecutive_spaces(s),
    ensures
        join_with_spaces(spec_wrap(m, s, scale_half, max_units)) == s,
    decreases s.len(),
{
    let w = spec_wrap(m, s, scale_half, max_units);
    if s.len() == 0 {
        assert(join_with_spaces(w) =~= s);
    } else {
        let n = spec_fits_count(m, s, scale_half, max_units) as int;
        lemma_fits_from_props(m, s, scale_half, max_units, 0);
        if n == s.len() {
            assert(w =~= seq![s]);
        } else {
            lemma_break_shape(m, s, scale_half, max_units);
            let b = last_space_at_or_before(s, n);
            let s2 = s.skip(b + 1);
            lemma_hypotheses_on_skip(m, s, scale_half, max_units, b + 1);
            lemma_wrap_reconstructs(m, s2, scale_half, max_units);
            lemma_wrap_nonempty(m, s2, scale_half, max_units);
            let w2 = spec_wrap(m, s2, scale_half, max_units);
            assert(w == seq![s.take(b)] + w2);
            assert(w[0] == s.take(b));
            assert(w.drop_first() =~= w2);
            assert(join_with_spaces(w) == s.take(b) + seq![' '] + join_with_spaces(w2));
            assert(s.take(b) + seq![' '] + s.skip(b + 1) =~= s);
        }
    }
}

/// Law: for a text whose space-free runs each fit the line budget, the
/// visible width of every wrapped line stays within the budget.
pub proof fn lemma_wrap_line_widths(
    m: &FontMetrics,
    s: Seq<char>,
    scale_half: int,
    max_units: int,
)
    requires
        scale_half >= 1,
        max_units >= 0,
        runs_fit(m, s, scale_half, max_units),
    ensures
        forall|i: int|
            0 <= i < spec_wrap(m, s, scale_half, max_units).len() ==> vis_units(
                m,
                #[trigger] spec_wrap(m, s, scale_half, max_units)[i],
            ) * scale_half <= max_units,
    decreases s.len(),
{
    let w = spec_wrap(m, s, scale_half, max_units);
    if s.len() > 0 {
        let n = spec_fits_count(m, s, scale_half, max_units) as int;
        lemma_fits_from_props(m, s, scale_half, max_units, 0);
        if n == s.len() {
            lemma_all_fit_vis_within(m, s, scale_half, max_units, n);
            assert(s.take(n) =~= s);
            assert(w =~= seq![s]);
        } else {
            let b = last_space_at_or_before(s, n);
            lemma_last_space_props(s, n);
            if b >= 0 {
                let s2 = s.skip(b + 1);
                assert forall|i: int, j: int|
                    0 <= i <= j <= s2.len() && space_free(s2, i, j) implies seg_units(
                    m,
                    #[trigger] s2.subrange(i, j),
                ) * scale_half <= max_units by {
                    assert(s2.subrange(i, j) =~= s.subrange(i + b + 1, j + b + 1));
                    assert forall|k: int| i + b + 1 <= k < j + b + 1 implies s[k] != ' ' by {
                        assert(s2[k - b - 1] != ' ');
                    }
                    assert(space_free(s, i + b + 1, j + b + 1));
                }
                lemma_wrap_line_widths(m, s2, scale_half, max_units);
                lemma_all_fit_vis_within(m, s, scale_half, max_units, b);
                let w2 = spec_wrap(m, s2, scale_half, max_units);
                assert(w == seq![s.take(b)] + w2);
                assert forall|i: int|
                    0 <= i < w.len() implies vis_units(m, #[trigger] w[i]) * scale_half
                    <= max_units by {
                    if i > 0 {
                        assert(w[i] == w2[i - 1]);
                    }
                }
            } else {
                // No space up to the boundary, yet the space-free run
                // through it fits: the boundary glyph would fit after all.
                assert(space_free(s, 0, n + 1));
                assert(s.subrange(0, n + 1) =~= s.take(n + 1));
                assert(seg_units(m, s.take(n + 1)) * scale_half <= max_units);
                if s[n] == ' ' {
                    lemma_seg_units_take_monotone(m, s, n, n + 1);
                    lemma_mul_inequality(
                        seg_units(m, s.take(n)),
                        seg_units(m, s.take(n + 1)),
                        scale_half,
                    );
                }
                assert(glyph_fits(m, s, scale_half, max_units, n));
                assert(false);
            }
        }
    }
}

/// Law: a nonempty text without any space, whose full layout width fits the
/// budget, wraps to exactly one line: itself.  (An over-long space-free
/// text instead terminates through hard breaks at each boundary.)
pub proof fn lemma_wrap_single_line(m: &FontMetrics, s: Seq<char>, scale_half: int, max_units: int)
    requires
        scale_half >= 1,
        s.len() > 0,
        space_free(s, 0, s.len() as int),
        seg_units(m, s) * scale_half <= max_units,
    ensures
        spec_wrap(m, s, scale_half, max_units) == seq![s],
{
    let n = spec_fits_count(m, s, scale_half, max_units) as int;
    lemma_fits_from_props(m, s, scale_half, max_units, 0);
    if n < s.len() {
        assert(s[n] != ' ');
        lemma_seg_units_take_monotone(m, s, n + 1, s.len() as int);
        assert(s.take(s.len() as int) =~= s);
        lemma_mul_inequality(seg_units(m, s.take(n + 1)), seg_units(m, s), scale_half);
        assert(glyph_fits(m, s, scale_half, max_units, n));
        assert(false);
    }
    assert(spec_wrap(m, s, scale_half, max_units) =~= seq![s]);
}

} // verus!
