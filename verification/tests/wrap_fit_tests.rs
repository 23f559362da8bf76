//! Line wrapping and adaptive fitting on concrete fonts and texts.

use skill_cards::error::RenderError;
use skill_cards::fit::{calc_line_width, fit_line, LineFit};
use skill_cards::metrics::FontMetrics;
use skill_cards::wrap::split_into_lines;

/// A font where every character advances the same amount, in milli-pixels
/// per half-point of scale.
fn uniform_font(advance: u16) -> FontMetrics {
    FontMetrics::new(Vec::new(), advance)
}

#[test]
fn short_text_is_one_line() {
    // 500 milli-px per half-point: at 13 points (26 half-points) each
    // character is 13 px wide, so 18 characters fit 246 px.
    let m = uniform_font(500);
    let lines = split_into_lines(&m, "hello world", 246, 26);
    assert_eq!(lines, vec!["hello world"]);
}

#[test]
fn wrap_breaks_at_spaces_and_reconstructs() {
    let m = uniform_font(500);
    // 30 characters at 13 px each: two lines of 18 px budget each.
    let text = "aaaa bbbb cccc dddd eeee ffff";
    let lines = split_into_lines(&m, text, 246, 26);
    assert!(lines.len() > 1);
    // Joining with single spaces reconstructs the text exactly.
    assert_eq!(lines.join(" "), text);
    // Every line's measured width stays within the budget.
    for line in &lines {
        assert!(calc_line_width(&m, line, 26) <= 246);
    }
}

#[test]
fn wrap_exact_break_positions() {
    let m = uniform_font(500);
    // 13 px per character; 18 fit into 246 px.  The first 18 characters
    // of the text are "aaaaaaaa bbbbbbbb " and the boundary glyph is 'c',
    // so the wrapper backs off to the space before the c-word.
    let text = "aaaaaaaa bbbbbbbb cccccccc";
    let lines = split_into_lines(&m, text, 246, 26);
    assert_eq!(lines, vec!["aaaaaaaa bbbbbbbb", "cccccccc"]);
}

#[test]
fn wrap_without_whitespace_terminates() {
    // The backoff finds no space: the wrapper must hard-break at the
    // boundary instead of scanning backwards forever.
    let m = uniform_font(500);
    let text = "abcdefghijklmnopqrstuvwxyz0123456789";
    let lines = split_into_lines(&m, text, 246, 26);
    assert_eq!(lines, vec!["abcdefghijklmnopqr", "stuvwxyz0123456789"]);
    // The pieces concatenate back to the text (no character is lost).
    assert_eq!(lines.concat(), text);
}

#[test]
fn wrap_space_free_text_that_fits_is_one_line() {
    let m = uniform_font(500);
    let lines = split_into_lines(&m, "eighteen-chars-max", 246, 26);
    assert_eq!(lines, vec!["eighteen-chars-max"]);
}

#[test]
fn wrap_empty_text_has_no_lines() {
    let m = uniform_font(500);
    let lines = split_into_lines(&m, "", 246, 26);
    assert!(lines.is_empty());
}

#[test]
fn trailing_space_leaves_no_ink() {
    let m = uniform_font(500);
    // The visible width ignores trailing whitespace: "ab " measures like
    // "ab" even though the cursor advances past the space.
    assert_eq!(calc_line_width(&m, "ab", 26), 26);
    assert_eq!(calc_line_width(&m, "ab ", 26), 26);
    assert_eq!(calc_line_width(&m, "a b", 26), 39);
}

#[test]
fn fit_line_keeps_fitting_text_at_start_scale() {
    let m = uniform_font(500);
    // "Flare" at 25 points: 5 chars * 0.5 px * 50 half-points = 125 px,
    // within the 230 px title budget.
    let f = fit_line(&m, "Flare", 50, 230).unwrap();
    assert_eq!(
        f,
        LineFit { scale_half: 50, y_off_quarters: 0, width: 125 }
    );
}

#[test]
fn fit_line_shrinks_until_it_fits() {
    let m = uniform_font(500);
    // 20 characters: 10 units of 1000 milli-px... at scale s half-points
    // the width is 10000 * s milli-px; it first fits 230 px at s = 23.
    let text = "abcdefghijklmnopqrst";
    let f = fit_line(&m, text, 50, 230).unwrap();
    assert_eq!(f.scale_half, 23);
    // One quarter pixel of compensation per half-point shed.
    assert_eq!(f.y_off_quarters, 27);
    assert_eq!(f.width, 230);
}

#[test]
fn fit_line_is_idempotent() {
    let m = uniform_font(500);
    let text = "abcdefghijklmnopqrst";
    let first = fit_line(&m, text, 50, 230).unwrap();
    // Refitting from the chosen scale changes neither scale nor offset.
    let second = fit_line(&m, text, first.scale_half, 230).unwrap();
    assert_eq!(second.scale_half, first.scale_half);
    assert_eq!(second.y_off_quarters, 0);
    assert_eq!(second.width, first.width);
}

#[test]
fn fit_line_signals_layout_impossible() {
    // Four characters of the widest possible advance overflow 230 px even
    // at the minimum scale of half a point.
    let m = uniform_font(0xFFFF);
    let r = fit_line(&m, "wide", 50, 230);
    assert_eq!(r.unwrap_err(), RenderError::LayoutImpossible);
}

#[test]
fn per_character_advances_are_looked_up() {
    // 'a' is 100 units, 'b' is 200, everything else 500.
    let mut advances = vec![500u16; 128];
    advances['a' as usize] = 100;
    advances['b' as usize] = 200;
    let m = FontMetrics::new(advances, 500);
    // "ab" at 10 half-points: (100 + 200) * 10 = 3000 milli-px = 3 px.
    assert_eq!(calc_line_width(&m, "ab", 10), 3);
}
