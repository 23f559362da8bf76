//! The deck sheet tiler.  Finished cards are taken in order, partitioned
//! into consecutive batches of 69, and each batch is blended onto a white
//! 3000 x 3024 sheet as a 10 x 7 grid of 300 x 432 cells.  The 70th cell
//! of every sheet is reserved for a future placeholder card and stays
//! blank.

use crate::canvas::{blend_pixel, Anchor, Canvas, Rgba};
use crate::card::{CARD_HEIGHT, CARD_WIDTH};
use vstd::arithmetic::div_mod::lemma_fundamental_div_mod;
use vstd::prelude::*;

verus! {

/// Cards per sheet row.
pub const DECK_COLUMNS: u32 = 10;

/// Card rows per sheet.
pub const DECK_ROWS: u32 = 7;

/// Cards per sheet: the full grid minus the reserved placeholder cell.
pub const CARDS_PER_SHEET: usize = 69;

/// Width of a sheet in pixels.
pub const DECK_WIDTH: u32 = 3000;

/// Height of a sheet in pixels.
pub const DECK_HEIGHT: u32 = 3024;

/// The white a sheet starts out as.
pub open spec fn spec_sheet_background() -> Rgba {
    Rgba { r: 0xFF, g: 0xFF, b: 0xFF, a: 0xFF }
}

/// How many sheets `n` cards need: one per started batch of 69.
pub open spec fn spec_sheet_count(n: int) -> int {
    (n + 68) / 69
}

/// How many sheets `n` cards need.
pub fn sheet_count(n: usize) -> (c: usize)
    requires
        n <= 0x10000000,
    ensures
        c == spec_sheet_count(n as int),
        n == 0 ==> c == 0,
        n >= 1 ==> c >= 1,
        c * CARDS_PER_SHEET >= n,
        (c - 1) * CARDS_PER_SHEET < n || n == 0,
{
    let c = (n + 68) / 69;
    proof {
        lemma_fundamental_div_mod((n + 68) as int, 69);
        assert(c * CARDS_PER_SHEET >= n && ((n == 0) || (c - 1) * CARDS_PER_SHEET < n))
            by (nonlinear_arith)
            requires
                69 * (c as int) + ((n + 68) as int) % 69 == n + 68,
                0 <= ((n + 68) as int) % 69 < 69,
        ;
    }
    c
}

/// The grid cell of the `i`-th card of a sheet, and its pixel offset:
/// column `i % 10`, row `i / 10`, at `(column * 300, row * 432)`.
pub fn deck_cell_offset(i: usize) -> (r: (u32, u32))
    requires
        i < CARDS_PER_SHEET,
    ensures
        r.0 == ((i as int) % 10) * 300,
        r.1 == ((i as int) / 10) * 432,
{
    (((i % 10) as u32) * 300, ((i / 10) as u32) * 432)
}

/// The sheet pixel at `(x, y)` after the first `k` cards of a batch have
/// been blended into their grid cells, over a white background.
pub open spec fn spec_sheet_pixel(cards: Seq<Canvas>, k: int, x: int, y: int) -> Rgba
    decreases k,
{
    if k <= 0 {
        spec_sheet_background()
    } else {
        let prev = spec_sheet_pixel(cards, k - 1, x, y);
        let ox = ((k - 1) % 10) * 300;
        let oy = ((k - 1) / 10) * 432;
        if ox <= x < ox + CARD_WIDTH && oy <= y < oy + CARD_HEIGHT {
            blend_pixel(prev, cards[k - 1].pixel(x - ox, y - oy), 100)
        } else {
            prev
        }
    }
}

/// Every card in `cards` is a well-formed 300 x 432 canvas.
pub open spec fn spec_cards_wf(cards: Seq<Canvas>) -> bool {
    forall|i: int|
        0 <= i < cards.len() ==> (#[trigger] cards[i]).wf() && cards[i].spec_width() == CARD_WIDTH
            && cards[i].spec_height() == CARD_HEIGHT
}

/// Renders one sheet from the batch `cards[start .. start + count]`.
pub fn render_deck_sheet(cards: &Vec<Canvas>, start: usize, count: usize) -> (sheet: Canvas)
    requires
        cards@.len() <= 0x10000000,
        start + count <= cards@.len(),
        count <= CARDS_PER_SHEET,
        spec_cards_wf(cards@),
    ensures
        sheet.wf(),
        sheet.spec_width() == DECK_WIDTH,
        sheet.spec_height() == DECK_HEIGHT,
        forall|x: int, y: int|
            0 <= x < DECK_WIDTH && 0 <= y < DECK_HEIGHT ==> sheet.pixel(x, y) == spec_sheet_pixel(
                cards@.subrange(start as int, (start + count) as int),
                count as int,
                x,
                y,
            ),
{
    let ghost batch = cards@.subrange(start as int, (start + count) as int);
    let mut sheet = Canvas::solid(DECK_WIDTH, DECK_HEIGHT, Rgba { r: 0xFF, g: 0xFF, b: 0xFF, a: 0xFF });
    let mut k: usize = 0;
    while k < count
        invariant
            cards@.len() <= 0x10000000,
            start + count <= cards@.len(),
            count <= CARDS_PER_SHEET,
            spec_cards_wf(cards@),
            batch == cards@.subrange(start as int, (start + count) as int),
            k <= count,
            sheet.wf(),
            sheet.spec_width() == DECK_WIDTH,
            sheet.spec_height() == DECK_HEIGHT,
            forall|x: int, y: int|
                0 <= x < DECK_WIDTH && 0 <= y < DECK_HEIGHT ==> sheet.pixel(x, y)
                    == spec_sheet_pixel(batch, k as int, x, y),
        decreases count - k,
    {
        let (ox, oy) = deck_cell_offset(k);
        let card = &cards[start + k];
        proof {
            assert(batch[k as int] == cards@[(start + k) as int]);
        }
        sheet.blend(card, Anchor::TopLeft, ox as i32, oy as i32, 100);
        k = k + 1;
    }
    sheet
}

/// One rendered sheet matches its batch: the right size, and every pixel
/// the layered blend of that batch's cards over white.
pub open spec fn spec_sheet_ok(sheet: Canvas, cards: Seq<Canvas>, s: int) -> bool {
    let start = s * 69;
    let end = if start + 69 <= cards.len() {
        start + 69
    } else {
        cards.len() as int
    };
    &&& sheet.wf()
    &&& sheet.spec_width() == DECK_WIDTH
    &&& sheet.spec_height() == DECK_HEIGHT
    &&& forall|x: int, y: int|
        0 <= x < DECK_WIDTH && 0 <= y < DECK_HEIGHT ==> sheet.pixel(x, y) == spec_sheet_pixel(
            cards.subrange(start, end),
            end - start,
            x,
            y,
        )
}

/// Tiles the full ordered card list into print sheets: consecutive
/// batches of 69 cards, one sheet per batch, in input order.
pub fn create_tabletop_simulator_decks(cards: &Vec<Canvas>) -> (sheets: Vec<Canvas>)
    requires
        cards@.len() <= 0x10000000,
        spec_cards_wf(cards@),
    ensures
        sheets@.len() == spec_sheet_count(cards@.len() as int),
        forall|s: int| 0 <= s < sheets@.len() ==> spec_sheet_ok(#[trigger] sheets@[s], cards@, s),
{
    let n = cards.len();
    let total = sheet_count(n);
    let mut sheets: Vec<Canvas> = Vec::new();
    let mut s: usize = 0;
    while s < total
        invariant
            n == cards@.len() <= 0x10000000,
            spec_cards_wf(cards@),
            total == spec_sheet_count(n as int),
            (total as int) * 69 >= n,
            s <= total,
            sheets@.len() == s,
            forall|t: int| 0 <= t < s ==> spec_sheet_ok(#[trigger] sheets@[t], cards@, t),
        decreases total - s,
    {
        let start = s * CARDS_PER_SHEET;
        proof {
            assert((s as int) * 69 + 69 <= (total as int) * 69) by (nonlinear_arith)
                requires
                    s < total,
            ;
        }
        let count = if start + CARDS_PER_SHEET <= n {
            CARDS_PER_SHEET
        } else {
            n - start
        };
        let sheet = render_deck_sheet(cards, start, count);
        sheets.push(sheet);
        s = s + 1;
    }
    sheets
}

/// Law: the reserved 70th cell of a sheet stays blank.  No batch holds
/// more than 69 cards, so nothing is ever blended into the bottom-right
/// cell and it keeps the white background.
pub proof fn lemma_reserved_cell_blank(cards: Seq<Canvas>, k: int, x: int, y: int)
    requires
        k <= CARDS_PER_SHEET,
        2700 <= x < 3000,
        2592 <= y < 3024,
    ensures
        spec_sheet_pixel(cards, k, x, y) == spec_sheet_background(),
    decreases k,
{
    if k > 0 {
        lemma_reserved_cell_blank(cards, k - 1, x, y);
        let ox = ((k - 1) % 10) * 300;
        let oy = ((k - 1) / 10) * 432;
        if ox <= x < ox + CARD_WIDTH && oy <= y < oy + CARD_HEIGHT {
            assert((k - 1) % 10 == 9 && (k - 1) / 10 == 6);
            lemma_fundamental_div_mod(k - 1, 10);
            assert(false);
        }
    }
}

} // verus!
