//! The layered card compositor.  A card is a fixed 300 x 432 canvas:
//! a solid background (gold for elite skills, black otherwise), the skill
//! art resized to 300 x 300 at the top, a textbox frame overlay, a
//! profession badge watermark, and a centered row of resource icons.  The
//! text (title, type line, description, resource values) is laid out here
//! as drawing commands with exact pixel positions; a drawer outside the
//! library rasterizes them.

use crate::canvas::{blend_pixel, Anchor, Canvas, Rgba};
use crate::error::RenderError;
use crate::fit::{calc_line_width, fit_line, spec_fit};
use crate::metrics::{vis_units, FontMetrics, MAX_TEXT_LEN};
use crate::skill::{spec_text_value, spec_type_line, Resource, Skill};
use crate::wrap::{spec_wrap, split_into_lines};
use vstd::prelude::*;

verus! {

/// Width of a card in pixels.
pub const CARD_WIDTH: u32 = 300;

/// Height of a card in pixels.
pub const CARD_HEIGHT: u32 = 432;

/// Side length of the resized skill art.
pub const ART_SIZE: u32 = 300;

/// Side length of the resized profession badge.
pub const BADGE_SIZE: u32 = 110;

/// Pixel width of one resource icon in the cost row.
pub const RESOURCE_ICON_WIDTH: u32 = 20;

/// Pixel width assumed for a resource's value text.
pub const RESOURCE_TEXT_WIDTH: u32 = 12;

/// Padding between a resource's text and its icon.
pub const RESOURCE_PADDING_INSIDE: u32 = 4;

/// Gap between two resource slots.
pub const RESOURCE_GAP: u32 = 4;

/// Most resources that fit the 300-pixel row.
pub const MAX_RESOURCES: usize = 7;

/// The background color of a card: yellow-gold for an elite skill, black
/// otherwise.
pub open spec fn spec_bg_color(is_elite: bool) -> Rgba {
    if is_elite {
        Rgba { r: 0xFC, g: 0xDF, b: 0x02, a: 0xFF }
    } else {
        Rgba { r: 0x00, g: 0x00, b: 0x00, a: 0xFF }
    }
}

/// Pixel width of one resource slot: icon, text, and inner padding.
pub open spec fn spec_resource_slot_width() -> int {
    RESOURCE_ICON_WIDTH + RESOURCE_TEXT_WIDTH + RESOURCE_PADDING_INSIDE
}

/// Total pixel width of a row of `n` resource slots with their gaps.
pub open spec fn spec_resource_row_width(n: int) -> int {
    n * spec_resource_slot_width() + (n - 1) * RESOURCE_GAP
}

/// Left edge of the resource row: the row is centered on the card.
pub open spec fn spec_resource_row_left(n: int) -> int {
    CARD_WIDTH / 2 - spec_resource_row_width(n) / 2
}

/// Total pixel width of a row of `n` resources (icon + assumed text width
/// + padding per slot, with a fixed gap between slots).
pub fn resource_row_width(n: usize) -> (w: u32)
    requires
        1 <= n <= MAX_RESOURCES,
    ensures
        w == spec_resource_row_width(n as int),
        w == n * (RESOURCE_ICON_WIDTH + RESOURCE_TEXT_WIDTH + RESOURCE_PADDING_INSIDE) + (n - 1)
            * RESOURCE_GAP,
{
    (n as u32) * (RESOURCE_ICON_WIDTH + RESOURCE_TEXT_WIDTH + RESOURCE_PADDING_INSIDE) + ((n
        as u32) - 1) * RESOURCE_GAP
}

/// Left edge of a centered row of `n` resources.
pub fn resource_row_left(n: usize) -> (x: u32)
    requires
        1 <= n <= MAX_RESOURCES,
    ensures
        x == spec_resource_row_left(n as int),
        x == (CARD_WIDTH / 2) - spec_resource_row_width(n as int) / 2,
{
    let total = resource_row_width(n);
    proof {
        assert(spec_resource_slot_width() == 36);
        assert(total <= 276) by (nonlinear_arith)
            requires
                total == (n as int) * 36 + ((n as int) - 1) * 4,
                1 <= n <= 7,
        ;
    }
    CARD_WIDTH / 2 - total / 2
}

/// Generates the solid card background: gold for an elite skill, black
/// otherwise.
pub fn gen_background(is_elite: bool) -> (c: Canvas)
    ensures
        c.wf(),
        c.spec_width() == CARD_WIDTH,
        c.spec_height() == CARD_HEIGHT,
        forall|x: int, y: int|
            0 <= x < CARD_WIDTH && 0 <= y < CARD_HEIGHT ==> c.pixel(x, y) == spec_bg_color(
                is_elite,
            ),
{
    let color = if is_elite {
        Rgba { r: 0xFC, g: 0xDF, b: 0x02, a: 0xFF }
    } else {
        Rgba { r: 0x00, g: 0x00, b: 0x00, a: 0xFF }
    };
    Canvas::solid(CARD_WIDTH, CARD_HEIGHT, color)
}

/// Blends the skill's art, resized to exactly 300 x 300, onto the top of
/// the card at full opacity.
pub fn add_skill_image(card: &mut Canvas, art: &Canvas)
    requires
        old(card).wf(),
        old(card).spec_width() == CARD_WIDTH,
        old(card).spec_height() == CARD_HEIGHT,
        art.wf(),
        art.spec_width() > 0,
        art.spec_height() > 0,
    ensures
        final(card).wf(),
        final(card).spec_width() == CARD_WIDTH,
        final(card).spec_height() == CARD_HEIGHT,
        forall|x: int, y: int|
            0 <= x < CARD_WIDTH && 0 <= y < CARD_HEIGHT ==> final(card).pixel(x, y) == (if x
                < ART_SIZE && y < ART_SIZE {
                blend_pixel(
                    old(card).pixel(x, y),
                    art.pixel(
                        x * art.spec_width() / ART_SIZE as int,
                        y * art.spec_height() / ART_SIZE as int,
                    ),
                    100,
                )
            } else {
                old(card).pixel(x, y)
            }),
{
    let resized = art.resize_nearest(ART_SIZE, ART_SIZE);
    card.blend(&resized, Anchor::TopLeft, 0, 0, 100);
}

/// Blends the textbox frame overlay onto the card at full opacity,
/// top-left anchored.
pub fn add_textboxes(card: &mut Canvas, frame: &Canvas)
    requires
        old(card).wf(),
        old(card).spec_width() == CARD_WIDTH,
        old(card).spec_height() == CARD_HEIGHT,
        frame.wf(),
    ensures
        final(card).wf(),
        final(card).spec_width() == CARD_WIDTH,
        final(card).spec_height() == CARD_HEIGHT,
        forall|x: int, y: int|
            0 <= x < CARD_WIDTH && 0 <= y < CARD_HEIGHT ==> final(card).pixel(x, y) == (if x
                < frame.spec_width() && y < frame.spec_height() {
                blend_pixel(old(card).pixel(x, y), frame.pixel(x, y), 100)
            } else {
                old(card).pixel(x, y)
            }),
{
    card.blend(frame, Anchor::TopLeft, 0, 0, 100);
}

/// Blends the profession badge, resized to 110 x 110, bottom-center
/// anchored and lifted 9 pixels, at 20 percent opacity, as a watermark.
pub fn add_profession_icon(card: &mut Canvas, badge: &Canvas)
    requires
        old(card).wf(),
        old(card).spec_width() == CARD_WIDTH,
        old(card).spec_height() == CARD_HEIGHT,
        badge.wf(),
        badge.spec_width() > 0,
        badge.spec_height() > 0,
    ensures
        final(card).wf(),
        final(card).spec_width() == CARD_WIDTH,
        final(card).spec_height() == CARD_HEIGHT,
        forall|x: int, y: int|
            0 <= x < CARD_WIDTH && 0 <= y < CARD_HEIGHT ==> final(card).pixel(x, y) == (if 95 <= x
                < 205 && 313 <= y < 423 {
                blend_pixel(
                    old(card).pixel(x, y),
                    badge.pixel(
                        (x - 95) * badge.spec_width() / BADGE_SIZE as int,
                        (y - 313) * badge.spec_height() / BADGE_SIZE as int,
                    ),
                    20,
                )
            } else {
                old(card).pixel(x, y)
            }),
{
    let resized = badge.resize_nearest(BADGE_SIZE, BADGE_SIZE);
    card.blend(&resized, Anchor::BottomCenter, 0, -9, 20);
}

/// The pixel at `(x, y)` after the first `k` of `n` resource icons have
/// been blended, left to right, over a base pixel value.  Icon `i` sits at
/// the icon slot of the `i`-th resource of a centered row of `n`.
pub open spec fn spec_icons_pixel(
    base: Rgba,
    icons: Seq<Canvas>,
    k: int,
    n: int,
    x: int,
    y: int,
) -> Rgba
    decreases k,
{
    if k <= 0 {
        base
    } else {
        let prev = spec_icons_pixel(base, icons, k - 1, n, x, y);
        let ox = spec_resource_row_left(n) + (k - 1) * 40 + RESOURCE_TEXT_WIDTH
            + RESOURCE_PADDING_INSIDE;
        let oy = 301int;
        let icon = icons[k - 1];
        if ox <= x < ox + icon.spec_width() && oy <= y < oy + icon.spec_height() {
            blend_pixel(prev, icon.pixel(x - ox, y - oy), 100)
        } else {
            prev
        }
    }
}

/// Blends each resource's icon at full opacity into its slot of a row
/// horizontally centered on the card.  With no resources the card is left
/// untouched.
pub fn add_resource_icons(card: &mut Canvas, icons: &Vec<Canvas>)
    requires
        old(card).wf(),
        old(card).spec_width() == CARD_WIDTH,
        old(card).spec_height() == CARD_HEIGHT,
        icons@.len() <= MAX_RESOURCES,
        forall|i: int| 0 <= i < icons@.len() ==> (#[trigger] icons@[i]).wf(),
    ensures
        final(card).wf(),
        final(card).spec_width() == CARD_WIDTH,
        final(card).spec_height() == CARD_HEIGHT,
        forall|x: int, y: int|
            0 <= x < CARD_WIDTH && 0 <= y < CARD_HEIGHT ==> final(card).pixel(x, y)
                == spec_icons_pixel(
                old(card).pixel(x, y),
                icons@,
                icons@.len() as int,
                icons@.len() as int,
                x,
                y,
            ),
{
    let n = icons.len();
    if n == 0 {
        return ;
    }
    let x_start = resource_row_left(n);
    let ghost card0 = *card;
    let mut idx: usize = 0;
    while idx < n
        invariant
            card.wf(),
            card.spec_width() == CARD_WIDTH,
            card.spec_height() == CARD_HEIGHT,
            card0.wf(),
            card0.spec_width() == CARD_WIDTH,
            card0.spec_height() == CARD_HEIGHT,
            idx <= n,
            1 <= n <= MAX_RESOURCES,
            n == icons@.len(),
            forall|i: int| 0 <= i < icons@.len() ==> (#[trigger] icons@[i]).wf(),
            x_start == spec_resource_row_left(n as int),
            forall|x: int, y: int|
                0 <= x < CARD_WIDTH && 0 <= y < CARD_HEIGHT ==> card.pixel(x, y)
                    == spec_icons_pixel(card0.pixel(x, y), icons@, idx as int, n as int, x, y),
        decreases n - idx,
    {
        let x_off: u32 = x_start + (idx as u32) * 40 + RESOURCE_TEXT_WIDTH
            + RESOURCE_PADDING_INSIDE;
        let icon = &icons[idx];
        card.blend(icon, Anchor::TopLeft, x_off as i32, 301, 100);
        idx = idx + 1;
    }
}


/// The mathematical value of one text drawing command.
pub ghost struct TextOpView {
    pub text: Seq<char>,
    pub x: u32,
    pub y: u32,
    pub scale_half: u32,
}

/// One text drawing command: draw `text` with its top-left pen position at
/// `(x, y)`, at `scale_half` half-points, in opaque black.
#[derive(Debug, PartialEq, Eq)]
pub struct TextOp {
    pub text: String,
    pub x: u32,
    pub y: u32,
    pub scale_half: u32,
}

impl View for TextOp {
    type V = TextOpView;

    open spec fn view(&self) -> TextOpView {
        TextOpView { text: self.text@, x: self.x, y: self.y, scale_half: self.scale_half }
    }
}

/// Starting scale of the title, in half-points.
pub const TITLE_START_SCALE_HALF: u32 = 50;

/// Pixel budget of the title line: the card width minus two 35-pixel
/// margins.
pub const TITLE_MAX_WIDTH: u32 = 230;

/// Baseline of the title before compensation.
pub const TITLE_BASE_Y: u32 = 275;

/// Starting scale of the type line and the scale of the description and
/// resource values, in half-points.
pub const BODY_SCALE_HALF: u32 = 26;

/// Pixel budget of the type line and each description line: the card
/// width minus two 27-pixel margins.
pub const BODY_MAX_WIDTH: u32 = 246;

/// Left edge of the type line and the description.
pub const BODY_X: u32 = 27;

/// Baseline of the type line before compensation.
pub const TYPE_LINE_BASE_Y: u32 = 324;

/// Baseline of the first description line.
pub const DESCRIPTION_BASE_Y: u32 = 343;

/// Baseline of the resource cost values.
pub const RESOURCE_TEXT_Y: u32 = 305;

/// The title command: the title is shrunk to fit 230 pixels from 25
/// points, centered horizontally by its measured width, and lowered a
/// quarter pixel per shrink step.  Nothing when the title cannot fit.
pub open spec fn spec_title_op(m: &FontMetrics, name: Seq<char>) -> Option<TextOpView> {
    match spec_fit(vis_units(m, name), TITLE_START_SCALE_HALF as int, (TITLE_MAX_WIDTH as int)
        * 1000) {
        Some((s, q)) => {
            let w = vis_units(m, name) * s / 1000;
            Some(
                TextOpView {
                    text: name,
                    x: (CARD_WIDTH / 2 - w / 2) as u32,
                    y: (TITLE_BASE_Y + q / 4) as u32,
                    scale_half: s as u32,
                },
            )
        },
        None => None,
    }
}

/// The type-line command: left-aligned at 27 pixels, shrunk to fit 246
/// pixels from 13 points.  Nothing when it cannot fit.
pub open spec fn spec_type_line_op(m: &FontMetrics, line: Seq<char>) -> Option<TextOpView> {
    match spec_fit(vis_units(m, line), BODY_SCALE_HALF as int, (BODY_MAX_WIDTH as int) * 1000) {
        Some((s, q)) => Some(
            TextOpView {
                text: line,
                x: BODY_X,
                y: (TYPE_LINE_BASE_Y + q / 4) as u32,
                scale_half: s as u32,
            },
        ),
        None => None,
    }
}

/// Line height of the description: denser for longer descriptions so they
/// stay inside the textbox.
pub open spec fn spec_desc_line_height(count: int) -> int {
    if count <= 4 {
        15
    } else if count == 5 {
        14
    } else {
        12
    }
}

/// The description commands: the text wrapped greedily to 246 pixels at 13
/// points, one command per line, stacked from the base line at the height
/// the line count calls for.
pub open spec fn spec_desc_ops(m: &FontMetrics, d: Seq<char>) -> Seq<TextOpView> {
    let lines = spec_wrap(m, d, BODY_SCALE_HALF as int, (BODY_MAX_WIDTH as int) * 1000);
    let lh = spec_desc_line_height(lines.len() as int);
    lines.map(
        |i: int, line: Seq<char>|
            TextOpView {
                text: line,
                x: BODY_X,
                y: (DESCRIPTION_BASE_Y + i * lh) as u32,
                scale_half: BODY_SCALE_HALF,
            },
    )
}

/// Where the value text of the `idx`-th of `n` resources starts: right-
/// aligned within its 12-pixel text slot, clamped at the canvas edge.
pub open spec fn spec_resource_text_x(m: &FontMetrics, r: Resource, idx: int, n: int) -> int {
    let x_left = spec_resource_row_left(n) + idx * 40;
    let w = vis_units(m, spec_text_value(r)) * (BODY_SCALE_HALF as int) / 1000;
    if w <= x_left + RESOURCE_TEXT_WIDTH {
        x_left + RESOURCE_TEXT_WIDTH - w
    } else {
        0
    }
}

/// The resource value commands: one per resource, right-aligned in its
/// slot, on the fixed resource baseline.
pub open spec fn spec_res_ops(m: &FontMetrics, rs: Seq<Resource>) -> Seq<TextOpView> {
    rs.map(
        |i: int, r: Resource|
            TextOpView {
                text: spec_text_value(r),
                x: spec_resource_text_x(m, r, i, rs.len() as int) as u32,
                y: RESOURCE_TEXT_Y,
                scale_half: BODY_SCALE_HALF,
            },
    )
}

/// Mapping to views commutes with appending one drawing command.
proof fn lemma_map_op_views_push(v: Seq<TextOp>, op: TextOp)
    ensures
        v.push(op).map_values(|x: TextOp| x@) == v.map_values(|x: TextOp| x@).push(op@),
{
    assert(v.push(op).map_values(|x: TextOp| x@) =~= v.map_values(|x: TextOp| x@).push(op@));
}

/// Builds the title drawing command (see `spec_title_op`).
pub fn draw_title(m: &FontMetrics, text: &str) -> (r: Result<TextOp, RenderError>)
    requires
        text@.len() <= MAX_TEXT_LEN,
    ensures
        match r {
            Ok(op) => {
                &&& spec_title_op(m, text@) == Some(op@)
                &&& 35 <= op@.x <= 150
                &&& 275 <= op@.y <= 287
            },
            Err(e) => spec_title_op(m, text@) is None && e == RenderError::LayoutImpossible,
        },
{
    match fit_line(m, text, TITLE_START_SCALE_HALF, TITLE_MAX_WIDTH) {
        Ok(f) => {
            proof {
                crate::fit::lemma_fit_within_budget(
                    vis_units(m, text@),
                    TITLE_START_SCALE_HALF as int,
                    (TITLE_MAX_WIDTH as int) * 1000,
                );
            }
            let centered_x = CARD_WIDTH / 2 - f.width / 2;
            Ok(
                TextOp {
                    text: text.to_owned(),
                    x: centered_x,
                    y: TITLE_BASE_Y + f.y_off_quarters / 4,
                    scale_half: f.scale_half,
                },
            )
        },
        Err(e) => Err(e),
    }
}

/// Builds the type-line drawing command (see `spec_type_line_op`).
pub fn draw_type_line(m: &FontMetrics, text: &str) -> (r: Result<TextOp, RenderError>)
    requires
        text@.len() <= MAX_TEXT_LEN,
    ensures
        match r {
            Ok(op) => {
                &&& spec_type_line_op(m, text@) == Some(op@)
                &&& op@.x == BODY_X
                &&& 324 <= op@.y <= 330
            },
            Err(e) => spec_type_line_op(m, text@) is None && e == RenderError::LayoutImpossible,
        },
{
    match fit_line(m, text, BODY_SCALE_HALF, BODY_MAX_WIDTH) {
        Ok(f) => {
            proof {
                crate::fit::lemma_fit_within_budget(
                    vis_units(m, text@),
                    BODY_SCALE_HALF as int,
                    (BODY_MAX_WIDTH as int) * 1000,
                );
            }
            Ok(
                TextOp {
                    text: text.to_owned(),
                    x: BODY_X,
                    y: TYPE_LINE_BASE_Y + f.y_off_quarters / 4,
                    scale_half: f.scale_half,
                },
            )
        },
        Err(e) => Err(e),
    }
}

/// Builds the description drawing commands (see `spec_desc_ops`).
pub fn draw_description(m: &FontMetrics, text: &str) -> (ops: Vec<TextOp>)
    requires
        text@.len() <= MAX_TEXT_LEN,
    ensures
        ops@.map_values(|op: TextOp| op@) == spec_desc_ops(m, text@),
{
    let lines = split_into_lines(m, text, BODY_MAX_WIDTH, BODY_SCALE_HALF);
    proof {
        crate::wrap::lemma_wrap_len_le(
            m,
            text@,
            BODY_SCALE_HALF as int,
            (BODY_MAX_WIDTH as int) * 1000,
        );
        assert(lines@.map_values(|l: &str| l@).len() == lines@.len());
    }
    let count = lines.len();
    let lh: u32 = if count <= 4 {
        15
    } else if count == 5 {
        14
    } else {
        12
    };
    let mut ops: Vec<TextOp> = Vec::new();
    let mut i: usize = 0;
    while i < count
        invariant
            count == lines@.len() <= MAX_TEXT_LEN,
            i <= count,
            lines@.map_values(|l: &str| l@) == spec_wrap(
                m,
                text@,
                BODY_SCALE_HALF as int,
                (BODY_MAX_WIDTH as int) * 1000,
            ),
            lh == spec_desc_line_height(count as int),
            ops@.map_values(|op: TextOp| op@) == spec_desc_ops(m, text@).take(i as int),
        decreases count - i,
    {
        proof {
            assert((i as int) * (lh as int) <= (MAX_TEXT_LEN as int) * 15) by (nonlinear_arith)
                requires
                    0 <= i < MAX_TEXT_LEN,
                    0 < lh <= 15,
            ;
        }
        let op = TextOp {
            text: lines[i].to_owned(),
            x: BODY_X,
            y: DESCRIPTION_BASE_Y + (i as u32) * lh,
            scale_half: BODY_SCALE_HALF,
        };
        let ghost ops0 = ops@;
        ops.push(op);
        proof {
            lemma_map_op_views_push(ops0, op);
            assert(ops@.map_values(|op: TextOp| op@) =~= spec_desc_ops(m, text@).take(i + 1));
        }
        i = i + 1;
    }
    proof {
        assert(spec_desc_ops(m, text@).take(count as int) =~= spec_desc_ops(m, text@));
    }
    ops
}

/// Builds the resource value drawing commands (see `spec_res_ops`).
pub fn draw_resources(m: &FontMetrics, resources: &Vec<Resource>) -> (ops: Vec<TextOp>)
    requires
        resources@.len() <= MAX_RESOURCES,
    ensures
        ops@.map_values(|op: TextOp| op@) == spec_res_ops(m, resources@),
        forall|i: int|
            0 <= i < ops@.len() ==> (#[trigger] ops@[i])@.x < CARD_WIDTH && ops@[i]@.y
                == RESOURCE_TEXT_Y,
{
    let n = resources.len();
    let mut ops: Vec<TextOp> = Vec::new();
    if n == 0 {
        proof {
            assert(ops@.map_values(|op: TextOp| op@) =~= spec_res_ops(m, resources@));
        }
        return ops;
    }
    let x_start = resource_row_left(n);
    proof {
        assert(spec_resource_slot_width() == 36);
        assert(x_start + 20 * n == 152) by (nonlinear_arith)
            requires
                1 <= n <= 7,
                x_start == 150 - ((n as int) * 36 + ((n as int) - 1) * 4) / 2,
        ;
    }
    let mut idx: usize = 0;
    while idx < n
        invariant
            1 <= n == resources@.len() <= MAX_RESOURCES,
            idx <= n,
            x_start == spec_resource_row_left(n as int),
            x_start + 20 * n == 152,
            ops@.map_values(|op: TextOp| op@) == spec_res_ops(m, resources@).take(idx as int),
            forall|i: int|
                0 <= i < ops@.len() ==> (#[trigger] ops@[i])@.x < CARD_WIDTH && ops@[i]@.y
                    == RESOURCE_TEXT_Y,
        decreases n - idx,
    {
        proof {
            assert(x_start + (idx as int) * 40 + 12 < CARD_WIDTH) by (nonlinear_arith)
                requires
                    x_start + 20 * (n as int) == 152,
                    0 <= idx < n <= 7,
            ;
        }
        let x_left: u32 = x_start + (idx as u32) * 40;
        let text = resources[idx].text_value();
        proof {
            crate::skill::lemma_text_value_len(resources@[idx as int]);
        }
        let w: u64 = calc_line_width(m, text.as_str(), BODY_SCALE_HALF);
        let limit: u64 = (x_left + RESOURCE_TEXT_WIDTH) as u64;
        let x: u32 = if w <= limit {
            (limit - w) as u32
        } else {
            0
        };
        let op = TextOp { text, x, y: RESOURCE_TEXT_Y, scale_half: BODY_SCALE_HALF };
        let ghost ops0 = ops@;
        ops.push(op);
        proof {
            lemma_map_op_views_push(ops0, op);
            assert(op@.x == spec_resource_text_x(
                m,
                resources@[idx as int],
                idx as int,
                n as int,
            ) as u32);
            assert(ops@.map_values(|op: TextOp| op@) =~= spec_res_ops(m, resources@).take(
                idx + 1,
            ));
        }
        idx = idx + 1;
    }
    proof {
        assert(spec_res_ops(m, resources@).take(n as int) =~= spec_res_ops(m, resources@));
    }
    ops
}


/// The pre-loaded image layers one card needs: the skill art, the textbox
/// frame overlay, the profession badge (or the generic icon for the
/// profession-less case), and one icon per resource cost, in resource
/// order.
pub struct CardAssets {
    pub art: Canvas,
    pub frame: Canvas,
    pub badge: Canvas,
    pub resource_icons: Vec<Canvas>,
}

impl CardAssets {
    /// The layers are well-formed pixel buffers, and the two resized ones
    /// are nonempty.
    pub open spec fn wf(&self) -> bool {
        &&& self.art.wf()
        &&& self.art.spec_width() > 0
        &&& self.art.spec_height() > 0
        &&& self.frame.wf()
        &&& self.badge.wf()
        &&& self.badge.spec_width() > 0
        &&& self.badge.spec_height() > 0
        &&& forall|i: int|
            0 <= i < self.resource_icons@.len() ==> (#[trigger] self.resource_icons@[i]).wf()
    }
}

/// One fully composited card: the pixel layers, and the text drawing
/// commands to burn in on top of them.
pub struct CardRender {
    pub canvas: Canvas,
    pub text_ops: Vec<TextOp>,
}

/// The card pixel after the background and the resized skill art.
pub open spec fn spec_art_stage(is_elite: bool, assets: &CardAssets, x: int, y: int) -> Rgba {
    let bg = spec_bg_color(is_elite);
    if x < ART_SIZE && y < ART_SIZE {
        blend_pixel(
            bg,
            assets.art.pixel(
                x * assets.art.spec_width() / ART_SIZE as int,
                y * assets.art.spec_height() / ART_SIZE as int,
            ),
            100,
        )
    } else {
        bg
    }
}

/// The card pixel after the textbox frame overlay.
pub open spec fn spec_frame_stage(is_elite: bool, assets: &CardAssets, x: int, y: int) -> Rgba {
    let prev = spec_art_stage(is_elite, assets, x, y);
    if x < assets.frame.spec_width() && y < assets.frame.spec_height() {
        blend_pixel(prev, assets.frame.pixel(x, y), 100)
    } else {
        prev
    }
}

/// The card pixel after the profession badge watermark.
pub open spec fn spec_badge_stage(is_elite: bool, assets: &CardAssets, x: int, y: int) -> Rgba {
    let prev = spec_frame_stage(is_elite, assets, x, y);
    if 95 <= x < 205 && 313 <= y < 423 {
        blend_pixel(
            prev,
            assets.badge.pixel(
                (x - 95) * assets.badge.spec_width() / BADGE_SIZE as int,
                (y - 313) * assets.badge.spec_height() / BADGE_SIZE as int,
            ),
            20,
        )
    } else {
        prev
    }
}

/// The finished card pixel: every layer of the card, in order, at `(x, y)`.
pub open spec fn spec_card_pixel(is_elite: bool, assets: &CardAssets, x: int, y: int) -> Rgba {
    spec_icons_pixel(
        spec_badge_stage(is_elite, assets, x, y),
        assets.resource_icons@,
        assets.resource_icons@.len() as int,
        assets.resource_icons@.len() as int,
        x,
        y,
    )
}

/// All text drawing commands of a card, in drawing order: title, type
/// line, description lines, resource values.
pub open spec fn spec_card_text_ops(m: &FontMetrics, sv: crate::skill::SkillView) -> Seq<
    TextOpView,
>
    recommends
        spec_title_op(m, sv.name) is Some,
        spec_type_line_op(m, spec_type_line(sv)) is Some,
{
    seq![spec_title_op(m, sv.name)->0, spec_type_line_op(m, spec_type_line(sv))->0] + spec_desc_ops(
        m,
        sv.description,
    ) + spec_res_ops(m, sv.resources)
}

/// Composites one card: the solid background, the resized art, the frame,
/// the badge watermark and the resource icon row, plus the drawing
/// commands for all of its text.  Fails with `LayoutImpossible` exactly
/// when the title or the type line cannot be shrunk to fit.
pub fn compose_card(skill: &Skill, assets: &CardAssets, m: &FontMetrics) -> (r: Result<
    CardRender,
    RenderError,
>)
    requires
        assets.wf(),
        assets.resource_icons@.len() == skill@.resources.len(),
        skill@.resources.len() <= MAX_RESOURCES,
        skill@.name.len() <= MAX_TEXT_LEN,
        skill@.description.len() <= MAX_TEXT_LEN,
        spec_type_line(skill@).len() <= MAX_TEXT_LEN,
    ensures
        r is Ok <==> (spec_title_op(m, skill@.name) is Some && spec_type_line_op(
            m,
            spec_type_line(skill@),
        ) is Some),
        match r {
            Ok(render) => {
                &&& render.canvas.wf()
                &&& render.canvas.spec_width() == CARD_WIDTH
                &&& render.canvas.spec_height() == CARD_HEIGHT
                &&& forall|x: int, y: int|
                    0 <= x < CARD_WIDTH && 0 <= y < CARD_HEIGHT ==> render.canvas.pixel(x, y)
                        == spec_card_pixel(skill@.is_elite, assets, x, y)
                &&& render.text_ops@.map_values(|op: TextOp| op@) == spec_card_text_ops(m, skill@)
            },
            Err(e) => e == RenderError::LayoutImpossible,
        },
{
    let mut canvas = gen_background(skill.is_elite);
    let ghost c0 = canvas;
    add_skill_image(&mut canvas, &assets.art);
    let ghost c1 = canvas;
    add_textboxes(&mut canvas, &assets.frame);
    let ghost c2 = canvas;
    add_profession_icon(&mut canvas, &assets.badge);
    let ghost c3 = canvas;
    add_resource_icons(&mut canvas, &assets.resource_icons);
    proof {
        assert forall|x: int, y: int|
            0 <= x < CARD_WIDTH && 0 <= y < CARD_HEIGHT implies canvas.pixel(x, y)
            == spec_card_pixel(skill@.is_elite, assets, x, y) by {
            assert(c1.pixel(x, y) == spec_art_stage(skill@.is_elite, assets, x, y));
            assert(c2.pixel(x, y) == spec_frame_stage(skill@.is_elite, assets, x, y));
            assert(c3.pixel(x, y) == spec_badge_stage(skill@.is_elite, assets, x, y));
        }
    }
    let title_op = match draw_title(m, skill.name.as_str()) {
        Ok(op) => op,
        Err(e) => {
            return Err(e);
        },
    };
    let type_line = skill.type_line();
    let type_op = match draw_type_line(m, type_line.as_str()) {
        Ok(op) => op,
        Err(e) => {
            return Err(e);
        },
    };
    let mut desc_ops = draw_description(m, skill.description.as_str());
    let mut res_ops = draw_resources(m, &skill.resources);
    let ghost desc_views = desc_ops@.map_values(|op: TextOp| op@);
    let ghost res_views = res_ops@.map_values(|op: TextOp| op@);
    let mut ops: Vec<TextOp> = Vec::new();
    ops.push(title_op);
    ops.push(type_op);
    ops.append(&mut desc_ops);
    ops.append(&mut res_ops);
    proof {
        assert(ops@.map_values(|op: TextOp| op@) =~= seq![title_op@, type_op@] + desc_views
            + res_views);
        assert(seq![title_op@, type_op@] + desc_views + res_views =~= spec_card_text_ops(
            m,
            skill@,
        ));
    }
    Ok(CardRender { canvas, text_ops: ops })
}

/// Whether a card must be rendered at all: a card whose output file
/// already exists is left alone, so rendering the same card twice writes
/// it only once.
pub fn needs_render(output_exists: bool) -> (r: bool)
    ensures
        r == !output_exists,
{
    !output_exists
}

} // verus!
