//! An owned rectangular RGBA8 pixel buffer and the alpha-blend operations
//! that composite image layers onto it.  Every write is proved to stay
//! inside the buffer's bounds, and every operation carries a per-pixel
//! functional contract.

use vstd::arithmetic::div_mod::lemma_multiply_divide_lt;
use vstd::prelude::*;

verus! {

/// Largest width or height a canvas may have.  Keeps all pixel-index
/// arithmetic comfortably inside `u32`/`usize` ranges.
pub const MAX_DIM: u32 = 4096;

/// One RGBA pixel, 8 bits per channel.
#[derive(Clone, Copy, PartialEq, Eq, Structural, Debug)]
pub struct Rgba {
    pub r: u8,
    pub g: u8,
    pub b: u8,
    pub a: u8,
}

/// A named reference point against which a layer is positioned on a
/// destination canvas before the integer pixel offset is applied.
#[derive(Clone, Copy, PartialEq, Eq, Structural, Debug)]
pub enum Anchor {
    TopLeft,
    BottomCenter,
}

impl Anchor {
    /// The top-left corner (possibly outside the destination) at which a
    /// `src_w` x `src_h` layer lands on a `dest_w` x `dest_h` canvas, after
    /// the `(off_x, off_y)` pixel offset.
    pub open spec fn spec_origin(
        self,
        dest_w: int,
        dest_h: int,
        src_w: int,
        src_h: int,
        off_x: int,
        off_y: int,
    ) -> (int, int) {
        match self {
            Anchor::TopLeft => (off_x, off_y),
            Anchor::BottomCenter => ((dest_w - src_w) / 2 + off_x, dest_h - src_h + off_y),
        }
    }
}

/// One channel of a normal alpha blend: source weighted by the effective
/// alpha `ea`, destination by its remainder, in 1/255 units.
pub open spec fn blend_channel(d: int, s: int, ea: int) -> int {
    (s * ea + d * (255 - ea)) / 255
}

/// Normal alpha blend of source pixel `s` over destination pixel `d` at a
/// layer opacity of `opacity` percent.  The effective alpha is the source
/// alpha scaled by the opacity; the result's alpha moves toward opaque by
/// the same weight.
pub open spec fn blend_pixel(d: Rgba, s: Rgba, opacity: int) -> Rgba {
    let ea = (s.a * opacity) / 100;
    Rgba {
        r: blend_channel(d.r as int, s.r as int, ea) as u8,
        g: blend_channel(d.g as int, s.g as int, ea) as u8,
        b: blend_channel(d.b as int, s.b as int, ea) as u8,
        a: blend_channel(d.a as int, 255, ea) as u8,
    }
}

/// A blended channel of 8-bit inputs stays within 8 bits.
pub proof fn lemma_blend_channel_bound(d: int, s: int, ea: int)
    requires
        0 <= d < 256,
        0 <= s < 256,
        0 <= ea < 256,
    ensures
        0 <= blend_channel(d, s, ea) < 256,
{
    assert(0 <= s * ea + d * (255 - ea) <= 255 * 255) by (nonlinear_arith)
        requires
            0 <= d < 256,
            0 <= s < 256,
            0 <= ea < 256,
    ;
}

/// An owned width x height RGBA8 pixel buffer, origin top-left, row-major.
pub struct Canvas {
    width: u32,
    height: u32,
    bytes: Vec<u8>,
}

/// The pixel that a raw row-major RGBA8 byte sequence of row width `width`
/// holds at column `x`, row `y`.
pub open spec fn raw_pixel(bytes: Seq<u8>, width: int, x: int, y: int) -> Rgba {
    let i = 4 * (y * width + x);
    Rgba { r: bytes[i], g: bytes[i + 1], b: bytes[i + 2], a: bytes[i + 3] }
}

impl Canvas {
    /// The buffer holds exactly 4 bytes per pixel and the dimensions are
    /// within `MAX_DIM`.
    pub closed spec fn wf(self) -> bool {
        &&& self.bytes@.len() == 4 * (self.width * self.height)
        &&& self.width <= MAX_DIM
        &&& self.height <= MAX_DIM
    }

    pub closed spec fn spec_width(&self) -> u32 {
        self.width
    }

    pub closed spec fn spec_height(&self) -> u32 {
        self.height
    }

    /// The pixel at column `x`, row `y`.
    pub closed spec fn pixel(self, x: int, y: int) -> Rgba {
        let i = 4 * (y * self.width + x);
        Rgba {
            r: self.bytes@[i],
            g: self.bytes@[i + 1],
            b: self.bytes@[i + 2],
            a: self.bytes@[i + 3],
        }
    }

    #[verifier::when_used_as_spec(spec_width)]
    pub fn width(&self) -> (w: u32)
        ensures
            w == self.spec_width(),
    {
        self.width
    }

    #[verifier::when_used_as_spec(spec_height)]
    pub fn height(&self) -> (h: u32)
        ensures
            h == self.spec_height(),
    {
        self.height
    }

    /// A canvas filled with one color.
    pub fn solid(width: u32, height: u32, color: Rgba) -> (c: Canvas)
        requires
            width <= MAX_DIM,
            height <= MAX_DIM,
        ensures
            c.wf(),
            c.spec_width() == width,
            c.spec_height() == height,
            forall|x: int, y: int|
                0 <= x < width && 0 <= y < height ==> c.pixel(x, y) == color,
    {
        proof {
            assert(width * height <= 0x1000000) by (nonlinear_arith)
                requires
                    width <= MAX_DIM,
                    height <= MAX_DIM,
            ;
        }
        let wh: usize = (width as usize) * (height as usize);
        let mut bytes: Vec<u8> = Vec::with_capacity(4 * wh);
        let mut i: usize = 0;
        while i < wh
            invariant
                wh == width * height,
                wh <= 0x1000000,
                i <= wh,
                bytes@.len() == 4 * i,
                forall|j: int|
                    0 <= j < i ==> bytes@[#[trigger] (4 * j)] == color.r && bytes@[4 * j + 1]
                        == color.g && bytes@[4 * j + 2] == color.b && bytes@[4 * j + 3] == color.a,
            decreases wh - i,
        {
            bytes.push(color.r);
            bytes.push(color.g);
            bytes.push(color.b);
            bytes.push(color.a);
            i = i + 1;
        }
        let c = Canvas { width, height, bytes };
        assert forall|x: int, y: int|
            0 <= x < width && 0 <= y < height implies c.pixel(x, y) == color by {
            let j = y * width + x;
            assert(0 <= j < width * height) by (nonlinear_arith)
                requires
                    0 <= x < width,
                    0 <= y < height,
                    j == y * width + x,
            ;
            assert(bytes@[4 * j] == color.r && bytes@[4 * j + 1] == color.g && bytes@[4 * j + 2]
                == color.b && bytes@[4 * j + 3] == color.a);
        }
        c
    }

    /// Wraps a raw row-major RGBA8 byte buffer as a canvas, if its length
    /// matches the given dimensions.
    pub fn from_raw(width: u32, height: u32, bytes: Vec<u8>) -> (r: Option<Canvas>)
        ensures
            r is Some <==> (bytes@.len() == 4 * (width * height) && width <= MAX_DIM && height
                <= MAX_DIM),
            r is Some ==> {
                let c = r->Some_0;
                &&& c.wf()
                &&& c.spec_width() == width
                &&& c.spec_height() == height
                &&& forall|x: int, y: int|
                    0 <= x < width && 0 <= y < height ==> c.pixel(x, y) == raw_pixel(
                        bytes@,
                        width as int,
                        x,
                        y,
                    )
            },
    {
        if width <= MAX_DIM && height <= MAX_DIM {
            proof {
                assert(width * height <= 0x1000000) by (nonlinear_arith)
                    requires
                        width <= MAX_DIM,
                        height <= MAX_DIM,
                ;
            }
            if bytes.len() == 4 * ((width as usize) * (height as usize)) {
                Some(Canvas { width, height, bytes })
            } else {
                None
            }
        } else {
            None
        }
    }

    /// Hands the raw row-major RGBA8 bytes back out.
    pub fn into_bytes(self) -> (r: Vec<u8>)
        requires
            self.wf(),
        ensures
            r@.len() == 4 * (self.spec_width() * self.spec_height()),
            forall|x: int, y: int|
                0 <= x < self.spec_width() && 0 <= y < self.spec_height() ==> self.pixel(x, y)
                    == raw_pixel(r@, self.spec_width() as int, x, y),
    {
        self.bytes
    }

    /// Reads one pixel.
    pub fn get_pixel(&self, x: u32, y: u32) -> (p: Rgba)
        requires
            self.wf(),
            x < self.spec_width(),
            y < self.spec_height(),
        ensures
            p == self.pixel(x as int, y as int),
    {
        proof {
            assert(y * self.width + x < 0x1000000 && y * self.width + x < self.width
                * self.height) by (nonlinear_arith)
                requires
                    x < self.width,
                    y < self.height,
                    self.width <= MAX_DIM,
                    self.height <= MAX_DIM,
            ;
        }
        let i: usize = 4 * ((y as usize) * (self.width as usize) + (x as usize));
        Rgba {
            r: self.bytes[i],
            g: self.bytes[i + 1],
            b: self.bytes[i + 2],
            a: self.bytes[i + 3],
        }
    }

    /// Writes one pixel, leaving every other pixel as it was.
    fn set_pixel(&mut self, x: u32, y: u32, p: Rgba)
        requires
            old(self).wf(),
            x < old(self).spec_width(),
            y < old(self).spec_height(),
        ensures
            final(self).wf(),
            final(self).spec_width() == old(self).spec_width(),
            final(self).spec_height() == old(self).spec_height(),
            final(self).pixel(x as int, y as int) == p,
            forall|x2: int, y2: int|
                0 <= x2 < old(self).spec_width() && 0 <= y2 < old(self).spec_height() && !(x2 == x
                    && y2 == y) ==> final(self).pixel(x2, y2) == old(self).pixel(x2, y2),
    {
        proof {
            assert(y * self.width + x < 0x1000000 && y * self.width + x < self.width
                * self.height) by (nonlinear_arith)
                requires
                    x < self.width,
                    y < self.height,
                    self.width <= MAX_DIM,
                    self.height <= MAX_DIM,
            ;
        }
        let i: usize = 4 * ((y as usize) * (self.width as usize) + (x as usize));
        self.bytes[i] = p.r;
        self.bytes[i + 1] = p.g;
        self.bytes[i + 2] = p.b;
        self.bytes[i + 3] = p.a;
        proof {
            assert forall|x2: int, y2: int|
                0 <= x2 < self.width && 0 <= y2 < self.height && !(x2 == x && y2 == y) implies
                self.pixel(x2, y2) == old(self).pixel(x2, y2) by {
                let j2 = y2 * self.width + x2;
                assert(0 <= j2 < self.width * self.height) by (nonlinear_arith)
                    requires
                        0 <= x2 < self.width,
                        0 <= y2 < self.height,
                        j2 == y2 * self.width + x2,
                ;
                lemma_pixel_index_injective(
                    self.width as int,
                    self.height as int,
                    x2,
                    y2,
                    x as int,
                    y as int,
                );
            }
        }
    }

    /// The result of blending `src` onto `dest` (anchored, offset, at a
    /// percent opacity) at pixel `(x, y)` of the destination: blended where
    /// the layer overlaps, untouched elsewhere.  Out-of-bounds layer parts
    /// are clipped by the overlap test itself.
    pub open spec fn spec_blend_at(
        dest: Canvas,
        src: Canvas,
        anchor: Anchor,
        off_x: int,
        off_y: int,
        opacity: int,
        x: int,
        y: int,
    ) -> Rgba {
        let (ox, oy) = anchor.spec_origin(
            dest.spec_width() as int,
            dest.spec_height() as int,
            src.spec_width() as int,
            src.spec_height() as int,
            off_x,
            off_y,
        );
        if ox <= x < ox + src.spec_width() && oy <= y < oy + src.spec_height() {
            blend_pixel(dest.pixel(x, y), src.pixel(x - ox, y - oy), opacity)
        } else {
            dest.pixel(x, y)
        }
    }

    /// Alpha-blends the layer `src` onto this canvas.  The layer is placed
    /// by `anchor` and then shifted by `(off_x, off_y)`; parts that fall
    /// outside the canvas are clipped, so no write ever leaves the buffer.
    pub fn blend(&mut self, src: &Canvas, anchor: Anchor, off_x: i32, off_y: i32, opacity: u8)
        requires
            old(self).wf(),
            src.wf(),
            opacity <= 100,
        ensures
            final(self).wf(),
            final(self).spec_width() == old(self).spec_width(),
            final(self).spec_height() == old(self).spec_height(),
            forall|x: int, y: int|
                0 <= x < old(self).spec_width() && 0 <= y < old(self).spec_height()
                    ==> final(self).pixel(x, y) == Canvas::spec_blend_at(
                    *old(self),
                    *src,
                    anchor,
                    off_x as int,
                    off_y as int,
                    opacity as int,
                    x,
                    y,
                ),
    {
        let dw: i64 = self.width as i64;
        let dh: i64 = self.height as i64;
        let sw: i64 = src.width as i64;
        let sh: i64 = src.height as i64;
        let (ox, oy): (i64, i64) = match anchor {
            Anchor::TopLeft => (off_x as i64, off_y as i64),
            Anchor::BottomCenter => {
                let centered: i64 = if dw >= sw {
                    (dw - sw) / 2
                } else {
                    -((sw - dw + 1) / 2)
                };
                (centered + off_x as i64, dh - sh + off_y as i64)
            },
        };
        let ghost dest0 = *self;
        let x0: i64 = if ox > 0 {
            ox
        } else {
            0
        };
        let y0: i64 = if oy > 0 {
            oy
        } else {
            0
        };
        let x1: i64 = if ox + sw < dw {
            ox + sw
        } else {
            dw
        };
        let y1: i64 = if oy + sh < dh {
            oy + sh
        } else {
            dh
        };
        if x0 >= x1 || y0 >= y1 {
            return ;
        }
        let mut y: i64 = y0;
        while y < y1
            invariant
                self.wf(),
                self.spec_width() == dest0.spec_width(),
                self.spec_height() == dest0.spec_height(),
                dest0.wf(),
                src.wf(),
                opacity <= 100,
                dw == dest0.spec_width() as int,
                dh == dest0.spec_height() as int,
                sw == src.spec_width() as int,
                sh == src.spec_height() as int,
                (ox as int, oy as int) == anchor.spec_origin(
                    dw as int,
                    dh as int,
                    sw as int,
                    sh as int,
                    off_x as int,
                    off_y as int,
                ),
                x0 == if ox > 0 { ox } else { 0 },
                y0 == if oy > 0 { oy } else { 0 },
                x1 == if ox + sw < dw { (ox + sw) as int } else { dw as int },
                y1 == if oy + sh < dh { (oy + sh) as int } else { dh as int },
                x0 < x1,
                y0 <= y <= y1,
                forall|px: int, py: int|
                    0 <= px < dw && 0 <= py < dh ==> #[trigger] self.pixel(px, py) == (if y0 <= py
                        < y && x0 <= px < x1 {
                        Canvas::spec_blend_at(
                            dest0,
                            *src,
                            anchor,
                            off_x as int,
                            off_y as int,
                            opacity as int,
                            px,
                            py,
                        )
                    } else {
                        dest0.pixel(px, py)
                    }),
            decreases y1 - y,
        {
            let mut x: i64 = x0;
            while x < x1
                invariant
                    self.wf(),
                    self.spec_width() == dest0.spec_width(),
                    self.spec_height() == dest0.spec_height(),
                    dest0.wf(),
                    src.wf(),
                    opacity <= 100,
                    dw == dest0.spec_width() as int,
                    dh == dest0.spec_height() as int,
                    sw == src.spec_width() as int,
                    sh == src.spec_height() as int,
                    (ox as int, oy as int) == anchor.spec_origin(
                        dw as int,
                        dh as int,
                        sw as int,
                        sh as int,
                        off_x as int,
                        off_y as int,
                    ),
                    x0 == if ox > 0 { ox } else { 0 },
                    y0 == if oy > 0 { oy } else { 0 },
                    x1 == if ox + sw < dw { (ox + sw) as int } else { dw as int },
                    y1 == if oy + sh < dh { (oy + sh) as int } else { dh as int },
                    x0 <= x <= x1,
                    y0 <= y < y1,
                    forall|px: int, py: int|
                        0 <= px < dw && 0 <= py < dh ==> #[trigger] self.pixel(px, py) == (if (y0
                            <= py < y && x0 <= px < x1) || (py == y && x0 <= px < x) {
                            Canvas::spec_blend_at(
                                dest0,
                                *src,
                                anchor,
                                off_x as int,
                                off_y as int,
                                opacity as int,
                                px,
                                py,
                            )
                        } else {
                            dest0.pixel(px, py)
                        }),
                decreases x1 - x,
            {
                let sp = src.get_pixel((x - ox) as u32, (y - oy) as u32);
                let dp = self.get_pixel(x as u32, y as u32);
                proof {
                    assert(0 <= (sp.a as int) * (opacity as int) <= 25500) by (nonlinear_arith)
                        requires
                            sp.a < 256,
                            opacity <= 100,
                    ;
                }
                let ea: u32 = (sp.a as u32) * (opacity as u32) / 100;
                proof {
                    assert(ea <= 255);
                    assert(0 <= (sp.r as int) * (ea as int) <= 65025 && 0 <= (sp.g as int) * (
                    ea as int) <= 65025 && 0 <= (sp.b as int) * (ea as int) <= 65025 && 0 <= (
                    dp.r as int) * (255 - ea as int) <= 65025 && 0 <= (dp.g as int) * (255
                        - ea as int) <= 65025 && 0 <= (dp.b as int) * (255 - ea as int) <= 65025
                        && 0 <= (dp.a as int) * (255 - ea as int) <= 65025) by (nonlinear_arith)
                        requires
                            sp.r < 256,
                            sp.g < 256,
                            sp.b < 256,
                            dp.r < 256,
                            dp.g < 256,
                            dp.b < 256,
                            dp.a < 256,
                            0 <= ea <= 255,
                    ;
                    lemma_blend_channel_bound(dp.r as int, sp.r as int, ea as int);
                    lemma_blend_channel_bound(dp.g as int, sp.g as int, ea as int);
                    lemma_blend_channel_bound(dp.b as int, sp.b as int, ea as int);
                    lemma_blend_channel_bound(dp.a as int, 255, ea as int);
                }
                let np = Rgba {
                    r: (((sp.r as u32) * ea + (dp.r as u32) * (255 - ea)) / 255) as u8,
                    g: (((sp.g as u32) * ea + (dp.g as u32) * (255 - ea)) / 255) as u8,
                    b: (((sp.b as u32) * ea + (dp.b as u32) * (255 - ea)) / 255) as u8,
                    a: ((255u32 * ea + (dp.a as u32) * (255 - ea)) / 255) as u8,
                };
                self.set_pixel(x as u32, y as u32, np);
                x = x + 1;
            }
            y = y + 1;
        }
    }

    /// Resamples this canvas to exactly `new_w` x `new_h` pixels by
    /// nearest-neighbor lookup: output pixel `(x, y)` copies input pixel
    /// `(x * w / new_w, y * h / new_h)`.
    pub fn resize_nearest(&self, new_w: u32, new_h: u32) -> (c: Canvas)
        requires
            self.wf(),
            self.spec_width() > 0,
            self.spec_height() > 0,
            0 < new_w <= MAX_DIM,
            0 < new_h <= MAX_DIM,
        ensures
            c.wf(),
            c.spec_width() == new_w,
            c.spec_height() == new_h,
            forall|x: int, y: int|
                0 <= x < new_w && 0 <= y < new_h ==> c.pixel(x, y) == self.pixel(
                    x * self.spec_width() / new_w as int,
                    y * self.spec_height() / new_h as int,
                ),
    {
        proof {
            assert(new_w * new_h <= 0x1000000) by (nonlinear_arith)
                requires
                    new_w <= MAX_DIM,
                    new_h <= MAX_DIM,
            ;
        }
        let wh: usize = (new_w as usize) * (new_h as usize);
        let mut bytes: Vec<u8> = Vec::with_capacity(4 * wh);
        let mut y: u32 = 0;
        while y < new_h
            invariant
                self.wf(),
                self.spec_width() > 0,
                self.spec_height() > 0,
                0 < new_w <= MAX_DIM,
                0 < new_h <= MAX_DIM,
                y <= new_h,
                bytes@.len() == 4 * (y * new_w),
                forall|px: int, py: int|
                    0 <= px < new_w && 0 <= py < y ==> #[trigger] raw_pixel(
                        bytes@,
                        new_w as int,
                        px,
                        py,
                    ) == self.pixel(
                        px * self.spec_width() / new_w as int,
                        py * self.spec_height() / new_h as int,
                    ),
            decreases new_h - y,
        {
            let mut x: u32 = 0;
            while x < new_w
                invariant
                    self.wf(),
                    self.spec_width() > 0,
                    self.spec_height() > 0,
                    0 < new_w <= MAX_DIM,
                    0 < new_h <= MAX_DIM,
                    y < new_h,
                    x <= new_w,
                    bytes@.len() == 4 * (y * new_w + x),
                    forall|px: int, py: int|
                        0 <= px < new_w && (0 <= py < y || (py == y && 0 <= px < x))
                            ==> #[trigger] raw_pixel(bytes@, new_w as int, px, py) == self.pixel(
                            px * self.spec_width() / new_w as int,
                            py * self.spec_height() / new_h as int,
                        ),
                decreases new_w - x,
            {
                proof {
                    assert((x as int) * self.spec_width() < (new_w as int) * self.spec_width()
                        && (y as int) * self.spec_height() < (new_h as int) * self.spec_height()
                        && 0 <= (x as int) * self.spec_width() <= 0x1000000 && 0 <= (y as int)
                        * self.spec_height() <= 0x1000000) by (nonlinear_arith)
                        requires
                            x < new_w,
                            y < new_h,
                            0 < self.spec_width() <= MAX_DIM,
                            0 < self.spec_height() <= MAX_DIM,
                            new_w <= MAX_DIM,
                            new_h <= MAX_DIM,
                    ;
                    lemma_multiply_divide_lt(
                        (x as int) * self.spec_width(),
                        new_w as int,
                        self.spec_width() as int,
                    );
                    lemma_multiply_divide_lt(
                        (y as int) * self.spec_height(),
                        new_h as int,
                        self.spec_height() as int,
                    );
                }
                let sx: u32 = ((x as u64) * (self.width as u64) / (new_w as u64)) as u32;
                let sy: u32 = ((y as u64) * (self.height as u64) / (new_h as u64)) as u32;
                let p = self.get_pixel(sx, sy);
                let ghost bytes0 = bytes@;
                bytes.push(p.r);
                bytes.push(p.g);
                bytes.push(p.b);
                bytes.push(p.a);
                proof {
                    assert forall|px: int, py: int|
                        0 <= px < new_w && (0 <= py < y || (py == y && 0 <= px < x + 1)) implies
                        #[trigger] raw_pixel(bytes@, new_w as int, px, py) == self.pixel(
                            px * self.spec_width() / new_w as int,
                            py * self.spec_height() / new_h as int,
                        ) by {
                        let j = py * new_w + px;
                        let jc = (y as int) * new_w + x;
                        assert(((py < y || px < x) ==> 0 <= j < jc) && ((py == y && px == x) ==> j
                            == jc) && 0 <= j) by (nonlinear_arith)
                            requires
                                0 <= px < new_w,
                                0 <= py <= y,
                                x < new_w,
                                j == py * new_w + px,
                                jc == (y as int) * new_w + x,
                        ;
                        if py == y && px == x {
                            assert(bytes@[4 * j] == p.r && bytes@[4 * j + 1] == p.g && bytes@[4 * j
                                + 2] == p.b && bytes@[4 * j + 3] == p.a);
                        } else {
                            assert(raw_pixel(bytes0, new_w as int, px, py) == self.pixel(
                                px * self.spec_width() / new_w as int,
                                py * self.spec_height() / new_h as int,
                            ));
                            assert(bytes@[4 * j] == bytes0[4 * j] && bytes@[4 * j + 1] == bytes0[4
                                * j + 1] && bytes@[4 * j + 2] == bytes0[4 * j + 2] && bytes@[4 * j
                                + 3] == bytes0[4 * j + 3]);
                        }
                    }
                }
                x = x + 1;
            }
            proof {
                assert((y + 1) * new_w == y * new_w + new_w) by (nonlinear_arith);
            }
            y = y + 1;
        }
        proof {
            assert(new_h * new_w == new_w * new_h) by (nonlinear_arith);
        }
        let c = Canvas { width: new_w, height: new_h, bytes };
        proof {
            assert forall|x: int, y: int|
                0 <= x < new_w && 0 <= y < new_h implies c.pixel(x, y) == self.pixel(
                    x * self.spec_width() / new_w as int,
                    y * self.spec_height() / new_h as int,
                ) by {
                assert(raw_pixel(c.bytes@, new_w as int, x, y) == self.pixel(
                    x * self.spec_width() / new_w as int,
                    y * self.spec_height() / new_h as int,
                ));
            }
        }
        c
    }
}

/// Two distinct pixel coordinates of one canvas never share a byte index.
proof fn lemma_pixel_index_injective(w: int, h: int, x1: int, y1: int, x2: int, y2: int)
    requires
        0 <= x1 < w,
        0 <= y1 < h,
        0 <= x2 < w,
        0 <= y2 < h,
        !(x1 == x2 && y1 == y2),
    ensures
        y1 * w + x1 != y2 * w + x2,
{
    assert(y1 * w + x1 != y2 * w + x2) by (nonlinear_arith)
        requires
            0 <= x1 < w,
            0 <= y1 < h,
            0 <= x2 < w,
            0 <= y2 < h,
            !(x1 == x2 && y1 == y2),
    ;
}

} // verus!
