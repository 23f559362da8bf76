//! The pixel buffer: construction, blending, clipping and resizing.

use skill_cards::canvas::{Anchor, Canvas, Rgba};

const RED: Rgba = Rgba { r: 255, g: 0, b: 0, a: 255 };
const BLUE: Rgba = Rgba { r: 0, g: 0, b: 255, a: 255 };
const WHITE: Rgba = Rgba { r: 255, g: 255, b: 255, a: 255 };

#[test]
fn solid_fills_every_pixel() {
    let c = Canvas::solid(4, 3, RED);
    assert_eq!(c.width(), 4);
    assert_eq!(c.height(), 3);
    for y in 0..3 {
        for x in 0..4 {
            assert_eq!(c.get_pixel(x, y), RED);
        }
    }
}

#[test]
fn from_raw_checks_length() {
    assert!(Canvas::from_raw(2, 2, vec![0u8; 16]).is_some());
    assert!(Canvas::from_raw(2, 2, vec![0u8; 15]).is_none());
    let c = Canvas::from_raw(2, 1, vec![1, 2, 3, 4, 5, 6, 7, 8]).unwrap();
    assert_eq!(c.get_pixel(0, 0), Rgba { r: 1, g: 2, b: 3, a: 4 });
    assert_eq!(c.get_pixel(1, 0), Rgba { r: 5, g: 6, b: 7, a: 8 });
    assert_eq!(c.into_bytes(), vec![1, 2, 3, 4, 5, 6, 7, 8]);
}

#[test]
fn opaque_blend_overwrites_the_overlap() {
    let mut dest = Canvas::solid(4, 4, WHITE);
    let layer = Canvas::solid(2, 2, BLUE);
    dest.blend(&layer, Anchor::TopLeft, 1, 1, 100);
    assert_eq!(dest.get_pixel(0, 0), WHITE);
    assert_eq!(dest.get_pixel(1, 1), BLUE);
    assert_eq!(dest.get_pixel(2, 2), BLUE);
    assert_eq!(dest.get_pixel(3, 3), WHITE);
    assert_eq!(dest.get_pixel(1, 3), WHITE);
}

#[test]
fn blend_clips_outside_the_canvas() {
    let mut dest = Canvas::solid(3, 3, WHITE);
    let layer = Canvas::solid(5, 5, BLUE);
    // A layer hanging over the edge writes only inside the canvas.
    dest.blend(&layer, Anchor::TopLeft, -2, -2, 100);
    assert_eq!(dest.get_pixel(0, 0), BLUE);
    assert_eq!(dest.get_pixel(2, 2), BLUE);
    let mut dest2 = Canvas::solid(3, 3, WHITE);
    dest2.blend(&layer, Anchor::TopLeft, 5, 5, 100);
    for y in 0..3 {
        for x in 0..3 {
            assert_eq!(dest2.get_pixel(x, y), WHITE);
        }
    }
}

#[test]
fn partial_opacity_blend_mixes_channels() {
    let mut dest = Canvas::solid(1, 1, Rgba { r: 100, g: 100, b: 100, a: 255 });
    let layer = Canvas::solid(1, 1, Rgba { r: 200, g: 0, b: 100, a: 255 });
    dest.blend(&layer, Anchor::TopLeft, 0, 0, 20);
    // Effective alpha: 255 * 20 / 100 = 51.
    // red: (200*51 + 100*204) / 255 = 120; green: (0*51 + 100*204) / 255 = 80.
    let p = dest.get_pixel(0, 0);
    assert_eq!(p, Rgba { r: 120, g: 80, b: 100, a: 255 });
}

#[test]
fn transparent_source_pixels_leave_the_destination() {
    let mut dest = Canvas::solid(1, 1, RED);
    let layer = Canvas::solid(1, 1, Rgba { r: 9, g: 9, b: 9, a: 0 });
    dest.blend(&layer, Anchor::TopLeft, 0, 0, 100);
    assert_eq!(dest.get_pixel(0, 0), RED);
}

#[test]
fn bottom_center_anchor_places_the_layer() {
    let mut dest = Canvas::solid(10, 10, WHITE);
    let layer = Canvas::solid(4, 2, BLUE);
    // Bottom-center: x = (10 - 4) / 2 = 3, y = 10 - 2 = 8; then offset.
    dest.blend(&layer, Anchor::BottomCenter, 0, -1, 100);
    assert_eq!(dest.get_pixel(3, 7), BLUE);
    assert_eq!(dest.get_pixel(6, 8), BLUE);
    assert_eq!(dest.get_pixel(2, 7), WHITE);
    assert_eq!(dest.get_pixel(3, 9), WHITE);
}

#[test]
fn resize_nearest_scales_up_and_down() {
    // A 2x2 checkerboard enlarged to 4x4 repeats each source pixel twice.
    let bytes = vec![
        255, 0, 0, 255, 0, 0, 255, 255, //
        0, 0, 255, 255, 255, 0, 0, 255,
    ];
    let c = Canvas::from_raw(2, 2, bytes).unwrap();
    let big = c.resize_nearest(4, 4);
    assert_eq!(big.width(), 4);
    assert_eq!(big.height(), 4);
    assert_eq!(big.get_pixel(0, 0), RED);
    assert_eq!(big.get_pixel(1, 1), RED);
    assert_eq!(big.get_pixel(2, 0), BLUE);
    assert_eq!(big.get_pixel(0, 2), BLUE);
    assert_eq!(big.get_pixel(3, 3), RED);
    let small = big.resize_nearest(2, 2);
    assert_eq!(small.get_pixel(0, 0), RED);
    assert_eq!(small.get_pixel(1, 0), BLUE);
}
