//! The card compositor: backgrounds, resource rows, text commands, and a
//! full card scenario.

use skill_cards::canvas::{Canvas, Rgba};
use skill_cards::card::{
    compose_card, draw_description, draw_resources, draw_title, gen_background, needs_render,
    resource_row_left, resource_row_width, CardAssets, CARD_HEIGHT, CARD_WIDTH,
};
use skill_cards::fit::calc_line_width;
use skill_cards::metrics::FontMetrics;
use skill_cards::skill::{Profession, Resource, Skill};

fn narrow_font() -> FontMetrics {
    // 150 milli-px per half-point: 3.9 px per character at 13 points.
    FontMetrics::new(Vec::new(), 150)
}

fn fireball(description: &str) -> Skill {
    Skill {
        icon_url: String::new(),
        name: "Fireball".to_string(),
        profession: Profession::Elementalist,
        attribute: Some("Fire Magic".to_string()),
        skill_type: "Spell".to_string(),
        description: description.to_string(),
        resources: vec![Resource::Energy(10)],
        is_quest_reward: false,
        campaign: "Core".to_string(),
        split_by_game_mode: None,
        is_pve_only: false,
        is_elite: false,
    }
}

fn fireball_assets() -> CardAssets {
    CardAssets {
        art: Canvas::solid(64, 64, Rgba { r: 200, g: 80, b: 0, a: 255 }),
        frame: Canvas::solid(CARD_WIDTH, CARD_HEIGHT, Rgba { r: 0, g: 0, b: 0, a: 0 }),
        badge: Canvas::solid(64, 64, Rgba { r: 120, g: 0, b: 0, a: 255 }),
        resource_icons: vec![Canvas::solid(20, 20, Rgba { r: 0, g: 0, b: 255, a: 255 })],
    }
}

#[test]
fn background_color_follows_elite_flag() {
    let normal = gen_background(false);
    assert_eq!(normal.width(), 300);
    assert_eq!(normal.height(), 432);
    assert_eq!(normal.get_pixel(150, 216), Rgba { r: 0, g: 0, b: 0, a: 255 });
    let elite = gen_background(true);
    assert_eq!(elite.get_pixel(0, 0), Rgba { r: 0xFC, g: 0xDF, b: 0x02, a: 255 });
}

#[test]
fn resource_row_geometry() {
    // Slot width 36 (icon 20 + text 12 + padding 4), gap 4.
    assert_eq!(resource_row_width(1), 36);
    assert_eq!(resource_row_left(1), 132);
    assert_eq!(resource_row_width(3), 116);
    assert_eq!(resource_row_left(3), 92);
    assert_eq!(resource_row_width(4), 156);
    assert_eq!(resource_row_left(4), 72);
}

#[test]
fn no_resources_draw_nothing() {
    let m = narrow_font();
    let ops = draw_resources(&m, &Vec::new());
    assert!(ops.is_empty());
}

#[test]
fn resource_value_is_right_aligned() {
    let m = narrow_font();
    let ops = draw_resources(&m, &vec![Resource::Energy(10)]);
    assert_eq!(ops.len(), 1);
    assert_eq!(ops[0].text, "10");
    // "10" is 2 * 150 * 26 / 1000 = 7 px wide; the 12 px text slot starts
    // at 132, so the right-aligned text starts at 132 + 12 - 7.
    assert_eq!(ops[0].x, 137);
    assert_eq!(ops[0].y, 305);
}

#[test]
fn three_resources_line_up_left_to_right() {
    let m = narrow_font();
    let costs = vec![Resource::Energy(10), Resource::Cast(4), Resource::Recharge(30)];
    let ops = draw_resources(&m, &costs);
    assert_eq!(ops.len(), 3);
    // The row of three starts at 92; each next slot is 40 px further, and
    // each value ends at its slot's 12 px text edge.
    assert_eq!(ops[0].text, "10");
    assert_eq!(ops[0].x, 92 + 12 - 7);
    assert_eq!(ops[1].text, "1");
    assert_eq!(ops[1].x, 92 + 40 + 12 - 3);
    assert_eq!(ops[2].text, "30");
    assert_eq!(ops[2].x, 92 + 80 + 12 - 7);
    assert!(ops.iter().all(|op| op.y == 305));
}

#[test]
fn title_is_centered_by_measured_width() {
    let m = narrow_font();
    let op = draw_title(&m, "Fireball").unwrap();
    // 8 chars * 150 * 50 = 60000 milli-px = 60 px at the full 25 points.
    assert_eq!(op.scale_half, 50);
    assert_eq!(op.x, 150 - 30);
    assert_eq!(op.y, 275);
    assert_eq!(op.text, "Fireball");
}

#[test]
fn description_line_height_depends_on_line_count() {
    let m = narrow_font();
    // One short line: 15 px line height from the base line 343.
    let ops = draw_description(&m, "Short text.");
    assert_eq!(ops.len(), 1);
    assert_eq!((ops[0].x, ops[0].y), (27, 343));
    // Six lines: the dense 12 px line height.
    let word = "word ".repeat(75);
    let ops = draw_description(&m, word.trim_end());
    assert!(ops.len() >= 6);
    assert_eq!(ops[1].y, 343 + 12);
}

#[test]
fn compose_card_renders_fireball() {
    // A non-elite skill with a 120-character description and one Energy
    // cost: the full card composites and lays out all its text.
    let m = narrow_font();
    let description = "Target foe is struck for searing fire damage, and all nearby foes \
                       are burned by the blasts of roaring flame for a while.";
    assert_eq!(description.chars().count(), 120);
    let skill = fireball(description);
    let assets = fireball_assets();
    let render = compose_card(&skill, &assets, &m).unwrap();

    assert_eq!(render.canvas.width(), 300);
    assert_eq!(render.canvas.height(), 432);
    // The art covers the top area (the frame layer here is transparent).
    assert_eq!(render.canvas.get_pixel(10, 10), Rgba { r: 200, g: 80, b: 0, a: 255 });
    // Below the art, outside badge and icon row, the black background shows.
    assert_eq!(render.canvas.get_pixel(10, 310), Rgba { r: 0, g: 0, b: 0, a: 255 });
    // The single resource icon sits at x 132 + 16 = 148, y 301.
    assert_eq!(render.canvas.get_pixel(150, 305), Rgba { r: 0, g: 0, b: 255, a: 255 });

    // Title, type line, description lines, one resource value.
    assert!(render.text_ops.len() >= 4);
    let title = &render.text_ops[0];
    assert_eq!(title.text, "Fireball");
    assert_eq!(title.y, 275);
    let type_line = &render.text_ops[1];
    assert_eq!(type_line.text, "Elementalist Spell (Fire Magic)");
    assert_eq!((type_line.x, type_line.y), (27, 324));
    let desc_lines = render.text_ops.len() - 3;
    assert!(2 <= desc_lines && desc_lines <= 3);
    let value = render.text_ops.last().unwrap();
    assert_eq!(value.text, "10");
    assert_eq!(value.y, 305);
    // Every command starts inside the canvas, and every description line
    // fits its 246 px budget.
    for op in &render.text_ops {
        assert!(op.x < 300 && op.y < 432);
    }
    for op in &render.text_ops[2..2 + desc_lines] {
        assert!(calc_line_width(&m, &op.text, op.scale_half) <= 246);
    }
}

#[test]
fn compose_card_is_deterministic_and_skips_existing_output() {
    // Rendering twice from the same inputs gives identical results, and
    // an existing output file means no second write happens at all.
    let m = narrow_font();
    let skill = fireball("Target foe is struck for fire damage.");
    let first = compose_card(&skill, &fireball_assets(), &m).unwrap();
    let second = compose_card(&skill, &fireball_assets(), &m).unwrap();
    assert_eq!(first.text_ops, second.text_ops);
    for (x, y) in [(0u32, 0u32), (150, 150), (299, 431), (150, 310)] {
        assert_eq!(first.canvas.get_pixel(x, y), second.canvas.get_pixel(x, y));
    }
    assert!(needs_render(false));
    assert!(!needs_render(true));
}
