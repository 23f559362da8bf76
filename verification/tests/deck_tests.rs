//! The deck sheet tiler: batch counts, grid cells, and sheet pixels.

use skill_cards::canvas::{Canvas, Rgba};
use skill_cards::deck::{create_tabletop_simulator_decks, deck_cell_offset, sheet_count};

const WHITE: Rgba = Rgba { r: 255, g: 255, b: 255, a: 255 };

#[test]
fn sheets_hold_sixty_nine_cards() {
    assert_eq!(sheet_count(0), 0);
    assert_eq!(sheet_count(1), 1);
    assert_eq!(sheet_count(68), 1);
    // 69 cards fill one sheet (with its one reserved empty cell); the
    // 70th card starts a second, mostly empty sheet.
    assert_eq!(sheet_count(69), 1);
    assert_eq!(sheet_count(70), 2);
    assert_eq!(sheet_count(138), 2);
    assert_eq!(sheet_count(139), 3);
}

#[test]
fn grid_cells_are_row_major() {
    // Cell of card i: column i % 10, row i / 10, at (col*300, row*432).
    assert_eq!(deck_cell_offset(0), (0, 0));
    assert_eq!(deck_cell_offset(1), (300, 0));
    assert_eq!(deck_cell_offset(9), (2700, 0));
    assert_eq!(deck_cell_offset(10), (0, 432));
    assert_eq!(deck_cell_offset(23), (900, 864));
    assert_eq!(deck_cell_offset(68), (2400, 2592));
}

#[test]
fn deck_sheet_places_cards_and_leaves_the_reserved_cell_blank() {
    let red = Canvas::solid(300, 432, Rgba { r: 255, g: 0, b: 0, a: 255 });
    let green = Canvas::solid(300, 432, Rgba { r: 0, g: 255, b: 0, a: 255 });
    let sheets = create_tabletop_simulator_decks(&vec![red, green]);
    assert_eq!(sheets.len(), 1);
    let sheet = &sheets[0];
    assert_eq!(sheet.width(), 3000);
    assert_eq!(sheet.height(), 3024);
    // Card 0 fills cell (0, 0), card 1 fills cell (1, 0).
    assert_eq!(sheet.get_pixel(0, 0), Rgba { r: 255, g: 0, b: 0, a: 255 });
    assert_eq!(sheet.get_pixel(299, 431), Rgba { r: 255, g: 0, b: 0, a: 255 });
    assert_eq!(sheet.get_pixel(300, 0), Rgba { r: 0, g: 255, b: 0, a: 255 });
    assert_eq!(sheet.get_pixel(599, 431), Rgba { r: 0, g: 255, b: 0, a: 255 });
    // Unused cells stay white, and so does the reserved bottom-right cell.
    assert_eq!(sheet.get_pixel(600, 0), WHITE);
    assert_eq!(sheet.get_pixel(0, 432), WHITE);
    assert_eq!(sheet.get_pixel(2700, 2592), WHITE);
    assert_eq!(sheet.get_pixel(2999, 3023), WHITE);
}

#[test]
fn empty_card_list_makes_no_sheets() {
    let sheets = create_tabletop_simulator_decks(&Vec::new());
    assert!(sheets.is_empty());
}
