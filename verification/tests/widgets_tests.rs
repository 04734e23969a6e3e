use termpixel::cell::{Cell, COLOR_BLACK, COLOR_WHITE};
use termpixel::frame::{Frame, Region};
use termpixel::widgets::{centered, compose_dashboard, compose_titled_screen, draw_border, draw_text};

const COLOR_GREEN: u16 = 0x07E0;
const COLOR_YELLOW: u16 = 0xFFE0;
const COLOR_GRAY: u16 = 0x8410;

fn chars(s: &str) -> Vec<char> {
    s.chars().collect()
}

#[test]
fn border_glyphs_land_on_the_ring() {
    let mut frame = Frame::blank(10, 5);
    let area = frame.area();
    draw_border(&mut frame, area, COLOR_WHITE, COLOR_BLACK);
    assert_eq!(frame.cell_at(0, 0).glyph, '┌');
    assert_eq!(frame.cell_at(9, 0).glyph, '┐');
    assert_eq!(frame.cell_at(0, 4).glyph, '└');
    assert_eq!(frame.cell_at(9, 4).glyph, '┘');
    assert_eq!(frame.cell_at(4, 0).glyph, '─');
    assert_eq!(frame.cell_at(4, 4).glyph, '─');
    assert_eq!(frame.cell_at(0, 2).glyph, '│');
    assert_eq!(frame.cell_at(9, 2).glyph, '│');
}

#[test]
fn border_leaves_the_interior_untouched() {
    let mut frame = Frame::blank(10, 5);
    frame.set_cell(4, 2, Cell::new('Q', COLOR_WHITE, COLOR_BLACK));
    let area = frame.area();
    draw_border(&mut frame, area, COLOR_WHITE, COLOR_BLACK);
    assert_eq!(frame.cell_at(4, 2).glyph, 'Q');
    assert_eq!(frame.cell_at(5, 2), Cell::blank());
}

#[test]
fn inner_border_does_not_spill() {
    let mut frame = Frame::blank(10, 6);
    let inner = Region { x: 2, y: 1, width: 4, height: 3 };
    draw_border(&mut frame, inner, COLOR_WHITE, COLOR_BLACK);
    assert_eq!(frame.cell_at(2, 1).glyph, '┌');
    assert_eq!(frame.cell_at(5, 3).glyph, '┘');
    assert_eq!(frame.cell_at(1, 1), Cell::blank());
    assert_eq!(frame.cell_at(6, 3), Cell::blank());
    assert_eq!(frame.cell_at(3, 2), Cell::blank());
}

#[test]
fn centered_region_leans_top_left() {
    let outer = Region { x: 0, y: 0, width: 40, height: 32 };
    let inner = centered(outer, 25, 3);
    assert_eq!(inner, Region { x: 7, y: 14, width: 25, height: 3 });
    let exact = centered(outer, 40, 32);
    assert_eq!(exact, outer);
}

#[test]
fn text_is_written_glyph_by_glyph() {
    let mut frame = Frame::blank(12, 3);
    let text: Vec<char> = "Hi!".chars().collect();
    draw_text(&mut frame, 4, 1, &text, COLOR_WHITE, COLOR_BLACK);
    assert_eq!(frame.cell_at(4, 1).glyph, 'H');
    assert_eq!(frame.cell_at(5, 1).glyph, 'i');
    assert_eq!(frame.cell_at(6, 1).glyph, '!');
    assert_eq!(frame.cell_at(3, 1), Cell::blank());
    assert_eq!(frame.cell_at(7, 1), Cell::blank());
    assert_eq!(frame.cell_at(4, 0), Cell::blank());
}

#[test]
fn titled_screen_composes_border_title_and_text() {
    let mut frame = Frame::blank(20, 8);
    compose_titled_screen(
        &mut frame,
        &chars("Mousefood"),
        &chars("Hello World"),
        COLOR_YELLOW,
        COLOR_GRAY,
        COLOR_BLACK,
    );
    assert_eq!(frame.cell_at(0, 0).glyph, '\u{250c}');
    assert_eq!(frame.cell_at(1, 0).glyph, 'M');
    assert_eq!(frame.cell_at(9, 0).glyph, 'd');
    assert_eq!(frame.cell_at(10, 0).glyph, '\u{2500}');
    assert_eq!(frame.cell_at(1, 1).glyph, 'H');
    assert_eq!(frame.cell_at(11, 1).glyph, 'd');
    assert_eq!(frame.cell_at(12, 1), Cell::blank());
    assert_eq!(frame.cell_at(0, 1).glyph, '\u{2502}');
}

#[test]
fn dashboard_composes_outer_block_and_centered_panel() {
    let mut frame = Frame::blank(40, 32);
    compose_dashboard(
        &mut frame,
        &chars("Dashboard"),
        &chars("RataTUI"),
        &chars("Vaishnav Sabari Girish"),
        COLOR_GREEN,
        COLOR_YELLOW,
        COLOR_GRAY,
        COLOR_BLACK,
    );
    assert_eq!(frame.cell_at(0, 0).glyph, '\u{250c}');
    assert_eq!(frame.cell_at(1, 0).glyph, 'D');
    assert_eq!(frame.cell_at(7, 14).glyph, '\u{250c}');
    assert_eq!(frame.cell_at(8, 14).glyph, 'R');
    assert_eq!(frame.cell_at(31, 14).glyph, '\u{2510}');
    assert_eq!(frame.cell_at(8, 15).glyph, 'V');
    assert_eq!(frame.cell_at(29, 15).glyph, 'h');
    assert_eq!(frame.cell_at(7, 16).glyph, '\u{2514}');
    assert_eq!(frame.cell_at(20, 10), Cell::blank());
    assert_eq!(frame.cell_at(8, 14).fg, COLOR_YELLOW);
    assert_eq!(frame.cell_at(8, 15).fg, COLOR_GRAY);
}
