use termpixel::geometry::{cell_bytes, DisplayGeometry, Rotation, GLYPH_HEIGHT, GLYPH_WIDTH};

#[test]
fn glyph_cell_is_six_by_ten() {
    assert_eq!(GLYPH_WIDTH, 6);
    assert_eq!(GLYPH_HEIGHT, 10);
    assert_eq!(cell_bytes(), 120);
}

#[test]
fn unrotated_panel_grid() {
    let g = DisplayGeometry { width: 320, height: 240, rotation: Rotation::Deg0 };
    assert_eq!(g.effective_width(), 320);
    assert_eq!(g.effective_height(), 240);
    assert_eq!(g.columns(), 53);
    assert_eq!(g.rows(), 24);
    assert_eq!(g.row_bytes(), 640);
}

#[test]
fn quarter_turn_swaps_axes() {
    let g = DisplayGeometry { width: 320, height: 240, rotation: Rotation::Deg270 };
    assert_eq!(g.effective_width(), 240);
    assert_eq!(g.effective_height(), 320);
    assert_eq!(g.columns(), 40);
    assert_eq!(g.rows(), 32);
    assert_eq!(g.row_bytes(), 480);
}

#[test]
fn half_turn_keeps_axes() {
    let g = DisplayGeometry { width: 320, height: 240, rotation: Rotation::Deg180 };
    assert_eq!(g.effective_width(), 320);
    assert_eq!(g.effective_height(), 240);
}

#[test]
fn orientation_changes_grid_on_non_square_panel() {
    let flat = DisplayGeometry { width: 320, height: 240, rotation: Rotation::Deg0 };
    let turned = DisplayGeometry { width: 320, height: 240, rotation: Rotation::Deg90 };
    assert_ne!(flat.effective_width(), turned.effective_width());
    assert_ne!(flat.effective_height(), turned.effective_height());
    assert_ne!(
        (flat.columns(), flat.rows()),
        (turned.columns(), turned.rows()),
    );
}
