use termpixel::cell::{Cell, COLOR_BLACK, COLOR_WHITE};
use termpixel::controller::ControllerDriver;
use termpixel::frame::{Frame, Region};
use termpixel::geometry::Rotation;

#[test]
fn bootstrap_sequence_carries_configuration_through() {
    let driver = ControllerDriver::init(320, 240, 512);
    assert_eq!(driver.width, 320);
    assert_eq!(driver.height, 240);
    assert_eq!(driver.scratch_capacity, 512);

    let configured = driver.set_orientation(Rotation::Deg270);
    assert_eq!(configured.geometry.width, 320);
    assert_eq!(configured.geometry.height, 240);
    assert_eq!(configured.geometry.rotation, Rotation::Deg270);
    assert_eq!(configured.scratch_capacity, 512);

    let cleared = configured.clear(COLOR_BLACK);
    assert_eq!(cleared.geometry.rotation, Rotation::Deg270);
    assert_eq!(cleared.clear_color, COLOR_BLACK);
    assert_eq!(cleared.scratch_capacity, 512);
}

#[test]
fn blank_frame_is_all_blank_cells() {
    let frame = Frame::blank(8, 4);
    assert_eq!(frame.area(), Region { x: 0, y: 0, width: 8, height: 4 });
    for cy in 0..4u16 {
        for cx in 0..8u16 {
            assert_eq!(frame.cell_at(cx, cy), Cell::blank());
        }
    }
}

#[test]
fn set_cell_changes_exactly_one_cell() {
    let mut frame = Frame::blank(8, 4);
    frame.set_cell(3, 2, Cell::new('#', COLOR_WHITE, COLOR_BLACK));
    for cy in 0..4u16 {
        for cx in 0..8u16 {
            if (cx, cy) == (3, 2) {
                assert_eq!(frame.cell_at(cx, cy).glyph, '#');
            } else {
                assert_eq!(frame.cell_at(cx, cy), Cell::blank());
            }
        }
    }
}
