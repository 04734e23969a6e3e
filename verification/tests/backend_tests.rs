use termpixel::backend::{BackendAdapter, FatalError};
use termpixel::cell::{Cell, COLOR_BLACK, COLOR_WHITE};
use termpixel::controller::ControllerDriver;
use termpixel::geometry::Rotation;
use termpixel::hook::{CloseAfter, NoHook};
use termpixel::sink::{BrokenBus, PixelWrite, RecordingSurface};

fn bootstrap(
    scratch: usize,
) -> BackendAdapter<RecordingSurface, NoHook> {
    let cleared = ControllerDriver::init(320, 240, scratch)
        .set_orientation(Rotation::Deg270)
        .clear(COLOR_BLACK);
    BackendAdapter::new(cleared, RecordingSurface::new(), NoHook::new())
}

#[test]
fn size_comes_from_rotated_geometry() {
    let b = bootstrap(512);
    assert_eq!(b.size(), (40, 32));
}

#[test]
fn single_cell_round_trip_has_exact_bounding_box() {
    let mut b = bootstrap(512);
    let updates = vec![(0u16, 0u16, Cell::new('A', COLOR_WHITE, COLOR_BLACK))];
    b.draw_cells(&updates);
    let n = b.flush().unwrap();
    assert_eq!(n, 1);
    assert_eq!(
        b.sink.writes,
        vec![PixelWrite {
            x: 0,
            y: 0,
            width: 6,
            height: 10,
            glyph: 'A',
            fg: COLOR_WHITE,
            bg: COLOR_BLACK,
        }],
    );
}

#[test]
fn flush_twice_writes_nothing_the_second_time() {
    let mut b = bootstrap(512);
    let updates = vec![
        (3u16, 2u16, Cell::new('x', COLOR_WHITE, COLOR_BLACK)),
        (5u16, 1u16, Cell::new('y', COLOR_WHITE, COLOR_BLACK)),
    ];
    b.draw_cells(&updates);
    assert_eq!(b.flush().unwrap(), 2);
    let logged = b.sink.writes.len();
    assert_eq!(b.flush().unwrap(), 0);
    assert_eq!(b.sink.writes.len(), logged);
}

#[test]
fn flush_sends_dirty_cells_row_major_once_each() {
    let mut b = bootstrap(512);
    let updates = vec![
        (7u16, 5u16, Cell::new('c', COLOR_WHITE, COLOR_BLACK)),
        (1u16, 0u16, Cell::new('a', COLOR_WHITE, COLOR_BLACK)),
        (0u16, 5u16, Cell::new('b', COLOR_WHITE, COLOR_BLACK)),
        (1u16, 0u16, Cell::new('z', COLOR_WHITE, COLOR_BLACK)),
    ];
    b.draw_cells(&updates);
    assert_eq!(b.flush().unwrap(), 3);
    let glyphs: Vec<char> = b.sink.writes.iter().map(|w| w.glyph).collect();
    assert_eq!(glyphs, vec!['z', 'b', 'c']);
    assert_eq!(b.sink.writes[0].x, 6);
    assert_eq!(b.sink.writes[0].y, 0);
    assert_eq!(b.sink.writes[1].x, 0);
    assert_eq!(b.sink.writes[1].y, 50);
}

#[test]
fn undersized_scratch_buffer_fails_deterministically() {
    // One display row at two bytes per pixel needs 480 bytes; 64 cannot
    // hold it, so the flush must fail before any transfer.
    let mut b = bootstrap(64);
    let updates = vec![(0u16, 0u16, Cell::new('A', COLOR_WHITE, COLOR_BLACK))];
    b.draw_cells(&updates);
    assert_eq!(b.flush(), Err(FatalError::ScratchTooSmall));
    assert!(b.sink.writes.is_empty());
    assert_eq!(b.flush(), Err(FatalError::ScratchTooSmall));
}

#[test]
fn transport_failure_aborts_the_flush() {
    let cleared = ControllerDriver::init(320, 240, 512)
        .set_orientation(Rotation::Deg270)
        .clear(COLOR_BLACK);
    let mut b = BackendAdapter::new(cleared, BrokenBus::new(), NoHook::new());
    let updates = vec![(0u16, 0u16, Cell::new('A', COLOR_WHITE, COLOR_BLACK))];
    b.draw_cells(&updates);
    assert_eq!(b.flush(), Err(FatalError::Transport));
}

#[test]
fn hook_close_makes_the_next_flush_fatal() {
    let cleared = ControllerDriver::init(320, 240, 512)
        .set_orientation(Rotation::Deg270)
        .clear(COLOR_BLACK);
    let mut b = BackendAdapter::new(cleared, RecordingSurface::new(), CloseAfter::new(0));
    let updates = vec![(0u16, 0u16, Cell::new('A', COLOR_WHITE, COLOR_BLACK))];
    b.draw_cells(&updates);
    // The flush itself succeeds; its hook detects the close event.
    assert_eq!(b.flush().unwrap(), 1);
    // The next flush must halt instead of continuing.
    assert_eq!(b.flush(), Err(FatalError::WindowClosed));
    assert_eq!(b.sink.writes.len(), 1);
}

#[test]
fn hook_counts_down_before_closing() {
    let cleared = ControllerDriver::init(320, 240, 512)
        .set_orientation(Rotation::Deg270)
        .clear(COLOR_BLACK);
    let mut b = BackendAdapter::new(cleared, RecordingSurface::new(), CloseAfter::new(2));
    assert_eq!(b.flush().unwrap(), 0);
    assert_eq!(b.flush().unwrap(), 0);
    assert_eq!(b.flush().unwrap(), 0);
    assert_eq!(b.flush(), Err(FatalError::WindowClosed));
}
