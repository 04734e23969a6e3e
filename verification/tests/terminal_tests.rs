use termpixel::backend::{BackendAdapter, FatalError};
use termpixel::cell::{Cell, COLOR_BLACK, COLOR_WHITE};
use termpixel::controller::ControllerDriver;
use termpixel::frame::Frame;
use termpixel::geometry::Rotation;
use termpixel::hook::{CloseAfter, NoHook};
use termpixel::sink::RecordingSurface;
use termpixel::terminal::Terminal;
use termpixel::widgets::{compose_dashboard, draw_text};

const COLOR_GREEN: u16 = 0x07E0;
const COLOR_YELLOW: u16 = 0xFFE0;
const COLOR_GRAY: u16 = 0x8410;

fn dashboard_terminal() -> Terminal<RecordingSurface, NoHook> {
    let cleared = ControllerDriver::init(320, 240, 512)
        .set_orientation(Rotation::Deg270)
        .clear(COLOR_BLACK);
    Terminal::new(BackendAdapter::new(cleared, RecordingSurface::new(), NoHook::new()))
}

fn chars(s: &str) -> Vec<char> {
    s.chars().collect()
}

/// The static dashboard screen: a bordered outer block titled
/// "Dashboard" and a centered bordered paragraph with a fixed string.
fn dashboard_frame(t: &Terminal<RecordingSurface, NoHook>) -> Frame {
    let mut frame = t.new_frame();
    compose_dashboard(
        &mut frame,
        &chars("Dashboard"),
        &chars("RataTUI"),
        &chars("Vaishnav Sabari Girish"),
        COLOR_GREEN,
        COLOR_YELLOW,
        COLOR_GRAY,
        COLOR_BLACK,
    );
    frame
}

#[test]
fn static_dashboard_flushes_once_then_nothing() {
    let mut t = dashboard_terminal();
    assert_eq!(t.backend.size(), (40, 32));
    let frame = dashboard_frame(&t);

    // Every cell that differs from the blank screen must be flushed,
    // and no other.
    let changed = frame
        .cells
        .iter()
        .filter(|c| **c != Cell::blank())
        .count();
    assert!(changed > 0);

    let n = t.draw(&frame).unwrap();
    assert_eq!(n, changed);
    assert_eq!(t.backend.sink.writes.len(), changed);

    // A second identical cycle changes nothing, so it flushes nothing.
    let frame2 = dashboard_frame(&t);
    assert_eq!(t.draw(&frame2).unwrap(), 0);
    assert_eq!(t.backend.sink.writes.len(), changed);
}

#[test]
fn dashboard_writes_cover_border_and_text_cells() {
    let mut t = dashboard_terminal();
    let frame = dashboard_frame(&t);
    t.draw(&frame).unwrap();

    let mut origins: Vec<(u16, u16)> = t.backend.sink.writes.iter().map(|w| (w.x, w.y)).collect();
    let mut expected: Vec<(u16, u16)> = Vec::new();
    for cy in 0..32u16 {
        for cx in 0..40u16 {
            if frame.cell_at(cx, cy) != Cell::blank() {
                expected.push((cx * 6, cy * 10));
            }
        }
    }
    origins.sort();
    expected.sort();
    assert_eq!(origins, expected);
    // The outer border's top-left corner glyph is part of the flush.
    assert!(t.backend.sink.writes.iter().any(|w| {
        w.x == 0 && w.y == 0 && w.glyph == '┌' && w.width == 6 && w.height == 10
    }));
}

#[test]
fn partial_redraw_flushes_only_the_changed_cell() {
    let mut t = dashboard_terminal();
    let frame = dashboard_frame(&t);
    let n = t.draw(&frame).unwrap();
    assert!(n > 0);

    let mut frame2 = dashboard_frame(&t);
    frame2.set_cell(5, 10, Cell::new('!', COLOR_WHITE, COLOR_BLACK));
    assert_eq!(t.draw(&frame2).unwrap(), 1);
    let last = *t.backend.sink.writes.last().unwrap();
    assert_eq!((last.x, last.y, last.glyph), (30, 100, '!'));
}

#[test]
fn window_close_halts_the_render_loop() {
    let cleared = ControllerDriver::init(128, 64, 512)
        .set_orientation(Rotation::Deg0)
        .clear(COLOR_BLACK);
    let mut t = Terminal::new(BackendAdapter::new(
        cleared,
        RecordingSurface::new(),
        CloseAfter::new(0),
    ));
    let mut frame = t.new_frame();
    draw_text(&mut frame, 0, 0, &chars("Hello World"), COLOR_GRAY, COLOR_BLACK);
    // The cycle whose hook detects the close still completes.
    assert!(t.draw(&frame).is_ok());
    // The next cycle halts instead of continuing to loop.
    let frame2 = t.new_frame();
    assert_eq!(t.draw(&frame2), Err(FatalError::WindowClosed));
    assert_eq!(t.draw(&frame2), Err(FatalError::WindowClosed));
}

#[test]
fn undersized_scratch_fails_the_cycle_before_any_write() {
    let cleared = ControllerDriver::init(320, 240, 100)
        .set_orientation(Rotation::Deg270)
        .clear(COLOR_BLACK);
    let mut t = Terminal::new(BackendAdapter::new(cleared, RecordingSurface::new(), NoHook::new()));
    let frame = dashboard_frame(&t);
    assert_eq!(t.draw(&frame), Err(FatalError::ScratchTooSmall));
    assert!(t.backend.sink.writes.is_empty());
}
