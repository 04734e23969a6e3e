//! Minimal cell-level widget primitives: a bordered box with box-drawing
//! glyphs, a text row, and centering arithmetic.
//!
//! These are just enough to compose the static screens this pipeline
//! shows — a bordered, titled block around a centered bordered line of
//! text — with an exact contract for every cell they touch.

use vstd::prelude::*;
use crate::cell::Cell;
use crate::frame::{Frame, Region};

verus! {

/// Top-left corner glyph of a bordered box.
pub const BORDER_TOP_LEFT: char = '┌';

/// Top-right corner glyph of a bordered box.
pub const BORDER_TOP_RIGHT: char = '┐';

/// Bottom-left corner glyph of a bordered box.
pub const BORDER_BOTTOM_LEFT: char = '└';

/// Bottom-right corner glyph of a bordered box.
pub const BORDER_BOTTOM_RIGHT: char = '┘';

/// Horizontal edge glyph of a bordered box.
pub const BORDER_HORIZONTAL: char = '─';

/// Vertical edge glyph of a bordered box.
pub const BORDER_VERTICAL: char = '│';

/// Whether (cx, cy) lies on the one-cell-thick border ring of `area`.
pub open spec fn spec_on_border(area: Region, cx: int, cy: int) -> bool {
    &&& area.contains(cx, cy)
    &&& (cx == area.x as int || cx == area.x as int + area.width as int - 1 || cy == area.y as int
        || cy == area.y as int + area.height as int - 1)
}

/// The box-drawing glyph the border of `area` shows at (cx, cy), for a
/// position on the border ring.
pub open spec fn spec_border_glyph(area: Region, cx: int, cy: int) -> char {
    let left = area.x as int;
    let right = area.x as int + area.width as int - 1;
    let top = area.y as int;
    let bottom = area.y as int + area.height as int - 1;
    if cx == left && cy == top {
        BORDER_TOP_LEFT
    } else if cx == right && cy == top {
        BORDER_TOP_RIGHT
    } else if cx == left && cy == bottom {
        BORDER_BOTTOM_LEFT
    } else if cx == right && cy == bottom {
        BORDER_BOTTOM_RIGHT
    } else if cy == top || cy == bottom {
        BORDER_HORIZONTAL
    } else {
        BORDER_VERTICAL
    }
}

/// Every grid position of `cur` up to the cursor (ax, ay), in row-major
/// order, shows the border of `area` where the ring crosses it and the
/// `base` cell elsewhere; positions at or past the cursor are untouched.
pub open spec fn border_progress(
    cur: Seq<Cell>,
    base: Seq<Cell>,
    cols: int,
    rows: int,
    area: Region,
    fg: u16,
    bg: u16,
    ax: int,
    ay: int,
) -> bool {
    forall|cx: int, cy: int|
        0 <= cx < cols && 0 <= cy < rows ==> #[trigger] cur[cy * cols + cx] == (if spec_on_border(
            area,
            cx,
            cy,
        ) && (cy < ay || (cy == ay && cx < ax)) {
            Cell { glyph: spec_border_glyph(area, cx, cy), fg, bg }
        } else {
            base[cy * cols + cx]
        })
}

/// Every grid position of `cur` shows the border of `area` where the
/// ring crosses it and the `base` cell everywhere else.
pub open spec fn border_rendered(
    cur: Seq<Cell>,
    base: Seq<Cell>,
    cols: int,
    rows: int,
    area: Region,
    fg: u16,
    bg: u16,
) -> bool {
    forall|cx: int, cy: int|
        0 <= cx < cols && 0 <= cy < rows ==> #[trigger] cur[cy * cols + cx] == (if spec_on_border(
            area,
            cx,
            cy,
        ) {
            Cell { glyph: spec_border_glyph(area, cx, cy), fg, bg }
        } else {
            base[cy * cols + cx]
        })
}

/// Every grid position of `cur` on the text's row and span shows the
/// text's glyph in the given colors; every other position shows `base`.
pub open spec fn text_rendered(
    cur: Seq<Cell>,
    base: Seq<Cell>,
    cols: int,
    rows: int,
    x: int,
    y: int,
    text: Seq<char>,
    fg: u16,
    bg: u16,
) -> bool {
    forall|cx: int, cy: int|
        0 <= cx < cols && 0 <= cy < rows ==> #[trigger] cur[cy * cols + cx] == (if cy == y && x
            <= cx < x + text.len() {
            Cell { glyph: text[cx - x], fg, bg }
        } else {
            base[cy * cols + cx]
        })
}

/// Two distinct grid positions have distinct row-major indices.
pub proof fn lemma_grid_index_injective(cx1: int, cy1: int, cx2: int, cy2: int, cols: int)
    requires
        0 <= cx1 < cols,
        0 <= cx2 < cols,
        0 <= cy1,
        0 <= cy2,
        !(cx1 == cx2 && cy1 == cy2),
    ensures
        cy1 * cols + cx1 != cy2 * cols + cx2,
{
    assert(cy1 * cols + cx1 != cy2 * cols + cx2) by (nonlinear_arith)
        requires
            0 <= cx1 < cols,
            0 <= cx2 < cols,
            0 <= cy1,
            0 <= cy2,
            !(cx1 == cx2 && cy1 == cy2),
    ;
}

/// Draws the border ring of `area` with the given colors. Every cell on
/// the ring becomes its box-drawing glyph; every other cell of the
/// frame, the interior included, is untouched.
pub fn draw_border(frame: &mut Frame, area: Region, fg: u16, bg: u16)
    requires
        old(frame).wf(),
        area.within(old(frame).cols as int, old(frame).rows as int),
        2 <= area.width,
        2 <= area.height,
    ensures
        final(frame).wf(),
        final(frame).cols == old(frame).cols,
        final(frame).rows == old(frame).rows,
        border_rendered(
            final(frame).cells@,
            old(frame).cells@,
            old(frame).cols as int,
            old(frame).rows as int,
            area,
            fg,
            bg,
        ),
{
    let ghost base = frame.cells@;
    let ghost cols_g = frame.cols as int;
    let ghost rows_g = frame.rows as int;
    let mut dy: u16 = 0;
    while dy < area.height
        invariant
            frame.wf(),
            frame.cols == old(frame).cols,
            frame.rows == old(frame).rows,
            frame.cells@.len() == base.len(),
            base == old(frame).cells@,
            cols_g == frame.cols as int,
            rows_g == frame.rows as int,
            area.within(cols_g, rows_g),
            2 <= area.width,
            2 <= area.height,
            dy <= area.height,
            border_progress(
                frame.cells@,
                base,
                cols_g,
                rows_g,
                area,
                fg,
                bg,
                area.x as int,
                area.y as int + dy as int,
            ),
        decreases area.height - dy,
    {
        let y: u16 = area.y + dy;
        let mut dx: u16 = 0;
        while dx < area.width
            invariant
                frame.wf(),
                frame.cols == old(frame).cols,
                frame.rows == old(frame).rows,
                frame.cells@.len() == base.len(),
                cols_g == frame.cols as int,
                rows_g == frame.rows as int,
                area.within(cols_g, rows_g),
                2 <= area.width,
                2 <= area.height,
                dy < area.height,
                y == area.y + dy,
                dx <= area.width,
                border_progress(
                    frame.cells@,
                    base,
                    cols_g,
                    rows_g,
                    area,
                    fg,
                    bg,
                    area.x as int + dx as int,
                    area.y as int + dy as int,
                ),
            decreases area.width - dx,
        {
            let x: u16 = area.x + dx;
            let on_ring: bool = dx == 0 || dx == area.width - 1 || dy == 0 || dy == area.height
                - 1;
            if on_ring {
                let glyph: char = if dy == 0 && dx == 0 {
                    BORDER_TOP_LEFT
                } else if dy == 0 && dx == area.width - 1 {
                    BORDER_TOP_RIGHT
                } else if dy == area.height - 1 && dx == 0 {
                    BORDER_BOTTOM_LEFT
                } else if dy == area.height - 1 && dx == area.width - 1 {
                    BORDER_BOTTOM_RIGHT
                } else if dy == 0 || dy == area.height - 1 {
                    BORDER_HORIZONTAL
                } else {
                    BORDER_VERTICAL
                };
                proof {
                    assert(glyph == spec_border_glyph(area, x as int, y as int));
                }
                let ghost before = frame.cells@;
                frame.set_cell(x, y, Cell { glyph, fg, bg });
                proof {
                    lemma_border_step(
                        frame.cells@,
                        before,
                        base,
                        cols_g,
                        rows_g,
                        area,
                        fg,
                        bg,
                        x as int,
                        y as int,
                        true,
                    );
                }
            } else {
                proof {
                    lemma_border_step(
                        frame.cells@,
                        frame.cells@,
                        base,
                        cols_g,
                        rows_g,
                        area,
                        fg,
                        bg,
                        x as int,
                        y as int,
                        false,
                    );
                }
            }
            dx = dx + 1;
        }
        dy = dy + 1;
        proof {
            assert forall|cx: int, cy: int| 0 <= cx < cols_g && 0 <= cy < rows_g implies #[trigger] frame.cells@[cy
                * cols_g + cx] == (if spec_on_border(area, cx, cy) && (cy < area.y as int
                + dy as int || (cy == area.y as int + dy as int && cx < area.x as int)) {
                Cell { glyph: spec_border_glyph(area, cx, cy), fg, bg }
            } else {
                base[cy * cols_g + cx]
            }) by {
                assert(frame.cells@[cy * cols_g + cx] == (if spec_on_border(area, cx, cy) && (cy
                    < area.y as int + dy as int - 1 || (cy == area.y as int + dy as int - 1 && cx
                    < area.x as int + area.width as int)) {
                    Cell { glyph: spec_border_glyph(area, cx, cy), fg, bg }
                } else {
                    base[cy * cols_g + cx]
                }));
            }
        }
    }
    proof {
        assert forall|cx: int, cy: int| 0 <= cx < cols_g && 0 <= cy < rows_g implies #[trigger] frame.cells@[cy
            * cols_g + cx] == (if spec_on_border(area, cx, cy) && (cy < rows_g || (cy == rows_g
            && cx < 0)) {
            Cell { glyph: spec_border_glyph(area, cx, cy), fg, bg }
        } else {
            base[cy * cols_g + cx]
        }) by {
            assert(frame.cells@[cy * cols_g + cx] == (if spec_on_border(area, cx, cy) && (cy
                < area.y as int + area.height as int || (cy == area.y as int + area.height as int
                && cx < area.x as int)) {
                Cell { glyph: spec_border_glyph(area, cx, cy), fg, bg }
            } else {
                base[cy * cols_g + cx]
            }));
        }
    }
}

/// One step of the border walk: after handling position (x, y) — set to
/// its ring glyph when `wrote`, untouched otherwise — the progress
/// cursor advances one cell.
proof fn lemma_border_step(
    cur: Seq<Cell>,
    prev: Seq<Cell>,
    base: Seq<Cell>,
    cols: int,
    rows: int,
    area: Region,
    fg: u16,
    bg: u16,
    x: int,
    y: int,
    wrote: bool,
)
    requires
        area.within(cols, rows),
        area.contains(x, y),
        0 < cols,
        0 < rows,
        cols <= 0xFFFF,
        rows <= 0xFFFF,
        prev.len() == cols * rows,
        cur.len() == cols * rows,
        border_progress(prev, base, cols, rows, area, fg, bg, x, y),
        wrote ==> spec_on_border(area, x, y) && cur == prev.update(
            y * cols + x,
            Cell { glyph: spec_border_glyph(area, x, y), fg, bg },
        ),
        !wrote ==> !spec_on_border(area, x, y) && cur == prev,
    ensures
        border_progress(cur, base, cols, rows, area, fg, bg, x + 1, y),
{
    assert forall|cx: int, cy: int| 0 <= cx < cols && 0 <= cy < rows implies #[trigger] cur[cy
        * cols + cx] == (if spec_on_border(area, cx, cy) && (cy < y || (cy == y && cx < x + 1)) {
        Cell { glyph: spec_border_glyph(area, cx, cy), fg, bg }
    } else {
        base[cy * cols + cx]
    }) by {
        crate::frame::lemma_grid_index(cx, cy, cols, rows);
        crate::frame::lemma_grid_index(x, y, cols, rows);
        let prev_cell = prev[cy * cols + cx];
        if wrote {
            assert(cur == prev.update(
                y * cols + x,
                Cell { glyph: spec_border_glyph(area, x, y), fg, bg },
            ));
            if cx == x && cy == y {
            } else {
                lemma_grid_index_injective(cx, cy, x, y, cols);
                assert(cur[cy * cols + cx] == prev_cell);
            }
        } else {
            assert(cur[cy * cols + cx] == prev_cell);
        }
    }
}

/// A region of the given size centered inside `outer`, leaning to the
/// top-left when the leftover space is odd.
pub fn centered(outer: Region, width: u16, height: u16) -> (r: Region)
    requires
        width <= outer.width,
        height <= outer.height,
        outer.x as int + outer.width as int <= 0xFFFF,
        outer.y as int + outer.height as int <= 0xFFFF,
    ensures
        r.width == width,
        r.height == height,
        r.x as int == outer.x as int + (outer.width as int - width as int) / 2,
        r.y as int == outer.y as int + (outer.height as int - height as int) / 2,
        outer.contains(r.x as int, r.y as int) || width == 0 || height == 0,
        r.x as int + r.width as int <= outer.x as int + outer.width as int,
        r.y as int + r.height as int <= outer.y as int + outer.height as int,
{
    let x: u16 = outer.x + (outer.width - width) / 2;
    let y: u16 = outer.y + (outer.height - height) / 2;
    Region { x, y, width, height }
}

/// Writes `text` horizontally starting at (x, y), one glyph per cell,
/// with the given colors. Every other cell is untouched.
pub fn draw_text(frame: &mut Frame, x: u16, y: u16, text: &Vec<char>, fg: u16, bg: u16)
    requires
        old(frame).wf(),
        y < old(frame).rows,
        x as int + text@.len() <= old(frame).cols as int,
    ensures
        final(frame).wf(),
        final(frame).cols == old(frame).cols,
        final(frame).rows == old(frame).rows,
        text_rendered(
            final(frame).cells@,
            old(frame).cells@,
            old(frame).cols as int,
            old(frame).rows as int,
            x as int,
            y as int,
            text@,
            fg,
            bg,
        ),
{
    let ghost base = frame.cells@;
    let ghost cols_g = frame.cols as int;
    let ghost rows_g = frame.rows as int;
    let mut j: usize = 0;
    while j < text.len()
        invariant
            frame.wf(),
            frame.cols == old(frame).cols,
            frame.rows == old(frame).rows,
            base == old(frame).cells@,
            base.len() == cols_g * rows_g,
            frame.cells@.len() == base.len(),
            cols_g == frame.cols as int,
            rows_g == frame.rows as int,
            y < frame.rows,
            x as int + text@.len() <= cols_g,
            j <= text@.len(),
            forall|cx: int, cy: int|
                0 <= cx < cols_g && 0 <= cy < rows_g ==> #[trigger] frame.cells@[cy * cols_g + cx]
                    == (if cy == y as int && x as int <= cx < x as int + j as int {
                    Cell { glyph: text@[cx - x as int], fg, bg }
                } else {
                    base[cy * cols_g + cx]
                }),
        decreases text@.len() - j,
    {
        let cx: u16 = x + (j as u16);
        let c: char = text[j];
        let ghost before = frame.cells@;
        frame.set_cell(cx, y, Cell { glyph: c, fg, bg });
        proof {
            assert forall|px: int, py: int| 0 <= px < cols_g && 0 <= py < rows_g implies #[trigger] frame.cells@[py
                * cols_g + px] == (if py == y as int && x as int <= px < x as int + j as int + 1 {
                Cell { glyph: text@[px - x as int], fg, bg }
            } else {
                base[py * cols_g + px]
            }) by {
                crate::frame::lemma_grid_index(px, py, cols_g, rows_g);
                crate::frame::lemma_grid_index(cx as int, y as int, cols_g, rows_g);
                let prev_cell = before[py * cols_g + px];
                assert(0 <= py * cols_g + px < before.len());
                assert(0 <= (y as int) * cols_g + (cx as int) < before.len());
                assert(frame.cells@ == before.update(
                    (y as int) * cols_g + (cx as int),
                    Cell { glyph: c, fg, bg },
                ));
                if px == cx as int && py == y as int {
                    vstd::seq::axiom_seq_update_same::<Cell>(
                        before,
                        (y as int) * cols_g + (cx as int),
                        Cell { glyph: c, fg, bg },
                    );
                    assert(frame.cells@[py * cols_g + px] == Cell { glyph: c, fg, bg });
                } else {
                    lemma_grid_index_injective(px, py, cx as int, y as int, cols_g);
                    assert(py * cols_g + px != (y as int) * cols_g + (cx as int));
                    vstd::seq::axiom_seq_update_different::<Cell>(
                        before,
                        py * cols_g + px,
                        (y as int) * cols_g + (cx as int),
                        Cell { glyph: c, fg, bg },
                    );
                    assert(frame.cells@[py * cols_g + px] == prev_cell);
                }
            }
        }
        j = j + 1;
    }
}

/// The centered 25-by-3 panel the dashboard screen places its bordered
/// paragraph in.
pub open spec fn spec_dashboard_panel(cols: int, rows: int) -> Region {
    Region {
        x: ((cols - 25) / 2) as u16,
        y: ((rows - 3) / 2) as u16,
        width: 25,
        height: 3,
    }
}

/// The message screen: one bordered block spanning the whole frame, its
/// title written over the top border, and a line of text inside.
///
/// The screen is the result of exactly three primitive strokes, in
/// order; each intermediate state is pinned cell by cell by the
/// primitives' own clauses.
pub fn compose_titled_screen(
    frame: &mut Frame,
    title: &Vec<char>,
    text: &Vec<char>,
    border_fg: u16,
    text_fg: u16,
    bg: u16,
)
    requires
        old(frame).wf(),
        2 <= old(frame).cols,
        3 <= old(frame).rows,
        1 + title@.len() <= old(frame).cols as int,
        1 + text@.len() <= old(frame).cols as int,
    ensures
        final(frame).wf(),
        final(frame).cols == old(frame).cols,
        final(frame).rows == old(frame).rows,
        exists|border: Seq<Cell>, titled: Seq<Cell>|
            #![trigger text_rendered(titled, border, old(frame).cols as int, old(frame).rows as int, 1, 0, title@, border_fg, bg)]
            {
                &&& border_rendered(
                    border,
                    old(frame).cells@,
                    old(frame).cols as int,
                    old(frame).rows as int,
                    (Region { x: 0u16, y: 0u16, width: old(frame).cols, height: old(frame).rows }),
                    border_fg,
                    bg,
                )
                &&& text_rendered(
                    titled,
                    border,
                    old(frame).cols as int,
                    old(frame).rows as int,
                    1,
                    0,
                    title@,
                    border_fg,
                    bg,
                )
                &&& text_rendered(
                    final(frame).cells@,
                    titled,
                    old(frame).cols as int,
                    old(frame).rows as int,
                    1,
                    1,
                    text@,
                    text_fg,
                    bg,
                )
            },
{
    let area = frame.area();
    draw_border(frame, area, border_fg, bg);
    let ghost border = frame.cells@;
    draw_text(frame, 1, 0, title, border_fg, bg);
    let ghost titled = frame.cells@;
    draw_text(frame, 1, 1, text, text_fg, bg);
    proof {
        assert(border_rendered(
            border,
            old(frame).cells@,
            old(frame).cols as int,
            old(frame).rows as int,
            (Region { x: 0u16, y: 0u16, width: old(frame).cols, height: old(frame).rows }),
            border_fg,
            bg,
        ));
    }
}

/// The dashboard screen: a bordered outer block with its title over the
/// top border, and a centered bordered panel holding a second title and
/// a centered line of text.
///
/// The screen is the result of exactly five primitive strokes, in
/// order; each intermediate state is pinned cell by cell by the
/// primitives' own clauses.
pub fn compose_dashboard(
    frame: &mut Frame,
    title: &Vec<char>,
    panel_title: &Vec<char>,
    text: &Vec<char>,
    title_fg: u16,
    panel_fg: u16,
    text_fg: u16,
    bg: u16,
)
    requires
        old(frame).wf(),
        25 <= old(frame).cols,
        3 <= old(frame).rows,
        1 + title@.len() <= old(frame).cols as int,
        panel_title@.len() <= 23,
        text@.len() <= 23,
    ensures
        final(frame).wf(),
        final(frame).cols == old(frame).cols,
        final(frame).rows == old(frame).rows,
        exists|outer: Seq<Cell>, titled: Seq<Cell>, panel: Seq<Cell>, panel_titled: Seq<Cell>|
            #![trigger
                text_rendered(titled, outer, old(frame).cols as int, old(frame).rows as int, 1, 0, title@, title_fg, bg),
                border_rendered(panel, titled, old(frame).cols as int, old(frame).rows as int, spec_dashboard_panel(old(frame).cols as int, old(frame).rows as int), panel_fg, bg),
                text_rendered(panel_titled, panel, old(frame).cols as int, old(frame).rows as int, spec_dashboard_panel(old(frame).cols as int, old(frame).rows as int).x as int + 1, spec_dashboard_panel(old(frame).cols as int, old(frame).rows as int).y as int, panel_title@, panel_fg, bg)
            ]
            {
                let cols = old(frame).cols as int;
                let rows = old(frame).rows as int;
                let region = spec_dashboard_panel(cols, rows);
                &&& border_rendered(
                    outer,
                    old(frame).cells@,
                    cols,
                    rows,
                    (Region { x: 0u16, y: 0u16, width: old(frame).cols, height: old(frame).rows }),
                    title_fg,
                    bg,
                )
                &&& text_rendered(titled, outer, cols, rows, 1, 0, title@, title_fg, bg)
                &&& border_rendered(panel, titled, cols, rows, region, panel_fg, bg)
                &&& text_rendered(
                    panel_titled,
                    panel,
                    cols,
                    rows,
                    region.x as int + 1,
                    region.y as int,
                    panel_title@,
                    panel_fg,
                    bg,
                )
                &&& text_rendered(
                    final(frame).cells@,
                    panel_titled,
                    cols,
                    rows,
                    region.x as int + 1 + (23 - text@.len()) / 2,
                    region.y as int + 1,
                    text@,
                    text_fg,
                    bg,
                )
            },
{
    let area = frame.area();
    draw_border(frame, area, title_fg, bg);
    let ghost outer = frame.cells@;
    draw_text(frame, 1, 0, title, title_fg, bg);
    let ghost titled = frame.cells@;
    let region = centered(area, 25, 3);
    proof {
        assert(region == spec_dashboard_panel(frame.cols as int, frame.rows as int));
    }
    draw_border(frame, region, panel_fg, bg);
    let ghost panel = frame.cells@;
    draw_text(frame, region.x + 1, region.y, panel_title, panel_fg, bg);
    let ghost panel_titled = frame.cells@;
    let tx: u16 = region.x + 1 + (23 - text.len() as u16) / 2;
    draw_text(frame, tx, region.y + 1, text, text_fg, bg);
    proof {
        assert(border_rendered(
            outer,
            old(frame).cells@,
            old(frame).cols as int,
            old(frame).rows as int,
            (Region { x: 0u16, y: 0u16, width: old(frame).cols, height: old(frame).rows }),
            title_fg,
            bg,
        ));
        assert(text_rendered(
            titled,
            outer,
            old(frame).cols as int,
            old(frame).rows as int,
            1,
            0,
            title@,
            title_fg,
            bg,
        ));
    }
}

} // verus!
