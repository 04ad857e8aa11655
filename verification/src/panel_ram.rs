//! What the transactions do to the panel: a model of the JD9853's window
//! registers and display memory, and the laws that say which pixels the
//! drawing operations colour.
//!
//! CASET and RASET set the column and row ranges of the window (in
//! controller coordinates: visible column `x` is controller column
//! `x + 34`); RAMWR writes its pixel words into the window row by row,
//! starting at the top-left corner.  Words past the end of the window are
//! not modelled.

use crate::bus::{
    after_frames, be16, lemma_run_append, command_frame, from_be16, idle, run, tag, BusEvent, LineState, TaggedByte,
};
use crate::jd9853::{
    draw_events, fill_rect_events, fill_solid_events, law_draw_pixel_frames, law_fill_rect_frames,
    law_fill_solid_clips_to_panel, meets_panel, on_panel, pixel_bytes, pixel_events, rect_area,
    span_end, window_frames, Pixel, Rectangle, CMD_CASET, CMD_RAMWR, CMD_RASET,
};
use crate::panel::{LCD_H, LCD_W, LCD_X_OFFSET};
use vstd::prelude::*;

verus! {

/// The controller's window registers and display memory.
pub struct PanelRam {
    pub col_start: int,
    pub col_end: int,
    pub row_start: int,
    pub row_end: int,
    /// The RGB565 word at each (controller column, row).
    pub pixels: spec_fn(int, int) -> u16,
}

/// The parameter bytes of a transaction.
pub open spec fn params(f: Seq<TaggedByte>) -> Seq<u8> {
    f.subrange(1, f.len() as int).map_values(|b: TaggedByte| b.1)
}

/// The `k`-th big-endian 16-bit word of `p`.
pub open spec fn word(p: Seq<u8>, k: int) -> u16 {
    (p[2 * k] * 256 + p[2 * k + 1]) as u16
}

/// Position of the pixel at column `c`, row `r` in a RAMWR stream into the
/// window of `m`.
pub open spec fn ramwr_index(m: PanelRam, c: int, r: int) -> int {
    (r - m.row_start) * (m.col_end - m.col_start + 1) + (c - m.col_start)
}

/// The pixel at column `c`, row `r` after a RAMWR with parameters `p`.
pub open spec fn ramwr_pixel(m: PanelRam, p: Seq<u8>, c: int, r: int) -> u16 {
    if m.col_start <= c <= m.col_end && m.row_start <= r <= m.row_end && 2 * ramwr_index(m, c, r)
        + 1 < p.len() {
        word(p, ramwr_index(m, c, r))
    } else {
        (m.pixels)(c, r)
    }
}

/// The effect of one transaction on the controller.
pub open spec fn frame_effect(m: PanelRam, f: Seq<TaggedByte>) -> PanelRam {
    if f.len() == 0 {
        m
    } else if f[0] == (false, CMD_CASET) && params(f).len() >= 4 {
        PanelRam {
            col_start: from_be16(params(f)[0], params(f)[1]),
            col_end: from_be16(params(f)[2], params(f)[3]),
            ..m
        }
    } else if f[0] == (false, CMD_RASET) && params(f).len() >= 4 {
        PanelRam {
            row_start: from_be16(params(f)[0], params(f)[1]),
            row_end: from_be16(params(f)[2], params(f)[3]),
            ..m
        }
    } else if f[0] == (false, CMD_RAMWR) {
        PanelRam { pixels: |c: int, r: int| ramwr_pixel(m, params(f), c, r), ..m }
    } else {
        m
    }
}

/// The controller after the transactions `fs`, in order.
pub open spec fn apply_frames(m: PanelRam, fs: Seq<Seq<TaggedByte>>) -> PanelRam
    decreases fs.len(),
{
    if fs.len() == 0 {
        m
    } else {
        frame_effect(apply_frames(m, fs.drop_last()), fs.last())
    }
}

/// A bus at rest that has carried nothing yet.
pub open spec fn fresh_bus() -> LineState {
    LineState { cs_low: false, dc_high: false, current: Seq::empty(), frames: Seq::empty() }
}

/// The transactions a stream of bus steps delivers to the controller.
pub open spec fn received(es: Seq<BusEvent>) -> Seq<Seq<TaggedByte>> {
    run(fresh_bus(), es).frames
}

/// The panel after the bus steps `es`, starting from `m`.
pub open spec fn panel_after(m: PanelRam, es: Seq<BusEvent>) -> PanelRam {
    apply_frames(m, received(es))
}

/// Visible point `(x, y)` belongs to `area` and to the panel.
pub open spec fn area_shows(area: Rectangle, x: int, y: int) -> bool {
    &&& 0 <= x < LCD_W
    &&& 0 <= y < LCD_H
    &&& area.top_left.x <= x <= span_end(area.top_left.x, area.size.width)
    &&& area.top_left.y <= y <= span_end(area.top_left.y, area.size.height)
}

// ---------------------------------------------------------------------------
// Proofs.
// ---------------------------------------------------------------------------

proof fn lemma_params_of_command_frame(cmd: u8, p: Seq<u8>)
    ensures
        params(command_frame(cmd, p)) == p,
        command_frame(cmd, p)[0] == (false, cmd),
        command_frame(cmd, p).len() == p.len() + 1,
{
    assert(params(command_frame(cmd, p)) =~= p);
}

proof fn lemma_be16_pair(a: int, b: int)
    requires
        0 <= a < 65536,
        0 <= b < 65536,
    ensures
        (be16(a) + be16(b)).len() == 4,
        from_be16((be16(a) + be16(b))[0], (be16(a) + be16(b))[1]) == a,
        from_be16((be16(a) + be16(b))[2], (be16(a) + be16(b))[3]) == b,
{
}

/// CASET and RASET of a window set exactly that window.
proof fn lemma_window_sets_registers(m: PanelRam, x0: u16, y0: u16, x1: u16, y1: u16)
    requires
        x0 + LCD_X_OFFSET <= u16::MAX,
        x1 + LCD_X_OFFSET <= u16::MAX,
    ensures
        apply_frames(m, window_frames(x0, y0, x1, y1)) == (PanelRam {
            col_start: x0 + LCD_X_OFFSET,
            col_end: x1 + LCD_X_OFFSET,
            row_start: y0 as int,
            row_end: y1 as int,
            ..m
        }),
{
    let cas = be16(x0 + LCD_X_OFFSET) + be16(x1 + LCD_X_OFFSET);
    let ras = be16(y0 as int) + be16(y1 as int);
    lemma_params_of_command_frame(CMD_CASET, cas);
    lemma_params_of_command_frame(CMD_RASET, ras);
    lemma_be16_pair(x0 + LCD_X_OFFSET, x1 + LCD_X_OFFSET);
    lemma_be16_pair(y0 as int, y1 as int);
    let fs = window_frames(x0, y0, x1, y1);
    let one = seq![command_frame(CMD_CASET, cas)];
    assert(fs.drop_last() =~= one);
    assert(one.drop_last() =~= Seq::<Seq<TaggedByte>>::empty());
    assert(apply_frames(m, one.drop_last()) == m);
    let m1 = apply_frames(m, one);
    assert(m1 == frame_effect(m, command_frame(CMD_CASET, cas)));
    assert(m1 == PanelRam { col_start: x0 + LCD_X_OFFSET, col_end: x1 + LCD_X_OFFSET, ..m });
}

/// A RAMWR of `w * h` copies of `raw` into a `w × h` window colours exactly
/// that window.
proof fn lemma_ramwr_fills_window(m: PanelRam, raw: u16, c: int, r: int)
    requires
        m.col_start <= m.col_end,
        m.row_start <= m.row_end,
    ensures
        ({
            let w = m.col_end - m.col_start + 1;
            let h = m.row_end - m.row_start + 1;
            let n = (w * h) as nat;
            ramwr_pixel(m, pixel_bytes(raw, n), c, r) == if m.col_start <= c <= m.col_end
                && m.row_start <= r <= m.row_end {
                raw
            } else {
                (m.pixels)(c, r)
            }
        }),
{
    let w = m.col_end - m.col_start + 1;
    let h = m.row_end - m.row_start + 1;
    if m.col_start <= c <= m.col_end && m.row_start <= r <= m.row_end {
        let i = r - m.row_start;
        let j = c - m.col_start;
        let k = ramwr_index(m, c, r);
        assert(k == i * w + j);
        assert(0 <= i * w + j < w * h) by (nonlinear_arith)
            requires
                0 <= i < h,
                0 <= j < w,
        ;
        assert(w * h >= 0) by (nonlinear_arith)
            requires
                w > 0,
                h > 0,
        ;
        let p = pixel_bytes(raw, (w * h) as nat);
        assert(p.len() == 2 * (w * h));
        assert(p[2 * k] == be16(raw as int)[0]);
        assert((2 * k + 1) % 2 == 1);
        assert(p[2 * k + 1] == be16(raw as int)[1]);
        assert(word(p, k) == raw);
    }
}

/// Filling a non-empty rectangle colours exactly the rectangle (shifted by
/// the hidden column offset on the controller) and leaves every other pixel
/// as it was.
pub proof fn law_fill_rect_pixels(m: PanelRam, x0: u16, y0: u16, x1: u16, y1: u16, raw: u16)
    requires
        x0 <= x1,
        y0 <= y1,
        x1 + LCD_X_OFFSET <= u16::MAX,
    ensures
        forall|c: int, r: int|
            #[trigger] (panel_after(m, fill_rect_events(x0, y0, x1, y1, raw)).pixels)(c, r) == if x0
                + LCD_X_OFFSET <= c <= x1 + LCD_X_OFFSET && y0 <= r <= y1 {
                raw
            } else {
                (m.pixels)(c, r)
            },
{
    let total = rect_area(x0, y0, x1, y1);
    law_fill_rect_frames(fresh_bus(), x0, y0, x1, y1, raw);
    let wf = window_frames(x0, y0, x1, y1);
    let rf = command_frame(CMD_RAMWR, pixel_bytes(raw, total));
    assert(received(fill_rect_events(x0, y0, x1, y1, raw)) =~= wf.push(rf));
    assert(wf.push(rf).drop_last() =~= wf);
    lemma_window_sets_registers(m, x0, y0, x1, y1);
    let m1 = apply_frames(m, wf);
    lemma_params_of_command_frame(CMD_RAMWR, pixel_bytes(raw, total));
    assert((m1.col_end - m1.col_start + 1) * (m1.row_end - m1.row_start + 1) == total);
    let m2 = frame_effect(m1, rf);
    assert forall|c: int, r: int|
        #[trigger] (panel_after(m, fill_rect_events(x0, y0, x1, y1, raw)).pixels)(c, r) == if x0
            + LCD_X_OFFSET <= c <= x1 + LCD_X_OFFSET && y0 <= r <= y1 {
            raw
        } else {
            (m.pixels)(c, r)
        } by {
        lemma_ramwr_fills_window(m1, raw, c, r);
        assert((m2.pixels)(c, r) == ramwr_pixel(m1, pixel_bytes(raw, total), c, r));
    }
}

/// Drawing a pixel colours exactly that pixel when it lies on the panel,
/// and nothing otherwise.
pub proof fn law_draw_pixel_pixels(m: PanelRam, p: Pixel)
    ensures
        forall|c: int, r: int|
            #[trigger] (panel_after(m, pixel_events(p)).pixels)(c, r) == if on_panel(p.0.x, p.0.y)
                && c == p.0.x + LCD_X_OFFSET && r == p.0.y {
                p.1.storage()
            } else {
                (m.pixels)(c, r)
            },
{
    law_draw_pixel_frames(fresh_bus(), p);
    if on_panel(p.0.x, p.0.y) {
        let x = p.0.x as u16;
        let y = p.0.y as u16;
        let wf = window_frames(x, y, x, y);
        let bytes = be16(p.1.storage() as int);
        let rf = command_frame(CMD_RAMWR, bytes);
        assert(received(pixel_events(p)) =~= wf.push(rf));
        assert(wf.push(rf).drop_last() =~= wf);
        lemma_window_sets_registers(m, x, y, x, y);
        let m1 = apply_frames(m, wf);
        lemma_params_of_command_frame(CMD_RAMWR, bytes);
        assert(bytes =~= pixel_bytes(p.1.storage(), 1));
        assert forall|c: int, r: int|
            #[trigger] (panel_after(m, pixel_events(p)).pixels)(c, r) == if on_panel(p.0.x, p.0.y)
                && c == p.0.x + LCD_X_OFFSET && r == p.0.y {
                p.1.storage()
            } else {
                (m.pixels)(c, r)
            } by {
            lemma_ramwr_fills_window(m1, p.1.storage(), c, r);
        }
    } else {
        assert(received(pixel_events(p)) =~= Seq::<Seq<TaggedByte>>::empty());
    }
}

/// `fill_solid` colours exactly the visible pixels of the area and leaves
/// every other pixel as it was, whatever the area: the effect of drawing
/// each point of the area in that colour, with the points off the panel
/// discarded.
pub proof fn law_fill_solid_pixels(m: PanelRam, area: Rectangle, raw: u16)
    ensures
        forall|c: int, r: int|
            #[trigger] (panel_after(m, fill_solid_events(area, raw)).pixels)(c, r) == if area_shows(
                area,
                c - LCD_X_OFFSET,
                r,
            ) {
                raw
            } else {
                (m.pixels)(c, r)
            },
{
    if meets_panel(area) {
        law_fill_solid_clips_to_panel(area, raw);
        let x = area.top_left.x;
        let y = area.top_left.y;
        let x0: int = if x < 0 { 0 } else { x as int };
        let y0: int = if y < 0 { 0 } else { y as int };
        let xe = span_end(x, area.size.width);
        let ye = span_end(y, area.size.height);
        let x1: int = if xe < LCD_W - 1 { xe } else { LCD_W - 1 };
        let y1: int = if ye < LCD_H - 1 { ye } else { LCD_H - 1 };
        law_fill_rect_pixels(m, x0 as u16, y0 as u16, x1 as u16, y1 as u16, raw);
    } else {
        assert(fill_solid_events(area, raw) =~= Seq::<BusEvent>::empty());
        assert(received(Seq::<BusEvent>::empty()) =~= Seq::<Seq<TaggedByte>>::empty());
    }
}

/// The transactions of drawing one pixel: a one-pixel window and a RAMWR
/// with its word, or nothing off the panel.
pub open spec fn pixel_frames(p: Pixel) -> Seq<Seq<TaggedByte>> {
    if on_panel(p.0.x, p.0.y) {
        window_frames(p.0.x as u16, p.0.y as u16, p.0.x as u16, p.0.y as u16).push(
            command_frame(CMD_RAMWR, be16(p.1.storage() as int)),
        )
    } else {
        Seq::empty()
    }
}

/// The transactions of drawing the pixels `ps` in order.
pub open spec fn draw_frames(ps: Seq<Pixel>) -> Seq<Seq<TaggedByte>>
    decreases ps.len(),
{
    if ps.len() == 0 {
        Seq::empty()
    } else {
        draw_frames(ps.drop_last()) + pixel_frames(ps.last())
    }
}

/// The display memory after drawing the pixels `ps` in order over `base`:
/// each point shows the colour of the last pixel drawn there on the panel.
pub open spec fn drawn_pixels(base: spec_fn(int, int) -> u16, ps: Seq<Pixel>) -> spec_fn(
    int,
    int,
) -> u16
    decreases ps.len(),
{
    if ps.len() == 0 {
        base
    } else {
        let prev = drawn_pixels(base, ps.drop_last());
        let p = ps.last();
        |c: int, r: int|
            if on_panel(p.0.x, p.0.y) && c == p.0.x + LCD_X_OFFSET && r == p.0.y {
                p.1.storage()
            } else {
                prev(c, r)
            }
    }
}

proof fn lemma_apply_frames_append(m: PanelRam, a: Seq<Seq<TaggedByte>>, b: Seq<Seq<TaggedByte>>)
    ensures
        apply_frames(m, a + b) == apply_frames(apply_frames(m, a), b),
    decreases b.len(),
{
    if b.len() == 0 {
        assert(a + b =~= a);
    } else {
        lemma_apply_frames_append(m, a, b.drop_last());
        assert((a + b).drop_last() =~= a + b.drop_last());
        assert((a + b).last() == b.last());
    }
}

/// Drawing pixels from an idle bus leaves it idle and delivers their
/// transactions in order.
proof fn lemma_run_draw_events(s: LineState, ps: Seq<Pixel>)
    requires
        idle(s),
    ensures
        idle(run(s, draw_events(ps))),
        run(s, draw_events(ps)).frames == s.frames + draw_frames(ps),
    decreases ps.len(),
{
    if ps.len() == 0 {
        assert(draw_events(ps) =~= Seq::<BusEvent>::empty());
        assert(s.frames + draw_frames(ps) =~= s.frames);
    } else {
        let prev = ps.drop_last();
        let p = ps.last();
        lemma_run_draw_events(s, prev);
        lemma_run_append(s, draw_events(prev), pixel_events(p));
        let s1 = run(s, draw_events(prev));
        law_draw_pixel_frames(s1, p);
        assert(s1.frames + pixel_frames(p) == s.frames + draw_frames(ps)) by {
            assert(s.frames + draw_frames(prev) + pixel_frames(p) =~= s.frames + (draw_frames(prev)
                + pixel_frames(p)));
        }
        if on_panel(p.0.x, p.0.y) {
            assert(run(s1, pixel_events(p)).frames =~= s1.frames + pixel_frames(p));
        } else {
            assert(s1.frames + pixel_frames(p) =~= s1.frames);
        }
    }
}

proof fn lemma_draw_frames_pixels(m: PanelRam, ps: Seq<Pixel>, c: int, r: int)
    ensures
        (apply_frames(m, draw_frames(ps)).pixels)(c, r) == drawn_pixels(m.pixels, ps)(c, r),
    decreases ps.len(),
{
    if ps.len() > 0 {
        let prev = ps.drop_last();
        let p = ps.last();
        lemma_draw_frames_pixels(m, prev, c, r);
        lemma_apply_frames_append(m, draw_frames(prev), pixel_frames(p));
        let m1 = apply_frames(m, draw_frames(prev));
        law_draw_pixel_pixels(m1, p);
        law_draw_pixel_frames(fresh_bus(), p);
        assert(received(pixel_events(p)) =~= pixel_frames(p));
        assert((panel_after(m1, pixel_events(p)).pixels)(c, r) == (apply_frames(
            m1,
            pixel_frames(p),
        ).pixels)(c, r));
    }
}

/// Drawing pixels in order leaves each point of the panel with the colour
/// of the last pixel drawn there; pixels off the panel change nothing.
pub proof fn law_draw_iter_pixels(m: PanelRam, ps: Seq<Pixel>)
    ensures
        forall|c: int, r: int|
            #[trigger] (panel_after(m, draw_events(ps)).pixels)(c, r) == drawn_pixels(m.pixels, ps)(
                c,
                r,
            ),
{
    lemma_run_draw_events(fresh_bus(), ps);
    assert(received(draw_events(ps)) =~= draw_frames(ps));
    assert forall|c: int, r: int|
        #[trigger] (panel_after(m, draw_events(ps)).pixels)(c, r) == drawn_pixels(m.pixels, ps)(
            c,
            r,
        ) by {
        lemma_draw_frames_pixels(m, ps, c, r);
    }
}

// ---------------------------------------------------------------------------
// The same laws, stated with the panel's literal numbers.
// ---------------------------------------------------------------------------

/// Drawing a pixel colours controller pixel `(x + 34, y)` with its colour
/// exactly when `0 <= x < 172` and `0 <= y < 320`; every other pixel, and
/// every pixel when the point is off the panel, keeps its value.
pub proof fn law_draw_pixel_colours_its_point(m: PanelRam, p: Pixel)
    ensures
        forall|c: int, r: int|
            #[trigger] (panel_after(m, pixel_events(p)).pixels)(c, r) == if 0 <= p.0.x < 172 && 0
                <= p.0.y < 320 && c == p.0.x + 34 && r == p.0.y {
                p.1.storage()
            } else {
                (m.pixels)(c, r)
            },
{
    law_draw_pixel_pixels(m, p);
}

/// Drawing a pixel with `0 <= x < 172` and `0 <= y < 320` delivers exactly
/// three transactions: CASET with column `x + 34` twice, RASET with row `y`
/// twice, and RAMWR with the colour's high and low bytes; any other pixel
/// delivers none.
pub proof fn law_draw_pixel_transactions(p: Pixel)
    ensures
        (0 <= p.0.x < 172 && 0 <= p.0.y < 320) ==> received(pixel_events(p)) == seq![
            seq![
                (false, 0x2Au8),
                (true, ((p.0.x + 34) / 256) as u8),
                (true, ((p.0.x + 34) % 256) as u8),
                (true, ((p.0.x + 34) / 256) as u8),
                (true, ((p.0.x + 34) % 256) as u8),
            ],
            seq![
                (false, 0x2Bu8),
                (true, (p.0.y / 256) as u8),
                (true, (p.0.y % 256) as u8),
                (true, (p.0.y / 256) as u8),
                (true, (p.0.y % 256) as u8),
            ],
            seq![
                (false, 0x2Cu8),
                (true, (p.1.storage() / 256) as u8),
                (true, (p.1.storage() % 256) as u8),
            ],
        ],
        !(0 <= p.0.x < 172 && 0 <= p.0.y < 320) ==> received(pixel_events(p)) == Seq::<
            Seq<TaggedByte>,
        >::empty(),
{
    law_draw_pixel_frames(fresh_bus(), p);
    if 0 <= p.0.x < 172 && 0 <= p.0.y < 320 {
        let x = p.0.x as u16;
        let y = p.0.y as u16;
        let f = received(pixel_events(p));
        assert(f =~= window_frames(x, y, x, y).push(
            command_frame(CMD_RAMWR, be16(p.1.storage() as int)),
        ));
        assert(f[0] =~= seq![
            (false, 0x2Au8),
            (true, ((p.0.x + 34) / 256) as u8),
            (true, ((p.0.x + 34) % 256) as u8),
            (true, ((p.0.x + 34) / 256) as u8),
            (true, ((p.0.x + 34) % 256) as u8),
        ]);
        assert(f[1] =~= seq![
            (false, 0x2Bu8),
            (true, (p.0.y / 256) as u8),
            (true, (p.0.y % 256) as u8),
            (true, (p.0.y / 256) as u8),
            (true, (p.0.y % 256) as u8),
        ]);
        assert(f[2] =~= seq![
            (false, 0x2Cu8),
            (true, (p.1.storage() / 256) as u8),
            (true, (p.1.storage() % 256) as u8),
        ]);
        assert(f =~= seq![f[0], f[1], f[2]]);
    } else {
        assert(received(pixel_events(p)) =~= Seq::<Seq<TaggedByte>>::empty());
    }
}

/// `fill_solid` colours visible point `(x, y)` (controller pixel
/// `(x + 34, y)`) exactly when `0 <= x < 172`, `0 <= y < 320`,
/// `ax <= x <= ax + width - 1` and `ay <= y <= ay + height - 1`, for the
/// area's corner `(ax, ay)`; every other pixel keeps its value.
pub proof fn law_fill_solid_colours_visible_area(m: PanelRam, area: Rectangle, raw: u16)
    ensures
        forall|c: int, r: int|
            #[trigger] (panel_after(m, fill_solid_events(area, raw)).pixels)(c, r) == if 0 <= c - 34
                < 172 && 0 <= r < 320 && area.top_left.x <= c - 34 <= area.top_left.x
                + area.size.width - 1 && area.top_left.y <= r <= area.top_left.y + area.size.height
                - 1 {
                raw
            } else {
                (m.pixels)(c, r)
            },
{
    law_fill_solid_pixels(m, area, raw);
}

/// Filling a non-empty rectangle delivers exactly three transactions:
/// CASET with columns `x0 + 34` and `x1 + 34`, RASET with rows `y0` and
/// `y1` (each big-endian), and one RAMWR carrying two bytes per pixel of
/// the rectangle.
pub proof fn law_fill_rect_transactions(x0: u16, y0: u16, x1: u16, y1: u16, raw: u16)
    requires
        x0 <= x1,
        y0 <= y1,
    ensures
        received(fill_rect_events(x0, y0, x1, y1, raw)).len() == 3,
        received(fill_rect_events(x0, y0, x1, y1, raw))[0] == seq![
            (false, 0x2Au8),
            (true, ((x0 + 34) / 256) as u8),
            (true, ((x0 + 34) % 256) as u8),
            (true, ((x1 + 34) / 256) as u8),
            (true, ((x1 + 34) % 256) as u8),
        ],
        received(fill_rect_events(x0, y0, x1, y1, raw))[1] == seq![
            (false, 0x2Bu8),
            (true, (y0 / 256) as u8),
            (true, (y0 % 256) as u8),
            (true, (y1 / 256) as u8),
            (true, (y1 % 256) as u8),
        ],
        received(fill_rect_events(x0, y0, x1, y1, raw))[2][0] == (false, 0x2Cu8),
        received(fill_rect_events(x0, y0, x1, y1, raw))[2].len() == 1 + 2 * ((x1 - x0 + 1) * (y1
            - y0 + 1)),
{
    law_fill_rect_frames(fresh_bus(), x0, y0, x1, y1, raw);
    let f = received(fill_rect_events(x0, y0, x1, y1, raw));
    let total = rect_area(x0, y0, x1, y1);
    assert(f =~= window_frames(x0, y0, x1, y1).push(
        command_frame(CMD_RAMWR, pixel_bytes(raw, total)),
    ));
    assert(f[0] =~= seq![
        (false, 0x2Au8),
        (true, ((x0 + 34) / 256) as u8),
        (true, ((x0 + 34) % 256) as u8),
        (true, ((x1 + 34) / 256) as u8),
        (true, ((x1 + 34) % 256) as u8),
    ]);
    assert(f[1] =~= seq![
        (false, 0x2Bu8),
        (true, (y0 / 256) as u8),
        (true, (y0 % 256) as u8),
        (true, (y1 / 256) as u8),
        (true, (y1 % 256) as u8),
    ]);
    assert((x1 - x0 + 1) * (y1 - y0 + 1) >= 0) by (nonlinear_arith)
        requires
            x0 <= x1,
            y0 <= y1,
    ;
    lemma_params_of_command_frame(CMD_RAMWR, pixel_bytes(raw, total));
}

/// `fill_solid` of an area with corner `(ax, ay)` delivers nothing when the
/// area has no pixel on the 172 × 320 panel; otherwise exactly the three
/// transactions of filling columns `max(ax, 0) ..= min(ax + width - 1, 171)`
/// and rows `max(ay, 0) ..= min(ay + height - 1, 319)`.
pub proof fn law_fill_solid_transactions(area: Rectangle, raw: u16)
    ensures
        ({
            let ax = area.top_left.x as int;
            let ay = area.top_left.y as int;
            let xe = ax + area.size.width - 1;
            let ye = ay + area.size.height - 1;
            let x0 = if ax < 0 { 0 } else { ax };
            let y0 = if ay < 0 { 0 } else { ay };
            let x1 = if xe < 171 { xe } else { 171 };
            let y1 = if ye < 319 { ye } else { 319 };
            if area.size.width > 0 && area.size.height > 0 && ax < 172 && ay < 320 && xe >= 0 && ye
                >= 0 {
                &&& 0 <= x0 <= x1 < 172
                &&& 0 <= y0 <= y1 < 320
                &&& received(fill_solid_events(area, raw)) == received(
                    fill_rect_events(x0 as u16, y0 as u16, x1 as u16, y1 as u16, raw),
                )
            } else {
                received(fill_solid_events(area, raw)) == Seq::<Seq<TaggedByte>>::empty()
            }
        }),
{
    if meets_panel(area) {
        law_fill_solid_clips_to_panel(area, raw);
    } else {
        assert(fill_solid_events(area, raw) =~= Seq::<BusEvent>::empty());
        assert(received(Seq::<BusEvent>::empty()) =~= Seq::<Seq<TaggedByte>>::empty());
    }
}

/// Drawing `a` and then `b` queues exactly what drawing `a + b` queues:
/// `draw_iter` adds nothing between or after the pixels.
pub proof fn law_draw_events_concat(a: Seq<Pixel>, b: Seq<Pixel>)
    ensures
        draw_events(a + b) == draw_events(a) + draw_events(b),
    decreases b.len(),
{
    if b.len() == 0 {
        assert(a + b =~= a);
        assert(draw_events(b) =~= Seq::<BusEvent>::empty());
        assert(draw_events(a) + draw_events(b) =~= draw_events(a));
    } else {
        law_draw_events_concat(a, b.drop_last());
        assert((a + b).drop_last() =~= a + b.drop_last());
        assert((a + b).last() == b.last());
        assert(draw_events(a + b) =~= draw_events(a) + draw_events(b));
    }
}

/// Drawing one pixel with `draw_iter` queues exactly what `draw_pixel`
/// queues for it.
pub proof fn law_draw_events_single(p: Pixel)
    ensures
        draw_events(seq![p]) == pixel_events(p),
{
    assert(seq![p].drop_last() =~= Seq::<Pixel>::empty());
    assert(draw_events(Seq::<Pixel>::empty()) + pixel_events(p) =~= pixel_events(p));
}

proof fn lemma_draw_frames_on_panel(ps: Seq<Pixel>)
    requires
        forall|i: int| 0 <= i < ps.len() ==> 0 <= (#[trigger] ps[i]).0.x < 172 && 0 <= ps[i].0.y < 320,
    ensures
        draw_frames(ps).len() == 3 * ps.len(),
        forall|i: int|
            0 <= i < ps.len() ==> draw_frames(ps).subrange(3 * i, 3 * i + 3) == received(
                pixel_events(#[trigger] ps[i]),
            ),
    decreases ps.len(),
{
    if ps.len() > 0 {
        let prev = ps.drop_last();
        let p = ps.last();
        lemma_draw_frames_on_panel(prev);
        law_draw_pixel_frames(fresh_bus(), p);
        assert(received(pixel_events(p)) =~= pixel_frames(p));
        let f = draw_frames(ps);
        assert(f == draw_frames(prev) + pixel_frames(p));
        assert forall|i: int| 0 <= i < ps.len() implies f.subrange(3 * i, 3 * i + 3) == received(
            pixel_events(#[trigger] ps[i]),
        ) by {
            if i < prev.len() {
                assert(ps[i] == prev[i]);
                assert(f.subrange(3 * i, 3 * i + 3) =~= draw_frames(prev).subrange(3 * i, 3 * i + 3));
            } else {
                assert(ps[i] == p);
                assert(f.subrange(3 * i, 3 * i + 3) =~= pixel_frames(p));
            }
        }
    }
}

/// Drawing pixels that all lie on the 172 × 320 panel delivers exactly
/// three transactions per pixel, in order: for pixel `i`, transactions
/// `3i .. 3i + 3` are the ones that drawing that pixel alone delivers, and
/// nothing else is sent.
pub proof fn law_draw_iter_transactions(ps: Seq<Pixel>)
    requires
        forall|i: int| 0 <= i < ps.len() ==> 0 <= (#[trigger] ps[i]).0.x < 172 && 0 <= ps[i].0.y < 320,
    ensures
        received(draw_events(ps)).len() == 3 * ps.len(),
        forall|i: int|
            0 <= i < ps.len() ==> received(draw_events(ps)).subrange(3 * i, 3 * i + 3) == received(
                pixel_events(#[trigger] ps[i]),
            ),
{
    lemma_run_draw_events(fresh_bus(), ps);
    assert(received(draw_events(ps)) =~= draw_frames(ps));
    lemma_draw_frames_on_panel(ps);
}

} // verus!
