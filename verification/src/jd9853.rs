//! Driver for the JD9853 172×320 RGB565 LCD on a 4-wire SPI bus.
//!
//! [`Jd9853Display`] turns drawing requests into the exact stream of bus
//! operations the controller needs and keeps them in a queue; the owner of
//! the SPI peripheral and of the CS/DC lines drains the queue with
//! [`Jd9853Display::take_ops`] and plays it back in order.

use crate::bus::{
    after_frames, be16, cmd_events, command_frame, events, idle, law_write_cmd_is_one_transaction,
    lemma_run_append, push_op, repeated_writes, run, split_be16, step, tag, BusEvent, BusOp, LineState,
    TaggedByte,
};
use crate::color::Rgb565;
use crate::panel::{init_seq_spec, LCD_H, LCD_W, LCD_X_OFFSET};
use vstd::prelude::*;

verus! {

/// A point of the panel, in pixels from the top-left corner.
#[derive(Clone, Copy, Debug, PartialEq, Eq, Structural)]
pub struct Point {
    pub x: i32,
    pub y: i32,
}

/// The size of a rectangle, in pixels.
#[derive(Clone, Copy, Debug, PartialEq, Eq, Structural)]
pub struct Size {
    pub width: u32,
    pub height: u32,
}

/// An axis-aligned rectangle: its top-left corner and its size.
#[derive(Clone, Copy, Debug, PartialEq, Eq, Structural)]
pub struct Rectangle {
    pub top_left: Point,
    pub size: Size,
}

/// One pixel to draw: where, and in which colour.
#[derive(Clone, Copy, Debug, PartialEq, Eq, Structural)]
pub struct Pixel(pub Point, pub Rgb565);

/// Command: column address set (CASET).
pub const CMD_CASET: u8 = 0x2A;

/// Command: row address set (RASET).
pub const CMD_RASET: u8 = 0x2B;

/// Command: memory write (RAMWR); the pixel bytes follow as parameters.
pub const CMD_RAMWR: u8 = 0x2C;

/// Pixels sent per SPI write when filling: 32 pixels are 64 bytes, which fit
/// the SPI2 FIFO without DMA.
pub const CHUNK_PIXELS: u32 = 32;

// ---------------------------------------------------------------------------
// The streams each operation queues.
// ---------------------------------------------------------------------------

/// CASET with the columns shifted by the hidden offset, then RASET.
pub open spec fn window_events(x0: u16, y0: u16, x1: u16, y1: u16) -> Seq<BusEvent> {
    cmd_events(CMD_CASET, be16(x0 + LCD_X_OFFSET) + be16(x1 + LCD_X_OFFSET))
        + cmd_events(CMD_RASET, be16(y0 as int) + be16(y1 as int))
}

/// Opening a RAMWR transaction: chip select stays low and D/C is left high
/// for the pixel bytes that follow.
pub open spec fn ramwr_start_events() -> Seq<BusEvent> {
    seq![
        BusEvent::CsLow,
        BusEvent::DcLow,
        BusEvent::Write(seq![CMD_RAMWR]),
        BusEvent::Flush,
        BusEvent::DcHigh,
    ]
}

/// Closing a RAMWR transaction.
pub open spec fn ramwr_end_events() -> Seq<BusEvent> {
    seq![BusEvent::CsHigh]
}

/// `n` pixels of colour `raw` on the wire: its big-endian word, `n` times.
pub open spec fn pixel_bytes(raw: u16, n: nat) -> Seq<u8> {
    Seq::new(2 * n, |i: int| be16(raw as int)[i % 2])
}

/// The number of pixels of the rectangle with corners `(x0, y0)` and
/// `(x1, y1)`, both included.
pub open spec fn rect_area(x0: u16, y0: u16, x1: u16, y1: u16) -> nat {
    ((x1 - x0 + 1) * (y1 - y0 + 1)) as nat
}

/// The pixel data of a fill of `total` pixels: whole chunks of
/// [`CHUNK_PIXELS`] pixels, then the remaining pixels in one shorter write.
pub open spec fn fill_body_events(raw: u16, total: nat) -> Seq<BusEvent> {
    repeated_writes(pixel_bytes(raw, CHUNK_PIXELS as nat), total / (CHUNK_PIXELS as nat)) + if total
        % (CHUNK_PIXELS as nat) > 0 {
        seq![BusEvent::Write(pixel_bytes(raw, total % (CHUNK_PIXELS as nat))), BusEvent::Flush]
    } else {
        Seq::<BusEvent>::empty()
    }
}

/// What `fill_rect` queues: nothing for an empty rectangle, else the window,
/// then one RAMWR transaction carrying every pixel.
pub open spec fn fill_rect_events(x0: u16, y0: u16, x1: u16, y1: u16, raw: u16) -> Seq<
    BusEvent,
> {
    if x0 > x1 || y0 > y1 {
        Seq::empty()
    } else {
        window_events(x0, y0, x1, y1) + ramwr_start_events() + fill_body_events(
            raw,
            rect_area(x0, y0, x1, y1),
        ) + ramwr_end_events()
    }
}

/// The inputs on which `fill_rect` computes without overflow: the shifted
/// column addresses fit in 16 bits, and so do the width and the height.
pub open spec fn fill_rect_ok(x0: u16, y0: u16, x1: u16, y1: u16) -> bool {
    x0 > x1 || y0 > y1 || (x1 + LCD_X_OFFSET <= u16::MAX && y1 - y0 + 1 <= u16::MAX)
}

/// The point lies on the visible panel.
pub open spec fn on_panel(x: i32, y: i32) -> bool {
    0 <= x < LCD_W && 0 <= y < LCD_H
}

/// What drawing one pixel queues: nothing off the panel, else a one-pixel
/// window and one RAMWR transaction with the colour's two bytes.
pub open spec fn pixel_events(p: Pixel) -> Seq<BusEvent> {
    if on_panel(p.0.x, p.0.y) {
        window_events(p.0.x as u16, p.0.y as u16, p.0.x as u16, p.0.y as u16)
            + ramwr_start_events() + seq![
            BusEvent::Write(be16(p.1.storage() as int)),
            BusEvent::Flush,
        ] + ramwr_end_events()
    } else {
        Seq::empty()
    }
}

/// What drawing the pixels `ps` in order queues.
pub open spec fn draw_events(ps: Seq<Pixel>) -> Seq<BusEvent>
    decreases ps.len(),
{
    if ps.len() == 0 {
        Seq::empty()
    } else {
        draw_events(ps.drop_last()) + pixel_events(ps.last())
    }
}

/// The last column (or row) of a span of `len` pixels starting at `v`.
pub open spec fn span_end(v: i32, len: u32) -> int {
    v + len - 1
}

/// The area shares at least one pixel with the visible panel.
pub open spec fn meets_panel(area: Rectangle) -> bool {
    &&& area.size.width > 0
    &&& area.size.height > 0
    &&& area.top_left.x < LCD_W
    &&& area.top_left.y < LCD_H
    &&& span_end(area.top_left.x, area.size.width) >= 0
    &&& span_end(area.top_left.y, area.size.height) >= 0
}

/// First visible column or row of a span starting at `v`.
pub open spec fn clip_start(v: i32) -> int {
    if v < 0 {
        0
    } else {
        v as int
    }
}

/// Last visible column or row of a span ending at `end`, on a panel of
/// `limit` pixels.
pub open spec fn clip_end(end: int, limit: u16) -> int {
    if end < limit - 1 {
        end
    } else {
        limit - 1
    }
}

/// What `fill_solid` queues: nothing when the area misses the panel, else
/// the fill of its intersection with the panel.
pub open spec fn fill_solid_events(area: Rectangle, raw: u16) -> Seq<BusEvent> {
    if !meets_panel(area) {
        Seq::empty()
    } else {
        let x = area.top_left.x;
        let y = area.top_left.y;
        fill_rect_events(
            clip_start(x) as u16,
            clip_start(y) as u16,
            clip_end(span_end(x, area.size.width), LCD_W) as u16,
            clip_end(span_end(y, area.size.height), LCD_H) as u16,
            raw,
        )
    }
}

// ---------------------------------------------------------------------------
// The driver.
// ---------------------------------------------------------------------------

/// The JD9853 driver: the bus operations queued and not yet played back.
pub struct Jd9853Display {
    ops: Vec<BusOp>,
}

impl View for Jd9853Display {
    type V = Seq<BusEvent>;

    closed spec fn view(&self) -> Seq<BusEvent> {
        events(self.ops@)
    }
}

/// `n` copies of the big-endian word `hi, lo`.
fn pixel_chunk(hi: u8, lo: u8, n: u32) -> (chunk: Vec<u8>)
    ensures
        chunk@ == Seq::new(2 * n as nat, |i: int| seq![hi, lo][i % 2]),
{
    let mut chunk: Vec<u8> = Vec::new();
    let mut i: u32 = 0;
    while i < n
        invariant
            i <= n,
            chunk@ == Seq::new(2 * i as nat, |k: int| seq![hi, lo][k % 2]),
        decreases n - i,
    {
        chunk.push(hi);
        chunk.push(lo);
        i = i + 1;
        assert(chunk@ =~= Seq::new(2 * i as nat, |k: int| seq![hi, lo][k % 2]));
    }
    chunk
}

impl Jd9853Display {
    /// A driver with nothing queued.
    pub fn new() -> (d: Self)
        ensures
            d@ == Seq::<BusEvent>::empty(),
    {
        let d = Jd9853Display { ops: Vec::new() };
        assert(d@ =~= Seq::<BusEvent>::empty());
        d
    }

    /// Hands out the queued operations, oldest first, and empties the queue.
    pub fn take_ops(&mut self) -> (ops: Vec<BusOp>)
        ensures
            events(ops@) == old(self)@,
            final(self)@ == Seq::<BusEvent>::empty(),
    {
        let mut ops: Vec<BusOp> = Vec::new();
        std::mem::swap(&mut ops, &mut self.ops);
        assert(events(self.ops@) =~= Seq::<BusEvent>::empty());
        ops
    }

    /// Queues `cmd` and its parameters `data` as one transaction: chip
    /// select stays low from the command byte to the last parameter byte.
    pub fn write_cmd(&mut self, cmd: u8, data: &[u8])
        ensures
            final(self)@ == old(self)@ + cmd_events(cmd, data@),
    {
        crate::bus::write_cmd(&mut self.ops, cmd, data);
    }

    /// Sets the drawing window to columns `x0..=x1` and rows `y0..=y1` of
    /// the visible panel (CASET, then RASET); the hidden column offset is
    /// added here.
    pub fn set_window(&mut self, x0: u16, y0: u16, x1: u16, y1: u16)
        requires
            x0 + LCD_X_OFFSET <= u16::MAX,
            x1 + LCD_X_OFFSET <= u16::MAX,
        ensures
            final(self)@ == old(self)@ + window_events(x0, y0, x1, y1),
    {
        let ghost start = self@;
        let cx0 = x0 + LCD_X_OFFSET;
        let cx1 = x1 + LCD_X_OFFSET;
        let (a0, a1) = split_be16(cx0);
        let (b0, b1) = split_be16(cx1);
        let col = vec![a0, a1, b0, b1];
        assert(col@ =~= be16(cx0 as int) + be16(cx1 as int));
        self.write_cmd(CMD_CASET, col.as_slice());
        let (c0, c1) = split_be16(y0);
        let (d0, d1) = split_be16(y1);
        let row = vec![c0, c1, d0, d1];
        assert(row@ =~= be16(y0 as int) + be16(y1 as int));
        self.write_cmd(CMD_RASET, row.as_slice());
        assert(self@ =~= start + window_events(x0, y0, x1, y1));
    }

    /// Opens a RAMWR transaction: chip select goes low and stays low, D/C is
    /// left high for the pixel bytes.  Close it with [`Self::end_ramwr`].
    pub fn start_ramwr(&mut self)
        ensures
            final(self)@ == old(self)@ + ramwr_start_events(),
    {
        let ghost start = self@;
        push_op(&mut self.ops, BusOp::CsLow);
        push_op(&mut self.ops, BusOp::DcLow);
        let mut c: Vec<u8> = Vec::new();
        c.push(CMD_RAMWR);
        assert(c@ =~= seq![CMD_RAMWR]);
        push_op(&mut self.ops, BusOp::Write(c));
        push_op(&mut self.ops, BusOp::Flush);
        push_op(&mut self.ops, BusOp::DcHigh);
        assert(self@ =~= start + ramwr_start_events());
    }

    /// Closes the RAMWR transaction: chip select goes high.
    pub fn end_ramwr(&mut self)
        ensures
            final(self)@ == old(self)@ + ramwr_end_events(),
    {
        let ghost start = self@;
        push_op(&mut self.ops, BusOp::CsHigh);
        assert(self@ =~= start + ramwr_end_events());
    }

    /// Fills the rectangle with corners `(x0, y0)` and `(x1, y1)`, both
    /// included, with `color`; does nothing when `x0 > x1` or `y0 > y1`.
    /// The pixels go out in writes of [`CHUNK_PIXELS`] pixels.
    pub fn fill_rect(&mut self, x0: u16, y0: u16, x1: u16, y1: u16, color: Rgb565)
        requires
            fill_rect_ok(x0, y0, x1, y1),
        ensures
            final(self)@ == old(self)@ + fill_rect_events(x0, y0, x1, y1, color.storage()),
    {
        let ghost start = self@;
        if x0 > x1 || y0 > y1 {
            assert(self@ =~= start + fill_rect_events(x0, y0, x1, y1, color.storage()));
            return ;
        }
        self.set_window(x0, y0, x1, y1);

        let raw = color.into_storage();
        let (hi, lo) = split_be16(raw);
        let chunk = pixel_chunk(hi, lo, CHUNK_PIXELS);
        assert(chunk@ =~= pixel_bytes(raw, CHUNK_PIXELS as nat));

        let w: u32 = (x1 - x0 + 1) as u32;
        let h: u32 = (y1 - y0 + 1) as u32;
        assert(w * h <= 65535 * 65535) by (nonlinear_arith)
            requires
                w <= 65535,
                h <= 65535,
        ;
        let total_pixels: u32 = w * h;
        let full_chunks: u32 = total_pixels / CHUNK_PIXELS;
        let remainder_pixels: u32 = total_pixels % CHUNK_PIXELS;

        self.start_ramwr();
        let ghost body_start = self@;
        if full_chunks > 0 {
            let part = chunk.clone();
            assert(part@ =~= chunk@);
            push_op(&mut self.ops, BusOp::WriteRepeated(part, full_chunks));
        }
        assert(self@ =~= body_start + repeated_writes(chunk@, full_chunks as nat));
        if remainder_pixels > 0 {
            let bytes: usize = (remainder_pixels * 2) as usize;
            let part = vstd::slice::slice_to_vec(
                vstd::slice::slice_subrange(chunk.as_slice(), 0, bytes),
            );
            assert(part@ =~= pixel_bytes(raw, remainder_pixels as nat));
            push_op(&mut self.ops, BusOp::Write(part));
            push_op(&mut self.ops, BusOp::Flush);
        }
        assert(self@ =~= body_start + fill_body_events(raw, total_pixels as nat));
        self.end_ramwr();
        assert(total_pixels == rect_area(x0, y0, x1, y1));
        assert(self@ =~= start + fill_rect_events(x0, y0, x1, y1, color.storage()));
    }

    /// Draws one pixel: a one-pixel window and a RAMWR transaction with the
    /// colour's two bytes.  Pixels off the visible panel are skipped.
    pub fn draw_pixel(&mut self, p: Pixel)
        ensures
            final(self)@ == old(self)@ + pixel_events(p),
    {
        let ghost start = self@;
        let x = p.0.x;
        let y = p.0.y;
        if x < 0 || y < 0 || x >= LCD_W as i32 || y >= LCD_H as i32 {
            assert(self@ =~= start + pixel_events(p));
            return ;
        }
        let x = x as u16;
        let y = y as u16;
        self.set_window(x, y, x, y);
        let raw = p.1.into_storage();
        let (hi, lo) = split_be16(raw);
        let bytes = vec![hi, lo];
        assert(bytes@ =~= be16(raw as int));
        self.start_ramwr();
        push_op(&mut self.ops, BusOp::Write(bytes));
        push_op(&mut self.ops, BusOp::Flush);
        self.end_ramwr();
        assert(self@ =~= start + pixel_events(p));
    }

    /// Draws the pixels in order, one at a time; pixels off the visible
    /// panel are skipped.
    pub fn draw_iter(&mut self, pixels: &[Pixel])
        ensures
            final(self)@ == old(self)@ + draw_events(pixels@),
    {
        let ghost start = self@;
        let mut i: usize = 0;
        while i < pixels.len()
            invariant
                i <= pixels@.len(),
                self@ == start + draw_events(pixels@.take(i as int)),
            decreases pixels@.len() - i,
        {
            self.draw_pixel(pixels[i]);
            i = i + 1;
            assert(pixels@.take(i as int).drop_last() =~= pixels@.take(i - 1 as int));
            assert(self@ =~= start + draw_events(pixels@.take(i as int)));
        }
        assert(pixels@.take(i as int) =~= pixels@);
    }

    /// Fills the part of `area` that lies on the visible panel with
    /// `color`; an area that misses the panel (or has no pixels) draws
    /// nothing.
    pub fn fill_solid(&mut self, area: &Rectangle, color: Rgb565)
        ensures
            final(self)@ == old(self)@ + fill_solid_events(*area, color.storage()),
    {
        let ghost start = self@;
        let x = area.top_left.x as i64;
        let y = area.top_left.y as i64;
        let w = area.size.width as i64;
        let h = area.size.height as i64;
        if w == 0 || h == 0 {
            assert(self@ =~= start + fill_solid_events(*area, color.storage()));
            return ;
        }
        let xe: i64 = x + w - 1;
        let ye: i64 = y + h - 1;
        let xl: i64 = LCD_W as i64 - 1;
        let yl: i64 = LCD_H as i64 - 1;
        if xe < 0 || ye < 0 || x > xl || y > yl {
            assert(self@ =~= start + fill_solid_events(*area, color.storage()));
            return ;
        }
        let x0: i64 = if x < 0 {
            0
        } else {
            x
        };
        let y0: i64 = if y < 0 {
            0
        } else {
            y
        };
        let x1: i64 = if xe < xl {
            xe
        } else {
            xl
        };
        let y1: i64 = if ye < yl {
            ye
        } else {
            yl
        };
        self.fill_rect(x0 as u16, y0 as u16, x1 as u16, y1 as u16, color);
    }

    /// The visible size of the panel: 172 × 320 pixels.
    pub fn size(&self) -> (s: Size)
        ensures
            s.width == LCD_W,
            s.height == LCD_H,
    {
        Size { width: LCD_W as u32, height: LCD_H as u32 }
    }
}

// ---------------------------------------------------------------------------
// What the controller receives.
// ---------------------------------------------------------------------------

/// The CASET and RASET transactions of the window with corners `(x0, y0)`
/// and `(x1, y1)`.
pub open spec fn window_frames(x0: u16, y0: u16, x1: u16, y1: u16) -> Seq<Seq<TaggedByte>> {
    seq![
        command_frame(CMD_CASET, be16(x0 + LCD_X_OFFSET) + be16(x1 + LCD_X_OFFSET)),
        command_frame(CMD_RASET, be16(y0 as int) + be16(y1 as int)),
    ]
}

/// `n` copies of `chunk`, one after the other.
pub open spec fn repeat(chunk: Seq<u8>, n: nat) -> Seq<u8>
    decreases n,
{
    if n == 0 {
        Seq::empty()
    } else {
        repeat(chunk, (n - 1) as nat) + chunk
    }
}

proof fn lemma_tag_append(dc: bool, a: Seq<u8>, b: Seq<u8>)
    ensures
        tag(dc, a) + tag(dc, b) == tag(dc, a + b),
{
    assert(tag(dc, a) + tag(dc, b) =~= tag(dc, a + b));
}

proof fn lemma_pixel_bytes_append(raw: u16, a: nat, b: nat)
    ensures
        pixel_bytes(raw, a) + pixel_bytes(raw, b) == pixel_bytes(raw, a + b),
{
    let l = pixel_bytes(raw, a) + pixel_bytes(raw, b);
    let r = pixel_bytes(raw, a + b);
    assert forall|i: int| 0 <= i < l.len() implies l[i] == r[i] by {
        if i >= 2 * a {
            assert((i - 2 * a) % 2 == i % 2);
        }
    }
    assert(l =~= r);
}

#[verifier::spinoff_prover]
proof fn lemma_repeat_pixel_bytes(raw: u16, k: nat, n: nat)
    ensures
        repeat(pixel_bytes(raw, k), n) == pixel_bytes(raw, k * n),
    decreases n,
{
    if n == 0 {
        assert(k * n == 0) by (nonlinear_arith)
            requires
                n == 0,
        ;
        assert(pixel_bytes(raw, 0) =~= Seq::<u8>::empty());
    } else {
        let m = (n - 1) as nat;
        lemma_repeat_pixel_bytes(raw, k, m);
        lemma_pixel_bytes_append(raw, k * m, k);
        assert(k * m + k == k * n) by (nonlinear_arith)
            requires
                m + 1 == n,
        ;
        assert(repeat(pixel_bytes(raw, k), n) == repeat(pixel_bytes(raw, k), m) + pixel_bytes(raw, k));
    }
}

/// Inside an open transaction with D/C high, `n` chunk writes append the
/// chunk `n` times to the transaction, as parameter bytes.
proof fn lemma_run_repeated_writes(s: LineState, chunk: Seq<u8>, n: nat)
    requires
        s.cs_low,
        s.dc_high,
    ensures
        run(s, repeated_writes(chunk, n)) == (LineState {
            current: s.current + tag(true, repeat(chunk, n)),
            ..s
        }),
    decreases n,
{
    if n == 0 {
        assert(tag(true, Seq::<u8>::empty()) =~= Seq::<TaggedByte>::empty());
        assert(s.current + tag(true, repeat(chunk, n)) =~= s.current);
    } else {
        let prev = repeated_writes(chunk, (n - 1) as nat);
        let last = seq![BusEvent::Write(chunk), BusEvent::Flush];
        lemma_run_repeated_writes(s, chunk, (n - 1) as nat);
        lemma_run_append(s, prev, last);
        reveal_with_fuel(run, 3);
        lemma_tag_append(true, repeat(chunk, (n - 1) as nat), chunk);
        assert(s.current + tag(true, repeat(chunk, (n - 1) as nat)) + tag(true, chunk)
            =~= s.current + tag(true, repeat(chunk, n)));
    }
}

/// Opening RAMWR on an idle bus starts a transaction holding the command
/// byte, with D/C left high.
proof fn lemma_run_ramwr_start(s: LineState)
    requires
        idle(s),
    ensures
        run(s, ramwr_start_events()) == (LineState {
            cs_low: true,
            dc_high: true,
            current: seq![(false, CMD_RAMWR)],
            frames: s.frames,
        }),
{
    reveal_with_fuel(run, 6);
    assert(tag(false, seq![CMD_RAMWR]) =~= seq![(false, CMD_RAMWR)]);
    assert(run(s, ramwr_start_events()) =~= (LineState {
        cs_low: true,
        dc_high: true,
        current: seq![(false, CMD_RAMWR)],
        frames: s.frames,
    }));
}

/// A data write and flush inside an open transaction with D/C high adds the
/// bytes to the transaction.
proof fn lemma_run_data_write(s: LineState, bytes: Seq<u8>)
    requires
        s.cs_low,
        s.dc_high,
    ensures
        run(s, seq![BusEvent::Write(bytes), BusEvent::Flush]) == (LineState {
            current: s.current + tag(true, bytes),
            ..s
        }),
{
    reveal_with_fuel(run, 3);
    assert(run(s, seq![BusEvent::Write(bytes), BusEvent::Flush]) =~= (LineState {
        current: s.current + tag(true, bytes),
        ..s
    }));
}

/// Closing an open transaction completes its frame.
proof fn lemma_run_ramwr_end(s: LineState)
    requires
        s.cs_low,
    ensures
        run(s, ramwr_end_events()) == (LineState {
            cs_low: false,
            current: Seq::empty(),
            frames: s.frames.push(s.current),
            ..s
        }),
{
    reveal_with_fuel(run, 2);
    assert(run(s, ramwr_end_events()) =~= (LineState {
        cs_low: false,
        current: Seq::empty(),
        frames: s.frames.push(s.current),
        ..s
    }));
}

/// A window set on an idle bus reaches the controller as two transactions:
/// CASET with the shifted columns, then RASET with the rows, each holding
/// big-endian start and end addresses.
pub proof fn law_window_frames(s: LineState, x0: u16, y0: u16, x1: u16, y1: u16)
    requires
        idle(s),
    ensures
        run(s, window_events(x0, y0, x1, y1)) == after_frames(s, true, window_frames(x0, y0, x1, y1)),
{
    let cas = be16(x0 + LCD_X_OFFSET) + be16(x1 + LCD_X_OFFSET);
    let ras = be16(y0 as int) + be16(y1 as int);
    lemma_run_append(s, cmd_events(CMD_CASET, cas), cmd_events(CMD_RASET, ras));
    law_write_cmd_is_one_transaction(s, CMD_CASET, cas);
    let s1 = run(s, cmd_events(CMD_CASET, cas));
    law_write_cmd_is_one_transaction(s1, CMD_RASET, ras);
    assert(run(s, window_events(x0, y0, x1, y1)) =~= after_frames(s, true, window_frames(x0, y0, x1, y1)));
}

/// Filling a non-empty rectangle from an idle bus reaches the controller as
/// exactly three transactions: CASET and RASET for the rectangle, then one
/// RAMWR carrying the colour's big-endian word once per pixel of the
/// rectangle: chip select stays low across all the chunk writes.
#[verifier::spinoff_prover]
#[verifier::rlimit(40)]
pub proof fn law_fill_rect_frames(s: LineState, x0: u16, y0: u16, x1: u16, y1: u16, raw: u16)
    requires
        idle(s),
        x0 <= x1,
        y0 <= y1,
    ensures
        run(s, fill_rect_events(x0, y0, x1, y1, raw)) == after_frames(
            s,
            true,
            window_frames(x0, y0, x1, y1).push(
                command_frame(CMD_RAMWR, pixel_bytes(raw, rect_area(x0, y0, x1, y1))),
            ),
        ),
{
    let total = rect_area(x0, y0, x1, y1);
    let k = CHUNK_PIXELS as nat;
    let full = total / k;
    let rem = total % k;
    let win = window_events(x0, y0, x1, y1);
    let chunks = repeated_writes(pixel_bytes(raw, k), full);
    let tail = if rem > 0 {
        seq![BusEvent::Write(pixel_bytes(raw, rem)), BusEvent::Flush]
    } else {
        Seq::<BusEvent>::empty()
    };
    assert(fill_rect_events(x0, y0, x1, y1, raw) == win + ramwr_start_events() + (chunks + tail)
        + ramwr_end_events());
    lemma_run_append(s, win + ramwr_start_events() + (chunks + tail), ramwr_end_events());
    lemma_run_append(s, win + ramwr_start_events(), chunks + tail);
    lemma_run_append(s, win, ramwr_start_events());
    law_window_frames(s, x0, y0, x1, y1);
    let s1 = run(s, win);
    lemma_run_ramwr_start(s1);
    let s2 = run(s1, ramwr_start_events());
    lemma_run_append(s2, chunks, tail);
    lemma_run_repeated_writes(s2, pixel_bytes(raw, k), full);
    lemma_repeat_pixel_bytes(raw, k, full);
    let s3 = run(s2, chunks);
    let s4 = run(s3, tail);
    assert(k * full + rem == total);
    lemma_pixel_bytes_append(raw, k * full, rem);
    if rem > 0 {
        lemma_run_data_write(s3, pixel_bytes(raw, rem));
        lemma_tag_append(true, pixel_bytes(raw, k * full), pixel_bytes(raw, rem));
        assert(s4.current =~= s2.current + tag(true, pixel_bytes(raw, total)));
    } else {
        assert(tail =~= Seq::<BusEvent>::empty());
        assert(pixel_bytes(raw, k * full) =~= pixel_bytes(raw, total));
        assert(s4.current =~= s2.current + tag(true, pixel_bytes(raw, total)));
    }
    assert(s4.current =~= command_frame(CMD_RAMWR, pixel_bytes(raw, total)));
    lemma_run_ramwr_end(s4);
    let s5 = run(s4, ramwr_end_events());
    assert(s5 =~= after_frames(
        s,
        true,
        window_frames(x0, y0, x1, y1).push(command_frame(CMD_RAMWR, pixel_bytes(raw, total))),
    ));
}

/// Drawing a pixel on the panel from an idle bus reaches the controller as
/// a one-pixel window (CASET, RASET) and a RAMWR holding the colour's two
/// bytes, high byte first; a pixel off the panel sends nothing.
#[verifier::spinoff_prover]
pub proof fn law_draw_pixel_frames(s: LineState, p: Pixel)
    requires
        idle(s),
    ensures
        on_panel(p.0.x, p.0.y) ==> run(s, pixel_events(p)) == after_frames(
            s,
            true,
            window_frames(p.0.x as u16, p.0.y as u16, p.0.x as u16, p.0.y as u16).push(
                command_frame(CMD_RAMWR, be16(p.1.storage() as int)),
            ),
        ),
        !on_panel(p.0.x, p.0.y) ==> run(s, pixel_events(p)) == s,
{
    if on_panel(p.0.x, p.0.y) {
        let x = p.0.x as u16;
        let y = p.0.y as u16;
        let win = window_events(x, y, x, y);
        let body = seq![BusEvent::Write(be16(p.1.storage() as int)), BusEvent::Flush];
        assert(pixel_events(p) == win + ramwr_start_events() + body + ramwr_end_events());
        lemma_run_append(s, win + ramwr_start_events() + body, ramwr_end_events());
        lemma_run_append(s, win + ramwr_start_events(), body);
        lemma_run_append(s, win, ramwr_start_events());
        law_window_frames(s, x, y, x, y);
        let s1 = run(s, win);
        lemma_run_ramwr_start(s1);
        let s2 = run(s1, ramwr_start_events());
        lemma_run_data_write(s2, be16(p.1.storage() as int));
        let s3 = run(s2, body);
        assert(s3.current =~= command_frame(CMD_RAMWR, be16(p.1.storage() as int)));
        lemma_run_ramwr_end(s3);
        let s4 = run(s3, ramwr_end_events());
        assert(s4 =~= after_frames(
            s,
            true,
            window_frames(x, y, x, y).push(command_frame(CMD_RAMWR, be16(p.1.storage() as int))),
        ));
    } else {
        assert(run(s, pixel_events(p)) == run(s, Seq::<BusEvent>::empty()));
    }
}

/// Every write that `fill_rect` queues is at most 64 bytes long, so each one
/// fits the SPI2 FIFO without DMA.
pub proof fn law_fill_rect_writes_fit_fifo(x0: u16, y0: u16, x1: u16, y1: u16, raw: u16)
    ensures
        forall|i: int|
            0 <= i < fill_rect_events(x0, y0, x1, y1, raw).len() ==> (
            #[trigger] fill_rect_events(x0, y0, x1, y1, raw)[i] matches BusEvent::Write(b)
                ==> b.len() <= 64),
{
    if x0 <= x1 && y0 <= y1 {
        let total = rect_area(x0, y0, x1, y1);
        let k = CHUNK_PIXELS as nat;
        lemma_repeated_writes_short(pixel_bytes(raw, k), total / k);
        let es = fill_rect_events(x0, y0, x1, y1, raw);
        assert forall|i: int| 0 <= i < es.len() implies (#[trigger] es[i] matches BusEvent::Write(
            b,
        ) ==> b.len() <= 64) by {}
    }
}

proof fn lemma_repeated_writes_short(chunk: Seq<u8>, n: nat)
    requires
        chunk.len() <= 64,
    ensures
        forall|i: int|
            0 <= i < repeated_writes(chunk, n).len() ==> (#[trigger] repeated_writes(chunk, n)[i] matches BusEvent::Write(b) ==> b.len() <= 64),
        repeated_writes(chunk, n).len() == 2 * n,
    decreases n,
{
    if n > 0 {
        lemma_repeated_writes_short(chunk, (n - 1) as nat);
    }
}

/// The power-up sequence has 34 steps; its column and row address steps
/// set exactly the window that `set_window` sets for the whole visible
/// panel (columns 34..=205 on the controller, rows 0..=319); and it selects
/// 16-bit RGB565 pixels (COLMOD 0x05), the two-byte words that RAMWR
/// carries.
pub proof fn law_init_seq_matches_panel()
    ensures
        init_seq_spec().len() == 34,
        cmd_events(init_seq_spec()[27].0, init_seq_spec()[27].1) + cmd_events(
            init_seq_spec()[28].0,
            init_seq_spec()[28].1,
        ) == window_events(0, 0, (LCD_W - 1) as u16, (LCD_H - 1) as u16),
        init_seq_spec()[26].0 == 0x3A && init_seq_spec()[26].1 == seq![0x05u8],
{
    let s = init_seq_spec();
    assert(s[27].1 =~= be16(0 + LCD_X_OFFSET) + be16((LCD_W - 1) as u16 + LCD_X_OFFSET));
    assert(s[28].1 =~= be16(0) + be16((LCD_H - 1) as int));
}

/// A non-empty area that meets the visible panel is filled exactly on its
/// part of the panel: columns from `max(x, 0)` to `min(x + width - 1, 171)`
/// and rows from `max(y, 0)` to `min(y + height - 1, 319)`; that part is a
/// proper rectangle of the panel.
pub proof fn law_fill_solid_clips_to_panel(area: Rectangle, raw: u16)
    requires
        meets_panel(area),
    ensures
        ({
            let x0 = clip_start(area.top_left.x);
            let y0 = clip_start(area.top_left.y);
            let x1 = clip_end(span_end(area.top_left.x, area.size.width), LCD_W);
            let y1 = clip_end(span_end(area.top_left.y, area.size.height), LCD_H);
            &&& 0 <= x0 <= x1 < LCD_W
            &&& 0 <= y0 <= y1 < LCD_H
            &&& fill_solid_events(area, raw) == fill_rect_events(
                x0 as u16,
                y0 as u16,
                x1 as u16,
                y1 as u16,
                raw,
            )
        }),
{
}

/// A non-empty area that lies on the panel is filled exactly.
pub proof fn law_fill_solid_inside_panel(area: Rectangle, raw: u16)
    requires
        area.size.width > 0,
        area.size.height > 0,
        0 <= area.top_left.x,
        area.top_left.x + area.size.width <= LCD_W,
        0 <= area.top_left.y,
        area.top_left.y + area.size.height <= LCD_H,
    ensures
        fill_solid_events(area, raw) == fill_rect_events(
            area.top_left.x as u16,
            area.top_left.y as u16,
            (area.top_left.x + area.size.width - 1) as u16,
            (area.top_left.y + area.size.height - 1) as u16,
            raw,
        ),
{
}

/// An area that lies wholly left of, right of, above or below the panel,
/// or has no pixels, draws nothing.
pub proof fn law_fill_solid_off_panel_draws_nothing(area: Rectangle, raw: u16)
    requires
        area.size.width == 0 || area.size.height == 0 || span_end(area.top_left.x, area.size.width)
            < 0 || LCD_W <= area.top_left.x || span_end(area.top_left.y, area.size.height) < 0
            || LCD_H <= area.top_left.y,
    ensures
        fill_solid_events(area, raw) == Seq::<BusEvent>::empty(),
{
}

} // verus!
