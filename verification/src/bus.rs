//! The 4-wire SPI command bus of the JD9853: chip select, data/command line
//! and the byte stream on MOSI.
//!
//! The driver does not touch the hardware itself: it queues [`BusOp`]s, and
//! whoever owns the SPI peripheral and the two GPIO lines plays them back in
//! order.  The model below says what the controller receives from a stream
//! of operations: the bytes sent while chip select is low form one frame,
//! each byte tagged with the level of the data/command line at the time.

use vstd::prelude::*;

verus! {

/// One step on the bus, as the driver hands it to the hardware.
#[derive(Debug, PartialEq, Eq)]
pub enum BusOp {
    /// Pull chip select low (start of a transaction).
    CsLow,
    /// Pull chip select high (end of a transaction).
    CsHigh,
    /// Data/command line low: the following bytes are a command.
    DcLow,
    /// Data/command line high: the following bytes are parameters or pixels.
    DcHigh,
    /// Shift these bytes out on MOSI.
    Write(Vec<u8>),
    /// Shift these bytes out and wait for the SPI peripheral, this many
    /// times over (one buffer stands for a long run of identical writes).
    WriteRepeated(Vec<u8>, u32),
    /// Wait until the SPI peripheral has sent everything.
    Flush,
}

/// A step on the bus, mathematically.
pub enum BusEvent {
    CsLow,
    CsHigh,
    DcLow,
    DcHigh,
    Write(Seq<u8>),
    Flush,
}

/// `n` writes of `chunk`, each followed by a flush.
pub open spec fn repeated_writes(chunk: Seq<u8>, n: nat) -> Seq<BusEvent>
    decreases n,
{
    if n == 0 {
        Seq::empty()
    } else {
        repeated_writes(chunk, (n - 1) as nat) + seq![BusEvent::Write(chunk), BusEvent::Flush]
    }
}

impl View for BusOp {
    type V = Seq<BusEvent>;

    /// The steps an operation stands for.
    open spec fn view(&self) -> Seq<BusEvent> {
        match self {
            BusOp::CsLow => seq![BusEvent::CsLow],
            BusOp::CsHigh => seq![BusEvent::CsHigh],
            BusOp::DcLow => seq![BusEvent::DcLow],
            BusOp::DcHigh => seq![BusEvent::DcHigh],
            BusOp::Write(bytes) => seq![BusEvent::Write(bytes@)],
            BusOp::WriteRepeated(bytes, n) => repeated_writes(bytes@, *n as nat),
            BusOp::Flush => seq![BusEvent::Flush],
        }
    }
}

/// The steps of a queue of operations, in order.
pub open spec fn events(ops: Seq<BusOp>) -> Seq<BusEvent>
    decreases ops.len(),
{
    if ops.len() == 0 {
        Seq::empty()
    } else {
        events(ops.drop_last()) + ops.last()@
    }
}

/// Pushing an operation appends its steps.
pub proof fn lemma_events_push(ops: Seq<BusOp>, op: BusOp)
    ensures
        events(ops.push(op)) == events(ops) + op@,
{
    assert(ops.push(op).drop_last() =~= ops);
}

/// Appends `op` to the queue.
pub fn push_op(ops: &mut Vec<BusOp>, op: BusOp)
    ensures
        events(final(ops)@) == events(old(ops)@) + op@,
{
    proof {
        lemma_events_push(old(ops)@, op);
    }
    ops.push(op);
}

/// The events of one complete command: chip select low for the whole
/// transaction, the command byte with D/C low, then (when there are any)
/// the parameter bytes with D/C high, then chip select high.
pub open spec fn cmd_events(cmd: u8, data: Seq<u8>) -> Seq<BusEvent> {
    seq![BusEvent::CsLow, BusEvent::DcLow, BusEvent::Write(seq![cmd]), BusEvent::Flush]
        + (if data.len() > 0 {
        seq![BusEvent::DcHigh, BusEvent::Write(data), BusEvent::Flush]
    } else {
        Seq::<BusEvent>::empty()
    }) + seq![BusEvent::CsHigh]
}

/// The events of a parameter-only write inside an open transaction.
pub open spec fn data_only_events(data: Seq<u8>) -> Seq<BusEvent> {
    seq![BusEvent::DcHigh, BusEvent::Write(data), BusEvent::Flush]
}

/// Queues a complete command with its parameters as one transaction: chip
/// select stays low from the command byte to the last parameter byte.
pub fn write_cmd(ops: &mut Vec<BusOp>, cmd: u8, data: &[u8])
    ensures
        events(final(ops)@) == events(old(ops)@) + cmd_events(cmd, data@),
{
    let ghost start = events(ops@);
    push_op(ops, BusOp::CsLow);
    push_op(ops, BusOp::DcLow);
    let mut c: Vec<u8> = Vec::new();
    c.push(cmd);
    assert(c@ =~= seq![cmd]);
    push_op(ops, BusOp::Write(c));
    push_op(ops, BusOp::Flush);
    if data.len() > 0 {
        push_op(ops, BusOp::DcHigh);
        push_op(ops, BusOp::Write(vstd::slice::slice_to_vec(data)));
        push_op(ops, BusOp::Flush);
    }
    push_op(ops, BusOp::CsHigh);
    assert(events(ops@) =~= start + cmd_events(cmd, data@));
}

/// Queues parameter bytes inside a transaction that is already open
/// (chip select must already be low).
pub fn write_data_only(ops: &mut Vec<BusOp>, data: &[u8])
    ensures
        events(final(ops)@) == events(old(ops)@) + data_only_events(data@),
{
    let ghost start = events(ops@);
    push_op(ops, BusOp::DcHigh);
    push_op(ops, BusOp::Write(vstd::slice::slice_to_vec(data)));
    push_op(ops, BusOp::Flush);
    assert(events(ops@) =~= start + data_only_events(data@));
}

// ---------------------------------------------------------------------------
// What the controller receives.
// ---------------------------------------------------------------------------

/// A byte as the controller samples it: `true` when D/C was high
/// (parameter or pixel data), `false` when it was low (command).
pub type TaggedByte = (bool, u8);

/// The levels of the two control lines and the frames received so far.
#[verifier::ext_equal]
pub struct LineState {
    pub cs_low: bool,
    pub dc_high: bool,
    /// Bytes of the transaction in progress (meaningful while `cs_low`).
    pub current: Seq<TaggedByte>,
    /// Completed transactions, oldest first.
    pub frames: Seq<Seq<TaggedByte>>,
}

/// Tags every byte with the D/C level.
pub open spec fn tag(dc_high: bool, bytes: Seq<u8>) -> Seq<TaggedByte> {
    bytes.map_values(|b: u8| (dc_high, b))
}

/// The effect of one event on the receiving controller.
pub open spec fn step(s: LineState, e: BusEvent) -> LineState {
    match e {
        BusEvent::CsLow => if s.cs_low {
            s
        } else {
            LineState { cs_low: true, current: Seq::empty(), ..s }
        },
        BusEvent::CsHigh => if s.cs_low {
            LineState {
                cs_low: false,
                current: Seq::empty(),
                frames: s.frames.push(s.current),
                ..s
            }
        } else {
            s
        },
        BusEvent::DcLow => LineState { dc_high: false, ..s },
        BusEvent::DcHigh => LineState { dc_high: true, ..s },
        BusEvent::Write(bytes) => if s.cs_low {
            LineState { current: s.current + tag(s.dc_high, bytes), ..s }
        } else {
            s
        },
        BusEvent::Flush => s,
    }
}

/// The state of the controller after a stream of events.
pub open spec fn run(s: LineState, es: Seq<BusEvent>) -> LineState
    decreases es.len(),
{
    if es.len() == 0 {
        s
    } else {
        step(run(s, es.drop_last()), es.last())
    }
}

/// Playing two streams one after the other is playing their concatenation.
pub proof fn lemma_run_append(s: LineState, a: Seq<BusEvent>, b: Seq<BusEvent>)
    ensures
        run(s, a + b) == run(run(s, a), b),
    decreases b.len(),
{
    if b.len() == 0 {
        assert(a + b =~= a);
    } else {
        lemma_run_append(s, a, b.drop_last());
        assert((a + b).drop_last() =~= a + b.drop_last());
        assert((a + b).last() == b.last());
    }
}

/// The frame of a command with its parameters, as the controller sees it.
pub open spec fn command_frame(cmd: u8, params: Seq<u8>) -> Seq<TaggedByte> {
    seq![(false, cmd)] + tag(true, params)
}

/// The bus is idle: no transaction in progress.
pub open spec fn idle(s: LineState) -> bool {
    !s.cs_low
}

/// The controller back at rest after the transactions `new_frames` were
/// received, with D/C left at `dc_high`.
pub open spec fn after_frames(s: LineState, dc_high: bool, new_frames: Seq<Seq<TaggedByte>>) -> LineState {
    LineState { cs_low: false, dc_high, current: Seq::empty(), frames: s.frames + new_frames }
}

/// A command sent with [`write_cmd`] on an idle bus reaches the controller
/// as exactly one transaction holding the command byte and then all its
/// parameters: chip select is never raised between them.
pub proof fn law_write_cmd_is_one_transaction(s: LineState, cmd: u8, data: Seq<u8>)
    requires
        idle(s),
    ensures
        run(s, cmd_events(cmd, data)) == after_frames(s, data.len() > 0, seq![command_frame(cmd, data)]),
{
    let head = seq![BusEvent::CsLow, BusEvent::DcLow, BusEvent::Write(seq![cmd]), BusEvent::Flush];
    let mid = if data.len() > 0 {
        seq![BusEvent::DcHigh, BusEvent::Write(data), BusEvent::Flush]
    } else {
        Seq::<BusEvent>::empty()
    };
    let tail = seq![BusEvent::CsHigh];
    assert(cmd_events(cmd, data) == head + mid + tail);
    lemma_run_append(s, head + mid, tail);
    lemma_run_append(s, head, mid);
    reveal_with_fuel(run, 5);
    let s1 = run(s, head);
    assert(tag(false, seq![cmd]) =~= seq![(false, cmd)]);
    assert(s1.current =~= seq![(false, cmd)]);
    assert(s1.cs_low && !s1.dc_high && s1.frames == s.frames);
    let s2 = run(s1, mid);
    if data.len() > 0 {
        assert(s2.current =~= command_frame(cmd, data));
    } else {
        assert(mid =~= Seq::<BusEvent>::empty());
        assert(tag(true, data) =~= Seq::<TaggedByte>::empty());
        assert(s2.current =~= command_frame(cmd, data));
    }
    assert(s2.cs_low && s2.frames == s.frames && s2.dc_high == (data.len() > 0));
    assert(run(s2, tail) == step(s2, BusEvent::CsHigh));
    assert(s.frames + seq![command_frame(cmd, data)] =~= s.frames.push(command_frame(cmd, data)));
    assert(run(s, cmd_events(cmd, data)) =~= after_frames(s, data.len() > 0, seq![command_frame(cmd, data)]));
}

/// Parameter bytes sent with [`write_data_only`] inside an open transaction
/// are appended to that transaction, tagged as data; chip select stays low.
pub proof fn law_data_only_extends_transaction(s: LineState, data: Seq<u8>)
    requires
        s.cs_low,
    ensures
        run(s, data_only_events(data)) == (LineState {
            dc_high: true,
            current: s.current + tag(true, data),
            ..s
        }),
{
    reveal_with_fuel(run, 4);
    assert(run(s, data_only_events(data)) =~= (LineState {
        dc_high: true,
        current: s.current + tag(true, data),
        ..s
    }));
}

// ---------------------------------------------------------------------------
// Big-endian 16-bit values on the wire.
// ---------------------------------------------------------------------------

/// The two bytes of a 16-bit value, most significant first.
pub open spec fn be16(v: int) -> Seq<u8> {
    seq![(v / 256) as u8, (v % 256) as u8]
}

/// Reads a 16-bit value back from its two big-endian bytes.
pub open spec fn from_be16(hi: u8, lo: u8) -> int {
    hi * 256 + lo
}

/// Splits a value into its high and low bytes, as the controller expects
/// them (most significant byte first).
pub fn split_be16(v: u16) -> (r: (u8, u8))
    ensures
        r.0 == v / 256,
        r.1 == v % 256,
        seq![r.0, r.1] == be16(v as int),
{
    let hi = (v >> 8) as u8;
    let lo = v as u8;
    assert(hi == v / 256) by (bit_vector)
        requires
            hi == (v >> 8) as u8,
    ;
    assert(lo == v % 256) by (bit_vector)
        requires
            lo == v as u8,
    ;
    (hi, lo)
}

/// Reading the two bytes of [`be16`] back gives the value again.
pub proof fn law_be16_round_trip(v: u16)
    ensures
        be16(v as int).len() == 2,
        from_be16(be16(v as int)[0], be16(v as int)[1]) == v,
{
}

} // verus!
