//! Geometry and power-up sequence of the JD9853 panel on the
//! ESP32-S3-Touch-LCD-1.47 board.

use crate::color::{pack_rgb565, Rgb565};
use vstd::prelude::*;

verus! {

/// Visible width of the panel, in pixels.
pub const LCD_W: u16 = 172;

/// Visible height of the panel, in pixels.
pub const LCD_H: u16 = 320;

/// Horizontal offset of the visible window: the controller has 34 hidden
/// columns before the first visible one.
pub const LCD_X_OFFSET: u16 = 34;

/// One step of the power-up sequence: a command, its parameter bytes, and
/// how long to wait after sending it.
#[derive(Debug, PartialEq, Eq)]
pub struct InitCmd {
    pub cmd: u8,
    pub data: Vec<u8>,
    pub delay_ms: u16,
}

impl View for InitCmd {
    type V = (u8, Seq<u8>, u16);

    open spec fn view(&self) -> (u8, Seq<u8>, u16) {
        (self.cmd, self.data@, self.delay_ms)
    }
}

/// The power-up sequence of the JD9853: sleep out, orientation, the vendor
/// register set, tearing effect on, RGB565 pixels, the visible window,
/// display on, colour inversion.
pub open spec fn init_seq_spec() -> Seq<(u8, Seq<u8>, u16)> {
    seq![
        (0x11u8, seq![], 120u16),
        (0x36u8, seq![0x00], 0u16),
        (0xDFu8, seq![0x98, 0x53], 0u16),
        (0xDFu8, seq![0x98, 0x53], 0u16),
        (0xB2u8, seq![0x23], 0u16),
        (0xB7u8, seq![0x00, 0x47, 0x00, 0x6F], 0u16),
        (0xBBu8, seq![0x1C, 0x1A, 0x55, 0x73, 0x63, 0xF0], 0u16),
        (0xC0u8, seq![0x44, 0xA4], 0u16),
        (0xC1u8, seq![0x16], 0u16),
        (0xC3u8, seq![0x7D, 0x07, 0x14, 0x06, 0xCF, 0x71, 0x72, 0x77], 0u16),
        (0xC4u8, seq![0x00, 0x00, 0xA0, 0x79, 0x0B, 0x0A, 0x16, 0x79, 0x0B, 0x0A, 0x16, 0x82], 0u16),
        (0xC8u8, seq![0x3F, 0x32, 0x29, 0x29, 0x27, 0x2B, 0x27, 0x28, 0x28, 0x26, 0x25, 0x17, 0x12, 0x0D, 0x04, 0x00, 0x3F, 0x32, 0x29, 0x29, 0x27, 0x2B, 0x27, 0x28, 0x28, 0x26, 0x25, 0x17, 0x12, 0x0D, 0x04, 0x00], 0u16),
        (0xD0u8, seq![0x04, 0x06, 0x6B, 0x0F, 0x00], 0u16),
        (0xD7u8, seq![0x00, 0x30], 0u16),
        (0xE6u8, seq![0x14], 0u16),
        (0xDEu8, seq![0x01], 0u16),
        (0xB7u8, seq![0x03, 0x13, 0xEF, 0x35, 0x35], 0u16),
        (0xC1u8, seq![0x14, 0x15, 0xC0], 0u16),
        (0xC2u8, seq![0x06, 0x3A], 0u16),
        (0xC4u8, seq![0x72, 0x12], 0u16),
        (0xBEu8, seq![0x00], 0u16),
        (0xDEu8, seq![0x02], 0u16),
        (0xE5u8, seq![0x00, 0x02, 0x00], 0u16),
        (0xE5u8, seq![0x01, 0x02, 0x00], 0u16),
        (0xDEu8, seq![0x00], 0u16),
        (0x35u8, seq![0x00], 0u16),
        (0x3Au8, seq![0x05], 0u16),
        (0x2Au8, seq![0x00, 0x22, 0x00, 0xCD], 0u16),
        (0x2Bu8, seq![0x00, 0x00, 0x01, 0x3F], 0u16),
        (0xDEu8, seq![0x02], 0u16),
        (0xE5u8, seq![0x00, 0x02, 0x00], 0u16),
        (0xDEu8, seq![0x00], 0u16),
        (0x29u8, seq![], 20u16),
        (0x21u8, seq![], 0u16),
    ]
}

/// The views of a list of power-up steps.
pub open spec fn init_views(v: Seq<InitCmd>) -> Seq<(u8, Seq<u8>, u16)> {
    v.map_values(|c: InitCmd| c@)
}

/// The power-up sequence, to be sent in order with
/// [`crate::jd9853::Jd9853Display::write_cmd`], waiting `delay_ms` after
/// each step that asks for it.
#[verifier::rlimit(50)]
pub fn init_seq() -> (v: Vec<InitCmd>)
    ensures
        init_views(v@) == init_seq_spec(),
{
    let mut v: Vec<InitCmd> = Vec::new();
    v.push(InitCmd { cmd: 0x11, data: vec![], delay_ms: 120 });
    v.push(InitCmd { cmd: 0x36, data: vec![0x00], delay_ms: 0 });
    v.push(InitCmd { cmd: 0xDF, data: vec![0x98, 0x53], delay_ms: 0 });
    v.push(InitCmd { cmd: 0xDF, data: vec![0x98, 0x53], delay_ms: 0 });
    v.push(InitCmd { cmd: 0xB2, data: vec![0x23], delay_ms: 0 });
    v.push(InitCmd { cmd: 0xB7, data: vec![0x00, 0x47, 0x00, 0x6F], delay_ms: 0 });
    v.push(InitCmd { cmd: 0xBB, data: vec![0x1C, 0x1A, 0x55, 0x73, 0x63, 0xF0], delay_ms: 0 });
    v.push(InitCmd { cmd: 0xC0, data: vec![0x44, 0xA4], delay_ms: 0 });
    v.push(InitCmd { cmd: 0xC1, data: vec![0x16], delay_ms: 0 });
    v.push(InitCmd { cmd: 0xC3, data: vec![0x7D, 0x07, 0x14, 0x06, 0xCF, 0x71, 0x72, 0x77], delay_ms: 0 });
    v.push(InitCmd { cmd: 0xC4, data: vec![0x00, 0x00, 0xA0, 0x79, 0x0B, 0x0A, 0x16, 0x79, 0x0B, 0x0A, 0x16, 0x82], delay_ms: 0 });
    v.push(InitCmd { cmd: 0xC8, data: vec![0x3F, 0x32, 0x29, 0x29, 0x27, 0x2B, 0x27, 0x28, 0x28, 0x26, 0x25, 0x17, 0x12, 0x0D, 0x04, 0x00, 0x3F, 0x32, 0x29, 0x29, 0x27, 0x2B, 0x27, 0x28, 0x28, 0x26, 0x25, 0x17, 0x12, 0x0D, 0x04, 0x00], delay_ms: 0 });
    v.push(InitCmd { cmd: 0xD0, data: vec![0x04, 0x06, 0x6B, 0x0F, 0x00], delay_ms: 0 });
    v.push(InitCmd { cmd: 0xD7, data: vec![0x00, 0x30], delay_ms: 0 });
    v.push(InitCmd { cmd: 0xE6, data: vec![0x14], delay_ms: 0 });
    v.push(InitCmd { cmd: 0xDE, data: vec![0x01], delay_ms: 0 });
    v.push(InitCmd { cmd: 0xB7, data: vec![0x03, 0x13, 0xEF, 0x35, 0x35], delay_ms: 0 });
    v.push(InitCmd { cmd: 0xC1, data: vec![0x14, 0x15, 0xC0], delay_ms: 0 });
    v.push(InitCmd { cmd: 0xC2, data: vec![0x06, 0x3A], delay_ms: 0 });
    v.push(InitCmd { cmd: 0xC4, data: vec![0x72, 0x12], delay_ms: 0 });
    v.push(InitCmd { cmd: 0xBE, data: vec![0x00], delay_ms: 0 });
    v.push(InitCmd { cmd: 0xDE, data: vec![0x02], delay_ms: 0 });
    v.push(InitCmd { cmd: 0xE5, data: vec![0x00, 0x02, 0x00], delay_ms: 0 });
    v.push(InitCmd { cmd: 0xE5, data: vec![0x01, 0x02, 0x00], delay_ms: 0 });
    v.push(InitCmd { cmd: 0xDE, data: vec![0x00], delay_ms: 0 });
    v.push(InitCmd { cmd: 0x35, data: vec![0x00], delay_ms: 0 });
    v.push(InitCmd { cmd: 0x3A, data: vec![0x05], delay_ms: 0 });
    v.push(InitCmd { cmd: 0x2A, data: vec![0x00, 0x22, 0x00, 0xCD], delay_ms: 0 });
    v.push(InitCmd { cmd: 0x2B, data: vec![0x00, 0x00, 0x01, 0x3F], delay_ms: 0 });
    v.push(InitCmd { cmd: 0xDE, data: vec![0x02], delay_ms: 0 });
    v.push(InitCmd { cmd: 0xE5, data: vec![0x00, 0x02, 0x00], delay_ms: 0 });
    v.push(InitCmd { cmd: 0xDE, data: vec![0x00], delay_ms: 0 });
    v.push(InitCmd { cmd: 0x29, data: vec![], delay_ms: 20 });
    v.push(InitCmd { cmd: 0x21, data: vec![], delay_ms: 0 });
    assert(init_views(v@) =~~= init_seq_spec());
    v
}

/// One step of bringing the panel up.
#[derive(Debug, PartialEq, Eq)]
pub enum PowerStep {
    /// Drive the reset line low.
    ResetLow,
    /// Release the reset line (drive it high).
    ResetHigh,
    /// Sleep this many milliseconds.
    Wait(u64),
    /// Send one command of the power-up sequence.
    Send(InitCmd),
    /// Switch the backlight on.
    BacklightOn,
}

/// A step of bringing the panel up, mathematically.
pub enum PowerEvent {
    ResetLow,
    ResetHigh,
    Wait(u64),
    Send(u8, Seq<u8>),
    BacklightOn,
}

impl View for PowerStep {
    type V = PowerEvent;

    open spec fn view(&self) -> PowerEvent {
        match self {
            PowerStep::ResetLow => PowerEvent::ResetLow,
            PowerStep::ResetHigh => PowerEvent::ResetHigh,
            PowerStep::Wait(ms) => PowerEvent::Wait(*ms),
            PowerStep::Send(c) => PowerEvent::Send(c.cmd, c.data@),
            PowerStep::BacklightOn => PowerEvent::BacklightOn,
        }
    }
}

/// The steps for the power-up commands `cs`: each command, followed by its
/// pause when it asks for one.
pub open spec fn init_events(cs: Seq<(u8, Seq<u8>, u16)>) -> Seq<PowerEvent>
    decreases cs.len(),
{
    if cs.len() == 0 {
        Seq::empty()
    } else {
        let c = cs.last();
        init_events(cs.drop_last()) + seq![PowerEvent::Send(c.0, c.1)] + if c.2 > 0 {
            seq![PowerEvent::Wait(c.2 as u64)]
        } else {
            Seq::<PowerEvent>::empty()
        }
    }
}

/// Bringing the panel up: a 20 ms reset pulse and 150 ms to settle, the
/// power-up sequence with its pauses, and only then the backlight.
pub open spec fn power_up_events() -> Seq<PowerEvent> {
    seq![
        PowerEvent::ResetLow,
        PowerEvent::Wait(20),
        PowerEvent::ResetHigh,
        PowerEvent::Wait(150),
    ] + init_events(init_seq_spec()) + seq![PowerEvent::BacklightOn]
}

/// The views of a list of power-up steps.
pub open spec fn power_views(steps: Seq<PowerStep>) -> Seq<PowerEvent> {
    steps.map_values(|s: PowerStep| s@)
}

fn push_step(steps: &mut Vec<PowerStep>, s: PowerStep)
    ensures
        power_views(final(steps)@) == power_views(old(steps)@).push(s@),
{
    let ghost v = s@;
    steps.push(s);
    assert(power_views(steps@) =~= power_views(old(steps)@).push(v));
}

/// The steps of bringing the panel up, to be played in order.
pub fn power_up_steps() -> (steps: Vec<PowerStep>)
    ensures
        power_views(steps@) == power_up_events(),
{
    let mut steps: Vec<PowerStep> = Vec::new();
    push_step(&mut steps, PowerStep::ResetLow);
    push_step(&mut steps, PowerStep::Wait(20));
    push_step(&mut steps, PowerStep::ResetHigh);
    push_step(&mut steps, PowerStep::Wait(150));
    let ghost head = power_views(steps@);
    assert(head =~= seq![
        PowerEvent::ResetLow,
        PowerEvent::Wait(20),
        PowerEvent::ResetHigh,
        PowerEvent::Wait(150),
    ]);
    let mut cmds = init_seq();
    let ghost all = init_views(cmds@);
    let n = cmds.len();
    let mut i: usize = 0;
    assert(init_views(cmds@) =~= all.subrange(0, n as int));
    assert(all.take(0) =~= Seq::<(u8, Seq<u8>, u16)>::empty());
    assert(power_views(steps@) =~= head + init_events(all.take(0)));
    while cmds.len() > 0
        invariant
            n == all.len(),
            i + cmds@.len() == n,
            init_views(cmds@) == all.subrange(i as int, n as int),
            power_views(steps@) == head + init_events(all.take(i as int)),
        decreases cmds@.len(),
    {
        let ghost old_cmds = cmds@;
        let c = cmds.remove(0);
        let d = c.delay_ms;
        let ghost cv = c@;
        assert(init_views(old_cmds)[0] == cv);
        assert(cv == all[i as int]);
        assert(init_views(cmds@) =~= all.subrange(i + 1, n as int)) by {
            assert forall|k: int| 0 <= k < cmds@.len() implies init_views(cmds@)[k] == all.subrange(
                i + 1,
                n as int,
            )[k] by {
                assert(cmds@[k] == old_cmds[k + 1]);
                assert(init_views(old_cmds)[k + 1] == all.subrange(i as int, n as int)[k + 1]);
            }
        }
        let ghost before = power_views(steps@);
        push_step(&mut steps, PowerStep::Send(c));
        if d > 0 {
            push_step(&mut steps, PowerStep::Wait(d as u64));
        }
        let ghost tail = if cv.2 > 0 {
            seq![PowerEvent::Send(cv.0, cv.1), PowerEvent::Wait(cv.2 as u64)]
        } else {
            seq![PowerEvent::Send(cv.0, cv.1)]
        };
        assert(power_views(steps@) =~= before + tail);
        i = i + 1;
        assert(all.take(i as int).drop_last() =~= all.take(i - 1 as int));
        assert(all.take(i as int).last() == cv);
        assert(init_events(all.take(i as int)) =~= init_events(all.take(i - 1 as int)) + tail);
        assert(power_views(steps@) =~= head + init_events(all.take(i as int)));
    }
    assert(all.take(n as int) =~= all);
    push_step(&mut steps, PowerStep::BacklightOn);
    assert(power_views(steps@) =~= power_up_events());
    steps
}

/// Every step of the power-up comes before the backlight goes on: the
/// backlight is switched on exactly once, as the very last step, so the
/// panel never shows its uninitialised contents.
pub proof fn law_backlight_last()
    ensures
        power_up_events().last() == PowerEvent::BacklightOn,
        forall|i: int|
            0 <= i < power_up_events().len() - 1 ==> !(#[trigger] power_up_events()[i] is BacklightOn),
{
    lemma_init_events_no_backlight(init_seq_spec());
    let head = seq![
        PowerEvent::ResetLow,
        PowerEvent::Wait(20),
        PowerEvent::ResetHigh,
        PowerEvent::Wait(150),
    ];
    let mid = init_events(init_seq_spec());
    assert forall|i: int| 0 <= i < power_up_events().len() - 1 implies !(
    #[trigger] power_up_events()[i] is BacklightOn) by {
        if i >= 4 {
            assert(power_up_events()[i] == mid[i - 4]);
        }
    }
}

proof fn lemma_init_events_no_backlight(cs: Seq<(u8, Seq<u8>, u16)>)
    ensures
        forall|i: int| 0 <= i < init_events(cs).len() ==> !(#[trigger] init_events(cs)[i] is BacklightOn),
    decreases cs.len(),
{
    if cs.len() > 0 {
        lemma_init_events_no_backlight(cs.drop_last());
    }
}

/// Command: all pixels on (ALLPON), regardless of the display memory.
pub const CMD_ALLPON: u8 = 0x23;

/// Command: all pixels off (ALLPOFF): the panel shows the display memory
/// again.
pub const CMD_ALLPOFF: u8 = 0x22;

/// One step of the panel self-test.
#[derive(Clone, Copy, Debug, PartialEq, Eq, Structural)]
pub enum SelfTestStep {
    /// Send this command, without parameters.
    Command(u8),
    /// Sleep this many milliseconds.
    Wait(u64),
    /// Fill the whole visible panel with this colour.
    FillPanel(Rgb565),
}

/// The panel self-test, after power-up: every pixel white for 3 s (a test
/// that does not touch the display memory), back to the memory for 3 s,
/// then the whole visible panel red.
pub fn self_test_steps() -> (v: Vec<SelfTestStep>)
    ensures
        v@.len() == 5,
        v@[0] == SelfTestStep::Command(CMD_ALLPON),
        v@[1] == SelfTestStep::Wait(3000),
        v@[2] == SelfTestStep::Command(CMD_ALLPOFF),
        v@[3] == SelfTestStep::Wait(3000),
        v@[4] matches SelfTestStep::FillPanel(c) && c.storage() == pack_rgb565(31, 0, 0),
{
    let mut v: Vec<SelfTestStep> = Vec::new();
    v.push(SelfTestStep::Command(CMD_ALLPON));
    v.push(SelfTestStep::Wait(3000));
    v.push(SelfTestStep::Command(CMD_ALLPOFF));
    v.push(SelfTestStep::Wait(3000));
    v.push(SelfTestStep::FillPanel(Rgb565::new(31, 0, 0)));
    v
}

/// The power-up sequence, entry by entry: sleep out then 120 ms; MADCTL
/// 0x00 (RGB order, no mirroring); the vendor register set; tearing effect
/// on; COLMOD 0x05 (16-bit RGB565); columns 0x22..=0xCD (34..=205) and rows
/// 0..=0x13F (0..=319); display on then 20 ms; colour inversion on.
pub proof fn law_init_seq_entries()
    ensures
        init_seq_spec()[1] == (0x36u8, seq![0x00u8], 0u16),
        init_seq_spec() == seq![
            (0x11u8, Seq::<u8>::empty(), 120u16),
            (0x36u8, seq![0x00u8], 0u16),
            (0xDFu8, seq![0x98u8, 0x53], 0u16),
            (0xDFu8, seq![0x98u8, 0x53], 0u16),
            (0xB2u8, seq![0x23u8], 0u16),
            (0xB7u8, seq![0x00u8, 0x47, 0x00, 0x6F], 0u16),
            (0xBBu8, seq![0x1Cu8, 0x1A, 0x55, 0x73, 0x63, 0xF0], 0u16),
            (0xC0u8, seq![0x44u8, 0xA4], 0u16),
            (0xC1u8, seq![0x16u8], 0u16),
            (0xC3u8, seq![0x7Du8, 0x07, 0x14, 0x06, 0xCF, 0x71, 0x72, 0x77], 0u16),
            (0xC4u8, seq![0x00u8, 0x00, 0xA0, 0x79, 0x0B, 0x0A, 0x16, 0x79, 0x0B, 0x0A, 0x16, 0x82], 0u16),
            (0xC8u8, seq![0x3Fu8, 0x32, 0x29, 0x29, 0x27, 0x2B, 0x27, 0x28, 0x28, 0x26, 0x25, 0x17, 0x12, 0x0D, 0x04, 0x00, 0x3F, 0x32, 0x29, 0x29, 0x27, 0x2B, 0x27, 0x28, 0x28, 0x26, 0x25, 0x17, 0x12, 0x0D, 0x04, 0x00], 0u16),
            (0xD0u8, seq![0x04u8, 0x06, 0x6B, 0x0F, 0x00], 0u16),
            (0xD7u8, seq![0x00u8, 0x30], 0u16),
            (0xE6u8, seq![0x14u8], 0u16),
            (0xDEu8, seq![0x01u8], 0u16),
            (0xB7u8, seq![0x03u8, 0x13, 0xEF, 0x35, 0x35], 0u16),
            (0xC1u8, seq![0x14u8, 0x15, 0xC0], 0u16),
            (0xC2u8, seq![0x06u8, 0x3A], 0u16),
            (0xC4u8, seq![0x72u8, 0x12], 0u16),
            (0xBEu8, seq![0x00u8], 0u16),
            (0xDEu8, seq![0x02u8], 0u16),
            (0xE5u8, seq![0x00u8, 0x02, 0x00], 0u16),
            (0xE5u8, seq![0x01u8, 0x02, 0x00], 0u16),
            (0xDEu8, seq![0x00u8], 0u16),
            (0x35u8, seq![0x00u8], 0u16),
            (0x3Au8, seq![0x05u8], 0u16),
            (0x2Au8, seq![0x00u8, 0x22, 0x00, 0xCD], 0u16),
            (0x2Bu8, seq![0x00u8, 0x00, 0x01, 0x3F], 0u16),
            (0xDEu8, seq![0x02u8], 0u16),
            (0xE5u8, seq![0x00u8, 0x02, 0x00], 0u16),
            (0xDEu8, seq![0x00u8], 0u16),
            (0x29u8, Seq::<u8>::empty(), 20u16),
            (0x21u8, Seq::<u8>::empty(), 0u16),
        ],
{
    assert(init_seq_spec() =~~= seq![
        (0x11u8, Seq::<u8>::empty(), 120u16),
        (0x36u8, seq![0x00u8], 0u16),
        (0xDFu8, seq![0x98u8, 0x53], 0u16),
        (0xDFu8, seq![0x98u8, 0x53], 0u16),
        (0xB2u8, seq![0x23u8], 0u16),
        (0xB7u8, seq![0x00u8, 0x47, 0x00, 0x6F], 0u16),
        (0xBBu8, seq![0x1Cu8, 0x1A, 0x55, 0x73, 0x63, 0xF0], 0u16),
        (0xC0u8, seq![0x44u8, 0xA4], 0u16),
        (0xC1u8, seq![0x16u8], 0u16),
        (0xC3u8, seq![0x7Du8, 0x07, 0x14, 0x06, 0xCF, 0x71, 0x72, 0x77], 0u16),
        (0xC4u8, seq![0x00u8, 0x00, 0xA0, 0x79, 0x0B, 0x0A, 0x16, 0x79, 0x0B, 0x0A, 0x16, 0x82], 0u16),
        (0xC8u8, seq![0x3Fu8, 0x32, 0x29, 0x29, 0x27, 0x2B, 0x27, 0x28, 0x28, 0x26, 0x25, 0x17, 0x12, 0x0D, 0x04, 0x00, 0x3F, 0x32, 0x29, 0x29, 0x27, 0x2B, 0x27, 0x28, 0x28, 0x26, 0x25, 0x17, 0x12, 0x0D, 0x04, 0x00], 0u16),
        (0xD0u8, seq![0x04u8, 0x06, 0x6B, 0x0F, 0x00], 0u16),
        (0xD7u8, seq![0x00u8, 0x30], 0u16),
        (0xE6u8, seq![0x14u8], 0u16),
        (0xDEu8, seq![0x01u8], 0u16),
        (0xB7u8, seq![0x03u8, 0x13, 0xEF, 0x35, 0x35], 0u16),
        (0xC1u8, seq![0x14u8, 0x15, 0xC0], 0u16),
        (0xC2u8, seq![0x06u8, 0x3A], 0u16),
        (0xC4u8, seq![0x72u8, 0x12], 0u16),
        (0xBEu8, seq![0x00u8], 0u16),
        (0xDEu8, seq![0x02u8], 0u16),
        (0xE5u8, seq![0x00u8, 0x02, 0x00], 0u16),
        (0xE5u8, seq![0x01u8, 0x02, 0x00], 0u16),
        (0xDEu8, seq![0x00u8], 0u16),
        (0x35u8, seq![0x00u8], 0u16),
        (0x3Au8, seq![0x05u8], 0u16),
        (0x2Au8, seq![0x00u8, 0x22, 0x00, 0xCD], 0u16),
        (0x2Bu8, seq![0x00u8, 0x00, 0x01, 0x3F], 0u16),
        (0xDEu8, seq![0x02u8], 0u16),
        (0xE5u8, seq![0x00u8, 0x02, 0x00], 0u16),
        (0xDEu8, seq![0x00u8], 0u16),
        (0x29u8, Seq::<u8>::empty(), 20u16),
        (0x21u8, Seq::<u8>::empty(), 0u16),
    ]);
}

} // verus!
