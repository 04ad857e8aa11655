//! USB HID keyboard reports and the keep-alive keystroke schedule of the
//! diagnostic firmwares.

use vstd::prelude::*;

verus! {

/// Modifier bit of the left Shift key in a boot keyboard report.
pub const MOD_LEFT_SHIFT: u8 = 0x02;

/// HID usage code of the `A` key.
pub const KEY_A: u8 = 0x04;

/// HID usage code of the `R` key.
pub const KEY_R: u8 = 0x15;

/// Seconds between two keep-alive keystrokes of the dongle firmware.
pub const HEARTBEAT_INTERVAL_SECS: u64 = 30;

/// The 8-byte boot-protocol keyboard input report with modifier byte
/// `modifier` and the single key `key` held (0 for none): modifier,
/// reserved byte, then six key slots.
pub fn keyboard_report(modifier: u8, key: u8) -> (r: [u8; 8])
    ensures
        r@ == seq![modifier, 0u8, key, 0u8, 0u8, 0u8, 0u8, 0u8],
{
    let r = [modifier, 0u8, key, 0u8, 0u8, 0u8, 0u8, 0u8];
    assert(r@ =~= seq![modifier, 0u8, key, 0u8, 0u8, 0u8, 0u8, 0u8]);
    r
}

/// The report that types a capital `R` (left Shift held with `R`).
pub fn report_press_r() -> (r: [u8; 8])
    ensures
        r@ == seq![0x02u8, 0u8, 0x15u8, 0u8, 0u8, 0u8, 0u8, 0u8],
{
    keyboard_report(MOD_LEFT_SHIFT, KEY_R)
}

/// The report with no key and no modifier held.
pub fn report_release() -> (r: [u8; 8])
    ensures
        r@ == seq![0u8, 0u8, 0u8, 0u8, 0u8, 0u8, 0u8, 0u8],
{
    keyboard_report(0, 0)
}

/// What the keep-alive task does next.
#[derive(Clone, Copy, Debug, PartialEq, Eq, Structural)]
pub enum HeartbeatAction {
    /// Sleep this many milliseconds.
    Wait(u64),
    /// Send the key-press report.
    Press,
    /// Send the release report.
    Release,
}

/// Timing of the keep-alive keystrokes: a first pause, then forever a key
/// press held `hold_ms`, its release, and a pause of `period_ms`.
#[derive(Clone, Copy, Debug, PartialEq, Eq, Structural)]
pub struct HeartbeatConfig {
    pub first_wait_ms: u64,
    pub hold_ms: u64,
    pub period_ms: u64,
}

impl HeartbeatConfig {
    /// The dongle firmware: 3 s after start-up, then a capital `R` every
    /// 30 s, held for 30 ms.
    pub fn dongle() -> (c: Self)
        ensures
            c.first_wait_ms == 3000,
            c.hold_ms == 30,
            c.period_ms == HEARTBEAT_INTERVAL_SECS * 1000,
    {
        HeartbeatConfig { first_wait_ms: 3000, hold_ms: 30, period_ms: HEARTBEAT_INTERVAL_SECS * 1000 }
    }

    /// The bare USB test firmware: an `a` every 3 s, held for 20 ms.
    pub fn usb_probe() -> (c: Self)
        ensures
            c.first_wait_ms == 3000,
            c.hold_ms == 20,
            c.period_ms == 3000,
    {
        HeartbeatConfig { first_wait_ms: 3000, hold_ms: 20, period_ms: 3000 }
    }
}

/// The `k`-th action (from 0) of the keep-alive schedule.
pub open spec fn action_at(cfg: HeartbeatConfig, k: nat) -> HeartbeatAction {
    if k == 0 {
        HeartbeatAction::Wait(cfg.first_wait_ms)
    } else if (k - 1) % 4 == 0 {
        HeartbeatAction::Press
    } else if (k - 1) % 4 == 1 {
        HeartbeatAction::Wait(cfg.hold_ms)
    } else if (k - 1) % 4 == 2 {
        HeartbeatAction::Release
    } else {
        HeartbeatAction::Wait(cfg.period_ms)
    }
}

/// The keep-alive schedule: hands out its actions one at a time.
pub struct Heartbeat {
    cfg: HeartbeatConfig,
    /// 0 before the first pause; then 1..=4 for press, hold, release, pause.
    phase: u8,
    steps: Ghost<nat>,
}

impl Heartbeat {
    #[verifier::type_invariant]
    spec fn inv(self) -> bool {
        &&& 0 <= self.phase <= 4
        &&& self.phase == 0 <==> self.steps@ == 0
        &&& self.steps@ > 0 ==> self.phase == (self.steps@ - 1) % 4 + 1
    }

    /// The timing the schedule was made with.
    pub closed spec fn config(self) -> HeartbeatConfig {
        self.cfg
    }

    /// How many actions were handed out so far.
    pub closed spec fn steps(self) -> nat {
        self.steps@
    }

    /// A schedule that has handed out nothing yet.
    pub fn new(cfg: HeartbeatConfig) -> (h: Self)
        ensures
            h.config() == cfg,
            h.steps() == 0,
    {
        Heartbeat { cfg, phase: 0, steps: Ghost(0) }
    }

    /// The next action of the schedule.
    pub fn next(&mut self) -> (a: HeartbeatAction)
        ensures
            a == action_at(old(self).config(), old(self).steps()),
            final(self).config() == old(self).config(),
            final(self).steps() == old(self).steps() + 1,
    {
        proof {
            use_type_invariant(&*self);
        }
        let k = Ghost(self.steps@);
        let (a, next_phase) = if self.phase == 0 {
            (HeartbeatAction::Wait(self.cfg.first_wait_ms), 1u8)
        } else if self.phase == 1 {
            (HeartbeatAction::Press, 2u8)
        } else if self.phase == 2 {
            (HeartbeatAction::Wait(self.cfg.hold_ms), 3u8)
        } else if self.phase == 3 {
            (HeartbeatAction::Release, 4u8)
        } else {
            (HeartbeatAction::Wait(self.cfg.period_ms), 1u8)
        };
        let new_steps = Ghost(k@ + 1);
        assert(next_phase == (new_steps@ - 1) % 4 + 1);
        *self = Heartbeat { cfg: self.cfg, phase: next_phase, steps: new_steps };
        a
    }
}

/// After the first pause, every press is followed by the hold pause, then
/// the release, then the period pause, and then the next press: presses and
/// releases strictly alternate, starting with a press.
pub proof fn law_press_then_release(cfg: HeartbeatConfig, k: nat)
    requires
        action_at(cfg, k) == HeartbeatAction::Press,
    ensures
        k >= 1,
        action_at(cfg, k + 1) == HeartbeatAction::Wait(cfg.hold_ms),
        action_at(cfg, k + 2) == HeartbeatAction::Release,
        action_at(cfg, k + 3) == HeartbeatAction::Wait(cfg.period_ms),
        action_at(cfg, k + 4) == HeartbeatAction::Press,
{
}

/// The schedule starts with the first pause and then a press.
pub proof fn law_schedule_starts(cfg: HeartbeatConfig)
    ensures
        action_at(cfg, 0) == HeartbeatAction::Wait(cfg.first_wait_ms),
        action_at(cfg, 1) == HeartbeatAction::Press,
{
}

} // verus!
