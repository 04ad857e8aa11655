use rmk_dongle::assets::{FRAME_BYTES, FRAME_H, FRAME_W};
use rmk_dongle::flash_probe::{erase_range, readback_verdict, ReadBack, PROBE_FILL, PROBE_LEN};
use rmk_dongle::usb::{
    keyboard_report, report_press_r, report_release, Heartbeat, HeartbeatAction, HeartbeatConfig, KEY_A,
};

#[test]
fn reports() {
    assert_eq!(report_press_r(), [0x02, 0, 0x15, 0, 0, 0, 0, 0]);
    assert_eq!(report_release(), [0; 8]);
    assert_eq!(keyboard_report(0, KEY_A), [0, 0, 0x04, 0, 0, 0, 0, 0]);
}

#[test]
fn dongle_heartbeat_schedule() {
    let mut h = Heartbeat::new(HeartbeatConfig::dongle());
    let got: Vec<HeartbeatAction> = (0..9).map(|_| h.next()).collect();
    assert_eq!(
        got,
        vec![HeartbeatAction::Wait(3000), HeartbeatAction::Press, HeartbeatAction::Wait(30), HeartbeatAction::Release, HeartbeatAction::Wait(30_000), HeartbeatAction::Press, HeartbeatAction::Wait(30), HeartbeatAction::Release, HeartbeatAction::Wait(30_000)]
    );
}

#[test]
fn usb_probe_heartbeat_schedule() {
    let mut h = Heartbeat::new(HeartbeatConfig::usb_probe());
    let got: Vec<HeartbeatAction> = (0..6).map(|_| h.next()).collect();
    assert_eq!(got, vec![HeartbeatAction::Wait(3000), HeartbeatAction::Press, HeartbeatAction::Wait(20), HeartbeatAction::Release, HeartbeatAction::Wait(3000), HeartbeatAction::Press]);
}

#[test]
fn readback_verdicts() {
    let written = [PROBE_FILL; PROBE_LEN];
    assert_eq!(readback_verdict(true, &written, &written), ReadBack::Verified);
    let mut other = written;
    other[31] = 0xFF;
    assert_eq!(readback_verdict(true, &written, &other), ReadBack::Mismatch);
    assert_eq!(readback_verdict(true, &written, &written[..8]), ReadBack::Mismatch);
    assert_eq!(readback_verdict(false, &written, &written), ReadBack::ReadError);
    assert_eq!(erase_range(), (0x3f_0000, 0x3f_1000));
}

#[test]
fn frame_layout() {
    assert_eq!(FRAME_BYTES, FRAME_W as usize * FRAME_H as usize / 8);
}
