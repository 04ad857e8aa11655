use rmk_dongle::panel::{init_seq, power_up_steps, InitCmd, PowerStep};

#[test]
fn power_up_resets_then_sends_sequence_then_backlight() {
    let steps = power_up_steps();
    assert_eq!(steps[0], PowerStep::ResetLow);
    assert_eq!(steps[1], PowerStep::Wait(20));
    assert_eq!(steps[2], PowerStep::ResetHigh);
    assert_eq!(steps[3], PowerStep::Wait(150));
    // Sleep out, then its 120 ms pause.
    assert_eq!(steps[4], PowerStep::Send(InitCmd { cmd: 0x11, data: vec![], delay_ms: 120 }));
    assert_eq!(steps[5], PowerStep::Wait(120));
    // 4 reset steps, 34 commands, 2 pauses, backlight.
    assert_eq!(steps.len(), 4 + 34 + 2 + 1);
    assert_eq!(*steps.last().unwrap(), PowerStep::BacklightOn);
    assert_eq!(steps.iter().filter(|s| **s == PowerStep::BacklightOn).count(), 1);
    let sent: Vec<&InitCmd> = steps
        .iter()
        .filter_map(|s| if let PowerStep::Send(c) = s { Some(c) } else { None })
        .collect();
    let seq = init_seq();
    assert_eq!(sent.len(), seq.len());
    for (a, b) in sent.iter().zip(seq.iter()) {
        assert_eq!(*a, b);
    }
    // Display on is followed by its 20 ms pause.
    let on = steps
        .iter()
        .position(|s| matches!(s, PowerStep::Send(c) if c.cmd == 0x29))
        .unwrap();
    assert_eq!(steps[on + 1], PowerStep::Wait(20));
}
