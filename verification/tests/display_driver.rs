use rmk_dongle::bus::{split_be16, write_cmd, write_data_only, BusOp};
use rmk_dongle::color::Rgb565;
use rmk_dongle::jd9853::{Jd9853Display, Pixel, Point, Rectangle, Size};
use rmk_dongle::panel::{init_seq, LCD_H, LCD_W, LCD_X_OFFSET};

/// The operations with every repeated write spelled out.
fn expand(ops: &[BusOp]) -> Vec<BusOp> {
    let mut out = Vec::new();
    for op in ops {
        match op {
            BusOp::WriteRepeated(b, n) => {
                for _ in 0..*n {
                    out.push(BusOp::Write(b.clone()));
                    out.push(BusOp::Flush);
                }
            }
            BusOp::CsLow => out.push(BusOp::CsLow),
            BusOp::CsHigh => out.push(BusOp::CsHigh),
            BusOp::DcLow => out.push(BusOp::DcLow),
            BusOp::DcHigh => out.push(BusOp::DcHigh),
            BusOp::Write(b) => out.push(BusOp::Write(b.clone())),
            BusOp::Flush => out.push(BusOp::Flush),
        }
    }
    out
}

/// What the controller receives: one frame per chip-select-low window, each
/// byte tagged with the D/C level (true = data).
fn frames(ops: &[BusOp]) -> Vec<Vec<(bool, u8)>> {
    let mut out = Vec::new();
    let mut cs_low = false;
    let mut dc = false;
    let mut cur = Vec::new();
    for op in &expand(ops) {
        match op {
            BusOp::CsLow => {
                if !cs_low {
                    cs_low = true;
                    cur = Vec::new();
                }
            }
            BusOp::CsHigh => {
                if cs_low {
                    out.push(std::mem::take(&mut cur));
                    cs_low = false;
                }
            }
            BusOp::DcLow => dc = false,
            BusOp::DcHigh => dc = true,
            BusOp::Write(b) => {
                if cs_low {
                    cur.extend(b.iter().map(|x| (dc, *x)));
                }
            }
            BusOp::Flush | BusOp::WriteRepeated(..) => {}
        }
    }
    out
}

fn cmd_frame(cmd: u8, params: &[u8]) -> Vec<(bool, u8)> {
    let mut f = vec![(false, cmd)];
    f.extend(params.iter().map(|x| (true, *x)));
    f
}

#[test]
fn write_cmd_queues_one_transaction() {
    let mut d = Jd9853Display::new();
    d.write_cmd(0xB2, &[0x23]);
    let ops = d.take_ops();
    assert_eq!(
        ops,
        vec![
            BusOp::CsLow,
            BusOp::DcLow,
            BusOp::Write(vec![0xB2]),
            BusOp::Flush,
            BusOp::DcHigh,
            BusOp::Write(vec![0x23]),
            BusOp::Flush,
            BusOp::CsHigh,
        ]
    );
    assert_eq!(frames(&ops), vec![cmd_frame(0xB2, &[0x23])]);
    assert!(d.take_ops().is_empty());
}

#[test]
fn write_cmd_without_parameters_skips_data_phase() {
    let mut ops = Vec::new();
    write_cmd(&mut ops, 0x11, &[]);
    assert_eq!(
        ops,
        vec![BusOp::CsLow, BusOp::DcLow, BusOp::Write(vec![0x11]), BusOp::Flush, BusOp::CsHigh]
    );
}

#[test]
fn write_data_only_raises_dc() {
    let mut ops = Vec::new();
    write_data_only(&mut ops, &[1, 2, 3]);
    assert_eq!(ops, vec![BusOp::DcHigh, BusOp::Write(vec![1, 2, 3]), BusOp::Flush]);
}

#[test]
fn split_be16_examples() {
    assert_eq!(split_be16(0x01_3F), (0x01, 0x3F));
    assert_eq!(split_be16(0xF800), (0xF8, 0x00));
    assert_eq!(split_be16(205), (0x00, 0xCD));
}

#[test]
fn set_window_adds_column_offset() {
    let mut d = Jd9853Display::new();
    d.set_window(0, 0, LCD_W - 1, LCD_H - 1);
    let ops = d.take_ops();
    assert_eq!(
        frames(&ops),
        vec![cmd_frame(0x2A, &[0x00, 0x22, 0x00, 0xCD]), cmd_frame(0x2B, &[0x00, 0x00, 0x01, 0x3F])]
    );
    d.set_window(300, 2, 301, 3);
    let f = frames(&d.take_ops());
    assert_eq!(f[0], cmd_frame(0x2A, &[0x01, 0x4E, 0x01, 0x4F]));
    assert_eq!(f[1], cmd_frame(0x2B, &[0x00, 0x02, 0x00, 0x03]));
}

#[test]
fn init_sequence_window_matches_set_window() {
    let seq = init_seq();
    assert_eq!(seq.len(), 34);
    assert_eq!(seq[0].cmd, 0x11);
    assert_eq!(seq[0].delay_ms, 120);
    assert_eq!(seq[26].cmd, 0x3A);
    assert_eq!(seq[26].data, vec![0x05]);
    assert_eq!(seq[32].cmd, 0x29);
    assert_eq!(seq[32].delay_ms, 20);
    assert_eq!(seq[33].cmd, 0x21);
    let mut a = Jd9853Display::new();
    a.write_cmd(seq[27].cmd, &seq[27].data);
    a.write_cmd(seq[28].cmd, &seq[28].data);
    let mut b = Jd9853Display::new();
    b.set_window(0, 0, LCD_W - 1, LCD_H - 1);
    assert_eq!(a.take_ops(), b.take_ops());
    assert_eq!(LCD_X_OFFSET, 34);
}

#[test]
fn rgb565_packing() {
    assert_eq!(Rgb565::new(31, 0, 0).into_storage(), 0xF800);
    assert_eq!(Rgb565::new(0, 63, 0).into_storage(), 0x07E0);
    assert_eq!(Rgb565::new(0, 0, 31).into_storage(), 0x001F);
    assert_eq!(Rgb565::new(3, 6, 12).into_storage(), (3 << 11) | (6 << 5) | 12);
    // Channel bits above the channel width are dropped.
    assert_eq!(Rgb565::new(255, 255, 255).into_storage(), 0xFFFF);
    assert_eq!(Rgb565::new(32, 64, 32).into_storage(), 0);
}

#[test]
fn fill_rect_small_sends_every_pixel_in_one_ramwr() {
    let mut d = Jd9853Display::new();
    let red = Rgb565::new(31, 0, 0);
    d.fill_rect(1, 2, 3, 3, red);
    let ops = d.take_ops();
    let f = frames(&ops);
    assert_eq!(f.len(), 3);
    assert_eq!(f[0], cmd_frame(0x2A, &[0, 35, 0, 37]));
    assert_eq!(f[1], cmd_frame(0x2B, &[0, 2, 0, 3]));
    let pixels: Vec<u8> = (0..6).flat_map(|_| [0xF8u8, 0x00]).collect();
    assert_eq!(f[2], cmd_frame(0x2C, &pixels));
    // 6 pixels: no full chunk, one short write of 12 bytes.
    let writes: Vec<usize> = ops
        .iter()
        .filter_map(|o| if let BusOp::Write(b) = o { Some(b.len()) } else { None })
        .collect();
    assert_eq!(writes, vec![1, 4, 1, 4, 1, 12]);
}

#[test]
fn fill_rect_full_panel_uses_whole_chunks() {
    let mut d = Jd9853Display::new();
    let c = Rgb565::new(3, 6, 12);
    d.fill_rect(0, 0, LCD_W - 1, LCD_H - 1, c);
    let ops = expand(&d.take_ops());
    let chunk_writes = ops
        .iter()
        .filter(|o| matches!(o, BusOp::Write(b) if b.len() == 64))
        .count();
    assert_eq!(chunk_writes, 172 * 320 / 32);
    assert!(ops.iter().all(|o| !matches!(o, BusOp::Write(b) if b.len() > 64)));
    let f = frames(&ops);
    assert_eq!(f.len(), 3);
    assert_eq!(f[2].len(), 1 + 2 * 172 * 320);
    let raw = c.into_storage();
    assert!(f[2][1..].chunks(2).all(|p| p == [(true, (raw >> 8) as u8), (true, raw as u8)]));
}

#[test]
fn fill_rect_with_remainder() {
    let mut d = Jd9853Display::new();
    d.fill_rect(0, 0, 9, 6, Rgb565::new(0, 0, 31)); // 70 pixels = 2 * 32 + 6
    let queued = d.take_ops();
    assert!(queued.contains(&BusOp::WriteRepeated([0x00u8, 0x1F].repeat(32), 2)));
    let ops = expand(&queued);
    let writes: Vec<usize> = ops
        .iter()
        .filter_map(|o| if let BusOp::Write(b) = o { Some(b.len()) } else { None })
        .collect();
    assert_eq!(writes, vec![1, 4, 1, 4, 1, 64, 64, 12]);
    assert_eq!(frames(&ops)[2].len(), 1 + 140);
}

#[test]
fn fill_rect_empty_is_noop() {
    let mut d = Jd9853Display::new();
    d.fill_rect(5, 0, 4, 10, Rgb565::new(1, 1, 1));
    d.fill_rect(0, 5, 10, 4, Rgb565::new(1, 1, 1));
    assert!(d.take_ops().is_empty());
}

#[test]
fn draw_pixel_on_and_off_panel() {
    let mut d = Jd9853Display::new();
    let c = Rgb565::new(31, 63, 31);
    d.draw_pixel(Pixel(Point { x: 5, y: 7 }, c));
    let f = frames(&d.take_ops());
    assert_eq!(
        f,
        vec![
            cmd_frame(0x2A, &[0, 39, 0, 39]),
            cmd_frame(0x2B, &[0, 7, 0, 7]),
            cmd_frame(0x2C, &[0xFF, 0xFF]),
        ]
    );
    for (x, y) in [(-1, 0), (0, -1), (172, 0), (0, 320), (i32::MAX, i32::MIN)] {
        d.draw_pixel(Pixel(Point { x, y }, c));
    }
    assert!(d.take_ops().is_empty());
}

#[test]
fn draw_iter_draws_in_order_and_skips_offscreen() {
    let mut d = Jd9853Display::new();
    let a = Rgb565::new(1, 0, 0);
    let b = Rgb565::new(0, 1, 0);
    let pixels = [
        Pixel(Point { x: 0, y: 0 }, a),
        Pixel(Point { x: 500, y: 0 }, a),
        Pixel(Point { x: 171, y: 319 }, b),
    ];
    d.draw_iter(&pixels);
    let f = frames(&d.take_ops());
    assert_eq!(f.len(), 6);
    assert_eq!(f[2], cmd_frame(0x2C, &[0x08, 0x00]));
    assert_eq!(f[3], cmd_frame(0x2A, &[0, 205, 0, 205]));
    assert_eq!(f[4], cmd_frame(0x2B, &[0x01, 0x3F, 0x01, 0x3F]));
    assert_eq!(f[5], cmd_frame(0x2C, &[0x00, 0x20]));
}

#[test]
fn fill_solid_clips_to_panel() {
    let c = Rgb565::new(10, 25, 10);
    let mut a = Jd9853Display::new();
    a.fill_solid(&Rectangle { top_left: Point { x: -10, y: -5 }, size: Size { width: 20, height: 400 } }, c);
    let mut b = Jd9853Display::new();
    b.fill_rect(0, 0, 9, 319, c);
    assert_eq!(a.take_ops(), b.take_ops());

    // The header bar of the splash screen.
    a.fill_solid(&Rectangle { top_left: Point { x: 0, y: 0 }, size: Size { width: 172, height: 28 } }, c);
    b.fill_rect(0, 0, 171, 27, c);
    assert_eq!(a.take_ops(), b.take_ops());

    // Zero-sized and right-of-panel areas draw nothing.
    a.fill_solid(&Rectangle { top_left: Point { x: 3, y: 3 }, size: Size { width: 0, height: 9 } }, c);
    a.fill_solid(&Rectangle { top_left: Point { x: 200, y: 3 }, size: Size { width: 5, height: 9 } }, c);
    assert!(a.take_ops().is_empty());
}

#[test]
fn fill_solid_off_panel_draws_nothing() {
    let c = Rgb565::new(31, 0, 0);
    let mut d = Jd9853Display::new();
    let r = |x: i32, y: i32, width: u32, height: u32| Rectangle { top_left: Point { x, y }, size: Size { width, height } };
    d.fill_solid(&r(0, -10, 5, 5), c); // above
    d.fill_solid(&r(-10, 0, 5, 5), c); // left
    d.fill_solid(&r(172, 0, 5, 5), c); // right
    d.fill_solid(&r(0, 320, 5, 5), c); // below
    d.fill_solid(&r(65536, 0, 1, 1), c);
    d.fill_solid(&r(i32::MIN, i32::MIN, 10, 10), c);
    d.fill_solid(&r(i32::MAX, i32::MAX, u32::MAX, u32::MAX), c);
    assert!(d.take_ops().is_empty());
}

#[test]
fn fill_solid_huge_areas_clip_to_panel() {
    let c = Rgb565::new(0, 0, 31);
    let mut a = Jd9853Display::new();
    a.fill_solid(
        &Rectangle { top_left: Point { x: i32::MIN, y: -1 }, size: Size { width: u32::MAX, height: u32::MAX } },
        c,
    );
    let mut b = Jd9853Display::new();
    b.fill_rect(0, 0, 171, 319, c);
    assert_eq!(a.take_ops(), b.take_ops());

    // Partly above and left of the panel: only the visible corner.
    a.fill_solid(&Rectangle { top_left: Point { x: -3, y: -4 }, size: Size { width: 5, height: 6 } }, c);
    b.fill_rect(0, 0, 1, 1, c);
    assert_eq!(a.take_ops(), b.take_ops());
}

#[test]
fn size_is_visible_panel() {
    let d = Jd9853Display::new();
    assert_eq!(d.size(), Size { width: 172, height: 320 });
}
