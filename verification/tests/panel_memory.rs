use rmk_dongle::bus::BusOp;
use rmk_dongle::color::Rgb565;
use rmk_dongle::jd9853::{Jd9853Display, Pixel, Point, Rectangle, Size};
use rmk_dongle::panel::{self_test_steps, SelfTestStep};

/// A controller with 240 columns and 320 rows of memory, fed with bus
/// operations: CASET/RASET set the window, RAMWR fills it row by row.
struct Panel {
    cols: (usize, usize),
    rows: (usize, usize),
    mem: Vec<Vec<u16>>,
}

impl Panel {
    fn new() -> Self {
        Panel { cols: (0, 0), rows: (0, 0), mem: vec![vec![0u16; 240]; 320] }
    }

    fn play(&mut self, ops: &[BusOp]) {
        let mut cs_low = false;
        let mut dc = false;
        let mut frame: Vec<(bool, u8)> = Vec::new();
        let mut bytes = |b: &[u8], cs_low: bool, dc: bool, frame: &mut Vec<(bool, u8)>| {
            if cs_low {
                frame.extend(b.iter().map(|x| (dc, *x)));
            }
        };
        for op in ops {
            match op {
                BusOp::CsLow => {
                    cs_low = true;
                    frame.clear();
                }
                BusOp::CsHigh => {
                    if cs_low {
                        let f = std::mem::take(&mut frame);
                        self.apply(&f);
                    }
                    cs_low = false;
                }
                BusOp::DcLow => dc = false,
                BusOp::DcHigh => dc = true,
                BusOp::Write(b) => bytes(b, cs_low, dc, &mut frame),
                BusOp::WriteRepeated(b, n) => {
                    for _ in 0..*n {
                        bytes(b, cs_low, dc, &mut frame);
                    }
                }
                BusOp::Flush => {}
            }
        }
    }

    fn apply(&mut self, f: &[(bool, u8)]) {
        let p: Vec<u8> = f[1..].iter().map(|b| b.1).collect();
        let be = |i: usize| ((p[i] as usize) << 8) | p[i + 1] as usize;
        match f[0] {
            (false, 0x2A) => self.cols = (be(0), be(2)),
            (false, 0x2B) => self.rows = (be(0), be(2)),
            (false, 0x2C) => {
                let w = self.cols.1 - self.cols.0 + 1;
                for k in 0..p.len() / 2 {
                    let c = self.cols.0 + k % w;
                    let r = self.rows.0 + k / w;
                    if r <= self.rows.1 {
                        self.mem[r][c] = ((p[2 * k] as u16) << 8) | p[2 * k + 1] as u16;
                    }
                }
            }
            _ => {}
        }
    }
}

fn rect(x: i32, y: i32, w: u32, h: u32) -> Rectangle {
    Rectangle { top_left: Point { x, y }, size: Size { width: w, height: h } }
}

#[test]
fn fill_solid_colours_exactly_the_visible_part() {
    let c = Rgb565::new(31, 0, 0);
    for area in [rect(-3, -4, 5, 6), rect(170, 318, 10, 10), rect(10, 20, 30, 40), rect(-5, 0, 3, 3)] {
        let mut d = Jd9853Display::new();
        d.fill_solid(&area, c);
        let mut panel = Panel::new();
        panel.play(&d.take_ops());
        for r in 0..320i32 {
            for col in 0..240i32 {
                let x = col - 34;
                let inside = (0..172).contains(&x)
                    && x >= area.top_left.x
                    && (x as i64) <= area.top_left.x as i64 + area.size.width as i64 - 1
                    && r >= area.top_left.y
                    && (r as i64) <= area.top_left.y as i64 + area.size.height as i64 - 1;
                let want = if inside { 0xF800 } else { 0 };
                assert_eq!(panel.mem[r as usize][col as usize], want, "at ({}, {})", col, r);
            }
        }
    }
}

#[test]
fn draw_iter_last_pixel_wins() {
    let mut d = Jd9853Display::new();
    let a = Rgb565::new(1, 2, 3);
    let b = Rgb565::new(4, 5, 6);
    d.draw_iter(&[Pixel(Point { x: 7, y: 9 }, a), Pixel(Point { x: 7, y: 9 }, b), Pixel(Point { x: -1, y: 9 }, a)]);
    let mut panel = Panel::new();
    panel.play(&d.take_ops());
    assert_eq!(panel.mem[9][41], b.into_storage());
    assert_eq!(panel.mem[9].iter().filter(|v| **v != 0).count(), 1);
}

#[test]
fn self_test_sequence() {
    let s = self_test_steps();
    assert_eq!(
        s,
        vec![
            SelfTestStep::Command(0x23),
            SelfTestStep::Wait(3000),
            SelfTestStep::Command(0x22),
            SelfTestStep::Wait(3000),
            SelfTestStep::FillPanel(Rgb565::new(31, 0, 0)),
        ]
    );
}
