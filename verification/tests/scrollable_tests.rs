use marquee::config::Config;
use marquee::pixel::Pixel;
use marquee::scroll::Scrollable;
use marquee::surface::FrameSurface;

fn cfg(w: u32, h: u32, wrap: bool) -> Config {
    Config { panel_width: w, panel_height: h, frame_interval_ns: 20_000_000, default_wrap: wrap }
}

fn px(x: i64, y: i64, color: u32) -> Pixel<u32> {
    Pixel { x, y, color }
}

#[test]
fn draw_translates_by_offset_with_wrap() {
    let c = cfg(10, 1, true);
    let mut s = Scrollable::new(FrameSurface::<u32>::new(&c), &c);
    assert_eq!(s.offset(), 0);
    assert_eq!(s.width(), 10);
    assert!(s.wrap());
    // An offset of -3 is stored wrapped, and x = 5 lands on column 2.
    s.inc_x(-3);
    assert_eq!(s.offset(), 7);
    s.draw(&vec![px(5, 0, 42)]);
    s.present();
    assert_eq!(s.screen().front_at(2, 0), Some(42));
    assert_eq!(s.screen().front_at(5, 0), None);
}

#[test]
fn draw_without_wrap_slides_off_the_edge() {
    let c = cfg(10, 1, false);
    let mut s = Scrollable::new(FrameSurface::<u32>::new(&c), &c);
    s.inc_x(-6);
    assert_eq!(s.offset(), -6);
    // x = 5 lands at -1: dropped. x = 8 lands at column 2.
    s.draw(&vec![px(5, 0, 1), px(8, 0, 2)]);
    s.present();
    for x in 0..10 {
        let want = if x == 2 { Some(2) } else { None };
        assert_eq!(s.screen().front_at(x, 0), want);
    }
}

#[test]
fn set_width_clamps_up_to_panel_width() {
    let c = cfg(10, 1, true);
    let mut s = Scrollable::new(FrameSurface::<u32>::new(&c), &c);
    s.set_width(3);
    assert_eq!(s.width(), 10);
    s.set_width(12);
    assert_eq!(s.width(), 12);
    s.set_width(10);
    assert_eq!(s.width(), 10);
}

#[test]
fn set_x_and_set_wrap() {
    let c = cfg(10, 1, true);
    let mut s = Scrollable::new(FrameSurface::<u32>::new(&c), &c);
    s.set_x(7);
    assert_eq!(s.offset(), 7);
    s.set_wrap(false);
    assert!(!s.wrap());
    s.inc_x(-20);
    assert_eq!(s.offset(), -13);
    s.set_wrap(true);
    s.inc_x(0);
    // Re-enabling wrap reduces the offset on the next advance.
    assert_eq!(s.offset(), 7);
}

#[test]
fn wrapped_draw_covers_the_panel_edge() {
    // Content width 12 on a 10-wide panel: a pixel at x = 11 with offset
    // advanced by -2 wraps to column 9... and one at x = 1 lands at 11,
    // which is off the physical panel and dropped by the surface.
    let c = cfg(10, 1, true);
    let mut s = Scrollable::new(FrameSurface::<u32>::new(&c), &c);
    s.set_width(12);
    s.inc_x(-2);
    assert_eq!(s.offset(), 10);
    s.draw(&vec![px(11, 0, 5), px(1, 0, 6)]);
    s.present();
    assert_eq!(s.screen().front_at(9, 0), Some(5));
    for x in 0..9 {
        assert_eq!(s.screen().front_at(x, 0), None);
    }
}
