use marquee::config::Config;
use marquee::pixel::Pixel;
use marquee::surface::{Flushable, FrameSurface};

fn cfg(w: u32, h: u32) -> Config {
    Config { panel_width: w, panel_height: h, frame_interval_ns: 20_000_000, default_wrap: true }
}

fn px(x: i64, y: i64, color: u32) -> Pixel<u32> {
    Pixel { x, y, color }
}

#[test]
fn write_then_present_shows_frame() {
    let mut fs = FrameSurface::<u32>::new(&cfg(4, 2));
    assert_eq!(fs.width(), 4);
    assert_eq!(fs.height(), 2);
    assert_eq!(fs.frames(), 0);
    fs.write(&vec![px(1, 1, 7), px(0, 0, 9)]);
    // Nothing is on deck until the frame is presented.
    assert_eq!(fs.front_at(1, 1), None);
    fs.present();
    assert_eq!(fs.frames(), 1);
    assert_eq!(fs.front_at(1, 1), Some(7));
    assert_eq!(fs.front_at(0, 0), Some(9));
    assert_eq!(fs.front_at(2, 0), None);
}

#[test]
fn present_clears_the_next_writable_buffer() {
    let mut fs = FrameSurface::<u32>::new(&cfg(4, 2));
    fs.write(&vec![px(1, 0, 5)]);
    fs.present();
    // The second presented frame had nothing drawn into it.
    fs.present();
    assert_eq!(fs.frames(), 2);
    for x in 0..4 {
        for y in 0..2 {
            assert_eq!(fs.front_at(x, y), None);
        }
    }
}

#[test]
fn last_write_wins_per_cell() {
    let mut fs = FrameSurface::<u32>::new(&cfg(4, 2));
    fs.write(&vec![px(2, 1, 1), px(2, 1, 2)]);
    fs.write(&vec![px(2, 1, 3)]);
    fs.present();
    assert_eq!(fs.front_at(2, 1), Some(3));
}

#[test]
fn out_of_bounds_pixels_silently_dropped() {
    let mut fs = FrameSurface::<u32>::new(&cfg(4, 2));
    fs.write(&vec![px(-1, 0, 1), px(4, 0, 2), px(0, 2, 3), px(0, -9, 4), px(i64::MAX, 0, 5)]);
    fs.present();
    for x in 0..4 {
        for y in 0..2 {
            assert_eq!(fs.front_at(x, y), None);
        }
    }
}

#[test]
fn flush_is_the_swap_and_clear() {
    let mut fs = FrameSurface::<u32>::new(&cfg(3, 1));
    fs.write(&vec![px(0, 0, 8)]);
    fs.flush();
    assert_eq!(fs.frames(), 1);
    assert_eq!(fs.front_at(0, 0), Some(8));
}
