use marquee::config::Config;
use marquee::marquee::{should_continue, sleep_budget, Marquee};
use marquee::pixel::{Image, Pixel};
use marquee::scroll::Scrollable;
use marquee::surface::FrameSurface;

fn cfg(w: u32, h: u32) -> Config {
    Config { panel_width: w, panel_height: h, frame_interval_ns: 20_000_000, default_wrap: true }
}

fn marquee(c: &Config) -> Marquee<u32> {
    Marquee::new(Scrollable::new(FrameSurface::<u32>::new(c), c))
}

fn bar(width: u32, height: u32, color: u32) -> Image<u32> {
    let mut pixels = Vec::new();
    for x in 0..width as i64 {
        for y in 0..height as i64 {
            pixels.push(Pixel { x, y, color });
        }
    }
    Image::new(width, height, pixels)
}

#[test]
fn scroll_n_times_issues_exactly_the_expected_frames() {
    let c = cfg(4, 2);
    let mut m = marquee(&c);
    let images = vec![bar(3, 2, 1)];
    // n * (image width + panel width) = 2 * (3 + 4).
    m.scroll_n_times(&images, 2);
    assert_eq!(m.display().screen().frames(), 14);
    // The sweep ends with the content fully off the left edge.
    assert_eq!(m.display().offset(), -3);
    assert!(!m.display().wrap());
}

#[test]
fn scroll_n_times_sums_over_the_image_list() {
    let c = cfg(4, 2);
    let mut m = marquee(&c);
    let images = vec![bar(3, 2, 1), bar(5, 2, 2)];
    // (3 + 4) + (5 + 4) = 16 frames for one pass.
    m.scroll_n_times(&images, 1);
    assert_eq!(m.display().screen().frames(), 16);
    assert_eq!(m.display().offset(), -5);
    assert_eq!(m.display().width(), 5);
}

#[test]
fn scroll_n_times_zero_passes_draws_nothing() {
    let c = cfg(4, 2);
    let mut m = marquee(&c);
    let images = vec![bar(3, 2, 1)];
    m.scroll_n_times(&images, 0);
    assert_eq!(m.display().screen().frames(), 0);
    assert_eq!(m.display().offset(), 0);
}

#[test]
fn scroll_n_times_zero_width_image_still_crosses_the_panel() {
    let c = cfg(4, 2);
    let mut m = marquee(&c);
    let images = vec![bar(0, 2, 1)];
    // A zero-width image degenerates to panel-width frames, not a hang.
    m.scroll_n_times(&images, 1);
    assert_eq!(m.display().screen().frames(), 4);
    assert_eq!(m.display().offset(), 0);
}

#[test]
fn scroll_n_times_ends_with_a_blank_panel() {
    let c = cfg(4, 2);
    let mut m = marquee(&c);
    m.scroll_n_times(&vec![bar(3, 2, 7)], 1);
    // The last frame drew the image entirely off-screen.
    for x in 0..4 {
        for y in 0..2 {
            assert_eq!(m.display().screen().front_at(x, y), None);
        }
    }
}

#[test]
fn display_for_duration_draws_once_at_offset_zero() {
    let c = cfg(4, 2);
    let mut m = marquee(&c);
    let img = bar(2, 1, 9);
    let idle = m.display_for_duration(&img, 5_000_000_000);
    assert_eq!(idle, 5_000_000_000);
    assert_eq!(m.display().screen().frames(), 1);
    assert_eq!(m.display().offset(), 0);
    assert_eq!(m.display().screen().front_at(0, 0), Some(9));
    assert_eq!(m.display().screen().front_at(1, 0), Some(9));
    assert_eq!(m.display().screen().front_at(2, 0), None);
}

#[test]
fn scroll_ticks_wrap_seamlessly() {
    let c = cfg(4, 1);
    let mut m = marquee(&c);
    let img = bar(6, 1, 3);
    m.begin_scroll_for_duration(img.width());
    // Content width is image width plus one panel of padding.
    assert_eq!(m.display().width(), 10);
    assert_eq!(m.display().offset(), 4);
    assert!(m.display().wrap());
    m.scroll_tick(&img);
    assert_eq!(m.display().offset(), 3);
    for _ in 0..3 {
        m.scroll_tick(&img);
    }
    assert_eq!(m.display().offset(), 0);
    m.scroll_tick(&img);
    // One step past zero wraps around the content width.
    assert_eq!(m.display().offset(), 9);
    assert_eq!(m.display().screen().frames(), 5);
}

#[test]
fn deadline_loop_never_starts_a_frame_late() {
    let c = cfg(4, 1);
    let mut m = marquee(&c);
    let img = bar(6, 1, 3);
    m.begin_scroll_for_duration(img.width());
    // A driver loop against a simulated clock: 20 ms frames, 100 ms budget.
    let duration_ns: u64 = 100_000_000;
    let step_ns: u64 = 20_000_000;
    let mut now_ns: u64 = 0;
    let mut started_late = false;
    while should_continue(now_ns, duration_ns) {
        started_late = started_late || now_ns >= duration_ns;
        m.scroll_tick(&img);
        now_ns += step_ns;
    }
    assert!(!started_late);
    // Frames start at 0, 20, 40, 60 and 80 ms; none at or past 100 ms.
    assert_eq!(m.display().screen().frames(), 5);
}

#[test]
fn sleep_budget_policy() {
    // Remaining budget when the frame was quick.
    assert_eq!(sleep_budget(20_000_000, 1_000_000), 19_000_000);
    // An exactly-on-budget or late frame sleeps nothing and never tries
    // to catch up by going negative.
    assert_eq!(sleep_budget(20_000_000, 20_000_000), 0);
    assert_eq!(sleep_budget(20_000_000, 120_000_000), 0);
    assert_eq!(sleep_budget(0, 0), 0);
}

#[test]
fn should_continue_is_strictly_before_deadline() {
    assert!(should_continue(0, 1));
    assert!(should_continue(99, 100));
    assert!(!should_continue(100, 100));
    assert!(!should_continue(101, 100));
    assert!(!should_continue(0, 0));
}

#[test]
fn paced_sweep_matches_the_batch_sweep() {
    // Driving a sweep one tick at a time lands exactly where the
    // all-at-once pass does.
    let c = cfg(4, 2);
    let mut ticked = marquee(&c);
    let img = bar(3, 2, 1);
    ticked.begin_sweep(img.width());
    assert!(!ticked.display().wrap());
    assert_eq!(ticked.display().offset(), 4);
    let total = ticked.sweep_frame_count(img.width());
    assert_eq!(total, 7);
    for _ in 0..total {
        ticked.scroll_tick(&img);
    }
    let mut batch = marquee(&c);
    batch.scroll_n_times(&vec![bar(3, 2, 1)], 1);
    assert_eq!(ticked.display().offset(), batch.display().offset());
    assert_eq!(ticked.display().screen().frames(), batch.display().screen().frames());
}

#[test]
fn scroll_n_times_empty_list_draws_nothing() {
    let c = cfg(4, 2);
    let mut m = marquee(&c);
    let images: Vec<Image<u32>> = Vec::new();
    m.scroll_n_times(&images, 3);
    assert_eq!(m.display().screen().frames(), 0);
    assert_eq!(m.display().offset(), 0);
}

#[test]
fn sweep_frames_show_the_image_entering_from_the_right() {
    let c = cfg(4, 1);
    let mut m = marquee(&c);
    let mut pixels = Vec::new();
    for (x, color) in [(0i64, 10u32), (1, 20), (2, 30)] {
        pixels.push(Pixel { x, y: 0, color });
    }
    let img = Image::new(3, 1, pixels);
    m.begin_sweep(img.width());
    // First frame: offset 3, only the image's first column is on-panel.
    m.scroll_tick(&img);
    assert_eq!(m.display().offset(), 3);
    let frame: Vec<_> = (0..4).map(|x| m.display().screen().front_at(x, 0)).collect();
    assert_eq!(frame, vec![None, None, None, Some(10)]);
    // Second frame: offset 2, the frame before it was cleared on present.
    m.scroll_tick(&img);
    let frame: Vec<_> = (0..4).map(|x| m.display().screen().front_at(x, 0)).collect();
    assert_eq!(frame, vec![None, None, Some(10), Some(20)]);
}
