use marquee::config::Config;
use marquee::glitch::{GlitchConfig, GlitchSession};
use marquee::pixel::{Image, Pixel};
use marquee::rng::Rng64;
use marquee::scroll::Scrollable;
use marquee::surface::FrameSurface;

fn cfg(w: u32, h: u32) -> Config {
    Config { panel_width: w, panel_height: h, frame_interval_ns: 8_000_000, default_wrap: true }
}

fn gcfg() -> GlitchConfig {
    GlitchConfig {
        clean_min_ns: 1_000_000_000,
        clean_max_ns: 4_000_000_000,
        glitch_min_ns: 30_000_000,
        glitch_max_ns: 120_000_000,
        scroll_tick_ns: 8_000_000,
    }
}

fn solid(width: u32, color: u32) -> Image<u32> {
    let mut pixels = Vec::new();
    for x in 0..width as i64 {
        pixels.push(Pixel { x, y: 0, color });
    }
    Image::new(width, 1, pixels)
}

fn session(n_images: u32, seed: u64) -> GlitchSession<u32> {
    let c = cfg(4, 1);
    let display = Scrollable::new(FrameSurface::<u32>::new(&c), &c);
    let images = (0..n_images).map(|i| solid(4, i + 1)).collect();
    GlitchSession::new(display, images, gcfg(), seed)
}

#[test]
fn session_starts_on_the_clean_baseline() {
    let s = session(4, 11);
    assert_eq!(s.selected(), 0);
    assert_eq!(s.queue_len(), 0);
    assert!(s.display().wrap());
    assert_eq!(s.scroll_tick_ns(), 8_000_000);
}

#[test]
fn shuffle_queues_every_alternate_exactly_once() {
    let mut s = session(5, 12345);
    s.shuffle_alternates();
    assert_eq!(s.queue_len(), 4);
    let mut seen = Vec::new();
    while let Some(sleep) = s.glitch_step() {
        assert!(sleep >= 30_000_000 && sleep <= 120_000_000);
        seen.push(s.selected());
    }
    assert_eq!(s.queue_len(), 0);
    seen.sort();
    assert_eq!(seen, vec![1, 2, 3, 4]);
}

#[test]
fn begin_cycle_forces_the_baseline_and_sleeps_a_clean_interval() {
    let mut s = session(3, 7);
    s.shuffle_alternates();
    let _ = s.glitch_step();
    assert_ne!(s.selected(), 0);
    let sleep = s.begin_cycle();
    assert_eq!(s.selected(), 0);
    assert!(sleep >= 1_000_000_000 && sleep <= 4_000_000_000);
}

#[test]
fn glitch_step_on_an_empty_queue_changes_nothing() {
    let mut s = session(3, 7);
    assert_eq!(s.glitch_step(), None);
    assert_eq!(s.selected(), 0);
    assert_eq!(s.queue_len(), 0);
    assert_eq!(s.display().screen().frames(), 0);
}

#[test]
fn glitch_burst_flashes_the_whole_queue() {
    let mut s = session(6, 99);
    s.shuffle_alternates();
    let sleeps = s.glitch_burst();
    assert_eq!(sleeps.len(), 5);
    for sl in sleeps {
        assert!(sl >= 30_000_000 && sl <= 120_000_000);
    }
    assert_eq!(s.queue_len(), 0);
    assert_eq!(s.display().screen().frames(), 5);
}

#[test]
fn scroll_tick_draws_the_currently_selected_image() {
    let mut s = session(2, 5);
    // Baseline selected: its color is 1, drawn one pixel further along.
    s.scroll_tick();
    assert_eq!(s.display().offset(), 1);
    assert_eq!(s.display().screen().front_at(1, 0), Some(1));
    // After a glitch step selects an alternate, a redraw shows that image
    // and never a stale or never-assigned index.
    s.shuffle_alternates();
    let stepped = s.glitch_step();
    assert!(stepped.is_some());
    assert_eq!(s.selected(), 1);
    s.scroll_tick();
    assert_eq!(s.display().offset(), 2);
    assert_eq!(s.display().screen().front_at(2, 0), Some(2));
}

#[test]
fn same_seed_replays_the_same_session() {
    let mut a = session(5, 4242);
    let mut b = session(5, 4242);
    a.shuffle_alternates();
    b.shuffle_alternates();
    let mut order_a = Vec::new();
    while let Some(sl) = a.glitch_step() {
        order_a.push((s_sel(&a), sl));
    }
    let mut order_b = Vec::new();
    while let Some(sl) = b.glitch_step() {
        order_b.push((s_sel(&b), sl));
    }
    assert_eq!(order_a, order_b);
}

fn s_sel(s: &GlitchSession<u32>) -> usize {
    s.selected()
}

#[test]
fn different_seeds_reorder_the_alternates() {
    // Not guaranteed for every pair of seeds, but these two differ.
    let mut orders = Vec::new();
    for seed in [1u64, 2, 3, 4, 5, 6, 7, 8] {
        let mut s = session(5, seed);
        s.shuffle_alternates();
        let mut order = Vec::new();
        while s.glitch_step().is_some() {
            order.push(s.selected());
        }
        orders.push(order);
    }
    assert!(orders.windows(2).any(|w| w[0] != w[1]));
}

#[test]
fn rng_draws_stay_in_range_and_replay() {
    let mut r1 = Rng64::new(77);
    let mut r2 = Rng64::new(77);
    for _ in 0..100 {
        let a = r1.next_in_range(10, 20);
        assert!(a >= 10 && a <= 20);
        assert_eq!(a, r2.next_in_range(10, 20));
    }
    let mut r3 = Rng64::new(1);
    for _ in 0..100 {
        assert!(r3.next_below(3) < 3);
    }
}
