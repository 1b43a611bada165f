//! The glitch scheduler: a timed animation mode in which a steadily
//! scrolling "clean" baseline image is interrupted by brief bursts of
//! alternate images in shuffled order, simulating signal corruption.
//!
//! Two independently timed loops share one session: a background loop that
//! advances the scroll and redraws whichever image is currently selected,
//! and a foreground loop that selects the baseline, sleeps a long clean
//! interval, shuffles the alternate indices, and flickers through them with
//! short sleeps. Every read-modify-write here is one `&mut self` method, so
//! a driver that serializes the two loops' calls through one exclusive lock
//! never interleaves a redraw with a half-finished selection. The sleeps
//! and the threads themselves belong to the driver.

use vstd::prelude::*;

verus! {

use crate::pixel::Image;
use crate::remap::remap_spec;
use crate::rng::{next_state, range_draw, Rng64};
use crate::scroll::{translate_all, Scrollable};
use crate::surface::{blank, paint_all};

/// The alternate image indices `1 .. n`, in ascending order.
pub open spec fn alt_indices(n: int) -> Seq<usize> {
    Seq::new((n - 1) as nat, |i: int| (i + 1) as usize)
}

/// Every image of `s` is well-formed.
pub open spec fn all_images_wf<C>(s: Seq<Image<C>>) -> bool {
    forall|i: int| 0 <= i < s.len() ==> (#[trigger] s[i]).wf()
}

/// Every index in `s` lies below `n`.
pub open spec fn indices_below(s: Seq<usize>, n: int) -> bool {
    forall|i: int| 0 <= i < s.len() ==> (#[trigger] s[i] as int) < n
}

/// Every index in `s` is an alternate: at least 1 and below `n`.
pub open spec fn alts_only(s: Seq<usize>, n: int) -> bool {
    forall|i: int| 0 <= i < s.len() ==> 1 <= (#[trigger] s[i]) && (s[i] as int) < n
}

proof fn lemma_indices_below_push(s: Seq<usize>, x: usize, n: int)
    requires
        indices_below(s, n),
        (x as int) < n,
    ensures
        indices_below(s.push(x), n),
{
    assert forall|i: int| 0 <= i < s.push(x).len() implies (#[trigger] s.push(x)[i] as int)
        < n by {
        if i < s.len() {
            assert(s.push(x)[i] == s[i]);
        } else {
            assert(s.push(x)[i] == x);
        }
    }
}

proof fn lemma_alts_only_drop_last(s: Seq<usize>, n: int)
    requires
        alts_only(s, n),
        s.len() > 0,
    ensures
        alts_only(s.drop_last(), n),
{
    assert forall|i: int| 0 <= i < s.drop_last().len() implies 1 <= (#[trigger] s.drop_last()[i])
        && (s.drop_last()[i] as int) < n by {
        assert(s.drop_last()[i] == s[i]);
    }
}

/// Timing options for a glitch session: the bounds of the random clean
/// interval, the bounds of the random per-glitch hold, and the background
/// scroll tick.
pub struct GlitchConfig {
    pub clean_min_ns: u64,
    pub clean_max_ns: u64,
    pub glitch_min_ns: u64,
    pub glitch_max_ns: u64,
    pub scroll_tick_ns: u64,
}

impl GlitchConfig {
    pub open spec fn wf(self) -> bool {
        &&& self.clean_min_ns <= self.clean_max_ns
        &&& self.clean_max_ns - self.clean_min_ns < u64::MAX
        &&& self.glitch_min_ns <= self.glitch_max_ns
        &&& self.glitch_max_ns - self.glitch_min_ns < u64::MAX
    }
}

/// One glitch animation session: the shared surface, the image list
/// (index 0 is the clean baseline), the currently selected image index,
/// and the shuffled alternate indices still to be flashed this cycle.
///
/// The ghost trace `assigned` records every value the selected index ever
/// took, in order; `drawn` records the index rendered by every frame. Both
/// exist so contracts can state that a redraw only ever renders the most
/// recently assigned index, never a stale or never-assigned one.
pub struct GlitchSession<C> {
    display: Scrollable<C>,
    images: Vec<Image<C>>,
    selected: usize,
    queue: Vec<usize>,
    rng: Rng64,
    cfg: GlitchConfig,
    assigned: Ghost<Seq<usize>>,
    drawn: Ghost<Seq<usize>>,
}

impl<C: Copy> GlitchSession<C> {
    pub closed spec fn display_spec(self) -> Scrollable<C> {
        self.display
    }

    pub closed spec fn images_spec(self) -> Seq<Image<C>> {
        self.images@
    }

    /// The currently selected image index, shared by both loops.
    pub closed spec fn selected_spec(self) -> usize {
        self.selected
    }

    /// The alternate indices still to be flashed this cycle, in shuffled
    /// order; they are consumed from the back.
    pub closed spec fn queue_spec(self) -> Seq<usize> {
        self.queue@
    }

    pub closed spec fn rng_state(self) -> u64 {
        self.rng.state_spec()
    }

    pub closed spec fn cfg_spec(self) -> GlitchConfig {
        self.cfg
    }

    /// Every value ever assigned to the selected index, in order.
    pub closed spec fn assigned_spec(self) -> Seq<usize> {
        self.assigned@
    }

    /// The image index rendered by each frame, in order.
    pub closed spec fn drawn_spec(self) -> Seq<usize> {
        self.drawn@
    }

    pub open spec fn frame_count(self) -> int {
        self.display_spec().screen_spec().frame_count()
    }

    pub open spec fn wf(self) -> bool {
        &&& self.display_spec().wf()
        &&& self.display_spec().wrap_spec()
        &&& 1 <= self.images_spec().len()
        &&& all_images_wf(self.images_spec())
        &&& (self.selected_spec() as int) < self.images_spec().len()
        &&& alts_only(self.queue_spec(), self.images_spec().len() as int)
        &&& 1 <= self.assigned_spec().len()
        &&& self.assigned_spec().last() == self.selected_spec()
        &&& indices_below(self.assigned_spec(), self.images_spec().len() as int)
        &&& indices_below(self.drawn_spec(), self.images_spec().len() as int)
        &&& self.cfg_spec().wf()
    }

    /// Starts a session on the given surface: wrap forced on, the clean
    /// baseline (index 0) selected, no pending glitch burst.
    pub fn new(display: Scrollable<C>, images: Vec<Image<C>>, cfg: GlitchConfig, seed: u64) -> (s:
        Self)
        requires
            display.wf(),
            1 <= images@.len(),
            all_images_wf(images@),
            cfg.wf(),
        ensures
            s.wf(),
            s.selected_spec() == 0,
            s.queue_spec() == Seq::<usize>::empty(),
            s.images_spec() == images@,
            s.cfg_spec() == cfg,
            s.rng_state() == seed,
            s.assigned_spec() == seq![0usize],
            s.drawn_spec() == Seq::<usize>::empty(),
            s.display_spec().wrap_spec(),
            s.display_spec().offset_spec() == display.offset_spec(),
            s.display_spec().content_width() == display.content_width(),
            s.display_spec().screen_spec() == display.screen_spec(),
    {
        let mut display = display;
        display.set_wrap(true);
        proof {
            assert forall|i: int|
                0 <= i < Seq::empty().push(0usize).len() implies (#[trigger] Seq::empty().push(
                0usize,
            )[i] as int) < images@.len() by {
                assert(Seq::empty().push(0usize)[i] == 0usize);
            }
        }
        GlitchSession {
            display,
            images,
            selected: 0,
            queue: Vec::new(),
            rng: Rng64::new(seed),
            cfg,
            assigned: Ghost(Seq::empty().push(0usize)),
            drawn: Ghost(Seq::empty()),
        }
    }

    /// One background-loop tick: advances the scroll offset by one, redraws
    /// the currently selected image at the new offset, and presents. The
    /// index rendered is exactly the most recently assigned one.
    pub fn scroll_tick(&mut self)
        requires
            old(self).wf(),
            old(self).frame_count() < u64::MAX,
        ensures
            final(self).wf(),
            final(self).selected_spec() == old(self).selected_spec(),
            final(self).queue_spec() == old(self).queue_spec(),
            final(self).images_spec() == old(self).images_spec(),
            final(self).cfg_spec() == old(self).cfg_spec(),
            final(self).rng_state() == old(self).rng_state(),
            final(self).assigned_spec() == old(self).assigned_spec(),
            final(self).drawn_spec() == old(self).drawn_spec().push(
                old(self).assigned_spec().last(),
            ),
            final(self).display_spec().offset_spec() == remap_spec(
                old(self).display_spec().offset_spec(),
                1,
                old(self).display_spec().content_width(),
                true,
            ),
            final(self).display_spec().content_width() == old(self).display_spec().content_width(),
            final(self).frame_count() == old(self).frame_count() + 1,
            final(self).display_spec().screen_spec().front() == paint_all(
                old(self).display_spec().screen_spec().back(),
                translate_all(
                    old(self).images_spec()[old(self).selected_spec() as int].pixels@,
                    final(self).display_spec().offset_spec(),
                    old(self).display_spec().content_width(),
                    true,
                ),
                old(self).display_spec().screen_spec().width_spec(),
                old(self).display_spec().screen_spec().height_spec(),
            ),
            final(self).display_spec().screen_spec().back() == blank::<C>(
                old(self).display_spec().screen_spec().area(),
            ),
    {
        self.display.inc_x(1);
        self.display.draw(&self.images[self.selected].pixels);
        self.drawn = Ghost(self.drawn@.push(self.selected));
        proof {
            lemma_indices_below_push(
                old(self).drawn_spec(),
                old(self).selected_spec(),
                self.images@.len() as int,
            );
        }
        self.display.present();
    }

    /// The start of a foreground cycle: forces the selection back to the
    /// clean baseline, redraws it at the current offset, presents, and
    /// returns how long to hold the clean picture, drawn from the clean
    /// interval range.
    pub fn begin_cycle(&mut self) -> (sleep_ns: u64)
        requires
            old(self).wf(),
            old(self).frame_count() < u64::MAX,
        ensures
            final(self).wf(),
            final(self).selected_spec() == 0,
            final(self).queue_spec() == old(self).queue_spec(),
            final(self).images_spec() == old(self).images_spec(),
            final(self).cfg_spec() == old(self).cfg_spec(),
            final(self).assigned_spec() == old(self).assigned_spec().push(0),
            final(self).drawn_spec() == old(self).drawn_spec().push(0),
            final(self).rng_state() == next_state(old(self).rng_state()),
            sleep_ns == range_draw(
                old(self).rng_state(),
                old(self).cfg_spec().clean_min_ns,
                old(self).cfg_spec().clean_max_ns,
            ),
            old(self).cfg_spec().clean_min_ns <= sleep_ns <= old(self).cfg_spec().clean_max_ns,
            final(self).display_spec().offset_spec() == old(self).display_spec().offset_spec(),
            final(self).display_spec().content_width() == old(self).display_spec().content_width(),
            final(self).frame_count() == old(self).frame_count() + 1,
            final(self).display_spec().screen_spec().front() == paint_all(
                old(self).display_spec().screen_spec().back(),
                translate_all(
                    old(self).images_spec()[0].pixels@,
                    old(self).display_spec().offset_spec(),
                    old(self).display_spec().content_width(),
                    true,
                ),
                old(self).display_spec().screen_spec().width_spec(),
                old(self).display_spec().screen_spec().height_spec(),
            ),
    {
        self.selected = 0;
        self.assigned = Ghost(self.assigned@.push(0));
        self.display.draw(&self.images[0].pixels);
        self.drawn = Ghost(self.drawn@.push(0));
        proof {
            lemma_indices_below_push(old(self).assigned_spec(), 0, self.images@.len() as int);
            lemma_indices_below_push(old(self).drawn_spec(), 0, self.images@.len() as int);
        }
        self.display.present();
        self.rng.next_in_range(self.cfg.clean_min_ns, self.cfg.clean_max_ns)
    }

    /// Reshuffles the alternate indices `1 .. images.len()` into the
    /// pending queue: a Fisher-Yates pass, so the queue holds every
    /// alternate index exactly once, in an order decided by the generator.
    #[verifier::loop_isolation(false)]
    pub fn shuffle_alternates(&mut self)
        requires
            old(self).wf(),
        ensures
            final(self).wf(),
            final(self).queue_spec().to_multiset() == alt_indices(
                old(self).images_spec().len() as int,
            ).to_multiset(),
            final(self).queue_spec().len() == old(self).images_spec().len() - 1,
            final(self).selected_spec() == old(self).selected_spec(),
            final(self).images_spec() == old(self).images_spec(),
            final(self).cfg_spec() == old(self).cfg_spec(),
            final(self).assigned_spec() == old(self).assigned_spec(),
            final(self).drawn_spec() == old(self).drawn_spec(),
            final(self).display_spec() == old(self).display_spec(),
    {
        let n = self.images.len();
        let ghost nn = n as int;
        let mut q: Vec<usize> = Vec::new();
        let mut i: usize = 1;
        while i < n
            invariant
                1 <= i <= n,
                n == self.images@.len(),
                q@ == alt_indices(nn).take(i - 1),
                nn == n as int,
            decreases n - i,
        {
            q.push(i);
            proof {
                assert(alt_indices(nn).take(i as int) =~= alt_indices(nn).take(i - 1).push(i));
            }
            i = i + 1;
        }
        proof {
            assert(alt_indices(nn).take(nn - 1) =~= alt_indices(nn));
        }
        proof {
            assert forall|t: int| 0 <= t < q@.len() implies 1 <= (#[trigger] q@[t]) && (
            q@[t] as int) < nn by {
                assert(q@[t] == alt_indices(nn)[t]);
            }
        }
        let mut k: usize = q.len();
        while k > 1
            invariant
                k <= q@.len(),
                q@.len() == nn - 1,
                q@.to_multiset() == alt_indices(nn).to_multiset(),
                alts_only(q@, nn),
                self.images@ == old(self).images@,
                self.selected == old(self).selected,
                self.queue@ == old(self).queue@,
                self.cfg == old(self).cfg,
                self.display == old(self).display,
                self.assigned@ == old(self).assigned@,
                self.drawn@ == old(self).drawn@,
            decreases k,
        {
            let j64 = self.rng.next_below(k as u64);
            let j = j64 as usize;
            k = k - 1;
            let ghost q0 = q@;
            let a = q[k];
            let b = q[j];
            q.set(k, b);
            q.set(j, a);
            proof {
                lemma_swap_preserves_multiset(q0, k as int, j as int);
                assert(q@ =~= q0.update(k as int, q0[j as int]).update(j as int, q0[k as int]));
                assert forall|t: int| 0 <= t < q@.len() implies 1 <= (#[trigger] q@[t]) && (
                q@[t] as int) < nn by {
                    if t == j as int {
                        assert(q@[t] == q0[k as int]);
                    } else if t == k as int {
                        assert(q@[t] == q0[j as int]);
                    } else {
                        assert(q@[t] == q0[t]);
                    }
                }
            }
        }
        self.queue = q;
    }

    /// One foreground glitch step: pops the next shuffled alternate index,
    /// selects it, redraws at the current offset, presents, and returns how
    /// long to hold it, drawn from the glitch interval range. Returns
    /// nothing, and changes nothing, once the cycle's queue is exhausted.
    pub fn glitch_step(&mut self) -> (r: Option<u64>)
        requires
            old(self).wf(),
            old(self).frame_count() < u64::MAX,
        ensures
            final(self).wf(),
            old(self).queue_spec().len() == 0 ==> r is None && *final(self) == *old(self),
            old(self).queue_spec().len() > 0 ==> {
                &&& r == Some(
                    range_draw(
                        old(self).rng_state(),
                        old(self).cfg_spec().glitch_min_ns,
                        old(self).cfg_spec().glitch_max_ns,
                    ),
                )
                &&& final(self).selected_spec() == old(self).queue_spec().last()
                &&& final(self).queue_spec() == old(self).queue_spec().drop_last()
                &&& final(self).assigned_spec() == old(self).assigned_spec().push(
                    old(self).queue_spec().last(),
                )
                &&& final(self).drawn_spec() == old(self).drawn_spec().push(
                    old(self).queue_spec().last(),
                )
                &&& final(self).rng_state() == next_state(old(self).rng_state())
                &&& final(self).frame_count() == old(self).frame_count() + 1
                &&& final(self).display_spec().offset_spec() == old(
                    self,
                ).display_spec().offset_spec()
                &&& final(self).display_spec().content_width() == old(
                    self,
                ).display_spec().content_width()
                &&& final(self).display_spec().screen_spec().front() == paint_all(
                    old(self).display_spec().screen_spec().back(),
                    translate_all(
                        old(self).images_spec()[old(self).queue_spec().last() as int].pixels@,
                        old(self).display_spec().offset_spec(),
                        old(self).display_spec().content_width(),
                        true,
                    ),
                    old(self).display_spec().screen_spec().width_spec(),
                    old(self).display_spec().screen_spec().height_spec(),
                )
            },
            final(self).images_spec() == old(self).images_spec(),
            final(self).cfg_spec() == old(self).cfg_spec(),
    {
        if self.queue.len() == 0 {
            return None;
        }
        let idx = match self.queue.pop() {
            Some(v) => v,
            None => {
                proof {
                    assert(false);
                }
                0
            },
        };
        proof {
            assert(old(self).queue_spec()[old(self).queue_spec().len() - 1] == idx);
            lemma_alts_only_drop_last(old(self).queue_spec(), old(self).images_spec().len() as int);
        }
        self.selected = idx;
        self.assigned = Ghost(self.assigned@.push(idx));
        self.display.draw(&self.images[idx].pixels);
        self.drawn = Ghost(self.drawn@.push(idx));
        proof {
            lemma_indices_below_push(old(self).assigned_spec(), idx, self.images@.len() as int);
            lemma_indices_below_push(old(self).drawn_spec(), idx, self.images@.len() as int);
        }
        self.display.present();
        Some(self.rng.next_in_range(self.cfg.glitch_min_ns, self.cfg.glitch_max_ns))
    }

    /// A whole glitch burst at once, with no holds between the steps: pops
    /// every pending alternate index in shuffled order, rendering each
    /// exactly once, and returns the hold drawn for each step. The timed
    /// foreground loop calls `glitch_step` one index at a time instead and
    /// sleeps between steps; this is the burst's pure content.
    #[verifier::loop_isolation(false)]
    pub fn glitch_burst(&mut self) -> (sleeps: Vec<u64>)
        requires
            old(self).wf(),
            old(self).frame_count() + old(self).queue_spec().len() <= u64::MAX,
        ensures
            final(self).wf(),
            final(self).queue_spec() == Seq::<usize>::empty(),
            final(self).drawn_spec() == old(self).drawn_spec() + old(
                self,
            ).queue_spec().reverse(),
            final(self).assigned_spec() == old(self).assigned_spec() + old(
                self,
            ).queue_spec().reverse(),
            final(self).images_spec() == old(self).images_spec(),
            final(self).cfg_spec() == old(self).cfg_spec(),
            final(self).frame_count() == old(self).frame_count() + old(self).queue_spec().len(),
            final(self).display_spec().offset_spec() == old(self).display_spec().offset_spec(),
            final(self).display_spec().content_width() == old(self).display_spec().content_width(),
            sleeps@.len() == old(self).queue_spec().len(),
            forall|i: int|
                0 <= i < sleeps@.len() ==> old(self).cfg_spec().glitch_min_ns <= (
                #[trigger] sleeps@[i]) <= old(self).cfg_spec().glitch_max_ns,
    {
        let ghost q0 = self.queue@;
        let ghost drawn0 = self.drawn@;
        let ghost assigned0 = self.assigned@;
        let ghost fc0 = self.frame_count();
        let mut sleeps: Vec<u64> = Vec::new();
        while self.queue.len() > 0
            invariant
                self.wf(),
                self.queue@ == q0.take(q0.len() - sleeps@.len()),
                sleeps@.len() <= q0.len(),
                self.drawn@ == drawn0 + q0.skip(q0.len() - sleeps@.len()).reverse(),
                self.assigned@ == assigned0 + q0.skip(q0.len() - sleeps@.len()).reverse(),
                self.images@ == old(self).images@,
                self.cfg == old(self).cfg,
                self.frame_count() == fc0 + sleeps@.len(),
                fc0 + q0.len() <= u64::MAX,
                self.display_spec().offset_spec() == old(self).display_spec().offset_spec(),
                self.display_spec().content_width() == old(self).display_spec().content_width(),
                forall|i: int|
                    0 <= i < sleeps@.len() ==> self.cfg.glitch_min_ns <= (#[trigger] sleeps@[i])
                        <= self.cfg.glitch_max_ns,
            decreases self.queue@.len(),
        {
            let ghost qpre = self.queue@;
            let s = match self.glitch_step() {
                Some(v) => v,
                None => {
                    proof {
                        assert(false);
                    }
                    0
                },
            };
            sleeps.push(s);
            proof {
                let done = sleeps@.len();
                assert(qpre =~= q0.take(q0.len() - (done - 1)));
                assert(qpre.drop_last() =~= q0.take(q0.len() - done));
                assert(qpre.last() == q0[q0.len() - done]);
                assert(q0.skip(q0.len() - done) =~= seq![q0[q0.len() - done]] + q0.skip(
                    q0.len() - (done - 1),
                ));
                assert(q0.skip(q0.len() - done).reverse() =~= q0.skip(
                    q0.len() - (done - 1),
                ).reverse().push(q0[q0.len() - done]));
            }
        }
        proof {
            assert(q0.take(q0.len() - sleeps@.len()) =~= self.queue@);
            assert(sleeps@.len() == q0.len());
            assert(q0.skip(0) =~= q0);
        }
        sleeps
    }

    /// The currently selected image index.
    pub fn selected(&self) -> (s: usize)
        ensures
            s == self.selected_spec(),
    {
        self.selected
    }

    /// How many alternate indices remain in this cycle's queue.
    pub fn queue_len(&self) -> (n: usize)
        ensures
            n == self.queue_spec().len(),
    {
        self.queue.len()
    }

    /// Read access to the shared surface.
    pub fn display(&self) -> (d: &Scrollable<C>)
        ensures
            d == self.display_spec(),
    {
        &self.display
    }

    /// The background scroll tick, for the driver's pacing.
    pub fn scroll_tick_ns(&self) -> (t: u64)
        ensures
            t == self.cfg_spec().scroll_tick_ns,
    {
        self.cfg.scroll_tick_ns
    }
}

/// Swapping two positions of a sequence leaves its multiset unchanged.
proof fn lemma_swap_preserves_multiset<A>(s: Seq<A>, i: int, j: int)
    requires
        0 <= i < s.len(),
        0 <= j < s.len(),
    ensures
        s.update(i, s[j]).update(j, s[i]).to_multiset() == s.to_multiset(),
{
    broadcast use vstd::seq_lib::group_to_multiset_ensures;
    broadcast use vstd::multiset::group_multiset_axioms;

    let a = s[i];
    let b = s[j];
    if i == j {
        assert(s.update(i, b).update(j, a) =~= s);
    } else {
        let s1 = s.update(i, b);
        vstd::seq_lib::to_multiset_update(s, i, b);
        vstd::seq_lib::to_multiset_update(s1, j, a);
        assert(s.contains(a));
        assert(s.contains(b));
        assert(s1[j] == b);
        assert(s1.update(j, a).to_multiset() =~= s.to_multiset());
    }
}

/// Law: every alternate index occurs exactly once among `1 .. n`.
pub proof fn lemma_alt_indices_each_once(n: int, k: usize)
    requires
        2 <= n <= usize::MAX,
        1 <= k < n,
    ensures
        alt_indices(n).to_multiset().count(k) == 1,
    decreases n,
{
    broadcast use vstd::seq_lib::group_to_multiset_ensures;
    broadcast use vstd::multiset::group_multiset_axioms;

    if n == 2 {
        let e = Seq::<usize>::empty();
        assert(alt_indices(2) =~= e.push(1usize));
        assert(e.push(1usize).to_multiset() =~= e.to_multiset().insert(1usize));
        assert(e.to_multiset().len() == 0);
        assert(e.to_multiset().count(1usize) == 0);
        assert(e.to_multiset().insert(1usize).count(1usize) == 1);
        assert(k == 1usize);
    } else {
        let last = (n - 1) as usize;
        assert(alt_indices(n) =~= alt_indices(n - 1).push(last));
        assert(alt_indices(n - 1).push(last).to_multiset() =~= alt_indices(
            n - 1,
        ).to_multiset().insert(last));
        if k == last {
            assert forall|i: int| 0 <= i < alt_indices(n - 1).len() implies #[trigger] alt_indices(
                n - 1,
            )[i] != k by {
                assert(alt_indices(n - 1)[i] == (i + 1) as usize);
            }
            assert(!alt_indices(n - 1).contains(k));
            assert(alt_indices(n - 1).to_multiset().count(k) == 0);
        } else {
            lemma_alt_indices_each_once(n - 1, k);
            assert(alt_indices(n - 1).to_multiset().insert(last).count(k) == alt_indices(
                n - 1,
            ).to_multiset().count(k));
        }
    }
}

/// Law: one full glitch burst renders every alternate image exactly once.
/// If the pending queue held a shuffle of the alternates `1 .. n` and the
/// burst appended `queue.reverse()` to the drawn trace, then each alternate
/// index appears exactly once among the frames the burst drew.
pub proof fn lemma_burst_hits_each_alternate_once(
    drawn_before: Seq<usize>,
    drawn_after: Seq<usize>,
    queue: Seq<usize>,
    n: int,
    k: usize,
)
    requires
        drawn_after == drawn_before + queue.reverse(),
        queue.to_multiset() == alt_indices(n).to_multiset(),
        2 <= n <= usize::MAX,
        1 <= k < n,
    ensures
        drawn_after.skip(drawn_before.len() as int).to_multiset().count(k) == 1,
{
    assert(drawn_after.skip(drawn_before.len() as int) =~= queue.reverse());
    queue.lemma_reverse_to_multiset();
    lemma_alt_indices_each_once(n, k);
}

} // verus!
