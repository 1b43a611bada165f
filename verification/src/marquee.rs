//! The marquee controller: sequences scroll and display operations over a
//! scrollable surface, one frame per tick. Sweeping a finite image list is
//! a pure computation and runs to completion here; the wall-clock modes
//! (scroll until a deadline, hold a static frame) are split into verified
//! per-tick steps plus the pacing decisions, so a driver loop owns nothing
//! but its clock and its sleeps.

use vstd::prelude::*;

verus! {

use crate::pixel::Image;
use crate::remap::remap_spec;
use crate::scroll::{translate_all, Scrollable};
use crate::surface::{blank, paint_all};

/// The offsets at which one sweep draws an image of width `w` across a
/// panel of width `panel`: the content starts fully off-screen to the right
/// and moves one pixel left per tick until it is fully off the left edge,
/// `w + panel` frames in all.
pub open spec fn sweep_offsets(panel: int, w: int) -> Seq<int> {
    Seq::new((w + panel) as nat, |j: int| panel - 1 - j)
}

/// The content width a sweep of `img` runs with: the image's width,
/// clamped up to the panel width.
pub open spec fn cw_of<C>(img: Image<C>, panel: int) -> int {
    if img.width >= panel {
        img.width as int
    } else {
        panel
    }
}

/// The exact frames one sweep presents: frame `j` is the image translated
/// to offset `panel - 1 - j` and merged into that tick's writable buffer,
/// which is the caller's pending buffer for the first frame and a cleared
/// one for every later frame.
pub open spec fn sweep_frames<C>(
    back0: Seq<Option<C>>,
    img: Image<C>,
    panel: int,
    height: int,
) -> Seq<Seq<Option<C>>> {
    Seq::new(
        (img.width + panel) as nat,
        |j: int|
            paint_all(
                if j == 0 {
                    back0
                } else {
                    blank(panel * height)
                },
                translate_all(img.pixels@, panel - 1 - j, cw_of(img, panel), false),
                panel,
                height,
            ),
    )
}

/// Law: a sweep's offsets start with the content just inside the right
/// edge and decrease by exactly one per frame, ending with it just off the
/// left edge: one frame per tick, `w + panel` frames in all.
pub proof fn lemma_sweep_offsets_monotonic(panel: int, w: int)
    requires
        0 <= panel,
        0 <= w,
    ensures
        sweep_offsets(panel, w).len() == w + panel,
        forall|j: int| 0 <= j < w + panel ==> #[trigger] sweep_offsets(panel, w)[j] == panel - 1
            - j,
        forall|j: int|
            0 < j < w + panel ==> #[trigger] sweep_offsets(panel, w)[j] == sweep_offsets(
                panel,
                w,
            )[j - 1] - 1,
        w + panel > 0 ==> sweep_offsets(panel, w).first() == panel - 1,
        w + panel > 0 ==> sweep_offsets(panel, w).last() == -w,
{
}

/// The offsets of one pass over an image list: each image's sweep in turn.
pub open spec fn pass_offsets<C>(images: Seq<Image<C>>, panel: int) -> Seq<int>
    decreases images.len(),
{
    if images.len() == 0 {
        Seq::empty()
    } else {
        pass_offsets(images.drop_last(), panel) + sweep_offsets(
            panel,
            images.last().width as int,
        )
    }
}

/// Frame draws in one pass over an image list: the sum over the images of
/// image width plus panel width.
pub open spec fn pass_cost<C>(images: Seq<Image<C>>, panel: int) -> int
    decreases images.len(),
{
    if images.len() == 0 {
        0
    } else {
        pass_cost(images.drop_last(), panel) + images.last().width + panel
    }
}

/// The offsets of `n` passes over an image list.
pub open spec fn passes_offsets<C>(images: Seq<Image<C>>, panel: int, n: int) -> Seq<int>
    decreases n,
{
    if n <= 0 {
        Seq::empty()
    } else {
        passes_offsets(images, panel, n - 1) + pass_offsets(images, panel)
    }
}

/// The frames of one pass over an image list: each image's sweep in turn,
/// the first drawing onto the caller's pending buffer and every later
/// sweep onto the cleared buffer its predecessor left behind.
pub open spec fn pass_frames<C>(
    back0: Seq<Option<C>>,
    images: Seq<Image<C>>,
    panel: int,
    height: int,
) -> Seq<Seq<Option<C>>>
    decreases images.len(),
{
    if images.len() == 0 {
        Seq::empty()
    } else {
        sweep_frames(back0, images.first(), panel, height) + pass_frames(
            blank(panel * height),
            images.drop_first(),
            panel,
            height,
        )
    }
}

/// The frames of `n` passes over an image list.
pub open spec fn passes_frames<C>(
    back0: Seq<Option<C>>,
    images: Seq<Image<C>>,
    panel: int,
    height: int,
    n: int,
) -> Seq<Seq<Option<C>>>
    decreases n,
{
    if n <= 0 {
        Seq::empty()
    } else {
        pass_frames(back0, images, panel, height) + passes_frames(
            if images.len() == 0 {
                back0
            } else {
                blank(panel * height)
            },
            images,
            panel,
            height,
            n - 1,
        )
    }
}

proof fn lemma_pass_frames_snoc<C>(
    back0: Seq<Option<C>>,
    images: Seq<Image<C>>,
    panel: int,
    height: int,
    k: int,
)
    requires
        0 <= k < images.len(),
    ensures
        pass_frames(back0, images.take(k + 1), panel, height) == pass_frames(
            back0,
            images.take(k),
            panel,
            height,
        ) + sweep_frames(
            if k == 0 {
                back0
            } else {
                blank(panel * height)
            },
            images[k],
            panel,
            height,
        ),
    decreases k,
{
    let b = blank::<C>(panel * height);
    if k == 0 {
        assert(images.take(0) =~= Seq::<Image<C>>::empty());
        assert(images.take(1).first() == images[0]);
        assert(images.take(1).drop_first() =~= Seq::<Image<C>>::empty());
        assert(pass_frames(b, Seq::<Image<C>>::empty(), panel, height)
            == Seq::<Seq<Option<C>>>::empty());
        assert(pass_frames(back0, Seq::<Image<C>>::empty(), panel, height)
            == Seq::<Seq<Option<C>>>::empty());
        assert(pass_frames(back0, images.take(1), panel, height) =~= sweep_frames(
            back0,
            images[0],
            panel,
            height,
        ));
        assert(pass_frames(back0, images.take(0), panel, height) + sweep_frames(
            back0,
            images[0],
            panel,
            height,
        ) =~= sweep_frames(back0, images[0], panel, height));
    } else {
        let rest = images.drop_first();
        assert(images.take(k + 1).first() == images[0]);
        assert(images.take(k + 1).drop_first() =~= rest.take(k));
        assert(images.take(k).first() == images[0]);
        assert(images.take(k).drop_first() =~= rest.take(k - 1));
        lemma_pass_frames_snoc(b, rest, panel, height, k - 1);
        assert(rest[k - 1] == images[k]);
        assert(pass_frames(back0, images.take(k + 1), panel, height) == sweep_frames(
            back0,
            images[0],
            panel,
            height,
        ) + pass_frames(b, rest.take(k), panel, height));
        assert(pass_frames(back0, images.take(k), panel, height) == sweep_frames(
            back0,
            images[0],
            panel,
            height,
        ) + pass_frames(b, rest.take(k - 1), panel, height));
        assert(sweep_frames(back0, images[0], panel, height) + (pass_frames(
            b,
            rest.take(k - 1),
            panel,
            height,
        ) + sweep_frames(b, images[k], panel, height)) =~= (sweep_frames(
            back0,
            images[0],
            panel,
            height,
        ) + pass_frames(b, rest.take(k - 1), panel, height)) + sweep_frames(
            b,
            images[k],
            panel,
            height,
        ));
    }
}

proof fn lemma_passes_frames_snoc<C>(
    back0: Seq<Option<C>>,
    images: Seq<Image<C>>,
    panel: int,
    height: int,
    n: int,
)
    requires
        n >= 0,
    ensures
        passes_frames(back0, images, panel, height, n + 1) == passes_frames(
            back0,
            images,
            panel,
            height,
            n,
        ) + pass_frames(
            if n == 0 || images.len() == 0 {
                back0
            } else {
                blank(panel * height)
            },
            images,
            panel,
            height,
        ),
    decreases n,
{
    let b = blank::<C>(panel * height);
    if n == 0 {
        let next = if images.len() == 0 {
            back0
        } else {
            b
        };
        assert(passes_frames(next, images, panel, height, 0) == Seq::<Seq<Option<C>>>::empty());
        assert(passes_frames(back0, images, panel, height, 1) =~= Seq::empty() + pass_frames(
            back0,
            images,
            panel,
            height,
        ));
        assert(passes_frames(back0, images, panel, height, 0) + pass_frames(
            back0,
            images,
            panel,
            height,
        ) =~= Seq::empty() + pass_frames(back0, images, panel, height));
    } else {
        let next = if images.len() == 0 {
            back0
        } else {
            b
        };
        lemma_passes_frames_snoc(next, images, panel, height, n - 1);
        assert(passes_frames(back0, images, panel, height, n + 1) == pass_frames(
            back0,
            images,
            panel,
            height,
        ) + passes_frames(next, images, panel, height, n));
        assert(pass_frames(back0, images, panel, height) + (passes_frames(
            next,
            images,
            panel,
            height,
            n - 1,
        ) + pass_frames(next, images, panel, height)) =~= (pass_frames(
            back0,
            images,
            panel,
            height,
        ) + passes_frames(next, images, panel, height, n - 1)) + pass_frames(
            next,
            images,
            panel,
            height,
        ));
    }
}

proof fn lemma_pass_cost_nonneg<C>(images: Seq<Image<C>>, panel: int)
    requires
        panel >= 0,
    ensures
        pass_cost(images, panel) >= 0,
    decreases images.len(),
{
    if images.len() > 0 {
        lemma_pass_cost_nonneg(images.drop_last(), panel);
    }
}

proof fn lemma_pass_step<C>(images: Seq<Image<C>>, panel: int, k: int)
    requires
        0 <= k < images.len(),
    ensures
        pass_cost(images.take(k + 1), panel) == pass_cost(images.take(k), panel)
            + images[k].width + panel,
        pass_offsets(images.take(k + 1), panel) == pass_offsets(images.take(k), panel)
            + sweep_offsets(panel, images[k].width as int),
{
    assert(images.take(k + 1).drop_last() =~= images.take(k));
    assert(images.take(k + 1).last() == images[k]);
}

proof fn lemma_pass_cost_mono<C>(images: Seq<Image<C>>, panel: int, k: int)
    requires
        panel >= 0,
        0 <= k <= images.len(),
    ensures
        pass_cost(images.take(k), panel) <= pass_cost(images, panel),
    decreases images.len() - k,
{
    if k < images.len() {
        lemma_pass_step(images, panel, k);
        lemma_pass_cost_mono(images, panel, k + 1);
    } else {
        assert(images.take(k) =~= images);
    }
}

/// Drives a scrollable surface through the three marquee modes. The ghost
/// trace `drawn` records the scroll offset of every frame ever drawn, in
/// order, so a contract can pin down exactly which frames a mode produced.
pub struct Marquee<C> {
    display: Scrollable<C>,
    drawn: Ghost<Seq<int>>,
}

impl<C: Copy> Marquee<C> {
    /// The driven surface, as contracts see it.
    pub closed spec fn display_spec(self) -> Scrollable<C> {
        self.display
    }

    /// The offset of every frame drawn so far, in draw order.
    pub closed spec fn offsets_drawn(self) -> Seq<int> {
        self.drawn@
    }

    /// The physical panel width of the driven surface.
    pub open spec fn panel_width(self) -> int {
        self.display_spec().screen_spec().width_spec()
    }

    /// Frames presented so far by the driven surface.
    pub open spec fn frame_count(self) -> int {
        self.display_spec().screen_spec().frame_count()
    }

    pub open spec fn wf(self) -> bool {
        self.display_spec().wf()
    }

    pub fn new(display: Scrollable<C>) -> (m: Self)
        requires
            display.wf(),
        ensures
            m.wf(),
            m.display_spec() == display,
            m.offsets_drawn() == Seq::<int>::empty(),
    {
        Marquee { display, drawn: Ghost(Seq::empty()) }
    }

    /// Read access to the driven surface.
    pub fn display(&self) -> (d: &Scrollable<C>)
        ensures
            d == self.display_spec(),
    {
        &self.display
    }

    /// One full sweep of one image, wrap disabled: from just off the right
    /// edge to just off the left edge, one frame per offset.
    #[verifier::loop_isolation(false)]
    fn sweep(&mut self, image: &Image<C>)
        requires
            old(self).wf(),
            image.wf(),
            !old(self).display_spec().wrap_spec(),
            old(self).frame_count() + image.width + old(self).panel_width() <= u64::MAX,
        ensures
            final(self).wf(),
            !final(self).display_spec().wrap_spec(),
            final(self).panel_width() == old(self).panel_width(),
            final(self).display_spec().screen_spec().height_spec() == old(
                self,
            ).display_spec().screen_spec().height_spec(),
            final(self).display_spec().content_width() == if image.width
                >= old(self).panel_width() {
                image.width as int
            } else {
                old(self).panel_width()
            },
            final(self).display_spec().offset_spec() == -(image.width as int),
            final(self).frame_count() == old(self).frame_count() + image.width + old(
                self,
            ).panel_width(),
            final(self).offsets_drawn() == old(self).offsets_drawn() + sweep_offsets(
                old(self).panel_width(),
                image.width as int,
            ),
            final(self).display_spec().screen_spec().presented() == old(
                self,
            ).display_spec().screen_spec().presented() + sweep_frames(
                old(self).display_spec().screen_spec().back(),
                *image,
                old(self).panel_width(),
                old(self).display_spec().screen_spec().height_spec(),
            ),
            final(self).display_spec().screen_spec().back() == blank::<C>(
                old(self).display_spec().screen_spec().area(),
            ),
    {
        let panel = self.display.screen().width();
        self.begin_sweep(image.width);
        let ghost cw = self.display_spec().content_width();
        let ghost fc0 = self.frame_count();
        let ghost drawn0 = self.drawn@;
        let ghost h = self.display_spec().screen_spec().height_spec();
        let ghost back0 = self.display_spec().screen_spec().back();
        let ghost shown0 = self.display_spec().screen_spec().presented();
        let total: u64 = image.width as u64 + panel as u64;
        let mut j: u64 = 0;
        while j < total
            invariant
                j <= total,
                self.wf(),
                !self.display_spec().wrap_spec(),
                self.display_spec().content_width() == cw,
                self.panel_width() == panel,
                self.display_spec().screen_spec().height_spec() == h,
                self.display_spec().offset_spec() == panel - j,
                self.frame_count() == fc0 + j,
                self.drawn@ == drawn0 + sweep_offsets(panel as int, image.width as int).take(
                    j as int,
                ),
                self.display_spec().screen_spec().presented() == shown0 + sweep_frames(
                    back0,
                    *image,
                    panel as int,
                    h,
                ).take(j as int),
                j == 0 ==> self.display_spec().screen_spec().back() == back0,
                j > 0 ==> self.display_spec().screen_spec().back() == blank::<C>(panel * h),
            decreases total - j,
        {
            let ghost back_pre = self.display_spec().screen_spec().back();
            self.display.inc_x(-1);
            self.display.draw(&image.pixels);
            self.drawn = Ghost(self.drawn@.push(self.display_spec().offset_spec()));
            self.display.present();
            proof {
                assert(sweep_offsets(panel as int, image.width as int).take(j + 1)
                    =~= sweep_offsets(panel as int, image.width as int).take(j as int).push(
                    panel - 1 - j,
                ));
                assert(sweep_frames(back0, *image, panel as int, h)[j as int] == paint_all(
                    back_pre,
                    translate_all(image.pixels@, panel - 1 - j, cw, false),
                    panel as int,
                    h,
                ));
                assert(sweep_frames(back0, *image, panel as int, h).take(j + 1) =~= sweep_frames(
                    back0,
                    *image,
                    panel as int,
                    h,
                ).take(j as int).push(sweep_frames(back0, *image, panel as int, h)[j as int]));
            }
            j = j + 1;
        }
        proof {
            assert(sweep_offsets(panel as int, image.width as int).take(total as int)
                =~= sweep_offsets(panel as int, image.width as int));
            assert(sweep_frames(back0, *image, panel as int, h).take(total as int)
                =~= sweep_frames(back0, *image, panel as int, h));
        }
    }

    /// Scrolls through the image list `n` times, wrap disabled: each pass
    /// sweeps each image once across the panel and off the far edge, one
    /// frame per tick, `image width + panel width` frames per image.
    #[verifier::loop_isolation(false)]
    pub fn scroll_n_times(&mut self, images: &Vec<Image<C>>, n: u32)
        requires
            old(self).wf(),
            forall|i: int| 0 <= i < images@.len() ==> (#[trigger] images@[i]).wf(),
            old(self).frame_count() + n * pass_cost(images@, old(self).panel_width())
                <= u64::MAX,
        ensures
            final(self).wf(),
            !final(self).display_spec().wrap_spec(),
            final(self).panel_width() == old(self).panel_width(),
            final(self).display_spec().screen_spec().height_spec() == old(
                self,
            ).display_spec().screen_spec().height_spec(),
            final(self).frame_count() == old(self).frame_count() + n * pass_cost(
                images@,
                old(self).panel_width(),
            ),
            final(self).offsets_drawn() == old(self).offsets_drawn() + passes_offsets(
                images@,
                old(self).panel_width(),
                n as int,
            ),
            n > 0 && images@.len() > 0 ==> final(self).display_spec().offset_spec() == -(
            images@.last().width as int),
            n == 0 || images@.len() == 0 ==> final(self).display_spec().offset_spec() == old(
                self,
            ).display_spec().offset_spec() && final(self).display_spec().content_width() == old(
                self,
            ).display_spec().content_width(),
            final(self).display_spec().screen_spec().presented() == old(
                self,
            ).display_spec().screen_spec().presented() + passes_frames(
                old(self).display_spec().screen_spec().back(),
                images@,
                old(self).panel_width(),
                old(self).display_spec().screen_spec().height_spec(),
                n as int,
            ),
            n > 0 && images@.len() > 0 ==> final(self).display_spec().screen_spec().back()
                == blank::<C>(old(self).display_spec().screen_spec().area()),
            n == 0 || images@.len() == 0 ==> final(self).display_spec().screen_spec().back()
                == old(self).display_spec().screen_spec().back(),
    {
        let ghost panel = self.panel_width();
        let ghost fc0 = self.frame_count();
        let ghost drawn0 = self.drawn@;
        let ghost h = self.display_spec().screen_spec().height_spec();
        let ghost back00 = self.display_spec().screen_spec().back();
        let ghost shown00 = self.display_spec().screen_spec().presented();
        proof {
            lemma_pass_cost_nonneg(images@, panel);
        }
        self.display.set_wrap(false);
        let ghost off0 = self.display_spec().offset_spec();
        let ghost cw0 = self.display_spec().content_width();
        let mut pass: u32 = 0;
        while pass < n
            invariant
                pass <= n,
                self.wf(),
                !self.display_spec().wrap_spec(),
                self.panel_width() == panel,
                self.display_spec().screen_spec().height_spec() == old(
                    self,
                ).display_spec().screen_spec().height_spec(),
                self.frame_count() == fc0 + pass * pass_cost(images@, panel),
                self.drawn@ == drawn0 + passes_offsets(images@, panel, pass as int),
                self.display_spec().screen_spec().presented() == shown00 + passes_frames(
                    back00,
                    images@,
                    panel,
                    h,
                    pass as int,
                ),
                pass == 0 || images@.len() == 0 ==> self.display_spec().screen_spec().back()
                    == back00,
                pass > 0 && images@.len() > 0 ==> self.display_spec().screen_spec().back()
                    == blank::<C>(panel * h),
                self.display_spec().screen_spec().height_spec() == h,
                pass == 0 || images@.len() == 0 ==> self.display_spec().offset_spec() == off0
                    && self.display_spec().content_width() == cw0,
                pass > 0 && images@.len() > 0 ==> self.display_spec().offset_spec() == -(
                images@.last().width as int),
            decreases n - pass,
        {
            let ghost fc_pass = self.frame_count();
            let ghost drawn_pass = self.drawn@;
            let ghost shown_pass = self.display_spec().screen_spec().presented();
            let ghost back_pass = self.display_spec().screen_spec().back();
            proof {
                assert(images@.take(0) =~= Seq::<Image<C>>::empty());
                assert(pass_frames(back_pass, Seq::<Image<C>>::empty(), panel, h)
                    == Seq::<Seq<Option<C>>>::empty());
                assert(shown_pass + pass_frames(back_pass, images@.take(0), panel, h)
                    =~= shown_pass);
            }
            let mut k: usize = 0;
            while k < images.len()
                invariant
                    k <= images@.len(),
                    pass < n,
                    self.wf(),
                    !self.display_spec().wrap_spec(),
                    self.panel_width() == panel,
                    self.display_spec().screen_spec().height_spec() == old(
                        self,
                    ).display_spec().screen_spec().height_spec(),
                    fc_pass == fc0 + pass * pass_cost(images@, panel),
                    self.frame_count() == fc_pass + pass_cost(images@.take(k as int), panel),
                    self.drawn@ == drawn_pass + pass_offsets(images@.take(k as int), panel),
                    drawn_pass == drawn0 + passes_offsets(images@, panel, pass as int),
                    self.display_spec().screen_spec().presented() == shown_pass + pass_frames(
                        back_pass,
                        images@.take(k as int),
                        panel,
                        h,
                    ),
                    shown_pass == shown00 + passes_frames(back00, images@, panel, h, pass as int),
                    back_pass == (if pass == 0 || images@.len() == 0 {
                        back00
                    } else {
                        blank::<C>(panel * h)
                    }),
                    k == 0 ==> self.display_spec().screen_spec().back() == back_pass,
                    k > 0 ==> self.display_spec().screen_spec().back() == blank::<C>(panel * h),
                    self.display_spec().screen_spec().height_spec() == h,
                    k == 0 && pass == 0 || images@.len() == 0
                        ==> self.display_spec().offset_spec() == off0
                        && self.display_spec().content_width() == cw0,
                    k > 0 ==> self.display_spec().offset_spec() == -(
                    images@[k - 1].width as int),
                    k == 0 && pass > 0 && images@.len() > 0
                        ==> self.display_spec().offset_spec() == -(images@.last().width as int),
                decreases images@.len() - k,
            {
                proof {
                    lemma_pass_step(images@, panel, k as int);
                    lemma_pass_cost_mono(images@, panel, k + 1);
                    lemma_pass_cost_nonneg(images@.take(k as int), panel);
                    assert((pass + 1) * pass_cost(images@, panel) == pass * pass_cost(
                        images@,
                        panel,
                    ) + pass_cost(images@, panel)) by (nonlinear_arith);
                    vstd::arithmetic::mul::lemma_mul_inequality(
                        pass + 1,
                        n as int,
                        pass_cost(images@, panel),
                    );
                }
                let ghost back_pre = self.display_spec().screen_spec().back();
                self.sweep(&images[k]);
                proof {
                    assert(self.drawn@ =~= drawn_pass + pass_offsets(
                        images@.take(k + 1),
                        panel,
                    ));
                    lemma_pass_frames_snoc(back_pass, images@, panel, h, k as int);
                    assert(back_pre == if k == 0 {
                        back_pass
                    } else {
                        blank::<C>(panel * h)
                    });
                    assert(self.display_spec().screen_spec().presented() =~= shown_pass
                        + pass_frames(back_pass, images@.take(k + 1), panel, h));
                }
                k = k + 1;
            }
            proof {
                assert(images@.take(images@.len() as int) =~= images@);
                assert(passes_offsets(images@, panel, pass + 1) == passes_offsets(
                    images@,
                    panel,
                    pass as int,
                ) + pass_offsets(images@, panel));
                assert(self.drawn@ =~= drawn0 + passes_offsets(images@, panel, pass + 1));
                assert((pass + 1) * pass_cost(images@, panel) == pass * pass_cost(images@, panel)
                    + pass_cost(images@, panel)) by (nonlinear_arith);
                lemma_passes_frames_snoc(back00, images@, panel, h, pass as int);
                assert(self.display_spec().screen_spec().presented() =~= shown00 + passes_frames(
                    back00,
                    images@,
                    panel,
                    h,
                    pass + 1,
                ));
            }
            pass = pass + 1;
        }
    }

    /// One scroll frame: the offset retreats by one pixel (reduced into
    /// `[0, content width)` in wrap mode), the image is drawn translated by
    /// it, and the frame is presented. This is the per-tick step of both
    /// wall-clock modes; the caller owns the clock and the sleeps.
    pub fn scroll_tick(&mut self, image: &Image<C>)
        requires
            old(self).wf(),
            image.wf(),
            old(self).frame_count() < u64::MAX,
            !old(self).display_spec().wrap_spec() ==> -2 * crate::pixel::COORD_LIMIT <= old(
                self,
            ).display_spec().offset_spec() <= 2 * crate::pixel::COORD_LIMIT,
        ensures
            final(self).wf(),
            final(self).display_spec().wrap_spec() == old(self).display_spec().wrap_spec(),
            final(self).panel_width() == old(self).panel_width(),
            final(self).display_spec().screen_spec().height_spec() == old(
                self,
            ).display_spec().screen_spec().height_spec(),
            final(self).display_spec().content_width() == old(self).display_spec().content_width(),
            final(self).display_spec().offset_spec() == remap_spec(
                old(self).display_spec().offset_spec(),
                -1,
                old(self).display_spec().content_width(),
                old(self).display_spec().wrap_spec(),
            ),
            final(self).frame_count() == old(self).frame_count() + 1,
            final(self).offsets_drawn() == old(self).offsets_drawn().push(
                final(self).display_spec().offset_spec(),
            ),
            final(self).display_spec().screen_spec().front() == paint_all(
                old(self).display_spec().screen_spec().back(),
                translate_all(
                    image.pixels@,
                    final(self).display_spec().offset_spec(),
                    old(self).display_spec().content_width(),
                    old(self).display_spec().wrap_spec(),
                ),
                old(self).panel_width(),
                old(self).display_spec().screen_spec().height_spec(),
            ),
            final(self).display_spec().screen_spec().back() == blank::<C>(
                old(self).display_spec().screen_spec().area(),
            ),
            final(self).display_spec().screen_spec().presented() == old(
                self,
            ).display_spec().screen_spec().presented().push(
                final(self).display_spec().screen_spec().front(),
            ),
    {
        self.display.inc_x(-1);
        self.display.draw(&image.pixels);
        self.drawn = Ghost(self.drawn@.push(self.display_spec().offset_spec()));
        self.display.present();
    }

    /// Enters a sweep: wrap off, the offset reset to the panel width (the
    /// content fully off-screen to the right), and the content width set to
    /// the image's. A paced driver then calls `scroll_tick` once per frame,
    /// `sweep_frame_count` times.
    pub fn begin_sweep(&mut self, image_width: u32)
        requires
            old(self).wf(),
        ensures
            final(self).wf(),
            !final(self).display_spec().wrap_spec(),
            final(self).panel_width() == old(self).panel_width(),
            final(self).display_spec().offset_spec() == old(self).panel_width(),
            final(self).display_spec().content_width() == if image_width >= old(
                self,
            ).panel_width() {
                image_width as int
            } else {
                old(self).panel_width()
            },
            final(self).display_spec().screen_spec() == old(self).display_spec().screen_spec(),
            final(self).offsets_drawn() == old(self).offsets_drawn(),
    {
        self.display.set_wrap(false);
        let panel = self.display.screen().width();
        self.display.set_x(panel);
        self.display.set_width(image_width);
    }

    /// How many frames one sweep of an image takes: one per offset from
    /// just off the right edge to just off the left edge.
    pub fn sweep_frame_count(&self, image_width: u32) -> (n: u64)
        ensures
            n == image_width + self.panel_width(),
    {
        image_width as u64 + self.display.screen().width() as u64
    }

    /// Enters the wall-clock scrolling mode: wrap on, the offset reset to
    /// the panel width, and the content width set to the image width plus
    /// one panel width of padding, so the loop seam stays off-screen.
    pub fn begin_scroll_for_duration(&mut self, image_width: u32)
        requires
            old(self).wf(),
            image_width + old(self).panel_width() <= u32::MAX,
        ensures
            final(self).wf(),
            final(self).display_spec().wrap_spec(),
            final(self).panel_width() == old(self).panel_width(),
            final(self).display_spec().offset_spec() == old(self).panel_width(),
            final(self).display_spec().content_width() == image_width + old(self).panel_width(),
            final(self).display_spec().screen_spec() == old(self).display_spec().screen_spec(),
            final(self).offsets_drawn() == old(self).offsets_drawn(),
    {
        self.display.set_wrap(true);
        let panel = self.display.screen().width();
        self.display.set_x(panel);
        self.display.set_width(image_width + panel);
    }

    /// Static display: resets the offset to zero, draws the image once,
    /// presents once, and returns how long the caller is to idle without
    /// further drawing.
    pub fn display_for_duration(&mut self, image: &Image<C>, duration_ns: u64) -> (idle_ns: u64)
        requires
            old(self).wf(),
            image.wf(),
            old(self).frame_count() < u64::MAX,
        ensures
            idle_ns == duration_ns,
            final(self).wf(),
            final(self).display_spec().wrap_spec() == old(self).display_spec().wrap_spec(),
            final(self).panel_width() == old(self).panel_width(),
            final(self).display_spec().screen_spec().height_spec() == old(
                self,
            ).display_spec().screen_spec().height_spec(),
            final(self).display_spec().content_width() == old(self).display_spec().content_width(),
            final(self).display_spec().offset_spec() == 0,
            final(self).frame_count() == old(self).frame_count() + 1,
            final(self).offsets_drawn() == old(self).offsets_drawn().push(0),
            final(self).display_spec().screen_spec().front() == paint_all(
                old(self).display_spec().screen_spec().back(),
                translate_all(
                    image.pixels@,
                    0,
                    old(self).display_spec().content_width(),
                    old(self).display_spec().wrap_spec(),
                ),
                old(self).panel_width(),
                old(self).display_spec().screen_spec().height_spec(),
            ),
            final(self).display_spec().screen_spec().back() == blank::<C>(
                old(self).display_spec().screen_spec().area(),
            ),
            final(self).display_spec().screen_spec().presented() == old(
                self,
            ).display_spec().screen_spec().presented().push(
                final(self).display_spec().screen_spec().front(),
            ),
    {
        self.display.set_x(0);
        self.display.draw(&image.pixels);
        self.drawn = Ghost(self.drawn@.push(self.display_spec().offset_spec()));
        self.display.present();
        duration_ns
    }
}

/// Whether a deadline-bounded loop may start another frame: only strictly
/// before the deadline, so no frame ever starts at or past it.
pub fn should_continue(elapsed_ns: u64, duration_ns: u64) -> (go: bool)
    ensures
        go == (elapsed_ns < duration_ns),
{
    elapsed_ns < duration_ns
}

/// How long to sleep after a frame that took `elapsed_ns` of the per-frame
/// budget: the remaining budget, or nothing when the frame overran. A late
/// frame never shortens the frames after it; the loop simply starts the
/// next frame at once. The sleep never exceeds one frame interval.
pub fn sleep_budget(frame_interval_ns: u64, elapsed_ns: u64) -> (ns: u64)
    ensures
        ns == if elapsed_ns < frame_interval_ns {
            frame_interval_ns - elapsed_ns
        } else {
            0
        },
        ns <= frame_interval_ns,
{
    if elapsed_ns < frame_interval_ns {
        frame_interval_ns - elapsed_ns
    } else {
        0
    }
}

} // verus!
