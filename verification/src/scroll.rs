//! The scrollable surface: a frame surface paired with scroll state. Every
//! draw is translated horizontally by the current offset, wrapping around
//! the content width when wrap mode is on, before it reaches the frame
//! surface's writable buffer.

use vstd::prelude::*;

verus! {

use crate::config::Config;
use crate::pixel::Pixel;
use crate::remap::{remap, remap_spec};
use crate::surface::{paint_all, FrameSurface};

/// One pixel translated by the scroll state: the x-coordinate is remapped,
/// the y-coordinate and color pass through unchanged.
pub open spec fn translate_one<C>(p: Pixel<C>, offset: int, width: int, wrap: bool) -> Pixel<C> {
    Pixel { x: remap_spec(p.x as int, offset, width, wrap) as i64, y: p.y, color: p.color }
}

/// A whole pixel list translated by the scroll state, in order.
pub open spec fn translate_all<C>(
    ps: Seq<Pixel<C>>,
    offset: int,
    width: int,
    wrap: bool,
) -> Seq<Pixel<C>> {
    Seq::new(ps.len(), |i: int| translate_one(ps[i], offset, width, wrap))
}

/// A frame surface with scroll state: a signed horizontal offset, the
/// logical content width used as the wraparound modulus, and the wrap mode.
/// The scroll state is mutated only through this type's own methods.
pub struct Scrollable<C> {
    screen: FrameSurface<C>,
    max_x: u32,
    offset_x: i64,
    wrap: bool,
}

impl<C: Copy> Scrollable<C> {
    /// The wrapped frame surface, as contracts see it.
    pub closed spec fn screen_spec(self) -> FrameSurface<C> {
        self.screen
    }

    /// The current horizontal offset applied to every draw.
    pub closed spec fn offset_spec(self) -> int {
        self.offset_x as int
    }

    /// The logical content width: the wraparound modulus.
    pub closed spec fn content_width(self) -> int {
        self.max_x as int
    }

    pub closed spec fn wrap_spec(self) -> bool {
        self.wrap
    }

    /// The content width never falls below the physical panel width, so a
    /// wrapped draw always covers the panel's edge; in particular it is
    /// always positive, so it can serve as a modulus.
    pub open spec fn wf(self) -> bool {
        &&& self.screen_spec().wf()
        &&& self.content_width() >= self.screen_spec().width_spec()
    }

    /// A fresh scrollable surface: offset zero, content width equal to the
    /// panel width, wrap mode as configured.
    pub fn new(screen: FrameSurface<C>, cfg: &Config) -> (s: Self)
        requires
            screen.wf(),
        ensures
            s.wf(),
            s.screen_spec() == screen,
            s.offset_spec() == 0,
            s.content_width() == screen.width_spec(),
            s.wrap_spec() == cfg.default_wrap,
    {
        let max_x = screen.width();
        Scrollable { screen, max_x, offset_x: 0, wrap: cfg.default_wrap }
    }

    /// Draws the pixels horizontally translated by the current offset,
    /// merging them into the frame surface's writable buffer.
    pub fn draw(&mut self, pixels: &Vec<Pixel<C>>)
        requires
            old(self).wf(),
            !old(self).wrap_spec() ==> forall|i: int|
                0 <= i < pixels@.len() ==> i64::MIN <= (#[trigger] pixels@[i]).x
                    + old(self).offset_spec() <= i64::MAX,
        ensures
            final(self).wf(),
            final(self).offset_spec() == old(self).offset_spec(),
            final(self).content_width() == old(self).content_width(),
            final(self).wrap_spec() == old(self).wrap_spec(),
            final(self).screen_spec().back() == paint_all(
                old(self).screen_spec().back(),
                translate_all(
                    pixels@,
                    old(self).offset_spec(),
                    old(self).content_width(),
                    old(self).wrap_spec(),
                ),
                old(self).screen_spec().width_spec(),
                old(self).screen_spec().height_spec(),
            ),
            final(self).screen_spec().front() == old(self).screen_spec().front(),
            final(self).screen_spec().width_spec() == old(self).screen_spec().width_spec(),
            final(self).screen_spec().height_spec() == old(self).screen_spec().height_spec(),
            final(self).screen_spec().frame_count() == old(self).screen_spec().frame_count(),
            final(self).screen_spec().presented() == old(self).screen_spec().presented(),
    {
        let ghost translated_spec = translate_all(
            pixels@,
            self.offset_spec(),
            self.content_width(),
            self.wrap_spec(),
        );
        let mut translated: Vec<Pixel<C>> = Vec::new();
        let mut i: usize = 0;
        while i < pixels.len()
            invariant
                i <= pixels@.len(),
                self == old(self),
                self.wf(),
                !self.wrap_spec() ==> forall|k: int|
                    0 <= k < pixels@.len() ==> i64::MIN <= (#[trigger] pixels@[k]).x
                        + self.offset_spec() <= i64::MAX,
                translated@ == translated_spec.take(i as int),
                translated_spec == translate_all(
                    pixels@,
                    self.offset_spec(),
                    self.content_width(),
                    self.wrap_spec(),
                ),
            decreases pixels@.len() - i,
        {
            let p = pixels[i];
            let nx = remap(p.x, self.offset_x, self.max_x, self.wrap);
            translated.push(Pixel { x: nx, y: p.y, color: p.color });
            proof {
                assert(translated@ =~= translated_spec.take(i + 1));
            }
            i = i + 1;
        }
        proof {
            assert(translated@ =~= translated_spec);
        }
        self.screen.write(&translated);
    }

    /// Advances the offset by `delta`. In wrap mode the result is reduced
    /// into `[0, content width)`; otherwise it accumulates unbounded.
    pub fn inc_x(&mut self, delta: i64)
        requires
            old(self).wf(),
            !old(self).wrap_spec() ==> i64::MIN <= old(self).offset_spec() + delta <= i64::MAX,
        ensures
            final(self).wf(),
            final(self).offset_spec() == remap_spec(
                old(self).offset_spec(),
                delta as int,
                old(self).content_width(),
                old(self).wrap_spec(),
            ),
            final(self).content_width() == old(self).content_width(),
            final(self).wrap_spec() == old(self).wrap_spec(),
            final(self).screen_spec() == old(self).screen_spec(),
    {
        self.offset_x = remap(self.offset_x, delta, self.max_x, self.wrap);
    }

    /// Resets the offset to an absolute position.
    pub fn set_x(&mut self, x: u32)
        ensures
            final(self).offset_spec() == x as int,
            final(self).content_width() == old(self).content_width(),
            final(self).wrap_spec() == old(self).wrap_spec(),
            final(self).screen_spec() == old(self).screen_spec(),
            old(self).wf() ==> final(self).wf(),
    {
        self.offset_x = x as i64;
    }

    /// Switches between wrapping (seamless looping) and non-wrapping
    /// (slide off the edge) translation.
    pub fn set_wrap(&mut self, wrap: bool)
        ensures
            final(self).wrap_spec() == wrap,
            final(self).offset_spec() == old(self).offset_spec(),
            final(self).content_width() == old(self).content_width(),
            final(self).screen_spec() == old(self).screen_spec(),
            old(self).wf() ==> final(self).wf(),
    {
        self.wrap = wrap;
    }

    /// Sets the content width, clamped up to the physical panel width:
    /// a narrower request would leave part of the panel uncovered by the
    /// wrapped content.
    pub fn set_width(&mut self, x: u32)
        requires
            old(self).wf(),
        ensures
            final(self).wf(),
            final(self).content_width() == if x as int >= old(self).screen_spec().width_spec() {
                x as int
            } else {
                old(self).screen_spec().width_spec()
            },
            final(self).offset_spec() == old(self).offset_spec(),
            final(self).wrap_spec() == old(self).wrap_spec(),
            final(self).screen_spec() == old(self).screen_spec(),
    {
        let panel = self.screen.width();
        self.max_x = if x >= panel {
            x
        } else {
            panel
        };
    }

    /// Presents the wrapped frame surface: the pending frame goes on deck
    /// and the writable buffer is cleared.
    pub fn present(&mut self)
        requires
            old(self).wf(),
            old(self).screen_spec().frame_count() < u64::MAX,
        ensures
            final(self).wf(),
            final(self).offset_spec() == old(self).offset_spec(),
            final(self).content_width() == old(self).content_width(),
            final(self).wrap_spec() == old(self).wrap_spec(),
            final(self).screen_spec().front() == old(self).screen_spec().back(),
            final(self).screen_spec().back() == crate::surface::blank::<C>(
                old(self).screen_spec().area(),
            ),
            final(self).screen_spec().width_spec() == old(self).screen_spec().width_spec(),
            final(self).screen_spec().height_spec() == old(self).screen_spec().height_spec(),
            final(self).screen_spec().frame_count() == old(self).screen_spec().frame_count() + 1,
            final(self).screen_spec().presented() == old(self).screen_spec().presented().push(
                old(self).screen_spec().back(),
            ),
    {
        self.screen.present();
    }

    /// Read access to the wrapped frame surface.
    pub fn screen(&self) -> (s: &FrameSurface<C>)
        ensures
            s == self.screen_spec(),
    {
        &self.screen
    }

    /// The current offset.
    pub fn offset(&self) -> (x: i64)
        ensures
            x == self.offset_spec(),
    {
        self.offset_x
    }

    /// The current content width.
    pub fn width(&self) -> (w: u32)
        ensures
            w == self.content_width(),
    {
        self.max_x
    }

    /// The current wrap mode.
    pub fn wrap(&self) -> (w: bool)
        ensures
            w == self.wrap_spec(),
    {
        self.wrap
    }
}

} // verus!
