//! The frame surface: a double-buffered 2-D pixel buffer. Draw calls merge
//! pixels into the writable buffer (last write wins, out-of-bounds pixels
//! silently dropped); presenting swaps the writable buffer with the on-deck
//! buffer and clears the one that becomes writable next.

use vstd::prelude::*;

verus! {

use crate::config::Config;
use crate::pixel::Pixel;

/// An all-cleared buffer of `n` cells.
pub open spec fn blank<C>(n: int) -> Seq<Option<C>> {
    Seq::new(n as nat, |i: int| None)
}

/// One pixel merged into a row-major buffer of `w` columns and `h` rows:
/// an in-bounds pixel overwrites its cell, an out-of-bounds pixel is
/// dropped. Dropping is a hardware boundary condition, not an error.
pub open spec fn paint_one<C>(g: Seq<Option<C>>, p: Pixel<C>, w: int, h: int) -> Seq<Option<C>> {
    if 0 <= p.x < w && 0 <= p.y < h {
        g.update(p.y * w + p.x, Some(p.color))
    } else {
        g
    }
}

/// A whole pixel list merged in order, so that on a shared cell the last
/// pixel of the list wins.
pub open spec fn paint_all<C>(
    g: Seq<Option<C>>,
    ps: Seq<Pixel<C>>,
    w: int,
    h: int,
) -> Seq<Option<C>>
    decreases ps.len(),
{
    if ps.len() == 0 {
        g
    } else {
        paint_one(paint_all(g, ps.drop_last(), w, h), ps.last(), w, h)
    }
}

/// A surface whose pending frame can be handed to a display in one swap.
pub trait Flushable: Sized {
    /// When a flush may be asked for.
    spec fn flush_req(pre: Self) -> bool;

    /// What one flush does to the surface.
    spec fn flush_rel(pre: Self, post: Self) -> bool;

    /// Atomically exchanges the writable buffer with the on-deck buffer
    /// and clears the buffer that becomes writable next.
    fn flush(&mut self)
        requires
            Self::flush_req(*old(self)),
        ensures
            Self::flush_rel(*old(self), *final(self)),
    ;
}

/// The double-buffered frame surface. `back_buf` is the writable buffer
/// that draw calls merge into; `front_buf` is the on-deck buffer, the frame
/// most recently presented. Both are allocated once, at the panel's size,
/// and never resized.
pub struct FrameSurface<C> {
    width: u32,
    height: u32,
    back_buf: Vec<Option<C>>,
    front_buf: Vec<Option<C>>,
    presents: u64,
    shown: Ghost<Seq<Seq<Option<C>>>>,
}

impl<C: Copy> FrameSurface<C> {
    pub closed spec fn width_spec(self) -> int {
        self.width as int
    }

    pub closed spec fn height_spec(self) -> int {
        self.height as int
    }

    /// Cells per buffer.
    pub open spec fn area(self) -> int {
        self.width_spec() * self.height_spec()
    }

    /// The writable buffer, row-major.
    pub closed spec fn back(self) -> Seq<Option<C>> {
        self.back_buf@
    }

    /// The on-deck buffer: the frame most recently presented.
    pub closed spec fn front(self) -> Seq<Option<C>> {
        self.front_buf@
    }

    /// How many frames have been presented.
    pub closed spec fn frame_count(self) -> int {
        self.presents as int
    }

    /// Every frame ever presented, in order.
    pub closed spec fn presented(self) -> Seq<Seq<Option<C>>> {
        self.shown@
    }

    pub open spec fn wf(self) -> bool {
        &&& 1 <= self.width_spec()
        &&& 1 <= self.height_spec()
        &&& self.area() <= usize::MAX
        &&& self.back().len() == self.area()
        &&& self.front().len() == self.area()
        &&& self.presented().len() == self.frame_count()
    }

    pub fn new(cfg: &Config) -> (s: Self)
        requires
            cfg.wf(),
        ensures
            s.wf(),
            s.width_spec() == cfg.panel_width,
            s.height_spec() == cfg.panel_height,
            s.back() == blank::<C>(s.area()),
            s.front() == blank::<C>(s.area()),
            s.frame_count() == 0,
            s.presented() == Seq::<Seq<Option<C>>>::empty(),
    {
        let area = (cfg.panel_width as usize) * (cfg.panel_height as usize);
        let back_buf = blank_vec::<C>(area);
        let front_buf = blank_vec::<C>(area);
        FrameSurface {
            width: cfg.panel_width,
            height: cfg.panel_height,
            back_buf,
            front_buf,
            presents: 0,
            shown: Ghost(Seq::empty()),
        }
    }

    pub fn width(&self) -> (w: u32)
        ensures
            w == self.width_spec(),
    {
        self.width
    }

    pub fn height(&self) -> (h: u32)
        ensures
            h == self.height_spec(),
    {
        self.height
    }

    pub fn frames(&self) -> (n: u64)
        ensures
            n == self.frame_count(),
    {
        self.presents
    }

    /// Merges the pixels into the writable buffer, in order. Out-of-bounds
    /// pixels are silently ignored; on a shared cell the last pixel wins.
    pub fn write(&mut self, pixels: &Vec<Pixel<C>>)
        requires
            old(self).wf(),
        ensures
            final(self).wf(),
            final(self).back() == paint_all(
                old(self).back(),
                pixels@,
                old(self).width_spec(),
                old(self).height_spec(),
            ),
            final(self).front() == old(self).front(),
            final(self).width_spec() == old(self).width_spec(),
            final(self).height_spec() == old(self).height_spec(),
            final(self).frame_count() == old(self).frame_count(),
            final(self).presented() == old(self).presented(),
    {
        let w = self.width;
        let h = self.height;
        let mut i: usize = 0;
        while i < pixels.len()
            invariant
                i <= pixels@.len(),
                w == self.width,
                h == self.height,
                self.wf(),
                self.back_buf@ == paint_all(old(self).back(), pixels@.take(i as int), w as int, h as int),
                self.width == old(self).width,
                self.height == old(self).height,
                self.front_buf@ == old(self).front(),
                self.presents == old(self).presents,
                self.shown@ == old(self).shown@,
            decreases pixels@.len() - i,
        {
            let p = pixels[i];
            if p.x >= 0 && p.y >= 0 && p.x < w as i64 && p.y < h as i64 {
                let idx = buf_index(p.x as usize, p.y as usize, w as usize, h as usize);
                self.back_buf.set(idx, Some(p.color));
            }
            proof {
                assert(pixels@.take(i + 1).drop_last() =~= pixels@.take(i as int));
                assert(pixels@.take(i + 1).last() == pixels@[i as int]);
            }
            i = i + 1;
        }
        proof {
            assert(pixels@.take(pixels@.len() as int) =~= pixels@);
        }
    }

    /// Swaps the writable buffer with the on-deck buffer and clears the
    /// buffer that becomes writable next: the pending frame goes on deck
    /// and drawing starts over from a clean slate.
    pub fn present(&mut self)
        requires
            old(self).wf(),
            old(self).frame_count() < u64::MAX,
        ensures
            final(self).wf(),
            final(self).front() == old(self).back(),
            final(self).back() == blank::<C>(old(self).area()),
            final(self).width_spec() == old(self).width_spec(),
            final(self).height_spec() == old(self).height_spec(),
            final(self).frame_count() == old(self).frame_count() + 1,
            final(self).presented() == old(self).presented().push(old(self).back()),
    {
        core::mem::swap(&mut self.front_buf, &mut self.back_buf);
        let n = self.back_buf.len();
        let mut i: usize = 0;
        while i < n
            invariant
                i <= n,
                n == self.back_buf@.len(),
                forall|j: int| 0 <= j < i ==> self.back_buf@[j] is None,
                self.width == old(self).width,
                self.height == old(self).height,
                self.front_buf@ == old(self).back(),
                self.presents == old(self).presents,
                self.shown@ == old(self).shown@,
            decreases n - i,
        {
            self.back_buf.set(i, None);
            i = i + 1;
        }
        self.presents = self.presents + 1;
        self.shown = Ghost(self.shown@.push(self.front_buf@));
        proof {
            assert(self.back_buf@ =~= blank::<C>(old(self).area()));
        }
    }

    /// Reads one cell of the on-deck buffer: the frame most recently
    /// presented, as a display would fetch it.
    pub fn front_at(&self, x: u32, y: u32) -> (c: Option<C>)
        requires
            self.wf(),
            x < self.width_spec(),
            y < self.height_spec(),
        ensures
            c == self.front()[y * self.width_spec() + x],
    {
        let idx = buf_index(x as usize, y as usize, self.width as usize, self.height as usize);
        self.front_buf[idx]
    }
}

impl<C: Copy> Flushable for FrameSurface<C> {
    open spec fn flush_req(pre: Self) -> bool {
        pre.wf() && pre.frame_count() < u64::MAX
    }

    open spec fn flush_rel(pre: Self, post: Self) -> bool {
        &&& post.wf()
        &&& post.front() == pre.back()
        &&& post.back() == blank::<C>(pre.area())
        &&& post.width_spec() == pre.width_spec()
        &&& post.height_spec() == pre.height_spec()
        &&& post.frame_count() == pre.frame_count() + 1
        &&& post.presented() == pre.presented().push(pre.back())
    }

    fn flush(&mut self) {
        self.present()
    }
}

/// The row-major cell index of an in-bounds coordinate pair.
fn buf_index(x: usize, y: usize, w: usize, h: usize) -> (i: usize)
    requires
        x < w,
        y < h,
        w * h <= usize::MAX,
    ensures
        i == y * w + x,
        i < w * h,
{
    proof {
        assert(y * w + x < w * h) by (nonlinear_arith)
            requires
                x < w,
                y < h,
        ;
    }
    y * w + x
}

/// A fresh all-cleared buffer.
fn blank_vec<C: Copy>(n: usize) -> (v: Vec<Option<C>>)
    ensures
        v@ == blank::<C>(n as int),
{
    let mut v: Vec<Option<C>> = Vec::new();
    let mut i: usize = 0;
    while i < n
        invariant
            i <= n,
            v@.len() == i,
            forall|j: int| 0 <= j < i ==> v@[j] is None,
        decreases n - i,
    {
        v.push(None);
        i = i + 1;
    }
    proof {
        assert(v@ =~= blank::<C>(n as int));
    }
    v
}

} // verus!
