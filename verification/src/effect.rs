//! Effects: named, independently toggleable, pure per-frame image transforms.
//! Each transform consumes its input frame and produces the output frame that
//! its spec-level counterpart describes, sample for sample.

use vstd::prelude::*;

verus! {

use crate::frame::{Frame, FrameView, chan_of, col_of, lemma_comp, lemma_decomp, row_of};
use vstd::arithmetic::div_mod::lemma_mod_mod;

/// The closed set of transforms this pipeline offers.
#[derive(Clone, Copy, Debug, PartialEq, Eq, Structural)]
pub enum EffectKind {
    /// Per-channel value negation.
    Invert,
    /// Reflection across the vertical axis.
    FlipHorizontal,
    /// Reflection across the horizontal axis.
    FlipVertical,
    /// Uniform magnification by a factor of two in each dimension.
    Scale,
}

/// The inverted frame: every channel sample `v` becomes `255 - v`.
pub open spec fn invert_view(f: FrameView) -> FrameView {
    FrameView {
        width: f.width,
        height: f.height,
        data: Seq::new(f.data.len(), |i: int| (255 - f.data[i]) as u8),
    }
}

/// The horizontally flipped frame: pixel `(x, y)` takes the samples of
/// `(width - 1 - x, y)`.
pub open spec fn flip_h_view(f: FrameView) -> FrameView {
    FrameView {
        width: f.width,
        height: f.height,
        data: Seq::new(
            3 * f.width * f.height,
            |i: int| f.sample(f.width - 1 - col_of(i, f.width), row_of(i, f.width), chan_of(i)),
        ),
    }
}

/// The vertically flipped frame: pixel `(x, y)` takes the samples of
/// `(x, height - 1 - y)`.
pub open spec fn flip_v_view(f: FrameView) -> FrameView {
    FrameView {
        width: f.width,
        height: f.height,
        data: Seq::new(
            3 * f.width * f.height,
            |i: int| f.sample(col_of(i, f.width), f.height - 1 - row_of(i, f.width), chan_of(i)),
        ),
    }
}

/// The doubled frame: output pixel `(x, y)` takes the samples of the source
/// pixel `(x / 2, y / 2)` (nearest-neighbour magnification).
pub open spec fn scale2_view(f: FrameView) -> FrameView {
    FrameView {
        width: 2 * f.width,
        height: 2 * f.height,
        data: Seq::new(
            3 * (2 * f.width) * (2 * f.height),
            |i: int|
                f.sample(
                    col_of(i, 2 * f.width) / 2,
                    row_of(i, 2 * f.width) / 2,
                    chan_of(i),
                ),
        ),
    }
}

/// The doubled frame's buffer must still be addressable.
pub open spec fn scale_fits(f: FrameView) -> bool {
    12 * f.width * f.height <= usize::MAX
}

/// What one transform makes of a frame.
pub open spec fn apply_kind_view(kind: EffectKind, f: FrameView) -> FrameView {
    match kind {
        EffectKind::Invert => invert_view(f),
        EffectKind::FlipHorizontal => flip_h_view(f),
        EffectKind::FlipVertical => flip_v_view(f),
        EffectKind::Scale => scale2_view(f),
    }
}

/// Whether a transform's output buffer fits the machine's address space.
pub open spec fn kind_fits(kind: EffectKind, f: FrameView) -> bool {
    match kind {
        EffectKind::Scale => scale_fits(f),
        _ => true,
    }
}

/// Inverts every channel sample of the frame.
pub fn invert_frame(f: Frame) -> (r: Frame)
    requires
        f@.wf(),
    ensures
        r@ == invert_view(f@),
        r@.wf(),
{
    let n = f.data.len();
    let mut data: Vec<u8> = Vec::with_capacity(n);
    let mut i: usize = 0;
    while i < n
        invariant
            i <= n,
            n == f@.data.len(),
            data@.len() == i,
            forall|j: int| 0 <= j < i ==> data@[j] == (255 - f@.data[j]) as u8,
        decreases n - i,
    {
        let b = f.data[i];
        data.push(255 - b);
        i = i + 1;
    }
    let r = Frame { width: f.width, height: f.height, data };
    proof {
        assert(r@.data =~= invert_view(f@).data);
        assert(r@ =~= invert_view(f@));
    }
    r
}

/// Reflects the frame across its vertical axis.
pub fn flip_horizontal(f: Frame) -> (r: Frame)
    requires
        f@.wf(),
    ensures
        r@ == flip_h_view(f@),
        r@.wf(),
{
    let w = f.width;
    let h = f.height;
    let n = f.data.len();
    proof {
        assert(3 * w <= 3 * w * h && 3 * w * h == 3 * (w as int) * (h as int))
            by (nonlinear_arith)
            requires
                w >= 1,
                h >= 1,
        ;
    }
    let row_bytes = 3 * w;
    let mut data: Vec<u8> = Vec::with_capacity(n);
    let mut i: usize = 0;
    while i < n
        invariant
            i <= n,
            w == f@.width,
            h == f@.height,
            w >= 1,
            h >= 1,
            n == f@.data.len(),
            n == 3 * f@.width * f@.height,
            row_bytes == 3 * w,
            data@.len() == i,
            forall|j: int| 0 <= j < i ==> data@[j] == flip_h_view(f@).data[j],
        decreases n - i,
    {
        let y = i / row_bytes;
        let rem = i % row_bytes;
        let x = rem / 3;
        let c = rem % 3;
        proof {
            lemma_decomp(w as nat, h as nat, i as int);
            assert(y == row_of(i as int, w as nat));
            assert(x == col_of(i as int, w as nat));
            lemma_mod_mod(i as int, 3, w as int);
            assert(c == chan_of(i as int));
            lemma_comp(w as nat, h as nat, w - 1 - x, y as int, c as int);
            assert(0 <= (y as int) * (w as int)) by (nonlinear_arith);
        }
        let src = 3 * (y * w + (w - 1 - x)) + c;
        let b = f.data[src];
        data.push(b);
        proof {
            assert(flip_h_view(f@).data[i as int] == f@.data[src as int]);
        }
        i = i + 1;
    }
    let r = Frame { width: f.width, height: f.height, data };
    proof {
        assert(r@.data =~= flip_h_view(f@).data);
        assert(r@ =~= flip_h_view(f@));
    }
    r
}

/// Reflects the frame across its horizontal axis.
pub fn flip_vertical(f: Frame) -> (r: Frame)
    requires
        f@.wf(),
    ensures
        r@ == flip_v_view(f@),
        r@.wf(),
{
    let w = f.width;
    let h = f.height;
    let n = f.data.len();
    proof {
        assert(3 * w <= 3 * w * h && 3 * w * h == 3 * (w as int) * (h as int))
            by (nonlinear_arith)
            requires
                w >= 1,
                h >= 1,
        ;
    }
    let row_bytes = 3 * w;
    let mut data: Vec<u8> = Vec::with_capacity(n);
    let mut i: usize = 0;
    while i < n
        invariant
            i <= n,
            w == f@.width,
            h == f@.height,
            w >= 1,
            h >= 1,
            n == f@.data.len(),
            n == 3 * f@.width * f@.height,
            row_bytes == 3 * w,
            data@.len() == i,
            forall|j: int| 0 <= j < i ==> data@[j] == flip_v_view(f@).data[j],
        decreases n - i,
    {
        let y = i / row_bytes;
        let rem = i % row_bytes;
        let x = rem / 3;
        let c = rem % 3;
        proof {
            lemma_decomp(w as nat, h as nat, i as int);
            assert(y == row_of(i as int, w as nat));
            assert(x == col_of(i as int, w as nat));
            lemma_mod_mod(i as int, 3, w as int);
            assert(c == chan_of(i as int));
            lemma_comp(w as nat, h as nat, x as int, h - 1 - y, c as int);
            assert(0 <= (h - 1 - y) * (w as int)) by (nonlinear_arith)
                requires
                    0 <= h - 1 - y,
                    w >= 1,
            ;
        }
        let src = 3 * ((h - 1 - y) * w + x) + c;
        let b = f.data[src];
        data.push(b);
        proof {
            assert(flip_v_view(f@).data[i as int] == f@.data[src as int]);
        }
        i = i + 1;
    }
    let r = Frame { width: f.width, height: f.height, data };
    proof {
        assert(r@.data =~= flip_v_view(f@).data);
        assert(r@ =~= flip_v_view(f@));
    }
    r
}

/// Magnifies the frame by two in each dimension, replicating each source
/// pixel into a 2-by-2 block.
pub fn scale_double(f: Frame) -> (r: Frame)
    requires
        f@.wf(),
        scale_fits(f@),
    ensures
        r@ == scale2_view(f@),
        r@.wf(),
        r@.width == 2 * f@.width,
        r@.height == 2 * f@.height,
{
    let w = f.width;
    let h = f.height;
    let n = f.data.len();
    proof {
        assert(2 * w <= 12 * w * h && 2 * h <= 12 * w * h && 4 * (3 * w * h) == 12 * w * h
            && 6 * w <= 12 * w * h && 3 * (2 * (w as int)) * (2 * (h as int)) == 12 * w * h)
            by (nonlinear_arith)
            requires
                w >= 1,
                h >= 1,
        ;
    }
    let w2 = 2 * w;
    let h2 = 2 * h;
    let n2 = 4 * n;
    let row_bytes = 3 * w2;
    let mut data: Vec<u8> = Vec::with_capacity(n2);
    let mut i: usize = 0;
    while i < n2
        invariant
            i <= n2,
            w == f@.width,
            h == f@.height,
            w >= 1,
            h >= 1,
            n == f@.data.len(),
            n == 3 * f@.width * f@.height,
            w2 == 2 * w,
            h2 == 2 * h,
            n2 == 4 * n,
            n2 == 3 * (2 * f@.width) * (2 * f@.height),
            row_bytes == 3 * w2,
            data@.len() == i,
            forall|j: int| 0 <= j < i ==> data@[j] == scale2_view(f@).data[j],
        decreases n2 - i,
    {
        let y2 = i / row_bytes;
        let rem = i % row_bytes;
        let x2 = rem / 3;
        let c = rem % 3;
        let sy = y2 / 2;
        let sx = x2 / 2;
        proof {
            lemma_decomp((w2 as nat), (h2 as nat), i as int);
            assert(y2 == row_of(i as int, w2 as nat));
            assert(x2 == col_of(i as int, w2 as nat));
            lemma_mod_mod(i as int, 3, w2 as int);
            assert(c == chan_of(i as int));
            assert(sy < h && sx < w) by (nonlinear_arith)
                requires
                    y2 < 2 * h,
                    x2 < 2 * w,
                    sy == y2 as int / 2,
                    sx == x2 as int / 2,
            ;
            lemma_comp(w as nat, h as nat, sx as int, sy as int, c as int);
            assert(0 <= (sy as int) * (w as int)) by (nonlinear_arith);
        }
        let src = 3 * (sy * w + sx) + c;
        let b = f.data[src];
        data.push(b);
        proof {
            assert(scale2_view(f@).data[i as int] == f@.data[src as int]);
        }
        i = i + 1;
    }
    let r = Frame { width: w2, height: h2, data };
    proof {
        assert(r@.data =~= scale2_view(f@).data);
        assert(r@ =~= scale2_view(f@));
    }
    r
}

/// A named, independently toggleable transform. The name is the UI label and
/// lookup key; `enabled` starts false and is flipped only through `toggle`.
pub struct Effect {
    pub name: String,
    pub kind: EffectKind,
    pub enabled: bool,
}

/// How one `toggle` call relates an effect's state before and after.
pub open spec fn toggle_rel(before: Effect, after: Effect) -> bool {
    &&& after.enabled == !before.enabled
    &&& after.kind == before.kind
    &&& after.name == before.name
}

impl Effect {
    /// A fresh effect is disabled until the user toggles it on.
    pub fn new(name: String, kind: EffectKind) -> (e: Effect)
        ensures
            e.name == name,
            e.kind == kind,
            !e.enabled,
    {
        Effect { name, kind, enabled: false }
    }

    /// Flips the enabled flag; everything else about the effect is unchanged.
    pub fn toggle(&mut self)
        ensures
            toggle_rel(*old(self), *final(self)),
    {
        self.enabled = !self.enabled;
    }

    /// Runs the transform. Callers invoke this only on enabled effects.
    pub fn apply(&self, f: Frame) -> (r: Frame)
        requires
            self.enabled,
            f@.wf(),
            kind_fits(self.kind, f@),
        ensures
            r@ == apply_kind_view(self.kind, f@),
            r@.wf(),
    {
        match self.kind {
            EffectKind::Invert => invert_frame(f),
            EffectKind::FlipHorizontal => flip_horizontal(f),
            EffectKind::FlipVertical => flip_vertical(f),
            EffectKind::Scale => scale_double(f),
        }
    }
}

/// Toggling an effect twice in succession, with nothing in between, leaves
/// its enabled state (and everything else about it) as it was.
pub proof fn lemma_toggle_round_trip(a: Effect, b: Effect, c: Effect)
    requires
        toggle_rel(a, b),
        toggle_rel(b, c),
    ensures
        c.enabled == a.enabled,
        c.kind == a.kind,
        c.name == a.name,
{
}

/// Inversion, read through any in-range pixel coordinate.
pub proof fn lemma_invert_sample(f: FrameView, x: int, y: int, c: int)
    requires
        f.wf(),
        0 <= x < f.width,
        0 <= y < f.height,
        0 <= c < 3,
    ensures
        invert_view(f).sample(x, y, c) == (255 - f.sample(x, y, c)) as u8,
{
    lemma_comp(f.width, f.height, x, y, c);
}

/// Horizontal flip, read through any in-range pixel coordinate.
pub proof fn lemma_flip_h_sample(f: FrameView, x: int, y: int, c: int)
    requires
        f.wf(),
        0 <= x < f.width,
        0 <= y < f.height,
        0 <= c < 3,
    ensures
        flip_h_view(f).sample(x, y, c) == f.sample(f.width - 1 - x, y, c),
{
    lemma_comp(f.width, f.height, x, y, c);
}

/// Inversion and horizontal flip commute: negating samples and reflecting
/// columns can be done in either order.
pub proof fn lemma_invert_flip_h_commute(f: FrameView)
    requires
        f.wf(),
    ensures
        invert_view(flip_h_view(f)) == flip_h_view(invert_view(f)),
{
    let g = flip_h_view(f);
    let e = invert_view(f);
    assert(g.wf());
    assert(e.wf());
    let a = invert_view(g);
    let b = flip_h_view(e);
    assert forall|i: int| 0 <= i < 3 * f.width * f.height implies a.data[i] == b.data[i] by {
        lemma_decomp(f.width, f.height, i);
        let y = row_of(i, f.width);
        let x = col_of(i, f.width);
        let c = chan_of(i);
        lemma_invert_sample(g, x, y, c);
        lemma_flip_h_sample(f, x, y, c);
        lemma_flip_h_sample(e, x, y, c);
        lemma_invert_sample(f, f.width - 1 - x, y, c);
        assert(a.data[i] == a.sample(x, y, c));
        assert(b.data[i] == b.sample(x, y, c));
    }
    assert(a.data =~= b.data);
    assert(a =~= b);
}

} // verus!
