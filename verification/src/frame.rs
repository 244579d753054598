//! The frame data model: a dense 2D buffer of RGB samples, three bytes per
//! pixel, rows stored top to bottom with no padding between them.

use vstd::prelude::*;

verus! {

use vstd::arithmetic::div_mod::lemma_fundamental_div_mod_converse;

/// One captured image: `data` holds `3 * width * height` bytes, the three
/// channel samples of pixel `(x, y)` at offsets `3 * (y * width + x) + c`.
pub struct Frame {
    pub width: usize,
    pub height: usize,
    pub data: Vec<u8>,
}

/// The mathematical model of a frame.
#[verifier::ext_equal]
pub ghost struct FrameView {
    pub width: nat,
    pub height: nat,
    pub data: Seq<u8>,
}

impl View for Frame {
    type V = FrameView;

    open spec fn view(&self) -> FrameView {
        FrameView { width: self.width as nat, height: self.height as nat, data: self.data@ }
    }
}

impl FrameView {
    /// A captured frame has positive dimensions and exactly three bytes per pixel.
    pub open spec fn wf(self) -> bool {
        &&& self.width > 0
        &&& self.height > 0
        &&& self.data.len() == 3 * self.width * self.height
    }

    /// Channel `c` of the pixel at column `x`, row `y`.
    pub open spec fn sample(self, x: int, y: int, c: int) -> u8 {
        self.data[3 * (y * self.width + x) + c]
    }
}

/// The row a flat byte offset falls in, for a frame `w` pixels wide.
pub open spec fn row_of(i: int, w: nat) -> int {
    i / (3 * w as int)
}

/// The column a flat byte offset falls in, for a frame `w` pixels wide.
pub open spec fn col_of(i: int, w: nat) -> int {
    (i % (3 * w as int)) / 3
}

/// The channel a flat byte offset addresses.
pub open spec fn chan_of(i: int) -> int {
    i % 3
}

/// Composing a coordinate triple into a flat offset and decomposing it again
/// round-trips, and the offset stays inside the buffer.
pub proof fn lemma_comp(w: nat, h: nat, x: int, y: int, c: int)
    requires
        0 <= x < w,
        0 <= y < h,
        0 <= c < 3,
    ensures
        0 <= 3 * (y * w + x) + c < 3 * w * h,
        row_of(3 * (y * w + x) + c, w) == y,
        col_of(3 * (y * w + x) + c, w) == x,
        chan_of(3 * (y * w + x) + c) == c,
{
    let wi = w as int;
    let i = 3 * (y * wi + x) + c;
    assert(0 <= i && i + (3 * (h - 1 - y) * wi + 3 * (wi - 1 - x)) + (2 - c) + 1 == 3 * wi * h)
        by (nonlinear_arith)
        requires
            0 <= x < wi,
            0 <= y < h,
            0 <= c < 3,
            i == 3 * (y * wi + x) + c,
    ;
    assert(i == (3 * wi) * y + (3 * x + c) && 0 <= 3 * x + c < 3 * wi) by (nonlinear_arith)
        requires
            0 <= x < wi,
            0 <= c < 3,
            i == 3 * (y * wi + x) + c,
    ;
    lemma_fundamental_div_mod_converse(i, 3 * wi, y, 3 * x + c);
    assert(row_of(i, w) == y);
    assert(i % (3 * wi) == 3 * x + c);
    lemma_fundamental_div_mod_converse(3 * x + c, 3, x, c);
    assert(i == 3 * (wi * y + x) + c) by (nonlinear_arith)
        requires
            i == 3 * (y * wi + x) + c,
    ;
    lemma_fundamental_div_mod_converse(i, 3, wi * y + x, c);
}

/// Every offset inside the buffer decomposes into an in-range coordinate
/// triple that composes back to the same offset.
pub proof fn lemma_decomp(w: nat, h: nat, i: int)
    requires
        w > 0,
        h > 0,
        0 <= i < 3 * w * h,
    ensures
        0 <= row_of(i, w) < h,
        0 <= col_of(i, w) < w,
        0 <= chan_of(i) < 3,
        i == 3 * (row_of(i, w) * w + col_of(i, w)) + chan_of(i),
{
    let wi = w as int;
    let y = i / (3 * wi);
    let r = i % (3 * wi);
    assert(i == (3 * wi) * y + r && 0 <= r < 3 * wi && 0 <= y < h) by (nonlinear_arith)
        requires
            wi > 0,
            h > 0,
            0 <= i < 3 * wi * h,
            y == i / (3 * wi),
            r == i % (3 * wi),
    ;
    let x = r / 3;
    let c = r % 3;
    assert(r == 3 * x + c && 0 <= c < 3 && 0 <= x < wi) by (nonlinear_arith)
        requires
            wi > 0,
            0 <= r < 3 * wi,
            x == r / 3,
            c == r % 3,
    ;
    lemma_comp(w, h, x, y, c);
    assert(3 * (y * wi + x) + c == (3 * wi) * y + (3 * x + c)) by (nonlinear_arith);
    assert(row_of(3 * (y * wi + x) + c, w) == y);
    assert(i == 3 * (wi * y + x) + c) by (nonlinear_arith)
        requires
            i == (3 * wi) * y + 3 * x + c,
    ;
    lemma_fundamental_div_mod_converse(i, 3, wi * y + x, c);
    assert(chan_of(i) == c);
}

impl Frame {
    /// Builds a frame from its dimensions and raw bytes; rejects empty
    /// dimensions and a buffer that is not exactly three bytes per pixel.
    pub fn new(width: usize, height: usize, data: Vec<u8>) -> (r: Option<Frame>)
        ensures
            match r {
                Some(f) => {
                    &&& f@.wf()
                    &&& f@.width == width
                    &&& f@.height == height
                    &&& f@.data == data@
                },
                None => !(width > 0 && height > 0 && data@.len() == 3 * width * height),
            },
    {
        if width == 0 || height == 0 {
            return None;
        }
        let n = data.len();
        let pixels = match width.checked_mul(height) {
            Some(p) => p,
            None => {
                proof {
                    assert(data@.len() < 3 * (width as int) * (height as int))
                        by (nonlinear_arith)
                        requires
                            width * height > usize::MAX,
                            data@.len() == n,
                            n <= usize::MAX,
                            width > 0,
                            height > 0,
                    ;
                }
                return None;
            },
        };
        let bytes = match pixels.checked_mul(3) {
            Some(b) => b,
            None => {
                proof {
                    assert(data@.len() < 3 * (width as int) * (height as int))
                        by (nonlinear_arith)
                        requires
                            width * height * 3 > usize::MAX,
                            width * height <= usize::MAX,
                            data@.len() == n,
                            n <= usize::MAX,
                        ;
                }
                return None;
            },
        };
        if n != bytes {
            proof {
                assert(3 * (width as int) * (height as int) == width * height * 3)
                    by (nonlinear_arith);
            }
            return None;
        }
        proof {
            assert(3 * (width as int) * (height as int) == width * height * 3)
                by (nonlinear_arith);
        }
        Some(Frame { width, height, data })
    }
}

} // verus!
