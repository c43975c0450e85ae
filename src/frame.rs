use vstd::prelude::*;
use crate::imaging::{encode_png, has_png_signature, png_encoding, PixelLayout};

verus! {

/// Channel `c` of pixel `(x, y)` in a row-major RGB buffer of width `w`.
pub open spec fn px(p: Seq<u8>, w: int, x: int, y: int, c: int) -> u8 {
    p[3 * (y * w + x) + c]
}

pub open spec fn is_black_at(p: Seq<u8>, w: int, x: int, y: int) -> bool {
    px(p, w, x, y, 0) == 0 && px(p, w, x, y, 1) == 0 && px(p, w, x, y, 2) == 0
}

/// Row `y` holds a pixel that is not pure black.
pub open spec fn row_inked(p: Seq<u8>, w: int, y: int) -> bool {
    exists|x: int| 0 <= x < w && !#[trigger] is_black_at(p, w, x, y)
}

/// Column `x` holds, between rows `top` and `bottom`, a pixel that is not pure black.
pub open spec fn col_inked(p: Seq<u8>, w: int, x: int, top: int, bottom: int) -> bool {
    exists|y: int| top <= y < bottom && !#[trigger] is_black_at(p, w, x, y)
}

proof fn lemma_pixel_index(w: int, h: int, x: int, y: int)
    requires
        0 <= x < w,
        0 <= y < h,
    ensures
        0 <= y * w + x,
        y * w + x < w * h,
        3 * (y * w + x) + 2 < 3 * (w * h),
{
    assert(y * w + x < w * h) by (nonlinear_arith)
        requires
            0 <= x < w,
            0 <= y < h,
    ;
    assert(0 <= y * w) by (nonlinear_arith)
        requires
            0 <= x < w,
            0 <= y < h,
    ;
}

proof fn lemma_index_before(w: int, x: int, y: int, i: int, j: int)
    requires
        0 <= x < w,
        0 <= y,
        0 <= i,
        y < j || (y == j && x < i),
    ensures
        3 * (y * w + x) + 2 < 3 * (j * w + i),
        0 <= y * w + x,
{
    if y < j {
        assert(y * w + x < j * w + i) by (nonlinear_arith)
            requires
                0 <= x < w,
                0 <= y < j,
                0 <= i,
        ;
    }
    assert(0 <= y * w) by (nonlinear_arith)
        requires
            0 <= y,
            0 <= w,
    ;
}

/// A captured frame: `width` by `height` pixels, three bytes (R, G, B) each, row
/// by row.
pub struct RgbFrame {
    pub width: u32,
    pub height: u32,
    pub pixels: Vec<u8>,
}

impl RgbFrame {
    pub open spec fn wf(&self) -> bool {
        self.pixels@.len() == 3 * (self.width * self.height)
    }

    fn black_at(&self, x: u32, y: u32) -> (r: bool)
        requires
            self.wf(),
            x < self.width,
            y < self.height,
        ensures
            r == is_black_at(self.pixels@, self.width as int, x as int, y as int),
    {
        let n = self.pixels.len();
        proof {
            lemma_pixel_index(self.width as int, self.height as int, x as int, y as int);
            assert((y as int) * (self.width as int) <= (y as int) * (self.width as int) + x);
        }
        let base = ((y as usize) * (self.width as usize) + (x as usize)) * 3;
        self.pixels[base] == 0 && self.pixels[base + 1] == 0 && self.pixels[base + 2] == 0
    }

    fn row_has_ink(&self, y: u32) -> (r: bool)
        requires
            self.wf(),
            y < self.height,
        ensures
            r == row_inked(self.pixels@, self.width as int, y as int),
    {
        let mut x: u32 = 0;
        while x < self.width
            invariant
                self.wf(),
                y < self.height,
                x <= self.width,
                forall|k: int| 0 <= k < x ==> #[trigger] is_black_at(self.pixels@, self.width as int, k, y as int),
            decreases self.width - x,
        {
            if !self.black_at(x, y) {
                return true;
            }
            x = x + 1;
        }
        false
    }

    fn col_has_ink(&self, x: u32, top: u32, bottom: u32) -> (r: bool)
        requires
            self.wf(),
            x < self.width,
            bottom <= self.height,
        ensures
            r == col_inked(self.pixels@, self.width as int, x as int, top as int, bottom as int),
    {
        let mut y: u32 = top;
        while y < bottom
            invariant
                self.wf(),
                x < self.width,
                bottom <= self.height,
                top <= y || y == top,
                forall|k: int| top <= k < y ==> #[trigger] is_black_at(self.pixels@, self.width as int, x as int, k),
            decreases bottom - y,
        {
            if !self.black_at(x, y) {
                return true;
            }
            y = y + 1;
        }
        false
    }

    /// The first row, from the top, that holds a pixel other than black.
    fn first_inked_row(&self) -> (r: Option<u32>)
        requires
            self.wf(),
        ensures
            r matches Some(y) ==> y < self.height && row_inked(self.pixels@, self.width as int, y as int),
            r matches Some(y) ==> forall|k: int| 0 <= k < y ==> !#[trigger] row_inked(self.pixels@, self.width as int, k),
            r is None ==> forall|k: int| 0 <= k < self.height ==> !#[trigger] row_inked(self.pixels@, self.width as int, k),
    {
        let mut y: u32 = 0;
        while y < self.height
            invariant
                self.wf(),
                y <= self.height,
                forall|k: int| 0 <= k < y ==> !#[trigger] row_inked(self.pixels@, self.width as int, k),
            decreases self.height - y,
        {
            if self.row_has_ink(y) {
                return Some(y);
            }
            y = y + 1;
        }
        None
    }

    /// The last row, from the top, that holds a pixel other than black.
    fn last_inked_row(&self) -> (r: Option<u32>)
        requires
            self.wf(),
        ensures
            r matches Some(y) ==> y < self.height && row_inked(self.pixels@, self.width as int, y as int),
            r matches Some(y) ==> forall|k: int| y < k < self.height ==> !#[trigger] row_inked(self.pixels@, self.width as int, k),
            r is None ==> forall|k: int| 0 <= k < self.height ==> !#[trigger] row_inked(self.pixels@, self.width as int, k),
    {
        let mut y: u32 = self.height;
        while y > 0
            invariant
                self.wf(),
                y <= self.height,
                forall|k: int| y <= k < self.height ==> !#[trigger] row_inked(self.pixels@, self.width as int, k),
            decreases y,
        {
            if self.row_has_ink(y - 1) {
                return Some(y - 1);
            }
            y = y - 1;
        }
        None
    }

    /// The first column, from the left, that holds between `top` and `bottom`
    /// a pixel other than black.
    fn first_inked_col(&self, top: u32, bottom: u32) -> (r: Option<u32>)
        requires
            self.wf(),
            bottom <= self.height,
        ensures
            r matches Some(x) ==> x < self.width && col_inked(self.pixels@, self.width as int, x as int, top as int, bottom as int),
            r matches Some(x) ==> forall|k: int| 0 <= k < x ==> !#[trigger] col_inked(self.pixels@, self.width as int, k, top as int, bottom as int),
            r is None ==> forall|k: int| 0 <= k < self.width ==> !#[trigger] col_inked(self.pixels@, self.width as int, k, top as int, bottom as int),
    {
        let mut x: u32 = 0;
        while x < self.width
            invariant
                self.wf(),
                bottom <= self.height,
                x <= self.width,
                forall|k: int| 0 <= k < x ==> !#[trigger] col_inked(self.pixels@, self.width as int, k, top as int, bottom as int),
            decreases self.width - x,
        {
            if self.col_has_ink(x, top, bottom) {
                return Some(x);
            }
            x = x + 1;
        }
        None
    }

    /// The last column, from the left, that holds between `top` and `bottom` a
    /// pixel other than black.
    fn last_inked_col(&self, top: u32, bottom: u32) -> (r: Option<u32>)
        requires
            self.wf(),
            bottom <= self.height,
        ensures
            r matches Some(x) ==> x < self.width && col_inked(self.pixels@, self.width as int, x as int, top as int, bottom as int),
            r matches Some(x) ==> forall|k: int| x < k < self.width ==> !#[trigger] col_inked(self.pixels@, self.width as int, k, top as int, bottom as int),
            r is None ==> forall|k: int| 0 <= k < self.width ==> !#[trigger] col_inked(self.pixels@, self.width as int, k, top as int, bottom as int),
    {
        let mut x: u32 = self.width;
        while x > 0
            invariant
                self.wf(),
                bottom <= self.height,
                x <= self.width,
                forall|k: int| x <= k < self.width ==> !#[trigger] col_inked(self.pixels@, self.width as int, k, top as int, bottom as int),
            decreases x,
        {
            if self.col_has_ink(x - 1, top, bottom) {
                return Some(x - 1);
            }
            x = x - 1;
        }
        None
    }
}

/// `(left, top, right, bottom)` are the bounds of what is not black border in
/// the `w` by `h` buffer `p`: the first and one past the last row holding a pixel
/// other than black, then, within those rows, the first and one past the last
/// such column. A frame that is black throughout keeps its whole extent.
pub open spec fn is_border_bounds(p: Seq<u8>, w: int, h: int, left: int, top: int, right: int, bottom: int) -> bool {
    let any_row = exists|y: int| 0 <= y < h && #[trigger] row_inked(p, w, y);
    let any_col = exists|x: int| 0 <= x < w && #[trigger] col_inked(p, w, x, top, bottom);
    &&& any_row ==> top < h && row_inked(p, w, top) && forall|k: int| 0 <= k < top ==> !#[trigger] row_inked(p, w, k)
    &&& !any_row ==> top == 0
    &&& any_row ==> 0 < bottom <= h && row_inked(p, w, bottom - 1) && forall|k: int| bottom <= k < h ==> !#[trigger] row_inked(p, w, k)
    &&& !any_row ==> bottom == h
    &&& any_col ==> left < w && col_inked(p, w, left, top, bottom) && forall|k: int| 0 <= k < left ==> !#[trigger] col_inked(p, w, k, top, bottom)
    &&& !any_col ==> left == 0
    &&& any_col ==> 0 < right <= w && col_inked(p, w, right - 1, top, bottom) && forall|k: int| right <= k < w ==> !#[trigger] col_inked(p, w, k, top, bottom)
    &&& !any_col ==> right == w
}

/// `q`, of `nw` by `nh` pixels, is the part of the `w`-wide buffer `p` whose top
/// left corner is `(left, top)`.
pub open spec fn is_crop(p: Seq<u8>, w: int, q: Seq<u8>, nw: int, nh: int, left: int, top: int) -> bool {
    &&& q.len() == 3 * (nw * nh)
    &&& forall|x: int, y: int, c: int|
        0 <= x < nw && 0 <= y < nh && 0 <= c < 3 ==> #[trigger] px(q, nw, x, y, c) == px(p, w, x + left, y + top, c)
}

impl RgbFrame {
    /// The bounds `(left, top, right, bottom)` of the frame without its black border.
    pub fn black_border_bounds(&self) -> (r: (u32, u32, u32, u32))
        requires
            self.wf(),
        ensures
            r.0 <= r.2 <= self.width,
            r.1 <= r.3 <= self.height,
            is_border_bounds(self.pixels@, self.width as int, self.height as int, r.0 as int, r.1 as int, r.2 as int, r.3 as int),
    {
        let (top, bottom) = match self.first_inked_row() {
            Some(t) => {
                match self.last_inked_row() {
                    Some(b) => (t, b + 1),
                    None => (t, self.height),
                }
            },
            None => (0, self.height),
        };
        proof {
            if top > 0 || bottom < self.height {
                assert(row_inked(self.pixels@, self.width as int, top as int));
            }
        }
        let (left, right) = match self.first_inked_col(top, bottom) {
            Some(l) => {
                match self.last_inked_col(top, bottom) {
                    Some(rr) => (l, rr + 1),
                    None => (l, self.width),
                }
            },
            None => (0, self.width),
        };
        (left, top, right, bottom)
    }

    /// The part of the frame between columns `left` and `right` and rows `top`
    /// and `bottom`.
    pub fn crop(&self, left: u32, top: u32, right: u32, bottom: u32) -> (r: RgbFrame)
        requires
            self.wf(),
            left <= right <= self.width,
            top <= bottom <= self.height,
        ensures
            r.wf(),
            r.width == right - left,
            r.height == bottom - top,
            is_crop(self.pixels@, self.width as int, r.pixels@, r.width as int, r.height as int, left as int, top as int),
    {
        let nw: u32 = right - left;
        let nh: u32 = bottom - top;
        let mut out: Vec<u8> = Vec::new();
        let mut j: u32 = 0;
        while j < nh
            invariant
                self.wf(),
                left <= right <= self.width,
                top <= bottom <= self.height,
                nw == right - left,
                nh == bottom - top,
                j <= nh,
                out@.len() == 3 * (j * nw),
                forall|x: int, y: int, c: int|
                    0 <= x < nw && 0 <= y < j && 0 <= c < 3 ==> #[trigger] px(out@, nw as int, x, y, c)
                        == px(self.pixels@, self.width as int, x + left, y + top, c),
            decreases nh - j,
        {
            let mut i: u32 = 0;
            while i < nw
                invariant
                    self.wf(),
                    left <= right <= self.width,
                    top <= bottom <= self.height,
                    nw == right - left,
                    nh == bottom - top,
                    j < nh,
                    i <= nw,
                    out@.len() == 3 * (j * nw + i),
                    forall|x: int, y: int, c: int|
                        0 <= x < nw && 0 <= y < j && 0 <= c < 3 ==> #[trigger] px(out@, nw as int, x, y, c)
                            == px(self.pixels@, self.width as int, x + left, y + top, c),
                    forall|x: int, c: int|
                        0 <= x < i && 0 <= c < 3 ==> #[trigger] px(out@, nw as int, x, j as int, c)
                            == px(self.pixels@, self.width as int, x + left, j + top, c),
                decreases nw - i,
            {
                let n = self.pixels.len();
                let sx = left + i;
                let sy = top + j;
                proof {
                    lemma_pixel_index(self.width as int, self.height as int, sx as int, sy as int);
                    assert((sy as int) * (self.width as int) <= (sy as int) * (self.width as int) + sx);
                }
                let base = ((sy as usize) * (self.width as usize) + (sx as usize)) * 3;
                let ghost before = out@;
                out.push(self.pixels[base]);
                out.push(self.pixels[base + 1]);
                out.push(self.pixels[base + 2]);
                proof {
                    assert(3 * (j * nw + i) == 3 * ((j as int) * (nw as int) + (i as int)));
                    assert forall|x: int, y: int, c: int|
                        0 <= x < nw && 0 <= y < j && 0 <= c < 3 implies #[trigger] px(out@, nw as int, x, y, c)
                            == px(self.pixels@, self.width as int, x + left, y + top, c) by {
                        lemma_index_before(nw as int, x, y, i as int, j as int);
                        assert(px(out@, nw as int, x, y, c) == px(before, nw as int, x, y, c));
                    }
                    assert forall|x: int, c: int|
                        0 <= x < i + 1 && 0 <= c < 3 implies #[trigger] px(out@, nw as int, x, j as int, c)
                            == px(self.pixels@, self.width as int, x + left, j + top, c) by {
                        if x < i {
                            lemma_index_before(nw as int, x, j as int, i as int, j as int);
                            assert(px(out@, nw as int, x, j as int, c) == px(before, nw as int, x, j as int, c));
                        }
                    }
                }
                i = i + 1;
            }
            proof {
                assert((j as int) * (nw as int) + (nw as int) == ((j + 1) as int) * (nw as int)) by (nonlinear_arith);
            }
            j = j + 1;
        }
        proof {
            assert(j == nh);
            assert((nh as int) * (nw as int) == (nw as int) * (nh as int)) by (nonlinear_arith);
        }
        RgbFrame { width: nw, height: nh, pixels: out }
    }

    /// The frame with its black border taken off.
    pub fn remove_black_borders(&self) -> (r: RgbFrame)
        requires
            self.wf(),
        ensures
            r.wf(),
            exists|left: int, top: int|
                #![trigger is_crop(self.pixels@, self.width as int, r.pixels@, r.width as int, r.height as int, left, top)]
                is_border_bounds(self.pixels@, self.width as int, self.height as int, left, top, left + r.width, top + r.height)
                && is_crop(self.pixels@, self.width as int, r.pixels@, r.width as int, r.height as int, left, top),
    {
        let (left, top, right, bottom) = self.black_border_bounds();
        let r = self.crop(left, top, right, bottom);
        assert(is_crop(self.pixels@, self.width as int, r.pixels@, r.width as int, r.height as int, left as int, top as int));
        r
    }
}

/// The first `n` pixels of the BGRA buffer `bgra`, four bytes each, are those of
/// the RGB buffer `rgb`, three bytes each.
pub open spec fn bgra_converted(rgb: Seq<u8>, bgra: Seq<u8>, n: int) -> bool {
    forall|m: int|
        0 <= m < n ==> {
            &&& #[trigger] rgb[3 * m] == bgra[4 * m + 2]
            &&& rgb[3 * m + 1] == bgra[4 * m + 1]
            &&& rgb[3 * m + 2] == bgra[4 * m]
        }
}

/// The frame held by the BGRA buffer `buffer` of `width` by `height` pixels,
/// four bytes each, the fourth ignored; `None` where a dimension is negative or
/// the buffer is too short.
pub fn construct_image(width: i32, height: i32, buffer: &Vec<u8>) -> (r: Option<RgbFrame>)
    ensures
        r is None <==> (width < 0 || height < 0 || 4 * (width * height) > buffer@.len()),
        r matches Some(f) ==> f.wf() && f.width == width && f.height == height,
        r matches Some(f) ==> bgra_converted(f.pixels@, buffer@, f.width * f.height),
{
    if width < 0 || height < 0 {
        return None;
    }
    let blen: usize = buffer.len();
    let quads: usize = blen / 4;
    let w = width as u32;
    let h = height as u32;
    assert((w as int) * (h as int) <= 0xffff_ffff_ffff_ffff) by (nonlinear_arith)
        requires
            w <= 0xffff_ffff,
            h <= 0xffff_ffff,
    ;
    if (w as u64) * (h as u64) > quads as u64 {
        return None;
    }
    let count: usize = ((w as u64) * (h as u64)) as usize;
    let mut out: Vec<u8> = Vec::new();
    let mut k: usize = 0;
    while k < count
        invariant
            count <= quads,
            quads == buffer@.len() / 4,
            blen == buffer@.len(),
            k <= count,
            out@.len() == 3 * k,
            forall|m: int|
                0 <= m < k ==> {
                    &&& #[trigger] out@[3 * m] == buffer@[4 * m + 2]
                    &&& out@[3 * m + 1] == buffer@[4 * m + 1]
                    &&& out@[3 * m + 2] == buffer@[4 * m]
                },
        decreases count - k,
    {
        let ghost before = out@;
        out.push(buffer[4 * k + 2]);
        out.push(buffer[4 * k + 1]);
        out.push(buffer[4 * k]);
        proof {
            assert forall|m: int| 0 <= m < k + 1 implies {
                &&& #[trigger] out@[3 * m] == buffer@[4 * m + 2]
                &&& out@[3 * m + 1] == buffer@[4 * m + 1]
                &&& out@[3 * m + 2] == buffer@[4 * m]
            } by {
                if m < k {
                    assert(before[3 * m] == buffer@[4 * m + 2]);
                }
            }
        }
        k = k + 1;
    }
    assert(count == (w as int) * (h as int));
    assert(bgra_converted(out@, buffer@, k as int));
    Some(RgbFrame { width: w, height: h, pixels: out })
}

impl RgbFrame {
    /// The frame encoded as PNG; `None` where the encoder fails.
    pub fn to_png(&self) -> (r: Option<Vec<u8>>)
        requires
            self.wf(),
        ensures
            match r {
                Some(v) => png_encoding(self.width, self.height, PixelLayout::Rgb8, self.pixels@) == Some(v@),
                None => png_encoding(self.width, self.height, PixelLayout::Rgb8, self.pixels@) is None,
            },
            r matches Some(v) ==> has_png_signature(v@),
    {
        encode_png(self.width, self.height, PixelLayout::Rgb8, &self.pixels)
    }
}

} // verus!
