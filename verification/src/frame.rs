//! Captured frames, owned image regions and zero-copy strided views into them.
use vstd::prelude::*;

verus! {

/// Region of interest given by its corners: columns `x1..x2`, rows `y1..y2`.
#[derive(Clone, Copy, Debug, PartialEq, Eq, Structural)]
pub struct RoiRect {
    pub x1: i32,
    pub y1: i32,
    pub x2: i32,
    pub y2: i32,
}

/// A captured BGRA frame, row-major, four bytes per pixel.
#[derive(Clone, Debug)]
pub struct CapturedFrame {
    pub width: i32,
    pub height: i32,
    pub bgra: Vec<u8>,
}

/// An owned, contiguous BGRA image.
#[derive(Clone, Debug)]
pub struct ImageRegion {
    pub width: i32,
    pub height: i32,
    pub bgra: Vec<u8>,
}

/// A rectangular window into a BGRA buffer: `height` rows of `width` pixels,
/// the first at byte `offset`, each `stride` bytes after the previous one.
#[derive(Clone, Copy, Debug)]
pub struct ImageView<'a> {
    pub data: &'a [u8],
    pub width: usize,
    pub height: usize,
    pub stride: usize,
    pub offset: usize,
}

/// Placement of a window on the desktop.
#[derive(Clone, Copy, Debug, PartialEq, Eq, Structural)]
pub struct WindowRect {
    pub left: i32,
    pub top: i32,
    pub width: i32,
    pub height: i32,
}

/// Whether the tracked window has the input focus.
#[derive(Clone, Copy, Debug, PartialEq, Eq, Structural)]
pub enum FocusState {
    Focused,
    Background,
    Unknown,
}

/// Which window-system facility a focus observation came from.
#[derive(Clone, Copy, Debug, PartialEq, Eq, Structural)]
pub enum FocusSource {
    WaylandForeignToplevel,
    EwmhFocusedState,
    EwmhActiveWindow,
    XInputFocus,
    /// No facility could tell.
    NoSource,
}

/// One observation of the tracked window's focus.
#[derive(Clone, Copy, Debug, PartialEq, Eq, Structural)]
pub struct FocusObservation {
    pub state: FocusState,
    pub source: FocusSource,
    pub generation: u64,
}

/// The tracked window at one moment.
#[derive(Clone, Copy, Debug, PartialEq, Eq, Structural)]
pub struct WindowSnapshot {
    pub window: u64,
    pub rect: WindowRect,
    pub foreground: bool,
    pub fullscreen: bool,
}

impl WindowRect {
    /// A window is usable when it has a positive area.
    pub fn is_valid(self) -> (r: bool)
        ensures
            r == (self.width > 0 && self.height > 0),
    {
        self.width > 0 && self.height > 0
    }
}

/// `v` clamped into `lo..=hi` (the integer `clamp`).
pub open spec fn clamp_int(v: int, lo: int, hi: int) -> int {
    if v < lo {
        lo
    } else if v > hi {
        hi
    } else {
        v
    }
}

/// `i32::clamp`, which panics when `lo > hi`.
pub fn clamp_i32(v: i32, lo: i32, hi: i32) -> (r: i32)
    requires
        lo <= hi,
    ensures
        r == clamp_int(v as int, lo as int, hi as int),
{
    if v < lo {
        lo
    } else if v > hi {
        hi
    } else {
        v
    }
}

/// Byte position of the first byte of row `y`.
pub open spec fn row_start(v: ImageView, y: int) -> int {
    v.offset + y * v.stride
}

/// The `width * 4` bytes of row `y`.
pub open spec fn view_row(v: ImageView, y: int) -> Seq<u8> {
    v.data@.subrange(row_start(v, y), row_start(v, y) + v.width * 4)
}

/// Rows `0..n` of the view, one after another.
pub open spec fn view_rows(v: ImageView, n: int) -> Seq<u8>
    decreases n,
{
    if n <= 0 {
        Seq::empty()
    } else {
        view_rows(v, n - 1) + view_row(v, n - 1)
    }
}

/// Every row of the view lies inside its buffer.
pub open spec fn view_in_bounds(v: ImageView) -> bool {
    v.height == 0 || (v.width * 4 <= v.stride && v.offset + (v.height - 1) * v.stride + v.width * 4
        <= v.data@.len())
}

/// The rectangle that a crop keeps: `roi` clamped to a `width` x `height` image,
/// as `(x1, y1, x2, y2)`.
pub open spec fn clamped_roi(width: int, height: int, roi: RoiRect) -> (int, int, int, int) {
    (
        clamp_int(roi.x1 as int, 0, width),
        clamp_int(roi.y1 as int, 0, height),
        clamp_int(roi.x2 as int, 0, width),
        clamp_int(roi.y2 as int, 0, height),
    )
}

/// Index arithmetic on a view of this shape stays within `usize`.
pub open spec fn view_addressable(v: ImageView) -> bool {
    v.offset + v.height * v.stride + v.width * 4 <= usize::MAX
}

proof fn lemma_mul_le(a: int, b: int, c: int)
    requires
        0 <= a <= b,
        0 <= c,
    ensures
        0 <= a * c <= b * c,
{
    assert(0 <= a * c <= b * c) by (nonlinear_arith)
        requires
            0 <= a <= b,
            0 <= c,
    ;
}

proof fn lemma_row_shift(off: int, s: int, y1: int, x1: int, y: int)
    ensures
        (off + y1 * s + x1 * 4) + y * s == off + (y1 + y) * s + x1 * 4,
{
    assert((off + y1 * s + x1 * 4) + y * s == off + (y1 + y) * s + x1 * 4) by (nonlinear_arith);
}

impl ImageRegion {
    /// A view of the whole region.
    pub fn as_view(&self) -> (v: ImageView<'_>)
        requires
            0 <= self.width,
            self.width * 4 <= i32::MAX,
            0 <= self.height,
        ensures
            v.data@ == self.bgra@,
            v.width == self.width,
            v.height == self.height,
            v.stride == self.width * 4,
            v.offset == 0,
    {
        ImageView {
            data: self.bgra.as_slice(),
            width: self.width as usize,
            height: self.height as usize,
            stride: (self.width * 4) as usize,
            offset: 0,
        }
    }
}

impl<'a> ImageView<'a> {
    /// A view of the whole frame.
    pub fn from_frame(frame: &'a CapturedFrame) -> (v: ImageView<'a>)
        requires
            0 <= frame.width,
            frame.width * 4 <= i32::MAX,
            0 <= frame.height,
        ensures
            v.data@ == frame.bgra@,
            v.width == frame.width,
            v.height == frame.height,
            v.stride == frame.width * 4,
            v.offset == 0,
    {
        ImageView {
            data: frame.bgra.as_slice(),
            width: frame.width as usize,
            height: frame.height as usize,
            stride: (frame.width * 4) as usize,
            offset: 0,
        }
    }

    /// The part of the view inside `roi`, after clamping `roi` to the view;
    /// `None` when nothing of it is left.
    pub fn crop(&self, roi: RoiRect) -> (r: Option<ImageView<'a>>)
        requires
            self.width <= i32::MAX,
            self.height <= i32::MAX,
            view_addressable(*self),
        ensures
            ({
                let (x1, y1, x2, y2) = clamped_roi(self.width as int, self.height as int, roi);
                match r {
                    None => x2 <= x1 || y2 <= y1,
                    Some(c) => {
                        &&& x1 < x2 && y1 < y2
                        &&& c.data == self.data
                        &&& c.width == x2 - x1
                        &&& c.height == y2 - y1
                        &&& c.stride == self.stride
                        &&& c.offset == self.offset + y1 * self.stride + x1 * 4
                    },
                }
            }),
            r matches Some(c) ==> view_addressable(c),
            r matches Some(c) ==> (view_in_bounds(*self) ==> view_in_bounds(c)),
    {
        let w = self.width as i32;
        let h = self.height as i32;
        let x1 = clamp_i32(roi.x1, 0, w) as usize;
        let y1 = clamp_i32(roi.y1, 0, h) as usize;
        let x2 = clamp_i32(roi.x2, 0, w) as usize;
        let y2 = clamp_i32(roi.y2, 0, h) as usize;
        if x2 <= x1 || y2 <= y1 {
            return None;
        }
        let width = x2 - x1;
        let height = y2 - y1;
        proof {
            lemma_mul_le(y1 as int, self.height as int, self.stride as int);
            lemma_mul_le(height as int, self.height as int, self.stride as int);
            lemma_mul_le((y2 - 1) as int, (self.height - 1) as int, self.stride as int);
            lemma_mul_le(y2 as int, self.height as int, self.stride as int);
            lemma_row_shift(self.offset as int, self.stride as int, y1 as int, x1 as int, (height - 1) as int);
            lemma_row_shift(self.offset as int, self.stride as int, y1 as int, x1 as int, height as int);
        }
        let offset = self.offset + (y1 * self.stride) + (x1 * 4);
        Some(ImageView { data: self.data, width, height, stride: self.stride, offset })
    }

    /// The bytes of row `y`.
    pub fn row(&self, y: usize) -> (r: &'a [u8])
        requires
            view_in_bounds(*self),
            y < self.height,
        ensures
            r@ == view_row(*self, y as int),
    {
        let len = self.data.len();
        proof {
            lemma_mul_le(y as int, (self.height - 1) as int, self.stride as int);
        }
        let start = self.offset + (y * self.stride);
        let end = start + (self.width * 4);
        &self.data[start..end]
    }

    /// Copies the strided view into a contiguous region.
    pub fn to_image_region(&self) -> (r: ImageRegion)
        requires
            view_in_bounds(*self),
            self.width * self.height * 4 <= usize::MAX,
        ensures
            r.bgra@ == view_rows(*self, self.height as int),
            r.width == self.width as i32,
            r.height == self.height as i32,
    {
        let mut bgra: Vec<u8> = Vec::with_capacity(self.width * self.height * 4);
        let mut y: usize = 0;
        while y < self.height
            invariant
                view_in_bounds(*self),
                y <= self.height,
                bgra@ == view_rows(*self, y as int),
            decreases self.height - y,
        {
            let row = self.row(y);
            let ghost before = bgra@;
            bgra.extend_from_slice(row);
            assert(bgra@ =~= before + row@);
            y = y + 1;
        }
        ImageRegion { width: self.width as i32, height: self.height as i32, bgra }
    }
}

/// Row `y` of a crop is the matching slice of row `y1 + y` of the view it was cut from.
pub proof fn lemma_crop_row(v: ImageView, c: ImageView, x1: int, y1: int, y: int)
    requires
        view_in_bounds(v),
        c.data == v.data,
        c.stride == v.stride,
        0 <= x1,
        0 <= y1,
        x1 + c.width <= v.width,
        y1 + c.height <= v.height,
        c.offset == v.offset + y1 * v.stride + x1 * 4,
        0 <= y < c.height,
    ensures
        view_row(c, y) == view_row(v, y1 + y).subrange(4 * x1, 4 * (x1 + c.width)),
{
    lemma_row_shift(v.offset as int, v.stride as int, y1, x1, y);
    lemma_mul_le(y1 + y, (v.height - 1) as int, v.stride as int);
    assert(view_row(c, y) =~= view_row(v, y1 + y).subrange(4 * x1, 4 * (x1 + c.width)));
}

/// The first `n` rows of a view have `n * width * 4` bytes.
pub proof fn lemma_view_rows_len(v: ImageView, n: int)
    requires
        view_in_bounds(v),
        0 <= n <= v.height,
    ensures
        view_rows(v, n).len() == n * (v.width * 4),
    decreases n,
{
    if n > 0 {
        lemma_view_rows_len(v, n - 1);
        lemma_mul_le(n - 1, (v.height - 1) as int, v.stride as int);
        assert(n * (v.width * 4) == (n - 1) * (v.width * 4) + v.width * 4) by (nonlinear_arith);
        assert(view_row(v, n - 1).len() == v.width * 4);
        assert(view_rows(v, n) == view_rows(v, n - 1) + view_row(v, n - 1));
    } else {
        assert(view_rows(v, n) == Seq::<u8>::empty());
        assert(n * (v.width * 4) == 0) by (nonlinear_arith) requires n == 0;
    }
}

/// Byte `k` of row `y` sits at position `y * width * 4 + k` of the copied rows.
pub proof fn lemma_view_rows_index(v: ImageView, n: int, y: int, k: int)
    requires
        view_in_bounds(v),
        0 <= y < n <= v.height,
        0 <= k < v.width * 4,
    ensures
        view_rows(v, n)[y * (v.width * 4) + k] == view_row(v, y)[k],
    decreases n,
{
    lemma_view_rows_len(v, n - 1);
    lemma_mul_le(n - 1, (v.height - 1) as int, v.stride as int);
    if y < n - 1 {
        lemma_view_rows_index(v, n - 1, y, k);
        assert(y * (v.width * 4) + k < (n - 1) * (v.width * 4)) by (nonlinear_arith)
            requires
                0 <= y < n - 1,
                0 <= k < v.width * 4,
        ;
    } else {
        assert(y == n - 1);
    }
}

/// Copying out a crop yields exactly the pixels of the source inside the kept rectangle:
/// byte `k` of row `y` of the copy is byte `4 * x1 + k` of row `y1 + y` of the source.
pub proof fn lemma_crop_copy_matches_source(v: ImageView, c: ImageView, x1: int, y1: int, y: int, k: int)
    requires
        view_in_bounds(v),
        c.data == v.data,
        c.stride == v.stride,
        0 <= x1,
        0 <= y1,
        x1 + c.width <= v.width,
        y1 + c.height <= v.height,
        c.offset == v.offset + y1 * v.stride + x1 * 4,
        0 <= y < c.height,
        0 <= k < c.width * 4,
    ensures
        view_rows(c, c.height as int)[y * (c.width * 4) + k] == v.data@[row_start(v, y1 + y) + 4 * x1 + k],
{
    lemma_crop_row(v, c, x1, y1, y);
    lemma_row_shift(v.offset as int, v.stride as int, y1, x1, (c.height - 1) as int);
    lemma_mul_le(y1 + c.height - 1, (v.height - 1) as int, v.stride as int);
    assert(view_in_bounds(c));
    lemma_view_rows_index(c, c.height as int, y, k);
    lemma_mul_le(y1 + y, (v.height - 1) as int, v.stride as int);
    assert(view_row(v, y1 + y).subrange(4 * x1, 4 * (x1 + c.width))[k] == view_row(v, y1 + y)[4 * x1 + k]);
}

/// `r` is what cropping the whole of `frame` to `roi` gives: nothing when the clamped
/// rectangle is empty, else the view of exactly that rectangle.
pub open spec fn frame_crop(frame: &CapturedFrame, roi: RoiRect, r: Option<ImageView>) -> bool {
    let (x1, y1, x2, y2) = clamped_roi(frame.width as int, frame.height as int, roi);
    match r {
        None => x2 <= x1 || y2 <= y1,
        Some(c) => {
            &&& x1 < x2 && y1 < y2
            &&& c.data@ == frame.bgra@
            &&& c.width == x2 - x1
            &&& c.height == y2 - y1
            &&& c.stride == frame.width * 4
            &&& c.offset == y1 * (frame.width * 4) + x1 * 4
        },
    }
}

/// Whether a frame of this shape can be viewed and cropped without the index arithmetic overflowing.
pub open spec fn frame_viewable(frame: &CapturedFrame) -> bool {
    &&& 0 <= frame.width
    &&& frame.width * 4 <= i32::MAX
    &&& 0 <= frame.height
    &&& frame.height * frame.width * 4 + frame.width * 4 <= usize::MAX
}

/// The whole frame as one view, cropped to `roi`.
pub fn crop_roi<'a>(frame: &'a CapturedFrame, roi: RoiRect) -> (r: Option<ImageView<'a>>)
    requires
        frame_viewable(frame),
    ensures
        frame_crop(frame, roi, r),
{
    let view = ImageView::from_frame(frame);
    proof {
        assert(view.height * view.stride == frame.height * frame.width * 4) by (nonlinear_arith)
            requires
                view.height == frame.height,
                view.stride == frame.width * 4,
        ;
    }
    view.crop(roi)
}


/// A colour as its blue, green and red bytes.
#[derive(Clone, Copy, Debug, PartialEq, Eq, Structural)]
pub struct Bgr {
    pub b: u8,
    pub g: u8,
    pub r: u8,
}

/// Sum of channel `c` (0 blue, 1 green, 2 red) over the first `n` pixels of a BGRA row.
pub open spec fn row_channel_sum(row: Seq<u8>, c: int, n: int) -> int
    decreases n,
{
    if n <= 0 {
        0
    } else {
        row_channel_sum(row, c, n - 1) + row[4 * (n - 1) + c]
    }
}

/// Sum of channel `c` over all pixels of rows `0..m` of the view.
pub open spec fn channel_sum(v: ImageView, c: int, m: int) -> int
    decreases m,
{
    if m <= 0 {
        0
    } else {
        channel_sum(v, c, m - 1) + row_channel_sum(view_row(v, m - 1), c, v.width as int)
    }
}

/// The mean of channel `c` over the view's pixels, rounded down.
pub open spec fn channel_mean(v: ImageView, c: int) -> int {
    channel_sum(v, c, v.height as int) / (v.width * v.height)
}

proof fn lemma_row_channel_sum_bound(row: Seq<u8>, c: int, n: int)
    requires
        0 <= c < 4,
        0 <= n,
        4 * n <= row.len(),
    ensures
        0 <= row_channel_sum(row, c, n) <= 255 * n,
    decreases n,
{
    if n > 0 {
        lemma_row_channel_sum_bound(row, c, n - 1);
    }
}

proof fn lemma_channel_sum_bound(v: ImageView, c: int, m: int)
    requires
        0 <= c < 4,
        0 <= m <= v.height,
        view_in_bounds(v),
    ensures
        0 <= channel_sum(v, c, m) <= 255 * v.width * m,
    decreases m,
{
    if m > 0 {
        lemma_channel_sum_bound(v, c, m - 1);
        lemma_row_in_bounds(v, m - 1);
        lemma_row_channel_sum_bound(view_row(v, m - 1), c, v.width as int);
        assert(255 * v.width * (m - 1) + 255 * v.width == 255 * v.width * m) by (nonlinear_arith);
    }
}

proof fn lemma_row_in_bounds(v: ImageView, y: int)
    requires
        view_in_bounds(v),
        0 <= y < v.height,
    ensures
        view_row(v, y).len() == v.width * 4,
{
    lemma_mul_le(y, (v.height - 1) as int, v.stride as int);
}

proof fn lemma_mean_fits(sum: int, count: int)
    requires
        0 <= sum <= 255 * count,
        count > 0,
    ensures
        0 <= sum / count <= 255,
{
    assert(sum / count <= 255) by (nonlinear_arith)
        requires
            0 <= sum <= 255 * count,
            count > 0,
    ;
}

impl<'a> ImageView<'a> {
    /// Per-channel mean colour of the view's pixels, rounded down; black for an empty view.
    pub fn region_mean_bgr(&self) -> (r: Bgr)
        requires
            view_in_bounds(*self),
        ensures
            self.width == 0 || self.height == 0 ==> r == (Bgr { b: 0, g: 0, r: 0 }),
            self.width > 0 && self.height > 0 ==> r.b == channel_mean(*self, 0) && r.g
                == channel_mean(*self, 1) && r.r == channel_mean(*self, 2),
    {
        if self.width == 0 || self.height == 0 {
            return Bgr { b: 0, g: 0, r: 0 };
        }
        proof {
            lemma_mul_le((self.height - 1) as int, (self.height - 1) as int, self.stride as int);
            assert(self.width * 4 * self.height <= self.stride * (self.height - 1) + self.width * 4)
                by (nonlinear_arith)
                requires
                    self.width * 4 <= self.stride,
                    self.height >= 1,
            ;
        }
        let w = self.width;
        let h = self.height;
        let len = self.data.len();
        assert(w * 4 * h <= usize::MAX);
        let mut sb: u128 = 0;
        let mut sg: u128 = 0;
        let mut sr: u128 = 0;
        let mut y: usize = 0;
        while y < h
            invariant
                view_in_bounds(*self),
                w == self.width,
                h == self.height,
                w > 0,
                y <= h,
                w * 4 * h <= usize::MAX,
                sb == channel_sum(*self, 0, y as int),
                sg == channel_sum(*self, 1, y as int),
                sr == channel_sum(*self, 2, y as int),
            decreases h - y,
        {
            let row = self.row(y);
            proof {
                lemma_row_in_bounds(*self, y as int);
                lemma_channel_sum_bound(*self, 0, y as int);
                lemma_channel_sum_bound(*self, 1, y as int);
                lemma_channel_sum_bound(*self, 2, y as int);
                lemma_mul_le(y as int, h as int, w as int);
                assert(w * h <= w * 4 * h) by (nonlinear_arith)
                    requires
                        w > 0,
                ;
            }
            let mut x: usize = 0;
            let mut rb: u128 = 0;
            let mut rg: u128 = 0;
            let mut rr: u128 = 0;
            while x < w
                invariant
                    row@ == view_row(*self, y as int),
                    row@.len() == w * 4,
                    x <= w,
                    w * 4 <= usize::MAX,
                    rb == row_channel_sum(row@, 0, x as int),
                    rg == row_channel_sum(row@, 1, x as int),
                    rr == row_channel_sum(row@, 2, x as int),
                    rb <= 255 * x,
                    rg <= 255 * x,
                    rr <= 255 * x,
                decreases w - x,
            {
                rb = rb + row[4 * x] as u128;
                rg = rg + row[4 * x + 1] as u128;
                rr = rr + row[4 * x + 2] as u128;
                x = x + 1;
            }
            proof {
                assert(255 * w * y + 255 * w <= 255 * w * h) by (nonlinear_arith)
                    requires
                        y < h,
                        w > 0,
                ;
                assert(255 * w * h <= 255 * usize::MAX) by (nonlinear_arith)
                    requires
                        w * 4 * h <= usize::MAX,
                        w > 0,
                ;
            }
            sb = sb + rb;
            sg = sg + rg;
            sr = sr + rr;
            y = y + 1;
        }
        proof {
            assert(w * h <= w * 4 * h) by (nonlinear_arith)
                requires
                    w > 0,
            ;
        }
        let count: u128 = (w as u128) * (h as u128);
        proof {
            lemma_channel_sum_bound(*self, 0, h as int);
            lemma_channel_sum_bound(*self, 1, h as int);
            lemma_channel_sum_bound(*self, 2, h as int);
            assert(count > 0) by (nonlinear_arith)
                requires
                    count == w * h,
                    w > 0,
                    h > 0,
            ;
            assert(255 * w * h == 255 * count) by (nonlinear_arith)
                requires
                    count == w * h,
            ;
            lemma_mean_fits(sb as int, count as int);
            lemma_mean_fits(sg as int, count as int);
            lemma_mean_fits(sr as int, count as int);
        }
        Bgr { b: (sb / count) as u8, g: (sg / count) as u8, r: (sr / count) as u8 }
    }
}

proof fn lemma_channel_sum_same(c: ImageView, v: ImageView, ch: int, m: int)
    requires
        c.data@ == v.data@,
        c.width == v.width,
        c.offset == v.offset,
        c.stride == v.stride,
    ensures
        channel_sum(c, ch, m) == channel_sum(v, ch, m),
    decreases m,
{
    if m > 0 {
        lemma_channel_sum_same(c, v, ch, m - 1);
        assert(view_row(c, m - 1) == view_row(v, m - 1));
    }
}

/// Byte range of the crop of `frame` to `roi` lies inside the frame's buffer.
pub open spec fn crop_readable(frame: &CapturedFrame, roi: RoiRect) -> bool {
    let (x1, y1, x2, y2) = clamped_roi(frame.width as int, frame.height as int, roi);
    x2 <= x1 || y2 <= y1 || y1 * (frame.width * 4) + x1 * 4 + (y2 - y1 - 1) * (frame.width * 4) + (x2
        - x1) * 4 <= frame.bgra@.len()
}

/// Mean colour of the part of `frame` inside `roi`; black when that part is empty.
pub fn region_mean_bgr(frame: &CapturedFrame, roi: RoiRect) -> (r: Bgr)
    requires
        frame_viewable(frame),
        crop_readable(frame, roi),
    ensures
        forall|c: ImageView| #![auto] frame_crop(frame, roi, Some(c)) ==> r.b == (if c.width == 0 || c.height == 0 { 0 } else { channel_mean(c, 0) })
            && r.g == (if c.width == 0 || c.height == 0 { 0 } else { channel_mean(c, 1) })
            && r.r == (if c.width == 0 || c.height == 0 { 0 } else { channel_mean(c, 2) }),
        frame_crop(frame, roi, None) ==> r == (Bgr { b: 0, g: 0, r: 0 }),
{
    match crop_roi(frame, roi) {
        None => Bgr { b: 0, g: 0, r: 0 },
        Some(view) => {
            proof {
                assert(view.width * 4 <= view.stride) by (nonlinear_arith)
                    requires
                        view.width <= frame.width,
                        view.stride == frame.width * 4,
                ;
            }
            let r = view.region_mean_bgr();
            proof {
                assert forall|c: ImageView| #![auto] frame_crop(frame, roi, Some(c)) implies r.b == (if c.width == 0 || c.height == 0 { 0 } else { channel_mean(c, 0) })
                    && r.g == (if c.width == 0 || c.height == 0 { 0 } else { channel_mean(c, 1) })
                    && r.r == (if c.width == 0 || c.height == 0 { 0 } else { channel_mean(c, 2) }) by {
                    lemma_channel_sum_same(c, view, 0, c.height as int);
                    lemma_channel_sum_same(c, view, 1, c.height as int);
                    lemma_channel_sum_same(c, view, 2, c.height as int);
                }
            }
            r
        },
    }
}

} // verus!
