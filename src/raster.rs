use vstd::prelude::*;

use vstd::arithmetic::div_mod::lemma_fundamental_div_mod_converse;

verus! {

/// What a raster is: its size in pixels, the bytes per pixel, and the pixel
/// bytes row after row, each pixel's channels together.
pub struct RasterView {
    pub width: u32,
    pub height: u32,
    pub channels: u8,
    pub pixels: Seq<u8>,
}

/// A decoded image with 8-bit channels, its pixels stored row after row.
pub struct Raster {
    width: u32,
    height: u32,
    channels: u8,
    pixels: Vec<u8>,
}

impl View for Raster {
    type V = RasterView;

    closed spec fn view(&self) -> RasterView {
        RasterView {
            width: self.width,
            height: self.height,
            channels: self.channels,
            pixels: self.pixels@,
        }
    }
}

/// A raster of this size holds exactly this many bytes, and at least one per pixel.
pub open spec fn shape_ok(v: RasterView) -> bool {
    &&& v.channels > 0
    &&& v.pixels.len() == v.width as nat * v.height as nat * v.channels as nat
}

/// Whether the `size` by `size` block with top-left pixel `(left, top)` lies inside `v`.
pub open spec fn block_fits(v: RasterView, left: nat, top: nat, size: nat) -> bool {
    left + size <= v.width && top + size <= v.height
}

/// The position in `v`'s bytes of byte `k` of the `size` by `size` block
/// with top-left pixel `(left, top)`.
pub open spec fn block_source_index(v: RasterView, left: nat, top: nat, size: nat, k: int) -> int {
    let row_len: int = size * v.channels;
    ((top + k / row_len) * v.width + left) * v.channels + k % row_len
}

/// The `size` by `size` block of `v` with top-left pixel `(left, top)`, as a raster.
pub open spec fn block_of(v: RasterView, left: nat, top: nat, size: nat) -> RasterView {
    RasterView {
        width: size as u32,
        height: size as u32,
        channels: v.channels,
        pixels: Seq::new(
            size * size * (v.channels as nat),
            |k: int| v.pixels[block_source_index(v, left, top, size, k)],
        ),
    }
}

proof fn lemma_block_row_bounds(w: nat, h: nat, ch: nat, left: nat, top: nat, size: nat, r: nat)
    requires
        left + size <= w,
        top + size <= h,
        r < size,
        ch > 0,
    ensures
        ((top + r) * w + left) * ch + size * ch <= w * h * ch,
{
    assert((top + r) * w + left + size <= (top + r + 1) * w) by (nonlinear_arith)
        requires left + size <= w;
    assert((top + r + 1) * w <= h * w) by (nonlinear_arith)
        requires top + r + 1 <= h;
    assert(((top + r) * w + left) * ch + size * ch == ((top + r) * w + left + size) * ch) by (nonlinear_arith);
    assert(((top + r) * w + left + size) * ch <= h * w * ch) by (nonlinear_arith)
        requires (top + r) * w + left + size <= h * w;
    assert(h * w * ch == w * h * ch) by (nonlinear_arith);
}

impl Raster {
    #[verifier::type_invariant]
    spec fn inv(self) -> bool {
        shape_ok(self@)
    }

    /// A raster of `width` by `height` pixels of `channels` bytes each, or
    /// `None` where the bytes do not fill exactly that size.
    pub fn new(width: u32, height: u32, channels: u8, pixels: Vec<u8>) -> (r: Option<Raster>)
        ensures
            r is Some <==> channels > 0 && pixels@.len() == width as nat * height as nat * channels as nat,
            r matches Some(img) ==> img@ == (RasterView { width, height, channels, pixels: pixels@ }),
    {
        if channels == 0 {
            return None;
        }
        let n: usize = pixels.len();
        proof {
            assert(width * height <= u64::MAX) by (nonlinear_arith)
                requires width <= u32::MAX, height <= u32::MAX;
        }
        let pixel_count: u64 = width as u64 * height as u64;
        if pixel_count > usize::MAX as u64 {
            proof {
                assert(pixel_count * channels >= pixel_count) by (nonlinear_arith)
                    requires channels > 0, pixel_count >= 0;
            }
            return None;
        }
        if (pixel_count as usize) > usize::MAX / (channels as usize) {
            proof {
                assert(pixel_count * channels > usize::MAX) by (nonlinear_arith)
                    requires pixel_count > (usize::MAX as int) / (channels as int), channels > 0;
            }
            return None;
        }
        proof {
            assert(pixel_count * channels <= usize::MAX) by (nonlinear_arith)
                requires pixel_count <= (usize::MAX as int) / (channels as int), channels > 0;
        }
        if pixels.len() != pixel_count as usize * channels as usize {
            return None;
        }
        Some(Raster { width, height, channels, pixels })
    }

    pub fn width(&self) -> (r: u32)
        ensures
            r == self@.width,
            shape_ok(self@),
    {
        proof {
            use_type_invariant(self);
        }
        self.width
    }

    pub fn height(&self) -> (r: u32)
        ensures
            r == self@.height,
            shape_ok(self@),
    {
        proof {
            use_type_invariant(self);
        }
        self.height
    }

    pub fn channels(&self) -> (r: u8)
        ensures
            r == self@.channels,
            shape_ok(self@),
    {
        proof {
            use_type_invariant(self);
        }
        self.channels
    }

    pub fn pixels(&self) -> (r: &Vec<u8>)
        ensures
            r@ == self@.pixels,
            shape_ok(self@),
    {
        proof {
            use_type_invariant(self);
        }
        &self.pixels
    }

    pub fn into_pixels(self) -> (r: Vec<u8>)
        ensures
            r@ == self@.pixels,
    {
        self.pixels
    }

    /// A copy of the `size` by `size` block whose top-left pixel is `(left, top)`.
    pub fn crop(&self, left: u32, top: u32, size: u32) -> (r: Raster)
        requires
            block_fits(self@, left as nat, top as nat, size as nat),
        ensures
            r@ == block_of(self@, left as nat, top as nat, size as nat),
    {
        proof {
            use_type_invariant(self);
        }
        let ghost v = self@;
        let ch = self.channels as usize;
        let w = self.width as usize;
        let ghost len = v.pixels.len();
        let total: usize = self.pixels.len();
        proof {
            assert(w * self.height * ch == len);
            if size > 0 {
                lemma_block_row_bounds(w as nat, self.height as nat, ch as nat, left as nat, top as nat, size as nat, 0);
                let first = ((top + 0) * w + left) * ch;
                assert(first >= 0) by (nonlinear_arith)
                    requires first == ((top + 0) * w + left) * ch, ch >= 0, w >= 0;
                assert(size * ch <= total);
            } else {
                assert(size * ch == 0) by (nonlinear_arith)
                    requires size == 0;
            }
        }
        let row_len: usize = size as usize * ch;
        let mut out: Vec<u8> = Vec::new();
        let mut r: usize = 0;
        while r < size as usize
            invariant
                v == self@,
                shape_ok(v),
                total == v.pixels.len(),
                ch == v.channels,
                w == v.width,
                size > 0 ==> w >= 1,
                block_fits(v, left as nat, top as nat, size as nat),
                row_len == size * ch,
                r <= size,
                out@.len() == r * row_len,
                forall|k: int|
                    0 <= k < out@.len() ==> #[trigger] out@[k] == v.pixels[block_source_index(
                        v,
                        left as nat,
                        top as nat,
                        size as nat,
                        k,
                    )],
            decreases size - r,
        {
            proof {
                lemma_block_row_bounds(w as nat, v.height as nat, ch as nat, left as nat, top as nat, size as nat, r as nat);
                assert((top + r) * w + left <= ((top + r) * w + left) * ch) by (nonlinear_arith)
                    requires ch >= 1;
                assert(top + r <= (top + r) * w) by (nonlinear_arith)
                    requires w >= 1;
                assert(((top + r) * w + left) * ch + size * ch <= total);
            }
            let row: usize = top as usize + r;
            let row_start: usize = row * w;
            let base: usize = (row_start + left as usize) * ch;
            let mut c: usize = 0;
            while c < row_len
                invariant
                    v == self@,
                    shape_ok(v),
                    ch == v.channels,
                    w == v.width,
                    row_len == size * ch,
                    r < size,
                    base == ((top + r) * w + left) * ch,
                    total == v.pixels.len(),
                    base + row_len <= total,
                    c <= row_len,
                    out@.len() == r * row_len + c,
                    forall|k: int|
                        0 <= k < out@.len() ==> #[trigger] out@[k] == v.pixels[block_source_index(
                            v,
                            left as nat,
                            top as nat,
                            size as nat,
                            k,
                        )],
                decreases row_len - c,
            {
                proof {
                    let k = r * row_len + c;
                    lemma_fundamental_div_mod_converse(k, row_len as int, r as int, c as int);
                }
                out.push(self.pixels[base + c]);
                c = c + 1;
            }
            proof {
                assert(r * row_len + row_len == (r + 1) * row_len) by (nonlinear_arith);
            }
            r = r + 1;
        }
        proof {
            assert(out@.len() == size * size * ch) by (nonlinear_arith)
                requires out@.len() == r * row_len, r == size, row_len == size * ch;
            assert(out@ =~= block_of(v, left as nat, top as nat, size as nat).pixels);
            assert(size as nat * size as nat * ch as nat == out@.len());
        }
        Raster { width: size, height: size, channels: self.channels, pixels: out }
    }
}

} // verus!
