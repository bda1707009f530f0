//! The image pipeline: resize a frame to a target resolution, then map each
//! pixel's luminance to a glyph of the configured character table.
use vstd::prelude::*;
use vstd::string::StringExecFns;
use fast_image_resize as fir;

use crate::error::Error;
use crate::frames::Frame;
use crate::maps::CharMap;

verus! {

/// The target size of the pipeline's output.
pub enum Resolution {
    /// A fixed (width, height) pair.
    Fixed(u32, u32),
    /// A divisor applied to the source frame's native size, keeping its
    /// aspect ratio.
    Divisor(u32),
}

impl Resolution {
    /// A divisor of zero would make the derived size undefined.
    pub open spec fn wf(self) -> bool {
        self matches Resolution::Divisor(d) ==> d > 0
    }

    /// The target size this resolution yields against a native size.
    pub open spec fn spec_calc(self, w: nat, h: nat) -> (nat, nat) {
        match self {
            Resolution::Fixed(fw, fh) => (fw as nat, fh as nat),
            Resolution::Divisor(d) => (w / (d as nat), h / (d as nat)),
        }
    }

    /// Computes the target size for a given source frame.
    pub fn calc(&self, img: &Frame) -> (r: (u32, u32))
        requires
            self.wf(),
        ensures
            (r.0 as nat, r.1 as nat) == self.spec_calc(img@.width, img@.height),
    {
        match self {
            Resolution::Fixed(w, h) => (*w, *h),
            Resolution::Divisor(d) => (img.width / *d, img.height / *d),
        }
    }
}

/// One resized frame reduced to a single luminance byte per pixel, row-major.
pub struct GrayFrame {
    pub width: u32,
    pub height: u32,
    pub data: Vec<u8>,
}

impl GrayFrame {
    /// One byte per pixel.
    pub open spec fn wf(self) -> bool {
        self.data@.len() == self.width as nat * self.height as nat
    }
}

/// The bytes that fast_image_resize's nearest-neighbor kernel produces when a
/// `w` by `h` RGB buffer is resized to `dw` by `dh`.
pub uninterp spec fn nearest_resized(src: Seq<u8>, w: nat, h: nat, dw: nat, dh: nat) -> Seq<u8>;

/// Relies on fast_image_resize: `Image::from_vec_u8` accepts any `U8x3`
/// buffer of at least `3 * w * h` bytes, and `Resizer::resize` with
/// `ResizeAlg::Nearest` fills the whole `3 * dw * dh`-byte target buffer
/// (leaving it zeroed when either size is empty); the output depends on the
/// arguments alone.
#[verifier::external_body]
fn resize_nearest(data: &Vec<u8>, w: u32, h: u32, dw: u32, dh: u32) -> (r: Vec<u8>)
    requires
        data@.len() == 3 * (w as nat) * (h as nat),
        3 * (dw as nat) * (dh as nat) <= usize::MAX,
    ensures
        r@.len() == 3 * (dw as nat) * (dh as nat),
        r@ == nearest_resized(data@, w as nat, h as nat, dw as nat, dh as nat),
{
    let opts = fir::ResizeOptions::new().resize_alg(fir::ResizeAlg::Nearest);
    let src = match fir::images::Image::from_vec_u8(w, h, data.clone(), fir::PixelType::U8x3) {
        Ok(src) => src,
        Err(_) => return Vec::new(),
    };
    let mut dst = fir::images::Image::new(dw, dh, fir::PixelType::U8x3);
    if fir::Resizer::new().resize(&src, &mut dst, &opts).is_err() {
        return Vec::new();
    }
    dst.into_vec()
}

/// The glyph picked for luminance `lum` out of a table of `len` glyphs:
/// luminance is bucketed into `len` equal-width bins over `[0, 256)`.
pub open spec fn glyph_index(len: nat, lum: nat) -> nat {
    (len * lum) / 256
}

/// For a non-empty glyph table of length `l` and a luminance in `[0, 255]`,
/// the bucketing index stays inside the table; luminance `0` always picks the
/// first glyph, and luminance `255` picks the last one for every table of at
/// most 256 glyphs.
pub proof fn lemma_glyph_index_bounds(l: nat, lum: nat)
    requires
        l >= 1,
        lum <= 255,
    ensures
        glyph_index(l, lum) < l,
        lum == 0 ==> glyph_index(l, lum) == 0,
        lum == 255 && l <= 256 ==> glyph_index(l, lum) == l - 1,
{
    let li = l as int;
    let lumi = lum as int;
    vstd::arithmetic::mul::lemma_mul_inequality(lumi, 255, li);
    assert(li * lumi == lumi * li) by (nonlinear_arith);
    assert(255 * li < 256 * li) by (nonlinear_arith)
        requires
            li >= 1,
    ;
    assert(li * lumi < 256 * li);
    vstd::arithmetic::div_mod::lemma_multiply_divide_lt(li * lumi, 256, li);
    if lum == 255 && l <= 256 {
        assert(255 * (l as int) == (l - 1) * 256 + (256 - l)) by (nonlinear_arith);
        vstd::arithmetic::div_mod::lemma_fundamental_div_mod_converse(
            255 * (l as int),
            256,
            l - 1,
            256 - l,
        );
    }
}

/// The characters produced for row `y` of a gray buffer of row length `w`.
pub open spec fn row_text(cm: Seq<char>, gray: Seq<u8>, w: nat, y: nat) -> Seq<char> {
    Seq::new(w, |x: int| cm[glyph_index(cm.len(), gray[y * w + x] as nat) as int])
}

/// The full text for `h` rows: one glyph per pixel, row-major, with a
/// carriage-return/line-feed pair after every row but the last when `nl`
/// is set.
pub open spec fn ascii_text(cm: Seq<char>, gray: Seq<u8>, w: nat, h: nat, nl: bool) -> Seq<char>
    decreases h,
{
    if h == 0 {
        Seq::empty()
    } else if h == 1 {
        row_text(cm, gray, w, 0)
    } else {
        ascii_text(cm, gray, w, (h - 1) as nat, nl) + (if nl {
            seq!['\r', '\n']
        } else {
            Seq::<char>::empty()
        }) + row_text(cm, gray, w, (h - 1) as nat)
    }
}

/// Law: the text of an `h`-row output holds one glyph per pixel, plus one
/// two-character terminator pair for every row but the last when `nl` is
/// set.
pub proof fn lemma_ascii_text_len(cm: Seq<char>, gray: Seq<u8>, w: nat, h: nat, nl: bool)
    requires
        h >= 1,
    ensures
        ascii_text(cm, gray, w, h, nl).len() == w * h + (if nl {
            2 * (h - 1)
        } else {
            0
        }),
    decreases h,
{
    if h == 1 {
        assert(w * 1 == w) by (nonlinear_arith);
    } else {
        lemma_ascii_text_len(cm, gray, w, (h - 1) as nat, nl);
        assert(w * h == w * (h - 1) + w) by (nonlinear_arith);
    }
}

/// Turns a decoded frame into a fixed-size glyph grid.
pub struct ImagePipeline {
    /// The target resolution for the pipeline.
    pub resolution: Resolution,
    /// The character lookup table used for the conversion.
    pub char_map: Vec<char>,
    /// Whether to terminate every output row but the last.
    pub new_lines: bool,
}

impl ImagePipeline {
    /// The glyph table is non-empty (an empty table is a construction-time
    /// precondition violation) and small enough for the bucketing arithmetic,
    /// and a divisor resolution is nonzero.
    pub open spec fn wf(self) -> bool {
        &&& self.char_map@.len() >= 1
        &&& self.char_map@.len() * 255 <= usize::MAX
        &&& self.resolution.wf()
    }

    pub fn new(resolution: Resolution, char_map: CharMap, new_lines: bool) -> (r: Self)
        requires
            char_map.spec_chars().len() >= 1,
            char_map.spec_chars().len() * 255 <= usize::MAX,
            resolution.wf(),
        ensures
            r.wf(),
            r.resolution == resolution,
            r.char_map@ == char_map.spec_chars(),
            r.new_lines == new_lines,
    {
        Self { resolution, char_map: char_map.chars(), new_lines }
    }

    /// Swaps the active resolution; the next `resize` call uses it.
    pub fn set_resolution(&mut self, resolution: Resolution)
        requires
            old(self).wf(),
            resolution.wf(),
        ensures
            final(self).wf(),
            final(self).resolution == resolution,
            final(self).char_map@ == old(self).char_map@,
            final(self).new_lines == old(self).new_lines,
    {
        self.resolution = resolution;
    }

    /// Resizes a frame to the configured resolution with the
    /// nearest-neighbor strategy. Fails exactly when the target pixel buffer
    /// would not fit in memory; the error is reported, never silently
    /// substituted.
    pub fn resize(&self, img: &Frame) -> (r: Result<Frame, Error>)
        requires
            self.wf(),
            img@.wf(),
        ensures
            ({
                let (dw, dh) = self.resolution.spec_calc(img@.width, img@.height);
                &&& (r is Ok <==> 3 * dw * dh <= usize::MAX)
                &&& (r matches Ok(f) ==> f@ == (crate::frames::FrameView {
                    width: dw,
                    height: dh,
                    data: nearest_resized(img@.data, img@.width, img@.height, dw, dh),
                }) && f@.wf())
                &&& (r matches Err(e) ==> e matches Error::Pipeline(_))
            }),
    {
        let (dst_w, dst_h) = self.resolution.calc(img);
        proof {
            crate::frames::lemma_rgb_len_fits(dst_w as int, dst_h as int);
        }
        let bytes: u128 = 3u128 * (dst_w as u128) * (dst_h as u128);
        if bytes > (usize::MAX as u128) {
            return Err(Error::Pipeline(String::from_str("target pixel buffer does not fit in memory")));
        }
        let data = resize_nearest(&img.data, img.width, img.height, dst_w, dst_h);
        Ok(Frame { width: dst_w, height: dst_h, data })
    }

    /// Maps each luminance byte of `input`, row-major, to a glyph of the
    /// character table via `glyph_index`, with a carriage-return/line-feed
    /// pair after every row but the last when `new_lines` is set.
    pub fn to_ascii(&self, input: &GrayFrame) -> (r: String)
        requires
            self.wf(),
            input.wf(),
        ensures
            r@ == ascii_text(
                self.char_map@,
                input.data@,
                input.width as nat,
                input.height as nat,
                self.new_lines,
            ),
    {
        let w = input.width;
        let h = input.height;
        let mut out = String::new();
        let mut idx: usize = 0;
        let mut y: u32 = 0;
        proof {
            assert(out@ =~= ascii_text(self.char_map@, input.data@, w as nat, 0, self.new_lines));
        }
        while y < h
            invariant
                self.wf(),
                input.wf(),
                w == input.width,
                h == input.height,
                y <= h,
                idx == y as nat * w as nat,
                out@ == ascii_text(self.char_map@, input.data@, w as nat, y as nat, self.new_lines),
            decreases h - y,
        {
            if self.new_lines && y > 0 {
                push_char(&mut out, '\r');
                push_char(&mut out, '\n');
            }
            let ghost row_start = out@;
            let mut x: u32 = 0;
            proof {
                assert(row_start + row_text(self.char_map@, input.data@, w as nat, y as nat).take(0)
                    =~= row_start);
            }
            while x < w
                invariant
                    self.wf(),
                    input.wf(),
                    w == input.width,
                    h == input.height,
                    y < h,
                    x <= w,
                    idx == y as nat * w as nat + x as nat,
                    out@ == row_start + row_text(self.char_map@, input.data@, w as nat, y as nat).take(x as int),
                decreases w - x,
            {
                proof {
                    let yy = y as int;
                    let ww = w as int;
                    let hh = h as int;
                    let xx = x as int;
                    assert((yy + 1) * ww <= hh * ww) by (nonlinear_arith)
                        requires
                            yy + 1 <= hh,
                            ww >= 0,
                    ;
                    assert(yy * ww + xx < (yy + 1) * ww) by (nonlinear_arith)
                        requires
                            xx < ww,
                    ;
                    assert(idx < input.data@.len());
                    assert(input.data.len() == input.data@.len());
                }
                let lum = input.data[idx];
                proof {
                    lemma_glyph_index_bounds(self.char_map@.len(), lum as nat);
                    vstd::arithmetic::mul::lemma_mul_inequality(
                        lum as int,
                        255,
                        self.char_map@.len() as int,
                    );
                    assert(self.char_map@.len() * lum as nat == lum as nat * self.char_map@.len())
                        by (nonlinear_arith);
                }
                let lookup_idx = self.char_map.len() * (lum as usize) / 256;
                push_char(&mut out, self.char_map[lookup_idx]);
                x = x + 1;
                idx = idx + 1;
                proof {
                    assert(out@ =~= row_start + row_text(
                        self.char_map@,
                        input.data@,
                        w as nat,
                        y as nat,
                    ).take(x as int));
                }
            }
            y = y + 1;
            proof {
                let yi = y as int;
                let wi = w as int;
                assert(yi * wi == (yi - 1) * wi + wi) by (nonlinear_arith);
                let cm = self.char_map@;
                let gray = input.data@;
                let full = row_text(cm, gray, w as nat, (y - 1) as nat);
                assert(full.take(w as int) =~= full);
                assert(out@ =~= ascii_text(cm, gray, w as nat, y as nat, self.new_lines));
            }
        }
        out
    }
}

/// Relies on `String::push`: appends exactly one character.
#[verifier::external_body]
fn push_char(s: &mut String, c: char)
    ensures
        final(s)@ == old(s)@.push(c),
{
    s.push(c);
}

} // verus!
