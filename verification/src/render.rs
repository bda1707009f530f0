//! The playback scheduler: paces frame production against elapsed wall-clock
//! time, skips frames to catch up, loops at end of stream, and renders each
//! pulled frame through the image pipeline.
use vstd::prelude::*;

use crate::error::Error;
use crate::frames::Frame;
use crate::frames::FrameIterator;
use crate::frames::FrameView;
use crate::frames::SourceView;
use crate::pipeline::GrayFrame;
use crate::pipeline::ImagePipeline;
use crate::pipeline::ascii_text;
use crate::pipeline::nearest_resized;

verus! {

/// One tick's output: mapped text plus parallel per-glyph RGB color bytes.
pub struct RenderFrame {
    pub text: String,
    pub colors: Vec<u8>,
}

impl From<(String, Vec<u8>)> for RenderFrame {
    fn from(val: (String, Vec<u8>)) -> (r: Self) {
        RenderFrame { text: val.0, colors: val.1 }
    }
}

impl vstd::std_specs::convert::FromSpecImpl<(String, Vec<u8>)> for RenderFrame {
    open spec fn obeys_from_spec() -> bool {
        true
    }

    open spec fn from_spec(val: (String, Vec<u8>)) -> Self {
        RenderFrame { text: val.0, colors: val.1 }
    }
}

/// What the scheduler hands the presentation callback on each tick.
pub struct CallbackState {
    /// The frame rendered this tick, if one was due and could be processed.
    pub frame: Option<RenderFrame>,
    /// Whether a frame was due this tick at all.
    pub should_render: bool,
}

/// Pacing and playback options for the renderer.
pub struct RenderOptions {
    /// Nanoseconds each frame should stay on screen; zero means render as
    /// fast as possible, with no pacing delay.
    pub frame_duration_ns: u64,
    /// The width modifier for non-square glyph cells (2 for emoji).
    pub w_mod: u32,
    /// Loop back to the first frame after iterating through all frames.
    pub loop_playback: bool,
}

/// The per-pixel luminance bytes the image crate derives from an RGB buffer:
/// one byte out for every three bytes in, row-major order kept.
pub uninterp spec fn luma_of(rgb: Seq<u8>) -> Seq<u8>;

/// Relies on image's `DynamicImage::into_luma8`: it maps each 3-byte RGB
/// pixel of a `w` by `h` buffer to one luminance byte, row-major, and the
/// result depends on the pixel bytes alone.
#[verifier::external_body]
fn rgb_to_luma(data: &Vec<u8>, w: u32, h: u32) -> (r: Vec<u8>)
    requires
        data@.len() == 3 * (w as nat) * (h as nat),
    ensures
        r@.len() == data@.len() / 3,
        r@ == luma_of(data@),
{
    let buf = match image::RgbImage::from_raw(w, h, data.clone()) {
        Some(buf) => buf,
        None => return Vec::new(),
    };
    image::DynamicImage::ImageRgb8(buf).into_luma8().into_raw()
}

/// The color bytes of row `y` of an RGB buffer with `w` pixels per row.
pub open spec fn row_colors(rgb: Seq<u8>, w: nat, y: nat) -> Seq<u8> {
    rgb.subrange((3 * y * w) as int, (3 * y * w + 3 * w) as int)
}

/// The full color buffer for `h` rows: the 3-byte-per-pixel RGB runs,
/// row-major, with a 6-byte zero pad after every row but the last when `nl`
/// is set, keeping byte offsets aligned with the text's line terminators.
pub open spec fn color_bytes(rgb: Seq<u8>, w: nat, h: nat, nl: bool) -> Seq<u8>
    decreases h,
{
    if h == 0 {
        Seq::empty()
    } else if h == 1 {
        row_colors(rgb, w, 0)
    } else {
        color_bytes(rgb, w, (h - 1) as nat, nl) + (if nl {
            seq![0u8, 0u8, 0u8, 0u8, 0u8, 0u8]
        } else {
            Seq::<u8>::empty()
        }) + row_colors(rgb, w, (h - 1) as nat)
    }
}

/// Law: the color buffer of an `h`-row output holds three bytes per pixel,
/// plus one six-byte pad for every row but the last when `nl` is set —
/// together with the text's terminator pairs this keeps byte offsets between
/// the two buffers consistent for a consumer that walks them in lockstep.
pub proof fn lemma_color_bytes_len(rgb: Seq<u8>, w: nat, h: nat, nl: bool)
    requires
        h >= 1,
        rgb.len() >= 3 * w * h,
    ensures
        color_bytes(rgb, w, h, nl).len() == 3 * w * h + (if nl {
            6 * (h - 1)
        } else {
            0
        }),
    decreases h,
{
    if h == 1 {
        assert(3 * w * 1 == 3 * w) by (nonlinear_arith);
        assert(0 + 3 * w <= rgb.len());
    } else {
        assert(3 * w * (h - 1) + 3 * w == 3 * w * h) by (nonlinear_arith);
        assert(3 * w * (h - 1) <= rgb.len());
        lemma_color_bytes_len(rgb, w, (h - 1) as nat, nl);
        assert(3 * (h - 1) * w == 3 * w * (h - 1)) by (nonlinear_arith);
    }
}

/// Builds the color buffer of a resized RGB frame.
fn build_colors(rgb: &Vec<u8>, w: u32, h: u32, nl: bool) -> (r: Vec<u8>)
    requires
        rgb@.len() == 3 * (w as nat) * (h as nat),
    ensures
        r@ == color_bytes(rgb@, w as nat, h as nat, nl),
{
    let mut out: Vec<u8> = Vec::new();
    let mut idx: usize = 0;
    let mut y: u32 = 0;
    proof {
        assert(out@ =~= color_bytes(rgb@, w as nat, 0, nl));
        assert(3 * (0 as nat) * (w as nat) == 0) by (nonlinear_arith);
    }
    while y < h
        invariant
            rgb@.len() == 3 * (w as nat) * (h as nat),
            y <= h,
            idx == 3 * (y as nat) * (w as nat),
            out@ == color_bytes(rgb@, w as nat, y as nat, nl),
        decreases h - y,
    {
        if nl && y > 0 {
            out.push(0);
            out.push(0);
            out.push(0);
            out.push(0);
            out.push(0);
            out.push(0);
        }
        let ghost row_start = out@;
        let ghost base = 3 * (y as nat) * (w as nat);
        let mut j: usize = 0;
        proof {
            let yi = y as int;
            let wi = w as int;
            let hi = h as int;
            assert(3 * yi * wi + 3 * wi <= 3 * wi * hi) by (nonlinear_arith)
                requires
                    yi + 1 <= hi,
                    wi >= 0,
            ;
            assert(3 * (w as int) * (h as int) == 3 * wi * hi);
            assert(rgb.len() == rgb@.len());
            assert(base + 3 * (w as nat) <= rgb@.len());
            assert(row_start + rgb@.subrange(base as int, base as int) =~= row_start);
        }
        while j < 3 * (w as usize)
            invariant
                rgb@.len() == 3 * (w as nat) * (h as nat),
                rgb@.len() <= usize::MAX,
                base == 3 * (y as nat) * (w as nat),
                base + 3 * (w as nat) <= rgb@.len(),
                j <= 3 * (w as nat),
                idx == base + j,
                out@ == row_start + rgb@.subrange(base as int, (base + j) as int),
            decreases 3 * (w as nat) - j,
        {
            proof {
                assert(rgb.len() == rgb@.len());
            }
            out.push(rgb[idx]);
            idx = idx + 1;
            j = j + 1;
            proof {
                assert(out@ =~= row_start + rgb@.subrange(base as int, (base + j) as int));
            }
        }
        y = y + 1;
        proof {
            let yi = y as int;
            let wi = w as int;
            assert(3 * yi * wi == 3 * (yi - 1) * wi + 3 * wi) by (nonlinear_arith);
            assert(out@ =~= color_bytes(rgb@, w as nat, y as nat, nl));
        }
    }
    out
}

/// Whether a frame's resized pixel buffer fits in memory under this
/// pipeline's resolution.
pub open spec fn spec_render_fits(p: ImagePipeline, f: FrameView) -> bool {
    let (dw, dh) = p.resolution.spec_calc(f.width, f.height);
    3 * dw * dh <= usize::MAX
}

/// The text that rendering a frame through a pipeline produces.
pub open spec fn spec_render_text(p: ImagePipeline, f: FrameView) -> Seq<char> {
    let (dw, dh) = p.resolution.spec_calc(f.width, f.height);
    ascii_text(p.char_map@, luma_of(nearest_resized(f.data, f.width, f.height, dw, dh)), dw, dh, p.new_lines)
}

/// The parallel color bytes that rendering a frame produces.
pub open spec fn spec_render_colors(p: ImagePipeline, f: FrameView) -> Seq<u8> {
    let (dw, dh) = p.resolution.spec_calc(f.width, f.height);
    color_bytes(nearest_resized(f.data, f.width, f.height, dw, dh), dw, dh, p.new_lines)
}

/// The scheduling decision for one tick, from the time elapsed since the
/// anchor and the target frame duration: whether a frame is due, how many
/// frames the source should skip to catch up, and how far the time anchor
/// advances. A zero target duration means no pacing: a frame is always due
/// and nothing is skipped.
pub open spec fn spec_pacing(elapsed: nat, target: nat) -> (bool, nat, nat) {
    if target == 0 {
        (true, 0, elapsed)
    } else if elapsed < target {
        (false, 0, 0)
    } else {
        (true, (elapsed / target - 1) as nat, elapsed / target * target)
    }
}

/// Law: skip-behind pacing. When the target duration `d` fits `k >= 1` whole
/// times into the elapsed time, with remainder `r < d`, a frame is due,
/// `k - 1` frames are skipped, and the time anchor advances by exactly
/// `k * d`, so timing error does not accumulate.
pub proof fn lemma_pacing_skip_behind(d: nat, k: nat, r: nat)
    requires
        d > 0,
        k >= 1,
        r < d,
    ensures
        spec_pacing(k * d + r, d) == (true, (k - 1) as nat, k * d),
{
    let e = (k * d + r) as int;
    vstd::arithmetic::div_mod::lemma_fundamental_div_mod_converse(e, d as int, k as int, r as int);
    vstd::arithmetic::mul::lemma_mul_inequality(1, k as int, d as int);
    assert(1 * (d as int) == d as int) by (nonlinear_arith);
    assert((k * d) as int == (k as int) * (d as int)) by (nonlinear_arith);
    assert(e >= d);
    assert(e / (d as int) == k as int);
}

/// The frame source's step on a due tick: an optional catch-up skip, then a
/// pull; when the pull hits exhaustion and looping is on, the source is
/// reset and pulled once more. Yields the new source state, the pulled
/// frame, and whether the loop rewind happened.
pub open spec fn spec_source_step(m: SourceView, skip: nat, do_skip: bool, loop_playback: bool)
    -> (SourceView, Option<FrameView>, bool) {
    let m1 = if do_skip {
        m.after_skip(skip)
    } else {
        m
    };
    if m1.next_result() is None && loop_playback {
        let m2 = m1.after_reset();
        (m2.after_next(), m2.next_result(), true)
    } else {
        (m1.after_next(), m1.next_result(), false)
    }
}

/// A skip count clamped to what a `usize` can hold.
pub open spec fn clamp_to_usize(n: nat) -> nat {
    if n > usize::MAX as nat {
        usize::MAX as nat
    } else {
        n
    }
}

/// Owns a frame source and a pipeline and runs the per-tick scheduling that
/// drives them.
pub struct Renderer {
    /// The image pipeline responsible for processing frames.
    pub pipeline: ImagePipeline,
    /// The frame source playback iterates over.
    media: FrameIterator,
    /// The frame last pulled, re-rendered across a stall of the source.
    last_frame: Option<Frame>,
    /// Pacing and playback options.
    render_options: RenderOptions,
}

impl Renderer {
    /// The pipeline, the source, and any remembered frame are well-formed.
    pub closed spec fn wf(self) -> bool {
        &&& self.pipeline.wf()
        &&& self.media@.wf()
        &&& (self.last_frame matches Some(f) ==> f@.wf())
    }

    /// The frame the renderer remembers from the last successful pull.
    pub closed spec fn spec_last(self) -> Option<FrameView> {
        match self.last_frame {
            Some(f) => Some(f@),
            None => None,
        }
    }

    /// The pipeline the renderer drives frames through.
    pub closed spec fn spec_pipeline(self) -> ImagePipeline {
        self.pipeline
    }

    /// The source the renderer drives.
    pub closed spec fn spec_media(self) -> SourceView {
        self.media@
    }

    /// The configured options.
    pub closed spec fn spec_options(self) -> RenderOptions {
        self.render_options
    }

    pub fn new(pipeline: ImagePipeline, media: FrameIterator, render_options: RenderOptions) -> (r:
        Self)
        requires
            pipeline.wf(),
            media@.wf(),
        ensures
            r.wf(),
            r.spec_pipeline() == pipeline,
            r.spec_media() == media@,
            r.spec_last() is None,
            r.spec_options() == render_options,
    {
        Self { pipeline, media, last_frame: None, render_options }
    }

    /// The nanoseconds one frame should stay on screen; zero means no pacing.
    pub fn target_frame_duration(&self) -> (d: u64)
        ensures
            d == self.spec_options().frame_duration_ns,
    {
        self.render_options.frame_duration_ns
    }

    /// Decides from the elapsed nanoseconds whether a frame is due, how many
    /// frames to skip, and how far the time anchor advances.
    pub fn time_to_send_next_frame(&self, elapsed_ns: u64) -> (r: (bool, u64, u64))
        ensures
            (r.0, r.1 as nat, r.2 as nat) == spec_pacing(
                elapsed_ns as nat,
                self.spec_options().frame_duration_ns as nat,
            ),
    {
        let target = self.render_options.frame_duration_ns;
        if target == 0 {
            (true, 0, elapsed_ns)
        } else if elapsed_ns < target {
            (false, 0, 0)
        } else {
            let q = elapsed_ns / target;
            proof {
                let e = elapsed_ns as int;
                let t = target as int;
                vstd::arithmetic::div_mod::lemma_fundamental_div_mod(e, t);
                vstd::arithmetic::div_mod::lemma_mod_bound(e, t);
                vstd::arithmetic::div_mod::lemma_div_pos_is_pos(e, t);
                if e / t == 0 {
                    assert(t * (e / t) == 0) by (nonlinear_arith)
                        requires
                            e / t == 0,
                    ;
                    assert(false);
                }
                assert((e / t) * t == t * (e / t)) by (nonlinear_arith);
                assert((e / t) * t <= e);
            }
            (true, q - 1, q * target)
        }
    }

    /// Renders one frame: resizes it, derives its luminance bytes, maps them
    /// to glyphs, and builds the parallel color buffer. Fails exactly when
    /// the resized buffer would not fit in memory; the failure is reported,
    /// never substituted.
    pub fn render_frame(&self, frame: &Frame) -> (r: Result<RenderFrame, Error>)
        requires
            self.spec_pipeline().wf(),
            frame@.wf(),
        ensures
            r is Ok <==> spec_render_fits(self.spec_pipeline(), frame@),
            r matches Ok(rf) ==> rf.text@ == spec_render_text(self.spec_pipeline(), frame@)
                && rf.colors@ == spec_render_colors(self.spec_pipeline(), frame@),
            r matches Err(e) ==> e matches Error::Pipeline(_),
    {
        let procimage = match self.pipeline.resize(frame) {
            Ok(p) => p,
            Err(e) => return Err(e),
        };
        let gray_data = rgb_to_luma(&procimage.data, procimage.width, procimage.height);
        proof {
            let dwh = (procimage.width as int) * (procimage.height as int);
            assert(3 * (procimage.width as int) * (procimage.height as int) == 3 * dwh)
                by (nonlinear_arith)
                requires
                    dwh == (procimage.width as int) * (procimage.height as int),
            ;
            vstd::arithmetic::div_mod::lemma_div_multiples_vanish(dwh, 3);
        }
        let gray = GrayFrame { width: procimage.width, height: procimage.height, data: gray_data };
        let text = self.pipeline.to_ascii(&gray);
        let colors = build_colors(&procimage.data, procimage.width, procimage.height, self.pipeline.new_lines);
        Ok(RenderFrame { text, colors })
    }

    /// Renders the given frame and remembers it; with no frame this tick,
    /// re-renders the remembered one so a single stall does not blank the
    /// display. A frame that fails to process is dropped for this tick.
    fn render_current_frame(&mut self, frame: Option<&Frame>) -> (r: Option<RenderFrame>)
        requires
            old(self).wf(),
            frame matches Some(f) ==> f@.wf(),
        ensures
            final(self).wf(),
            final(self).spec_pipeline() == old(self).spec_pipeline(),
            final(self).spec_media() == old(self).spec_media(),
            final(self).render_options == old(self).render_options,
            final(self).spec_last() == (match frame {
                Some(f) => Some(f@),
                None => old(self).spec_last(),
            }),
            ({
                let shown = match frame {
                    Some(f) => Some(f@),
                    None => old(self).spec_last(),
                };
                match shown {
                    None => r is None,
                    Some(fv) => {
                        &&& (r is Some <==> spec_render_fits(old(self).spec_pipeline(), fv))
                        &&& (r matches Some(rf) ==> rf.text@ == spec_render_text(
                            old(self).spec_pipeline(),
                            fv,
                        ) && rf.colors@ == spec_render_colors(old(self).spec_pipeline(), fv))
                    },
                }
            }),
    {
        match frame {
            Some(frame) => {
                self.last_frame = Some(frame.clone());
                match self.render_frame(frame) {
                    Ok(render_frame) => Some(render_frame),
                    Err(_) => None,
                }
            },
            None => {
                match &self.last_frame {
                    Some(last) => match self.render_frame(last) {
                        Ok(render_frame) => Some(render_frame),
                        Err(_) => None,
                    },
                    None => None,
                }
            },
        }
    }

    /// One tick of the playback loop. From the nanoseconds elapsed since the
    /// caller's time anchor, decides whether a frame is due; if so, skips
    /// frames to catch up (when permitted), pulls the next frame, loops back
    /// to the start on exhaustion (when configured, rewinding the anchor by
    /// one duration so the replayed frame shows immediately), and renders.
    /// Returns the callback payload and how far the time anchor advances.
    pub fn tick(&mut self, elapsed_ns: u64, allow_frame_skip: bool) -> (r: (CallbackState, u64))
        requires
            old(self).wf(),
        ensures
            final(self).wf(),
            final(self).spec_pipeline() == old(self).spec_pipeline(),
            final(self).spec_options() == old(self).spec_options(),
            ({
                let target = old(self).spec_options().frame_duration_ns as nat;
                let pac = spec_pacing(elapsed_ns as nat, target);
                let do_skip = allow_frame_skip && pac.1 > 0;
                let step = spec_source_step(
                    old(self).spec_media(),
                    clamp_to_usize(pac.1),
                    do_skip,
                    old(self).spec_options().loop_playback,
                );
                let shown = match step.1 {
                    Some(fv) => Some(fv),
                    None => old(self).spec_last(),
                };
                &&& r.0.should_render == pac.0
                &&& (!pac.0 ==> *final(self) == *old(self) && r.0.frame is None && r.1 == 0)
                &&& (pac.0 ==> {
                    &&& final(self).spec_media() == step.0
                    &&& final(self).spec_last() == shown
                    &&& r.1 == pac.2 - (if step.2 {
                        target
                    } else {
                        0
                    })
                    &&& (shown is None ==> r.0.frame is None)
                    &&& (shown matches Some(fv) ==> {
                        &&& (r.0.frame is Some <==> spec_render_fits(old(self).spec_pipeline(), fv))
                        &&& (r.0.frame matches Some(rf) ==> rf.text@ == spec_render_text(
                            old(self).spec_pipeline(),
                            fv,
                        ) && rf.colors@ == spec_render_colors(old(self).spec_pipeline(), fv))
                    })
                })
            }),
    {
        let target = self.render_options.frame_duration_ns;
        let (due, frames_to_skip, advance0) = self.time_to_send_next_frame(elapsed_ns);
        if !due {
            return (CallbackState { frame: None, should_render: false }, 0);
        }
        let mut advance = advance0;
        if allow_frame_skip && frames_to_skip > 0 {
            let sk: usize = if frames_to_skip > (usize::MAX as u64) {
                usize::MAX
            } else {
                frames_to_skip as usize
            };
            self.media.skip_frames(sk);
        }
        let f = self.media.next();
        let f = if f.is_none() && self.render_options.loop_playback {
            proof {
                let e = elapsed_ns as int;
                let t = target as int;
                if t > 0 {
                    vstd::arithmetic::div_mod::lemma_fundamental_div_mod(e, t);
                    vstd::arithmetic::div_mod::lemma_mod_bound(e, t);
                    vstd::arithmetic::div_mod::lemma_div_pos_is_pos(e, t);
                    if e / t == 0 {
                        assert(t * (e / t) == 0) by (nonlinear_arith)
                            requires
                                e / t == 0,
                        ;
                        assert(false);
                    }
                    vstd::arithmetic::mul::lemma_mul_inequality(1, e / t, t);
                    assert(1 * t == t) by (nonlinear_arith);
                }
            }
            advance = advance - target;
            self.media.reset();
            self.media.next()
        } else {
            f
        };
        let frame = self.render_current_frame(f.as_ref());
        (CallbackState { frame, should_render: true }, advance)
    }
}

} // verus!
