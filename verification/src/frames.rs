//! Frame sources: a still image, or an in-memory list of decoded frames,
//! behind one iteration / skip / reset contract.
use vstd::prelude::*;
use vstd::string::StringExecFns;

use crate::error::Error;

verus! {

/// One decoded still image: RGB bytes, three per pixel, row-major.
pub struct Frame {
    pub width: u32,
    pub height: u32,
    pub data: Vec<u8>,
}

/// The mathematical value of a `Frame`.
#[verifier::ext_equal]
pub struct FrameView {
    pub width: nat,
    pub height: nat,
    pub data: Seq<u8>,
}

impl FrameView {
    /// The pixel buffer holds exactly three bytes per pixel.
    pub open spec fn wf(self) -> bool {
        self.data.len() == 3 * self.width * self.height
    }
}

impl View for Frame {
    type V = FrameView;

    open spec fn view(&self) -> FrameView {
        FrameView { width: self.width as nat, height: self.height as nat, data: self.data@ }
    }
}

impl Frame {
    /// Builds a frame, rejecting a buffer whose length does not match the
    /// dimensions.
    pub fn new(width: u32, height: u32, data: Vec<u8>) -> (r: Result<Frame, Error>)
        ensures
            r matches Ok(f) ==> f@ == (FrameView {
                width: width as nat,
                height: height as nat,
                data: data@,
            }) && f@.wf(),
            r is Ok <==> data@.len() == 3 * (width as nat) * (height as nat),
    {
        proof {
            lemma_rgb_len_fits(width as int, height as int);
        }
        let expected: u128 = 3u128 * (width as u128) * (height as u128);
        if (data.len() as u128) == expected {
            Ok(Frame { width, height, data })
        } else {
            Err(Error::Application(String::from_str("frame buffer length does not match its dimensions")))
        }
    }
}

impl Clone for Frame {
    fn clone(&self) -> (r: Self)
        ensures
            r@ == self@,
    {
        let data = self.data.clone();
        proof {
            assert(data@ =~= self.data@);
        }
        Frame { width: self.width, height: self.height, data }
    }
}

/// The mathematical value of a `FrameIterator`.
#[verifier::ext_equal]
pub enum SourceView {
    /// A still image: at most one pending frame.
    Still { pending: Option<FrameView> },
    /// An owned list of decoded frames plus a cursor.
    List { frames: Seq<FrameView>, cursor: nat },
}

impl SourceView {
    /// The cursor of a list never passes one past its last frame; the value
    /// `frames.len()` signals exhaustion.
    pub open spec fn wf(self) -> bool {
        match self {
            SourceView::Still { pending } => match pending {
                Some(f) => f.wf(),
                None => true,
            },
            SourceView::List { frames, cursor } => cursor <= frames.len() && forall|i: int|
                0 <= i < frames.len() ==> (#[trigger] frames[i]).wf(),
        }
    }

    /// The frame a pull returns: the pending frame of a still image, or the
    /// frame under the cursor; `None` on exhaustion.
    pub open spec fn next_result(self) -> Option<FrameView> {
        match self {
            SourceView::Still { pending } => pending,
            SourceView::List { frames, cursor } => if cursor < frames.len() {
                Some(frames[cursor as int])
            } else {
                None
            },
        }
    }

    /// The source after one pull: a still image empties; a list advances its
    /// cursor unless it is already exhausted.
    pub open spec fn after_next(self) -> SourceView {
        match self {
            SourceView::Still { pending } => SourceView::Still { pending: None },
            SourceView::List { frames, cursor } => if cursor < frames.len() {
                SourceView::List { frames, cursor: cursor + 1 }
            } else {
                self
            },
        }
    }

    /// The source after a best-effort forward skip: a no-op for a still image
    /// and for an empty list; a non-empty list advances its cursor by `n`
    /// modulo its length, wrapping around.
    pub open spec fn after_skip(self, n: nat) -> SourceView {
        match self {
            SourceView::Still { pending } => self,
            SourceView::List { frames, cursor } => if frames.len() > 0 {
                SourceView::List { frames, cursor: (cursor + n) % frames.len() }
            } else {
                self
            },
        }
    }

    /// The source back at its initial position: a no-op for a still image
    /// (a taken frame is not resurrected); a list returns its cursor to zero.
    pub open spec fn after_reset(self) -> SourceView {
        match self {
            SourceView::Still { pending } => self,
            SourceView::List { frames, cursor } => SourceView::List { frames, cursor: 0 },
        }
    }
}

/// A source of decoded frames: a still image served exactly once, or an
/// owned, pre-decoded frame list with wrap-around skip.
pub enum FrameIterator {
    Image(Option<Frame>),
    AnimatedImage { frames: Vec<Frame>, current_frame: usize },
}

impl View for FrameIterator {
    type V = SourceView;

    open spec fn view(&self) -> SourceView {
        match self {
            FrameIterator::Image(pending) => SourceView::Still {
                pending: match pending {
                    Some(f) => Some(f@),
                    None => None,
                },
            },
            FrameIterator::AnimatedImage { frames, current_frame } => SourceView::List {
                frames: frames@.map_values(|f: Frame| f@),
                cursor: *current_frame as nat,
            },
        }
    }
}

impl FrameIterator {
    /// Returns the next decoded frame, or `None` on exhaustion.
    pub fn next(&mut self) -> (r: Option<Frame>)
        requires
            old(self)@.wf(),
        ensures
            final(self)@ == old(self)@.after_next(),
            final(self)@.wf(),
            r is Some <==> old(self)@.next_result() is Some,
            r matches Some(f) ==> old(self)@.next_result() == Some(f@),
    {
        match self {
            FrameIterator::Image(img) => img.take(),
            FrameIterator::AnimatedImage { frames, current_frame } => {
                if *current_frame == frames.len() {
                    None
                } else {
                    let frame = frames[*current_frame].clone();
                    *current_frame = *current_frame + 1;
                    Some(frame)
                }
            },
        }
    }

    /// Best-effort forward skip by `n` frames without materializing them:
    /// a no-op for a still image; a wrap-around cursor advance for a list.
    pub fn skip_frames(&mut self, n: usize)
        requires
            old(self)@.wf(),
        ensures
            final(self)@ == old(self)@.after_skip(n as nat),
            final(self)@.wf(),
    {
        match self {
            FrameIterator::Image(_) => {},
            FrameIterator::AnimatedImage { frames, current_frame } => {
                let len = frames.len();
                if len > 0 {
                    let c = *current_frame % len;
                    let m = n % len;
                    let next = if m >= len - c {
                        m - (len - c)
                    } else {
                        c + m
                    };
                    proof {
                        lemma_wrapped_add(*current_frame as nat, n as nat, len as nat);
                    }
                    *current_frame = next;
                }
            },
        }
    }

    /// Returns the source to its initial position: a list's cursor goes back
    /// to zero; a still image stays as it is.
    pub fn reset(&mut self)
        requires
            old(self)@.wf(),
        ensures
            final(self)@ == old(self)@.after_reset(),
            final(self)@.wf(),
    {
        match self {
            FrameIterator::Image(_) => {},
            FrameIterator::AnimatedImage { frames, current_frame } => {
                *current_frame = 0;
            },
        }
    }
}

/// Law: a skip of exactly the length of a non-empty frame list leaves its
/// cursor where it was, for any cursor that still points at a frame. (A
/// cursor already at the exhaustion mark wraps to the first frame instead.)
pub proof fn lemma_skip_full_length_is_noop(frames: Seq<FrameView>, cursor: nat)
    requires
        cursor < frames.len(),
    ensures
        (SourceView::List { frames, cursor }).after_skip(frames.len()) == (SourceView::List {
            frames,
            cursor,
        }),
{
    let len = frames.len() as int;
    vstd::arithmetic::div_mod::lemma_mod_add_multiples_vanish(cursor as int, len);
    vstd::arithmetic::div_mod::lemma_small_mod(cursor, frames.len());
}

/// Law: a reset returns a frame list's cursor to zero, and the first pull
/// after it yields the first frame, whatever the cursor was before.
pub proof fn lemma_reset_then_first(frames: Seq<FrameView>, cursor: nat)
    requires
        frames.len() >= 1,
    ensures
        (SourceView::List { frames, cursor }).after_reset() == (SourceView::List {
            frames,
            cursor: 0,
        }),
        (SourceView::List { frames, cursor }).after_reset().next_result() == Some(frames[0]),
{
}

/// Law: pulling from an exhausted still image is idempotent: the source
/// stays exhausted and keeps returning nothing, however often the pull is
/// repeated; the frame is never resurrected.
pub proof fn lemma_exhausted_still_idempotent()
    ensures
        (SourceView::Still { pending: Option::<FrameView>::None }).after_next() == (
        SourceView::Still { pending: Option::<FrameView>::None }),
        (SourceView::Still { pending: Option::<FrameView>::None }).next_result() is None,
{
}

/// Three bytes per pixel of a frame with `u32` dimensions always fit in a
/// `u128` count.
pub(crate) proof fn lemma_rgb_len_fits(w: int, h: int)
    requires
        0 <= w < 0x1_0000_0000,
        0 <= h < 0x1_0000_0000,
    ensures
        3 * w * h <= u128::MAX,
{
    assert(3 * w * h <= 3 * 0xffff_ffff * 0xffff_ffff) by (nonlinear_arith)
        requires
            0 <= w < 0x1_0000_0000,
            0 <= h < 0x1_0000_0000,
    ;
}

/// Which frame-source family a media path's extension selects.
#[derive(Clone, Copy, Debug, PartialEq, Eq, Structural)]
pub enum MediaKind {
    /// A still image, served as a one-frame stream.
    Image,
    /// A video stream pulled from an external decoder; also the fallback for
    /// an unrecognized or missing extension.
    Video,
    /// An animated GIF, decoded whole into a frame list.
    Gif,
    /// An animated WebP, decoded whole into a frame list.
    Webp,
}

/// The frame-source family selected by a lower-case extension: the known
/// image extensions open as a still image, `gif` and `webp` as pre-decoded
/// frame lists, and everything else (the known video extensions included)
/// is tried as a video stream.
pub open spec fn spec_media_kind(ext: Option<Seq<char>>) -> MediaKind {
    match ext {
        Some(e) => if e == "png"@ || e == "bmp"@ || e == "ico"@ || e == "tif"@ || e == "tiff"@
            || e == "jpg"@ || e == "jpeg"@ {
            MediaKind::Image
        } else if e == "gif"@ {
            MediaKind::Gif
        } else if e == "webp"@ {
            MediaKind::Webp
        } else {
            MediaKind::Video
        },
        None => MediaKind::Video,
    }
}

/// Relies on `str`'s `PartialEq`: two slices are equal exactly when their
/// character sequences are.
#[verifier::external_body]
fn str_eq(a: &str, b: &str) -> (r: bool)
    ensures
        r <==> a@ == b@,
{
    a == b
}

/// Picks the frame-source family for a media path's extension.
pub fn media_kind_of_extension(ext: Option<&str>) -> (r: MediaKind)
    ensures
        r == spec_media_kind(
            match ext {
                Some(e) => Some(e@),
                None => None,
            },
        ),
{
    match ext {
        Some(e) => {
            if str_eq(e, "png") || str_eq(e, "bmp") || str_eq(e, "ico") || str_eq(e, "tif")
                || str_eq(e, "tiff") || str_eq(e, "jpg") || str_eq(e, "jpeg") {
                MediaKind::Image
            } else if str_eq(e, "gif") {
                MediaKind::Gif
            } else if str_eq(e, "webp") {
                MediaKind::Webp
            } else {
                MediaKind::Video
            }
        },
        None => MediaKind::Video,
    }
}

/// The average frame rate of a decoded GIF, as a rational number of frames
/// per second: the total delay is in hundredths of a second, and a
/// zero-delay total is floored at one unit to avoid a division by zero, so
/// the rate is `100 * frame_count / max(total_delay_cs, 1)`.
pub fn gif_average_fps_parts(frame_count: usize, total_delay_cs: u64) -> (r: (u64, u64))
    requires
        frame_count <= u64::MAX / 100,
    ensures
        r.0 == 100 * (frame_count as nat),
        r.1 == (if total_delay_cs == 0 {
            1u64
        } else {
            total_delay_cs
        }),
{
    let den = if total_delay_cs == 0 {
        1u64
    } else {
        total_delay_cs
    };
    proof {
        vstd::arithmetic::mul::lemma_mul_inequality(
            frame_count as int,
            (u64::MAX / 100) as int,
            100,
        );
        assert((u64::MAX / 100) as int * 100 <= u64::MAX as int);
    }
    (100 * (frame_count as u64), den)
}

/// The millisecond span a WebP animation's timestamps cover: the saturating
/// difference of last and first, floored at one to avoid a division by zero.
pub open spec fn spec_webp_span_ms(first: int, last: int) -> int {
    let d = last - first;
    let sat = if d > i32::MAX {
        i32::MAX as int
    } else {
        d
    };
    if sat < 1 {
        1
    } else {
        sat
    }
}

/// The average frame rate of one WebP animation loop, as a rational number
/// of frames per second: `1000 * frame_count / span`, where the span is the
/// saturating difference of the last and first frame timestamps in
/// milliseconds, floored at one.
pub fn webp_average_fps_parts(frame_count: usize, first_timestamp: i32, last_timestamp: i32) -> (r:
    (u64, u64))
    requires
        frame_count <= u64::MAX / 1000,
    ensures
        r.0 == 1000 * (frame_count as nat),
        r.1 == spec_webp_span_ms(first_timestamp as int, last_timestamp as int),
{
    let d: i64 = (last_timestamp as i64) - (first_timestamp as i64);
    let sat: i64 = if d > (i32::MAX as i64) {
        i32::MAX as i64
    } else {
        d
    };
    let span: i64 = if sat < 1 {
        1
    } else {
        sat
    };
    proof {
        vstd::arithmetic::mul::lemma_mul_inequality(
            frame_count as int,
            (u64::MAX / 1000) as int,
            1000,
        );
        assert((u64::MAX / 1000) as int * 1000 <= u64::MAX as int);
    }
    (1000 * (frame_count as u64), span as u64)
}

/// Adding `n` to a cursor `c` modulo `len` can be computed without overflow
/// from the reduced summands.
proof fn lemma_wrapped_add(c: nat, n: nat, len: nat)
    requires
        len > 0,
        c <= len,
    ensures
        ({
            let cr = (c as int) % (len as int);
            let m = (n as int) % (len as int);
            let s = if m >= len - cr {
                m - (len - cr)
            } else {
                cr + m
            };
            s == ((c + n) as int) % (len as int)
        }),
{
    let ci = c as int;
    let ni = n as int;
    let li = len as int;
    let cr = ci % li;
    let m = ni % li;
    vstd::arithmetic::div_mod::lemma_mod_bound(ci, li);
    vstd::arithmetic::div_mod::lemma_mod_bound(ni, li);
    vstd::arithmetic::div_mod::lemma_add_mod_noop(ci, ni, li);
    assert((ci + ni) % li == (cr + m) % li);
    if m >= li - cr {
        assert(0 <= cr + m - li < li);
        vstd::arithmetic::div_mod::lemma_mod_sub_multiples_vanish(cr + m, li);
        vstd::arithmetic::div_mod::lemma_small_mod((cr + m - li) as nat, len);
    } else {
        vstd::arithmetic::div_mod::lemma_small_mod((cr + m) as nat, len);
    }
}

} // verus!
