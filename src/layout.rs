//! The byte layout of an animated WebP container, stated over plain values.
use vstd::prelude::*;
use crate::codec::{u16_le, u24_le, u32_le};

verus! {

/// Largest canvas side, and the bound of every 24-bit field.
pub const MAX_SIDE: u32 = 0x1000000;

pub open spec fn riff_tag() -> Seq<u8> {
    seq![82u8, 73u8, 70u8, 70u8] // "RIFF"
}

pub open spec fn webp_tag() -> Seq<u8> {
    seq![87u8, 69u8, 66u8, 80u8] // "WEBP"
}

pub open spec fn vp8x_tag() -> Seq<u8> {
    seq![86u8, 80u8, 56u8, 88u8] // "VP8X"
}

pub open spec fn anim_tag() -> Seq<u8> {
    seq![65u8, 78u8, 73u8, 77u8] // "ANIM"
}

pub open spec fn anmf_tag() -> Seq<u8> {
    seq![65u8, 78u8, 77u8, 70u8] // "ANMF"
}

/// Tag of a lossless still image.
pub open spec fn vp8l_tag() -> Seq<u8> {
    seq![86u8, 80u8, 56u8, 76u8] // "VP8L"
}

/// Tag of a lossy still image.
pub open spec fn vp8_tag() -> Seq<u8> {
    seq![86u8, 80u8, 56u8, 32u8] // "VP8 "
}

/// The payload starts with one of the two still-image tags.
pub open spec fn has_image_tag(data: Seq<u8>) -> bool {
    data.len() >= 4 && (data.subrange(0, 4) == vp8l_tag() || data.subrange(0, 4) == vp8_tag())
}

/// A canvas size that the container can describe.
pub open spec fn valid_canvas(width: u32, height: u32) -> bool {
    0 < width <= MAX_SIDE && 0 < height <= MAX_SIDE && width * height < 0x1_0000_0000
}

/// One frame of the animation, in canvas pixels and milliseconds.
pub struct AnimFrame {
    pub x: nat,
    pub y: nat,
    pub width: nat,
    pub height: nat,
    pub duration: nat,
    pub payload: Seq<u8>,
}

/// A frame that lies on the canvas and whose fields all fit their encodings.
pub open spec fn frame_fits(f: AnimFrame, canvas_width: nat, canvas_height: nat) -> bool {
    &&& f.x % 2 == 0
    &&& f.y % 2 == 0
    &&& f.width >= 1
    &&& f.height >= 1
    &&& f.x + f.width <= canvas_width
    &&& f.y + f.height <= canvas_height
    &&& f.duration < MAX_SIDE
    &&& f.payload.len() + 16 < 0x1_0000_0000
    &&& has_image_tag(f.payload)
}

/// The 16 bytes that position and time a frame.
pub open spec fn frame_header(f: AnimFrame) -> Seq<u8> {
    u24_le(f.x / 2) + u24_le(f.y / 2) + u24_le((f.width - 1) as nat) + u24_le(
        (f.height - 1) as nat,
    ) + u24_le(f.duration) + seq![0u8]
}

/// The complete ANMF chunk of one frame.
pub open spec fn frame_chunk(f: AnimFrame) -> Seq<u8> {
    anmf_tag() + u32_le(16 + f.payload.len()) + frame_header(f) + f.payload
}

/// The frame chunks of `frames`, one after another.
pub open spec fn frames_bytes(frames: Seq<AnimFrame>) -> Seq<u8>
    decreases frames.len(),
{
    if frames.len() == 0 {
        Seq::empty()
    } else {
        frame_chunk(frames[0]) + frames_bytes(frames.skip(1))
    }
}

/// Appending a frame appends its chunk.
pub proof fn lemma_frames_bytes_push(frames: Seq<AnimFrame>, f: AnimFrame)
    ensures
        frames_bytes(frames.push(f)) == frames_bytes(frames) + frame_chunk(f),
    decreases frames.len(),
{
    let longer = frames.push(f);
    if frames.len() == 0 {
        assert(longer.skip(1) =~= Seq::<AnimFrame>::empty());
        assert(frames_bytes(longer) =~= frames_bytes(frames) + frame_chunk(f));
    } else {
        assert(longer.skip(1) =~= frames.skip(1).push(f));
        lemma_frames_bytes_push(frames.skip(1), f);
        assert(longer[0] == frames[0]);
        assert(frames_bytes(longer) == frame_chunk(frames[0]) + frames_bytes(longer.skip(1)));
        assert(frames_bytes(frames) == frame_chunk(frames[0]) + frames_bytes(frames.skip(1)));
        assert(frames_bytes(longer) =~= frames_bytes(frames) + frame_chunk(f));
    }
}

/// What the builder holds: the canvas, the global metadata and the frames so far.
pub struct AnimatorView {
    pub width: u32,
    pub height: u32,
    pub background_bgra: [u8; 4],
    pub loop_count: u16,
    pub has_alpha: bool,
    pub icc_profile: Seq<u8>,
    pub exif_metadata: Seq<u8>,
    pub xmp_metadata: Seq<u8>,
    pub frames: Seq<AnimFrame>,
}

impl AnimatorView {
    /// The canvas is valid and every frame lies on it.
    pub open spec fn wf(self) -> bool {
        &&& valid_canvas(self.width, self.height)
        &&& forall|i: int|
            0 <= i < self.frames.len() ==> #[trigger] frame_fits(
                self.frames[i],
                self.width as nat,
                self.height as nat,
            )
    }

    pub open spec fn with_frame(self, f: AnimFrame) -> AnimatorView {
        AnimatorView { frames: self.frames.push(f), ..self }
    }

    /// The capability flags byte of the extended header.
    pub open spec fn flags(self) -> u8 {
        ((if self.icc_profile.len() > 0 { 0x20int } else { 0 }) + (if self.has_alpha {
            0x10int
        } else {
            0
        }) + (if self.exif_metadata.len() > 0 { 0x8int } else { 0 }) + (
        if self.xmp_metadata.len() > 0 {
            0x4int
        } else {
            0
        }) + 0x2) as u8
    }

    /// The outer size field: all that follows it, truncated to 32 bits.
    pub open spec fn riff_size(self) -> nat {
        ((36 + frames_bytes(self.frames).len() + self.icc_profile.len() + self.exif_metadata.len()
            + self.xmp_metadata.len()) % 0x1_0000_0000) as nat
    }

    /// The 12-byte outer header.
    pub open spec fn riff_header(self) -> Seq<u8> {
        riff_tag() + u32_le(self.riff_size()) + webp_tag()
    }

    /// The 18-byte extended-header chunk.
    pub open spec fn vp8x_chunk(self) -> Seq<u8> {
        vp8x_tag() + u32_le(10) + seq![self.flags(), 0u8, 0u8, 0u8] + u24_le(
            (self.width - 1) as nat,
        ) + u24_le((self.height - 1) as nat)
    }

    /// The 14-byte animation-parameters chunk.
    pub open spec fn anim_chunk(self) -> Seq<u8> {
        anim_tag() + u32_le(6) + self.background_bgra@ + u16_le(self.loop_count as nat)
    }

    /// Where the first frame chunk starts in the container.
    pub open spec fn frames_offset(self) -> nat {
        12 + 18 + self.icc_profile.len() + 14
    }

    /// The whole container, in emission order.
    pub open spec fn container(self) -> Seq<u8> {
        self.riff_header() + self.vp8x_chunk() + self.icc_profile + self.anim_chunk()
            + frames_bytes(self.frames) + self.exif_metadata + self.xmp_metadata
    }
}

/// A non-empty ICC profile sets the ICC bit of the flags byte, and its bytes
/// stand right after the extended header, before the animation parameters.
pub proof fn lemma_icc_placement(v: AnimatorView)
    requires
        v.icc_profile.len() > 0,
    ensures
        v.flags() & 0x20 == 0x20,
        v.container()[20] == v.flags(),
        v.container().subrange(30, 30 + v.icc_profile.len() as int) == v.icc_profile,
        v.container().subrange(
            30 + v.icc_profile.len() as int,
            34 + v.icc_profile.len() as int,
        ) == anim_tag(),
{
    let a: u8 = if v.has_alpha { 0x10 } else { 0 };
    let b: u8 = if v.exif_metadata.len() > 0 { 0x8 } else { 0 };
    let c: u8 = if v.xmp_metadata.len() > 0 { 0x4 } else { 0 };
    let fl = v.flags();
    assert(fl == 0x22 + a + b + c);
    assert(fl & 0x20 == 0x20) by (bit_vector)
        requires
            fl == 0x22 + a + b + c,
            a == 0 || a == 0x10,
            b == 0 || b == 0x8,
            c == 0 || c == 0x4,
    ;
    let k = v.container();
    let n = v.icc_profile.len() as int;
    assert(v.riff_header().len() == 12);
    assert(v.vp8x_chunk().len() == 18);
    assert(v.vp8x_chunk()[8] == fl);
    assert(k.subrange(30, 30 + n) =~= v.icc_profile);
    assert(k.subrange(30 + n, 34 + n) =~= anim_tag());
}

} // verus!
