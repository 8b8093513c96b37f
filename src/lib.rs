//! Assembles an animated WebP file from a series of still WebP images.
//!
//! Each frame is handed over as an already compressed `VP8 ` or `VP8L`
//! chunk (or as a simple WebP file holding one); the builder checks the
//! frame's geometry and timing, frames it in an `ANMF` chunk, and on
//! [`WebPAnimator::write`] emits the extended container around all frames.
use vstd::prelude::*;

pub mod codec;
pub mod layout;
pub mod decode;

use vstd::arithmetic::div_mod::lemma_add_mod_noop_right;
use crate::codec::{append_bytes, u16_bytes, u24_bytes, u24_value, u32_bytes, u32_value};
use crate::decode::lemma_frame_chunk_fields;
use crate::layout::{
    AnimFrame, AnimatorView, MAX_SIDE, anim_tag, anmf_tag, frame_chunk, frame_fits, frames_bytes,
    has_image_tag, lemma_frames_bytes_push, riff_tag, valid_canvas, vp8_tag, vp8l_tag, vp8x_tag,
    webp_tag,
};

verus! {

/// The sink's error type, carried through as an opaque value.
#[verifier::external_type_specification]
#[verifier::external_body]
pub struct ExIoError(std::io::Error);

/// The frame chunks emitted so far, beside the frames they encode.
struct FrameBuffer {
    bytes: Vec<u8>,
    frames: Ghost<Seq<AnimFrame>>,
}

impl FrameBuffer {
    spec fn wf(&self) -> bool {
        self.bytes@ == frames_bytes(self.frames@)
    }

    /// Appends the ANMF chunk of one frame.
    fn push_frame(&mut self, r: FrameRect, duration: u32, data: &[u8])
        requires
            old(self).wf(),
            r.x % 2 == 0,
            r.y % 2 == 0,
            1 <= r.width <= MAX_SIDE,
            1 <= r.height <= MAX_SIDE,
            r.x < 2 * MAX_SIDE,
            r.y < 2 * MAX_SIDE,
            duration < MAX_SIDE,
            data@.len() + 16 < 0x1_0000_0000,
        ensures
            final(self).wf(),
            final(self).frames@ == old(self).frames@.push(
                AnimFrame {
                    x: r.x as nat,
                    y: r.y as nat,
                    width: r.width as nat,
                    height: r.height as nat,
                    duration: duration as nat,
                    payload: data@,
                },
            ),
    {
        let ghost f = AnimFrame {
            x: r.x as nat,
            y: r.y as nat,
            width: r.width as nat,
            height: r.height as nat,
            duration: duration as nat,
            payload: data@,
        };
        let ghost start = self.bytes@;
        let tag: [u8; 4] = [65, 78, 77, 70]; // "ANMF"
        append_bytes(&mut self.bytes, &tag);
        append_bytes(&mut self.bytes, &u32_bytes((data.len() + 16) as u32));
        append_bytes(&mut self.bytes, &u24_bytes(r.x / 2));
        append_bytes(&mut self.bytes, &u24_bytes(r.y / 2));
        append_bytes(&mut self.bytes, &u24_bytes(r.width - 1));
        append_bytes(&mut self.bytes, &u24_bytes(r.height - 1));
        append_bytes(&mut self.bytes, &u24_bytes(duration));
        self.bytes.push(0);
        append_bytes(&mut self.bytes, data);
        proof {
            assert(tag@ =~= anmf_tag());
            assert(self.bytes@ =~= start + frame_chunk(f));
            lemma_frames_bytes_push(self.frames@, f);
        }
        self.frames = Ghost(self.frames@.push(f));
    }
}

/// Builder of one animated WebP file.
pub struct WebPAnimator {
    width: u32,
    height: u32,
    icc_profile: Vec<u8>,
    exif_metadata: Vec<u8>,
    xmp_metadata: Vec<u8>,
    frame_data: FrameBuffer,
    background_bgra: [u8; 4],
    loop_count: u16,
    has_alpha: bool,
}

/// The part of the canvas that a frame covers, in pixels.
#[derive(Clone, Copy, Debug)]
pub struct FrameRect {
    pub x: u32,
    pub y: u32,
    pub width: u32,
    pub height: u32,
}

/// Why a builder refused a request or could not write its output.
#[derive(Debug)]
pub enum EncodingError {
    /// The canvas or a frame rectangle breaks the size and placement rules.
    InvalidDimensions,
    /// A frame duration does not fit in 24 bits.
    InvalidDuration,
    /// A frame payload starts with neither `VP8L` nor `VP8 `.
    UnrecognizedImage,
    /// The output sink failed.
    Io(std::io::Error),
}

impl From<std::io::Error> for EncodingError {
    fn from(value: std::io::Error) -> (r: Self)
        ensures
            r == EncodingError::Io(value),
    {
        EncodingError::Io(value)
    }
}

impl vstd::std_specs::convert::FromSpecImpl<std::io::Error> for EncodingError {
    open spec fn obeys_from_spec() -> bool {
        true
    }

    open spec fn from_spec(v: std::io::Error) -> Self {
        EncodingError::Io(v)
    }
}

impl EncodingError {
    /// A short description of the error; a sink failure is described by the
    /// sink's own error text.
    pub fn to_string(&self) -> (r: String)
        ensures
            self is InvalidDimensions ==> r@ == "invalid dimensions"@,
            self is InvalidDuration ==> r@ == "invalid duration"@,
            self is UnrecognizedImage ==> r@ == "unrecognized image"@,
    {
        match self {
            EncodingError::InvalidDimensions => "invalid dimensions".to_string(),
            EncodingError::InvalidDuration => "invalid duration".to_string(),
            EncodingError::UnrecognizedImage => "unrecognized image".to_string(),
            EncodingError::Io(e) => e.to_string(),
        }
    }
}

/// Global parameters of the animation.
#[derive(Clone, Copy, Debug)]
pub struct Params {
    pub width: u32,
    pub height: u32,
    pub background_bgra: [u8; 4],
    pub loop_count: u16,
    pub has_alpha: bool,
}

/// What `new` builds from `params` when the canvas is valid.
pub open spec fn initial_view(params: Params) -> AnimatorView {
    AnimatorView {
        width: params.width,
        height: params.height,
        background_bgra: params.background_bgra,
        loop_count: params.loop_count,
        has_alpha: params.has_alpha,
        icc_profile: Seq::empty(),
        exif_metadata: Seq::empty(),
        xmp_metadata: Seq::empty(),
        frames: Seq::empty(),
    }
}

/// The rectangle a frame covers: the one given, else the whole canvas.
pub open spec fn rect_or_canvas(v: AnimatorView, frame: Option<FrameRect>) -> FrameRect {
    match frame {
        Some(r) => r,
        None => FrameRect { x: 0, y: 0, width: v.width, height: v.height },
    }
}

/// A rectangle with even offsets and a positive size that lies on the canvas.
pub open spec fn rect_on_canvas(v: AnimatorView, r: FrameRect) -> bool {
    &&& r.x % 2 == 0
    &&& r.y % 2 == 0
    &&& r.width > 0
    &&& r.height > 0
    &&& r.x + r.width <= v.width
    &&& r.y + r.height <= v.height
}

/// The outcome of adding chunk `data` to a builder in state `v`: the frame that
/// gets appended, or the first rule that the call breaks.
pub open spec fn chunk_outcome(
    v: AnimatorView,
    data: Seq<u8>,
    frame: Option<FrameRect>,
    duration: u32,
) -> Result<AnimFrame, EncodingError> {
    let r = rect_or_canvas(v, frame);
    if !has_image_tag(data) {
        Err(EncodingError::UnrecognizedImage)
    } else if duration >= MAX_SIDE {
        Err(EncodingError::InvalidDuration)
    } else if !rect_on_canvas(v, r) {
        Err(EncodingError::InvalidDimensions)
    } else {
        Ok(
            AnimFrame {
                x: r.x as nat,
                y: r.y as nat,
                width: r.width as nat,
                height: r.height as nat,
                duration: duration as nat,
                payload: data,
            },
        )
    }
}

/// For an accepted frame, the chunk appended to the frame buffer has a length
/// field of 16 plus the payload length, offset fields of half the rectangle's
/// offsets, size fields of the rectangle's size minus one, and the duration.
pub proof fn lemma_accepted_frame_fields(
    v: AnimatorView,
    data: Seq<u8>,
    frame: Option<FrameRect>,
    duration: u32,
)
    requires
        v.wf(),
        data.len() + 16 < 0x1_0000_0000,
        chunk_outcome(v, data, frame, duration) is Ok,
    ensures
        ({
            let f = chunk_outcome(v, data, frame, duration)->Ok_0;
            let r = rect_or_canvas(v, frame);
            let c = frame_chunk(f);
            &&& frames_bytes(v.with_frame(f).frames) == frames_bytes(v.frames) + c
            &&& c.subrange(0, 4) == anmf_tag()
            &&& u32_value(c.subrange(4, 8)) == 16 + data.len()
            &&& u24_value(c.subrange(8, 11)) == r.x / 2
            &&& u24_value(c.subrange(11, 14)) == r.y / 2
            &&& u24_value(c.subrange(14, 17)) == r.width - 1
            &&& u24_value(c.subrange(17, 20)) == r.height - 1
            &&& u24_value(c.subrange(20, 23)) == duration
            &&& c.subrange(24, c.len() as int) == data
        }),
{
    let f = chunk_outcome(v, data, frame, duration)->Ok_0;
    lemma_frames_bytes_push(v.frames, f);
    lemma_frame_chunk_fields(f);
}

/// A frame with a recognized tag and a duration in range, but an odd `x` or
/// `y` offset, is refused with `InvalidDimensions`.
pub proof fn lemma_odd_offset_refused(v: AnimatorView, data: Seq<u8>, r: FrameRect, duration: u32)
    requires
        has_image_tag(data),
        duration < MAX_SIDE,
        r.x % 2 == 1 || r.y % 2 == 1,
    ensures
        chunk_outcome(v, data, Some(r), duration) == Err::<AnimFrame, EncodingError>(
            EncodingError::InvalidDimensions,
        ),
{
}

/// A payload that does not start with `VP8L` or `VP8 ` is refused with
/// `UnrecognizedImage`, whatever the rectangle and duration.
pub proof fn lemma_untagged_refused(
    v: AnimatorView,
    data: Seq<u8>,
    frame: Option<FrameRect>,
    duration: u32,
)
    requires
        !has_image_tag(data),
    ensures
        chunk_outcome(v, data, frame, duration) == Err::<AnimFrame, EncodingError>(
            EncodingError::UnrecognizedImage,
        ),
{
}

/// The chunk inside a simple WebP file: what follows its 12-byte header
/// (nothing, when the file is shorter than that).
pub open spec fn image_chunk(data: Seq<u8>) -> Seq<u8> {
    if data.len() >= 12 {
        data.skip(12)
    } else {
        Seq::empty()
    }
}

impl View for WebPAnimator {
    type V = AnimatorView;

    closed spec fn view(&self) -> AnimatorView {
        AnimatorView {
            width: self.width,
            height: self.height,
            background_bgra: self.background_bgra,
            loop_count: self.loop_count,
            has_alpha: self.has_alpha,
            icc_profile: self.icc_profile@,
            exif_metadata: self.exif_metadata@,
            xmp_metadata: self.xmp_metadata@,
            frames: self.frame_data.frames@,
        }
    }
}

impl WebPAnimator {
    /// The builder is well formed: its view is, and the emitted frame chunks
    /// encode exactly the frames of the view.
    pub closed spec fn inv(&self) -> bool {
        &&& self@.wf()
        &&& self.frame_data.wf()
    }

    /// A well-formed builder has a well-formed view.
    pub proof fn lemma_inv_wf(&self)
        requires
            self.inv(),
        ensures
            self@.wf(),
    {
    }

    pub fn new(params: Params) -> (r: Result<Self, EncodingError>)
        ensures
            r is Ok <==> valid_canvas(params.width, params.height),
            r matches Ok(a) ==> a.inv() && a@ == initial_view(params),
            r matches Err(e) ==> e is InvalidDimensions,
    {
        if params.width > MAX_SIDE || params.height > MAX_SIDE {
            return Err(EncodingError::InvalidDimensions);
        }
        assert((params.width as u64) * (params.height as u64) <= 0x1000000u64 * 0x1000000u64)
            by (nonlinear_arith)
            requires
                params.width <= 0x1000000,
                params.height <= 0x1000000,
        ;
        let area: u64 = (params.width as u64) * (params.height as u64);
        assert(area == 0 ==> params.width == 0 || params.height == 0) by (nonlinear_arith)
            requires
                area == params.width * params.height,
        ;
        if area == 0 || area >= 0x1_0000_0000 {
            return Err(EncodingError::InvalidDimensions);
        }
        assert(params.width > 0 && params.height > 0) by (nonlinear_arith)
            requires
                area == params.width * params.height,
                area != 0,
        ;
        Ok(
            WebPAnimator {
                width: params.width,
                height: params.height,
                icc_profile: Vec::new(),
                exif_metadata: Vec::new(),
                xmp_metadata: Vec::new(),
                frame_data: FrameBuffer { bytes: Vec::new(), frames: Ghost(Seq::empty()) },
                background_bgra: params.background_bgra,
                loop_count: params.loop_count,
                has_alpha: params.has_alpha,
            },
        )
    }

    pub fn set_icc_profile(&mut self, icc_profile: Vec<u8>)
        requires
            old(self).inv(),
        ensures
            final(self).inv(),
            final(self)@ == (AnimatorView { icc_profile: icc_profile@, ..old(self)@ }),
    {
        self.icc_profile = icc_profile;
    }

    pub fn set_exif_metadata(&mut self, exif_metadata: Vec<u8>)
        requires
            old(self).inv(),
        ensures
            final(self).inv(),
            final(self)@ == (AnimatorView { exif_metadata: exif_metadata@, ..old(self)@ }),
    {
        self.exif_metadata = exif_metadata;
    }

    pub fn set_xmp_metadata(&mut self, xmp_metadata: Vec<u8>)
        requires
            old(self).inv(),
        ensures
            final(self).inv(),
            final(self)@ == (AnimatorView { xmp_metadata: xmp_metadata@, ..old(self)@ }),
    {
        self.xmp_metadata = xmp_metadata;
    }
    /// Adds one frame: `data` is a `VP8 ` or `VP8L` chunk, `frame` the part of
    /// the canvas it covers (the whole canvas when `None`), `duration` its
    /// display time in milliseconds. On failure nothing changes.
    pub fn add_webp_chunk(
        &mut self,
        data: &[u8],
        frame: Option<FrameRect>,
        duration: u32,
    ) -> (r: Result<(), EncodingError>)
        requires
            old(self).inv(),
            data@.len() + 16 < 0x1_0000_0000,
        ensures
            final(self).inv(),
            match chunk_outcome(old(self)@, data@, frame, duration) {
                Ok(f) => r is Ok && final(self)@ == old(self)@.with_frame(f),
                Err(e) => r == Err::<(), EncodingError>(e) && final(self)@ == old(self)@,
            },
    {
        let tagged = data.len() >= 4 && data[0] == 86 && data[1] == 80 && data[2] == 56 && (
        data[3] == 76 || data[3] == 32);  // "VP8L" or "VP8 "
        proof {
            if data@.len() >= 4 {
                assert(tagged ==> data@.subrange(0, 4) =~= vp8l_tag() || data@.subrange(0, 4)
                    =~= vp8_tag());
                assert(data@.subrange(0, 4) =~= vp8l_tag() ==> data@[3] == 76);
                assert(data@.subrange(0, 4) =~= vp8_tag() ==> data@[3] == 32);
                assert(data@.subrange(0, 4) == vp8l_tag() || data@.subrange(0, 4) == vp8_tag()
                    ==> data@[0] == 86 && data@[1] == 80 && data@[2] == 56);
            }
        }
        if !tagged {
            return Err(EncodingError::UnrecognizedImage);
        }
        if duration >= MAX_SIDE {
            return Err(EncodingError::InvalidDuration);
        }
        let rect = match frame {
            Some(r) => r,
            None => FrameRect { x: 0, y: 0, width: self.width, height: self.height },
        };
        if rect.x % 2 != 0 || rect.y % 2 != 0 || rect.width == 0 || rect.height == 0
            || rect.x as u64 + rect.width as u64 > self.width as u64 || rect.y as u64
            + rect.height as u64 > self.height as u64 {
            return Err(EncodingError::InvalidDimensions);
        }
        self.frame_data.push_frame(rect, duration, data);
        proof {
            let v = self@;
            assert forall|i: int| 0 <= i < v.frames.len() implies #[trigger] frame_fits(
                v.frames[i],
                v.width as nat,
                v.height as nat,
            ) by {
                if i < old(self)@.frames.len() {
                    assert(v.frames[i] == old(self)@.frames[i]);
                }
            }
        }
        Ok(())
    }

    /// Adds one frame given as a simple WebP file: its 12-byte header is
    /// dropped and the chunk that follows is added as by `add_webp_chunk`.
    pub fn add_webp_image(
        &mut self,
        data: &[u8],
        frame: Option<FrameRect>,
        duration: u32,
    ) -> (r: Result<(), EncodingError>)
        requires
            old(self).inv(),
            data@.len() < 0x1_0000_0000 - 4,
        ensures
            final(self).inv(),
            match chunk_outcome(old(self)@, image_chunk(data@), frame, duration) {
                Ok(f) => r is Ok && final(self)@ == old(self)@.with_frame(f),
                Err(e) => r == Err::<(), EncodingError>(e) && final(self)@ == old(self)@,
            },
    {
        let split = if data.len() >= 12 {
            12
        } else {
            data.len()
        };
        let (_, chunk) = data.split_at(split);
        assert(chunk@ =~= image_chunk(data@));
        self.add_webp_chunk(chunk, frame, duration)
    }
    /// The outer size field: 36 header bytes plus all frame and metadata
    /// bytes, kept to its low 32 bits.
    fn riff_size(&self) -> (r: u32)
        requires
            self.inv(),
        ensures
            r as nat == self@.riff_size(),
    {
        let m: u64 = 0x1_0000_0000;
        let a: u64 = self.frame_data.bytes.len() as u64 % m;
        let b: u64 = self.icc_profile.len() as u64 % m;
        let c: u64 = self.exif_metadata.len() as u64 % m;
        let d: u64 = self.xmp_metadata.len() as u64 % m;
        let total: u64 = (36 + a + b + c + d) % m;
        proof {
            let fl = self.frame_data.bytes@.len() as int;
            let il = self.icc_profile@.len() as int;
            let el = self.exif_metadata@.len() as int;
            let xl = self.xmp_metadata@.len() as int;
            let mi = m as int;
            lemma_add_mod_noop_right(36 + a + b + c, xl, mi);
            lemma_add_mod_noop_right(36 + a + b + xl, el, mi);
            lemma_add_mod_noop_right(36 + a + el + xl, il, mi);
            lemma_add_mod_noop_right(36 + il + el + xl, fl, mi);
            assert((36 + a + b + c + d) % mi == (36 + fl + il + el + xl) % mi);
        }
        total as u32
    }

    /// The capability flags byte.
    fn flags(&self) -> (r: u8)
        ensures
            r == self@.flags(),
    {
        let mut flags: u8 = 0x2;
        if !self.icc_profile.is_empty() {
            flags = flags + 0x20;
        }
        if self.has_alpha {
            flags = flags + 0x10;
        }
        if !self.exif_metadata.is_empty() {
            flags = flags + 0x8;
        }
        if !self.xmp_metadata.is_empty() {
            flags = flags + 0x4;
        }
        flags
    }

    /// The complete container: outer header, extended header, ICC profile,
    /// animation parameters, frame chunks, EXIF and XMP metadata.
    pub fn to_bytes(&self) -> (r: Vec<u8>)
        requires
            self.inv(),
        ensures
            r@ == self@.container(),
    {
        let mut out: Vec<u8> = Vec::new();
        let riff: [u8; 4] = [82, 73, 70, 70];  // "RIFF"
        let webp: [u8; 4] = [87, 69, 66, 80];  // "WEBP"
        let vp8x: [u8; 4] = [86, 80, 56, 88];  // "VP8X"
        let anim: [u8; 4] = [65, 78, 73, 77];  // "ANIM"
        append_bytes(&mut out, &riff);
        append_bytes(&mut out, &u32_bytes(self.riff_size()));
        append_bytes(&mut out, &webp);
        append_bytes(&mut out, &vp8x);
        append_bytes(&mut out, &u32_bytes(10));
        out.push(self.flags());
        out.push(0);
        out.push(0);
        out.push(0);
        append_bytes(&mut out, &u24_bytes(self.width - 1));
        append_bytes(&mut out, &u24_bytes(self.height - 1));
        append_bytes(&mut out, &self.icc_profile);
        append_bytes(&mut out, &anim);
        append_bytes(&mut out, &u32_bytes(6));
        append_bytes(&mut out, &self.background_bgra);
        append_bytes(&mut out, &u16_bytes(self.loop_count));
        append_bytes(&mut out, &self.frame_data.bytes);
        append_bytes(&mut out, &self.exif_metadata);
        append_bytes(&mut out, &self.xmp_metadata);
        proof {
            assert(riff@ =~= riff_tag());
            assert(webp@ =~= webp_tag());
            assert(vp8x@ =~= vp8x_tag());
            assert(anim@ =~= anim_tag());
            assert(out@ =~= self@.container());
        }
        out
    }

    /// Writes the complete container (see `to_bytes`) to `writer`. The
    /// builder is left as it was, so a second call writes the same bytes.
    pub fn write<W: std::io::Write + ?Sized>(&mut self, writer: &mut W) -> (r: Result<
        (),
        EncodingError,
    >)
        requires
            old(self).inv(),
        ensures
            *final(self) == *old(self),
            r matches Err(e) ==> e is Io,
    {
        let bytes = self.to_bytes();
        match write_all_to(writer, &bytes) {
            Ok(()) => Ok(()),
            Err(e) => Err(EncodingError::Io(e)),
        }
    }
}

/// Relies on `std::io::Write::write_all`: it hands all of `bytes` to the sink,
/// or returns the sink's error.
#[verifier::external_body]
fn write_all_to<W: std::io::Write + ?Sized>(writer: &mut W, bytes: &[u8]) -> (r: Result<
    (),
    std::io::Error,
>) {
    writer.write_all(bytes)
}

} // verus!
