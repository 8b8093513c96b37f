//! Reading frame chunks back, and what the encoder guarantees about them.
use vstd::prelude::*;
use crate::codec::{u24_le, u24_value, u32_le, u32_value, lemma_u24_round_trip, lemma_u32_round_trip};
use crate::layout::{AnimFrame, AnimatorView, MAX_SIDE, anmf_tag, frame_chunk, frame_fits, frames_bytes};

verus! {

/// The frames of a run of ANMF chunks, read front to back; reading stops at
/// the first bytes that are not a complete ANMF chunk.
pub open spec fn decode_frames(b: Seq<u8>) -> Seq<AnimFrame>
    decreases b.len(),
{
    if b.len() < 24 || b.subrange(0, 4) != anmf_tag() {
        Seq::empty()
    } else {
        let len = u32_value(b.subrange(4, 8));
        if len < 16 || 8 + len > b.len() {
            Seq::empty()
        } else {
            let f = AnimFrame {
                x: 2 * u24_value(b.subrange(8, 11)),
                y: 2 * u24_value(b.subrange(11, 14)),
                width: u24_value(b.subrange(14, 17)) + 1,
                height: u24_value(b.subrange(17, 20)) + 1,
                duration: u24_value(b.subrange(20, 23)),
                payload: b.subrange(24, 8 + len as int),
            };
            seq![f] + decode_frames(b.skip(8 + len as int))
        }
    }
}

/// Every field of a frame fits its encoding and halving its offsets loses nothing.
pub open spec fn encodable(f: AnimFrame) -> bool {
    &&& f.x % 2 == 0
    &&& f.y % 2 == 0
    &&& f.x / 2 < MAX_SIDE
    &&& f.y / 2 < MAX_SIDE
    &&& 1 <= f.width <= MAX_SIDE
    &&& 1 <= f.height <= MAX_SIDE
    &&& f.duration < MAX_SIDE
    &&& f.payload.len() + 16 < 0x1_0000_0000
}

/// Where each field of a frame chunk stands, and what it reads as.
pub proof fn lemma_frame_chunk_fields(f: AnimFrame)
    requires
        encodable(f),
    ensures
        frame_chunk(f).len() == 24 + f.payload.len(),
        frame_chunk(f).subrange(0, 4) == anmf_tag(),
        u32_value(frame_chunk(f).subrange(4, 8)) == 16 + f.payload.len(),
        u24_value(frame_chunk(f).subrange(8, 11)) == f.x / 2,
        u24_value(frame_chunk(f).subrange(11, 14)) == f.y / 2,
        u24_value(frame_chunk(f).subrange(14, 17)) == f.width - 1,
        u24_value(frame_chunk(f).subrange(17, 20)) == f.height - 1,
        u24_value(frame_chunk(f).subrange(20, 23)) == f.duration,
        frame_chunk(f)[23] == 0,
        frame_chunk(f).subrange(24, 24 + f.payload.len() as int) == f.payload,
{
    let c = frame_chunk(f);
    let n = 16 + f.payload.len();
    lemma_u32_round_trip(n);
    lemma_u24_round_trip(f.x / 2);
    lemma_u24_round_trip(f.y / 2);
    lemma_u24_round_trip((f.width - 1) as nat);
    lemma_u24_round_trip((f.height - 1) as nat);
    lemma_u24_round_trip(f.duration);
    assert(c.subrange(0, 4) =~= anmf_tag());
    assert(c.subrange(4, 8) =~= u32_le(n));
    assert(c.subrange(8, 11) =~= u24_le(f.x / 2));
    assert(c.subrange(11, 14) =~= u24_le(f.y / 2));
    assert(c.subrange(14, 17) =~= u24_le((f.width - 1) as nat));
    assert(c.subrange(17, 20) =~= u24_le((f.height - 1) as nat));
    assert(c.subrange(20, 23) =~= u24_le(f.duration));
    assert(c.subrange(24, 24 + f.payload.len() as int) =~= f.payload);
}

/// A frame chunk followed by anything reads back as that frame, then what follows.
pub proof fn lemma_decode_chunk(f: AnimFrame, rest: Seq<u8>)
    requires
        encodable(f),
    ensures
        decode_frames(frame_chunk(f) + rest) == seq![f] + decode_frames(rest),
{
    let c = frame_chunk(f);
    let b = c + rest;
    lemma_frame_chunk_fields(f);
    assert(b.subrange(0, c.len() as int) =~= c);
    assert(b.subrange(0, 4) =~= c.subrange(0, 4));
    assert(b.subrange(4, 8) =~= c.subrange(4, 8));
    assert(b.subrange(8, 11) =~= c.subrange(8, 11));
    assert(b.subrange(11, 14) =~= c.subrange(11, 14));
    assert(b.subrange(14, 17) =~= c.subrange(14, 17));
    assert(b.subrange(17, 20) =~= c.subrange(17, 20));
    assert(b.subrange(20, 23) =~= c.subrange(20, 23));
    assert(b.subrange(24, 24 + f.payload.len() as int) =~= c.subrange(
        24,
        24 + f.payload.len() as int,
    ));
    assert(b.skip(c.len() as int) =~= rest);
    let g = decode_frames(b)[0];
    assert(decode_frames(b) == seq![g] + decode_frames(rest));
    assert(g == f);
}

/// Reading back the chunks of encodable frames gives those frames, in order.
pub proof fn lemma_decode_frames_bytes(frames: Seq<AnimFrame>)
    requires
        forall|i: int| 0 <= i < frames.len() ==> #[trigger] encodable(frames[i]),
    ensures
        decode_frames(frames_bytes(frames)) == frames,
    decreases frames.len(),
{
    if frames.len() == 0 {
        assert(decode_frames(Seq::empty()) == Seq::<AnimFrame>::empty());
    } else {
        let tail = frames.skip(1);
        assert forall|i: int| 0 <= i < tail.len() implies #[trigger] encodable(tail[i]) by {
            assert(tail[i] == frames[i + 1]);
        }
        lemma_decode_frames_bytes(tail);
        assert(encodable(frames[0]));
        lemma_decode_chunk(frames[0], frames_bytes(tail));
        assert(frames =~= seq![frames[0]] + tail);
    }
}

/// The frame chunks stand in the container from `frames_offset` on.
pub proof fn lemma_container_frames(v: AnimatorView)
    ensures
        v.container().subrange(
            v.frames_offset() as int,
            v.frames_offset() + frames_bytes(v.frames).len() as int,
        ) == frames_bytes(v.frames),
{
    let c = v.container();
    assert(v.riff_header().len() == 12);
    assert(v.vp8x_chunk().len() == 18);
    assert(v.anim_chunk().len() == 14);
    assert(c.subrange(
        v.frames_offset() as int,
        v.frames_offset() + frames_bytes(v.frames).len() as int,
    ) =~= frames_bytes(v.frames));
}

/// Round trip: reading the frame chunks of a container built from a
/// well-formed builder gives back exactly its frames, in the order they were
/// added, each with its rectangle, duration and payload.
pub proof fn lemma_container_round_trip(v: AnimatorView)
    requires
        v.wf(),
    ensures
        decode_frames(
            v.container().subrange(
                v.frames_offset() as int,
                v.frames_offset() + frames_bytes(v.frames).len() as int,
            ),
        ) == v.frames,
{
    assert forall|i: int| 0 <= i < v.frames.len() implies #[trigger] encodable(v.frames[i]) by {
        assert(frame_fits(v.frames[i], v.width as nat, v.height as nat));
    }
    lemma_container_frames(v);
    lemma_decode_frames_bytes(v.frames);
}

} // verus!
