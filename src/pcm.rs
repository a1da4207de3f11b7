//! Sample formats on both sides of the audio peripheral.
//!
//! Capture: the microphone delivers interleaved stereo frames of 32-bit
//! little-endian words; only the left word of each pair carries audio, and it
//! is brought down to a 16-bit sample by a fixed arithmetic shift and a
//! saturating clamp.
//!
//! Playback: each decoded 16-bit sample is scaled by a fixed volume factor in
//! a widened representation, written into the right slot of a 32-bit stereo
//! frame whose left slot is zero, and serialised little-endian.
use vstd::prelude::*;

verus! {

/// Samples in one PCM frame: 60 ms of mono audio at 16 kHz.
pub const FRAME_SAMPLES: usize = 960;

/// Divisor equal to the capture shift (a right shift by 12 bits).
pub const CAPTURE_DIVISOR: u64 = 4096;

/// Volume factor applied to every decoded sample before playback.
pub const VOLUME_FACTOR: i64 = 32112;

/// The factor that would leave a sample at its full representational scale.
pub const VOLUME_UNITY: i64 = 32767;

/// Bytes written to the peripheral per decoded sample: two 32-bit slots.
pub const PLAYBACK_BYTES_PER_SAMPLE: usize = 8;

/// The signed value of a little-endian 32-bit two's-complement word.
pub open spec fn le_i32(b0: u8, b1: u8, b2: u8, b3: u8) -> int {
    b0 + 256 * b1 + 65536 * b2 + 16777216 * b3 - (if b3 >= 128 {
        4294967296int
    } else {
        0int
    })
}

/// The `k`-th 32-bit word of a raw capture buffer.
pub open spec fn capture_word(raw: Seq<u8>, k: int) -> int {
    le_i32(raw[4 * k], raw[4 * k + 1], raw[4 * k + 2], raw[4 * k + 3])
}

/// Saturating conversion of an integer to the 16-bit signed range.
pub open spec fn clamp_i16(v: int) -> i16 {
    if v < i16::MIN {
        i16::MIN
    } else if v > i16::MAX {
        i16::MAX
    } else {
        v as i16
    }
}

/// A capture word shifted right by 12 bits (floor division) and clamped.
pub open spec fn narrow(w: int) -> i16 {
    clamp_i16(w / 4096)
}

/// Number of whole 32-bit words in a raw capture buffer.
pub open spec fn word_count(raw: Seq<u8>) -> int {
    raw.len() as int / 4
}

/// The 16-bit samples that a run of captured bytes yields: every
/// even-numbered word (left channel), narrowed, in order; the odd-numbered
/// words (right channel) do not contribute. The capture pipeline applies it
/// to whole stereo pairs only (see `whole_pairs`), so nothing is cut off.
pub open spec fn left_channel(raw: Seq<u8>) -> Seq<i16> {
    Seq::new(((word_count(raw) + 1) / 2) as nat, |i: int| narrow(capture_word(raw, 2 * i)))
}

/// Bytes in one stereo pair of capture words.
pub const STEREO_PAIR_BYTES: usize = 8;

/// How many leading bytes of `b` make up whole stereo pairs.
pub open spec fn pair_bytes(b: Seq<u8>) -> int {
    b.len() as int / 8 * 8
}

/// The leading bytes of `b` that make up whole stereo pairs.
pub open spec fn whole_pairs(b: Seq<u8>) -> Seq<u8> {
    b.subrange(0, pair_bytes(b))
}

/// The bytes of `b` after its last whole stereo pair (fewer than 8).
pub open spec fn pair_tail(b: Seq<u8>) -> Seq<u8> {
    b.subrange(pair_bytes(b), b.len() as int)
}

/// Reading two runs of bytes one after the other, where the first holds
/// whole stereo pairs, yields the samples of the first followed by those of
/// the second: the left/right phase carries over.
pub proof fn lemma_left_channel_append(a: Seq<u8>, b: Seq<u8>)
    requires
        a.len() % 8 == 0,
    ensures
        left_channel(a + b) == left_channel(a) + left_channel(b),
{
    let ab = a + b;
    let wa = word_count(a);
    assert(word_count(ab) == wa + word_count(b));
    assert(wa % 2 == 0);
    assert(((word_count(ab) + 1) / 2) == wa / 2 + (word_count(b) + 1) / 2);
    let l = left_channel(ab);
    let r = left_channel(a) + left_channel(b);
    assert forall|i: int| 0 <= i < l.len() implies #[trigger] l[i] == r[i] by {
        if i < wa / 2 {
            assert(8 * i + 7 < a.len());
            assert(capture_word(ab, 2 * i) == capture_word(a, 2 * i));
        } else {
            let j = i - wa / 2;
            assert(4 * (2 * i) == a.len() + 4 * (2 * j));
            assert(capture_word(ab, 2 * i) == capture_word(b, 2 * j));
        }
    }
    assert(l =~= r);
}

/// Splitting a byte stream into whole pairs and a tail is compatible with
/// appending: the pairs of `captured + raw` are the pairs of `captured`
/// followed by the pairs of its tail with `raw`, and the tails agree.
pub proof fn lemma_whole_pairs_append(captured: Seq<u8>, raw: Seq<u8>)
    ensures
        whole_pairs(captured + raw) == whole_pairs(captured) + whole_pairs(pair_tail(captured) + raw),
        pair_tail(captured + raw) == pair_tail(pair_tail(captured) + raw),
        whole_pairs(captured).len() % 8 == 0,
{
    let w = pair_bytes(captured);
    let c2 = pair_tail(captured) + raw;
    let x = c2.len() as int;
    assert(x == captured.len() - w + raw.len());
    assert(0 <= w <= captured.len());
    assert(w % 8 == 0);
    assert((w + x) / 8 * 8 == w + x / 8 * 8) by {
        vstd::arithmetic::div_mod::lemma_hoist_over_denominator(x, w / 8, 8);
    }
    assert(pair_bytes(captured + raw) == w + pair_bytes(c2));
    assert(whole_pairs(captured + raw) =~= whole_pairs(captured) + whole_pairs(c2));
    assert(pair_tail(captured + raw) =~= pair_tail(c2));
}

/// Narrows one little-endian capture word to a 16-bit sample.
pub fn narrow_word(b0: u8, b1: u8, b2: u8, b3: u8) -> (r: i16)
    ensures
        r == narrow(le_i32(b0, b1, b2, b3)),
{
    let top: i64 = if b3 >= 128 {
        b3 as i64 - 256
    } else {
        b3 as i64
    };
    let w: i64 = b0 as i64 + 256 * (b1 as i64) + 65536 * (b2 as i64) + 16777216 * top;
    assert(w == le_i32(b0, b1, b2, b3));
    // Bias into the unsigned range so that division rounds toward negative
    // infinity, as an arithmetic shift does.
    let biased: u64 = (w + 2147483648) as u64;
    let q: i64 = (biased / CAPTURE_DIVISOR) as i64 - 524288;
    assert(q == w / 4096) by {
        vstd::arithmetic::div_mod::lemma_hoist_over_denominator(w as int, 524288, 4096);
    }
    if q < i16::MIN as i64 {
        i16::MIN
    } else if q > i16::MAX as i64 {
        i16::MAX
    } else {
        q as i16
    }
}

/// Reformats a raw capture buffer: keeps the left channel of each stereo
/// frame, in order, and narrows it to 16 bits.
pub fn capture_samples(raw: &[u8]) -> (r: Vec<i16>)
    ensures
        r@ == left_channel(raw@),
        forall|i: int| 0 <= i < r@.len() ==> i16::MIN <= #[trigger] r@[i] <= i16::MAX,
{
    let words: usize = raw.len() / 4;
    let mut out: Vec<i16> = Vec::new();
    let mut k: usize = 0;
    while k < words
        invariant
            words == word_count(raw@),
            4 * words <= raw.len(),
            k % 2 == 0,
            k <= words + 1,
            out@.len() == k / 2,
            forall|i: int| 0 <= i < out@.len() ==> #[trigger] out@[i] == narrow(capture_word(raw@, 2 * i)),
        decreases words + 1 - k,
    {
        assert(4 * k + 3 < raw@.len());
        let s = narrow_word(raw[4 * k], raw[4 * k + 1], raw[4 * k + 2], raw[4 * k + 3]);
        out.push(s);
        k = k + 2;
    }
    assert(out@ =~= left_channel(raw@));
    out
}

/// The samples that `frames`, in order, followed by `rest`, make up.
pub open spec fn frames_then_rest(frames: Seq<Seq<i16>>, rest: Seq<i16>) -> Seq<i16>
    decreases frames.len(),
{
    if frames.len() == 0 {
        rest
    } else {
        frames[0] + frames_then_rest(frames.drop_first(), rest)
    }
}

/// Frames followed by a rest are the frames alone followed by the rest.
pub proof fn lemma_frames_then_rest_split(frames: Seq<Seq<i16>>, rest: Seq<i16>)
    ensures
        frames_then_rest(frames, rest) == frames_then_rest(frames, Seq::empty()) + rest,
    decreases frames.len(),
{
    if frames.len() == 0 {
        assert(Seq::<i16>::empty() + rest =~= rest);
    } else {
        lemma_frames_then_rest_split(frames.drop_first(), rest);
        assert(frames[0] + (frames_then_rest(frames.drop_first(), Seq::empty()) + rest) =~= (frames[0]
            + frames_then_rest(frames.drop_first(), Seq::empty())) + rest);
    }
}

proof fn lemma_frames_then_rest_push(frames: Seq<Seq<i16>>, f: Seq<i16>, rest: Seq<i16>)
    ensures
        frames_then_rest(frames.push(f), rest) == frames_then_rest(frames, f + rest),
    decreases frames.len(),
{
    let pushed = frames.push(f);
    if frames.len() == 0 {
        assert(pushed.drop_first() =~= Seq::<Seq<i16>>::empty());
        assert(frames_then_rest(pushed.drop_first(), rest) == rest);
        assert(pushed[0] == f);
    } else {
        assert(pushed.drop_first() =~= frames.drop_first().push(f));
        lemma_frames_then_rest_push(frames.drop_first(), f, rest);
        assert(pushed[0] == frames[0]);
        assert(frames_then_rest(pushed, rest) == frames[0] + frames_then_rest(
            frames.drop_first(),
            f + rest,
        ));
    }
}

/// Accumulates narrowed capture samples until whole PCM frames can be split
/// off for the encoder.
pub struct FrameAssembler {
    remain: Vec<i16>,
}

impl FrameAssembler {
    /// The samples held back because they do not yet make a whole frame.
    pub closed spec fn pending(&self) -> Seq<i16> {
        self.remain@
    }

    #[verifier::type_invariant]
    spec fn holds_less_than_a_frame(&self) -> bool {
        self.remain@.len() < FRAME_SAMPLES
    }

    pub fn new() -> (r: Self)
        ensures
            r.pending() == Seq::<i16>::empty(),
    {
        FrameAssembler { remain: Vec::new() }
    }

    /// Number of samples waiting for the next frame.
    pub fn pending_len(&self) -> (n: usize)
        ensures
            n == self.pending().len(),
            n < FRAME_SAMPLES,
    {
        proof {
            use_type_invariant(self);
        }
        self.remain.len()
    }

    /// Appends `samples` after the pending ones and splits off every whole
    /// frame, oldest first. Fewer than a frame's worth stay pending.
    pub fn push_samples(&mut self, samples: &[i16]) -> (frames: Vec<Vec<i16>>)
        ensures
            final(self).pending().len() < FRAME_SAMPLES,
            forall|i: int| 0 <= i < frames@.len() ==> #[trigger] frames@[i]@.len() == FRAME_SAMPLES,
            frames_then_rest(frames@.map_values(|f: Vec<i16>| f@), final(self).pending())
                == old(self).pending() + samples@,
    {
        proof {
            use_type_invariant(&*self);
        }
        let mut buf: Vec<i16> = self.remain.clone();
        buf.extend_from_slice(samples);
        let ghost total = old(self).pending() + samples@;
        assert(buf@ =~= total);
        let mut frames: Vec<Vec<i16>> = Vec::new();
        while buf.len() >= FRAME_SAMPLES
            invariant
                forall|i: int| 0 <= i < frames@.len() ==> #[trigger] frames@[i]@.len() == FRAME_SAMPLES,
                frames_then_rest(frames@.map_values(|f: Vec<i16>| f@), buf@) == total,
            decreases buf@.len(),
        {
            let ghost whole = buf@;
            let rest = buf.split_off(FRAME_SAMPLES);
            let frame = buf;
            buf = rest;
            assert(frame@ + buf@ =~= whole);
            proof {
                let old_views = frames@.map_values(|f: Vec<i16>| f@);
                lemma_frames_then_rest_push(old_views, frame@, buf@);
                assert(frames@.push(frame).map_values(|f: Vec<i16>| f@) =~= old_views.push(frame@));
            }
            frames.push(frame);
        }
        self.remain = buf;
        frames
    }
}

/// Saturating conversion of an integer to the 32-bit signed range.
pub open spec fn clamp_i32(v: int) -> i32 {
    if v < i32::MIN {
        i32::MIN
    } else if v > i32::MAX {
        i32::MAX
    } else {
        v as i32
    }
}

/// A decoded sample after volume scaling, in the 32-bit output slot.
pub open spec fn scaled(p: i16) -> i32 {
    clamp_i32(p * VOLUME_FACTOR)
}

/// Scales one decoded sample by the volume factor in 64-bit arithmetic and
/// clamps the product to the 32-bit output range.
pub fn scale_sample(p: i16) -> (r: i32)
    ensures
        r == scaled(p),
{
    let temp: i64 = p as i64 * VOLUME_FACTOR;
    if temp < i32::MIN as i64 {
        i32::MIN
    } else if temp > i32::MAX as i64 {
        i32::MAX
    } else {
        temp as i32
    }
}

/// Byte `m` (0 = least significant) of the 32-bit two's-complement encoding
/// of `v`.
pub open spec fn le_byte(v: int, m: int) -> u8 {
    let u = v % 4294967296;
    (if m == 0 {
        u % 256
    } else if m == 1 {
        (u / 256) % 256
    } else if m == 2 {
        (u / 65536) % 256
    } else {
        (u / 16777216) % 256
    }) as u8
}

/// The bytes pushed to the playback peripheral for decoded samples `pcm`:
/// per sample a zero left slot, then the scaled sample, both 32-bit
/// little-endian.
pub open spec fn playback_bytes(pcm: Seq<i16>) -> Seq<u8> {
    Seq::new(
        8 * pcm.len(),
        |j: int|
            if j % 8 < 4 {
                0u8
            } else {
                le_byte(scaled(pcm[j / 8]) as int, j % 8 - 4)
            },
    )
}

/// Serialises decoded samples for the playback peripheral.
pub fn render_playback(pcm: &[i16]) -> (r: Vec<u8>)
    requires
        8 * pcm@.len() <= usize::MAX,
    ensures
        r@ == playback_bytes(pcm@),
{
    let mut out: Vec<u8> = Vec::new();
    let mut i: usize = 0;
    while i < pcm.len()
        invariant
            i <= pcm@.len(),
            8 * pcm@.len() <= usize::MAX,
            out@.len() == 8 * i,
            forall|j: int| 0 <= j < out@.len() ==> #[trigger] out@[j] == playback_bytes(pcm@)[j],
        decreases pcm@.len() - i,
    {
        let v: i32 = scale_sample(pcm[i]);
        let u: u64 = if v < 0 {
            (v as i64 + 4294967296) as u64
        } else {
            v as u64
        };
        assert(u == (v as int) % 4294967296);
        let b0: u8 = (u % 256) as u8;
        let b1: u8 = ((u / 256) % 256) as u8;
        let b2: u8 = ((u / 65536) % 256) as u8;
        let b3: u8 = ((u / 16777216) % 256) as u8;
        let ghost before = out@;
        out.push(0u8);
        out.push(0u8);
        out.push(0u8);
        out.push(0u8);
        out.push(b0);
        out.push(b1);
        out.push(b2);
        out.push(b3);
        proof {
            assert forall|j: int| 0 <= j < out@.len() implies #[trigger] out@[j] == playback_bytes(
                pcm@,
            )[j] by {
                if j >= 8 * i {
                    assert(j / 8 == i as int);
                    assert(j % 8 == j - 8 * i);
                } else {
                    assert(out@[j] == before[j]);
                }
            }
        }
        i = i + 1;
    }
    assert(out@ =~= playback_bytes(pcm@));
    out
}

/// Volume scaling never makes a sample louder: on the representational
/// scale where `VOLUME_UNITY` leaves a sample unchanged, the magnitude of the
/// output is at most that of the input, and no product needs clamping.
pub proof fn lemma_volume_never_amplifies(p: i16)
    ensures
        scaled(p) == p * VOLUME_FACTOR,
        (if scaled(p) < 0 { -scaled(p) } else { scaled(p) as int }) <= (if p < 0 { -p } else { p as int }) * VOLUME_UNITY,
{
    assert(-32768 * 32112 <= p * 32112 <= 32767 * 32112) by (nonlinear_arith)
        requires
            -32768 <= p <= 32767,
    ;
    if p < 0 {
        assert(-(p * 32112) <= -p * 32767) by (nonlinear_arith)
            requires
                p < 0,
        ;
    } else {
        assert(p * 32112 <= p * 32767) by (nonlinear_arith)
            requires
                p >= 0,
        ;
    }
}

/// A 32-bit output word read back on the 16-bit sample scale, on which
/// `VOLUME_UNITY` stands for a factor of one.
pub open spec fn on_sample_scale(out: int) -> int {
    out / (VOLUME_UNITY as int)
}

/// Re-applying the volume scale changes samples again, so it is not
/// idempotent: a full-scale sample goes to 32112 and then to 31470. Only a
/// factor of one (`VOLUME_UNITY`) leaves every sample as it is.
pub proof fn lemma_volume_reapplication(p: i16)
    ensures
        on_sample_scale(scaled(32767) as int) == 32112,
        on_sample_scale(scaled(32112) as int) == 31470,
        on_sample_scale(p * VOLUME_UNITY) == p,
{
    assert(32767 * 32112 == 1052213904);
    assert(32112 * 32112 == 1031180544);
    vstd::arithmetic::div_mod::lemma_fundamental_div_mod_converse_div(1052213904, 32767, 32112, 0);
    vstd::arithmetic::div_mod::lemma_fundamental_div_mod_converse_div(
        1031180544,
        32767,
        31470,
        3054,
    );
    vstd::arithmetic::div_mod::lemma_div_multiples_vanish(p as int, 32767);
    assert(p * VOLUME_UNITY == 32767 * p) by (nonlinear_arith);
}

} // verus!
