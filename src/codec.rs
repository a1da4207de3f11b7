//! The capture and playback pipelines between the audio peripheral, the
//! compressed-audio codec and the frame queues.
//!
//! Capture: each chunk popped from the peripheral is reformatted, appended
//! to the pending samples, and every whole PCM frame is handed out for
//! encoding; the encoded frame is then offered to the outbound queue without
//! waiting.
//!
//! Playback: the oldest inbound frame, or an empty input on underrun, is
//! handed to the decoder; the decoded samples are rendered to bytes and
//! pushed to the peripheral until all of them are accepted.
use vstd::prelude::*;
use vstd::slice::slice_subrange;
use crate::pcm::{
    capture_samples, frames_then_rest, lemma_frames_then_rest_split, lemma_left_channel_append,
    lemma_whole_pairs_append, left_channel, pair_tail, playback_bytes, whole_pairs,
    FrameAssembler, FRAME_SAMPLES, PLAYBACK_BYTES_PER_SAMPLE, STEREO_PAIR_BYTES,
};
use crate::queue::{queued_frames, take_frame, FrameQueue};

verus! {

/// What the capture peripheral can report instead of data.
#[derive(Clone, Copy, Debug, PartialEq, Eq, Structural)]
pub enum CaptureFault {
    /// A transfer completed late; the chunk is lost but the stream goes on.
    Late,
    /// The transfer buffer is too small for the configured descriptors.
    BufferTooSmall,
    /// Any other peripheral error.
    Other,
}

impl CaptureFault {
    /// Whether the capture loop has to stop. Late transfers and an undersized
    /// buffer are reported and the loop goes on; anything else ends it.
    pub fn is_fatal(&self) -> (r: bool)
        ensures
            r == (*self == CaptureFault::Other),
    {
        match self {
            CaptureFault::Other => true,
            _ => false,
        }
    }
}

/// The capture side between the peripheral and the encoder.
///
/// A chunk popped from the peripheral may end anywhere, even inside a word
/// or between the left and right word of a pair. The bytes after the last
/// whole stereo pair are carried over to the next chunk, so that the samples
/// handed out over any number of chunks are exactly the left channel of
/// everything captured, in order.
pub struct CapturePipeline {
    assembler: FrameAssembler,
    carry: Vec<u8>,
    captured: Ghost<Seq<u8>>,
    emitted: Ghost<Seq<i16>>,
}

impl CapturePipeline {
    /// Narrowed samples not yet part of a whole frame.
    pub closed spec fn pending(&self) -> Seq<i16> {
        self.assembler.pending()
    }

    /// Every byte captured so far.
    pub closed spec fn captured(&self) -> Seq<u8> {
        self.captured@
    }

    /// The samples of every frame handed out so far, in order.
    pub closed spec fn emitted(&self) -> Seq<i16> {
        self.emitted@
    }

    /// Captured bytes after the last whole stereo pair.
    pub closed spec fn carry(&self) -> Seq<u8> {
        self.carry@
    }

    #[verifier::type_invariant]
    spec fn follows_the_stream(&self) -> bool {
        &&& self.carry@ == pair_tail(self.captured@)
        &&& self.emitted@ + self.assembler.pending() == left_channel(whole_pairs(self.captured@))
    }

    pub fn new() -> (r: Self)
        ensures
            r.pending() == Seq::<i16>::empty(),
            r.captured() == Seq::<u8>::empty(),
            r.emitted() == Seq::<i16>::empty(),
            r.carry() == Seq::<u8>::empty(),
    {
        let assembler = FrameAssembler::new();
        assert(whole_pairs(Seq::<u8>::empty()) =~= Seq::<u8>::empty());
        assert(left_channel(Seq::<u8>::empty()) =~= Seq::<i16>::empty());
        assert(pair_tail(Seq::<u8>::empty()) =~= Seq::<u8>::empty());
        assert(Seq::<i16>::empty() + Seq::<i16>::empty() =~= Seq::<i16>::empty());
        CapturePipeline {
            assembler,
            carry: Vec::new(),
            captured: Ghost(Seq::empty()),
            emitted: Ghost(Seq::empty()),
        }
    }

    /// Takes the next chunk of raw capture bytes and returns the PCM frames
    /// that are now complete, oldest first, each of `FRAME_SAMPLES` samples.
    /// The chunk continues the bytes carried over from earlier chunks.
    pub fn process(&mut self, raw: &[u8]) -> (frames: Vec<Vec<i16>>)
        ensures
            final(self).captured() == old(self).captured() + raw@,
            final(self).carry() == pair_tail(old(self).carry() + raw@),
            final(self).carry().len() < STEREO_PAIR_BYTES,
            final(self).pending().len() < FRAME_SAMPLES,
            forall|i: int|
                0 <= i < frames@.len() ==> #[trigger] frames@[i]@.len() == FRAME_SAMPLES,
            frames_then_rest(frames@.map_values(|f: Vec<i16>| f@), final(self).pending())
                == old(self).pending() + left_channel(whole_pairs(old(self).carry() + raw@)),
            final(self).emitted() == old(self).emitted() + frames_then_rest(
                frames@.map_values(|f: Vec<i16>| f@),
                Seq::empty(),
            ),
            final(self).emitted() + final(self).pending() == left_channel(
                whole_pairs(final(self).captured()),
            ),
    {
        let mut current = CapturePipeline::new();
        std::mem::swap(&mut current, self);
        proof {
            use_type_invariant(&current);
        }
        let CapturePipeline { mut assembler, carry, captured, emitted } = current;
        let mut combined: Vec<u8> = carry;
        combined.extend_from_slice(raw);
        let ghost c2 = old(self).carry() + raw@;
        assert(combined@ =~= c2);
        let whole: usize = combined.len() / STEREO_PAIR_BYTES * STEREO_PAIR_BYTES;
        let samples = capture_samples(slice_subrange(combined.as_slice(), 0, whole));
        assert(combined@.subrange(0, whole as int) =~= whole_pairs(c2));
        let tail = combined.split_off(whole);
        let ghost old_pending = assembler.pending();
        assert(old_pending == old(self).pending());
        let frames = assembler.push_samples(samples.as_slice());
        let ghost views = frames@.map_values(|f: Vec<i16>| f@);
        let ghost new_emitted = old(self).emitted() + frames_then_rest(views, Seq::empty());
        let ghost new_captured = old(self).captured() + raw@;
        proof {
            let cap = old(self).captured();
            lemma_whole_pairs_append(cap, raw@);
            lemma_left_channel_append(whole_pairs(cap), whole_pairs(c2));
            lemma_frames_then_rest_split(views, assembler.pending());
            assert(whole as int == crate::pcm::pair_bytes(c2));
            assert(tail@ =~= pair_tail(c2));
            assert(carry@ == pair_tail(cap));
            assert(tail@ == pair_tail(new_captured));
            assert(samples@ == left_channel(whole_pairs(c2)));
            assert(new_emitted + assembler.pending() =~= old(self).emitted() + (old_pending
                + left_channel(whole_pairs(c2))));
            assert(old(self).emitted() + old_pending == left_channel(whole_pairs(cap)));
            assert(new_emitted + assembler.pending() =~= left_channel(whole_pairs(cap))
                + left_channel(whole_pairs(c2)));
            assert(new_emitted + assembler.pending() == left_channel(whole_pairs(new_captured)));
        }
        *self = CapturePipeline {
            assembler,
            carry: tail,
            captured: Ghost(new_captured),
            emitted: Ghost(new_emitted),
        };
        frames
    }
}

/// What the decoder is given next: the oldest inbound frame, or an empty
/// input when none is waiting, which makes the codec synthesise a
/// continuation instead of letting the speaker starve. Never waits.
pub fn playback_input(q: &mut FrameQueue) -> (r: Vec<u8>)
    ensures
        queued_frames(*old(q)).len() > 0 ==> r@ == queued_frames(*old(q))[0] && queued_frames(
            *final(q),
        ) == queued_frames(*old(q)).drop_first(),
        queued_frames(*old(q)).len() == 0 ==> r@ == Seq::<u8>::empty() && queued_frames(*final(q))
            == queued_frames(*old(q)),
{
    match take_frame(q) {
        Some(frame) => frame,
        None => Vec::new(),
    }
}

/// Bytes on their way to the playback peripheral, which accepts a varying
/// amount per call: the cursor tracks how much has been accepted so far.
pub struct SinkCursor {
    data: Vec<u8>,
    pos: usize,
}

impl SinkCursor {
    /// Everything to be pushed.
    pub closed spec fn data(&self) -> Seq<u8> {
        self.data@
    }

    /// How many bytes the peripheral has accepted.
    pub closed spec fn accepted(&self) -> nat {
        self.pos as nat
    }

    #[verifier::type_invariant]
    spec fn accepted_within_data(&self) -> bool {
        self.pos <= self.data@.len()
    }

    /// The bytes the peripheral has received, in order.
    pub open spec fn delivered(&self) -> Seq<u8> {
        self.data().subrange(0, self.accepted() as int)
    }

    pub fn new(data: Vec<u8>) -> (r: Self)
        ensures
            r.data() == data@,
            r.accepted() == 0,
    {
        SinkCursor { data, pos: 0 }
    }

    /// The bytes still to push.
    pub fn remaining(&self) -> (r: &[u8])
        ensures
            self.accepted() <= self.data().len(),
            r@ == self.data().subrange(self.accepted() as int, self.data().len() as int),
    {
        proof {
            use_type_invariant(self);
        }
        slice_subrange(self.data.as_slice(), self.pos, self.data.len())
    }

    /// Whether every byte has been accepted.
    pub fn is_done(&self) -> (r: bool)
        ensures
            r == (self.accepted() == self.data().len()),
            r ==> self.delivered() == self.data(),
    {
        proof {
            use_type_invariant(self);
            assert(self.data().subrange(0, self.data().len() as int) =~= self.data());
        }
        self.pos == self.data.len()
    }

    /// Records that the peripheral accepted the first `n` remaining bytes:
    /// what it has received grows by exactly those bytes, with no gap and no
    /// repetition.
    pub fn advance(&mut self, n: usize)
        requires
            old(self).accepted() + n <= old(self).data().len(),
        ensures
            final(self).data() == old(self).data(),
            final(self).accepted() == old(self).accepted() + n,
            final(self).delivered() == old(self).delivered() + old(self).data().subrange(
                old(self).accepted() as int,
                old(self).accepted() + n,
            ),
    {
        proof {
            use_type_invariant(&*self);
        }
        let total = self.data.len();
        assert(self.pos + n <= total);
        self.pos = self.pos + n;
        assert(self.delivered() =~= old(self).delivered() + old(self).data().subrange(
            old(self).accepted() as int,
            old(self).accepted() + n,
        ));
    }
}

/// Bytes rendered for the peripheral over rounds that decoded `pcms`, one
/// decoded frame per round, in order.
pub open spec fn pushed_over_rounds(pcms: Seq<Seq<i16>>) -> int
    decreases pcms.len(),
{
    if pcms.len() == 0 {
        0
    } else {
        pushed_over_rounds(pcms.drop_last()) + playback_bytes(pcms.last()).len()
    }
}

/// Whatever mix of received frames and underrun rounds (an empty input that
/// the codec turns into a continuation frame) came before, each round renders
/// one whole decoded frame, so after `k` rounds exactly
/// `PLAYBACK_BYTES_PER_SAMPLE * FRAME_SAMPLES * k` bytes have been rendered:
/// the count only grows, and by the same amount every round.
pub proof fn lemma_rounds_push_whole_frames(pcms: Seq<Seq<i16>>)
    requires
        forall|i: int| 0 <= i < pcms.len() ==> #[trigger] pcms[i].len() == FRAME_SAMPLES,
    ensures
        pushed_over_rounds(pcms) == PLAYBACK_BYTES_PER_SAMPLE * FRAME_SAMPLES * pcms.len(),
    decreases pcms.len(),
{
    if pcms.len() > 0 {
        let prefix = pcms.drop_last();
        assert forall|i: int| 0 <= i < prefix.len() implies #[trigger] prefix[i].len()
            == FRAME_SAMPLES by {
            assert(prefix[i] == pcms[i]);
        }
        lemma_rounds_push_whole_frames(prefix);
        assert(pcms.last() == pcms[pcms.len() - 1]);
    }
}

} // verus!
