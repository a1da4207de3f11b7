//! The bounded queues that carry compressed frames between the audio tasks
//! and the session loop.
//!
//! A queue is an `embassy_sync` channel of fixed capacity. Senders on the
//! capture side never wait: when the queue is full the frame is dropped. The
//! playback side never waits either: an empty queue is reported so that the
//! caller can substitute silence.
use vstd::prelude::*;
use embassy_sync::blocking_mutex::raw::NoopRawMutex;
use embassy_sync::channel::{Channel, TryReceiveError, TrySendError};

verus! {

/// Number of compressed frames a queue holds.
pub const FRAME_QUEUE_CAPACITY: usize = 10;

/// A queue of compressed frames, oldest first, backed by an `embassy_sync`
/// channel. Verus cannot read the channel's declaration, so the channel sits
/// in an opaque field and is reached only through the wrappers below.
#[verifier::external_body]
pub struct FrameQueue {
    inner: Channel<NoopRawMutex, Vec<u8>, FRAME_QUEUE_CAPACITY>,
}

/// The frames a queue holds, oldest first.
pub uninterp spec fn queued_frames(q: FrameQueue) -> Seq<Seq<u8>>;

/// Relies on `Channel::new`: a new channel holds no message.
#[verifier::external_body]
fn channel_new() -> (q: FrameQueue)
    ensures
        queued_frames(q) == Seq::<Seq<u8>>::empty(),
{
    FrameQueue { inner: Channel::new() }
}

/// Relies on `Channel::try_send`: the message goes to the back of the deque
/// unless it already holds `N` messages, in which case it is handed back and
/// the channel is unchanged.
#[verifier::external_body]
fn channel_try_send(q: &mut FrameQueue, frame: Vec<u8>) -> (r: Result<(), Vec<u8>>)
    ensures
        queued_frames(*old(q)).len() < FRAME_QUEUE_CAPACITY ==> r is Ok && queued_frames(*final(q))
            == queued_frames(*old(q)).push(frame@),
        queued_frames(*old(q)).len() >= FRAME_QUEUE_CAPACITY ==> (r matches Err(back) && back
            == frame) && queued_frames(*final(q)) == queued_frames(*old(q)),
{
    match q.inner.try_send(frame) {
        Ok(()) => Ok(()),
        Err(TrySendError::Full(f)) => Err(f),
    }
}

/// Relies on `Channel::try_receive`: the front message is removed and
/// returned, or nothing happens when the channel is empty.
#[verifier::external_body]
fn channel_try_receive(q: &mut FrameQueue) -> (r: Option<Vec<u8>>)
    ensures
        queued_frames(*old(q)).len() > 0 ==> r is Some && r->0@ == queued_frames(*old(q))[0]
            && queued_frames(*final(q)) == queued_frames(*old(q)).drop_first(),
        queued_frames(*old(q)).len() == 0 ==> r is None && queued_frames(*final(q))
            == queued_frames(*old(q)),
{
    match q.inner.try_receive() {
        Ok(f) => Some(f),
        Err(TryReceiveError::Empty) => None,
    }
}

impl FrameQueue {
    /// An empty queue.
    pub fn new() -> (q: Self)
        ensures
            queued_frames(q) == Seq::<Seq<u8>>::empty(),
    {
        channel_new()
    }
}

/// Offers one frame without waiting: it is queued when there is room and
/// dropped otherwise. Returns whether it was kept.
pub fn offer_frame(q: &mut FrameQueue, frame: Vec<u8>) -> (kept: bool)
    ensures
        kept == (queued_frames(*old(q)).len() < FRAME_QUEUE_CAPACITY),
        kept ==> queued_frames(*final(q)) == queued_frames(*old(q)).push(frame@),
        !kept ==> queued_frames(*final(q)) == queued_frames(*old(q)),
{
    match channel_try_send(q, frame) {
        Ok(()) => true,
        Err(_) => false,
    }
}

/// How many of `offered` frames a queue holding `held` frames keeps.
pub open spec fn room_taken(held: int, offered: int) -> int {
    let room = if held < FRAME_QUEUE_CAPACITY {
        FRAME_QUEUE_CAPACITY - held
    } else {
        0
    };
    if offered < room {
        offered
    } else {
        room
    }
}

/// The queue contents after offering `frames` in order to a queue holding
/// `held`: the first frames fill the free slots, the rest are dropped.
pub open spec fn after_offers(held: Seq<Seq<u8>>, frames: Seq<Seq<u8>>) -> Seq<Seq<u8>> {
    held + frames.subrange(0, room_taken(held.len() as int, frames.len() as int))
}

/// Offers every frame in order without waiting, and returns how many were
/// dropped for want of room.
pub fn offer_all(q: &mut FrameQueue, frames: Vec<Vec<u8>>) -> (dropped: usize)
    ensures
        queued_frames(*final(q)) == after_offers(
            queued_frames(*old(q)),
            frames@.map_values(|f: Vec<u8>| f@),
        ),
        dropped == frames@.len() - room_taken(queued_frames(*old(q)).len() as int, frames@.len() as int),
{
    let ghost held = queued_frames(*q);
    let ghost views = frames@.map_values(|f: Vec<u8>| f@);
    let mut dropped: usize = 0;
    let mut i: usize = 0;
    let n: usize = frames.len();
    let mut rest = frames;
    while i < n
        invariant
            n == views.len(),
            i <= n,
            rest@.len() == n - i,
            forall|j: int| 0 <= j < rest@.len() ==> #[trigger] rest@[j]@ == views[i + j],
            queued_frames(*q) == after_offers(held, views.subrange(0, i as int)),
            dropped == i - room_taken(held.len() as int, i as int),
        decreases n - i,
    {
        let f = rest.remove(0);
        assert(f@ == views[i as int]);
        let ghost before = queued_frames(*q);
        let kept = offer_frame(q, f);
        proof {
            let taken = room_taken(held.len() as int, i as int);
            if held.len() + taken < FRAME_QUEUE_CAPACITY {
                assert(taken == i);
            }
            assert(views.subrange(0, i + 1).subrange(0, room_taken(held.len() as int, i + 1))
                =~= if kept {
                views.subrange(0, i as int).subrange(0, taken).push(views[i as int])
            } else {
                views.subrange(0, i as int).subrange(0, taken)
            });
        }
        if !kept {
            dropped = dropped + 1;
        }
        i = i + 1;
    }
    assert(views.subrange(0, n as int) =~= views);
    dropped
}

/// Takes the oldest frame without waiting; `None` when the queue is empty.
pub fn take_frame(q: &mut FrameQueue) -> (r: Option<Vec<u8>>)
    ensures
        queued_frames(*old(q)).len() > 0 ==> r is Some && r->0@ == queued_frames(*old(q))[0]
            && queued_frames(*final(q)) == queued_frames(*old(q)).drop_first(),
        queued_frames(*old(q)).len() == 0 ==> r is None && queued_frames(*final(q))
            == queued_frames(*old(q)),
{
    channel_try_receive(q)
}

/// Overflowing an empty queue: of `N` frames offered without waiting, where
/// `N` exceeds the capacity `C`, exactly the first `C` are kept, in the order
/// offered, and `N - C` are dropped.
pub proof fn lemma_overflow_keeps_first_in_order(frames: Seq<Seq<u8>>)
    requires
        frames.len() > FRAME_QUEUE_CAPACITY,
    ensures
        after_offers(Seq::empty(), frames) == frames.subrange(0, FRAME_QUEUE_CAPACITY as int),
        frames.len() - room_taken(0, frames.len() as int) == frames.len() - FRAME_QUEUE_CAPACITY,
{
    assert(Seq::<Seq<u8>>::empty() + frames.subrange(0, FRAME_QUEUE_CAPACITY as int)
        =~= frames.subrange(0, FRAME_QUEUE_CAPACITY as int));
}

} // verus!
