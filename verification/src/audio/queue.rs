//! The bounded queue of frames that waits in front of the mixer for each speaker.
use crossbeam::queue::ArrayQueue;
use vstd::prelude::*;

use crate::audio::{Frame, FRAME_SAMPLES};

verus! {

/// How many frames wait for one speaker at most: 160 ms.
pub const MAX_SPEAKER_QUEUE: usize = 8;

/// The bounded queue of `crossbeam`.
#[verifier::external_type_specification]
#[verifier::external_body]
#[verifier::reject_recursive_types(T)]
pub struct ExArrayQueue<T>(ArrayQueue<T>);

/// The frames in a queue, the oldest first.
pub uninterp spec fn queued(queue: ArrayQueue<Frame>) -> Seq<Seq<i16>>;

/// How many frames a queue was made for.
pub uninterp spec fn room(queue: ArrayQueue<Frame>) -> nat;

/// `ArrayQueue::new`: an empty queue with room for `capacity` frames. The call panics on a
/// capacity of zero or one that cannot be allocated.
#[verifier::external_body]
fn queue_new(capacity: usize) -> (queue: ArrayQueue<Frame>)
    requires
        0 < capacity <= 0xffff,
    ensures
        queued(queue).len() == 0,
        room(queue) == capacity,
{
    ArrayQueue::new(capacity)
}

/// `ArrayQueue::push`, with the queue to itself: the frame goes behind the others, unless the
/// queue is full; then the frame comes back and the queue stays as it is.
#[verifier::external_body]
fn queue_push(queue: &mut ArrayQueue<Frame>, frame: Frame) -> (pushed: Result<(), Frame>)
    ensures
        room(*final(queue)) == room(*old(queue)),
        match pushed {
            Ok(_) => queued(*old(queue)).len() < room(*old(queue)) && queued(*final(queue))
                == queued(*old(queue)).push(frame@),
            Err(back) => queued(*old(queue)).len() >= room(*old(queue)) && back@ == frame@
                && queued(*final(queue)) == queued(*old(queue)),
        },
{
    queue.push(frame)
}

/// `ArrayQueue::pop`, with the queue to itself: the oldest frame leaves an occupied queue.
#[verifier::external_body]
fn queue_pop(queue: &mut ArrayQueue<Frame>) -> (popped: Option<Frame>)
    ensures
        room(*final(queue)) == room(*old(queue)),
        match popped {
            Some(frame) => queued(*old(queue)).len() > 0 && frame@ == queued(*old(queue))[0]
                && queued(*final(queue)) == queued(*old(queue)).drop_first(),
            None => queued(*old(queue)).len() == 0 && queued(*final(queue)) == queued(
                *old(queue),
            ),
        },
{
    queue.pop()
}

/// The waiting frames after one more has come: a full queue loses its oldest frame.
pub open spec fn enqueued(frames: Seq<Seq<i16>>, frame: Seq<i16>) -> Seq<Seq<i16>> {
    if frames.len() < MAX_SPEAKER_QUEUE {
        frames.push(frame)
    } else {
        frames.drop_first().push(frame)
    }
}

/// The waiting frames after one has been taken.
pub open spec fn dequeued(frames: Seq<Seq<i16>>) -> Seq<Seq<i16>> {
    if frames.len() == 0 {
        frames
    } else {
        frames.drop_first()
    }
}

/// No more than eight frames, each of them complete.
pub open spec fn frames_wf(frames: Seq<Seq<i16>>) -> bool {
    &&& frames.len() <= MAX_SPEAKER_QUEUE
    &&& forall|i: int| 0 <= i < frames.len() ==> (#[trigger] frames[i]).len() == FRAME_SAMPLES
}

/// The frames that wait for one speaker.
#[derive(Debug)]
pub struct SpeakerQueue {
    frames: ArrayQueue<Frame>,
}

impl View for SpeakerQueue {
    type V = Seq<Seq<i16>>;

    closed spec fn view(&self) -> Seq<Seq<i16>> {
        queued(self.frames)
    }
}

impl SpeakerQueue {
    /// The queue has room for eight frames and holds no more, each of them complete.
    pub closed spec fn wf(&self) -> bool {
        &&& room(self.frames) == MAX_SPEAKER_QUEUE
        &&& frames_wf(queued(self.frames))
    }

    /// Starts without frames.
    pub fn new() -> (queue: Self)
        ensures
            queue.wf(),
            queue@ == Seq::<Seq<i16>>::empty(),
    {
        let queue = SpeakerQueue { frames: queue_new(MAX_SPEAKER_QUEUE) };
        assert(queue@ =~= Seq::empty());
        queue
    }

    /// Lets a frame wait; where the queue is full, the oldest frame is dropped.
    pub fn push(&mut self, frame: &Frame)
        requires
            old(self).wf(),
        ensures
            final(self).wf(),
            final(self)@ == enqueued(old(self)@, frame@),
    {
        match queue_push(&mut self.frames, *frame) {
            Ok(_) => {},
            Err(_) => {
                let _ = queue_pop(&mut self.frames);
                let _ = queue_push(&mut self.frames, *frame);
            },
        }
    }

    /// Takes the oldest frame.
    pub fn pop(&mut self) -> (frame: Option<Frame>)
        requires
            old(self).wf(),
        ensures
            final(self).wf(),
            final(self)@ == dequeued(old(self)@),
            match frame {
                Some(frame) => old(self)@.len() > 0 && frame@ == old(self)@[0],
                None => old(self)@.len() == 0,
            },
    {
        queue_pop(&mut self.frames)
    }
}

/// A queue never holds more than eight frames, nor an incomplete one.
pub proof fn law_queue_bounded(queue: SpeakerQueue)
    requires
        queue.wf(),
    ensures
        frames_wf(queue@),
{
}

/// The waiting frames after several have come, one after the other.
pub open spec fn enqueued_all(frames: Seq<Seq<i16>>, arrivals: Seq<Seq<i16>>) -> Seq<Seq<i16>>
    decreases arrivals.len(),
{
    if arrivals.len() == 0 {
        frames
    } else {
        enqueued(enqueued_all(frames, arrivals.drop_last()), arrivals.last())
    }
}

/// The last frames of a sequence, eight at most.
pub open spec fn latest(frames: Seq<Seq<i16>>) -> Seq<Seq<i16>> {
    if frames.len() <= MAX_SPEAKER_QUEUE {
        frames
    } else {
        frames.skip(frames.len() - MAX_SPEAKER_QUEUE)
    }
}

/// Whatever comes, the frames that wait are the latest ones, in the order in which they came.
pub proof fn law_latest_frames_wait(frames: Seq<Seq<i16>>, arrivals: Seq<Seq<i16>>)
    requires
        frames.len() <= MAX_SPEAKER_QUEUE,
    ensures
        enqueued_all(frames, arrivals) == latest(frames + arrivals),
    decreases arrivals.len(),
{
    if arrivals.len() == 0 {
        assert(frames + arrivals =~= frames);
    } else {
        law_latest_frames_wait(frames, arrivals.drop_last());
        assert((frames + arrivals).drop_last() =~= frames + arrivals.drop_last());
        assert(enqueued_all(frames, arrivals) =~= latest(frames + arrivals));
    }
}

/// A frame that comes stands last. As long as fewer than eight wait the others stay in their
/// places; of eight the oldest is gone and the others move up by one.
pub proof fn law_enqueued(frames: Seq<Seq<i16>>, frame: Seq<i16>)
    requires
        frames.len() <= 8,
    ensures
        enqueued(frames, frame).len() == (if frames.len() < 8 {
            frames.len() + 1
        } else {
            8
        }),
        enqueued(frames, frame)[enqueued(frames, frame).len() - 1] == frame,
        forall|i: int|
            0 <= i < frames.len() && frames.len() < 8 ==> #[trigger] enqueued(frames, frame)[i]
                == frames[i],
        forall|i: int|
            0 <= i < 7 && frames.len() == 8 ==> #[trigger] enqueued(frames, frame)[i]
                == frames[i + 1],
{
}

/// Taking a frame leaves the others in their order; of none nothing is taken.
pub proof fn law_dequeued(frames: Seq<Seq<i16>>)
    ensures
        frames.len() == 0 ==> dequeued(frames).len() == 0,
        frames.len() > 0 ==> dequeued(frames).len() == frames.len() - 1,
        forall|i: int|
            0 <= i < frames.len() - 1 ==> #[trigger] dequeued(frames)[i] == frames[i + 1],
{
}

/// What comes in comes out in its order: after `n` frames have come into an empty queue, and no
/// more than eight, the next to be taken is the first that came.
pub proof fn law_first_in_first_out(arrivals: Seq<Seq<i16>>)
    requires
        0 < arrivals.len() <= 8,
    ensures
        enqueued_all(Seq::empty(), arrivals) == arrivals,
        dequeued(enqueued_all(Seq::empty(), arrivals)) == arrivals.drop_first(),
{
    law_latest_frames_wait(Seq::empty(), arrivals);
    assert(Seq::<Seq<i16>>::empty() + arrivals =~= arrivals);
}

} // verus!
