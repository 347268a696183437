//! What each listener is sent: the sum of the voices that the listener hears, and of no others.
//!
//! Listeners who hear the same voices share a mix.
use std::collections::HashSet;
use vstd::prelude::*;

use crate::audio::mix;
use crate::audio::routing;
use crate::audio::routing::{RoutingSnapshot, RoutingView};
use crate::audio::Frame;
use crate::lists;

verus! {

/// One mix, and the clients that it is whispered to.
#[derive(Debug)]
pub struct GroupMix {
    pub samples: Frame,
    /// The clients whose voices are in it.
    pub speakers: Vec<u16>,
    pub recipients: Vec<u16>,
}

/// The items of a list that are marked, in their order.
pub open spec fn chosen<A>(items: Seq<A>, marks: Seq<bool>) -> Seq<A>
    decreases items.len(),
{
    if items.len() == 0 {
        Seq::empty()
    } else {
        let rest = chosen(items.drop_last(), marks);
        if marks[items.len() - 1] {
            rest.push(items.last())
        } else {
            rest
        }
    }
}

/// The client ids of speakers.
pub open spec fn speaker_ids(speakers: Seq<(u16, String)>) -> Seq<u16> {
    Seq::new(speakers.len(), |i: int| speakers[i].0)
}

/// The contents of frames.
pub open spec fn frame_views(frames: Seq<Frame>) -> Seq<Seq<i16>> {
    Seq::new(frames.len(), |i: int| frames[i]@)
}

/// Which of several speakers a client hears.
pub open spec fn heard(
    routing: RoutingView,
    speakers: Seq<(u16, String)>,
    near: Seq<Vec<String>>,
    client_id: u16,
) -> Seq<bool> {
    Seq::new(
        speakers.len(),
        |i: int| routing.hears(speakers[i].1@, routing::near_of(near, i), client_id),
    )
}

/// The frame that a client is sent: the sum of the frames of those speakers that it hears.
pub open spec fn sent_frame(
    routing: RoutingView,
    speakers: Seq<(u16, String)>,
    frames: Seq<Seq<i16>>,
    near: Seq<Vec<String>>,
    client_id: u16,
) -> Seq<i16> {
    mix::mixed(chosen(frames, heard(routing, speakers, near, client_id)))
}

/// A client is sent the mix with index `k`.
pub open spec fn is_sent(mixes: Seq<GroupMix>, k: int, client_id: u16) -> bool {
    0 <= k < mixes.len() && mixes[k].recipients@.contains(client_id)
}

/// `list` holds the clients that are sent a mix, each once.
pub open spec fn lists_sent(list: Seq<u16>, mixes: Seq<GroupMix>) -> bool {
    &&& list.no_duplicates()
    &&& forall|c: u16| #[trigger] list.contains(c) <==> exists|k: int| is_sent(mixes, k, c)
}

/// Every client that receives anything is sent exactly one mix, of the voices that it hears.
pub open spec fn relays(
    mixes: Seq<GroupMix>,
    routing: RoutingView,
    speakers: Seq<(u16, String)>,
    frames: Seq<Seq<i16>>,
    near: Seq<Vec<String>>,
    speaking: Set<u16>,
) -> bool {
    &&& forall|k: int|
        0 <= k < mixes.len() ==> (#[trigger] mixes[k]).recipients@.len() > 0
            && mixes[k].recipients@.no_duplicates()
    &&& forall|k: int, c: u16| #[trigger]
        is_sent(mixes, k, c) ==> {
            &&& routing.receives(speakers, near, speaking, speakers.len() as int, c)
            &&& mixes[k].samples@ == sent_frame(routing, speakers, frames, near, c)
            &&& mixes[k].speakers@ == chosen(
                speaker_ids(speakers),
                heard(routing, speakers, near, c),
            )
        }
    &&& forall|c: u16| #[trigger]
        routing.receives(speakers, near, speaking, speakers.len() as int, c) ==> exists|k: int|
            is_sent(mixes, k, c)
    &&& forall|j: int, k: int, c: u16| #[trigger]
        is_sent(mixes, j, c) && #[trigger] is_sent(mixes, k, c) ==> j == k
}

/// Whether a list holds a client.
fn holds(list: &Vec<u16>, client_id: u16) -> (found: bool)
    ensures
        found == list@.contains(client_id),
{
    let mut i: usize = 0;
    while i < list.len()
        invariant
            i <= list@.len(),
            forall|j: int| 0 <= j < i ==> list@[j] != client_id,
        decreases list.len() - i,
    {
        if list[i] == client_id {
            assert(list@[i as int] == client_id);
            return true;
        }
        i += 1;
    }
    false
}

/// Which of several lists hold a client.
fn marks_of(lists: &Vec<Vec<u16>>, client_id: u16) -> (marks: Vec<bool>)
    ensures
        marks@.len() == lists@.len(),
        forall|i: int| 0 <= i < lists@.len() ==> #[trigger] marks@[i] == lists@[i]@.contains(client_id),
{
    let mut marks: Vec<bool> = Vec::new();
    let mut i: usize = 0;
    while i < lists.len()
        invariant
            i <= lists@.len(),
            marks@.len() == i,
            forall|j: int| 0 <= j < i ==> #[trigger] marks@[j] == lists@[j]@.contains(client_id),
        decreases lists.len() - i,
    {
        marks.push(holds(&lists[i], client_id));
        i += 1;
    }
    marks
}

fn same_marks(a: &Vec<bool>, b: &Vec<bool>) -> (same: bool)
    ensures
        same == (a@ == b@),
{
    if a.len() != b.len() {
        return false;
    }
    let mut i: usize = 0;
    while i < a.len()
        invariant
            i <= a@.len(),
            a@.len() == b@.len(),
            forall|j: int| 0 <= j < i ==> a@[j] == b@[j],
        decreases a.len() - i,
    {
        if a[i] != b[i] {
            return false;
        }
        i += 1;
    }
    assert(a@ =~= b@);
    true
}

/// Adds the marked frames, in their order.
fn mix_chosen(frames: &Vec<Frame>, marks: &Vec<bool>) -> (samples: Frame)
    requires
        marks@.len() == frames@.len(),
    ensures
        samples@ == mix::mixed(chosen(frame_views(frames@), marks@)),
{
    let mut samples: Frame = mix::silent_frame();
    let ghost all = frame_views(frames@);
    assert(all.take(0) =~= Seq::empty());
    let mut i: usize = 0;
    while i < frames.len()
        invariant
            i <= frames@.len(),
            marks@.len() == frames@.len(),
            all == frame_views(frames@),
            samples@ == mix::mixed(chosen(all.take(i as int), marks@)),
        decreases frames.len() - i,
    {
        let ghost before = chosen(all.take(i as int), marks@);
        assert(all.take(i + 1).drop_last() =~= all.take(i as int));
        if marks[i] {
            mix::add_frame(&mut samples, &frames[i]);
            assert(before.push(all[i as int]).drop_last() =~= before);
        }
        i += 1;
    }
    assert(all.take(i as int) =~= all);
    samples
}

/// The client ids of the marked speakers, in their order.
fn chosen_ids(speakers: &Vec<(u16, String)>, marks: &Vec<bool>) -> (ids: Vec<u16>)
    requires
        marks@.len() == speakers@.len(),
    ensures
        ids@ == chosen(speaker_ids(speakers@), marks@),
{
    let mut ids: Vec<u16> = Vec::new();
    let ghost all = speaker_ids(speakers@);
    assert(all.take(0) =~= Seq::empty());
    let mut i: usize = 0;
    while i < speakers.len()
        invariant
            i <= speakers@.len(),
            marks@.len() == speakers@.len(),
            all == speaker_ids(speakers@),
            ids@ == chosen(all.take(i as int), marks@),
        decreases speakers.len() - i,
    {
        assert(all.take(i + 1).drop_last() =~= all.take(i as int));
        if marks[i] {
            ids.push(speakers[i].0);
        }
        i += 1;
    }
    assert(all.take(i as int) =~= all);
    ids
}

/// The mixes that have the voices of their marks in them, and their recipients among the first `n`
/// of a list.
spec fn grouped(
    mixes: Seq<GroupMix>,
    keys: Seq<Vec<bool>>,
    speakers: Seq<(u16, String)>,
    frames: Seq<Seq<i16>>,
    lists: Seq<Vec<u16>>,
    recipients: Seq<u16>,
    n: int,
) -> bool {
    &&& keys.len() == mixes.len()
    &&& forall|k: int|
        0 <= k < mixes.len() ==> {
            &&& (#[trigger] mixes[k]).recipients@.len() > 0
            &&& mixes[k].recipients@.no_duplicates()
            &&& keys[k]@.len() == speakers.len()
            &&& mixes[k].samples@ == mix::mixed(chosen(frames, keys[k]@))
            &&& mixes[k].speakers@ == chosen(speaker_ids(speakers), keys[k]@)
        }
    &&& forall|k: int, c: u16| #[trigger]
        is_sent(mixes, k, c) ==> {
            &&& recipients.take(n).contains(c)
            &&& forall|i: int|
                0 <= i < speakers.len() ==> #[trigger] keys[k]@[i] == lists[i]@.contains(c)
        }
    &&& forall|c: u16| #[trigger]
        recipients.take(n).contains(c) ==> exists|k: int| is_sent(mixes, k, c)
    &&& forall|j: int, k: int, c: u16| #[trigger]
        is_sent(mixes, j, c) && #[trigger] is_sent(mixes, k, c) ==> j == k
}

/// Makes the mixes for the recipients: those who are held by the same lists share one. `lists`
/// holds the listeners of each speaker.
fn group(
    speakers: &Vec<(u16, String)>,
    frames: &Vec<Frame>,
    lists: &Vec<Vec<u16>>,
    recipients: &Vec<u16>,
) -> (grouping: (Vec<GroupMix>, Ghost<Seq<Vec<bool>>>))
    requires
        frames@.len() == speakers@.len(),
        lists@.len() == speakers@.len(),
        recipients@.no_duplicates(),
    ensures
        grouped(
            grouping.0@,
            grouping.1@,
            speakers@,
            frame_views(frames@),
            lists@,
            recipients@,
            recipients@.len() as int,
        ),
{
    let mut mixes: Vec<GroupMix> = Vec::new();
    let mut keys: Vec<Vec<bool>> = Vec::new();
    let mut n: usize = 0;
    while n < recipients.len()
        invariant
            n <= recipients@.len(),
            frames@.len() == speakers@.len(),
            lists@.len() == speakers@.len(),
            recipients@.no_duplicates(),
            grouped(
                mixes@,
                keys@,
                speakers@,
                frame_views(frames@),
                lists@,
                recipients@,
                n as int,
            ),
        decreases recipients.len() - n,
    {
        let client_id: u16 = recipients[n];
        let marks = marks_of(lists, client_id);
        let ghost before = mixes@;
        proof {
            lists::lemma_take(recipients@, n as int);
            assert forall|k: int| !is_sent(before, k, client_id) by {}
        }
        let mut k: usize = 0;
        while k < keys.len() && !same_marks(&keys[k], &marks)
            invariant
                k <= keys@.len(),
            ensures
                k <= keys@.len(),
                k < keys@.len() ==> keys@[k as int]@ == marks@,
            decreases keys.len() - k,
        {
            k += 1;
        }
        if k < keys.len() {
            mixes[k].recipients.push(client_id);
            proof {
                assert(!is_sent(before, k as int, client_id));
                lists::lemma_push(before[k as int].recipients@, client_id);
                assert forall|j: int, c: u16| #[trigger] is_sent(mixes@, j, c) <==> is_sent(
                    before,
                    j,
                    c,
                ) || (j == k && c == client_id) by {}
            }
        } else {
            let mut only: Vec<u16> = Vec::new();
            only.push(client_id);
            mixes.push(
                GroupMix {
                    samples: mix_chosen(frames, &marks),
                    speakers: chosen_ids(speakers, &marks),
                    recipients: only,
                },
            );
            keys.push(marks);
            proof {
                assert(only@[0] == client_id);
                assert forall|j: int, c: u16| #[trigger] is_sent(mixes@, j, c) <==> is_sent(
                    before,
                    j,
                    c,
                ) || (j == k && c == client_id) by {
                    if j == k && is_sent(mixes@, j, c) {
                        assert(mixes@[j].recipients@ == only@);
                    }
                    if 0 <= j < before.len() {
                        assert(mixes@[j] == before[j]);
                    }
                }
            }
        }
        assert forall|c: u16| #[trigger] recipients@.take(n + 1).contains(c) implies exists|j: int|
            is_sent(mixes@, j, c) by {
            if c == client_id {
                assert(is_sent(mixes@, k as int, c));
            } else {
                assert(recipients@.take(n as int).contains(c));
                let j = choose|j: int| is_sent(before, j, c);
                assert(is_sent(mixes@, j, c));
            }
        }
        n += 1;
    }
    (mixes, Ghost(keys@))
}

/// The client ids of speakers, in their order.
pub fn ids_of(speakers: &Vec<(u16, String)>) -> (ids: Vec<u16>)
    ensures
        ids@ == speaker_ids(speakers@),
{
    let mut ids: Vec<u16> = Vec::new();
    let mut i: usize = 0;
    while i < speakers.len()
        invariant
            i <= speakers@.len(),
            ids@ == speaker_ids(speakers@).take(i as int),
        decreases speakers.len() - i,
    {
        ids.push(speakers[i].0);
        assert(ids@ =~= speaker_ids(speakers@).take(i + 1));
        i += 1;
    }
    assert(ids@ =~= speaker_ids(speakers@));
    ids
}

/// Adds all frames, in their order.
pub fn mix_all(frames: &Vec<Frame>) -> (samples: Frame)
    ensures
        samples@ == mix::mixed(frame_views(frames@)),
{
    let mut samples: Frame = mix::silent_frame();
    let ghost all = frame_views(frames@);
    assert(all.take(0) =~= Seq::empty());
    let mut i: usize = 0;
    while i < frames.len()
        invariant
            i <= frames@.len(),
            all == frame_views(frames@),
            samples@ == mix::mixed(all.take(i as int)),
        decreases frames.len() - i,
    {
        assert(all.take(i + 1).drop_last() =~= all.take(i as int));
        mix::add_frame(&mut samples, &frames[i]);
        i += 1;
    }
    assert(all.take(i as int) =~= all);
    samples
}

/// Makes the mixes for all who listen, and lists those listeners, each once.
pub fn relay_voices(
    routing: &RoutingSnapshot,
    speakers: &Vec<(u16, String)>,
    frames: &Vec<Frame>,
    near: &Vec<Vec<String>>,
    speaking: &HashSet<u16>,
) -> (relayed: (Vec<GroupMix>, Vec<u16>))
    requires
        frames@.len() == speakers@.len(),
        routing.force_whisper_client_id is None,
    ensures
        relays(
            relayed.0@,
            routing@,
            speakers@,
            frame_views(frames@),
            near@,
            speaking@,
        ),
        lists_sent(relayed.1@, relayed.0@),
{
    let recipients = routing::compute_recipients(speakers, speaking, routing, near);
    let lists = routing.listener_lists(speakers, near);
    let (mixes, keys) = group(speakers, frames, &lists, &recipients);
    proof {
        assert(recipients@.take(recipients@.len() as int) =~= recipients@);
        assert forall|k: int, c: u16| #[trigger] is_sent(mixes@, k, c) implies keys@[k]@ == heard(
            routing@,
            speakers@,
            near@,
            c,
        ) by {
            assert(mixes@[k].recipients@.len() > 0);
            assert forall|i: int| 0 <= i < speakers@.len() implies #[trigger] keys@[k]@[i] == heard(
                routing@,
                speakers@,
                near@,
                c,
            )[i] by {
                assert(keys@[k]@[i] == lists@[i]@.contains(c));
            }
            assert(keys@[k]@ =~= heard(routing@, speakers@, near@, c));
        }
        assert forall|k: int, c: u16| #[trigger] is_sent(mixes@, k, c) implies {
            &&& routing@.receives(speakers@, near@, speaking@, speakers@.len() as int, c)
            &&& mixes@[k].samples@ == sent_frame(
                routing@,
                speakers@,
                frame_views(frames@),
                near@,
                c,
            )
        } by {
            assert(mixes@[k].recipients@.len() > 0);
            assert(recipients@.contains(c));
        }
        assert forall|c: u16| #[trigger]
            routing@.receives(
                speakers@,
                near@,
                speaking@,
                speakers@.len() as int,
                c,
            ) implies exists|k: int| is_sent(mixes@, k, c) by {
            assert(recipients@.contains(c));
        }
        assert forall|c: u16| #[trigger] recipients@.contains(c) <==> exists|k: int|
            is_sent(mixes@, k, c) by {
            assert(recipients@.take(recipients@.len() as int).contains(c) == recipients@.contains(c));
        }
    }
    (mixes, recipients)
}

} // verus!
