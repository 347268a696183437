//! The mixer: what it knows between ticks, and what it does on each of them.
//!
//! The loop that runs it reads packets, decodes and encodes, shapes the signal and keeps time; on
//! the way it asks the functions below what to do.
use rustc_hash::FxHashMap;
use std::collections::HashSet;
use vstd::prelude::*;

use crate::audio::effects::{RadioNoise, SidetoneGenerator, SidetoneSound};
use crate::audio::mix;
use crate::audio::queue;
use crate::audio::queue::SpeakerQueue;
use crate::audio::relay;
use crate::audio::relay::GroupMix;
use crate::audio::routing;
use crate::audio::routing::{RoutingSnapshot, RoutingView, Sphere};
use crate::audio::Frame;
use crate::fx_map;
use crate::lists;
use crate::number::Single;

verus! {

/// After how many ticks inactive speakers are dropped: about five seconds.
pub const CLEANUP_INTERVAL_TICKS: usize = 250;

/// How long a speaker stays without sound, in nanoseconds: ten seconds.
pub const INACTIVE_TIMEOUT_NS: u64 = 10_000_000_000;

/// A packet on its way in: client id and Opus data.
pub type MixerInput = (u16, Vec<u8>);

/// A packet on its way out: Opus data and the clients that it is whispered to.
pub type MixerOutput = (Vec<u8>, Vec<u16>);

/// One speaker.
#[derive(Debug)]
pub struct Speaker {
    pub queue: SpeakerQueue,
    /// When sound last came in, in nanoseconds of a monotonic clock.
    pub last_active: u64,
    /// The UID of the speaker.
    pub uid: String,
}

/// One speaker as a mathematical value.
pub struct SpeakerView {
    pub frames: Seq<Seq<i16>>,
    pub last_active: u64,
    pub uid: Seq<char>,
}

impl View for Speaker {
    type V = SpeakerView;

    open spec fn view(&self) -> SpeakerView {
        SpeakerView {
            frames: self.queue@,
            last_active: self.last_active,
            uid: self.uid@,
        }
    }
}

/// The speakers of a dictionary.
pub open spec fn speaker_views(m: FxHashMap<u16, Speaker>) -> Map<u16, SpeakerView> {
    fx_map::keyed(m).map_values(|s: Speaker| s@)
}

/// The texts of a dictionary.
pub open spec fn text_views(m: FxHashMap<u16, String>) -> Map<u16, Seq<char>> {
    fx_map::keyed(m).map_values(|s: String| s@)
}

/// What happens to an incoming packet.
#[derive(Debug, Clone, Copy, PartialEq, Eq, Structural)]
pub enum Reception {
    /// The UID of the client is not known: the packet is dropped.
    Unresolved,
    /// The client has not spoken yet and needs a decoder.
    NewSpeaker,
    /// The client has a decoder.
    Ready,
}

/// What the mixer knows between ticks.
#[derive(Debug)]
pub struct MixerState {
    speakers: FxHashMap<u16, Speaker>,
    routing: Option<RoutingSnapshot>,
    client_id_to_uid: FxHashMap<u16, String>,
    prev_active_set: HashSet<u16>,
    sidetone_tracks: FxHashMap<u16, SidetoneGenerator>,
    listeners: Vec<u16>,
    tick_count: usize,
}

/// What the mixer knows between ticks, as a mathematical value.
#[verifier::ext_equal]
pub struct MixerView {
    pub speakers: Map<u16, SpeakerView>,
    pub routing: Option<RoutingView>,
    pub uids: Map<u16, Seq<char>>,
    pub prev_active: Set<u16>,
    pub sidetones: Map<u16, SidetoneGenerator>,
    /// The clients that the last voices were sent to.
    pub listeners: Set<u16>,
    pub tick_count: nat,
}

impl View for MixerState {
    type V = MixerView;

    closed spec fn view(&self) -> MixerView {
        MixerView {
            speakers: speaker_views(self.speakers),
            routing: match self.routing {
                Some(routing) => Some(routing@),
                None => None,
            },
            uids: text_views(self.client_id_to_uid),
            prev_active: self.prev_active_set@,
            sidetones: fx_map::keyed(self.sidetone_tracks),
            listeners: self.listeners@.to_set(),
            tick_count: self.tick_count as nat,
        }
    }
}

/// `uids` is `ids` turned round: it holds the clients that UIDs resolve to, each with a UID that
/// resolves to it.
pub open spec fn reverses(uids: Map<u16, Seq<char>>, ids: Map<Seq<char>, u16>) -> bool {
    &&& forall|uid: Seq<char>| #[trigger] ids.contains_key(uid) ==> uids.contains_key(ids[uid])
    &&& forall|client_id: u16| #[trigger]
        uids.contains_key(client_id) ==> ids.contains_key(uids[client_id]) && ids[uids[client_id]]
            == client_id
}

/// No speaker has more than eight frames waiting, nor an incomplete one.
pub open spec fn speakers_wf(speakers: Map<u16, SpeakerView>) -> bool {
    forall|client_id: u16| #[trigger]
        speakers.contains_key(client_id) ==> queue::frames_wf(speakers[client_id].frames)
}

impl MixerView {
    /// Client ids are resolved from the last routing data; before the first there is nothing.
    pub open spec fn linked(self) -> bool {
        match self.routing {
            Some(routing) => reverses(self.uids, routing.ids),
            None => {
                &&& self.uids == Map::<u16, Seq<char>>::empty()
                &&& self.speakers == Map::<u16, SpeakerView>::empty()
                &&& self.sidetones == Map::<u16, SidetoneGenerator>::empty()
                &&& self.prev_active == Set::<u16>::empty()
                &&& self.listeners == Set::<u16>::empty()
            },
        }
    }

    /// What holds of a mixer between any two calls: queues are in order, ticks are counted below
    /// the cleanup interval, and client ids are resolved from the last routing data.
    pub open spec fn wf(self) -> bool {
        &&& speakers_wf(self.speakers)
        &&& self.listeners.finite()
        &&& self.tick_count < CLEANUP_INTERVAL_TICKS
        &&& self.linked()
    }

    /// A UID resolves to this client in the last routing data.
    pub open spec fn is_resolved(self, client_id: u16) -> bool {
        self.routing matches Some(routing) && routing.ids.contains_value(client_id)
    }

    /// What happens to a packet of a client.
    pub open spec fn reception(self, client_id: u16) -> Reception {
        if !self.is_resolved(client_id) {
            Reception::Unresolved
        } else if self.speakers.contains_key(client_id) {
            Reception::Ready
        } else {
            Reception::NewSpeaker
        }
    }

    /// The mixer after a tick has ended.
    pub open spec fn ended(self, now: u64) -> MixerView {
        if self.tick_count + 1 < CLEANUP_INTERVAL_TICKS {
            MixerView { tick_count: self.tick_count + 1, ..self }
        } else {
            MixerView {
                tick_count: 0,
                speakers: self.speakers.remove_keys(stale(self.speakers, now)),
                ..self
            }
        }
    }

    /// The mixer after the output of a tick has been sent.
    pub open spec fn finished(self, mixes: Seq<GroupMix>, output: Output) -> MixerView {
        let active = output.voices.active_set@;
        let tracks = switched(
            self.sidetones,
            active.difference(self.prev_active),
            self.prev_active.difference(active),
        );
        MixerView {
            prev_active: active,
            sidetones: tracks.restrict(ringing(tracks)),
            listeners: listeners_after(mixes, self, output),
            ..self
        }
    }

    /// The mixer after a packet has come in: a known speaker's UID is refreshed.
    pub open spec fn received(self, client_id: u16) -> MixerView {
        if self.is_resolved(client_id) && self.speakers.contains_key(client_id) {
            MixerView {
                speakers: self.speakers.insert(
                    client_id,
                    SpeakerView { uid: self.uids[client_id], ..self.speakers[client_id] },
                ),
                ..self
            }
        } else {
            self
        }
    }

    /// The mixer with a new speaker, if the client is resolved.
    pub open spec fn with_speaker(self, client_id: u16, now: u64) -> MixerView {
        if self.is_resolved(client_id) {
            MixerView {
                speakers: self.speakers.insert(
                    client_id,
                    SpeakerView {
                        frames: Seq::empty(),
                        last_active: now,
                        uid: self.uids[client_id],
                    },
                ),
                ..self
            }
        } else {
            self
        }
    }

    /// The mixer after a frame of a speaker has been let wait, if the client is resolved.
    pub open spec fn with_frame(self, client_id: u16, frame: Seq<i16>, now: u64) -> MixerView {
        if self.is_resolved(client_id) && self.speakers.contains_key(client_id) {
            MixerView {
                speakers: self.speakers.insert(
                    client_id,
                    SpeakerView {
                        frames: queue::enqueued(self.speakers[client_id].frames, frame),
                        last_active: now,
                        ..self.speakers[client_id]
                    },
                ),
                ..self
            }
        } else {
            self
        }
    }
}

/// A client has a UID exactly where a UID resolves to it.
proof fn lemma_resolved(mixer: MixerView, client_id: u16)
    requires
        mixer.linked(),
    ensures
        mixer.uids.contains_key(client_id) == mixer.is_resolved(client_id),
{
    if mixer.routing is Some {
        let ids = mixer.routing->0.ids;
        if ids.contains_value(client_id) {
            let uid = choose|uid: Seq<char>| #[trigger]
                ids.contains_key(uid) && ids[uid] == client_id;
            assert(mixer.uids.contains_key(ids[uid]));
        }
        if mixer.uids.contains_key(client_id) {
            assert(ids.contains_key(mixer.uids[client_id]));
        }
    }
}

impl MixerState {
    /// What holds of the parts by themselves.
    closed spec fn parts_wf(&self) -> bool {
        &&& queues_wf(fx_map::keyed(self.speakers))
        &&& self.listeners@.no_duplicates()
        &&& self.tick_count < CLEANUP_INTERVAL_TICKS
    }

    /// Every queue is in order, and the mixer is as it should be between calls.
    pub closed spec fn wf(&self) -> bool {
        self.parts_wf() && self@.linked()
    }

    /// What holds of a mixer between any two calls.
    pub proof fn law_always_wf(&self)
        requires
            self.wf(),
        ensures
            self@.wf(),
    {
        assert forall|client_id: u16| #[trigger] self@.speakers.contains_key(
            client_id,
        ) implies queue::frames_wf(self@.speakers[client_id].frames) by {
            assert(fx_map::keyed(self.speakers).contains_key(client_id));
            queue::law_queue_bounded(fx_map::keyed(self.speakers)[client_id].queue);
        }
    }

    /// Starts without speakers and without routing.
    pub fn new() -> (mixer: Self)
        ensures
            mixer.wf(),
            mixer@ == (MixerView {
                speakers: Map::empty(),
                routing: None,
                uids: Map::empty(),
                prev_active: Set::empty(),
                sidetones: Map::empty(),
                listeners: Set::empty(),
                tick_count: 0,
            }),
    {
        let mixer = MixerState {
            speakers: FxHashMap::default(),
            routing: None,
            client_id_to_uid: FxHashMap::default(),
            prev_active_set: HashSet::new(),
            sidetone_tracks: FxHashMap::default(),
            listeners: Vec::new(),
            tick_count: 0,
        };
        proof {
            fx_map::lemma_empty(mixer.speakers);
            fx_map::lemma_empty(mixer.client_id_to_uid);
            fx_map::lemma_empty(mixer.sidetone_tracks);
            assert(speaker_views(mixer.speakers) =~= Map::empty());
            assert(text_views(mixer.client_id_to_uid) =~= Map::empty());
            assert(mixer.listeners@.to_set() =~= Set::empty());
        }
        mixer
    }

    /// Takes new routing data over, and resolves client ids to UIDs from it.
    pub fn update_routing(&mut self, new_routing: RoutingSnapshot)
        requires
            old(self).wf(),
        ensures
            final(self).wf(),
            reverses(final(self)@.uids, new_routing@.ids),
            final(self)@ == (MixerView {
                routing: Some(new_routing@),
                uids: final(self)@.uids,
                ..old(self)@
            }),
    {
        self.client_id_to_uid = reverse(&new_routing.uid_to_client_id);
        self.routing = Some(new_routing);
    }

    /// Looks at the sender of a packet. A known speaker's UID is refreshed; a packet of a client
    /// that no UID resolves to is dropped.
    pub fn receive(&mut self, client_id: u16) -> (reception: Reception)
        requires
            old(self).wf(),
        ensures
            final(self).wf(),
            final(self)@ == old(self)@.received(client_id),
            reception == old(self)@.reception(client_id),
            reception == (if !old(self)@.is_resolved(client_id) {
                Reception::Unresolved
            } else if old(self)@.speakers.contains_key(client_id) {
                Reception::Ready
            } else {
                Reception::NewSpeaker
            }),
    {
        proof {
            lemma_resolved(self@, client_id);
        }
        let uid: String = match fx_map::get(&self.client_id_to_uid, &client_id) {
            Some(uid) => uid.clone(),
            None => {
                return Reception::Unresolved;
            },
        };
        let known: bool = match fx_map::get_mut(&mut self.speakers, &client_id) {
            Some(speaker) => {
                speaker.uid = uid;
                true
            },
            None => false,
        };
        if known {
            assert(self@.speakers =~= old(self)@.received(client_id).speakers);
            Reception::Ready
        } else {
            assert(self@.speakers =~= old(self)@.speakers);
            Reception::NewSpeaker
        }
    }

    /// Enters a speaker whose decoder has been made, if the client is resolved.
    pub fn add_speaker(&mut self, client_id: u16, now: u64)
        requires
            old(self).wf(),
        ensures
            final(self).wf(),
            final(self)@ == old(self)@.with_speaker(client_id, now),
    {
        proof {
            lemma_resolved(self@, client_id);
        }
        if let Some(uid) = fx_map::get(&self.client_id_to_uid, &client_id) {
            let speaker = Speaker {
                queue: SpeakerQueue::new(),
                last_active: now,
                uid: uid.clone(),
            };
            fx_map::insert(&mut self.speakers, client_id, speaker);
            assert(self@.speakers =~= old(self)@.speakers.insert(client_id, speaker@));
        }
    }

    /// Lets a decoded frame of a speaker wait for the mix, if the client is resolved.
    pub fn enqueue(&mut self, client_id: u16, frame: &Frame, now: u64)
        requires
            old(self).wf(),
        ensures
            final(self).wf(),
            final(self)@ == old(self)@.with_frame(client_id, frame@, now),
    {
        proof {
            lemma_resolved(self@, client_id);
        }
        if fx_map::get(&self.client_id_to_uid, &client_id).is_none() {
            return;
        }
        let ghost before = fx_map::keyed(self.speakers);
        let known: bool = match fx_map::get_mut(&mut self.speakers, &client_id) {
            Some(speaker) => {
                assert(before.contains_key(client_id));
                speaker.queue.push(frame);
                speaker.last_active = now;
                true
            },
            None => false,
        };
        proof {
            if known {
                assert(self@.speakers =~= old(self)@.with_frame(client_id, frame@, now).speakers);
            } else {
                assert(self@.speakers =~= old(self)@.speakers);
            }
        }
    }
}

/// Turns a resolution of UIDs round.
fn reverse(ids: &FxHashMap<String, u16>) -> (uids: FxHashMap<u16, String>)
    ensures
        reverses(text_views(uids), fx_map::keyed(*ids)),
{
    let all = fx_map::entries(ids);
    let mut uids: FxHashMap<u16, String> = FxHashMap::default();
    proof {
        fx_map::lemma_empty(uids);
    }
    let mut i: usize = 0;
    while i < all.len()
        invariant
            i <= all@.len(),
            fx_map::enumerates(all@, fx_map::keyed(*ids)),
            forall|client_id: u16| #[trigger]
                text_views(uids).contains_key(client_id) ==> fx_map::keyed(*ids).contains_key(
                    text_views(uids)[client_id],
                ) && fx_map::keyed(*ids)[text_views(uids)[client_id]] == client_id,
            forall|j: int|
                0 <= j < i ==> text_views(uids).contains_key(*(#[trigger] all@[j]).1),
        decreases all.len() - i,
    {
        let (uid, client_id) = all[i];
        let ghost before = text_views(uids);
        assert(fx_map::keyed(*ids).contains_key(all@[i as int].0@));
        fx_map::insert(&mut uids, *client_id, uid.clone());
        assert(text_views(uids) =~= before.insert(*client_id, uid@));
        i += 1;
    }
    assert forall|uid: Seq<char>| #[trigger] fx_map::keyed(*ids).contains_key(uid) implies text_views(
        uids,
    ).contains_key(fx_map::keyed(*ids)[uid]) by {
        let j = choose|j: int| 0 <= j < all@.len() && (#[trigger] all@[j]).0@ == uid;
        assert(*all@[j].1 == fx_map::keyed(*ids)[uid]);
    }
    uids
}

/// The voices of one tick. The order of the speakers is open.
#[derive(Debug)]
pub struct Voices {
    /// The clients with sound in this tick.
    pub active_set: HashSet<u16>,
    /// The same clients with their UIDs.
    pub speakers: Vec<(u16, String)>,
    /// The frame of each speaker.
    pub frames: Vec<Frame>,
}

impl Voices {
    /// The frames that speakers have to play next: one of each speaker that has one waiting.
    pub open spec fn of(self, speakers: Map<u16, SpeakerView>) -> bool {
        let ids = relay::speaker_ids(self.speakers@);
        &&& self.active_set@ == sounding(speakers)
        &&& self.frames@.len() == self.speakers@.len()
        &&& lists_set(ids, sounding(speakers))
        &&& forall|i: int|
            0 <= i < self.speakers@.len() ==> {
                &&& (#[trigger] self.speakers@[i]).1@ == speakers[self.speakers@[i].0].uid
                &&& self.frames@[i]@ == speakers[self.speakers@[i].0].frames[0]
            }
    }

    /// The voices may be those of a mixer: their speakers are speakers of the mixer.
    pub open spec fn fits(self, mixer: MixerView) -> bool {
        &&& self.active_set@.subset_of(mixer.speakers.dom())
        &&& self.frames@.len() == self.speakers@.len()
    }
}

/// How the sound of a tick is shaped.
#[derive(Debug, Clone, Copy, PartialEq, Eq, Structural)]
pub struct Shaping {
    /// There are voices in it.
    pub had_speakers: bool,
    pub output_gain: Single,
    /// Whether it sounds like a radio.
    pub effects: bool,
}

/// How the sound of a tick is shaped, if there is any: voices, or noise that is still to be heard.
/// Without routing data there are no effects, and the gain is one.
pub open spec fn shaping_of(mixer: MixerView, voices: Voices, noise: RadioNoise) -> Option<
    Shaping,
> {
    if voices.speakers@.len() > 0 || noise.sounding() {
        Some(
            Shaping {
                had_speakers: voices.speakers@.len() > 0,
                output_gain: match mixer.routing {
                    Some(routing) => routing.output_gain,
                    None => 0x3f80_0000,
                },
                effects: mixer.routing matches Some(routing) && routing.radio_effects_enabled,
            },
        )
    } else {
        None
    }
}

/// The spheres to be measured for the speakers of a tick, in their order.
pub open spec fn spheres_of(mixer: MixerView, voices: Voices) -> Seq<Option<Sphere>> {
    Seq::new(
        voices.speakers@.len(),
        |i: int|
            match mixer.routing {
                Some(routing) => routing.sphere(voices.speakers@[i].1@),
                None => None,
            },
    )
}

/// The sound of a tick, as far as the mixer knows it by itself.
#[derive(Debug)]
pub struct Output {
    pub voices: Voices,
    pub shaping: Option<Shaping>,
    /// The spheres to be measured, one for each speaker.
    pub spheres: Vec<Option<Sphere>>,
}

impl Output {
    /// What a mixer has to say of a tick: the voices of the speakers with a frame waiting, and how
    /// they are shaped. Where nothing is to be heard nothing is measured.
    pub open spec fn of(self, mixer: MixerView, noise: RadioNoise) -> bool {
        &&& self.voices.of(mixer.speakers)
        &&& self.shaping == shaping_of(mixer, self.voices, noise)
        &&& self.spheres@ == (if self.shaping is Some {
            spheres_of(mixer, self.voices)
        } else {
            Seq::empty()
        })
    }
}

/// Who is sent what on a tick.
#[derive(Debug)]
pub struct Deliveries {
    /// The mixes, each for those who hear the voices in it.
    pub mixes: Vec<GroupMix>,
    /// The sidetones that begin.
    pub switch: SidetoneSwitch,
    /// The sidetones that are to be heard, each by one client.
    pub sounds: Vec<(u16, SidetoneSound)>,
}

/// The mixes of a tick.
///
/// As long as somebody speaks, each listener is sent the voices that the listener hears. Once
/// nobody does, those who heard the last voices are sent the frame that the squelch tail goes
/// into, if there are effects. A forced client is sent everything. Before the first routing data
/// nobody is sent anything.
pub open spec fn mixes_due(
    mixes: Seq<GroupMix>,
    mixer: MixerView,
    output: Output,
    near: Seq<Vec<String>>,
) -> bool {
    let voices = output.voices;
    let frames = relay::frame_views(voices.frames@);
    match (mixer.routing, output.shaping) {
        (Some(routing), Some(shaping)) => match routing.force_whisper_client_id {
            Some(client_id) => {
                &&& mixes.len() == 1
                &&& mixes[0].samples@ == mix::mixed(frames)
                &&& mixes[0].speakers@ == relay::speaker_ids(voices.speakers@)
                &&& mixes[0].recipients@ == seq![client_id]
            },
            None => if shaping.had_speakers {
                relay::relays(
                    mixes,
                    routing,
                    voices.speakers@,
                    frames,
                    near,
                    voices.active_set@,
                )
            } else if shaping.effects && mixer.listeners.len() > 0 {
                &&& mixes.len() == 1
                &&& mixes[0].samples@ == mix::silence()
                &&& mixes[0].speakers@.len() == 0
                &&& lists_set(mixes[0].recipients@, mixer.listeners)
            } else {
                mixes.len() == 0
            },
        },
        _ => mixes.len() == 0,
    }
}

/// The clients that the last voices were sent to, after a tick.
pub open spec fn listeners_after(
    mixes: Seq<GroupMix>,
    mixer: MixerView,
    output: Output,
) -> Set<u16> {
    if output.shaping matches Some(shaping) && shaping.had_speakers {
        Set::new(|c: u16| exists|k: int| relay::is_sent(mixes, k, c))
    } else {
        mixer.listeners
    }
}

/// The speakers with a frame waiting.
pub open spec fn sounding(speakers: Map<u16, SpeakerView>) -> Set<u16> {
    Set::new(|id: u16| speakers.contains_key(id) && speakers[id].frames.len() > 0)
}

/// `ids` lists the keys of a dictionary, each once.
pub open spec fn lists_keys<V>(ids: Seq<u16>, m: Map<u16, V>) -> bool {
    &&& ids.no_duplicates()
    &&& forall|id: u16| #[trigger] ids.contains(id) <==> m.contains_key(id)
}

/// The speakers after a tick: each has played a frame, where one was waiting.
pub open spec fn played(speakers: Map<u16, SpeakerView>) -> Map<u16, SpeakerView> {
    speakers.map_values(
        |s: SpeakerView| SpeakerView { frames: queue::dequeued(s.frames), ..s },
    )
}

/// The keys of a dictionary, each once.
fn keys<V>(m: &FxHashMap<u16, V>) -> (ids: Vec<u16>)
    ensures
        lists_keys(ids@, fx_map::keyed(*m)),
{
    let all = fx_map::entries(m);
    let mut ids: Vec<u16> = Vec::new();
    let mut i: usize = 0;
    while i < all.len()
        invariant
            i <= all@.len(),
            ids@.len() == i,
            forall|j: int| 0 <= j < i ==> #[trigger] ids@[j] == (*all@[j].0),
        decreases all.len() - i,
    {
        ids.push(*all[i].0);
        i += 1;
    }
    assert forall|a: int, b: int| 0 <= a < ids@.len() && 0 <= b < ids@.len() && a != b implies ids@[a]
        != ids@[b] by {
        if a < b {
            assert(all@[a].0@ != all@[b].0@);
        } else {
            assert(all@[b].0@ != all@[a].0@);
        }
    }
    assert forall|id: u16| #[trigger] ids@.contains(id) <==> fx_map::keyed(*m).contains_key(id) by {
        if ids@.contains(id) {
            let j = choose|j: int| 0 <= j < ids@.len() && ids@[j] == id;
            assert(fx_map::keyed(*m).contains_key(all@[j].0@));
        }
        if fx_map::keyed(*m).contains_key(id) {
            let j = choose|j: int| 0 <= j < all@.len() && (#[trigger] all@[j]).0@ == id;
            assert(ids@[j] == id);
        }
    }
    ids
}

/// The queues of all speakers of a dictionary are in order.
spec fn queues_wf(m: Map<u16, Speaker>) -> bool {
    forall|id: u16| #[trigger] m.contains_key(id) ==> m[id].queue.wf()
}

/// Takes the next frame of a speaker.
fn pop_frame(m: &mut FxHashMap<u16, Speaker>, id: u16) -> (next: Option<(Frame, String)>)
    requires
        queues_wf(fx_map::keyed(*old(m))),
        fx_map::keyed(*old(m)).contains_key(id),
    ensures
        queues_wf(fx_map::keyed(*final(m))),
        speaker_views(*final(m)) == speaker_views(*old(m)).insert(
            id,
            SpeakerView {
                frames: queue::dequeued(speaker_views(*old(m))[id].frames),
                ..speaker_views(*old(m))[id]
            },
        ),
        match next {
            Some((frame, uid)) => speaker_views(*old(m))[id].frames.len() > 0 && frame@
                == speaker_views(*old(m))[id].frames[0] && uid@ == speaker_views(*old(m))[id].uid,
            None => speaker_views(*old(m))[id].frames.len() == 0,
        },
{
    let next = match fx_map::get_mut(m, &id) {
        Some(speaker) => {
            match speaker.queue.pop() {
                Some(frame) => Some((frame, speaker.uid.clone())),
                None => None,
            }
        },
        None => None,
    };
    assert(speaker_views(*m) =~= speaker_views(*old(m)).insert(
        id,
        SpeakerView {
            frames: queue::dequeued(speaker_views(*old(m))[id].frames),
            ..speaker_views(*old(m))[id]
        },
    ));
    next
}

impl MixerState {
    /// Takes one frame of every speaker that has one waiting.
    fn take_voices(&mut self) -> (voices: Voices)
        requires
            old(self).wf(),
        ensures
            final(self).wf(),
            voices.of(old(self)@.speakers),
            final(self)@ == (MixerView { speakers: played(old(self)@.speakers), ..old(self)@ }),
    {
        let ids: Vec<u16> = keys(&self.speakers);
        let mut active_set: HashSet<u16> = HashSet::new();
        let mut speakers: Vec<(u16, String)> = Vec::new();
        let mut frames: Vec<Frame> = Vec::new();
        let ghost start = self@.speakers;
        let mut i: usize = 0;
        while i < ids.len()
            invariant
                i <= ids@.len(),
                start == old(self)@.speakers,
                lists_keys(ids@, start),
                self.parts_wf(),
                self@ == (MixerView { speakers: self@.speakers, ..old(self)@ }),
                forall|id: u16| #[trigger] self@.speakers.contains_key(id) <==> start.contains_key(id),
                forall|id: u16| #[trigger]
                    self@.speakers.contains_key(id) ==> self@.speakers[id] == (if ids@.take(
                        i as int,
                    ).contains(id) {
                        SpeakerView { frames: queue::dequeued(start[id].frames), ..start[id] }
                    } else {
                        start[id]
                    }),
                frames@.len() == speakers@.len(),
                relay::speaker_ids(speakers@).no_duplicates(),
                forall|id: u16| #[trigger]
                    relay::speaker_ids(speakers@).contains(id) <==> active_set@.contains(id),
                forall|id: u16| #[trigger]
                    active_set@.contains(id) <==> ids@.take(i as int).contains(id)
                        && start[id].frames.len() > 0,
                forall|j: int|
                    0 <= j < speakers@.len() ==> {
                        &&& (#[trigger] speakers@[j]).1@ == start[speakers@[j].0].uid
                        &&& frames@[j]@ == start[speakers@[j].0].frames[0]
                    },
            decreases ids.len() - i,
        {
            let id: u16 = ids[i];
            proof {
                lists::lemma_take(ids@, i as int);
                assert(ids@.contains(id));
                assert(self@.speakers.contains_key(id));
            }
            if let Some((frame, uid)) = pop_frame(&mut self.speakers, id) {
                let ghost before = relay::speaker_ids(speakers@);
                active_set.insert(id);
                speakers.push((id, uid));
                frames.push(frame);
                proof {
                    lists::lemma_push(before, id);
                    assert(relay::speaker_ids(speakers@) =~= before.push(id));
                }
            }
            i += 1;
        }
        proof {
            assert(ids@.take(i as int) =~= ids@);
            assert(self@.speakers =~= played(start));
            assert(active_set@ =~= sounding(start));
            assert(old(self)@.routing is None ==> self@.speakers =~= Map::empty());
        }
        Voices { active_set, speakers, frames }
    }
}

/// `list` holds the elements of a set, each once.
pub open spec fn lists_set(list: Seq<u16>, set: Set<u16>) -> bool {
    &&& list.no_duplicates()
    &&& forall|id: u16| #[trigger] list.contains(id) <==> set.contains(id)
}

/// The elements of one set that are not in another.
fn difference(a: &HashSet<u16>, b: &HashSet<u16>) -> (list: Vec<u16>)
    ensures
        lists_set(list@, a@.difference(b@)),
{
    let mut list: Vec<u16> = Vec::new();
    let ghost all = vstd::std_specs::iter::IteratorSpec::remaining(
        &vstd::std_specs::hash::spec_hash_keys_iter(a),
    );
    assert(all.unref().to_set() == a@);
    for x in it: a.iter()
        invariant
            it.seq() == all,
            all.no_duplicates(),
            list@.no_duplicates(),
            forall|id: u16| #[trigger]
                list@.contains(id) <==> !b@.contains(id) && all.take(it.index() as int).contains(&id),
    {
        let ghost before = list@;
        let ghost n = it.index() as int;
        proof {
            assert(all[n] == x);
            assert(!all.take(n).contains(x)) by {
                if all.take(n).contains(x) {
                    let j = choose|j: int| 0 <= j < n && all.take(n)[j] == x;
                    assert(all[j] == all[n]);
                }
            }
            let more = all.take(n + 1);
            assert forall|id: u16| #[trigger] more.contains(&id) <==> all.take(n).contains(&id)
                || id == *x by {
                assert(more[n] == x);
                if all.take(n).contains(&id) {
                    let j = choose|j: int| 0 <= j < n && all.take(n)[j] == &id;
                    assert(more[j] == &id);
                }
                if more.contains(&id) && id != *x {
                    let j = choose|j: int| 0 <= j < more.len() && more[j] == &id;
                    assert(all.take(n)[j] == &id);
                }
            }
        }
        if !b.contains(x) {
            list.push(*x);
            proof {
                assert(!before.contains(*x));
                lists::lemma_push(before, *x);
            }
        }
    }
    proof {
        assert(all.take(all.len() as int) =~= all);
        assert forall|id: u16| #[trigger] list@.contains(id) <==> a@.difference(b@).contains(id) by {
            if all.contains(&id) {
                let j = choose|j: int| 0 <= j < all.len() && all[j] == &id;
                assert(all.unref()[j] == id);
                assert(all.unref().to_set().contains(id));
            }
            if a@.contains(id) {
                assert(all.unref().to_set().contains(id));
                let j = choose|j: int| 0 <= j < all.unref().len() && all.unref()[j] == id;
                assert(all[j] == &id);
            }
        }
    }
    list
}

/// The sidetones that begin on a tick.
#[derive(Debug)]
pub struct SidetoneSwitch {
    /// The clients that have begun to speak.
    pub started: Vec<u16>,
    /// The clients that have fallen silent, each with the draw for the level of the tail.
    pub stopped: Vec<(u16, u32)>,
}

/// The sidetone of a client, or a new one.
pub open spec fn track_of(sidetones: Map<u16, SidetoneGenerator>, id: u16) -> SidetoneGenerator {
    if sidetones.contains_key(id) {
        sidetones[id]
    } else {
        SidetoneGenerator::initial()
    }
}

/// The sidetones after some clients have begun to speak and others have fallen silent.
pub open spec fn switched(
    sidetones: Map<u16, SidetoneGenerator>,
    started: Set<u16>,
    stopped: Set<u16>,
) -> Map<u16, SidetoneGenerator> {
    Map::new(
        |id: u16| sidetones.contains_key(id) || started.contains(id) || stopped.contains(id),
        |id: u16|
            if started.contains(id) {
                track_of(sidetones, id).clicking()
            } else if stopped.contains(id) {
                track_of(sidetones, id).trailing()
            } else {
                sidetones[id]
            },
    )
}

/// The client ids of a list of pairs.
pub open spec fn firsts(pairs: Seq<(u16, u32)>) -> Seq<u16> {
    Seq::new(pairs.len(), |i: int| pairs[i].0)
}

impl MixerState {
    /// Starts the sidetones of a tick: clients that have begun to speak get a click, clients that
    /// have fallen silent a squelch tail.
    fn switch_sidetones(&mut self, active_set: HashSet<u16>) -> (switch: SidetoneSwitch)
        requires
            old(self).wf(),
            active_set@.subset_of(old(self)@.speakers.dom()),
        ensures
            final(self).wf(),
            lists_set(switch.started@, active_set@.difference(old(self)@.prev_active)),
            lists_set(firsts(switch.stopped@), old(self)@.prev_active.difference(active_set@)),
            forall|i: int|
                0 <= i < switch.stopped@.len() ==> (#[trigger] switch.stopped@[i]).1
                    == SidetoneGenerator::initial().trailing().tail_noise.lcg.state,
            final(self)@ == (MixerView {
                prev_active: active_set@,
                sidetones: switched(
                    old(self)@.sidetones,
                    active_set@.difference(old(self)@.prev_active),
                    old(self)@.prev_active.difference(active_set@),
                ),
                ..old(self)@
            }),
    {
        let started: Vec<u16> = difference(&active_set, &self.prev_active_set);
        let silent: Vec<u16> = difference(&self.prev_active_set, &active_set);
        let mut stopped: Vec<(u16, u32)> = Vec::new();
        let ghost before = self@.sidetones;
        let mut i: usize = 0;
        while i < started.len()
            invariant
                i <= started@.len(),
                started@.no_duplicates(),
                before == old(self)@.sidetones,
                self.parts_wf(),
                self@ == (MixerView { sidetones: self@.sidetones, ..old(self)@ }),
                self@.sidetones == switched(before, started@.take(i as int).to_set(), Set::empty()),
            decreases started.len() - i,
        {
            let id: u16 = started[i];
            let mut track = self.track_or_new(id);
            track.trigger_click();
            fx_map::insert(&mut self.sidetone_tracks, id, track);
            proof {
                let done = started@.take(i as int);
                assert(started@.take(i + 1) =~= done.push(id));
                lists::lemma_take(started@, i as int);
                assert(self@.sidetones =~= switched(
                    before,
                    started@.take(i + 1).to_set(),
                    Set::empty(),
                ));
            }
            i += 1;
        }
        proof {
            assert(started@.take(i as int) =~= started@);
        }
        let ghost clicked = self@.sidetones;
        let mut j: usize = 0;
        while j < silent.len()
            invariant
                j <= silent@.len(),
                silent@.no_duplicates(),
                before == old(self)@.sidetones,
                forall|id: u16| #[trigger] silent@.contains(id) ==> !started@.contains(id),
                self.parts_wf(),
                self@ == (MixerView { sidetones: self@.sidetones, ..old(self)@ }),
                clicked == switched(before, started@.to_set(), Set::empty()),
                self@.sidetones == switched(
                    before,
                    started@.to_set(),
                    silent@.take(j as int).to_set(),
                ),
                firsts(stopped@) == silent@.take(j as int),
                forall|k: int|
                    0 <= k < stopped@.len() ==> (#[trigger] stopped@[k]).1
                        == SidetoneGenerator::initial().trailing().tail_noise.lcg.state,
            decreases silent.len() - j,
        {
            let id: u16 = silent[j];
            let mut track = self.track_or_new(id);
            let draw: u32 = track.trigger_tail();
            let ghost pairs = stopped@;
            stopped.push((id, draw));
            fx_map::insert(&mut self.sidetone_tracks, id, track);
            proof {
                assert(silent@.contains(id));
                lists::lemma_take(silent@, j as int);
                assert(firsts(stopped@) =~= firsts(pairs).push(id));
                assert(silent@.take(j + 1) =~= silent@.take(j as int).push(id));
                assert(self@.sidetones =~= switched(
                    before,
                    started@.to_set(),
                    silent@.take(j + 1).to_set(),
                ));
            }
            j += 1;
        }
        proof {
            assert(silent@.take(j as int) =~= silent@);
            assert(started@.to_set() =~= active_set@.difference(old(self)@.prev_active));
            assert(silent@.to_set() =~= old(self)@.prev_active.difference(active_set@));
        }
        proof {
            if self@.routing is None {
                assert(active_set@ =~= Set::empty());
                assert(self@.sidetones =~= Map::empty());
            }
        }
        self.prev_active_set = active_set;
        SidetoneSwitch { started, stopped }
    }

    fn track_or_new(&self, id: u16) -> (track: SidetoneGenerator)
        ensures
            track == track_of(self@.sidetones, id),
    {
        match fx_map::get(&self.sidetone_tracks, &id) {
            Some(track) => *track,
            None => SidetoneGenerator::new(),
        }
    }
}

/// The clients with something to be heard of themselves.
pub open spec fn ringing(sidetones: Map<u16, SidetoneGenerator>) -> Set<u16> {
    Set::new(|id: u16| sidetones.contains_key(id) && sidetones[id].sound() is Some)
}

/// The client ids of a list of sounds.
pub open spec fn sound_ids(sounds: Seq<(u16, SidetoneSound)>) -> Seq<u16> {
    Seq::new(sounds.len(), |i: int| sounds[i].0)
}

/// A speaker whose last sound is less than ten seconds old.
pub open spec fn is_fresh(speaker: SpeakerView, now: u64) -> bool {
    now - speaker.last_active < INACTIVE_TIMEOUT_NS
}

/// The speakers whose last sound is at least ten seconds old.
pub open spec fn stale(speakers: Map<u16, SpeakerView>, now: u64) -> Set<u16> {
    Set::new(|id: u16| speakers.contains_key(id) && !is_fresh(speakers[id], now))
}

impl MixerState {
    /// The sounds of this tick's sidetones. Sidetones that have died away are dropped.
    fn next_sidetones(&mut self) -> (sounds: Vec<(u16, SidetoneSound)>)
        requires
            old(self).wf(),
        ensures
            final(self).wf(),
            lists_set(sound_ids(sounds@), ringing(old(self)@.sidetones)),
            forall|i: int|
                0 <= i < sounds@.len() ==> old(self)@.sidetones[(#[trigger] sounds@[i]).0].sound()
                    == Some(sounds@[i].1),
            final(self)@ == (MixerView {
                sidetones: old(self)@.sidetones.restrict(ringing(old(self)@.sidetones)),
                ..old(self)@
            }),
    {
        let ids: Vec<u16> = keys(&self.sidetone_tracks);
        let mut sounds: Vec<(u16, SidetoneSound)> = Vec::new();
        let ghost start = self@.sidetones;
        let mut i: usize = 0;
        while i < ids.len()
            invariant
                i <= ids@.len(),
                start == old(self)@.sidetones,
                lists_keys(ids@, start),
                self.parts_wf(),
                self@ == (MixerView { sidetones: self@.sidetones, ..old(self)@ }),
                forall|id: u16| #[trigger]
                    self@.sidetones.contains_key(id) <==> start.contains_key(id) && (ids@.take(
                        i as int,
                    ).contains(id) ==> start[id].sound() is Some),
                forall|id: u16| #[trigger]
                    self@.sidetones.contains_key(id) ==> self@.sidetones[id] == start[id],
                sound_ids(sounds@).no_duplicates(),
                forall|id: u16| #[trigger]
                    sound_ids(sounds@).contains(id) <==> ids@.take(i as int).contains(id)
                        && start[id].sound() is Some,
                forall|j: int|
                    0 <= j < sounds@.len() ==> start[(#[trigger] sounds@[j]).0].sound() == Some(
                        sounds@[j].1,
                    ),
            decreases ids.len() - i,
        {
            let id: u16 = ids[i];
            proof {
                assert(ids@.contains(id));
                lists::lemma_take(ids@, i as int);
                assert(self@.sidetones.contains_key(id));
            }
            let next: Option<SidetoneSound> = match fx_map::get(&self.sidetone_tracks, &id) {
                Some(track) => track.next_sound(),
                None => None,
            };
            match next {
                Some(sound) => {
                    let ghost before = sound_ids(sounds@);
                    sounds.push((id, sound));
                    proof {
                        lists::lemma_push(before, id);
                        assert(sound_ids(sounds@) =~= before.push(id));
                    }
                },
                None => {
                    fx_map::remove(&mut self.sidetone_tracks, &id);
                },
            }
            i += 1;
        }
        proof {
            assert(ids@.take(i as int) =~= ids@);
            assert(self@.sidetones =~= start.restrict(ringing(start)));
            assert(self@.routing is None ==> self@.sidetones =~= Map::empty());
        }
        sounds
    }

    /// The sidetone of a client.
    pub fn sidetone(&self, client_id: u16) -> (track: Option<SidetoneGenerator>)
        ensures
            track == fx_map::lookup(self@.sidetones, client_id),
    {
        match fx_map::get(&self.sidetone_tracks, &client_id) {
            Some(track) => Some(*track),
            None => None,
        }
    }

    /// Takes a sidetone over after a frame of it was made.
    pub fn set_sidetone(&mut self, client_id: u16, track: SidetoneGenerator)
        requires
            old(self).wf(),
        ensures
            final(self).wf(),
            final(self)@ == (if old(self)@.sidetones.contains_key(client_id) {
                MixerView {
                    sidetones: old(self)@.sidetones.insert(client_id, track),
                    ..old(self)@
                }
            } else {
                old(self)@
            }),
    {
        if fx_map::get(&self.sidetone_tracks, &client_id).is_some() {
            fx_map::insert(&mut self.sidetone_tracks, client_id, track);
        }
    }

    fn shaping(&self, voices: &Voices, noise: &RadioNoise) -> (shaping: Option<Shaping>)
        ensures
            shaping == shaping_of(self@, *voices, *noise),
    {
        let had_speakers: bool = voices.speakers.len() > 0;
        if !had_speakers && !noise.is_active() {
            return None;
        }
        match &self.routing {
            Some(routing) => Some(
                Shaping {
                    had_speakers,
                    output_gain: routing.output_gain,
                    effects: routing.radio_effects_enabled,
                },
            ),
            None => Some(Shaping { had_speakers, output_gain: 0x3f80_0000, effects: false }),
        }
    }

    /// The routing data that the mixer goes by.
    pub fn routing_data(&self) -> (routing: Option<&RoutingSnapshot>)
        ensures
            match routing {
                Some(data) => self@.routing == Some(data@),
                None => self@.routing is None,
            },
    {
        match &self.routing {
            Some(routing) => Some(routing),
            None => None,
        }
    }

    fn spheres(&self, voices: &Voices) -> (spheres: Vec<Option<Sphere>>)
        ensures
            spheres@ == spheres_of(self@, *voices),
    {
        let mut spheres: Vec<Option<Sphere>> = Vec::new();
        let mut i: usize = 0;
        while i < voices.speakers.len()
            invariant
                i <= voices.speakers@.len(),
                spheres@.len() == i,
                forall|j: int|
                    0 <= j < i ==> #[trigger] spheres@[j] == (match self@.routing {
                        Some(routing) => routing.sphere(voices.speakers@[j].1@),
                        None => None,
                    }),
            decreases voices.speakers.len() - i,
        {
            let sphere: Option<Sphere> = match &self.routing {
                Some(routing) => routing.sphere_of(voices.speakers[i].1.as_str()),
                None => None,
            };
            spheres.push(sphere);
            i += 1;
        }
        spheres
    }

    /// Begins the output of a tick: takes the voices, and says how they are to be shaped and what
    /// is to be measured. Where nothing is to be heard nothing is measured.
    pub fn begin_output(&mut self, noise: &RadioNoise) -> (output: Output)
        requires
            old(self).wf(),
        ensures
            final(self).wf(),
            output.of(old(self)@, *noise),
            output.voices.fits(final(self)@),
            final(self)@ == (MixerView { speakers: played(old(self)@.speakers), ..old(self)@ }),
    {
        let voices = self.take_voices();
        let shaping = self.shaping(&voices, noise);
        let spheres: Vec<Option<Sphere>> = if shaping.is_some() {
            self.spheres(&voices)
        } else {
            Vec::new()
        };
        assert(shaping is None ==> spheres@ =~= Seq::empty());
        Output { voices, shaping, spheres }
    }

    /// The mixes of a tick, and the clients that they are sent to.
    fn mixes(&self, output: &Output, near: &Vec<Vec<String>>) -> (made: (Vec<GroupMix>, Vec<u16>))
        requires
            self.wf(),
            output.voices.fits(self@),
        ensures
            mixes_due(made.0@, self@, *output, near@),
            relay::lists_sent(made.1@, made.0@),
    {
        let mut mixes: Vec<GroupMix> = Vec::new();
        let nobody: Vec<u16> = Vec::new();
        let voices: &Voices = &output.voices;
        let (routing, shaping) = match (&self.routing, &output.shaping) {
            (Some(routing), Some(shaping)) => (routing, shaping),
            _ => {
                return (mixes, nobody);
            },
        };
        if let Some(client_id) = routing.force_whisper_client_id {
            let mut only: Vec<u16> = Vec::new();
            only.push(client_id);
            mixes.push(
                GroupMix {
                    samples: relay::mix_all(&voices.frames),
                    speakers: relay::ids_of(&voices.speakers),
                    recipients: only,
                },
            );
            let mut listed: Vec<u16> = Vec::new();
            listed.push(client_id);
            proof {
                assert(mixes@[0].recipients@ =~= seq![client_id]);
                assert(listed@ =~= seq![client_id]);
                assert(listed@[0] == client_id);
                assert forall|c: u16| #[trigger] listed@.contains(c) <==> exists|k: int|
                    relay::is_sent(mixes@, k, c) by {
                    if c == client_id {
                        assert(relay::is_sent(mixes@, 0, c));
                    }
                }
                assert(relay::lists_sent(listed@, mixes@));
            }
            (mixes, listed)
        } else if shaping.had_speakers {
            let (mixes, listed) = relay::relay_voices(
                routing,
                &voices.speakers,
                &voices.frames,
                near,
                &voices.active_set,
            );
            (mixes, listed)
        } else if shaping.effects && self.listeners.len() > 0 {
            let recipients: Vec<u16> = self.listeners.clone();
            let listed: Vec<u16> = self.listeners.clone();
            mixes.push(
                GroupMix { samples: mix::silent_frame(), speakers: Vec::new(), recipients },
            );
            proof {
                assert(recipients@ =~= self.listeners@);
                assert(listed@ =~= self.listeners@);
                self.listeners@.lemma_cardinality_of_set();
                assert(self@.listeners.contains(self.listeners@[0]));
                assert(self@.listeners.len() > 0);
                assert forall|c: u16| #[trigger] listed@.contains(c) <==> exists|k: int|
                    relay::is_sent(mixes@, k, c) by {
                    if listed@.contains(c) {
                        assert(relay::is_sent(mixes@, 0, c));
                    }
                }
                assert(relay::lists_sent(listed@, mixes@));
            }
            (mixes, listed)
        } else {
            proof {
                if self.listeners@.len() == 0 {
                    assert(self@.listeners =~= Set::empty());
                }
            }
            assert(relay::lists_sent(nobody@, mixes@));
            (mixes, nobody)
        }
    }

    /// Decides who is sent what on a tick. `near` holds the UIDs inside each of the spheres that
    /// were to be measured.
    pub fn finish_output(&mut self, output: Output, near: &Vec<Vec<String>>) -> (deliveries:
        Deliveries)
        requires
            old(self).wf(),
            output.voices.fits(old(self)@),
        ensures
            final(self).wf(),
            mixes_due(deliveries.mixes@, old(self)@, output, near@),
            final(self)@ == old(self)@.finished(deliveries.mixes@, output),
            ({
                let prev = old(self)@.prev_active;
                let active = output.voices.active_set@;
                let started = active.difference(prev);
                let stopped = prev.difference(active);
                let tracks = switched(old(self)@.sidetones, started, stopped);
                &&& lists_set(deliveries.switch.started@, started)
                &&& lists_set(firsts(deliveries.switch.stopped@), stopped)
                &&& forall|i: int|
                    0 <= i < deliveries.switch.stopped@.len() ==> (
                    #[trigger] deliveries.switch.stopped@[i]).1
                        == SidetoneGenerator::initial().trailing().tail_noise.lcg.state
                &&& lists_set(sound_ids(deliveries.sounds@), ringing(tracks))
                &&& forall|i: int|
                    0 <= i < deliveries.sounds@.len() ==> tracks[(
                    #[trigger] deliveries.sounds@[i]).0].sound() == Some(deliveries.sounds@[i].1)
                &&& final(self)@ == (MixerView {
                    prev_active: active,
                    sidetones: tracks.restrict(ringing(tracks)),
                    listeners: listeners_after(deliveries.mixes@, old(self)@, output),
                    ..old(self)@
                })
            }),
    {
        let (mixes, sent_to) = self.mixes(&output, near);
        let spoken: bool = match &output.shaping {
            Some(shaping) => shaping.had_speakers,
            None => false,
        };
        if spoken {
            self.listeners = sent_to;
        }
        proof {
            assert(self@.listeners =~= listeners_after(mixes@, old(self)@, output));
            if self@.routing is None {
                assert(self@.listeners =~= Set::empty());
            }
        }
        let switch = self.switch_sidetones(output.voices.active_set);
        let sounds = self.next_sidetones();
        Deliveries { mixes, switch, sounds }
    }

    /// Ends a tick. Every so often the speakers without recent sound are dropped; their client
    /// ids are handed out.
    pub fn end_tick(&mut self, now: u64) -> (dropped: Option<Vec<u16>>)
        requires
            old(self).wf(),
        ensures
            final(self).wf(),
            final(self)@ == old(self)@.ended(now),
            match dropped {
                None => {
                    &&& old(self)@.tick_count + 1 < CLEANUP_INTERVAL_TICKS
                    &&& final(self)@ == (MixerView {
                        tick_count: old(self)@.tick_count + 1,
                        ..old(self)@
                    })
                },
                Some(ids) => {
                    &&& old(self)@.tick_count + 1 >= CLEANUP_INTERVAL_TICKS
                    &&& lists_set(ids@, stale(old(self)@.speakers, now))
                    &&& final(self)@ == (MixerView {
                        tick_count: 0,
                        speakers: old(self)@.speakers.remove_keys(stale(old(self)@.speakers, now)),
                        ..old(self)@
                    })
                },
            },
    {
        if self.tick_count + 1 >= CLEANUP_INTERVAL_TICKS {
            self.tick_count = 0;
            Some(self.drop_stale(now))
        } else {
            self.tick_count = self.tick_count + 1;
            None
        }
    }

    fn drop_stale(&mut self, now: u64) -> (dropped: Vec<u16>)
        requires
            old(self).wf(),
        ensures
            final(self).wf(),
            lists_set(dropped@, stale(old(self)@.speakers, now)),
            final(self)@ == (MixerView {
                speakers: old(self)@.speakers.remove_keys(stale(old(self)@.speakers, now)),
                ..old(self)@
            }),
    {
        let ids: Vec<u16> = keys(&self.speakers);
        let mut dropped: Vec<u16> = Vec::new();
        let ghost start = self@.speakers;
        let mut i: usize = 0;
        while i < ids.len()
            invariant
                i <= ids@.len(),
                start == old(self)@.speakers,
                lists_keys(ids@, start),
                self.parts_wf(),
                self@ == (MixerView { speakers: self@.speakers, ..old(self)@ }),
                forall|id: u16| #[trigger]
                    self@.speakers.contains_key(id) <==> start.contains_key(id) && (ids@.take(
                        i as int,
                    ).contains(id) ==> is_fresh(start[id], now)),
                forall|id: u16| #[trigger]
                    self@.speakers.contains_key(id) ==> self@.speakers[id] == start[id],
                dropped@.no_duplicates(),
                forall|id: u16| #[trigger]
                    dropped@.contains(id) <==> ids@.take(i as int).contains(id) && !is_fresh(
                        start[id],
                        now,
                    ),
            decreases ids.len() - i,
        {
            let id: u16 = ids[i];
            proof {
                assert(ids@.contains(id));
                lists::lemma_take(ids@, i as int);
                assert(self@.speakers.contains_key(id));
            }
            let fresh: bool = match fx_map::get(&self.speakers, &id) {
                Some(speaker) => now < speaker.last_active || now - speaker.last_active
                    < INACTIVE_TIMEOUT_NS,
                None => true,
            };
            if !fresh {
                let ghost before = self@.speakers;
                fx_map::remove(&mut self.speakers, &id);
                assert(self@.speakers =~= before.remove(id));
                proof {
                    lists::lemma_push(dropped@, id);
                }
                dropped.push(id);
            }
            i += 1;
        }
        proof {
            assert(ids@.take(i as int) =~= ids@);
            assert(self@.speakers =~= start.remove_keys(stale(start, now)));
            assert(self@.routing is None ==> self@.speakers =~= Map::empty());
        }
        dropped
    }
}

/// How the time that is left of a tick is spent.
#[derive(Debug, Clone, Copy, PartialEq, Eq, Structural)]
pub struct Pace {
    /// How long to sleep, in nanoseconds.
    pub sleep_ns: u64,
    /// Whether to wait for the end of the tick after that.
    pub spin: bool,
    /// Whether the work took longer than it should.
    pub overrun: bool,
}

/// The length of a tick in nanoseconds: 20 ms.
pub const TICK_NS: u64 = 20_000_000;

/// The time that the work of a tick should take at most, in nanoseconds: 15 ms.
pub const WORK_BUDGET_NS: u64 = 15_000_000;

/// The rest of a tick after work of the given length.
pub open spec fn paced(work_ns: u64) -> Pace {
    Pace {
        sleep_ns: if TICK_NS - work_ns > 2_000_000 {
            (TICK_NS - work_ns - 1_000_000) as u64
        } else {
            0
        },
        spin: work_ns < TICK_NS,
        overrun: work_ns > WORK_BUDGET_NS,
    }
}

/// Plans the rest of a tick: of more than 2 ms all but the last one is slept through, and what is
/// left is waited for.
pub fn pace(work_ns: u64) -> (pace: Pace)
    ensures
        pace == paced(work_ns),
        pace.overrun == (work_ns > WORK_BUDGET_NS),
        pace.spin ==> work_ns + pace.sleep_ns < TICK_NS,
        pace.spin == (work_ns < TICK_NS),
        pace.sleep_ns == (if TICK_NS - work_ns > 2_000_000 {
            TICK_NS - work_ns - 1_000_000
        } else {
            0
        }),
{
    let spin: bool = work_ns < TICK_NS;
    let sleep_ns: u64 = if spin && TICK_NS - work_ns > 2_000_000 {
        TICK_NS - work_ns - 1_000_000
    } else {
        0
    };
    Pace { sleep_ns, spin, overrun: work_ns > WORK_BUDGET_NS }
}

} // verus!
