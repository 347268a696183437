//! What holds of the mixer, in general.
use vstd::prelude::*;

use crate::audio::effects::{RadioNoise, SidetoneGenerator, SidetoneSound};
use crate::audio::mix;
use crate::audio::mixer;
use crate::audio::mixer::{MixerView, Output, Reception, SpeakerView, Voices};
use crate::audio::queue;
use crate::audio::relay;
use crate::audio::relay::GroupMix;
use crate::audio::routing;
use crate::audio::routing_laws;

verus! {

/// A packet of a client that no UID resolves to in the last routing data, or that comes before the
/// first, leaves no trace: the mixer is as if it had never come in.
pub proof fn law_unresolved_packet_dropped(
    mixer: MixerView,
    client_id: u16,
    frame: Seq<i16>,
    now: u64,
)
    requires
        !mixer.is_resolved(client_id),
    ensures
        mixer.received(client_id) == mixer,
        mixer.with_speaker(client_id, now) == mixer,
        mixer.with_frame(client_id, frame, now) == mixer,
{
}

/// Before the first routing data nothing is ever sent: no mix, and no sidetone.
pub proof fn law_nothing_sent_before_routing(
    mixer: MixerView,
    output: Output,
    noise: RadioNoise,
    mixes: Seq<GroupMix>,
    near: Seq<Vec<String>>,
)
    requires
        mixer.wf(),
        mixer.routing is None,
        output.of(mixer, noise),
        mixer::mixes_due(
            mixes,
            MixerView { speakers: mixer::played(mixer.speakers), ..mixer },
            output,
            near,
        ),
    ensures
        mixes.len() == 0,
        ({
            let active = output.voices.active_set@;
            let tracks = mixer::switched(
                mixer.sidetones,
                active.difference(mixer.prev_active),
                mixer.prev_active.difference(active),
            );
            mixer::ringing(tracks) == Set::<u16>::empty()
        }),
{
    let active = output.voices.active_set@;
    assert(active =~= Set::empty());
    let tracks = mixer::switched(
        mixer.sidetones,
        active.difference(mixer.prev_active),
        mixer.prev_active.difference(active),
    );
    assert(mixer::ringing(tracks) =~= Set::empty());
}

/// Where nobody has a frame waiting there are no voices.
proof fn lemma_no_voices(voices: Voices, speakers: Map<u16, SpeakerView>)
    requires
        voices.of(speakers),
        mixer::sounding(speakers) == Set::<u16>::empty(),
    ensures
        voices.speakers@.len() == 0,
        voices.frames@.len() == 0,
{
    if voices.speakers@.len() > 0 {
        let ids = relay::speaker_ids(voices.speakers@);
        assert(ids.contains(ids[0]));
    }
}

/// A speaker who alone has a frame waiting is relayed sample by sample to everybody who is sent
/// anything.
pub proof fn law_lone_speaker_relayed(
    mixer: MixerView,
    output: Output,
    noise: RadioNoise,
    mixes: Seq<GroupMix>,
    near: Seq<Vec<String>>,
    lone: u16,
    k: int,
    client_id: u16,
)
    requires
        mixer.wf(),
        output.of(mixer, noise),
        mixer::mixes_due(
            mixes,
            MixerView { speakers: mixer::played(mixer.speakers), ..mixer },
            output,
            near,
        ),
        mixer.routing matches Some(routing) && routing.force_whisper_client_id is None,
        mixer::sounding(mixer.speakers) == set![lone],
        relay::is_sent(mixes, k, client_id),
    ensures
        mixes[k].samples@ == mixer.speakers[lone].frames[0],
{
    let voices = output.voices;
    let routing = mixer.routing->0;
    let ids = relay::speaker_ids(voices.speakers@);
    let frames = relay::frame_views(voices.frames@);
    assert(mixer::sounding(mixer.speakers).contains(lone));
    assert(ids.contains(lone));
    assert(ids.len() == 1) by {
        if ids.len() > 1 {
            assert(ids.contains(ids[0]) && ids.contains(ids[1]));
            assert(ids[0] == lone && ids[1] == lone);
        }
    }
    assert(ids.contains(ids[0]));
    assert(voices.speakers@[0].0 == lone);
    assert(frames[0] == mixer.speakers[lone].frames[0]);
    assert(routing.receives(
        voices.speakers@,
        near,
        voices.active_set@,
        voices.speakers@.len() as int,
        client_id,
    ));
    let i = choose|i: int|
        0 <= i < voices.speakers@.len() && routing.hears(
            (#[trigger] voices.speakers@[i]).1@,
            routing::near_of(near, i),
            client_id,
        );
    assert(i == 0);
    assert(mixer.speakers.contains_key(lone));
    routing_laws::law_one_voice_heard(routing, voices.speakers@, frames, near, client_id, 0);
}

/// Once nobody speaks any more, exactly those who were sent the last voices are sent a frame, which
/// the squelch tail goes into: as long as there are effects and no client is forced.
pub proof fn law_tail_follows_voices(
    first: MixerView,
    spoken: Output,
    voices_sent: Seq<GroupMix>,
    second: MixerView,
    quiet: Output,
    noise: RadioNoise,
    tail_sent: Seq<GroupMix>,
    near: Seq<Vec<String>>,
    client_id: u16,
)
    requires
        spoken.shaping matches Some(shaping) && shaping.had_speakers,
        second.listeners == mixer::listeners_after(voices_sent, first, spoken),
        second.wf(),
        second.routing matches Some(routing) && routing.force_whisper_client_id is None
            && routing.radio_effects_enabled,
        mixer::sounding(second.speakers) == Set::<u16>::empty(),
        noise.active,
        quiet.of(second, noise),
        mixer::mixes_due(
            tail_sent,
            MixerView { speakers: mixer::played(second.speakers), ..second },
            quiet,
            near,
        ),
    ensures
        (exists|k: int| relay::is_sent(voices_sent, k, client_id)) <==> exists|k: int|
            relay::is_sent(tail_sent, k, client_id),
        forall|k: int|
            0 <= k < tail_sent.len() ==> (#[trigger] tail_sent[k]).samples@ == mix::silence(),
        noise.step(false) is StartTail,
{
    lemma_no_voices(quiet.voices, second.speakers);
    assert(second.listeners.contains(client_id) <==> exists|k: int|
        relay::is_sent(voices_sent, k, client_id));
    if second.listeners.len() > 0 {
        assert(tail_sent.len() == 1);
        assert(tail_sent[0].recipients@.contains(client_id) <==> second.listeners.contains(
            client_id,
        ));
        if second.listeners.contains(client_id) {
            assert(relay::is_sent(tail_sent, 0, client_id));
        }
    } else {
        assert(second.listeners =~= Set::empty());
    }
}

/// The speakers after several ticks in which no frame comes in.
pub open spec fn played_times(speakers: Map<u16, SpeakerView>, ticks: nat) -> Map<u16, SpeakerView>
    decreases ticks,
{
    if ticks == 0 {
        speakers
    } else {
        mixer::played(played_times(speakers, (ticks - 1) as nat))
    }
}

/// Without new frames every speaker has fallen silent after eight ticks.
pub proof fn law_speakers_fall_silent(speakers: Map<u16, SpeakerView>)
    requires
        mixer::speakers_wf(speakers),
    ensures
        mixer::sounding(played_times(speakers, queue::MAX_SPEAKER_QUEUE as nat)) == Set::<
            u16,
        >::empty(),
{
    let after = played_times(speakers, queue::MAX_SPEAKER_QUEUE as nat);
    assert forall|id: u16| !mixer::sounding(after).contains(id) by {
        lemma_frames_left(speakers, queue::MAX_SPEAKER_QUEUE as nat, id);
        if speakers.contains_key(id) {
            assert(queue::frames_wf(speakers[id].frames));
        }
    }
    assert(mixer::sounding(after) =~= Set::<u16>::empty());
}

proof fn lemma_frames_left(speakers: Map<u16, SpeakerView>, ticks: nat, id: u16)
    ensures
        played_times(speakers, ticks).contains_key(id) == speakers.contains_key(id),
        speakers.contains_key(id) ==> played_times(speakers, ticks)[id].frames.len() == (if ticks
            <= speakers[id].frames.len() {
            speakers[id].frames.len() - ticks
        } else {
            0
        }),
    decreases ticks,
{
    if ticks > 0 {
        lemma_frames_left(speakers, (ticks - 1) as nat, id);
    }
}

/// A client that begins to speak hears a click.
pub proof fn law_click_on_start(
    sidetones: Map<u16, SidetoneGenerator>,
    prev: Set<u16>,
    active: Set<u16>,
    id: u16,
)
    requires
        active.contains(id),
        !prev.contains(id),
    ensures
        ({
            let after = mixer::switched(sidetones, active.difference(prev), prev.difference(active));
            after.contains_key(id) && after[id].sound() == Some(SidetoneSound::Click)
        }),
{
}

/// On the tick on which a client begins to speak it is sent a click, and no mix.
pub proof fn law_new_speaker_gets_no_mix(
    mixer: MixerView,
    output: Output,
    noise: RadioNoise,
    mixes: Seq<GroupMix>,
    near: Seq<Vec<String>>,
    k: int,
    id: u16,
)
    requires
        output.of(mixer, noise),
        mixer::mixes_due(
            mixes,
            MixerView { speakers: mixer::played(mixer.speakers), ..mixer },
            output,
            near,
        ),
        mixer.routing matches Some(routing) ==> routing.force_whisper_client_id is None,
        output.voices.active_set@.contains(id),
        !mixer.prev_active.contains(id),
    ensures
        !relay::is_sent(mixes, k, id),
        ({
            let active = output.voices.active_set@;
            let tracks = mixer::switched(
                mixer.sidetones,
                active.difference(mixer.prev_active),
                mixer.prev_active.difference(active),
            );
            mixer::ringing(tracks).contains(id) && tracks[id].sound() == Some(SidetoneSound::Click)
        }),
{
    law_click_on_start(mixer.sidetones, mixer.prev_active, output.voices.active_set@, id);
    law_speakers_get_no_mix(mixer, output, noise, mixes, near, k, id);
}

/// Whoever speaks is sent no mix, unless the client is forced.
pub proof fn law_speakers_get_no_mix(
    mixer: MixerView,
    output: Output,
    noise: RadioNoise,
    mixes: Seq<GroupMix>,
    near: Seq<Vec<String>>,
    k: int,
    id: u16,
)
    requires
        output.of(mixer, noise),
        mixer::mixes_due(
            mixes,
            MixerView { speakers: mixer::played(mixer.speakers), ..mixer },
            output,
            near,
        ),
        mixer.routing matches Some(routing) ==> routing.force_whisper_client_id is None,
        output.voices.active_set@.contains(id),
    ensures
        !relay::is_sent(mixes, k, id),
{
    let voices = output.voices;
    let ids = relay::speaker_ids(voices.speakers@);
    assert(ids.contains(id));
    assert(voices.speakers@.len() > 0);
    if mixer.routing is Some && relay::is_sent(mixes, k, id) {
        routing_laws::law_speakers_receive_no_mix(
            mixer.routing->0,
            voices.speakers@,
            near,
            voices.active_set@,
            id,
        );
    }
}

/// A client that falls silent hears a squelch tail, or the rest of a click before it.
pub proof fn law_tail_on_stop(
    sidetones: Map<u16, SidetoneGenerator>,
    prev: Set<u16>,
    active: Set<u16>,
    id: u16,
)
    requires
        prev.contains(id),
        !active.contains(id),
    ensures
        ({
            let after = mixer::switched(sidetones, active.difference(prev), prev.difference(active));
            &&& after.contains_key(id)
            &&& after[id].tail_noise.sounding()
            &&& after[id].sound() is Some
            &&& !mixer::track_of(sidetones, id).click ==> after[id].sound() == Some(
                SidetoneSound::Tail,
            )
        }),
{
}

/// A client that goes on speaking, or stays silent, starts no sidetone.
pub proof fn law_no_sidetone_without_change(
    sidetones: Map<u16, SidetoneGenerator>,
    prev: Set<u16>,
    active: Set<u16>,
    id: u16,
)
    requires
        prev.contains(id) == active.contains(id),
    ensures
        ({
            let after = mixer::switched(sidetones, active.difference(prev), prev.difference(active));
            after.contains_key(id) == sidetones.contains_key(id) && (sidetones.contains_key(id)
                ==> after[id] == sidetones[id])
        }),
{
}

/// Where two UIDs never resolve to one client, turning the resolution round gives back the UID of
/// every client.
pub proof fn law_reverse_round_trip(
    uids: Map<u16, Seq<char>>,
    ids: Map<Seq<char>, u16>,
    uid: Seq<char>,
)
    requires
        mixer::reverses(uids, ids),
        routing_laws::one_uid_per_client(ids),
        ids.contains_key(uid),
    ensures
        uids.contains_key(ids[uid]),
        uids[ids[uid]] == uid,
{
    assert(uids.contains_key(ids[uid]));
}

/// A cleanup keeps every speaker with sound in the last ten seconds, as it is, and nobody else.
pub proof fn law_cleanup(speakers: Map<u16, SpeakerView>, now: u64, id: u16)
    ensures
        ({
            let after = speakers.remove_keys(mixer::stale(speakers, now));
            &&& after.contains_key(id) <==> speakers.contains_key(id) && now
                - speakers[id].last_active < mixer::INACTIVE_TIMEOUT_NS
            &&& after.contains_key(id) ==> after[id] == speakers[id]
        }),
{
}

/// A frame of a known speaker whose client is resolved waits behind the others, and from then on
/// the speaker counts as active at the time it came. The UID is as before, and so is everybody
/// else.
pub proof fn law_frame_waits(
    mixer: MixerView,
    client_id: u16,
    frame: Seq<i16>,
    now: u64,
    other: u16,
)
    requires
        mixer.is_resolved(client_id),
        mixer.speakers.contains_key(client_id),
        mixer.speakers[client_id].frames.len() <= 8,
    ensures
        ({
            let before = mixer.speakers[client_id];
            let after = mixer.with_frame(client_id, frame, now);
            let speaker = after.speakers[client_id];
            &&& after.speakers.contains_key(client_id)
            &&& speaker.last_active == now
            &&& speaker.uid == before.uid
            &&& speaker.frames.len() > 0
            &&& speaker.frames[speaker.frames.len() - 1] == frame
            &&& before.frames.len() < 8 ==> speaker.frames == before.frames.push(frame)
            &&& before.frames.len() == 8 ==> speaker.frames == before.frames.drop_first().push(frame)
            &&& other != client_id ==> {
                &&& after.speakers.contains_key(other) == mixer.speakers.contains_key(other)
                &&& after.speakers[other] == mixer.speakers[other]
            }
            &&& after == (MixerView { speakers: after.speakers, ..mixer })
        }),
{
}

/// A speaker of whom a frame came in stays for ten seconds, with the frames that wait: a cleanup
/// before that keeps the speaker as the speaker is, a cleanup after that does not.
pub proof fn law_speaker_stays(
    mixer: MixerView,
    client_id: u16,
    frame: Seq<i16>,
    now: u64,
    cleanup: u64,
)
    requires
        mixer.is_resolved(client_id),
        mixer.speakers.contains_key(client_id),
    ensures
        ({
            let before = mixer.with_frame(client_id, frame, now).speakers;
            let after = before.remove_keys(mixer::stale(before, cleanup));
            &&& after.contains_key(client_id) <==> cleanup < now + 10_000_000_000
            &&& after.contains_key(client_id) ==> after[client_id].frames
                == before[client_id].frames && after[client_id].uid == before[client_id].uid
        }),
{
}

/// A cleanup takes nobody but those without sound for ten seconds, and all of them, every five
/// seconds; the others it leaves as they are.
pub proof fn law_cleanup_times(speakers: Map<u16, SpeakerView>, now: u64, id: u16)
    ensures
        mixer::stale(speakers, now).contains(id) <==> speakers.contains_key(id)
            && speakers[id].last_active + 10_000_000_000 <= now,
        mixer::CLEANUP_INTERVAL_TICKS * mixer::TICK_NS == 5_000_000_000,
{
}

/// A new speaker is active at the time of entry, has no frames waiting and the UID of the client;
/// nobody else changes.
pub proof fn law_speaker_enters(mixer: MixerView, client_id: u16, now: u64, other: u16)
    requires
        mixer.is_resolved(client_id),
    ensures
        ({
            let after = mixer.with_speaker(client_id, now);
            &&& after.speakers.contains_key(client_id)
            &&& after.speakers[client_id].frames.len() == 0
            &&& after.speakers[client_id].last_active == now
            &&& after.speakers[client_id].uid == mixer.uids[client_id]
            &&& other != client_id ==> {
                &&& after.speakers.contains_key(other) == mixer.speakers.contains_key(other)
                &&& after.speakers[other] == mixer.speakers[other]
            }
            &&& after == (MixerView { speakers: after.speakers, ..mixer })
        }),
{
}

/// A packet refreshes the UID of a known speaker whose client is resolved; frames and times stay,
/// and so does everybody else. It enters nobody.
pub proof fn law_uid_refreshed(mixer: MixerView, client_id: u16, other: u16)
    ensures
        ({
            let after = mixer.received(client_id);
            &&& after.speakers.contains_key(other) == mixer.speakers.contains_key(other)
            &&& mixer.speakers.contains_key(other) ==> {
                &&& after.speakers[other].frames == mixer.speakers[other].frames
                &&& after.speakers[other].last_active == mixer.speakers[other].last_active
                &&& after.speakers[other].uid == (if other == client_id && mixer.is_resolved(
                    client_id,
                ) {
                    mixer.uids[client_id]
                } else {
                    mixer.speakers[other].uid
                })
            }
            &&& after == (MixerView { speakers: after.speakers, ..mixer })
        }),
{
}

/// A client is resolved exactly if there is routing data in which some UID resolves to it.
pub proof fn law_resolved(mixer: MixerView, client_id: u16)
    ensures
        mixer.is_resolved(client_id) <==> mixer.routing is Some && exists|uid: Seq<char>| #[trigger]
            mixer.routing->0.ids.contains_key(uid) && mixer.routing->0.ids[uid] == client_id,
{
}

/// A resolution that is turned round holds exactly the clients that some UID resolves to, each with
/// a UID that resolves to it.
pub proof fn law_reversed(uids: Map<u16, Seq<char>>, ids: Map<Seq<char>, u16>, client_id: u16)
    requires
        mixer::reverses(uids, ids),
    ensures
        uids.contains_key(client_id) <==> exists|uid: Seq<char>| #[trigger]
            ids.contains_key(uid) && ids[uid] == client_id,
        uids.contains_key(client_id) ==> ids.contains_key(uids[client_id]) && ids[uids[client_id]]
            == client_id,
{
    if uids.contains_key(client_id) {
        assert(ids.contains_key(uids[client_id]));
    }
}

/// On every tick each speaker plays the oldest frame waiting, if there is one: the others move up,
/// and nothing else of a speaker changes.
pub proof fn law_played(speakers: Map<u16, SpeakerView>, id: u16)
    ensures
        mixer::played(speakers).contains_key(id) == speakers.contains_key(id),
        speakers.contains_key(id) ==> {
            let before = speakers[id];
            let after = mixer::played(speakers)[id];
            &&& after.last_active == before.last_active
            &&& after.uid == before.uid
            &&& before.frames.len() > 0 ==> after.frames == before.frames.subrange(
                1,
                before.frames.len() as int,
            )
            &&& before.frames.len() == 0 ==> after.frames.len() == 0
        },
{
}

/// The voices of a tick are the oldest frames of exactly the speakers who have one waiting, each
/// once, with the speaker's UID.
pub proof fn law_voices(mixer: MixerView, output: Output, noise: RadioNoise, id: u16)
    requires
        output.of(mixer, noise),
    ensures
        ({
            let voices = output.voices;
            let waits = mixer.speakers.contains_key(id) && mixer.speakers[id].frames.len() > 0;
            &&& voices.frames@.len() == voices.speakers@.len()
            &&& voices.active_set@.contains(id) <==> waits
            &&& waits <==> exists|i: int|
                0 <= i < voices.speakers@.len() && (#[trigger] voices.speakers@[i]).0 == id
            &&& forall|i: int|
                0 <= i < voices.speakers@.len() && (#[trigger] voices.speakers@[i]).0 == id ==> {
                    &&& voices.speakers@[i].1@ == mixer.speakers[id].uid
                    &&& voices.frames@[i]@ == mixer.speakers[id].frames[0]
                }
            &&& forall|i: int, j: int|
                0 <= i < j < voices.speakers@.len() ==> (#[trigger] voices.speakers@[i]).0 != (
                #[trigger] voices.speakers@[j]).0
        }),
{
    let voices = output.voices;
    let ids = relay::speaker_ids(voices.speakers@);
    assert(ids.contains(id) <==> mixer::sounding(mixer.speakers).contains(id));
    if ids.contains(id) {
        let i = choose|i: int| 0 <= i < ids.len() && ids[i] == id;
        assert(voices.speakers@[i].0 == id);
    }
    assert forall|i: int|
        0 <= i < voices.speakers@.len() && (
        #[trigger] voices.speakers@[i]).0 == id implies ids.contains(id) by {
        assert(ids[i] == id);
    }
    assert forall|i: int, j: int| 0 <= i < j < voices.speakers@.len() implies (
    #[trigger] voices.speakers@[i]).0 != (#[trigger] voices.speakers@[j]).0 by {
        assert(ids[i] != ids[j]);
    }
}

/// The sound of a tick is shaped as the routing data says, with voices and without: there are
/// effects exactly if they are enabled, and the gain is the configured one. There is sound exactly
/// if a speaker has a frame waiting, or noise is still to be heard.
pub proof fn law_shaping(mixer: MixerView, output: Output, noise: RadioNoise)
    requires
        output.of(mixer, noise),
    ensures
        ({
            let somebody = exists|id: u16| #[trigger]
                mixer.speakers.contains_key(id) && mixer.speakers[id].frames.len() > 0;
            &&& output.shaping is Some <==> somebody || noise.active || noise.tail
            &&& output.shaping matches Some(shaping) ==> {
                &&& shaping.had_speakers <==> somebody
                &&& mixer.routing matches Some(routing) ==> {
                    &&& shaping.effects == routing.radio_effects_enabled
                    &&& shaping.output_gain == routing.output_gain
                }
                &&& mixer.routing is None ==> !shaping.effects && shaping.output_gain == 0x3f80_0000
            }
        }),
{
    let voices = output.voices;
    if voices.speakers@.len() > 0 {
        law_voices(mixer, output, noise, voices.speakers@[0].0);
        assert(mixer.speakers.contains_key(voices.speakers@[0].0));
    }
    if exists|id: u16| #[trigger]
        mixer.speakers.contains_key(id) && mixer.speakers[id].frames.len() > 0 {
        let id = choose|id: u16| #[trigger]
            mixer.speakers.contains_key(id) && mixer.speakers[id].frames.len() > 0;
        law_voices(mixer, output, noise, id);
    }
}

/// Where effects are disabled, no tick has any: neither one with voices nor one without; and without
/// voices nobody is sent anything, unless a client is forced.
pub proof fn law_no_effects_when_disabled(
    mixer: MixerView,
    output: Output,
    noise: RadioNoise,
    mixes: Seq<GroupMix>,
    near: Seq<Vec<String>>,
)
    requires
        output.of(mixer, noise),
        mixer.routing matches Some(routing) && !routing.radio_effects_enabled,
        mixer::mixes_due(
            mixes,
            MixerView { speakers: mixer::played(mixer.speakers), ..mixer },
            output,
            near,
        ),
    ensures
        output.shaping matches Some(shaping) ==> !shaping.effects,
        mixer.routing->0.force_whisper_client_id is None && output.voices.speakers@.len() == 0
            ==> mixes.len() == 0,
{
}

/// What is to be measured: for each speaker the sphere that the routing data gives, and nothing
/// where nothing is to be heard.
pub proof fn law_spheres(mixer: MixerView, output: Output, noise: RadioNoise, i: int)
    requires
        output.of(mixer, noise),
    ensures
        output.shaping is None ==> output.spheres@.len() == 0,
        output.shaping is Some ==> output.spheres@.len() == output.voices.speakers@.len(),
        output.shaping is Some && 0 <= i < output.spheres@.len() ==> output.spheres@[i] == (
        match mixer.routing {
            Some(routing) => routing.sphere(output.voices.speakers@[i].1@),
            None => None,
        }),
{
}

/// As long as somebody speaks and no client is forced, a client is sent a mix exactly if it does not
/// speak and hears somebody; it is sent one alone. Every voice that it hears is in that mix: where
/// the magnitudes fit, each sample is the sum over all the speakers that it hears.
pub proof fn law_voices_delivered(
    mixer: MixerView,
    output: Output,
    noise: RadioNoise,
    mixes: Seq<GroupMix>,
    near: Seq<Vec<String>>,
    client_id: u16,
    sample: int,
)
    requires
        output.of(mixer, noise),
        output.voices.speakers@.len() > 0,
        mixer.routing matches Some(routing) && routing.force_whisper_client_id is None,
        mixer::mixes_due(
            mixes,
            MixerView { speakers: mixer::played(mixer.speakers), ..mixer },
            output,
            near,
        ),
        0 <= sample < 960,
    ensures
        ({
            let routing = mixer.routing->0;
            let voices = output.voices;
            let frames = Seq::new(voices.frames@.len(), |i: int| voices.frames@[i]@);
            let speaks = mixer.speakers.contains_key(client_id)
                && mixer.speakers[client_id].frames.len() > 0;
            &&& (exists|k: int|
                0 <= k < mixes.len() && (#[trigger] mixes[k]).recipients@.contains(client_id))
                <==> !speaks && exists|i: int|
                0 <= i < voices.speakers@.len() && routing.hears(
                    (#[trigger] voices.speakers@[i]).1@,
                    routing::near_of(near, i),
                    client_id,
                )
            &&& forall|j: int, k: int|
                0 <= j < mixes.len() && 0 <= k < mixes.len() && (
                #[trigger] mixes[j]).recipients@.contains(client_id) && (
                #[trigger] mixes[k]).recipients@.contains(client_id) ==> j == k
            &&& forall|k: int|
                0 <= k < mixes.len() && (#[trigger] mixes[k]).recipients@.contains(client_id) ==> {
                    &&& mixes[k].speakers@.len() == routing_laws::voices_heard(
                        routing,
                        voices.speakers@,
                        near,
                        client_id,
                        voices.speakers@.len() as int,
                    )
                    &&& routing_laws::magnitude_heard(
                        routing,
                        voices.speakers@,
                        frames,
                        near,
                        client_id,
                        sample,
                        voices.speakers@.len() as int,
                    ) <= 32767 ==> mixes[k].samples@[sample] == routing_laws::sum_heard(
                        routing,
                        voices.speakers@,
                        frames,
                        near,
                        client_id,
                        sample,
                        voices.speakers@.len() as int,
                    )
                }
        }),
{
    let routing = mixer.routing->0;
    let voices = output.voices;
    let frames = relay::frame_views(voices.frames@);
    assert(frames =~= Seq::new(voices.frames@.len(), |i: int| voices.frames@[i]@));
    let n = voices.speakers@.len() as int;
    law_voices(mixer, output, noise, client_id);
    routing_laws::law_every_voice_heard_is_sent(
        routing,
        voices.speakers@,
        frames,
        near,
        client_id,
        sample,
    );
    routing_laws::law_speakers_named(routing, voices.speakers@, frames, near, client_id);
    assert forall|k: int|
        0 <= k < mixes.len() && (#[trigger] mixes[k]).recipients@.contains(
            client_id,
        ) implies relay::is_sent(mixes, k, client_id) by {}
    if routing.receives(voices.speakers@, near, voices.active_set@, n, client_id) {
        let k = choose|k: int| relay::is_sent(mixes, k, client_id);
        assert(mixes[k].recipients@.contains(client_id));
    }
}

/// A forced client is sent every voice of the tick, whoever hears it otherwise, and nobody else is
/// sent anything.
pub proof fn law_forced_client(
    mixer: MixerView,
    output: Output,
    noise: RadioNoise,
    mixes: Seq<GroupMix>,
    near: Seq<Vec<String>>,
    forced: u16,
    sample: int,
)
    requires
        output.of(mixer, noise),
        output.shaping is Some,
        mixer.routing matches Some(routing) && routing.force_whisper_client_id == Some(forced),
        mixer::mixes_due(
            mixes,
            MixerView { speakers: mixer::played(mixer.speakers), ..mixer },
            output,
            near,
        ),
        0 <= sample < 960,
    ensures
        ({
            let voices = output.voices;
            let frames = Seq::new(voices.frames@.len(), |i: int| voices.frames@[i]@);
            &&& mixes.len() == 1
            &&& mixes[0].recipients@.len() == 1
            &&& mixes[0].recipients@[0] == forced
            &&& mixes[0].speakers@.len() == voices.speakers@.len()
            &&& forall|i: int|
                0 <= i < voices.speakers@.len() ==> #[trigger] mixes[0].speakers@[i]
                    == voices.speakers@[i].0
            &&& mix::magnitude_at(frames, sample) <= 32767 ==> mixes[0].samples@[sample]
                == mix::sum_at(frames, sample)
        }),
{
    let frames = relay::frame_views(output.voices.frames@);
    assert(frames =~= Seq::new(
        output.voices.frames@.len(),
        |i: int| output.voices.frames@[i]@,
    ));
    if mix::magnitude_at(frames, sample) <= i16::MAX {
        mix::law_quiet_mix_is_sum(frames, sample);
    }
}

/// Without voices, and where no client is forced, exactly those who heard the last voices are sent a
/// silent frame, if effects are enabled; otherwise nobody is sent anything.
pub proof fn law_quiet_tick(
    mixer: MixerView,
    output: Output,
    noise: RadioNoise,
    mixes: Seq<GroupMix>,
    near: Seq<Vec<String>>,
    client_id: u16,
)
    requires
        output.of(mixer, noise),
        output.voices.speakers@.len() == 0,
        noise.active || noise.tail,
        mixer.listeners.finite(),
        mixer.routing matches Some(routing) && routing.force_whisper_client_id is None,
        mixer::mixes_due(
            mixes,
            MixerView { speakers: mixer::played(mixer.speakers), ..mixer },
            output,
            near,
        ),
    ensures
        (exists|k: int|
            0 <= k < mixes.len() && (#[trigger] mixes[k]).recipients@.contains(client_id))
            <==> mixer.routing->0.radio_effects_enabled && mixer.listeners.contains(client_id),
        forall|k: int, i: int|
            0 <= k < mixes.len() && 0 <= i < 960 ==> #[trigger] mixes[k].samples@[i] == 0,
        forall|k: int|
            0 <= k < mixes.len() ==> (#[trigger] mixes[k]).speakers@.len() == 0
                && mixes[k].samples@.len() == 960,
{
    if mixer.listeners.contains(client_id) {
        assert(mixer.listeners.len() > 0);
        if mixer.routing->0.radio_effects_enabled {
            assert(mixes[0].recipients@.contains(client_id));
        }
    }
}

/// Whom the last voices went to: after a tick with voices those who are sent a mix, and otherwise the
/// same as before.
pub proof fn law_listeners_kept(
    mixes: Seq<GroupMix>,
    mixer: MixerView,
    output: Output,
    noise: RadioNoise,
    client_id: u16,
)
    requires
        output.of(mixer, noise),
    ensures
        mixer::listeners_after(mixes, mixer, output).contains(client_id) <==> if exists|id: u16|
            #[trigger]
            mixer.speakers.contains_key(id) && mixer.speakers[id].frames.len() > 0 {
            exists|k: int|
                0 <= k < mixes.len() && (#[trigger] mixes[k]).recipients@.contains(client_id)
        } else {
            mixer.listeners.contains(client_id)
        },
{
    law_shaping(mixer, output, noise);
    assert forall|k: int|
        0 <= k < mixes.len() && (#[trigger] mixes[k]).recipients@.contains(
            client_id,
        ) implies relay::is_sent(mixes, k, client_id) by {}
    if exists|k: int| relay::is_sent(mixes, k, client_id) {
        let k = choose|k: int| relay::is_sent(mixes, k, client_id);
        assert(mixes[k].recipients@.contains(client_id));
    }
}

/// What becomes of a sidetone when its client begins to speak or falls silent, part by part. A
/// client without one gets a new one; a click and a tail do not disturb each other.
pub proof fn law_sidetone_parts(
    sidetones: Map<u16, SidetoneGenerator>,
    started: Set<u16>,
    stopped: Set<u16>,
    id: u16,
)
    ensures
        ({
            let after = mixer::switched(sidetones, started, stopped);
            &&& after.contains_key(id) <==> sidetones.contains_key(id) || started.contains(id)
                || stopped.contains(id)
            &&& started.contains(id) ==> {
                &&& after[id].click
                &&& sidetones.contains_key(id) ==> {
                    &&& after[id].click_lcg == sidetones[id].click_lcg
                    &&& after[id].tail_noise == sidetones[id].tail_noise
                }
                &&& !sidetones.contains_key(id) ==> {
                    &&& after[id].click_lcg.state == 99911
                    &&& after[id].tail_noise.lcg.state == 54321
                    &&& !after[id].tail_noise.active
                    &&& !after[id].tail_noise.tail
                }
            }
            &&& stopped.contains(id) && !started.contains(id) ==> {
                &&& after[id].tail_noise.tail
                &&& !after[id].tail_noise.active
                &&& after[id].tail_noise.lcg.state == (54321 * 1664525 + 1013904223)
                    % 0x1_0000_0000
                &&& sidetones.contains_key(id) ==> {
                    &&& after[id].click == sidetones[id].click
                    &&& after[id].click_lcg == sidetones[id].click_lcg
                }
                &&& !sidetones.contains_key(id) ==> {
                    &&& !after[id].click
                    &&& after[id].click_lcg.state == 99911
                }
            }
            &&& !started.contains(id) && !stopped.contains(id) && sidetones.contains_key(id)
                ==> after[id] == sidetones[id]
        }),
{
}

/// A client has something to be heard exactly while a click, noise or a tail of its sidetone sounds.
pub proof fn law_ringing(sidetones: Map<u16, SidetoneGenerator>, id: u16)
    ensures
        mixer::ringing(sidetones).contains(id) <==> sidetones.contains_key(id) && (
        sidetones[id].click || sidetones[id].tail_noise.active || sidetones[id].tail_noise.tail),
{
}

/// What holds of a mixer between any two calls, part by part.
pub proof fn law_wf_means(mixer: MixerView, id: u16)
    requires
        mixer.wf(),
    ensures
        mixer.tick_count < 250,
        mixer.speakers.contains_key(id) ==> mixer.speakers[id].frames.len() <= 8,
        mixer.speakers.contains_key(id) ==> forall|i: int|
            0 <= i < mixer.speakers[id].frames.len() ==> (
            #[trigger] mixer.speakers[id].frames[i]).len() == 960,
        mixer.uids.contains_key(id) <==> mixer.is_resolved(id),
        mixer.uids.contains_key(id) ==> mixer.routing->0.ids.contains_key(mixer.uids[id])
            && mixer.routing->0.ids[mixer.uids[id]] == id,
        mixer.routing is None ==> !mixer.speakers.contains_key(id) && !mixer.sidetones.contains_key(
            id,
        ) && !mixer.listeners.contains(id) && !mixer.prev_active.contains(id),
{
    law_resolved(mixer, id);
    if mixer.routing is Some {
        law_reversed(mixer.uids, mixer.routing->0.ids, id);
    }
    if mixer.speakers.contains_key(id) {
        assert(queue::frames_wf(mixer.speakers[id].frames));
    }
}

/// A packet is dropped exactly if no UID resolves to its client; otherwise it is decoded, after a
/// decoder has been made where the client has not spoken yet.
pub proof fn law_reception(mixer: MixerView, client_id: u16)
    ensures
        mixer.reception(client_id) == Reception::Unresolved <==> !mixer.is_resolved(client_id),
        mixer.reception(client_id) == Reception::Ready <==> mixer.is_resolved(client_id)
            && mixer.speakers.contains_key(client_id),
        mixer.reception(client_id) == Reception::NewSpeaker <==> mixer.is_resolved(client_id)
            && !mixer.speakers.contains_key(client_id),
{
}

/// The end of a tick counts it. The end of every 250th drops exactly the speakers without sound for
/// ten seconds; no other end drops anybody, and nothing else of the mixer changes.
pub proof fn law_tick_ends(mixer: MixerView, now: u64, id: u16)
    requires
        mixer.tick_count < 250,
    ensures
        ({
            let after = mixer.ended(now);
            &&& after.tick_count == (mixer.tick_count + 1) % 250
            &&& after.speakers.contains_key(id) <==> mixer.speakers.contains_key(id) && (
            mixer.tick_count == 249 ==> now < mixer.speakers[id].last_active + 10_000_000_000)
            &&& after.speakers.contains_key(id) ==> after.speakers[id] == mixer.speakers[id]
            &&& after.routing == mixer.routing
            &&& after.uids == mixer.uids
            &&& after.prev_active == mixer.prev_active
            &&& after.sidetones == mixer.sidetones
            &&& after.listeners == mixer.listeners
        }),
{
}

/// The output of a tick leaves behind who spoke in it, the sidetones that still sound and the
/// listeners; speakers, routing data and the count of ticks stay.
pub proof fn law_output_finished(
    mixer: MixerView,
    mixes: Seq<GroupMix>,
    output: Output,
    id: u16,
)
    ensures
        ({
            let after = mixer.finished(mixes, output);
            let active = output.voices.active_set@;
            let tracks = mixer::switched(
                mixer.sidetones,
                active.difference(mixer.prev_active),
                mixer.prev_active.difference(active),
            );
            &&& after.prev_active.contains(id) <==> active.contains(id)
            &&& after.sidetones.contains_key(id) <==> tracks.contains_key(id) && (tracks[id].click
                || tracks[id].tail_noise.active || tracks[id].tail_noise.tail)
            &&& after.sidetones.contains_key(id) ==> after.sidetones[id] == tracks[id]
            &&& after.listeners == mixer::listeners_after(mixes, mixer, output)
            &&& after.speakers == mixer.speakers
            &&& after.routing == mixer.routing
            &&& after.uids == mixer.uids
            &&& after.tick_count == mixer.tick_count
        }),
{
}

/// Work and sleep together end 1 ms before the tick of 20 ms does, where more than 2 ms are left of
/// it, and otherwise nothing is slept through; the rest is waited for. Work of more than 15 ms
/// overruns.
pub proof fn law_pace(work_ns: u64)
    ensures
        work_ns < 18_000_000 ==> work_ns + mixer::paced(work_ns).sleep_ns == 19_000_000,
        work_ns >= 18_000_000 ==> mixer::paced(work_ns).sleep_ns == 0,
        mixer::paced(work_ns).spin <==> work_ns < 20_000_000,
        mixer::paced(work_ns).overrun <==> work_ns > 15_000_000,
{
}

} // verus!
