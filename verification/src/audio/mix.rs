//! Adding frames of sound.
use vstd::prelude::*;

use crate::audio::{Frame, FRAME_SAMPLES};

verus! {

/// The sample nearest to a number.
pub open spec fn saturated(n: int) -> i16 {
    if n > i16::MAX {
        i16::MAX
    } else if n < i16::MIN {
        i16::MIN
    } else {
        n as i16
    }
}

/// Silence.
pub open spec fn silence() -> Seq<i16> {
    Seq::new(FRAME_SAMPLES as nat, |i: int| 0i16)
}

/// Two frames, sample by sample; sums that do not fit stay at the limit.
pub open spec fn added(a: Seq<i16>, b: Seq<i16>) -> Seq<i16> {
    Seq::new(a.len(), |i: int| saturated(a[i] + b[i]))
}

/// Several frames, added in their order to silence.
pub open spec fn mixed(frames: Seq<Seq<i16>>) -> Seq<i16>
    decreases frames.len(),
{
    if frames.len() == 0 {
        silence()
    } else {
        added(mixed(frames.drop_last()), frames.last())
    }
}

/// Adds two samples; a sum that does not fit stays at the limit.
pub fn saturating_sum(a: i16, b: i16) -> (sum: i16)
    ensures
        sum == saturated(a + b),
{
    let wide: i32 = a as i32 + b as i32;
    if wide > 32767 {
        32767
    } else if wide < -32768 {
        -32768
    } else {
        wide as i16
    }
}

/// A frame of silence.
pub fn silent_frame() -> (frame: Frame)
    ensures
        frame@ == silence(),
{
    let frame: Frame = [0i16; FRAME_SAMPLES];
    assert(frame@ =~= silence());
    frame
}

/// Adds a frame to the mix.
pub fn add_frame(mix: &mut Frame, frame: &Frame)
    ensures
        final(mix)@ == added(old(mix)@, frame@),
{
    let ghost before = mix@;
    let mut i: usize = 0;
    while i < FRAME_SAMPLES
        invariant
            i <= FRAME_SAMPLES,
            before == old(mix)@,
            forall|j: int| i <= j < FRAME_SAMPLES ==> #[trigger] mix@[j] == before[j],
            forall|j: int|
                0 <= j < i ==> #[trigger] mix@[j] == saturated(before[j] + frame@[j]),
        decreases FRAME_SAMPLES - i,
    {
        mix[i] = saturating_sum(mix[i], frame[i]);
        i += 1;
    }
    assert(mix@ =~= added(before, frame@));
}

/// A speaker who speaks alone is relayed sample by sample.
pub proof fn law_single_speaker_unchanged(frame: Seq<i16>)
    requires
        frame.len() == FRAME_SAMPLES,
    ensures
        mixed(seq![frame]) == frame,
{
    assert(seq![frame].drop_last() =~= Seq::empty());
    assert(mixed(seq![frame].drop_last()) == silence());
    assert(mixed(seq![frame]) =~= frame);
}

/// Two speakers sound the same in either order.
pub proof fn law_two_speakers_commute(a: Seq<i16>, b: Seq<i16>)
    requires
        a.len() == FRAME_SAMPLES,
        b.len() == FRAME_SAMPLES,
    ensures
        mixed(seq![a, b]) == mixed(seq![b, a]),
{
    assert(seq![a, b].drop_last() =~= seq![a]);
    assert(seq![b, a].drop_last() =~= seq![b]);
    law_single_speaker_unchanged(a);
    law_single_speaker_unchanged(b);
    assert(mixed(seq![a, b]) =~= mixed(seq![b, a]));
}

/// The sum of the samples of several frames at one place.
pub open spec fn sum_at(frames: Seq<Seq<i16>>, i: int) -> int
    decreases frames.len(),
{
    if frames.len() == 0 {
        0
    } else {
        sum_at(frames.drop_last(), i) + frames.last()[i]
    }
}

/// The sum of the magnitudes of the samples of several frames at one place.
pub open spec fn magnitude_at(frames: Seq<Seq<i16>>, i: int) -> int
    decreases frames.len(),
{
    if frames.len() == 0 {
        0
    } else {
        magnitude_at(frames.drop_last(), i) + if frames.last()[i] < 0 {
            -frames.last()[i]
        } else {
            frames.last()[i] as int
        }
    }
}

/// Where the magnitudes of the samples fit together into one sample, the mix is their plain sum,
/// whatever the order of the speakers.
pub proof fn law_quiet_mix_is_sum(frames: Seq<Seq<i16>>, i: int)
    requires
        0 <= i < FRAME_SAMPLES,
        magnitude_at(frames, i) <= i16::MAX,
    ensures
        mixed(frames).len() == FRAME_SAMPLES,
        mixed(frames)[i] == sum_at(frames, i),
    decreases frames.len(),
{
    lemma_magnitude_bounds_sum(frames, i);
    if frames.len() > 0 {
        lemma_magnitude_bounds_sum(frames.drop_last(), i);
        law_quiet_mix_is_sum(frames.drop_last(), i);
    }
}

proof fn lemma_magnitude_bounds_sum(frames: Seq<Seq<i16>>, i: int)
    ensures
        0 <= magnitude_at(frames, i),
        -magnitude_at(frames, i) <= sum_at(frames, i) <= magnitude_at(frames, i),
    decreases frames.len(),
{
    if frames.len() > 0 {
        lemma_magnitude_bounds_sum(frames.drop_last(), i);
    }
}

/// A sum that fits is kept; one that does not stays at the nearer limit.
pub proof fn law_saturated(n: int)
    ensures
        -32768 <= n <= 32767 ==> saturated(n) == n,
        n > 32767 ==> saturated(n) == 32767,
        n < -32768 ==> saturated(n) == -32768,
{
}

/// Silence is a full frame of zeros.
pub proof fn law_silence(i: int)
    ensures
        silence().len() == 960,
        0 <= i < 960 ==> silence()[i] == 0,
{
}

/// One more voice is added to every sample; a sum that does not fit stays at the nearer limit.
pub proof fn law_one_more_voice(frames: Seq<Seq<i16>>, frame: Seq<i16>, i: int)
    requires
        0 <= i < 960,
    ensures
        mixed(frames.push(frame)).len() == 960,
        ({
            let sum = mixed(frames)[i] + frame[i];
            let sample = mixed(frames.push(frame))[i];
            &&& -32768 <= sum <= 32767 ==> sample == sum
            &&& sum > 32767 ==> sample == 32767
            &&& sum < -32768 ==> sample == -32768
        }),
{
    assert(frames.push(frame).drop_last() =~= frames);
    law_mix_length(frames);
}

/// A mix is a full frame, however many voices are in it.
pub proof fn law_mix_length(frames: Seq<Seq<i16>>)
    ensures
        mixed(frames).len() == 960,
    decreases frames.len(),
{
    if frames.len() > 0 {
        law_mix_length(frames.drop_last());
    }
}

} // verus!
