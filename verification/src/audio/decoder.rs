//! What becomes of a decoded packet.
use vstd::prelude::*;

use crate::audio::FRAME_SAMPLES;

verus! {

/// A buffer of which the first `samples` are kept and the rest is silence.
pub open spec fn padded(buffer: Seq<i16>, samples: nat) -> Seq<i16> {
    Seq::new(
        buffer.len(),
        |i: int|
            if i < samples {
                buffer[i]
            } else {
                0
            },
    )
}

/// Whether a packet carries voice. An empty one marks a pause or the end of a stream.
pub fn carries_voice(packet: &Vec<u8>) -> (voice: bool)
    ensures
        voice == (packet@.len() > 0),
{
    packet.len() > 0
}

/// Makes a full frame out of what the decoder left in the buffer: `decoded` is the number of
/// samples that it wrote, or `None` if it failed. A short frame is filled up with silence; a
/// packet that failed or held no sound gives no frame, and the buffer stays as it is.
pub fn complete_frame(decoded: Option<usize>, scratch: &mut Vec<i16>) -> (complete: bool)
    requires
        old(scratch)@.len() == FRAME_SAMPLES,
    ensures
        complete == (decoded matches Some(samples) && samples > 0),
        complete ==> final(scratch)@ == padded(old(scratch)@, decoded->0 as nat),
        !complete ==> final(scratch)@ == old(scratch)@,
{
    match decoded {
        Some(samples) => {
            if samples == 0 {
                return false;
            }
            let mut i: usize = samples;
            while i < FRAME_SAMPLES
                invariant
                    samples <= i,
                    scratch@.len() == FRAME_SAMPLES,
                    forall|j: int| 0 <= j < FRAME_SAMPLES ==> #[trigger] scratch@[j] == (if samples
                        <= j < i {
                        0
                    } else {
                        old(scratch)@[j]
                    }),
                decreases FRAME_SAMPLES - i,
            {
                scratch.set(i, 0);
                i += 1;
            }
            assert(scratch@ =~= padded(old(scratch)@, samples as nat));
            true
        },
        None => false,
    }
}

/// A full frame is taken as it was decoded.
pub proof fn law_full_frame_kept(buffer: Seq<i16>)
    requires
        buffer.len() == FRAME_SAMPLES,
    ensures
        padded(buffer, FRAME_SAMPLES as nat) == buffer,
{
    assert(padded(buffer, FRAME_SAMPLES as nat) =~= buffer);
}

/// A short frame keeps what was decoded and is silent after it, at its full length.
pub proof fn law_padded(buffer: Seq<i16>, samples: nat, i: int)
    ensures
        padded(buffer, samples).len() == buffer.len(),
        0 <= i < buffer.len() && i < samples ==> padded(buffer, samples)[i] == buffer[i],
        samples <= i < buffer.len() ==> padded(buffer, samples)[i] == 0,
{
}

} // verus!
