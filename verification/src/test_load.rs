//! Speakers that exist for load tests alone.
use vstd::prelude::*;

use crate::audio::effects::Lcg;

verus! {

/// The first client id of a synthetic speaker.
pub const BASE_CLIENT_ID: u16 = 1000;

/// The seed of the noise that synthetic speakers send.
pub const NOISE_SEED: u32 = 123456789;

/// How many synthetic speakers there are: the configured number modulo the range of client ids.
pub open spec fn speakers(count: usize) -> nat {
    count as nat % 0x1_0000
}

/// The client ids of the synthetic speakers, in a row.
pub fn synthetic_client_ids(count: usize, base: u16) -> (ids: Vec<u16>)
    requires
        base + speakers(count) <= 0x1_0000,
    ensures
        ids@.len() == speakers(count),
        forall|i: int| 0 <= i < ids@.len() ==> #[trigger] ids@[i] == base + i,
{
    let n: usize = count % 0x1_0000;
    let mut ids: Vec<u16> = Vec::new();
    let mut i: usize = 0;
    while i < n
        invariant
            i <= n,
            base + n <= 0x1_0000,
            ids@.len() == i,
            forall|j: int| 0 <= j < i ==> #[trigger] ids@[j] == base + j,
        decreases n - i,
    {
        ids.push(base + i as u16);
        i += 1;
    }
    ids
}

/// The generator of the noise that synthetic speakers send.
pub fn noise_source() -> (lcg: Lcg)
    ensures
        lcg.state == NOISE_SEED,
{
    Lcg::new(NOISE_SEED)
}

/// No two synthetic speakers share a client id.
pub proof fn law_synthetic_ids_distinct(count: usize, base: u16, ids: Seq<u16>)
    requires
        base + speakers(count) <= 0x1_0000,
        ids.len() == speakers(count),
        forall|i: int| 0 <= i < ids.len() ==> #[trigger] ids[i] == base + i,
    ensures
        ids.no_duplicates(),
{
}

/// As many speakers are made as are configured, modulo the range of client ids.
pub proof fn law_speaker_count(count: usize)
    ensures
        count < 65536 ==> speakers(count) == count,
        speakers(count) < 65536,
        (count - speakers(count)) % 65536 == 0,
{
}

} // verus!
