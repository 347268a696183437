//! What becomes of an encoded frame.
use vstd::prelude::*;

verus! {

/// The largest Opus packet, in bytes.
pub const MAX_PACKET: usize = 1275;

/// The packet that the encoder left in the buffer: `encoded` is the number of bytes that it
/// wrote, or `None` if it failed.
pub fn packet(scratch: &Vec<u8>, encoded: Option<usize>) -> (packet: Option<Vec<u8>>)
    requires
        encoded matches Some(len) ==> len <= scratch@.len(),
    ensures
        match encoded {
            Some(len) => packet matches Some(bytes) && bytes@ == scratch@.take(len as int),
            None => packet is None,
        },
{
    match encoded {
        Some(len) => {
            let mut bytes: Vec<u8> = Vec::new();
            let mut i: usize = 0;
            while i < len
                invariant
                    i <= len <= scratch@.len(),
                    bytes@ == scratch@.take(i as int),
                decreases len - i,
            {
                bytes.push(scratch[i]);
                i += 1;
            }
            Some(bytes)
        },
        None => None,
    }
}

} // verus!
