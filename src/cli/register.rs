//! Registering this machine with the platform vendor.

use vstd::prelude::*;

verus! {

/// Register this machine with the platform vendor.
#[derive(Clone, Copy, Debug, PartialEq, Eq, Structural)]
pub struct Options {}

/// The platform data file starts with an 8-byte header that is not sent.
pub const PLATFORM_DATA_HEADER: usize = 8;

/// The part of the platform data that the registration request carries;
/// `None` when the data is shorter than its header.
pub fn registration_payload(data: &Vec<u8>) -> (r: Option<Vec<u8>>)
    ensures
        data@.len() < PLATFORM_DATA_HEADER ==> r is None,
        data@.len() >= PLATFORM_DATA_HEADER ==> r is Some && r->Some_0@ == data@.skip(PLATFORM_DATA_HEADER as int),
{
    if data.len() < PLATFORM_DATA_HEADER {
        return None;
    }
    let mut out: Vec<u8> = Vec::new();
    let mut k: usize = PLATFORM_DATA_HEADER;
    while k < data.len()
        invariant
            PLATFORM_DATA_HEADER <= k <= data@.len(),
            out@ == data@.subrange(PLATFORM_DATA_HEADER as int, k as int),
        decreases data@.len() - k,
    {
        out.push(data[k]);
        assert(data@.subrange(8, k + 1) =~= data@.subrange(8, k as int).push(data@[k as int]));
        k += 1;
    }
    Some(out)
}

} // verus!
