//! Naming the temporary recording files. The recordings directory itself is
//! managed outside; this module only produces the file names.

use vstd::prelude::*;
use crate::text::{dec_str, u64_to_decimal};

verus! {

/// The recording file name for a capture started at Unix time `ts`.
pub open spec fn wav_name_spec(ts: nat) -> Seq<char> {
    "murmure-"@ + dec_str(ts) + ".wav"@
}

/// Relies on `std::time::SystemTime::now`: seconds since the Unix epoch,
/// or 0 should the clock read before it.
#[verifier::external_body]
fn now_unix_secs() -> u64 {
    std::time::SystemTime::now().duration_since(std::time::UNIX_EPOCH).map(|d| d.as_secs()).unwrap_or(
        0,
    )
}

/// The recording file name for the given start time.
pub fn wav_file_name(ts: u64) -> (r: String)
    ensures
        r@ == wav_name_spec(ts as nat),
{
    let mut name = String::from_str("murmure-");
    let digits = u64_to_decimal(ts);
    name.append(digits.as_str());
    name.append(".wav");
    name
}

/// A recording file name unique to this second: the current Unix time
/// rendered into `wav_name_spec`.
pub fn generate_unique_wav_name() -> (r: String)
    ensures
        exists|ts: nat| r@ == wav_name_spec(ts),
{
    let ts = now_unix_secs();
    let name = wav_file_name(ts);
    proof {
        assert(name@ == wav_name_spec(ts as nat));
    }
    name
}

} // verus!
