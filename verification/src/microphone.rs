//! Choosing the capture device. Enumerating the hardware lives outside; it
//! hands this module the device names, and the chosen index is cached so
//! recordings need not re-enumerate devices.

use vstd::prelude::*;

verus! {

/// The index of the configured microphone among the enumerated device
/// names: the first device whose name matches, as the device cache picks
/// it.
pub fn find_device_index(names: &Vec<String>, mic_id: &String) -> (r: Option<usize>)
    ensures
        match r {
            Option::Some(i) => i < names@.len() && names@[i as int]@ == mic_id@ && forall|j: int|
                0 <= j < i ==> names@[j]@ != mic_id@,
            Option::None => forall|j: int| 0 <= j < names@.len() ==> names@[j]@ != mic_id@,
        },
{
    let n = names.len();
    let mut i: usize = 0;
    while i < n
        invariant
            n == names@.len(),
            i <= n,
            forall|j: int| 0 <= j < i ==> names@[j]@ != mic_id@,
        decreases n - i,
    {
        if names[i].eq(mic_id) {
            return Option::Some(i);
        }
        i = i + 1;
    }
    Option::None
}

} // verus!
