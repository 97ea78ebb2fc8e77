use vstd::prelude::*;

verus! {

/// Receiving over audio: the channel has no decoder, so the sink is never
/// handed a byte.
pub fn decode<F: Fn(Option<&Vec<u8>>)>(callback: F) {
}

} // verus!
