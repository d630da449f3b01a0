use vstd::prelude::*;

verus! {

/// The framing of CoAP datagrams on the gateway's socket. The packet codec
/// itself is the CoAP library's; this type carries no state.
pub struct Codec {}

impl Codec {
    pub fn new() -> (r: Codec) {
        Codec {}
    }
}

} // verus!
