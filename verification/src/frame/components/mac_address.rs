use vstd::prelude::*;

verus! {

/// The six octets of a hardware address, in the order of the wire.
#[derive(Clone, Copy, Debug, PartialEq, Eq)]
pub struct MacAddress(pub [u8; 6]);

impl MacAddress {
    /// The six octets as they stand on the wire.
    pub open spec fn wire(self) -> Seq<u8> {
        self.0@
    }
}

} // verus!
