use crate::error::ParseError;
use crate::frame::components::header::array_of_6;
use crate::frame::components::MacAddress;
use crate::parsers::{field, take};
use vstd::prelude::*;

verus! {

/// Reads the six octets of an address.
pub fn parse_mac<'a>(input: &'a [u8]) -> (r: Result<(&'a [u8], MacAddress), ParseError>)
    ensures
        match r {
            Ok((rest, address)) => {
                &&& field(input@, 6) is Ok
                &&& rest@ == input@.skip(6)
                &&& address == MacAddress(array_of_6(input@.take(6)))
            },
            Err(e) => field(input@, 6) == Err::<(Seq<u8>, Seq<u8>), _>(e@),
        },
{
    match take(input, 6) {
        Ok((rest, octets)) => Ok(
            (
                rest,
                MacAddress([octets[0], octets[1], octets[2], octets[3], octets[4], octets[5]]),
            ),
        ),
        Err(e) => Err(e),
    }
}

} // verus!
