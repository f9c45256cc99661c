pub mod components;
pub mod frame_types;

use crate::bytes::{le_value, lemma_le_value_bound, lemma_radix_values, read_le};
use crate::error::{Needed, ParseError, ParseErrorView};
use vstd::prelude::*;

pub use components::frame_control::parse_frame_control;
pub use components::header::{parse_data_header, parse_management_header};
pub use components::mac_address::parse_mac;
pub use components::sequence_control::parse_sequence_control;
pub use components::station_info::parse_station_info;
pub use frame_types::management::{parse_association_request, parse_beacon};

verus! {

/// What a parser reports when it needs `need` octets and `have` are left.
pub open spec fn missing(have: nat, need: nat) -> ParseErrorView
    recommends
        have < need,
{
    ParseErrorView::Incomplete(Needed::Size((need - have) as usize))
}

/// What a parser of a field of `width` octets does with its input: the
/// field's octets and what follows them, or how many octets are missing.
pub open spec fn field(input: Seq<u8>, width: nat) -> Result<(Seq<u8>, Seq<u8>), ParseErrorView> {
    if width <= input.len() {
        Ok((input.skip(width as int), input.take(width as int)))
    } else {
        Err(missing(input.len(), width))
    }
}

/// Splits `count` octets off the front of `input`.
pub fn take<'a>(input: &'a [u8], count: usize) -> (r: Result<(&'a [u8], &'a [u8]), ParseError>)
    ensures
        match r {
            Ok((rest, taken)) => field(input@, count as nat) == Ok::<_, ParseErrorView>(
                (rest@, taken@),
            ),
            Err(e) => field(input@, count as nat) == Err::<(Seq<u8>, Seq<u8>), _>(e@),
        },
{
    if count <= input.len() {
        Ok((&input[count..input.len()], &input[0..count]))
    } else {
        Err(ParseError::Incomplete(Needed::Size(count - input.len())))
    }
}

/// Reads a `u16`, least significant octet first.
pub fn le_u16<'a>(input: &'a [u8]) -> (r: Result<(&'a [u8], u16), ParseError>)
    ensures
        match r {
            Ok((rest, value)) => {
                &&& field(input@, 2) is Ok
                &&& rest@ == input@.skip(2)
                &&& value == le_value(input@.take(2))
            },
            Err(e) => field(input@, 2) == Err::<(Seq<u8>, Seq<u8>), _>(e@),
        },
{
    match take(input, 2) {
        Ok((rest, taken)) => {
            proof {
                lemma_le_value_bound(taken@);
                lemma_radix_values();
                assert(taken@.take(2) =~= taken@);
            }
            Ok((rest, read_le(taken, 2) as u16))
        },
        Err(e) => Err(e),
    }
}

/// Reads a `u64`, least significant octet first.
pub fn le_u64<'a>(input: &'a [u8]) -> (r: Result<(&'a [u8], u64), ParseError>)
    ensures
        match r {
            Ok((rest, value)) => {
                &&& field(input@, 8) is Ok
                &&& rest@ == input@.skip(8)
                &&& value == le_value(input@.take(8))
            },
            Err(e) => field(input@, 8) == Err::<(Seq<u8>, Seq<u8>), _>(e@),
        },
{
    match take(input, 8) {
        Ok((rest, taken)) => {
            proof {
                assert(taken@.take(8) =~= taken@);
            }
            Ok((rest, read_le(taken, 8)))
        },
        Err(e) => Err(e),
    }
}

} // verus!
