use crate::error::ParseError;
use crate::frame::components::SequenceControl;
use crate::parsers::{field, take};
use vstd::prelude::*;

verus! {

/// Reads the two octets of a sequence control. Any two octets are one.
pub fn parse_sequence_control<'a>(input: &'a [u8]) -> (r: Result<
    (&'a [u8], SequenceControl),
    ParseError,
>)
    ensures
        match r {
            Ok((rest, sequence_control)) => {
                &&& field(input@, 2) is Ok
                &&& rest@ == input@.skip(2)
                &&& sequence_control == SequenceControl::from_wire(input@[0], input@[1])
                &&& sequence_control.well_formed()
            },
            Err(e) => field(input@, 2) == Err::<(Seq<u8>, Seq<u8>), _>(e@),
        },
{
    let (rest, octets) = match take(input, 2) {
        Ok(split) => split,
        Err(e) => { return Err(e); },
    };
    Ok((rest, sequence_control_of(octets[0], octets[1])))
}

/// The sequence control that two octets stand for.
pub fn sequence_control_of(first: u8, second: u8) -> (sequence_control: SequenceControl)
    ensures
        sequence_control == SequenceControl::from_wire(first, second),
        sequence_control.well_formed(),
{
    let fragment_number = first & 0x0F;
    let sequence_number = ((second as u16) << 4) | ((first >> 4) as u16);
    assert(fragment_number == first % 16 && sequence_number == first / 16 + second * 16)
        by (bit_vector)
        requires
            fragment_number == first & 0x0F,
            sequence_number == ((second as u16) << 4) | ((first >> 4) as u16),
    ;
    SequenceControl { fragment_number, sequence_number }
}

} // verus!
