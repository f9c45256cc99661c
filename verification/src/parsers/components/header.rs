use crate::error::ParseError;
use crate::frame::components::header::array_of_6;
use crate::frame::components::{DataHeader, FrameControl, MacAddress, ManagementHeader};
use crate::parsers::components::sequence_control::sequence_control_of;
use crate::parsers::{field, take};
use vstd::prelude::*;

verus! {

/// Reads what follows the frame control in the header of a management
/// frame: 22 octets.
pub fn parse_management_header<'a>(frame_control: FrameControl, input: &'a [u8]) -> (r: Result<
    (&'a [u8], ManagementHeader),
    ParseError,
>)
    ensures
        match r {
            Ok((rest, header)) => {
                &&& field(input@, 22) is Ok
                &&& rest@ == input@.skip(22)
                &&& header == ManagementHeader::from_wire(frame_control, input@.take(22))
            },
            Err(e) => field(input@, 22) == Err::<(Seq<u8>, Seq<u8>), _>(e@),
        },
{
    let (rest, body) = match take(input, 22) {
        Ok(split) => split,
        Err(e) => { return Err(e); },
    };
    let header = ManagementHeader {
        frame_control,
        duration: [body[0], body[1]],
        address_1: address_at(body, 2),
        address_2: address_at(body, 8),
        address_3: address_at(body, 14),
        sequence_control: sequence_control_of(body[20], body[21]),
    };
    Ok((rest, header))
}

/// Reads what follows the frame control in the header of a data frame: 22
/// octets, six more where `frame_control` has both ToDS and FromDS set, and
/// two more where its subtype is a QoS subtype.
pub fn parse_data_header<'a>(frame_control: FrameControl, input: &'a [u8]) -> (r: Result<
    (&'a [u8], DataHeader),
    ParseError,
>)
    ensures
        match r {
            Ok((rest, header)) => {
                &&& field(input@, DataHeader::body_len(frame_control)) is Ok
                &&& rest@ == input@.skip(DataHeader::body_len(frame_control) as int)
                &&& header == DataHeader::from_wire(
                    frame_control,
                    input@.take(DataHeader::body_len(frame_control) as int),
                )
            },
            Err(e) => field(input@, DataHeader::body_len(frame_control)) == Err::<
                (Seq<u8>, Seq<u8>),
                _,
            >(e@),
        },
{
    let with_address_4 = frame_control.to_ds() && frame_control.from_ds();
    let with_qos = frame_control.frame_subtype.is_qos();
    let after_address_4: usize = if with_address_4 {
        28
    } else {
        22
    };
    let len: usize = if with_qos {
        after_address_4 + 2
    } else {
        after_address_4
    };
    let (rest, body) = match take(input, len) {
        Ok(split) => split,
        Err(e) => { return Err(e); },
    };
    let header = DataHeader {
        frame_control,
        duration: [body[0], body[1]],
        address_1: address_at(body, 2),
        address_2: address_at(body, 8),
        address_3: address_at(body, 14),
        sequence_control: sequence_control_of(body[20], body[21]),
        address_4: if with_address_4 {
            Some(address_at(body, 22))
        } else {
            None
        },
        qos: if with_qos {
            Some([body[after_address_4], body[after_address_4 + 1]])
        } else {
            None
        },
    };
    Ok((rest, header))
}

/// The address whose six octets start at `at`.
fn address_at(body: &[u8], at: usize) -> (address: MacAddress)
    requires
        at + 6 <= body.len(),
    ensures
        address == MacAddress(array_of_6(body@.subrange(at as int, at + 6))),
{
    MacAddress([body[at], body[at + 1], body[at + 2], body[at + 3], body[at + 4], body[at + 5]])
}

} // verus!
