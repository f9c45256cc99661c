use crate::error::ParseError;
use crate::frame::components::frame_control::{
    control_subtype, data_subtype, management_subtype, FrameControl,
};
use crate::frame_types::{FrameSubType, FrameType};
use crate::parsers::{field, take};
use vstd::prelude::*;

verus! {

/// Reads the frame control at the start of `input`. Any two octets are a
/// frame control; only an input shorter than that is refused.
pub fn parse_frame_control<'a>(input: &'a [u8]) -> (r: Result<
    (&'a [u8], FrameControl),
    ParseError,
>)
    ensures
        match r {
            Ok((rest, frame_control)) => {
                &&& field(input@, 2) is Ok
                &&& rest@ == input@.skip(2)
                &&& frame_control == FrameControl::from_wire(input@[0], input@[1])
            },
            Err(e) => field(input@, 2) == Err::<(Seq<u8>, Seq<u8>), _>(e@),
        },
{
    let (rest, octets) = match take(input, 2) {
        Ok(split) => split,
        Err(e) => { return Err(e); },
    };
    let first = octets[0];
    let frame_subtype_bits = (first >> 4) & 0x0F;
    let frame_type_bits = (first >> 2) & 0x03;
    let protocol_version = first & 0x03;
    assert(frame_subtype_bits == first / 16 && frame_type_bits == (first / 4) % 4
        && protocol_version == first % 4) by (bit_vector)
        requires
            frame_subtype_bits == (first >> 4) & 0x0F,
            frame_type_bits == (first >> 2) & 0x03,
            protocol_version == first & 0x03,
    ;
    let frame_type = parse_frame_type(frame_type_bits);
    let frame_subtype = match frame_type {
        FrameType::Management => management_frame_subtype(frame_subtype_bits),
        FrameType::Control => control_frame_subtype(frame_subtype_bits),
        FrameType::Data => data_frame_subtype(frame_subtype_bits),
        FrameType::Unknown => FrameSubType::Unhandled,
    };
    Ok((rest, FrameControl { protocol_version, frame_type, frame_subtype, flags: octets[1] }))
}

/// The frame type that two bits stand for.
pub fn parse_frame_type(bits: u8) -> (frame_type: FrameType)
    ensures
        frame_type == FrameType::from_wire_value(bits),
{
    match bits {
        0 => FrameType::Management,
        1 => FrameType::Control,
        2 => FrameType::Data,
        _ => FrameType::Unknown,
    }
}

/// The subtype that a nibble stands for in a management frame.
pub fn management_frame_subtype(nibble: u8) -> (frame_subtype: FrameSubType)
    ensures
        frame_subtype == management_subtype(nibble),
{
    match nibble {
        0 => FrameSubType::AssociationRequest,
        1 => FrameSubType::AssociationResponse,
        2 => FrameSubType::ReassociationRequest,
        3 => FrameSubType::ReassociationResponse,
        4 => FrameSubType::ProbeRequest,
        5 => FrameSubType::ProbeResponse,
        6 => FrameSubType::TimingAdvertisement,
        7 => FrameSubType::Reserved,
        8 => FrameSubType::Beacon,
        9 => FrameSubType::Atim,
        10 => FrameSubType::Disassociation,
        11 => FrameSubType::Authentication,
        12 => FrameSubType::Deauthentication,
        13 => FrameSubType::Action,
        14 => FrameSubType::ActionNoAck,
        15 => FrameSubType::Reserved,
        _ => FrameSubType::Unhandled,
    }
}

/// The subtype that a nibble stands for in a control frame.
pub fn control_frame_subtype(nibble: u8) -> (frame_subtype: FrameSubType)
    ensures
        frame_subtype == control_subtype(nibble),
{
    match nibble {
        0 => FrameSubType::Reserved,
        1 => FrameSubType::Reserved,
        2 => FrameSubType::Trigger,
        3 => FrameSubType::Tack,
        4 => FrameSubType::BeamformingReportPoll,
        5 => FrameSubType::NdpAnnouncement,
        6 => FrameSubType::ControlFrameExtension,
        7 => FrameSubType::ControlWrapper,
        8 => FrameSubType::BlockAckRequest,
        9 => FrameSubType::BlockAck,
        10 => FrameSubType::PsPoll,
        11 => FrameSubType::Rts,
        12 => FrameSubType::Cts,
        13 => FrameSubType::Ack,
        14 => FrameSubType::CfEnd,
        15 => FrameSubType::CfEndCfAck,
        _ => FrameSubType::Unhandled,
    }
}

/// The subtype that a nibble stands for in a data frame.
pub fn data_frame_subtype(nibble: u8) -> (frame_subtype: FrameSubType)
    ensures
        frame_subtype == data_subtype(nibble),
{
    match nibble {
        0 => FrameSubType::Data,
        1 => FrameSubType::DataCfAck,
        2 => FrameSubType::DataCfPoll,
        3 => FrameSubType::DataCfAckCfPoll,
        4 => FrameSubType::NullData,
        5 => FrameSubType::CfAck,
        6 => FrameSubType::CfPoll,
        7 => FrameSubType::CfAckCfPoll,
        8 => FrameSubType::QosData,
        9 => FrameSubType::QosDataCfAck,
        10 => FrameSubType::QosDataCfPoll,
        11 => FrameSubType::QosDataCfAckCfPoll,
        12 => FrameSubType::QosNull,
        13 => FrameSubType::Reserved,
        14 => FrameSubType::QosCfPoll,
        15 => FrameSubType::QosCfAckCfPoll,
        _ => FrameSubType::Unhandled,
    }
}

} // verus!
