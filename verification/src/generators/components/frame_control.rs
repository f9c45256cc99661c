use crate::frame::components::frame_control::{
    control_nibble, data_nibble, management_nibble, why_illegal, FrameControl,
};
use crate::frame_types::{FrameSubType, FrameType};
use crate::generators::{check_room, generated, GenCursor, GenError, GenResult, SerializationError};
use vstd::prelude::*;

verus! {

/// The error for a subtype that the table at hand does not hold.
fn illegal_subtype(frame_subtype: FrameSubType) -> (error: SerializationError)
    ensures
        error == why_illegal(frame_subtype),
{
    match frame_subtype {
        FrameSubType::Reserved => SerializationError::FCtrlReservedSubtype,
        FrameSubType::Unhandled => SerializationError::FCtrlUnhandledSubtype,
        _ => SerializationError::FCtrlInvalidSubtype,
    }
}

/// The first octet of a frame control: subtype, type and version, from the
/// high bits down.
pub fn frame_control_octet(frame_ctrl: &FrameControl) -> (first: Result<u8, SerializationError>)
    ensures
        match first {
            Ok(octet) => frame_ctrl.wire() == Ok::<_, SerializationError>(
                seq![octet, frame_ctrl.flags],
            ),
            Err(e) => frame_ctrl.wire() == Err::<Seq<u8>, _>(e),
        },
{
    let ser_frame_type = gen_frame_type(frame_ctrl.frame_type);
    let ser_frame_subtype = match frame_ctrl.frame_type {
        FrameType::Management => gen_mgmt_subtype(frame_ctrl.frame_subtype),
        FrameType::Control => gen_ctrl_subtype(frame_ctrl.frame_subtype),
        FrameType::Data => gen_data_subtype(frame_ctrl.frame_subtype),
        FrameType::Unknown => Err(SerializationError::FCtrlUnknownType),
    };
    match ser_frame_subtype {
        Ok(nibble) => {
            let version = frame_ctrl.protocol_version;
            let octet = ((nibble & 0x0F) << 4) | ((ser_frame_type & 0x03) << 2) | (version & 0x03);
            assert(octet == nibble * 16 + ser_frame_type * 4 + version % 4) by (bit_vector)
                requires
                    nibble < 16,
                    ser_frame_type < 4,
                    octet == ((nibble & 0x0F) << 4) | ((ser_frame_type & 0x03) << 2) | (version
                        & 0x03),
            ;
            assert(frame_ctrl.wire()->Ok_0 =~= seq![octet, frame_ctrl.flags]);
            Ok(octet)
        },
        Err(e) => Err(e),
    }
}

/// Writes the two octets of a frame control.
pub fn gen_frame_control<'a>(cursor: GenCursor<'a>, frame_ctrl: &FrameControl) -> (r: GenResult<
    'a,
>)
    ensures
        match r {
            Ok((buf, end)) => {
                &&& generated(old(cursor.0)@, cursor.1, frame_ctrl.wire()) == Ok::<_, GenError>(
                    (buf@, end),
                )
                &&& final(buf)@ == final(cursor.0)@
            },
            Err(e) => {
                &&& generated(old(cursor.0)@, cursor.1, frame_ctrl.wire()) == Err::<
                    (Seq<u8>, usize),
                    _,
                >(e)
                &&& final(cursor.0)@ == old(cursor.0)@
            },
        },
{
    let first = match frame_control_octet(frame_ctrl) {
        Ok(octet) => octet,
        Err(e) => { return Err(GenError::CustomError(e)); },
    };
    let (buf, offset) = cursor;
    let end = match check_room(buf.len(), offset, Some(2)) {
        Ok(end) => end,
        Err(e) => { return Err(e); },
    };
    write_frame_control(buf, offset, first, frame_ctrl.flags);
    Ok((buf, end))
}

/// Writes the two octets of a frame control where there is room for them.
pub(crate) fn write_frame_control(buf: &mut [u8], at: usize, first: u8, flags: u8)
    requires
        at + 2 <= old(buf).len(),
    ensures
        final(buf)@ == crate::bytes::splice(old(buf)@, at as int, seq![first, flags]),
{
    buf[at] = first;
    buf[at + 1] = flags;
    assert(buf@ =~= crate::bytes::splice(old(buf)@, at as int, seq![first, flags]));
}

/// The wire value of a frame type.
pub fn gen_frame_type(frame_type: FrameType) -> (bits: u8)
    ensures
        bits == frame_type.wire_value(),
{
    match frame_type {
        FrameType::Management => 0,
        FrameType::Control => 1,
        FrameType::Data => 2,
        FrameType::Unknown => 3,
    }
}

/// The wire value of a subtype in a management frame.
pub fn gen_mgmt_subtype(frame_subtype: FrameSubType) -> (nibble: Result<u8, SerializationError>)
    ensures
        nibble == management_nibble(frame_subtype),
        nibble matches Ok(n) ==> n < 16,
{
    match frame_subtype {
        FrameSubType::AssociationRequest => Ok(0),
        FrameSubType::AssociationResponse => Ok(1),
        FrameSubType::ReassociationRequest => Ok(2),
        FrameSubType::ReassociationResponse => Ok(3),
        FrameSubType::ProbeRequest => Ok(4),
        FrameSubType::ProbeResponse => Ok(5),
        FrameSubType::TimingAdvertisement => Ok(6),
        FrameSubType::Beacon => Ok(8),
        FrameSubType::Atim => Ok(9),
        FrameSubType::Disassociation => Ok(10),
        FrameSubType::Authentication => Ok(11),
        FrameSubType::Deauthentication => Ok(12),
        FrameSubType::Action => Ok(13),
        FrameSubType::ActionNoAck => Ok(14),
        _ => Err(illegal_subtype(frame_subtype)),
    }
}

/// The wire value of a subtype in a control frame.
pub fn gen_ctrl_subtype(frame_subtype: FrameSubType) -> (nibble: Result<u8, SerializationError>)
    ensures
        nibble == control_nibble(frame_subtype),
        nibble matches Ok(n) ==> n < 16,
{
    match frame_subtype {
        FrameSubType::Trigger => Ok(2),
        FrameSubType::Tack => Ok(3),
        FrameSubType::BeamformingReportPoll => Ok(4),
        FrameSubType::NdpAnnouncement => Ok(5),
        FrameSubType::ControlFrameExtension => Ok(6),
        FrameSubType::ControlWrapper => Ok(7),
        FrameSubType::BlockAckRequest => Ok(8),
        FrameSubType::BlockAck => Ok(9),
        FrameSubType::PsPoll => Ok(10),
        FrameSubType::Rts => Ok(11),
        FrameSubType::Cts => Ok(12),
        FrameSubType::Ack => Ok(13),
        FrameSubType::CfEnd => Ok(14),
        FrameSubType::CfEndCfAck => Ok(15),
        _ => Err(illegal_subtype(frame_subtype)),
    }
}

/// The wire value of a subtype in a data frame.
pub fn gen_data_subtype(frame_subtype: FrameSubType) -> (nibble: Result<u8, SerializationError>)
    ensures
        nibble == data_nibble(frame_subtype),
        nibble matches Ok(n) ==> n < 16,
{
    match frame_subtype {
        FrameSubType::Data => Ok(0),
        FrameSubType::DataCfAck => Ok(1),
        FrameSubType::DataCfPoll => Ok(2),
        FrameSubType::DataCfAckCfPoll => Ok(3),
        FrameSubType::NullData => Ok(4),
        FrameSubType::CfAck => Ok(5),
        FrameSubType::CfPoll => Ok(6),
        FrameSubType::CfAckCfPoll => Ok(7),
        FrameSubType::QosData => Ok(8),
        FrameSubType::QosDataCfAck => Ok(9),
        FrameSubType::QosDataCfPoll => Ok(10),
        FrameSubType::QosDataCfAckCfPoll => Ok(11),
        FrameSubType::QosNull => Ok(12),
        FrameSubType::QosCfPoll => Ok(14),
        FrameSubType::QosCfAckCfPoll => Ok(15),
        _ => Err(illegal_subtype(frame_subtype)),
    }
}

} // verus!
