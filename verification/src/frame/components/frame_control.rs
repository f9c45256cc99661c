use crate::frame_types::{FrameSubType, FrameType};
use crate::generators::error::SerializationError;
use vstd::prelude::*;

verus! {

/// The two octets at the start of every frame.
///
/// ```text
/// octet 0:  bits 0-1 protocol version, bits 2-3 frame type, bits 4-7 frame subtype
/// octet 1:  flags
/// ```
#[derive(Clone, Copy, Debug, PartialEq, Eq, Structural)]
pub struct FrameControl {
    /// Two bits on the wire; 0 in practice.
    pub protocol_version: u8,
    pub frame_type: FrameType,
    pub frame_subtype: FrameSubType,
    /// ToDS, FromDS, MoreFrag, Retry, PwrMgt, MoreData, Protected and Order,
    /// from bit 0 up. The octet is carried as it is.
    pub flags: u8,
}

/// The management subtype that a wire nibble stands for.
pub open spec fn management_subtype(nibble: u8) -> FrameSubType {
    match nibble {
        0 => FrameSubType::AssociationRequest,
        1 => FrameSubType::AssociationResponse,
        2 => FrameSubType::ReassociationRequest,
        3 => FrameSubType::ReassociationResponse,
        4 => FrameSubType::ProbeRequest,
        5 => FrameSubType::ProbeResponse,
        6 => FrameSubType::TimingAdvertisement,
        7 => FrameSubType::Reserved,
        8 => FrameSubType::Beacon,
        9 => FrameSubType::Atim,
        10 => FrameSubType::Disassociation,
        11 => FrameSubType::Authentication,
        12 => FrameSubType::Deauthentication,
        13 => FrameSubType::Action,
        14 => FrameSubType::ActionNoAck,
        15 => FrameSubType::Reserved,
        _ => FrameSubType::Unhandled,
    }
}

/// The control subtype that a wire nibble stands for.
pub open spec fn control_subtype(nibble: u8) -> FrameSubType {
    match nibble {
        0 => FrameSubType::Reserved,
        1 => FrameSubType::Reserved,
        2 => FrameSubType::Trigger,
        3 => FrameSubType::Tack,
        4 => FrameSubType::BeamformingReportPoll,
        5 => FrameSubType::NdpAnnouncement,
        6 => FrameSubType::ControlFrameExtension,
        7 => FrameSubType::ControlWrapper,
        8 => FrameSubType::BlockAckRequest,
        9 => FrameSubType::BlockAck,
        10 => FrameSubType::PsPoll,
        11 => FrameSubType::Rts,
        12 => FrameSubType::Cts,
        13 => FrameSubType::Ack,
        14 => FrameSubType::CfEnd,
        15 => FrameSubType::CfEndCfAck,
        _ => FrameSubType::Unhandled,
    }
}

/// The data subtype that a wire nibble stands for.
pub open spec fn data_subtype(nibble: u8) -> FrameSubType {
    match nibble {
        0 => FrameSubType::Data,
        1 => FrameSubType::DataCfAck,
        2 => FrameSubType::DataCfPoll,
        3 => FrameSubType::DataCfAckCfPoll,
        4 => FrameSubType::NullData,
        5 => FrameSubType::CfAck,
        6 => FrameSubType::CfPoll,
        7 => FrameSubType::CfAckCfPoll,
        8 => FrameSubType::QosData,
        9 => FrameSubType::QosDataCfAck,
        10 => FrameSubType::QosDataCfPoll,
        11 => FrameSubType::QosDataCfAckCfPoll,
        12 => FrameSubType::QosNull,
        13 => FrameSubType::Reserved,
        14 => FrameSubType::QosCfPoll,
        15 => FrameSubType::QosCfAckCfPoll,
        _ => FrameSubType::Unhandled,
    }
}

/// The subtype that a wire nibble stands for in frames of one type. Nothing
/// is known of the subtypes of the extension type.
pub open spec fn subtype_of_nibble(frame_type: FrameType, nibble: u8) -> FrameSubType {
    match frame_type {
        FrameType::Management => management_subtype(nibble),
        FrameType::Control => control_subtype(nibble),
        FrameType::Data => data_subtype(nibble),
        FrameType::Unknown => FrameSubType::Unhandled,
    }
}

/// Why a subtype that has no wire value in a table has none.
pub open spec fn why_illegal(frame_subtype: FrameSubType) -> SerializationError {
    match frame_subtype {
        FrameSubType::Reserved => SerializationError::FCtrlReservedSubtype,
        FrameSubType::Unhandled => SerializationError::FCtrlUnhandledSubtype,
        _ => SerializationError::FCtrlInvalidSubtype,
    }
}

/// The wire nibble of a management subtype.
pub open spec fn management_nibble(frame_subtype: FrameSubType) -> Result<
    u8,
    SerializationError,
> {
    match frame_subtype {
        FrameSubType::AssociationRequest => Ok(0u8),
        FrameSubType::AssociationResponse => Ok(1u8),
        FrameSubType::ReassociationRequest => Ok(2u8),
        FrameSubType::ReassociationResponse => Ok(3u8),
        FrameSubType::ProbeRequest => Ok(4u8),
        FrameSubType::ProbeResponse => Ok(5u8),
        FrameSubType::TimingAdvertisement => Ok(6u8),
        FrameSubType::Beacon => Ok(8u8),
        FrameSubType::Atim => Ok(9u8),
        FrameSubType::Disassociation => Ok(10u8),
        FrameSubType::Authentication => Ok(11u8),
        FrameSubType::Deauthentication => Ok(12u8),
        FrameSubType::Action => Ok(13u8),
        FrameSubType::ActionNoAck => Ok(14u8),
        _ => Err(why_illegal(frame_subtype)),
    }
}

/// The wire nibble of a control subtype.
pub open spec fn control_nibble(frame_subtype: FrameSubType) -> Result<u8, SerializationError> {
    match frame_subtype {
        FrameSubType::Trigger => Ok(2u8),
        FrameSubType::Tack => Ok(3u8),
        FrameSubType::BeamformingReportPoll => Ok(4u8),
        FrameSubType::NdpAnnouncement => Ok(5u8),
        FrameSubType::ControlFrameExtension => Ok(6u8),
        FrameSubType::ControlWrapper => Ok(7u8),
        FrameSubType::BlockAckRequest => Ok(8u8),
        FrameSubType::BlockAck => Ok(9u8),
        FrameSubType::PsPoll => Ok(10u8),
        FrameSubType::Rts => Ok(11u8),
        FrameSubType::Cts => Ok(12u8),
        FrameSubType::Ack => Ok(13u8),
        FrameSubType::CfEnd => Ok(14u8),
        FrameSubType::CfEndCfAck => Ok(15u8),
        _ => Err(why_illegal(frame_subtype)),
    }
}

/// The wire nibble of a data subtype.
pub open spec fn data_nibble(frame_subtype: FrameSubType) -> Result<u8, SerializationError> {
    match frame_subtype {
        FrameSubType::Data => Ok(0u8),
        FrameSubType::DataCfAck => Ok(1u8),
        FrameSubType::DataCfPoll => Ok(2u8),
        FrameSubType::DataCfAckCfPoll => Ok(3u8),
        FrameSubType::NullData => Ok(4u8),
        FrameSubType::CfAck => Ok(5u8),
        FrameSubType::CfPoll => Ok(6u8),
        FrameSubType::CfAckCfPoll => Ok(7u8),
        FrameSubType::QosData => Ok(8u8),
        FrameSubType::QosDataCfAck => Ok(9u8),
        FrameSubType::QosDataCfPoll => Ok(10u8),
        FrameSubType::QosDataCfAckCfPoll => Ok(11u8),
        FrameSubType::QosNull => Ok(12u8),
        FrameSubType::QosCfPoll => Ok(14u8),
        FrameSubType::QosCfAckCfPoll => Ok(15u8),
        _ => Err(why_illegal(frame_subtype)),
    }
}

/// The wire nibble of a subtype in frames of one type. The extension type
/// has none.
pub open spec fn nibble_of_subtype(frame_type: FrameType, frame_subtype: FrameSubType) -> Result<
    u8,
    SerializationError,
> {
    match frame_type {
        FrameType::Management => management_nibble(frame_subtype),
        FrameType::Control => control_nibble(frame_subtype),
        FrameType::Data => data_nibble(frame_subtype),
        FrameType::Unknown => Err(SerializationError::FCtrlUnknownType),
    }
}

impl FrameControl {
    /// The frame control that two octets stand for. Every pair of octets
    /// stands for one.
    pub open spec fn from_wire(first: u8, flags: u8) -> FrameControl {
        let frame_type = FrameType::from_wire_value((first / 4) % 4);
        FrameControl {
            protocol_version: first % 4,
            frame_type,
            frame_subtype: subtype_of_nibble(frame_type, first / 16),
            flags,
        }
    }

    /// The two octets of a frame control, or the reason for which it has
    /// none. Of the protocol version only the low two bits are written.
    pub open spec fn wire(self) -> Result<Seq<u8>, SerializationError> {
        match nibble_of_subtype(self.frame_type, self.frame_subtype) {
            Ok(nibble) => Ok(
                seq![
                    (nibble * 16 + self.frame_type.wire_value() * 4 + self.protocol_version
                        % 4) as u8,
                    self.flags,
                ],
            ),
            Err(e) => Err(e),
        }
    }

    /// A frame control that the wire can carry without loss: the version
    /// fits its two bits, and the subtype has a wire value under the type.
    pub open spec fn well_formed(self) -> bool {
        self.protocol_version < 4 && nibble_of_subtype(self.frame_type, self.frame_subtype) is Ok
    }

    /// Whether the ToDS flag is set.
    pub open spec fn spec_to_ds(self) -> bool {
        self.flags % 2 == 1
    }

    /// Whether the FromDS flag is set.
    pub open spec fn spec_from_ds(self) -> bool {
        (self.flags / 2) % 2 == 1
    }

    /// Whether the frame travels to a distribution system.
    #[verifier::when_used_as_spec(spec_to_ds)]
    pub fn to_ds(self) -> (set: bool)
        ensures
            set == self.spec_to_ds(),
    {
        let flags = self.flags;
        assert((flags & 0x01 != 0) == (flags % 2 == 1)) by (bit_vector);
        flags & 0x01 != 0
    }

    /// Whether the frame comes from a distribution system.
    #[verifier::when_used_as_spec(spec_from_ds)]
    pub fn from_ds(self) -> (set: bool)
        ensures
            set == self.spec_from_ds(),
    {
        let flags = self.flags;
        assert((flags & 0x02 != 0) == ((flags / 2) % 2 == 1)) by (bit_vector);
        flags & 0x02 != 0
    }
}


/// Whether the table of `frame_type` gives `frame_subtype` a wire value.
/// The two sentinels stand for values, not for subtypes, and have none.
pub open spec fn in_table(frame_type: FrameType, frame_subtype: FrameSubType) -> bool {
    &&& frame_subtype != FrameSubType::Reserved
    &&& frame_subtype != FrameSubType::Unhandled
    &&& exists|nibble: u8| nibble < 16 && subtype_of_nibble(frame_type, nibble) == frame_subtype
}

/// The two tables of each frame type are inverse to each other: a subtype
/// has a wire nibble exactly if the table of its type holds it, and that
/// nibble reads back as the subtype.
pub proof fn lemma_tables_inverse(frame_type: FrameType, frame_subtype: FrameSubType)
    ensures
        nibble_of_subtype(frame_type, frame_subtype) is Ok <==> in_table(frame_type, frame_subtype),
        nibble_of_subtype(frame_type, frame_subtype) matches Ok(nibble) ==> nibble < 16
            && subtype_of_nibble(frame_type, nibble) == frame_subtype,
{
    match nibble_of_subtype(frame_type, frame_subtype) {
        Ok(nibble) => {
            assert(nibble < 16 && subtype_of_nibble(frame_type, nibble) == frame_subtype);
        },
        Err(_) => {
            assert forall|nibble: u8| nibble < 16 implies subtype_of_nibble(frame_type, nibble)
                != frame_subtype || frame_subtype == FrameSubType::Reserved || frame_subtype
                == FrameSubType::Unhandled by {}
        },
    }
}

/// A nibble that stands for a subtype is the wire value of that subtype.
pub proof fn lemma_nibble_read_back(frame_type: FrameType, nibble: u8)
    requires
        nibble < 16,
    ensures
        match nibble_of_subtype(frame_type, subtype_of_nibble(frame_type, nibble)) {
            Ok(written) => written == nibble,
            Err(e) => {
                let frame_subtype = subtype_of_nibble(frame_type, nibble);
                ||| frame_type == FrameType::Unknown && e == SerializationError::FCtrlUnknownType
                ||| frame_subtype == FrameSubType::Reserved && e
                    == SerializationError::FCtrlReservedSubtype
            },
        },
{
}

/// Writing a frame control and reading the two octets gives it back
/// exactly if its subtype is in the table of its type and its version fits
/// two bits.
pub proof fn lemma_frame_control_round_trip(frame_control: FrameControl)
    ensures
        (in_table(frame_control.frame_type, frame_control.frame_subtype)
            && frame_control.protocol_version < 4) <==> (frame_control.wire() matches Ok(octets)
            && FrameControl::from_wire(octets[0], octets[1]) == frame_control),
        frame_control.wire() matches Ok(octets) ==> octets.len() == 2,
{
    lemma_tables_inverse(frame_control.frame_type, frame_control.frame_subtype);
}

/// A frame control has no wire form exactly if its subtype is not in the
/// table of its type, and the error tells why: the type is the extension
/// type; else the subtype is `Reserved`; else it is `Unhandled`; else it
/// belongs to another type.
pub proof fn lemma_frame_control_refused(frame_control: FrameControl)
    ensures
        frame_control.wire() is Err <==> !in_table(
            frame_control.frame_type,
            frame_control.frame_subtype,
        ),
        frame_control.wire() matches Err(e) ==> e == (if frame_control.frame_type
            == FrameType::Unknown {
            SerializationError::FCtrlUnknownType
        } else if frame_control.frame_subtype == FrameSubType::Reserved {
            SerializationError::FCtrlReservedSubtype
        } else if frame_control.frame_subtype == FrameSubType::Unhandled {
            SerializationError::FCtrlUnhandledSubtype
        } else {
            SerializationError::FCtrlInvalidSubtype
        }),
{
    lemma_tables_inverse(frame_control.frame_type, frame_control.frame_subtype);
}

/// Reading two octets and writing the frame control gives the two octets
/// back, unless they hold a value that the standard has not assigned or the
/// extension type.
pub proof fn lemma_frame_control_read_back(first: u8, flags: u8)
    ensures
        match FrameControl::from_wire(first, flags).wire() {
            Ok(octets) => octets == seq![first, flags],
            Err(e) => {
                let frame_control = FrameControl::from_wire(first, flags);
                ||| frame_control.frame_type == FrameType::Unknown && e
                    == SerializationError::FCtrlUnknownType
                ||| frame_control.frame_subtype == FrameSubType::Reserved && e
                    == SerializationError::FCtrlReservedSubtype
            },
        },
        FrameControl::from_wire(first, flags).protocol_version < 4,
{
    let frame_control = FrameControl::from_wire(first, flags);
    lemma_nibble_read_back(frame_control.frame_type, first / 16);
    if frame_control.wire() is Ok {
        assert(frame_control.wire()->Ok_0 =~= seq![first, flags]);
    }
}

} // verus!
