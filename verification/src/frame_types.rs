use vstd::prelude::*;

verus! {

/// The four categories a frame can belong to, as announced by bits 2 and 3
/// of the first frame control octet.
#[derive(Clone, Copy, Debug, PartialEq, Eq, Structural)]
pub enum FrameType {
    Management,
    Control,
    Data,
    /// Wire value 3, set aside for protocol extensions.
    Unknown,
}

/// Every frame subtype of the three categories, in one enum.
///
/// The same wire nibble means different things in different categories, so a
/// subtype can only be read from or written to the wire together with its
/// [`FrameType`].
#[derive(Clone, Copy, Debug, PartialEq, Eq, Structural)]
pub enum FrameSubType {
    // Management subtypes
    AssociationRequest,
    AssociationResponse,
    ReassociationRequest,
    ReassociationResponse,
    ProbeRequest,
    ProbeResponse,
    TimingAdvertisement,
    Beacon,
    Atim,
    Disassociation,
    Authentication,
    Deauthentication,
    Action,
    ActionNoAck,
    // Control subtypes
    Trigger,
    Tack,
    BeamformingReportPoll,
    NdpAnnouncement,
    ControlFrameExtension,
    ControlWrapper,
    BlockAckRequest,
    BlockAck,
    PsPoll,
    Rts,
    Cts,
    Ack,
    CfEnd,
    CfEndCfAck,
    // Data subtypes
    Data,
    DataCfAck,
    DataCfPoll,
    DataCfAckCfPoll,
    NullData,
    CfAck,
    CfPoll,
    CfAckCfPoll,
    QosData,
    QosDataCfAck,
    QosDataCfPoll,
    QosDataCfAckCfPoll,
    QosNull,
    QosCfPoll,
    QosCfAckCfPoll,
    /// The wire value has no meaning assigned by the standard.
    Reserved,
    /// The wire value has a meaning that this library does not know.
    Unhandled,
}

impl FrameType {
    /// The two-bit wire value of a category.
    pub open spec fn wire_value(self) -> u8 {
        match self {
            FrameType::Management => 0,
            FrameType::Control => 1,
            FrameType::Data => 2,
            FrameType::Unknown => 3,
        }
    }

    /// The category that a two-bit wire value stands for.
    pub open spec fn from_wire_value(bits: u8) -> FrameType {
        match bits {
            0 => FrameType::Management,
            1 => FrameType::Control,
            2 => FrameType::Data,
            _ => FrameType::Unknown,
        }
    }
}

impl FrameSubType {
    /// Whether frames of this subtype carry a QoS control field.
    pub open spec fn spec_is_qos(self) -> bool {
        self == FrameSubType::QosData || self == FrameSubType::QosDataCfAck || self
            == FrameSubType::QosDataCfPoll || self == FrameSubType::QosDataCfAckCfPoll || self
            == FrameSubType::QosNull || self == FrameSubType::QosCfPoll || self
            == FrameSubType::QosCfAckCfPoll
    }

    /// Whether frames of this subtype carry a QoS control field.
    #[verifier::when_used_as_spec(spec_is_qos)]
    pub fn is_qos(self) -> (qos: bool)
        ensures
            qos == self.spec_is_qos(),
    {
        match self {
            FrameSubType::QosData
            | FrameSubType::QosDataCfAck
            | FrameSubType::QosDataCfPoll
            | FrameSubType::QosDataCfAckCfPoll
            | FrameSubType::QosNull
            | FrameSubType::QosCfPoll
            | FrameSubType::QosCfAckCfPoll => true,
            _ => false,
        }
    }
}

} // verus!
