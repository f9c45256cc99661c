use crate::frame::components::{FrameControl, MacAddress, SequenceControl};
use crate::generators::SerializationError;
use vstd::prelude::*;

verus! {

/// The header of every management frame: 24 octets.
#[derive(Clone, Copy, Debug, PartialEq, Eq)]
pub struct ManagementHeader {
    pub frame_control: FrameControl,
    pub duration: [u8; 2],
    pub address_1: MacAddress,
    pub address_2: MacAddress,
    pub address_3: MacAddress,
    pub sequence_control: SequenceControl,
}

/// The header of every data frame: 24 octets, then a fourth address in
/// frames that travel between two access points, then the QoS control field
/// in frames of a QoS subtype.
#[derive(Clone, Copy, Debug, PartialEq, Eq)]
pub struct DataHeader {
    pub frame_control: FrameControl,
    pub duration: [u8; 2],
    pub address_1: MacAddress,
    pub address_2: MacAddress,
    pub address_3: MacAddress,
    pub sequence_control: SequenceControl,
    pub address_4: Option<MacAddress>,
    pub qos: Option<[u8; 2]>,
}

/// The 22 octets that follow the frame control in both kinds of header.
pub open spec fn addressing_wire(
    duration: [u8; 2],
    address_1: MacAddress,
    address_2: MacAddress,
    address_3: MacAddress,
    sequence_control: SequenceControl,
) -> Seq<u8> {
    duration@ + address_1.wire() + address_2.wire() + address_3.wire() + sequence_control.wire()
}

impl ManagementHeader {
    /// The 22 octets that follow the frame control.
    pub open spec fn body_wire(self) -> Seq<u8> {
        addressing_wire(
            self.duration,
            self.address_1,
            self.address_2,
            self.address_3,
            self.sequence_control,
        )
    }

    /// The 24 octets of the header, or the reason for which its frame
    /// control has no wire form.
    pub open spec fn wire(self) -> Result<Seq<u8>, SerializationError> {
        match self.frame_control.wire() {
            Ok(octets) => Ok(octets + self.body_wire()),
            Err(e) => Err(e),
        }
    }

    /// The header that `frame_control` and the 22 octets after it stand
    /// for.
    pub open spec fn from_wire(frame_control: FrameControl, body: Seq<u8>) -> ManagementHeader
        recommends
            body.len() == 22,
    {
        ManagementHeader {
            frame_control,
            duration: array_of_2(body.subrange(0, 2)),
            address_1: MacAddress(array_of_6(body.subrange(2, 8))),
            address_2: MacAddress(array_of_6(body.subrange(8, 14))),
            address_3: MacAddress(array_of_6(body.subrange(14, 20))),
            sequence_control: SequenceControl::from_wire(body[20], body[21]),
        }
    }

    /// A header that the wire can carry without loss.
    pub open spec fn well_formed(self) -> bool {
        self.frame_control.well_formed() && self.sequence_control.well_formed()
    }
}

impl DataHeader {
    /// Whether frames with this frame control carry a fourth address.
    pub open spec fn has_address_4(frame_control: FrameControl) -> bool {
        frame_control.spec_to_ds() && frame_control.spec_from_ds()
    }

    /// Whether frames with this frame control carry a QoS control field.
    pub open spec fn has_qos(frame_control: FrameControl) -> bool {
        frame_control.frame_subtype.spec_is_qos()
    }

    /// The octets that follow the frame control.
    pub open spec fn body_wire(self) -> Seq<u8> {
        addressing_wire(
            self.duration,
            self.address_1,
            self.address_2,
            self.address_3,
            self.sequence_control,
        ) + (match self.address_4 {
            Some(address) => address.wire(),
            None => Seq::empty(),
        }) + (match self.qos {
            Some(qos) => qos@,
            None => Seq::empty(),
        })
    }

    /// The octets of the header, or the reason for which its frame control
    /// has no wire form. The two optional fields are written where the
    /// header holds them.
    pub open spec fn wire(self) -> Result<Seq<u8>, SerializationError> {
        match self.frame_control.wire() {
            Ok(octets) => Ok(octets + self.body_wire()),
            Err(e) => Err(e),
        }
    }

    /// The number of octets that follow the frame control in a header that
    /// begins with `frame_control`.
    pub open spec fn body_len(frame_control: FrameControl) -> nat {
        (22 + (if Self::has_address_4(frame_control) {
            6nat
        } else {
            0nat
        }) + (if Self::has_qos(frame_control) {
            2nat
        } else {
            0nat
        })) as nat
    }

    /// The header that `frame_control` and the octets after it stand for.
    pub open spec fn from_wire(frame_control: FrameControl, body: Seq<u8>) -> DataHeader
        recommends
            body.len() == Self::body_len(frame_control),
    {
        let after_address_4: int = if Self::has_address_4(frame_control) {
            28
        } else {
            22
        };
        DataHeader {
            frame_control,
            duration: array_of_2(body.subrange(0, 2)),
            address_1: MacAddress(array_of_6(body.subrange(2, 8))),
            address_2: MacAddress(array_of_6(body.subrange(8, 14))),
            address_3: MacAddress(array_of_6(body.subrange(14, 20))),
            sequence_control: SequenceControl::from_wire(body[20], body[21]),
            address_4: if Self::has_address_4(frame_control) {
                Some(MacAddress(array_of_6(body.subrange(22, 28))))
            } else {
                None
            },
            qos: if Self::has_qos(frame_control) {
                Some(array_of_2(body.subrange(after_address_4, after_address_4 + 2)))
            } else {
                None
            },
        }
    }

    /// A header that the wire can carry without loss: its optional fields
    /// are there exactly where its frame control says so.
    pub open spec fn well_formed(self) -> bool {
        &&& self.frame_control.well_formed()
        &&& self.sequence_control.well_formed()
        &&& self.address_4 is Some <==> Self::has_address_4(self.frame_control)
        &&& self.qos is Some <==> Self::has_qos(self.frame_control)
    }
}

/// The array that holds the two octets of `octets`.
pub open spec fn array_of_2(octets: Seq<u8>) -> [u8; 2]
    recommends
        octets.len() == 2,
{
    [octets[0], octets[1]]
}

/// The array that holds the six octets of `octets`.
pub open spec fn array_of_6(octets: Seq<u8>) -> [u8; 6]
    recommends
        octets.len() == 6,
{
    [octets[0], octets[1], octets[2], octets[3], octets[4], octets[5]]
}

} // verus!
