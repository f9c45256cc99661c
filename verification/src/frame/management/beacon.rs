use crate::bytes::{le_bytes, le_value, lemma_le_bytes_len};
use crate::error::ParseErrorView;
use crate::frame::components::station_info::{parse_elements, StationInfoView};
use crate::frame::components::{
    CapabilityInfo, FrameControl, ManagementHeader, StationInfo,
};
use crate::generators::SerializationError;
use crate::parsers::components::station_info::broken_element;
use crate::parsers::field;
use vstd::prelude::*;

verus! {

/// What an access point sends at regular intervals to announce itself.
#[derive(Clone, Debug, PartialEq, Eq)]
pub struct Beacon {
    pub header: ManagementHeader,
    pub timestamp: u64,
    pub beacon_interval: u16,
    pub capability_info: CapabilityInfo,
    pub station_info: StationInfo,
}

/// A [`Beacon`] as a value of specifications.
pub struct BeaconView {
    pub header: ManagementHeader,
    pub timestamp: u64,
    pub beacon_interval: u16,
    pub capability_info: CapabilityInfo,
    pub station_info: StationInfoView,
}

impl View for Beacon {
    type V = BeaconView;

    open spec fn view(&self) -> BeaconView {
        BeaconView {
            header: self.header,
            timestamp: self.timestamp,
            beacon_interval: self.beacon_interval,
            capability_info: self.capability_info,
            station_info: self.station_info@,
        }
    }
}

impl BeaconView {
    /// The twelve octets between the header and the elements: timestamp,
    /// interval and capabilities, each least significant octet first.
    pub open spec fn fixed_wire(self) -> Seq<u8> {
        le_bytes(self.timestamp as nat, 8) + le_bytes(self.beacon_interval as nat, 2) + le_bytes(
            self.capability_info.0 as nat,
            2,
        )
    }

    /// The octets of the frame, or the reason for which it has none: that
    /// of its header, else that of its elements.
    pub open spec fn wire(self) -> Result<Seq<u8>, SerializationError> {
        match self.header.wire() {
            Err(e) => Err(e),
            Ok(header) => match self.station_info.wire() {
                Err(e) => Err(e),
                Ok(elements) => Ok(header + self.fixed_wire() + elements),
            },
        }
    }

    /// The beacon that `frame_control` and the octets after it stand for,
    /// with the octets that are left behind its elements; or what the first
    /// field that breaks off is reported as.
    pub open spec fn from_wire(frame_control: FrameControl, body: Seq<u8>) -> Result<
        (Seq<u8>, BeaconView),
        ParseErrorView,
    > {
        if field(body, 22) is Err {
            Err(field(body, 22)->Err_0)
        } else if field(body.skip(22), 8) is Err {
            Err(field(body.skip(22), 8)->Err_0)
        } else if field(body.skip(30), 2) is Err {
            Err(field(body.skip(30), 2)->Err_0)
        } else if field(body.skip(32), 2) is Err {
            Err(field(body.skip(32), 2)->Err_0)
        } else {
            match parse_elements(body.skip(34)) {
                Err(left) => Err(broken_element(left)),
                Ok((elements, trailer)) => Ok(
                    (
                        trailer,
                        BeaconView {
                            header: ManagementHeader::from_wire(frame_control, body.take(22)),
                            timestamp: le_value(body.subrange(22, 30)) as u64,
                            beacon_interval: le_value(body.subrange(30, 32)) as u16,
                            capability_info: CapabilityInfo(
                                le_value(body.subrange(32, 34)) as u16,
                            ),
                            station_info: StationInfoView::of_elements(elements),
                        },
                    ),
                ),
            }
        }
    }
}

/// The octets of a beacon that can be written: 24 of the header, 12 of the
/// fixed fields, and those of the elements.
pub proof fn lemma_beacon_wire_layout(beacon: BeaconView)
    requires
        beacon.wire() is Ok,
    ensures
        ({
            let octets = beacon.wire()->Ok_0;
            &&& beacon.header.wire() is Ok
            &&& beacon.station_info.wire() is Ok
            &&& octets.len() == 36 + beacon.station_info.wire()->Ok_0.len()
            &&& octets.take(24) == beacon.header.wire()->Ok_0
            &&& octets.subrange(24, 32) == le_bytes(beacon.timestamp as nat, 8)
            &&& octets.subrange(32, 34) == le_bytes(beacon.beacon_interval as nat, 2)
            &&& octets.subrange(34, 36) == le_bytes(beacon.capability_info.0 as nat, 2)
            &&& octets.skip(36) == beacon.station_info.wire()->Ok_0
        }),
{
    let octets = beacon.wire()->Ok_0;
    lemma_le_bytes_len(beacon.timestamp as nat, 8);
    lemma_le_bytes_len(beacon.beacon_interval as nat, 2);
    lemma_le_bytes_len(beacon.capability_info.0 as nat, 2);
    assert(octets.take(24) =~= beacon.header.wire()->Ok_0);
    assert(octets.subrange(24, 32) =~= le_bytes(beacon.timestamp as nat, 8));
    assert(octets.subrange(32, 34) =~= le_bytes(beacon.beacon_interval as nat, 2));
    assert(octets.subrange(34, 36) =~= le_bytes(beacon.capability_info.0 as nat, 2));
    assert(octets.skip(36) =~= beacon.station_info.wire()->Ok_0);
}

} // verus!
