use crate::bytes::le_value;
use crate::error::{ParseError, ParseErrorView};
use crate::frame::components::station_info::{parse_elements, StationInfoView};
use crate::frame::components::{FrameControl, ManagementHeader, StationInfo};
use crate::parsers::components::station_info::broken_element;
use crate::parsers::frame_types::management::parse_association_request;
use crate::parsers::{field, parse_frame_control};
use vstd::prelude::*;

verus! {

/// What a station sends to an access point to join its network.
#[derive(Clone, Debug, PartialEq, Eq)]
pub struct AssociationRequest {
    pub header: ManagementHeader,
    pub beacon_interval: u16,
    pub capability_info: u16,
    pub station_info: StationInfo,
}

/// An [`AssociationRequest`] as a value of specifications.
pub struct AssociationRequestView {
    pub header: ManagementHeader,
    pub beacon_interval: u16,
    pub capability_info: u16,
    pub station_info: StationInfoView,
}

impl View for AssociationRequest {
    type V = AssociationRequestView;

    open spec fn view(&self) -> AssociationRequestView {
        AssociationRequestView {
            header: self.header,
            beacon_interval: self.beacon_interval,
            capability_info: self.capability_info,
            station_info: self.station_info@,
        }
    }
}

impl AssociationRequest {
    /// Reads an association request from the first octet of its frame
    /// control on. The subtype that the frame control gives is not looked
    /// at.
    pub fn parse<'a>(input: &'a [u8]) -> (r: Result<(&'a [u8], AssociationRequest), ParseError>)
        ensures
            match r {
                Ok((rest, request)) => AssociationRequestView::of_frame(input@) == Ok::<
                    _,
                    ParseErrorView,
                >((rest@, request@)),
                Err(e) => AssociationRequestView::of_frame(input@) == Err::<
                    (Seq<u8>, AssociationRequestView),
                    _,
                >(e@),
            },
    {
        let (body, frame_control) = match parse_frame_control(input) {
            Ok(read) => read,
            Err(e) => { return Err(e); },
        };
        parse_association_request(frame_control, body)
    }
}

impl AssociationRequestView {
    /// The request that a frame stands for when it is read as one, with the
    /// octets that are left behind its elements; or what the first field
    /// that breaks off is reported as.
    pub open spec fn of_frame(input: Seq<u8>) -> Result<
        (Seq<u8>, AssociationRequestView),
        ParseErrorView,
    > {
        match field(input, 2) {
            Err(e) => Err(e),
            Ok((body, _)) => Self::from_wire(FrameControl::from_wire(input[0], input[1]), body),
        }
    }

    /// The request that `frame_control` and the octets after it stand for,
    /// with the octets that are left behind its elements; or what the first
    /// field that breaks off is reported as.
    pub open spec fn from_wire(frame_control: FrameControl, body: Seq<u8>) -> Result<
        (Seq<u8>, AssociationRequestView),
        ParseErrorView,
    > {
        if field(body, 22) is Err {
            Err(field(body, 22)->Err_0)
        } else if field(body.skip(22), 2) is Err {
            Err(field(body.skip(22), 2)->Err_0)
        } else if field(body.skip(24), 2) is Err {
            Err(field(body.skip(24), 2)->Err_0)
        } else {
            match parse_elements(body.skip(26)) {
                Err(left) => Err(broken_element(left)),
                Ok((elements, trailer)) => Ok(
                    (
                        trailer,
                        AssociationRequestView {
                            header: ManagementHeader::from_wire(frame_control, body.take(22)),
                            beacon_interval: le_value(body.subrange(22, 24)) as u16,
                            capability_info: le_value(body.subrange(24, 26)) as u16,
                            station_info: StationInfoView::of_elements(elements),
                        },
                    ),
                ),
            }
        }
    }
}

} // verus!
