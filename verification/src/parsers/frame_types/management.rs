use crate::error::{ParseError, ParseErrorView};
use crate::frame::components::{CapabilityInfo, FrameControl};
use crate::frame::management::association_request::AssociationRequestView;
use crate::frame::management::beacon::BeaconView;
use crate::frame::{AssociationRequest, Beacon};
use crate::parsers::components::header::parse_management_header;
use crate::parsers::components::station_info::parse_station_info;
use crate::parsers::{le_u16, le_u64};
use vstd::prelude::*;

verus! {

/// Reads what follows the frame control in a beacon: the rest of the
/// header, timestamp, interval, capabilities and the information elements.
pub fn parse_beacon<'a>(frame_control: FrameControl, input: &'a [u8]) -> (r: Result<
    (&'a [u8], Beacon),
    ParseError,
>)
    ensures
        match r {
            Ok((rest, beacon)) => BeaconView::from_wire(frame_control, input@) == Ok::<
                _,
                ParseErrorView,
            >((rest@, beacon@)),
            Err(e) => BeaconView::from_wire(frame_control, input@) == Err::<
                (Seq<u8>, BeaconView),
                _,
            >(e@),
        },
{
    let (after_header, header) = match parse_management_header(frame_control, input) {
        Ok(read) => read,
        Err(e) => { return Err(e); },
    };
    let (after_timestamp, timestamp) = match le_u64(after_header) {
        Ok(read) => read,
        Err(e) => { return Err(e); },
    };
    let (after_interval, beacon_interval) = match le_u16(after_timestamp) {
        Ok(read) => read,
        Err(e) => { return Err(e); },
    };
    let (elements, capability_info) = match le_u16(after_interval) {
        Ok(read) => read,
        Err(e) => { return Err(e); },
    };
    proof {
        let body = input@;
        assert(after_timestamp@ =~= body.skip(30));
        assert(after_interval@ =~= body.skip(32));
        assert(elements@ =~= body.skip(34));
        assert(body.skip(22).take(8) =~= body.subrange(22, 30));
        assert(body.skip(30).take(2) =~= body.subrange(30, 32));
        assert(body.skip(32).take(2) =~= body.subrange(32, 34));
    }
    let (rest, station_info) = match parse_station_info(elements) {
        Ok(read) => read,
        Err(e) => { return Err(e); },
    };
    Ok(
        (
            rest,
            Beacon {
                header,
                timestamp,
                beacon_interval,
                capability_info: CapabilityInfo::from_bits_truncate(capability_info),
                station_info,
            },
        ),
    )
}

/// Reads what follows the frame control in an association request: the
/// rest of the header, interval, capabilities and the information
/// elements.
pub fn parse_association_request<'a>(frame_control: FrameControl, input: &'a [u8]) -> (r: Result<
    (&'a [u8], AssociationRequest),
    ParseError,
>)
    ensures
        match r {
            Ok((rest, request)) => AssociationRequestView::from_wire(frame_control, input@) == Ok::<
                _,
                ParseErrorView,
            >((rest@, request@)),
            Err(e) => AssociationRequestView::from_wire(frame_control, input@) == Err::<
                (Seq<u8>, AssociationRequestView),
                _,
            >(e@),
        },
{
    let (after_header, header) = match parse_management_header(frame_control, input) {
        Ok(read) => read,
        Err(e) => { return Err(e); },
    };
    let (after_interval, beacon_interval) = match le_u16(after_header) {
        Ok(read) => read,
        Err(e) => { return Err(e); },
    };
    let (elements, capability_info) = match le_u16(after_interval) {
        Ok(read) => read,
        Err(e) => { return Err(e); },
    };
    proof {
        let body = input@;
        assert(after_interval@ =~= body.skip(24));
        assert(elements@ =~= body.skip(26));
        assert(body.skip(22).take(2) =~= body.subrange(22, 24));
        assert(body.skip(24).take(2) =~= body.subrange(24, 26));
    }
    let (rest, station_info) = match parse_station_info(elements) {
        Ok(read) => read,
        Err(e) => { return Err(e); },
    };
    Ok((rest, AssociationRequest { header, beacon_interval, capability_info, station_info }))
}

} // verus!
