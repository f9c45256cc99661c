use libwifi::error::{Error, Needed, ParseError};
use libwifi::frame::components::{
    FrameControl, MacAddress, ManagementHeader, ManagementInfoId, SequenceControl, StationInfo,
    SupportedRate,
};
use libwifi::frame::{AssociationRequest, Frame};
use libwifi::frame_types::{FrameSubType, FrameType};
use libwifi::parse_frame;
use libwifi::parsers::{parse_association_request, parse_frame_control};
use libwifi::HasHeader;

fn capture() -> Vec<u8> {
    let mut octets = vec![
        // frame control, duration
        0x00, 0x10, 0x3a, 0x01,
        // three addresses
        0x14, 0xeb, 0xb6, 0xaf, 0x7b, 0x67, 0xde, 0xad, 0xde, 0xad, 0xde, 0xad, 0x14, 0xeb, 0xb6,
        0xaf, 0x7b, 0x67,
        // sequence control: fragment 0, sequence 0x123
        0x30, 0x12,
        // interval, capabilities
        0x0a, 0x00, 0x11, 0x01,
    ];
    octets.extend_from_slice(&[0, 3, b'n', b'e', b't', 1, 2, 0x82, 0x84, 48, 3, 1, 0, 0]);
    octets
}

fn request() -> AssociationRequest {
    AssociationRequest {
        header: ManagementHeader {
            frame_control: FrameControl {
                protocol_version: 0,
                frame_type: FrameType::Management,
                frame_subtype: FrameSubType::AssociationRequest,
                flags: 0x10,
            },
            duration: [0x3a, 0x01],
            address_1: MacAddress([0x14, 0xeb, 0xb6, 0xaf, 0x7b, 0x67]),
            address_2: MacAddress([0xde, 0xad, 0xde, 0xad, 0xde, 0xad]),
            address_3: MacAddress([0x14, 0xeb, 0xb6, 0xaf, 0x7b, 0x67]),
            sequence_control: SequenceControl {
                fragment_number: 0,
                sequence_number: 0x123,
            },
        },
        beacon_interval: 10,
        capability_info: 0x0111,
        station_info: StationInfo {
            supported_rates: vec![SupportedRate(0x82), SupportedRate(0x84)],
            ssid: Some("net".to_string()),
            data: vec![(ManagementInfoId::RobustSecurityNetwork, vec![1, 0, 0])],
        },
    }
}

#[test]
fn association_request_is_read_by_parse_frame() {
    let capture = capture();
    assert_eq!(
        parse_frame(&capture),
        Ok((&[][..], Frame::AssociationRequest(request())))
    );
}

#[test]
fn association_request_is_read_by_its_own_parser() {
    let mut capture = capture();
    capture.extend_from_slice(&[1, 2, 3, 4]);
    assert_eq!(
        AssociationRequest::parse(&capture),
        Ok((&[1_u8, 2, 3, 4][..], request()))
    );
    let (body, control) = parse_frame_control(&capture).unwrap();
    assert_eq!(
        parse_association_request(control, body),
        Ok((&[1_u8, 2, 3, 4][..], request()))
    );
}

#[test]
fn own_parser_does_not_look_at_the_subtype() {
    let mut capture = capture();
    // a probe request
    capture[0] = 0x40;
    let mut expected = request();
    expected.header.frame_control.frame_subtype = FrameSubType::ProbeRequest;
    assert_eq!(
        AssociationRequest::parse(&capture),
        Ok((&[][..], expected))
    );
    assert!(matches!(
        parse_frame(&capture),
        Err(Error::UnhandledFrameSubtype(_, _))
    ));
}

#[test]
fn short_association_request() {
    let capture = capture();
    assert_eq!(
        AssociationRequest::parse(&capture[..1]),
        Err(ParseError::Incomplete(Needed::Size(1)))
    );
    assert_eq!(
        AssociationRequest::parse(&capture[..20]),
        Err(ParseError::Incomplete(Needed::Size(4)))
    );
    assert_eq!(
        AssociationRequest::parse(&capture[..25]),
        Err(ParseError::Incomplete(Needed::Size(1)))
    );
    assert_eq!(
        AssociationRequest::parse(&capture[..27]),
        Err(ParseError::Incomplete(Needed::Size(1)))
    );
    assert_eq!(
        AssociationRequest::parse(&capture[..28]),
        Err(ParseError::Error("Eof".to_string(), vec![]))
    );
    assert_eq!(
        AssociationRequest::parse(&capture[..32]),
        Err(ParseError::Error("Eof".to_string(), b"ne".to_vec()))
    );
    assert_eq!(
        parse_frame(&capture[..32]),
        Err(Error::ParseFailure(
            "An error occured while parsing the data: nom::ErrorKind is Eof".to_string(),
            b"ne".to_vec()
        ))
    );
}

#[test]
fn header_of_a_frame() {
    let request = request();
    assert_eq!(request.get_header(), &request.header);
    assert_eq!(
        request.get_header().address_2,
        MacAddress([0xde, 0xad, 0xde, 0xad, 0xde, 0xad])
    );
}
