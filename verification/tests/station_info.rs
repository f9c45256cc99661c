use libwifi::error::{Error, ParseError};
use libwifi::frame::components::{ManagementInfoId, StationInfo, SupportedRate, UnknownInfoId};
use libwifi::generators::components::station_info::station_info_len;
use libwifi::generators::{gen_station_info, GenError, SerializationError};
use libwifi::parsers::parse_station_info;

fn written(station_info: &StationInfo) -> Result<Vec<u8>, GenError> {
    let mut buffer = vec![0_u8; 4096];
    let end = match gen_station_info((&mut buffer[..], 0), station_info) {
        Ok((_, end)) => end,
        Err(e) => return Err(e),
    };
    buffer.truncate(end);
    Ok(buffer)
}

fn eof(left: &[u8]) -> ParseError {
    ParseError::Error("Eof".to_string(), left.to_vec())
}

#[test]
fn elements_are_read_in_order() {
    let input = [
        0, 3, b'a', b'b', b'c', 1, 2, 0x82, 0x84, 3, 1, 11, 221, 0, 3, 1, 6, 221, 3, 1, 2, 3,
    ];
    let (rest, station_info) = parse_station_info(&input).unwrap();
    assert!(rest.is_empty());
    assert_eq!(
        station_info,
        StationInfo {
            supported_rates: vec![SupportedRate(0x82), SupportedRate(0x84)],
            ssid: Some("abc".to_string()),
            data: vec![
                (ManagementInfoId::DsParameterSet, vec![11]),
                (ManagementInfoId::VendorSpecific, vec![]),
                (ManagementInfoId::DsParameterSet, vec![6]),
                (ManagementInfoId::VendorSpecific, vec![1, 2, 3]),
            ],
        }
    );
}

#[test]
fn consumed_octets_are_two_for_each_element_and_the_payloads() {
    // payloads of 3, 0, 5 and 1 octets, and a trailer of 4
    let input = [
        5, 3, 1, 2, 3, 7, 0, 221, 5, 1, 2, 3, 4, 5, 3, 1, 9, 0xde, 0xad, 0xbe, 0xef,
    ];
    let (rest, station_info) = parse_station_info(&input).unwrap();
    assert_eq!(rest, [0xde, 0xad, 0xbe, 0xef]);
    let sum: usize = station_info
        .data
        .iter()
        .map(|field| 2 + field.1.len())
        .sum();
    assert_eq!(station_info.data.len(), 4);
    assert_eq!(sum, (2 + 3) + (2 + 0) + (2 + 5) + (2 + 1));
    assert_eq!(sum, input.len() - rest.len());
    assert_eq!(written(&station_info).unwrap(), input[..17]);
}

#[test]
fn at_most_four_octets_are_left_for_a_trailer() {
    // Behind the first element are five octets: reading goes on.
    let (rest, station_info) = parse_station_info(&[3, 1, 6, 221, 3, 1, 2, 3]).unwrap();
    assert!(rest.is_empty());
    assert_eq!(station_info.data.len(), 2);
    // Behind the first element are four octets: they are left, although they hold an element.
    let (rest, station_info) = parse_station_info(&[3, 1, 6, 221, 2, 1, 2]).unwrap();
    assert_eq!(rest, [221, 2, 1, 2]);
    assert_eq!(
        station_info.data,
        vec![(ManagementInfoId::DsParameterSet, vec![6])]
    );
}

#[test]
fn first_element_is_read_from_a_short_input() {
    let (rest, station_info) = parse_station_info(&[3, 1, 6]).unwrap();
    assert!(rest.is_empty());
    assert_eq!(
        station_info.data,
        vec![(ManagementInfoId::DsParameterSet, vec![6])]
    );
    let (rest, station_info) = parse_station_info(&[0, 0, 9, 9]).unwrap();
    assert_eq!(rest, [9, 9]);
    assert_eq!(station_info.ssid.as_deref(), Some(""));
}

#[test]
fn element_without_a_name_is_passed_over() {
    let input = [
        12, 3, 1, 2, 3, 3, 1, 6, 127, 1, 0, 200, 0, 0, 3, b'h', b'i', b'!',
    ];
    let (rest, station_info) = parse_station_info(&input).unwrap();
    assert!(rest.is_empty());
    assert_eq!(
        station_info,
        StationInfo {
            supported_rates: vec![],
            ssid: Some("hi!".to_string()),
            data: vec![(ManagementInfoId::DsParameterSet, vec![6])],
        }
    );
}

#[test]
fn later_ssid_and_rates_take_the_place_of_earlier_ones() {
    let input = [
        0, 1, b'a', 1, 1, 0x82, 0, 2, b'b', b'c', 1, 3, 0x0c, 0x12, 0x18,
    ];
    let (_, station_info) = parse_station_info(&input).unwrap();
    assert_eq!(station_info.ssid.as_deref(), Some("bc"));
    assert_eq!(
        station_info.supported_rates,
        vec![SupportedRate(0x0c), SupportedRate(0x12), SupportedRate(0x18)]
    );
    assert!(station_info.data.is_empty());
}

#[test]
fn nul_in_an_ssid_becomes_a_space() {
    let input = [0, 6, b'a', 0, b'b', 0, 0, b'c'];
    let (_, station_info) = parse_station_info(&input).unwrap();
    assert_eq!(station_info.ssid.as_deref(), Some("a b  c"));
}

#[test]
fn ssid_that_is_not_utf8_is_read_with_replacement_characters() {
    let input = [0, 5, b'a', 0xff, b'b', 0xc3, 0x28];
    let (_, station_info) = parse_station_info(&input).unwrap();
    assert_eq!(station_info.ssid.as_deref(), Some("a\u{fffd}b\u{fffd}("));
    // Valid UTF-8 of more than one octet is kept.
    let input = [0, 6, 0xc3, 0xa9, 0xe2, 0x82, 0xac, b'!'];
    let (_, station_info) = parse_station_info(&input).unwrap();
    assert_eq!(station_info.ssid.as_deref(), Some("\u{e9}\u{20ac}!"));
    assert_eq!(written(&station_info).unwrap(), input);
}

#[test]
fn broken_element_is_a_parse_error() {
    assert_eq!(parse_station_info(&[]), Err(eof(&[])));
    assert_eq!(parse_station_info(&[3]), Err(eof(&[])));
    assert_eq!(parse_station_info(&[3, 2, 6]), Err(eof(&[6])));
    assert_eq!(parse_station_info(&[3, 1]), Err(eof(&[])));
    // The second element says 200 octets and has 4.
    assert_eq!(
        parse_station_info(&[3, 1, 6, 221, 200, 1, 2, 3, 4]),
        Err(eof(&[1, 2, 3, 4]))
    );
    assert_eq!(
        Error::from(eof(&[1, 2, 3, 4])),
        Error::ParseFailure(
            "An error occured while parsing the data: nom::ErrorKind is Eof".to_string(),
            vec![1, 2, 3, 4]
        )
    );
}

#[test]
fn element_of_255_octets_is_read() {
    let mut input = vec![221, 255];
    input.extend(std::iter::repeat(7).take(255));
    let (rest, station_info) = parse_station_info(&input).unwrap();
    assert!(rest.is_empty());
    assert_eq!(
        station_info.data,
        vec![(ManagementInfoId::VendorSpecific, vec![7; 255])]
    );
    assert_eq!(written(&station_info).unwrap(), input);
}

#[test]
fn ssid_comes_first_then_rates_then_the_fields() {
    let station_info = StationInfo {
        supported_rates: vec![SupportedRate(0x82), SupportedRate(0x6c)],
        ssid: Some("net".to_string()),
        data: vec![
            (ManagementInfoId::VendorSpecific, vec![9, 8, 7]),
            (ManagementInfoId::DsParameterSet, vec![1]),
            (ManagementInfoId::VendorSpecific, vec![]),
        ],
    };
    assert_eq!(
        written(&station_info).unwrap(),
        [0, 3, b'n', b'e', b't', 1, 2, 0x82, 0x6c, 221, 3, 9, 8, 7, 3, 1, 1, 221, 0]
    );
    assert_eq!(station_info_len(&station_info), Ok(Some(19)));
}

#[test]
fn empty_rates_and_missing_ssid_are_not_written() {
    let station_info = StationInfo {
        supported_rates: vec![],
        ssid: None,
        data: vec![(ManagementInfoId::TIM, vec![0, 1, 0, 0])],
    };
    assert_eq!(written(&station_info).unwrap(), [5, 4, 0, 1, 0, 0]);
    assert_eq!(written(&StationInfo::default()).unwrap(), []);
    assert_eq!(station_info_len(&StationInfo::default()), Ok(Some(0)));
    // An empty SSID is an element.
    let station_info = StationInfo {
        supported_rates: vec![],
        ssid: Some(String::new()),
        data: vec![],
    };
    assert_eq!(written(&station_info).unwrap(), [0, 0]);
}

#[test]
fn payload_of_255_octets_is_written_and_256_is_refused() {
    let too_long = Err(GenError::CustomError(
        SerializationError::MgmtElementTooLong,
    ));

    let mut station_info = StationInfo::default();
    station_info
        .data
        .push((ManagementInfoId::VendorSpecific, vec![1; 255]));
    let octets = written(&station_info).unwrap();
    assert_eq!(octets.len(), 257);
    assert_eq!(octets[..2], [221, 255]);
    assert_eq!(octets[2..], [1; 255]);
    station_info.data[0].1.push(1);
    assert_eq!(written(&station_info), too_long);
    assert_eq!(
        station_info_len(&station_info),
        Err(SerializationError::MgmtElementTooLong)
    );

    let mut station_info = StationInfo::default();
    station_info.ssid = Some("s".repeat(255));
    assert_eq!(written(&station_info).unwrap().len(), 257);
    station_info.ssid = Some("s".repeat(256));
    assert_eq!(written(&station_info), too_long);
    // The length is that of the octets, not of the characters.
    station_info.ssid = Some("\u{e9}".repeat(127));
    assert_eq!(written(&station_info).unwrap()[..2], [0, 254]);
    station_info.ssid = Some("\u{e9}".repeat(128));
    assert_eq!(written(&station_info), too_long);

    let mut station_info = StationInfo::default();
    station_info.supported_rates = vec![SupportedRate(0x82); 255];
    assert_eq!(written(&station_info).unwrap().len(), 257);
    station_info.supported_rates.push(SupportedRate(0x82));
    assert_eq!(written(&station_info), too_long);
}

#[test]
fn long_element_is_refused_before_the_buffer_is_looked_at() {
    let mut station_info = StationInfo::default();
    station_info.ssid = Some("net".to_string());
    station_info
        .data
        .push((ManagementInfoId::VendorSpecific, vec![1; 300]));
    let mut buffer = [0x11_u8; 8];
    assert_eq!(
        gen_station_info((&mut buffer[..], 0), &station_info).err(),
        Some(GenError::CustomError(
            SerializationError::MgmtElementTooLong
        ))
    );
    assert_eq!(buffer, [0x11; 8]);
}

#[test]
fn elements_need_room_for_all_of_them() {
    let station_info = StationInfo {
        supported_rates: vec![SupportedRate(0x82)],
        ssid: Some("net".to_string()),
        data: vec![(ManagementInfoId::DsParameterSet, vec![1])],
    };
    // 5 + 3 + 3 octets
    let mut buffer = [0x11_u8; 12];
    assert_eq!(
        gen_station_info((&mut buffer[..], 2), &station_info).err(),
        Some(GenError::BufferTooSmall(12))
    );
    assert_eq!(buffer, [0x11; 12]);
    assert_eq!(
        gen_station_info((&mut buffer[..], 1), &station_info)
            .unwrap()
            .1,
        12
    );
    assert_eq!(
        buffer,
        [0x11, 0, 3, b'n', b'e', b't', 1, 1, 0x82, 3, 1, 1]
    );
}

#[test]
fn written_station_info_is_read_back() {
    let station_info = StationInfo {
        supported_rates: vec![SupportedRate(0x82), SupportedRate(0x84)],
        ssid: Some("caf\u{e9}".to_string()),
        data: vec![
            (ManagementInfoId::VendorSpecific, vec![]),
            (ManagementInfoId::DsParameterSet, vec![1]),
            (ManagementInfoId::DsParameterSet, vec![1, 2, 3]),
        ],
    };
    let octets = written(&station_info).unwrap();
    assert_eq!(parse_station_info(&octets), Ok((&[][..], station_info)));
}

#[test]
fn short_last_element_is_taken_for_a_trailer() {
    let station_info = StationInfo {
        supported_rates: vec![],
        ssid: Some("net".to_string()),
        data: vec![(ManagementInfoId::DsParameterSet, vec![1])],
    };
    let octets = written(&station_info).unwrap();
    let (rest, read) = parse_station_info(&octets).unwrap();
    assert_eq!(rest, [3, 1, 1]);
    assert!(read.data.is_empty());
}

#[test]
fn rate_of_an_octet() {
    assert_eq!(u32::try_from(SupportedRate(0x82)), Ok(1000));
    let kbps = u32::try_from(SupportedRate(0x82)).unwrap();
    assert_eq!(kbps as f64 / 1000.0, 1.0);
    assert_eq!(
        u32::try_from(SupportedRate(0x99)),
        Err(Error::ParseFailure(
            "Unknown supported rate value!".to_string(),
            vec![0x99]
        ))
    );
    assert_eq!(u32::try_from(SupportedRate(0x8b)), Ok(5500));
    assert_eq!(u32::try_from(SupportedRate(0x6c)), Ok(54000));
    assert!(u32::try_from(SupportedRate(0x02)).is_err());
    assert!(u32::try_from(SupportedRate(0)).is_err());
}

#[test]
fn octet_of_a_rate() {
    assert_eq!(SupportedRate::try_from(1000), Ok(SupportedRate(0x82)));
    assert_eq!(SupportedRate::try_from(11000), Ok(SupportedRate(0x96)));
    assert_eq!(
        SupportedRate::try_from(1234),
        Err(Error::SerializeFailure(
            "Can't be an 802.11 supported rate: 1234 kbps!".to_string()
        ))
    );
    assert_eq!(
        SupportedRate::try_from(0),
        Err(Error::SerializeFailure(
            "Can't be an 802.11 supported rate: 0 kbps!".to_string()
        ))
    );
    assert_eq!(
        SupportedRate::try_from(u32::MAX),
        Err(Error::SerializeFailure(
            "Can't be an 802.11 supported rate: 4294967295 kbps!".to_string()
        ))
    );
}

#[test]
fn rates_and_octets_are_inverse() {
    let mut known = 0;
    for octet in 0..=255_u8 {
        if let Ok(kbps) = u32::try_from(SupportedRate(octet)) {
            known += 1;
            assert_eq!(SupportedRate::try_from(kbps), Ok(SupportedRate(octet)));
        }
    }
    assert_eq!(known, 14);
    for kbps in 0..=60000_u32 {
        if let Ok(rate) = SupportedRate::try_from(kbps) {
            assert_eq!(u32::try_from(rate), Ok(kbps));
        }
    }
}

#[test]
fn info_ids_and_octets_are_inverse() {
    assert_eq!(u8::from(ManagementInfoId::SSID), 0);
    assert_eq!(u8::from(ManagementInfoId::SupportedRates), 1);
    assert_eq!(u8::from(ManagementInfoId::ObssLoadElement), 11);
    assert_eq!(u8::from(ManagementInfoId::ChallengeText), 16);
    assert_eq!(u8::from(ManagementInfoId::ErpInfo), 42);
    assert_eq!(u8::from(ManagementInfoId::HtCapability), 45);
    assert_eq!(u8::from(ManagementInfoId::BssOverlapParams), 74);
    assert_eq!(u8::from(ManagementInfoId::VendorSpecific), 221);
    assert_eq!(u8::from(ManagementInfoId::InfoIdExtension), 255);
    assert_eq!(
        ManagementInfoId::try_from(12),
        Err(UnknownInfoId(12))
    );
    assert_eq!(
        ManagementInfoId::try_from(127),
        Err(UnknownInfoId(127))
    );
    let mut known = 0;
    for octet in 0..=255_u8 {
        if let Ok(id) = ManagementInfoId::try_from(octet) {
            known += 1;
            assert_eq!(u8::from(id), octet);
        }
    }
    assert_eq!(known, 32);
}

#[test]
fn default_values() {
    assert_eq!(SupportedRate::default(), SupportedRate(0));
    assert_eq!(
        StationInfo::default(),
        StationInfo {
            supported_rates: vec![],
            ssid: None,
            data: vec![],
        }
    );
}
