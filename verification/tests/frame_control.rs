use libwifi::error::{Error, Needed, ParseError};
use libwifi::frame::components::FrameControl;
use libwifi::frame_types::{FrameSubType, FrameType};
use libwifi::generators::{
    gen_ctrl_subtype, gen_data_subtype, gen_frame_control, gen_frame_type, gen_mgmt_subtype,
    GenError, SerializationError,
};
use libwifi::parsers::parse_frame_control;

fn written(frame_control: &FrameControl) -> Result<[u8; 2], GenError> {
    let mut buffer = [0_u8; 2];
    match gen_frame_control((&mut buffer[..], 0), frame_control) {
        Ok((_, end)) => assert_eq!(end, 2),
        Err(e) => return Err(e),
    }
    Ok(buffer)
}

#[test]
fn beacon_frame_control_is_read() {
    let (rest, control) = parse_frame_control(&[0x80, 0x00]).unwrap();
    assert!(rest.is_empty());
    assert_eq!(
        control,
        FrameControl {
            protocol_version: 0,
            frame_type: FrameType::Management,
            frame_subtype: FrameSubType::Beacon,
            flags: 0x00,
        }
    );
}

#[test]
fn beacon_frame_control_is_written() {
    let control = FrameControl {
        protocol_version: 0,
        frame_type: FrameType::Management,
        frame_subtype: FrameSubType::Beacon,
        flags: 0x00,
    };
    assert_eq!(written(&control), Ok([0x80, 0x00]));
}

#[test]
fn bit_layout_of_the_first_octet() {
    // subtype 0b1011 (RTS), type 0b01 (control), version 0b10
    let (rest, control) = parse_frame_control(&[0b1011_0110, 0xa5, 0x01]).unwrap();
    assert_eq!(rest, [0x01]);
    assert_eq!(control.protocol_version, 2);
    assert_eq!(control.frame_type, FrameType::Control);
    assert_eq!(control.frame_subtype, FrameSubType::Rts);
    assert_eq!(control.flags, 0xa5);
    assert_eq!(written(&control), Ok([0b1011_0110, 0xa5]));
}

#[test]
fn same_nibble_means_another_subtype_in_each_type() {
    let subtype = |first: u8| parse_frame_control(&[first, 0]).unwrap().1.frame_subtype;
    assert_eq!(subtype(0x80), FrameSubType::Beacon);
    assert_eq!(subtype(0x84), FrameSubType::BlockAckRequest);
    assert_eq!(subtype(0x88), FrameSubType::QosData);
    assert_eq!(subtype(0x8c), FrameSubType::Unhandled);
}

#[test]
fn every_first_octet_reads_and_writes_back_or_is_refused() {
    for first in 0..=255_u8 {
        for flags in [0x00_u8, 0x5a, 0xff] {
            let (_, control) = parse_frame_control(&[first, flags]).unwrap();
            assert!(control.protocol_version < 4);
            assert_eq!(control.flags, flags);
            let expected = if control.frame_type == FrameType::Unknown {
                Err(GenError::CustomError(SerializationError::FCtrlUnknownType))
            } else if control.frame_subtype == FrameSubType::Reserved {
                Err(GenError::CustomError(
                    SerializationError::FCtrlReservedSubtype,
                ))
            } else {
                Ok([first, flags])
            };
            assert_eq!(written(&control), expected);
        }
    }
}

#[test]
fn reserved_nibbles() {
    let subtype = |first: u8| parse_frame_control(&[first, 0]).unwrap().1.frame_subtype;
    // management 7 and 15, control 0 and 1, data 13
    assert_eq!(subtype(0x70), FrameSubType::Reserved);
    assert_eq!(subtype(0xf0), FrameSubType::Reserved);
    assert_eq!(subtype(0x04), FrameSubType::Reserved);
    assert_eq!(subtype(0x14), FrameSubType::Reserved);
    assert_eq!(subtype(0xd8), FrameSubType::Reserved);
    assert_eq!(subtype(0xe0), FrameSubType::ActionNoAck);
    assert_eq!(subtype(0x24), FrameSubType::Trigger);
    assert_eq!(subtype(0xe8), FrameSubType::QosCfPoll);
}

#[test]
fn each_illegal_subtype_has_its_own_error() {
    let control = |frame_type, frame_subtype| FrameControl {
        protocol_version: 0,
        frame_type,
        frame_subtype,
        flags: 0,
    };
    assert_eq!(
        written(&control(FrameType::Management, FrameSubType::Reserved)),
        Err(GenError::CustomError(
            SerializationError::FCtrlReservedSubtype
        ))
    );
    assert_eq!(
        written(&control(FrameType::Control, FrameSubType::Unhandled)),
        Err(GenError::CustomError(
            SerializationError::FCtrlUnhandledSubtype
        ))
    );
    assert_eq!(
        written(&control(FrameType::Data, FrameSubType::Beacon)),
        Err(GenError::CustomError(
            SerializationError::FCtrlInvalidSubtype
        ))
    );
    assert_eq!(
        written(&control(FrameType::Management, FrameSubType::Ack)),
        Err(GenError::CustomError(
            SerializationError::FCtrlInvalidSubtype
        ))
    );
    assert_eq!(
        written(&control(FrameType::Unknown, FrameSubType::Beacon)),
        Err(GenError::CustomError(SerializationError::FCtrlUnknownType))
    );
    assert_eq!(
        written(&control(FrameType::Unknown, FrameSubType::Unhandled)),
        Err(GenError::CustomError(SerializationError::FCtrlUnknownType))
    );
}

#[test]
fn only_two_bits_of_the_version_are_written() {
    let control = FrameControl {
        protocol_version: 0xfd,
        frame_type: FrameType::Data,
        frame_subtype: FrameSubType::NullData,
        flags: 0x11,
    };
    assert_eq!(written(&control), Ok([0x49, 0x11]));
}

#[test]
fn subtype_tables() {
    assert_eq!(gen_frame_type(FrameType::Management), 0);
    assert_eq!(gen_frame_type(FrameType::Control), 1);
    assert_eq!(gen_frame_type(FrameType::Data), 2);
    assert_eq!(gen_frame_type(FrameType::Unknown), 3);
    assert_eq!(gen_mgmt_subtype(FrameSubType::AssociationRequest), Ok(0));
    assert_eq!(gen_mgmt_subtype(FrameSubType::Beacon), Ok(8));
    assert_eq!(gen_mgmt_subtype(FrameSubType::ActionNoAck), Ok(14));
    assert_eq!(
        gen_mgmt_subtype(FrameSubType::Cts),
        Err(SerializationError::FCtrlInvalidSubtype)
    );
    assert_eq!(gen_ctrl_subtype(FrameSubType::Trigger), Ok(2));
    assert_eq!(gen_ctrl_subtype(FrameSubType::Rts), Ok(11));
    assert_eq!(gen_ctrl_subtype(FrameSubType::CfEndCfAck), Ok(15));
    assert_eq!(
        gen_ctrl_subtype(FrameSubType::Reserved),
        Err(SerializationError::FCtrlReservedSubtype)
    );
    assert_eq!(gen_data_subtype(FrameSubType::Data), Ok(0));
    assert_eq!(gen_data_subtype(FrameSubType::QosNull), Ok(12));
    assert_eq!(gen_data_subtype(FrameSubType::QosCfAckCfPoll), Ok(15));
    assert_eq!(
        gen_data_subtype(FrameSubType::Unhandled),
        Err(SerializationError::FCtrlUnhandledSubtype)
    );
}

#[test]
fn frame_control_needs_two_octets_of_room() {
    let control = FrameControl {
        protocol_version: 0,
        frame_type: FrameType::Management,
        frame_subtype: FrameSubType::Beacon,
        flags: 0x00,
    };
    let mut buffer = [0x33_u8; 4];
    assert_eq!(
        gen_frame_control((&mut buffer[..], 3), &control).err(),
        Some(GenError::BufferTooSmall(4))
    );
    assert_eq!(
        gen_frame_control((&mut buffer[..], 9), &control).err(),
        Some(GenError::BufferTooSmall(10))
    );
    assert_eq!(
        gen_frame_control((&mut buffer[..], usize::MAX), &control).err(),
        Some(GenError::BufferTooSmall(usize::MAX))
    );
    assert_eq!(buffer, [0x33; 4]);
    let end = gen_frame_control((&mut buffer[..], 2), &control).unwrap().1;
    assert_eq!(end, 4);
    assert_eq!(buffer, [0x33, 0x33, 0x80, 0x00]);
}

#[test]
fn short_frame_control_is_incomplete() {
    assert_eq!(
        parse_frame_control(&[0x80]),
        Err(ParseError::Incomplete(Needed::Size(1)))
    );
    assert_eq!(
        parse_frame_control(&[]),
        Err(ParseError::Incomplete(Needed::Size(2)))
    );
    assert_eq!(
        Error::from(ParseError::Incomplete(Needed::Size(2))),
        Error::Incomplete("At least 2 bytes are missing".to_string())
    );
}

#[test]
fn direction_flags() {
    let control = |flags| parse_frame_control(&[0x08, flags]).unwrap().1;
    assert!(!control(0x00).to_ds() && !control(0x00).from_ds());
    assert!(control(0x01).to_ds() && !control(0x01).from_ds());
    assert!(!control(0x02).to_ds() && control(0x02).from_ds());
    assert!(control(0xff).to_ds() && control(0xff).from_ds());
    assert!(!control(0xfc).to_ds() && !control(0xfc).from_ds());
}

#[test]
fn qos_subtypes() {
    let qos = [
        FrameSubType::QosData,
        FrameSubType::QosDataCfAck,
        FrameSubType::QosDataCfPoll,
        FrameSubType::QosDataCfAckCfPoll,
        FrameSubType::QosNull,
        FrameSubType::QosCfPoll,
        FrameSubType::QosCfAckCfPoll,
    ];
    for subtype in qos {
        assert!(subtype.is_qos());
    }
    assert!(!FrameSubType::Data.is_qos());
    assert!(!FrameSubType::NullData.is_qos());
    assert!(!FrameSubType::Beacon.is_qos());
    assert!(!FrameSubType::Reserved.is_qos());
}
