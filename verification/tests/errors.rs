use libwifi::bytes::{read_le, write_bytes, write_le};
use libwifi::error::{Error, Needed, ParseError};
use libwifi::generators::{check_room, GenError, SerializationError};
use libwifi::parsers::{le_u16, le_u64, take};
use libwifi::text::push_decimal;

#[test]
fn incomplete_with_a_size() {
    assert_eq!(
        Error::from(ParseError::Incomplete(Needed::Size(7))),
        Error::Incomplete("At least 7 bytes are missing".to_string())
    );
    assert_eq!(
        Error::from(ParseError::Incomplete(Needed::Size(1234567))),
        Error::Incomplete("At least 1234567 bytes are missing".to_string())
    );
}

#[test]
fn incomplete_without_a_size() {
    assert_eq!(
        Error::from(ParseError::Incomplete(Needed::Unknown)),
        Error::Incomplete(String::new())
    );
}

#[test]
fn parse_errors_and_failures() {
    assert_eq!(
        Error::from(ParseError::Error("Tag".to_string(), vec![1, 2])),
        Error::ParseFailure(
            "An error occured while parsing the data: nom::ErrorKind is Tag".to_string(),
            vec![1, 2]
        )
    );
    assert_eq!(
        Error::from(ParseError::Failure("Verify".to_string(), vec![])),
        Error::ParseFailure(
            "An error occured while parsing the data: nom::ErrorKind is Verify".to_string(),
            vec![]
        )
    );
}

#[test]
fn buffer_too_small_names_the_least_length() {
    assert_eq!(
        Error::from(GenError::BufferTooSmall(0)),
        Error::SerializeFailure("Provided buffer is too small! Minimum size is 1!".to_string())
    );
    assert_eq!(
        Error::from(GenError::BufferTooSmall(2303)),
        Error::SerializeFailure(
            "Provided buffer is too small! Minimum size is 2304!".to_string()
        )
    );
    assert_eq!(
        Error::from(GenError::BufferTooSmall(usize::MAX)),
        Error::SerializeFailure(format!(
            "Provided buffer is too small! Minimum size is {}!",
            usize::MAX as u128 + 1
        ))
    );
}

#[test]
fn other_generator_errors() {
    assert_eq!(
        Error::from(GenError::InvalidOffset),
        Error::SerializeFailure("Generator asked for inavlid index!".to_string())
    );
    assert_eq!(
        Error::from(GenError::NotYetImplemented),
        Error::SerializeFailure("Generator not yet implemented!".to_string())
    );
    assert_eq!(
        Error::from(GenError::CustomError(
            SerializationError::FCtrlReservedSubtype
        )),
        Error::SerializeFailure("Can't serialize reserved frame subtype!".to_string())
    );
}

#[test]
fn explanations() {
    assert_eq!(
        SerializationError::MgmtElementTooLong.explain(),
        "Management frame info element is too long! Limit is 255 bytes!"
    );
    assert_eq!(
        SerializationError::FCtrlUnknownType.explain(),
        "Serialization of frame type 4 unsupported!"
    );
    assert_eq!(
        SerializationError::FCtrlInvalidSubtype.explain(),
        "Invalid frame control subtype for frame type!"
    );
    assert_eq!(
        SerializationError::FCtrlReservedSubtype.explain(),
        "Can't serialize reserved frame subtype!"
    );
    assert_eq!(
        SerializationError::FCtrlUnhandledSubtype.explain(),
        "Can't serialize unhandled frame subtype!"
    );
}

#[test]
fn codes() {
    let all = [
        SerializationError::MgmtElementTooLong,
        SerializationError::FCtrlUnknownType,
        SerializationError::FCtrlInvalidSubtype,
        SerializationError::FCtrlReservedSubtype,
        SerializationError::FCtrlUnhandledSubtype,
    ];
    for (code, error) in all.iter().enumerate() {
        assert_eq!(error.code(), code as u32);
        assert_eq!(SerializationError::from_code(code as u32), Some(*error));
    }
    assert_eq!(SerializationError::from_code(5), None);
    assert_eq!(SerializationError::from_code(u32::MAX), None);
    assert_eq!(
        GenError::from(SerializationError::MgmtElementTooLong),
        GenError::CustomError(SerializationError::MgmtElementTooLong)
    );
}

#[test]
fn decimal_numbers() {
    for n in [
        0_u128,
        7,
        9,
        10,
        11,
        99,
        100,
        101,
        12345,
        1_000_000,
        u64::MAX as u128,
        u128::MAX,
    ] {
        let mut text = String::from("n=");
        push_decimal(&mut text, n);
        assert_eq!(text, format!("n={}", n));
    }
}

#[test]
fn little_endian_numbers() {
    let mut buffer = [0xee_u8; 12];
    write_le(&mut buffer, 2, 0x0102_0304_0506_0708, 8);
    assert_eq!(
        buffer,
        [0xee, 0xee, 8, 7, 6, 5, 4, 3, 2, 1, 0xee, 0xee]
    );
    assert_eq!(read_le(&buffer[2..], 8), 0x0102_0304_0506_0708);
    assert_eq!(read_le(&buffer[2..], 2), 0x0708);
    assert_eq!(read_le(&buffer[2..], 0), 0);
    write_le(&mut buffer, 0, 0x1431, 2);
    assert_eq!(buffer[..3], [0x31, 0x14, 8]);
    // A value that does not fit the width loses its high part.
    write_le(&mut buffer, 10, 0x0102_0304, 2);
    assert_eq!(buffer[10..], [4, 3]);
    write_le(&mut buffer, 5, 0xffff, 0);
    assert_eq!(buffer[5], 5);
    assert_eq!(
        le_u64(&[0x88, 0x71, 0xd8, 0xdf, 0x04, 0, 0, 0, 0x64]),
        Ok((&[0x64_u8][..], 20935373192))
    );
    assert_eq!(le_u16(&[0x64, 0x00, 0x31]), Ok((&[0x31_u8][..], 100)));
    assert_eq!(
        le_u16(&[0x64]),
        Err(ParseError::Incomplete(Needed::Size(1)))
    );
    assert_eq!(
        le_u64(&[1, 2, 3]),
        Err(ParseError::Incomplete(Needed::Size(5)))
    );
}

#[test]
fn octets_are_copied() {
    let mut buffer = [0_u8; 6];
    write_bytes(&mut buffer, 1, &[1, 2, 3]);
    assert_eq!(buffer, [0, 1, 2, 3, 0, 0]);
    write_bytes(&mut buffer, 6, &[]);
    assert_eq!(buffer, [0, 1, 2, 3, 0, 0]);
    assert_eq!(
        take(&buffer, 2),
        Ok((&[2_u8, 3, 0, 0][..], &[0_u8, 1][..]))
    );
    assert_eq!(take(&buffer, 6), Ok((&[][..], &buffer[..])));
    assert_eq!(
        take(&buffer, 9),
        Err(ParseError::Incomplete(Needed::Size(3)))
    );
}

#[test]
fn room_in_a_buffer() {
    assert_eq!(check_room(10, 4, Some(6)), Ok(10));
    assert_eq!(check_room(10, 4, Some(0)), Ok(4));
    assert_eq!(check_room(10, 4, Some(7)), Err(GenError::BufferTooSmall(10)));
    assert_eq!(check_room(0, 0, Some(1)), Err(GenError::BufferTooSmall(0)));
    assert_eq!(
        check_room(10, 11, Some(0)),
        Err(GenError::BufferTooSmall(10))
    );
    assert_eq!(
        check_room(10, usize::MAX, Some(1)),
        Err(GenError::BufferTooSmall(usize::MAX))
    );
    assert_eq!(
        check_room(10, 0, None),
        Err(GenError::BufferTooSmall(usize::MAX))
    );
}
