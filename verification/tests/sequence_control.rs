use libwifi::error::{Needed, ParseError};
use libwifi::frame::components::SequenceControl;
use libwifi::generators::{gen_sequence_ctrl, GenError};
use libwifi::parsers::parse_sequence_control;

fn written(sequence_control: &SequenceControl) -> [u8; 2] {
    let mut buffer = [0_u8; 2];
    let end = gen_sequence_ctrl((&mut buffer[..], 0), sequence_control)
        .unwrap()
        .1;
    assert_eq!(end, 2);
    buffer
}

#[test]
fn create_fresh_starts_without_fragments() {
    let fresh = SequenceControl::create_fresh(3509);
    assert_eq!(fresh.fragment_number, 0);
    assert_eq!(fresh.sequence_number, 3509);
    assert_eq!(SequenceControl::create_fresh(0).sequence_number, 0);
    assert_eq!(SequenceControl::create_fresh(4095).sequence_number, 4095);
}

#[test]
fn create_fresh_keeps_twelve_bits() {
    assert_eq!(SequenceControl::create_fresh(4096).sequence_number, 0);
    assert_eq!(SequenceControl::create_fresh(0xF234).sequence_number, 0x234);
    assert_eq!(SequenceControl::create_fresh(0xFFFF).sequence_number, 0xFFF);
}

#[test]
fn masked_values_are_written_and_read_back() {
    let sequence_control = SequenceControl {
        fragment_number: 0xF1 & 0xF,
        sequence_number: 0xF234 & 0xFFF,
    };
    let octets = written(&sequence_control);
    // low nibble of the sequence number and the fragment number, then the high eight bits
    assert_eq!(octets, [0x41, 0x23]);
    let (rest, read) = parse_sequence_control(&octets).unwrap();
    assert!(rest.is_empty());
    assert_eq!(read, sequence_control);
    assert_eq!(read.fragment_number, 1);
    assert_eq!(read.sequence_number, 0x234);
}

#[test]
fn octets_of_the_captured_beacon() {
    let sequence_control = SequenceControl {
        fragment_number: 0,
        sequence_number: 3509,
    };
    assert_eq!(written(&sequence_control), [0x50, 0xdb]);
}

#[test]
fn every_number_in_range_is_read_back() {
    for fragment_number in 0..16_u8 {
        for sequence_number in 0..4096_u16 {
            let sequence_control = SequenceControl {
                fragment_number,
                sequence_number,
            };
            let octets = written(&sequence_control);
            assert_eq!(
                parse_sequence_control(&octets).unwrap().1,
                sequence_control
            );
        }
    }
}

#[test]
fn every_pair_of_octets_is_in_range_and_written_back() {
    for first in 0..=255_u8 {
        for second in 0..=255_u8 {
            let (_, read) = parse_sequence_control(&[first, second]).unwrap();
            assert!(read.fragment_number <= 15);
            assert!(read.sequence_number <= 4095);
            assert_eq!(written(&read), [first, second]);
        }
    }
}

#[test]
fn numbers_out_of_range_lose_their_high_bits() {
    let sequence_control = SequenceControl {
        fragment_number: 0xF1,
        sequence_number: 0xF234,
    };
    assert_eq!(written(&sequence_control), [0x41, 0x23]);
}

#[test]
fn sequence_control_needs_two_octets() {
    assert_eq!(
        parse_sequence_control(&[0x41]),
        Err(ParseError::Incomplete(Needed::Size(1)))
    );
    let sequence_control = SequenceControl::create_fresh(1);
    let mut buffer = [0_u8; 3];
    assert_eq!(
        gen_sequence_ctrl((&mut buffer[..], 2), &sequence_control).err(),
        Some(GenError::BufferTooSmall(3))
    );
    assert_eq!(buffer, [0; 3]);
    assert_eq!(
        gen_sequence_ctrl((&mut buffer[..], 1), &sequence_control)
            .unwrap()
            .1,
        3
    );
    assert_eq!(buffer, [0x00, 0x10, 0x00]);
}
