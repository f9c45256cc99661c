use vstd::prelude::*;

verus! {

/// The two octets that number a frame and its fragments.
///
/// ```text
/// octet 0:  bits 0-3 fragment number, bits 4-7 low four bits of the sequence number
/// octet 1:  high eight bits of the sequence number
/// ```
#[derive(Clone, Copy, Debug, PartialEq, Eq, Structural)]
pub struct SequenceControl {
    /// The 4 bit fragment number: 0 to 15.
    pub fragment_number: u8,
    /// The 12 bit sequence number: 0 to 4095.
    pub sequence_number: u16,
}

impl SequenceControl {
    /// Both numbers fit their bits.
    pub open spec fn well_formed(self) -> bool {
        self.fragment_number < 16 && self.sequence_number < 4096
    }

    /// The two octets of a sequence control. Of a number that does not fit
    /// its bits the high part is left out.
    pub open spec fn wire(self) -> Seq<u8> {
        seq![
            ((self.sequence_number % 16) * 16 + self.fragment_number % 16) as u8,
            ((self.sequence_number / 16) % 256) as u8,
        ]
    }

    /// The sequence control that two octets stand for.
    pub open spec fn from_wire(first: u8, second: u8) -> SequenceControl {
        SequenceControl {
            fragment_number: first % 16,
            sequence_number: (first / 16 + second * 16) as u16,
        }
    }

    /// The sequence control of a frame that is not a fragment. Of
    /// `seq_count` the low twelve bits count.
    pub fn create_fresh(seq_count: u16) -> (fresh: Self)
        ensures
            fresh.fragment_number == 0,
            fresh.sequence_number == seq_count % 4096,
            fresh.well_formed(),
    {
        let sequence_number = seq_count & 0x0FFF;
        assert(sequence_number == seq_count % 4096) by (bit_vector)
            requires
                sequence_number == seq_count & 0x0FFF,
        ;
        SequenceControl { fragment_number: 0, sequence_number }
    }
}

/// Writing a sequence control and reading the two octets gives it back
/// exactly if its numbers fit their bits.
pub proof fn lemma_sequence_control_round_trip(sequence_control: SequenceControl)
    ensures
        sequence_control.wire().len() == 2,
        sequence_control.well_formed() <==> SequenceControl::from_wire(
            sequence_control.wire()[0],
            sequence_control.wire()[1],
        ) == sequence_control,
{
}

/// Whatever two octets hold, the numbers read from them fit their bits, and
/// writing them gives the two octets back.
pub proof fn lemma_sequence_control_read_back(first: u8, second: u8)
    ensures
        SequenceControl::from_wire(first, second).well_formed(),
        SequenceControl::from_wire(first, second).wire() == seq![first, second],
{
    assert(SequenceControl::from_wire(first, second).wire() =~= seq![first, second]);
}

} // verus!
