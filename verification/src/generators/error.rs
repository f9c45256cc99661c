use vstd::prelude::*;

verus! {

/// The reasons for which a frame cannot be written although the buffer is
/// large enough.
#[derive(Clone, Copy, Debug, PartialEq, Eq, Structural)]
pub enum SerializationError {
    /// An information element holds more than 255 octets.
    MgmtElementTooLong,
    /// The frame type is the one set aside for protocol extensions.
    FCtrlUnknownType,
    /// The frame subtype belongs to another frame type.
    FCtrlInvalidSubtype,
    /// The frame subtype is `Reserved`.
    FCtrlReservedSubtype,
    /// The frame subtype is `Unhandled`.
    FCtrlUnhandledSubtype,
}

impl SerializationError {
    /// The text of [`SerializationError::explain`].
    pub open spec fn explanation(self) -> Seq<char> {
        match self {
            SerializationError::MgmtElementTooLong => {
                "Management frame info element is too long! Limit is 255 bytes!"@
            },
            SerializationError::FCtrlUnknownType => "Serialization of frame type 4 unsupported!"@,
            SerializationError::FCtrlInvalidSubtype => {
                "Invalid frame control subtype for frame type!"@
            },
            SerializationError::FCtrlReservedSubtype => "Can't serialize reserved frame subtype!"@,
            SerializationError::FCtrlUnhandledSubtype => {
                "Can't serialize unhandled frame subtype!"@
            },
        }
    }

    /// The number that stands for this error where only a number can be
    /// carried.
    pub open spec fn spec_code(self) -> u32 {
        match self {
            SerializationError::MgmtElementTooLong => 0,
            SerializationError::FCtrlUnknownType => 1,
            SerializationError::FCtrlInvalidSubtype => 2,
            SerializationError::FCtrlReservedSubtype => 3,
            SerializationError::FCtrlUnhandledSubtype => 4,
        }
    }

    /// A sentence for the user.
    pub fn explain(self) -> (text: &'static str)
        ensures
            text@ == self.explanation(),
    {
        match self {
            Self::MgmtElementTooLong => {
                "Management frame info element is too long! Limit is 255 bytes!"
            },
            Self::FCtrlUnknownType => "Serialization of frame type 4 unsupported!",
            Self::FCtrlInvalidSubtype => "Invalid frame control subtype for frame type!",
            Self::FCtrlReservedSubtype => "Can't serialize reserved frame subtype!",
            Self::FCtrlUnhandledSubtype => "Can't serialize unhandled frame subtype!",
        }
    }

    /// The number that stands for this error.
    #[verifier::when_used_as_spec(spec_code)]
    pub fn code(self) -> (code: u32)
        ensures
            code == self.spec_code(),
    {
        match self {
            Self::MgmtElementTooLong => 0,
            Self::FCtrlUnknownType => 1,
            Self::FCtrlInvalidSubtype => 2,
            Self::FCtrlReservedSubtype => 3,
            Self::FCtrlUnhandledSubtype => 4,
        }
    }

    /// The error that a number stands for, if it stands for one.
    pub fn from_code(code: u32) -> (error: Option<SerializationError>)
        ensures
            match error {
                Some(e) => e.spec_code() == code,
                None => forall|e: SerializationError| e.spec_code() != code,
            },
    {
        match code {
            0 => Some(Self::MgmtElementTooLong),
            1 => Some(Self::FCtrlUnknownType),
            2 => Some(Self::FCtrlInvalidSubtype),
            3 => Some(Self::FCtrlReservedSubtype),
            4 => Some(Self::FCtrlUnhandledSubtype),
            _ => None,
        }
    }
}

/// What a generator reports when it has written nothing.
#[derive(Clone, Copy, Debug, PartialEq, Eq, Structural)]
pub enum GenError {
    /// The buffer ends too early. The number is the largest index that the
    /// generator needs; one more is the smallest length that would do.
    BufferTooSmall(usize),
    /// The generator was asked to write at an index that cannot exist.
    InvalidOffset,
    /// The value itself cannot be written.
    CustomError(SerializationError),
    /// No generator exists for the value.
    NotYetImplemented,
}

impl From<SerializationError> for GenError {
    fn from(err: SerializationError) -> (error: GenError)
        ensures
            error == GenError::CustomError(err),
    {
        GenError::CustomError(err)
    }
}

impl vstd::std_specs::convert::FromSpecImpl<SerializationError> for GenError {
    open spec fn obeys_from_spec() -> bool {
        true
    }

    open spec fn from_spec(err: SerializationError) -> GenError {
        GenError::CustomError(err)
    }
}

} // verus!
