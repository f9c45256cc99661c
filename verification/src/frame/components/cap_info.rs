use vstd::prelude::*;
use vstd::std_specs::ops::BitOrSpecImpl;

verus! {

/// The sender is an access point.
pub const ESS: u16 = 0x0001;

/// The sender belongs to an independent network, without access point.
pub const IBSS: u16 = 0x0002;

/// The sender can be polled in the contention-free period.
pub const CF_POLLABLE: u16 = 0x0004;

/// The sender asks to be polled, or not to be.
pub const CF_REQUEST_POLL: u16 = 0x0008;

/// Frames of this network are encrypted.
pub const PRIVACY: u16 = 0x0010;

/// The short preamble may be used.
pub const SHORT_PREAMBLE: u16 = 0x0020;

/// Packet binary convolutional coding may be used.
pub const PBCC: u16 = 0x0040;

/// The sender hops between channels.
pub const CHANNEL_AGILITY: u16 = 0x0080;

/// The sender manages its spectrum.
pub const SPECTRUM_MGMT: u16 = 0x0100;

/// The sender supports quality of service.
pub const QOS: u16 = 0x0200;

/// The short slot time may be used.
pub const SHORT_TIME_SLOT: u16 = 0x0400;

/// The sender delivers frames to sleeping stations on its own schedule.
pub const AUTO_PWR_SAVE: u16 = 0x0800;

/// The sender measures the radio.
pub const MEASURE_RADIO: u16 = 0x1000;

/// DSSS-OFDM may be used.
pub const DSSS_OFDM: u16 = 0x2000;

/// The sender supports delayed block acknowledgement.
pub const DELAY_BLOCK_ACK: u16 = 0x4000;

/// The sender supports immediate block acknowledgement.
pub const IMM_BLOCK_ACK: u16 = 0x8000;

/// The capability flags of a management frame: sixteen bits, each with the
/// name of one of the constants above. The two octets travel least
/// significant first.
#[derive(Clone, Copy, Debug, PartialEq, Eq, Structural)]
pub struct CapabilityInfo(pub u16);

impl CapabilityInfo {
    /// The sixteen bits.
    pub fn bits(self) -> (bits: u16)
        ensures
            bits == self.0,
    {
        self.0
    }

    /// The flags that sixteen bits stand for. Every bit has a name, so none
    /// is dropped.
    pub fn from_bits_truncate(bits: u16) -> (flags: CapabilityInfo)
        ensures
            flags == CapabilityInfo(bits),
    {
        CapabilityInfo(bits)
    }

    /// No flag.
    pub fn empty() -> (flags: CapabilityInfo)
        ensures
            flags == CapabilityInfo(0),
    {
        CapabilityInfo(0)
    }

    /// Whether every flag of `other` is set.
    pub fn contains(self, other: CapabilityInfo) -> (all: bool)
        ensures
            all == (self.0 & other.0 == other.0),
    {
        self.0 & other.0 == other.0
    }
}

impl core::ops::BitOr for CapabilityInfo {
    type Output = CapabilityInfo;

    /// The flags of both.
    fn bitor(self, rhs: CapabilityInfo) -> (both: CapabilityInfo)
        ensures
            both == CapabilityInfo(self.0 | rhs.0),
    {
        CapabilityInfo(self.0 | rhs.0)
    }
}

impl BitOrSpecImpl for CapabilityInfo {
    open spec fn obeys_bitor_spec() -> bool {
        true
    }

    open spec fn bitor_req(self, rhs: CapabilityInfo) -> bool {
        true
    }

    open spec fn bitor_spec(self, rhs: CapabilityInfo) -> CapabilityInfo {
        CapabilityInfo(self.0 | rhs.0)
    }
}

} // verus!
