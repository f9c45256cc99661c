pub mod cap_info;
pub mod frame_control;
pub mod header;
pub mod mac_address;
pub mod sequence_control;
pub mod station_info;

pub use cap_info::CapabilityInfo;
pub use frame_control::FrameControl;
pub use header::{DataHeader, ManagementHeader};
pub use mac_address::MacAddress;
pub use sequence_control::SequenceControl;
pub use station_info::{ManagementInfoId, StationInfo, SupportedRate, UnknownInfoId};
