pub mod frame_control;
pub mod header;
pub mod mac_address;
pub mod sequence_control;
pub mod station_info;
