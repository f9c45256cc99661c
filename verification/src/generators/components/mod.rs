pub mod frame_control;
pub mod header;
pub mod sequence_control;
pub mod station_info;
