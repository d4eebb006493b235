pub mod port;
pub mod hardware_info;
