pub mod mem_dev;
pub mod names;
pub mod win_dev;
