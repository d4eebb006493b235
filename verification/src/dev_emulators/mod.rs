pub mod dev;
pub mod dev_utilities;
pub mod cem;
pub mod com;
pub mod std_dev;
pub mod dev_name;
pub mod dev_constructor;
pub mod console;
pub mod win;
