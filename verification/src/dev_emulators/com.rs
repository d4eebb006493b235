pub mod com_inner;
pub mod com_interpreter;
pub mod com;
