pub use crate::compiler::comand_compiler::cmd_compiler::CmdCompiler;
pub use crate::compiler::comand_compiler::interpreter_cc::InterpreterCmdCompiler;
