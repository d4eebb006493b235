use vstd::prelude::*;
use crate::compiler::compiler_error::CompilerErrorType;

verus! {

/// A command compiler that needs the port names once all code is read.
pub trait PortNameHandler {
    fn need_port_name_handle(&self) -> bool;

    /// Take the port names (name, port number); `Some` error when it cannot.
    fn port_name_handle(&mut self, port_names: &Vec<(String, usize)>) -> Option<CompilerErrorType>;
}

}
