use vstd::prelude::*;

verus! {

/// What the machine offers: how many ports, how far a jump may go, and the
/// ports where its command memory and cell memory sit by default.
#[derive(Clone, Copy, Debug, PartialEq, Eq, Structural)]
pub struct HardwareInfo {
    pub max_port_amount: usize,
    pub max_jump_size: usize,
    pub default_com_port: usize,
    pub default_cem_port: usize,
}

impl HardwareInfo {
    /// A machine with the memories on their usual ports (1 and 2).
    pub fn new(max_port_amount: usize, max_jump_size: usize) -> (r: Self)
        ensures
            r.max_port_amount == max_port_amount,
            r.max_jump_size == max_jump_size,
            r.default_com_port == 1,
            r.default_cem_port == 2,
    {
        Self { max_port_amount, max_jump_size, default_com_port: 1, default_cem_port: 2 }
    }
}

}
