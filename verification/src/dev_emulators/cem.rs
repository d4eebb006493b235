pub mod cem_inner;
pub mod std_cem;
