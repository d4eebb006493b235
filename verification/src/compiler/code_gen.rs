pub mod code_gen;
