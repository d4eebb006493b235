pub mod cmd_compiler;
pub mod port_name_handler;
pub mod program_concat;
pub mod interpreter_cc;
pub mod to_u8_seq;
pub mod std_cc_additional_info;
pub mod sdm_cc_main_info;
pub mod std_cc;
