pub mod valid_cmd;
pub mod code_gen;
pub mod dif_part_helper;
pub mod mnc_checker;
pub mod compiler_pos;
pub mod compiler_error;
pub mod compiler_warning;
pub mod compiler_inter_info;
pub mod compiler_option;
pub mod mem_init;
pub mod compiler_info;
pub mod compiler;
pub mod comand_compiler;
pub mod cmd_compiler;
