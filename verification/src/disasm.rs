pub mod std_disasm;
