pub mod general;
pub mod compiler;
pub mod dev_emulators;
pub mod vm;
pub mod disasm;
pub mod emulators;
pub mod logistics;
