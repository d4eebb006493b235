use vstd::prelude::*;
use crate::compiler::compiler::{compile, compile_post, FileSource};
use crate::compiler::compiler_error::CompilerError;
use crate::compiler::compiler_option::{CanCompile, CompilerOption, MemInitType};
use crate::compiler::compiler_info::{CompilerInfo, key_get};
use crate::compiler::dif_part_helper::setting_action::SettingActions;
use crate::compiler::mnc_checker::mnc_checker::MacroNameCodeChecker;
use crate::compiler::mnc_checker::mncc_holder::HolderChekerMNC;
use crate::compiler::comand_compiler::std_cc::{StdCmdCompiler, std_cc_can_init};
use crate::vm::hardware_info::HardwareInfo;
use crate::vm::port::Port;

verus! {

/// Compile the file at `path` with the standard command compiler for a
/// machine with `hardware_info` (one where that compiler can be made: see
/// `std_cc_can_init`), the standard setting rules and the macro-name rules
/// of `checker`.
pub fn std_compile<M: MacroNameCodeChecker, F: FileSource>(
    path: &str,
    mem_init_type: MemInitType,
    checker: HolderChekerMNC<M>,
    hardware_info: &HardwareInfo,
    files: &mut F,
) -> (r: Result<CompilerInfo<u8>, CompilerError>)
    requires
        std_cc_can_init(hardware_info.max_port_amount, hardware_info.max_jump_size),
    ensures
        compile_post(path@, CanCompile::All, None, r),
{
    let mut set_act = SettingActions::new();
    SettingActions::add_std_actions(&mut set_act);
    let option = CompilerOption::new(
        mem_init_type,
        StdCmdCompiler::new(hardware_info),
        &set_act,
        Vec::new(),
        &checker,
    );
    let mut p = String::new();
    crate::general::text::string_push_str(&mut p, path);
    compile(p, option, None, files)
}

/// What a compiled program needs to run: the program, the port names
/// (name, port) and the devices by port.
pub struct LogisticRun<T> {
    program: Vec<T>,
    port_names: Vec<(String, usize)>,
    devs: Vec<(Port, String)>,
}

impl<T> LogisticRun<T> {
    pub closed spec fn spec_program(&self) -> Seq<T> { self.program@ }
    pub closed spec fn spec_port_names(&self) -> Seq<(String, usize)> { self.port_names@ }
    pub closed spec fn spec_devs(&self) -> Seq<(Port, String)> { self.devs@ }

    pub fn new(cinfo: CompilerInfo<T>) -> (r: Self)
        ensures
            r.spec_program() == cinfo.spec_program(),
            r.spec_port_names() == cinfo.spec_port_names(),
            r.spec_devs() == cinfo.spec_devs(),
    {
        let (port_names, devs, program) = cinfo.decompile();
        Self { port_names, devs, program }
    }

    pub fn get_devs(&self) -> (r: &Vec<(Port, String)>)
        ensures r@ == self.spec_devs(),
    {
        &self.devs
    }

    /// The port of a port name, if it has one.
    pub fn get_port(&self, port_name: &str) -> (r: Option<usize>)
        ensures
            r == key_get(self.spec_port_names(), port_name@),
    {
        crate::compiler::compiler_info::key_get_exec(&self.port_names, port_name)
    }
}

}
