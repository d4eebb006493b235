use vstd::prelude::*;
use crate::general::text::string_push_str;
use crate::vm::hardware_info::HardwareInfo;

verus! {

/// Where generated files go by default.
pub fn std_gen_path() -> (r: String)
    ensures r@ == "generated/"@,
{
    let mut s = String::new();
    string_push_str(&mut s, "generated/");
    s
}

/// The path of example `ex` (1 to 3).
pub open spec fn spec_example_path(ex: usize) -> Option<Seq<char>> {
    if ex == 1 {
        Some("examples/examples/01_helwo_demv_wowld.bf-ext"@)
    } else if ex == 2 {
        Some("examples/examples/02_write_const_str_in_win.bf-ext"@)
    } else if ex == 3 {
        Some("examples/examples/03_win_print_alphabet.bf-ext"@)
    } else {
        None
    }
}

pub fn example_path(ex: usize) -> (r: Option<String>)
    ensures
        match spec_example_path(ex) {
            Some(p) => r matches Some(s) && s@ == p,
            None => r is None,
        },
{
    let mut s = String::new();
    if ex == 1 {
        string_push_str(&mut s, "examples/examples/01_helwo_demv_wowld.bf-ext");
    } else if ex == 2 {
        string_push_str(&mut s, "examples/examples/02_write_const_str_in_win.bf-ext");
    } else if ex == 3 {
        string_push_str(&mut s, "examples/examples/03_win_print_alphabet.bf-ext");
    } else {
        return None;
    }
    Some(s)
}

/// What to do: the source (a file, or an example by number), whether to
/// write a disassembly and a binary and where, and the machine.
pub struct LogisticParams {
    pub file: Option<String>,
    pub example: Option<usize>,
    pub need_disasm: bool,
    pub need_bin: bool,
    pub path_disasm: String,
    pub path_bin: String,
    pub hardware_port_amount: usize,
    pub hardware_max_jump_size: usize,
    pub hardware_com_port: usize,
    pub hardware_cem_port: usize,
}

impl LogisticParams {
    /// No source, nothing to write, the default machine: 64 ports, jumps
    /// up to 2^20, command memory on port 1, cell memory on port 2.
    fn new() -> (r: Self)
        ensures
            r.file is None,
            r.example is None,
            !r.need_disasm,
            !r.need_bin,
            r.path_disasm@ == "generated/"@,
            r.path_bin@ == "generated/"@,
            r.hardware_port_amount == 64,
            r.hardware_max_jump_size == 0x10_0000,
            r.hardware_com_port == 1,
            r.hardware_cem_port == 2,
    {
        Self {
            file: None,
            example: None,
            need_disasm: false,
            need_bin: false,
            path_disasm: std_gen_path(),
            path_bin: std_gen_path(),
            hardware_com_port: 1,
            hardware_cem_port: 2,
            hardware_max_jump_size: 0x10_0000,
            hardware_port_amount: 64,
        }
    }

    /// The defaults, with the source file `file_path`.
    pub fn new_empty(file_path: &str) -> (r: Self)
        ensures
            r.file matches Some(f) && f@ == file_path@,
            r.example is None,
            !r.need_disasm,
            !r.need_bin,
            r.path_disasm@ == "generated/"@,
            r.path_bin@ == "generated/"@,
            r.hardware_port_amount == 64,
            r.hardware_max_jump_size == 0x10_0000,
            r.hardware_com_port == 1,
            r.hardware_cem_port == 2,
    {
        let mut x = Self::new();
        let mut f = String::new();
        string_push_str(&mut f, file_path);
        x.file = Some(f);
        x
    }

    /// The defaults, with example `ex_num` as the source.
    pub fn new_empty_example(ex_num: usize) -> (r: Self)
        ensures
            r.file is None,
            r.example == Some(ex_num),
            !r.need_disasm,
            !r.need_bin,
            r.path_disasm@ == "generated/"@,
            r.path_bin@ == "generated/"@,
            r.hardware_port_amount == 64,
            r.hardware_max_jump_size == 0x10_0000,
            r.hardware_com_port == 1,
            r.hardware_cem_port == 2,
    {
        let mut x = Self::new();
        x.example = Some(ex_num);
        x
    }

    /// Turn an example into its file; a file stays. An example that does
    /// not exist is an error with its number. There must be a source.
    pub fn example_to_file(&mut self) -> (r: Result<(), usize>)
        requires
            old(self).file is Some || old(self).example is Some,
        ensures
            old(self).file is Some ==> r is Ok && *final(self) == *old(self),
            old(self).file is None ==> match spec_example_path(old(self).example->0) {
                Some(p) => r is Ok && (final(self).file matches Some(f) && f@ == p) && final(self).example is None,
                None => r == Err::<(), usize>(old(self).example->0) && *final(self) == *old(self),
            },
            final(self).need_disasm == old(self).need_disasm,
            final(self).need_bin == old(self).need_bin,
            final(self).path_disasm == old(self).path_disasm,
            final(self).path_bin == old(self).path_bin,
            final(self).hardware_port_amount == old(self).hardware_port_amount,
            final(self).hardware_max_jump_size == old(self).hardware_max_jump_size,
            final(self).hardware_com_port == old(self).hardware_com_port,
            final(self).hardware_cem_port == old(self).hardware_cem_port,
    {
        if self.file.is_some() { return Ok(()) }
        let ex = match self.example { Some(x) => x, None => { return Ok(()) } };
        match example_path(ex) {
            Some(p) => {
                self.file = Some(p);
                self.example = None;
                Ok(())
            }
            None => Err(ex),
        }
    }

    /// Write a disassembly (to `disasm_path`, if given).
    pub fn on_disasm(&mut self, disasm_path: Option<&str>)
        ensures
            final(self).need_disasm,
            match disasm_path { Some(p) => final(self).path_disasm@ == p@, None => final(self).path_disasm == old(self).path_disasm },
            final(self).file == old(self).file,
            final(self).example == old(self).example,
            final(self).need_bin == old(self).need_bin,
            final(self).path_bin == old(self).path_bin,
            final(self).hardware_port_amount == old(self).hardware_port_amount,
            final(self).hardware_max_jump_size == old(self).hardware_max_jump_size,
            final(self).hardware_com_port == old(self).hardware_com_port,
            final(self).hardware_cem_port == old(self).hardware_cem_port,
    {
        self.need_disasm = true;
        match disasm_path {
            Some(x) => {
                let mut s = String::new();
                string_push_str(&mut s, x);
                self.path_disasm = s;
            }
            None => {}
        }
    }

    /// Write a binary (to `bin_path`, if given).
    pub fn on_bin(&mut self, bin_path: Option<&str>)
        ensures
            final(self).need_bin,
            match bin_path { Some(p) => final(self).path_bin@ == p@, None => final(self).path_bin == old(self).path_bin },
            final(self).file == old(self).file,
            final(self).example == old(self).example,
            final(self).need_disasm == old(self).need_disasm,
            final(self).path_disasm == old(self).path_disasm,
            final(self).hardware_port_amount == old(self).hardware_port_amount,
            final(self).hardware_max_jump_size == old(self).hardware_max_jump_size,
            final(self).hardware_com_port == old(self).hardware_com_port,
            final(self).hardware_cem_port == old(self).hardware_cem_port,
    {
        self.need_bin = true;
        match bin_path {
            Some(x) => {
                let mut s = String::new();
                string_push_str(&mut s, x);
                self.path_bin = s;
            }
            None => {}
        }
    }

    pub fn off_disasm(&mut self)
        ensures
            !final(self).need_disasm,
            final(self).file == old(self).file,
            final(self).example == old(self).example,
            final(self).need_bin == old(self).need_bin,
            final(self).path_disasm == old(self).path_disasm,
            final(self).path_bin == old(self).path_bin,
            final(self).hardware_port_amount == old(self).hardware_port_amount,
            final(self).hardware_max_jump_size == old(self).hardware_max_jump_size,
            final(self).hardware_com_port == old(self).hardware_com_port,
            final(self).hardware_cem_port == old(self).hardware_cem_port,
    {
        self.need_disasm = false
    }

    pub fn off_bin(&mut self)
        ensures
            !final(self).need_bin,
            final(self).file == old(self).file,
            final(self).example == old(self).example,
            final(self).need_disasm == old(self).need_disasm,
            final(self).path_disasm == old(self).path_disasm,
            final(self).path_bin == old(self).path_bin,
            final(self).hardware_port_amount == old(self).hardware_port_amount,
            final(self).hardware_max_jump_size == old(self).hardware_max_jump_size,
            final(self).hardware_com_port == old(self).hardware_com_port,
            final(self).hardware_cem_port == old(self).hardware_cem_port,
    {
        self.need_bin = false
    }

    /// Take the machine from `hw_info`.
    pub fn change_hardware(&mut self, hw_info: &HardwareInfo)
        ensures
            final(self).hardware_port_amount == hw_info.max_port_amount,
            final(self).hardware_max_jump_size == hw_info.max_jump_size,
            final(self).hardware_com_port == hw_info.default_com_port,
            final(self).hardware_cem_port == hw_info.default_cem_port,
            final(self).file == old(self).file,
            final(self).example == old(self).example,
            final(self).need_disasm == old(self).need_disasm,
            final(self).need_bin == old(self).need_bin,
            final(self).path_disasm == old(self).path_disasm,
            final(self).path_bin == old(self).path_bin,
    {
        self.hardware_port_amount = hw_info.max_port_amount;
        self.hardware_max_jump_size = hw_info.max_jump_size;
        self.hardware_com_port = hw_info.default_com_port;
        self.hardware_cem_port = hw_info.default_cem_port;
    }

    /// The machine these parameters describe.
    pub fn hardware_info(&self) -> (r: HardwareInfo)
        ensures
            r.max_port_amount == self.hardware_port_amount,
            r.max_jump_size == self.hardware_max_jump_size,
            r.default_com_port == self.hardware_com_port,
            r.default_cem_port == self.hardware_cem_port,
    {
        HardwareInfo {
            max_port_amount: self.hardware_port_amount,
            max_jump_size: self.hardware_max_jump_size,
            default_com_port: self.hardware_com_port,
            default_cem_port: self.hardware_cem_port,
        }
    }
}

}
