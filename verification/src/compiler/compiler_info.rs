use vstd::prelude::*;
use crate::vm::port::{Port, PortView};
use crate::general::text::{str_to_chars, string_of, string_push_str};
use crate::compiler::mnc_checker::cell_checker::split_on;
use super::dif_part_helper::settings::Setting;
use super::mem_init::MemInit;
use super::compiler_warning::{CompilerWarnings, CompilerWarning};
use super::compiler_option::MemInitType;
use super::compiler_pos::CompilerPos;
use super::compiler_error::IncludeError;
use super::compiler_inter_info::CompilerInterInfo;
use super::dif_part_helper::setting_action::SettingActions;
use super::dif_part_helper::setting_action_result::SettingActionResult;

verus! {

/// Index of the first entry with key `k`.
pub open spec fn key_index<V>(s: Seq<(String, V)>, k: Seq<char>) -> Option<int>
    decreases s.len(),
{
    if s.len() == 0 {
        None
    } else {
        match key_index(s.drop_last(), k) {
            Some(i) => Some(i),
            None => if s.last().0@ == k { Some(s.len() - 1) } else { None },
        }
    }
}

pub proof fn lemma_key_index<V>(s: Seq<(String, V)>, k: Seq<char>)
    ensures
        key_index(s, k) matches Some(i) ==> 0 <= i < s.len() && s[i].0@ == k
            && forall|j: int| 0 <= j < i ==> (#[trigger] s[j]).0@ != k,
        key_index(s, k) is None ==> forall|j: int| 0 <= j < s.len() ==> (#[trigger] s[j]).0@ != k,
    decreases s.len(),
{
    if s.len() > 0 {
        let p = s.drop_last();
        lemma_key_index(p, k);
        assert forall|j: int| 0 <= j < p.len() implies p[j] == s[j] by {}
    }
}

/// What a key maps to in a list of entries where the last entry counts.
pub open spec fn key_get_last<V>(s: Seq<(String, V)>, k: Seq<char>) -> Option<V>
    decreases s.len(),
{
    if s.len() == 0 {
        None
    } else if s.last().0@ == k {
        Some(s.last().1)
    } else {
        key_get_last(s.drop_last(), k)
    }
}

/// What a key maps to in a list of entries (the first entry counts).
pub open spec fn key_get<V>(s: Seq<(String, V)>, k: Seq<char>) -> Option<V> {
    match key_index(s, k) {
        Some(i) => Some(s[i].1),
        None => None,
    }
}

/// Index of the first entry for a port.
pub open spec fn port_index(s: Seq<(Port, String)>, p: PortView) -> Option<int>
    decreases s.len(),
{
    if s.len() == 0 {
        None
    } else {
        match port_index(s.drop_last(), p) {
            Some(i) => Some(i),
            None => if s.last().0.view() == p { Some(s.len() - 1) } else { None },
        }
    }
}

/// The devices as ports and names.
pub open spec fn devs_view(s: Seq<(Port, String)>) -> Seq<(PortView, Seq<char>)> {
    Seq::new(s.len(), |i: int| (s[i].0.view(), s[i].1@))
}

/// Index of the first device on port `p`.
pub open spec fn port_index_v(s: Seq<(PortView, Seq<char>)>, p: PortView) -> Option<int>
    decreases s.len(),
{
    if s.len() == 0 {
        None
    } else {
        match port_index_v(s.drop_last(), p) {
            Some(i) => Some(i),
            None => if s.last().0 == p { Some(s.len() - 1) } else { None },
        }
    }
}

/// The devices `devs` with the devices `inc` connected one by one: each
/// takes the place of the device on its port, or comes last.
pub open spec fn devs_merged(devs: Seq<(PortView, Seq<char>)>, inc: Seq<(PortView, Seq<char>)>) -> Seq<(PortView, Seq<char>)>
    decreases inc.len(),
{
    if inc.len() == 0 {
        devs
    } else {
        let acc = devs_merged(devs, inc.drop_last());
        let e = inc.last();
        match port_index_v(acc, e.0) {
            Some(i) => acc.update(i, e),
            None => acc.push(e),
        }
    }
}

proof fn lemma_port_index_view(s: Seq<(Port, String)>, p: PortView)
    ensures
        port_index(s, p) == port_index_v(devs_view(s), p),
    decreases s.len(),
{
    if s.len() > 0 {
        assert(devs_view(s.drop_last()) =~= devs_view(s).drop_last());
        lemma_port_index_view(s.drop_last(), p);
    }
}

pub proof fn lemma_port_index(s: Seq<(Port, String)>, p: PortView)
    ensures
        port_index(s, p) matches Some(i) ==> 0 <= i < s.len() && s[i].0.view() == p
            && forall|j: int| 0 <= j < i ==> (#[trigger] s[j]).0.view() != p,
        port_index(s, p) is None ==> forall|j: int| 0 <= j < s.len() ==> (#[trigger] s[j]).0.view() != p,
    decreases s.len(),
{
    if s.len() > 0 {
        let q = s.drop_last();
        lemma_port_index(q, p);
        assert forall|j: int| 0 <= j < q.len() implies q[j] == s[j] by {}
    }
}

/// The value of the first entry with key `k`.
pub fn key_get_exec(s: &Vec<(String, usize)>, k: &str) -> (r: Option<usize>)
    ensures
        r == key_get(s@, k@),
{
    match find_key(s, k) {
        Some(i) => Some(s[i].1),
        None => None,
    }
}

fn find_key<V>(s: &Vec<(String, V)>, k: &str) -> (r: Option<usize>)
    ensures
        r is None <==> key_index(s@, k@) is None,
        r matches Some(i) ==> key_index(s@, k@) == Some(i as int) && i < s@.len(),
{
    proof { lemma_key_index(s@, k@); }
    let kv = string_of(str_to_chars(k).as_slice());
    let mut i: usize = 0;
    while i < s.len()
        invariant
            i <= s@.len(),
            kv@ == k@,
            forall|j: int| 0 <= j < i ==> (#[trigger] s@[j]).0@ != k@,
        decreases s@.len() - i,
    {
        if s[i].0 == kv {
            proof {
                lemma_key_index(s@, k@);
                assert(s@[i as int].0@ == k@);
                match key_index(s@, k@) {
                    Some(m) => {
                        if m < i { assert(s@[m].0@ != k@); }
                        if m > i { assert(s@[i as int].0@ != k@); }
                    }
                    None => { assert(s@[i as int].0@ != k@); }
                }
            }
            return Some(i);
        }
        i = i + 1;
    }
    proof {
        lemma_key_index(s@, k@);
        if let Some(m) = key_index(s@, k@) { assert(s@[m].0@ != k@); }
    }
    None
}

fn find_port(s: &Vec<(Port, String)>, p: &Port) -> (r: Option<usize>)
    ensures
        r is None <==> port_index(s@, p.view()) is None,
        r matches Some(i) ==> port_index(s@, p.view()) == Some(i as int) && i < s@.len(),
{
    proof { lemma_port_index(s@, p.view()); }
    let mut i: usize = 0;
    while i < s.len()
        invariant
            i <= s@.len(),
            forall|j: int| 0 <= j < i ==> (#[trigger] s@[j]).0.view() != p.view(),
        decreases s@.len() - i,
    {
        if s[i].0.same(p) {
            proof {
                lemma_port_index(s@, p.view());
                assert(s@[i as int].0.view() == p.view());
                match port_index(s@, p.view()) {
                    Some(m) => {
                        if m < i { assert(s@[m].0.view() != p.view()); }
                        if m > i { assert(s@[i as int].0.view() != p.view()); }
                    }
                    None => { assert(s@[i as int].0.view() != p.view()); }
                }
            }
            return Some(i);
        }
        i = i + 1;
    }
    proof {
        lemma_port_index(s@, p.view());
        if let Some(m) = port_index(s@, p.view()) { assert(s@[m].0.view() != p.view()); }
    }
    None
}

/// What a compilation gathers: the initial memory, the program, port names,
/// devices by port, macros, warnings, the settings that the including file
/// must process, and what passes between files.
pub struct CompilerInfo<T> {
    mem_init: MemInit,
    program: Vec<T>,
    port_names: Vec<(String, usize)>,
    devs: Vec<(Port, String)>,
    macros: Vec<(String, String)>,
    warnings: CompilerWarnings,
    settings_for_parent: Vec<Setting>,
    inter_info: CompilerInterInfo,
}

/// Macro code with each call `%name%` replaced by that macro's code; the
/// parts between `%` alternate between code and names. `Err(name)` for the
/// first unknown name.
pub open spec fn spec_macro_transform(parts: Seq<Seq<char>>, macros: Seq<(String, String)>) -> Result<Seq<char>, Seq<char>>
    decreases parts.len(),
{
    if parts.len() == 0 {
        Ok(seq![])
    } else {
        match spec_macro_transform(parts.drop_last(), macros) {
            Err(e) => Err(e),
            Ok(prev) => {
                if (parts.len() - 1) % 2 == 0 {
                    Ok(prev + parts.last())
                } else {
                    match key_get(macros, parts.last()) {
                        Some(code) => Ok(prev + code@),
                        None => Err(parts.last()),
                    }
                }
            }
        }
    }
}

impl<T> CompilerInfo<T> {
    pub closed spec fn wf(&self) -> bool { self.mem_init.wf() }
    pub closed spec fn spec_program(&self) -> Seq<T> { self.program@ }
    pub closed spec fn spec_port_names(&self) -> Seq<(String, usize)> { self.port_names@ }
    pub closed spec fn spec_devs(&self) -> Seq<(Port, String)> { self.devs@ }
    pub closed spec fn spec_macros(&self) -> Seq<(String, String)> { self.macros@ }
    pub closed spec fn spec_mem_init(&self) -> MemInit { self.mem_init }
    pub closed spec fn spec_warnings(&self) -> CompilerWarnings { self.warnings }
    pub closed spec fn spec_settings_for_parent(&self) -> Seq<Setting> { self.settings_for_parent@ }
    pub closed spec fn spec_inter_info(&self) -> CompilerInterInfo { self.inter_info }

    pub fn new(inter_info: Option<CompilerInterInfo>) -> (r: Self)
        ensures
            r.wf(),
            r.spec_program().len() == 0,
            r.spec_port_names().len() == 0,
            r.spec_devs().len() == 0,
            r.spec_macros().len() == 0,
            r.spec_settings_for_parent().len() == 0,
            r.spec_warnings().spec_len() == 0,
            r.spec_mem_init().spec_len() == 0,
            match inter_info {
                Some(i) => r.spec_inter_info() == i,
                None => !r.spec_inter_info().code_started && r.spec_inter_info().path is None,
            },
    {
        Self {
            mem_init: MemInit::new(),
            program: Vec::new(),
            port_names: Vec::new(),
            devs: Vec::new(),
            macros: Vec::new(),
            warnings: CompilerWarnings::new(),
            settings_for_parent: Vec::new(),
            inter_info: match inter_info { Some(i) => i, None => CompilerInterInfo::new(None) },
        }
    }

    pub fn get_port_names_ref(&self) -> (r: &Vec<(String, usize)>)
        ensures r@ == self.spec_port_names(),
    {
        &self.port_names
    }

    /// The hand-over information, to change in place.
    pub fn get_mut_inter_info(&mut self) -> (r: &mut CompilerInterInfo)
        ensures
            *r == old(self).spec_inter_info(),
            final(self).spec_inter_info() == *final(r),
            final(self).wf() == old(self).wf(),
            final(self).spec_program() == old(self).spec_program(),
            final(self).spec_port_names() == old(self).spec_port_names(),
            final(self).spec_devs() == old(self).spec_devs(),
            final(self).spec_macros() == old(self).spec_macros(),
            final(self).spec_mem_init() == old(self).spec_mem_init(),
            final(self).spec_warnings() == old(self).spec_warnings(),
            final(self).spec_settings_for_parent() == old(self).spec_settings_for_parent(),
    {
        &mut self.inter_info
    }

    /// The devices by port, to change in place.
    pub fn get_mut_devs(&mut self) -> (r: &mut Vec<(Port, String)>)
        ensures
            r@ == old(self).spec_devs(),
            final(self).spec_devs() == final(r)@,
            final(self).wf() == old(self).wf(),
            final(self).spec_program() == old(self).spec_program(),
            final(self).spec_port_names() == old(self).spec_port_names(),
            final(self).spec_macros() == old(self).spec_macros(),
            final(self).spec_mem_init() == old(self).spec_mem_init(),
            final(self).spec_inter_info() == old(self).spec_inter_info(),
            final(self).spec_warnings() == old(self).spec_warnings(),
            final(self).spec_settings_for_parent() == old(self).spec_settings_for_parent(),
    {
        &mut self.devs
    }

    /// The initial memory, to change in place.
    pub fn get_mut_mem_init(&mut self) -> (r: &mut MemInit)
        ensures
            *r == old(self).spec_mem_init(),
            final(self).spec_mem_init() == *final(r),
            final(self).wf() == final(r).wf(),
            final(self).spec_program() == old(self).spec_program(),
            final(self).spec_port_names() == old(self).spec_port_names(),
            final(self).spec_devs() == old(self).spec_devs(),
            final(self).spec_macros() == old(self).spec_macros(),
            final(self).spec_inter_info() == old(self).spec_inter_info(),
            final(self).spec_warnings() == old(self).spec_warnings(),
            final(self).spec_settings_for_parent() == old(self).spec_settings_for_parent(),
    {
        &mut self.mem_init
    }

    pub fn get_inter_info(&self) -> (r: &CompilerInterInfo)
        ensures *r == self.spec_inter_info(),
    {
        &self.inter_info
    }

    /// Take the path of the file out, leaving none.
    pub fn take_path(&mut self) -> (r: Option<String>)
        ensures
            r == old(self).spec_inter_info().path,
            final(self).spec_inter_info().path is None,
            final(self).spec_inter_info().code_started == old(self).spec_inter_info().code_started,
            final(self).wf() == old(self).wf(),
            final(self).spec_program() == old(self).spec_program(),
            final(self).spec_settings_for_parent() == old(self).spec_settings_for_parent(),
    {
        self.inter_info.take_path()
    }

    /// Set the path of the file; there must be none yet.
    pub fn set_path(&mut self, path: String)
        requires
            old(self).spec_inter_info().path is None,
        ensures
            final(self).spec_inter_info().path == Some(path),
            final(self).spec_inter_info().code_started == old(self).spec_inter_info().code_started,
            final(self).wf() == old(self).wf(),
            final(self).spec_program() == old(self).spec_program(),
            final(self).spec_settings_for_parent() == old(self).spec_settings_for_parent(),
    {
        self.inter_info.set_path(path)
    }

    pub fn get_ref_program(&self) -> (r: &Vec<T>)
        ensures r@ == self.spec_program(),
    {
        &self.program
    }

    /// Set the program; there must be none yet.
    pub fn set_program(&mut self, program: Vec<T>)
        requires
            old(self).spec_program().len() == 0,
        ensures
            final(self).spec_program() == program@,
            final(self).wf() == old(self).wf(),
            final(self).spec_macros() == old(self).spec_macros(),
            final(self).spec_port_names() == old(self).spec_port_names(),
            final(self).spec_inter_info() == old(self).spec_inter_info(),
    {
        self.program = program;
    }

    pub fn add_warning(&mut self, warning: CompilerWarning)
        ensures
            final(self).spec_warnings().spec_warnings() == old(self).spec_warnings().spec_warnings().push(warning),
            final(self).spec_warnings().spec_file() == old(self).spec_warnings().spec_file(),
            final(self).wf() == old(self).wf(),
            final(self).spec_program() == old(self).spec_program(),
            final(self).spec_macros() == old(self).spec_macros(),
            final(self).spec_inter_info() == old(self).spec_inter_info(),
    {
        self.warnings.add_warning(warning)
    }

    /// Name the file of the warnings, if there are any.
    /// Name the file of the warnings, if there are any (and they are not
    /// named after another file yet).
    pub fn add_warning_file_name_if_need(&mut self, file_name: String)
        ensures
            old(self).spec_warnings().spec_len() != 0 && old(self).spec_warnings().spec_file() is None
                ==> final(self).spec_warnings().spec_file() == Some(file_name@),
            old(self).spec_warnings().spec_len() == 0 ==> final(self).spec_warnings() == old(self).spec_warnings(),
            final(self).spec_warnings().spec_warnings() == old(self).spec_warnings().spec_warnings(),
            final(self).wf() == old(self).wf(),
            final(self).spec_program() == old(self).spec_program(),
            final(self).spec_inter_info() == old(self).spec_inter_info(),
            final(self).spec_macros() == old(self).spec_macros(),
            final(self).spec_devs() == old(self).spec_devs(),
            final(self).spec_port_names() == old(self).spec_port_names(),
            final(self).spec_mem_init() == old(self).spec_mem_init(),
    {
        if !self.warnings.is_empty() && self.warnings.file_name().is_none() { self.warnings.set_file(file_name) }
    }

    pub fn add_setting_for_parent(&mut self, setting: Setting)
        ensures
            final(self).spec_settings_for_parent() == old(self).spec_settings_for_parent().push(setting),
            final(self).wf() == old(self).wf(),
            final(self).spec_program() == old(self).spec_program(),
            final(self).spec_macros() == old(self).spec_macros(),
            final(self).spec_inter_info() == old(self).spec_inter_info(),
    {
        self.settings_for_parent.push(setting)
    }

    pub fn clear_port_names(&mut self)
        ensures
            final(self).spec_port_names().len() == 0,
            final(self).spec_devs() == old(self).spec_devs(),
            final(self).wf() == old(self).wf(),
            final(self).spec_mem_init() == old(self).spec_mem_init(),
            final(self).spec_program() == old(self).spec_program(),
            final(self).spec_macros() == old(self).spec_macros(),
            final(self).spec_inter_info() == old(self).spec_inter_info(),
    {
        self.port_names = Vec::new();
    }

    /// The port number of a port name.
    pub fn get_port(&self, port_name: &str) -> (r: Option<usize>)
        ensures
            r == key_get(self.spec_port_names(), port_name@),
    {
        match find_key(&self.port_names, port_name) {
            Some(i) => Some(self.port_names[i].1),
            None => None,
        }
    }

    /// Map a port name to a port number; `Some(old number)` when the name
    /// had another number.
    pub fn add_port(&mut self, port_name: String, port: usize) -> (r: Option<usize>)
        ensures
            key_get(final(self).spec_port_names(), port_name@) == Some(port),
            forall|k: Seq<char>| k != port_name@ ==> key_get(final(self).spec_port_names(), k) == key_get(old(self).spec_port_names(), k),
            r == match key_get(old(self).spec_port_names(), port_name@) {
                Some(o) => if o == port { None } else { Some(o) },
                None => None::<usize>,
            },
            final(self).spec_devs() == old(self).spec_devs(),
            final(self).wf() == old(self).wf(),
            final(self).spec_mem_init() == old(self).spec_mem_init(),
            final(self).spec_program() == old(self).spec_program(),
            final(self).spec_macros() == old(self).spec_macros(),
            final(self).spec_inter_info() == old(self).spec_inter_info(),
    {
        let ghost old_s = self.port_names@;
        proof { lemma_key_index(old_s, port_name@); }
        match find_key(&self.port_names, port_name.as_str()) {
            Some(i) => {
                let old_port = self.port_names[i].1;
                self.port_names.set(i, (port_name, port));
                proof { lemma_key_update(old_s, i as int, self.port_names@[i as int]); }
                if old_port == port { None } else { Some(old_port) }
            }
            None => {
                self.port_names.push((port_name, port));
                proof { lemma_key_push(old_s, self.port_names@.last()); }
                None
            }
        }
    }

    /// Connect a device (by name) to a port, replacing the entry of that
    /// port if there is one; the name of the device it replaces, if any.
    pub fn add_dev(&mut self, port: Port, dev_name: String) -> (r: Option<String>)
        ensures
            match port_index(old(self).spec_devs(), port.view()) {
                Some(i) => final(self).spec_devs() == old(self).spec_devs().update(i, (port, dev_name))
                    && r == Some(old(self).spec_devs()[i].1),
                None => final(self).spec_devs() == old(self).spec_devs().push((port, dev_name))
                    && r is None,
            },
            final(self).spec_port_names() == old(self).spec_port_names(),
            final(self).wf() == old(self).wf(),
            final(self).spec_mem_init() == old(self).spec_mem_init(),
            final(self).spec_program() == old(self).spec_program(),
            final(self).spec_macros() == old(self).spec_macros(),
            final(self).spec_inter_info() == old(self).spec_inter_info(),
    {
        let ghost old_s = self.devs@;
        let ghost pv = port.view();
        proof { lemma_port_index(old_s, pv); }
        match find_port(&self.devs, &port) {
            Some(i) => {
                let old_name = self.devs[i].1.clone();
                self.devs.set(i, (port, dev_name));
                Some(old_name)
            }
            None => {
                self.devs.push((port, dev_name));
                None
            }
        }
    }

    pub fn get_devs(&self) -> (r: &Vec<(Port, String)>)
        ensures r@ == self.spec_devs(),
    {
        &self.devs
    }

    /// Disconnect all devices.
    pub fn clear_devs(&mut self)
        ensures
            final(self).spec_devs().len() == 0,
            final(self).spec_port_names() == old(self).spec_port_names(),
            final(self).wf() == old(self).wf(),
            final(self).spec_mem_init() == old(self).spec_mem_init(),
            final(self).spec_program() == old(self).spec_program(),
            final(self).spec_macros() == old(self).spec_macros(),
            final(self).spec_inter_info() == old(self).spec_inter_info(),
    {
        self.devs = Vec::new();
    }

    pub fn get_mem_init(&self) -> (r: &MemInit)
        ensures
            *r == self.spec_mem_init(),
            self.wf() ==> r.wf(),
    {
        &self.mem_init
    }

    /// Change the initial memory.
    pub fn set_mem_init(&mut self, mem_init: MemInit)
        ensures
            final(self).spec_mem_init() == mem_init,
            final(self).wf() == mem_init.wf(),
            final(self).spec_port_names() == old(self).spec_port_names(),
            final(self).spec_devs() == old(self).spec_devs(),
            final(self).spec_program() == old(self).spec_program(),
            final(self).spec_macros() == old(self).spec_macros(),
            final(self).spec_inter_info() == old(self).spec_inter_info(),
    {
        self.mem_init = mem_init;
    }

    /// Take the initial memory out, leaving an empty one.
    pub fn take_mem_init(&mut self) -> (r: MemInit)
        ensures
            r == old(self).spec_mem_init(),
            old(self).wf() ==> r.wf(),
            final(self).wf(),
            final(self).spec_port_names() == old(self).spec_port_names(),
            final(self).spec_devs() == old(self).spec_devs(),
            final(self).spec_program() == old(self).spec_program(),
            final(self).spec_macros() == old(self).spec_macros(),
            final(self).spec_inter_info() == old(self).spec_inter_info(),
    {
        let mut m = MemInit::new();
        std::mem::swap(&mut m, &mut self.mem_init);
        m
    }

    pub fn is_empty_mem_init(&self) -> (r: bool)
        ensures r == (self.spec_mem_init().spec_len() == 0),
    {
        self.mem_init.is_empty()
    }

    /// The code of a macro.
    pub fn get_macros_code(&self, macro_name: &str) -> (r: Option<&String>)
        ensures
            match key_get(self.spec_macros(), macro_name@) {
                Some(c) => r matches Some(x) && *x == c,
                None => r is None,
            },
    {
        match find_key(&self.macros, macro_name) {
            Some(i) => Some(&self.macros[i].1),
            None => None,
        }
    }

    /// Whether a macro of that name can be added: none has it.
    pub fn can_add_macro(&self, macro_name: &str) -> (r: bool)
        ensures
            r == (key_index(self.spec_macros(), macro_name@) is None),
    {
        find_key(&self.macros, macro_name).is_none()
    }

    /// Add a macro; `false` (and no change) when one of that name exists.
    pub fn add_macro(&mut self, macro_name: String, macro_cmds: String) -> (r: bool)
        ensures
            r == (key_index(old(self).spec_macros(), macro_name@) is None),
            r ==> final(self).spec_macros() == old(self).spec_macros().push((macro_name, macro_cmds)),
            !r ==> final(self).spec_macros() == old(self).spec_macros(),
            final(self).wf() == old(self).wf(),
            final(self).spec_mem_init() == old(self).spec_mem_init(),
            final(self).spec_program() == old(self).spec_program(),
            final(self).spec_port_names() == old(self).spec_port_names(),
            final(self).spec_devs() == old(self).spec_devs(),
            final(self).spec_inter_info() == old(self).spec_inter_info(),
    {
        if find_key(&self.macros, macro_name.as_str()).is_some() {
            false
        } else {
            self.macros.push((macro_name, macro_cmds));
            true
        }
    }

    /// Macro code with each inner call `%name%` replaced by that macro's
    /// code; `Err(name)` for an unknown name.
    pub fn macro_transform(&self, macro_init_code: String) -> (r: Result<String, String>)
        ensures
            match spec_macro_transform(split_on(macro_init_code@, '%'), self.spec_macros()) {
                Ok(s) => r matches Ok(x) && x@ == s,
                Err(n) => r matches Err(x) && x@ == n,
            },
    {
        let code_v = str_to_chars(macro_init_code.as_str());
        let parts = crate::compiler::compiler_info::split_percent_parts(&code_v);
        let ghost pv = Seq::new(parts@.len(), |k: int| parts@[k]@);
        let mut macro_code = String::new();
        let mut i: usize = 0;
        assert(pv.take(0) =~= Seq::<Seq<char>>::empty());
        while i < parts.len()
            invariant
                i <= parts@.len(),
                pv == Seq::new(parts@.len(), |k: int| parts@[k]@),
                pv == split_on(macro_init_code@, '%'),
                spec_macro_transform(pv.take(i as int), self.spec_macros()) == Ok::<Seq<char>, Seq<char>>(macro_code@),
            decreases parts@.len() - i,
        {
            assert(pv.take(i as int + 1).drop_last() =~= pv.take(i as int));
            assert(pv.take(i as int + 1).last() == parts@[i as int]@);
            let part = string_of(parts[i].as_slice());
            if i % 2 == 0 {
                string_push_str(&mut macro_code, part.as_str());
            } else {
                match self.get_macros_code(part.as_str()) {
                    Some(code) => { string_push_str(&mut macro_code, code.as_str()); }
                    None => {
                        proof { lemma_transform_err(pv, self.spec_macros(), i as int + 1); }
                        return Err(part);
                    }
                }
            }
            i = i + 1;
        }
        assert(pv.take(pv.len() as int) =~= pv);
        Ok(macro_code)
    }

    /// Note that code started; the first time, with the memory set before
    /// the code, the code that builds that memory (if there is any).
    pub fn set_code_start(&mut self, mem_init_type: MemInitType) -> (r: Option<String>)
        requires
            old(self).wf(),
        ensures
            final(self).spec_inter_info().code_started,
            final(self).spec_inter_info().path == old(self).spec_inter_info().path,
            r is Some ==> !old(self).spec_inter_info().code_started && mem_init_type == MemInitType::BeforeCode
                && old(self).spec_mem_init().spec_len() != 0,
            (!old(self).spec_inter_info().code_started && mem_init_type == MemInitType::BeforeCode
                && old(self).spec_mem_init().spec_len() != 0
                && super::mem_init::entries_back(old(self).spec_mem_init().spec_entries(), 0) <= i32::MAX) ==> r is Some,
            r matches Some(c) ==> c@ == super::mem_init::entries_text(old(self).spec_mem_init().spec_entries(), 0)
                + super::mem_init::shift_text(-super::mem_init::entries_back(old(self).spec_mem_init().spec_entries(), 0)),
            final(self).wf(),
            final(self).spec_mem_init() == old(self).spec_mem_init(),
            final(self).spec_program() == old(self).spec_program(),
            final(self).spec_macros() == old(self).spec_macros(),
            final(self).spec_port_names() == old(self).spec_port_names(),
            final(self).spec_devs() == old(self).spec_devs(),
            final(self).spec_warnings() == old(self).spec_warnings(),
    {
        if !self.inter_info.is_code_started() {
            self.inter_info.set_code_start();
            if mem_init_type.mem_init_only_before_code() {
                if self.mem_init.is_empty() { return None }
                if !self.mem_init.code_gen_fits() { return None }
                return Some(self.mem_init.code_gen())
            }
        }
        None
    }

    /// Take in a compiled included file (which has no program and no
    /// settings left for its parent, and agrees on whether code started):
    /// its warnings, macros (one already defined is an error), initial
    /// memory (a cell with bytes on both sides is an error), port names
    /// and devices (a change of either gives a warning).
    pub fn add_include_file(&mut self, included: Self, pos: CompilerPos) -> (r: Option<IncludeError>)
        requires
            old(self).wf(),
            included.wf(),
            included.spec_program().len() == 0,
            included.spec_settings_for_parent().len() == 0,
            included.spec_inter_info().code_started == old(self).spec_inter_info().code_started,
        ensures
            final(self).wf(),
            final(self).spec_program() == old(self).spec_program(),
            final(self).spec_inter_info() == old(self).spec_inter_info(),
            match first_macro_clash(old(self).spec_macros(), included.spec_macros()) {
                Some(i) => r matches Some(IncludeError::MacrosAlreadyDefined { macro_name })
                    && macro_name@ == included.spec_macros()[i].0@,
                None => {
                    &&& r is None <==> (forall|k: usize| included.spec_mem_init().spec_has(k)
                        ==> old(self).spec_mem_init().spec_bytes(k).len() == 0)
                    &&& r matches Some(e) ==> (e matches IncludeError::MemInitMergeError { mmc }
                        && included.spec_mem_init().spec_has(mmc) && old(self).spec_mem_init().spec_bytes(mmc).len() != 0
                        && forall|k2: usize| k2 < mmc && included.spec_mem_init().spec_has(k2)
                            ==> old(self).spec_mem_init().spec_bytes(k2).len() == 0)
                },
            },
            r is None ==> forall|k: Seq<char>| key_index(included.spec_macros(), k) is Some ==> key_index(final(self).spec_macros(), k) is Some,
            r is None ==> final(self).spec_macros() == old(self).spec_macros() + included.spec_macros(),
            r matches Some(IncludeError::MemInitMergeError { mmc }) ==>
                included.spec_mem_init().spec_has(mmc) && old(self).spec_mem_init().spec_bytes(mmc).len() != 0,
            r is None ==> forall|k: usize| #[trigger] final(self).spec_mem_init().spec_bytes(k)
                == (if included.spec_mem_init().spec_has(k) { included.spec_mem_init().spec_bytes(k) }
                    else { old(self).spec_mem_init().spec_bytes(k) }),
            r is None ==> devs_view(final(self).spec_devs())
                == devs_merged(devs_view(old(self).spec_devs()), devs_view(included.spec_devs())),
            r is None ==> forall|k: Seq<char>| #[trigger] key_get(final(self).spec_port_names(), k)
                == match key_get_last(included.spec_port_names(), k) {
                    Some(p) => Some(p),
                    None => key_get(old(self).spec_port_names(), k),
                },
    {
        let ghost inc_macros = included.macros@;
        let inc = included;
        assert(inc.macros@ == inc_macros);
        if !inc.warnings.is_empty() {
            self.warnings.add_warning(CompilerWarning::FromOtherFile { pos, warnings: inc.warnings });
        }
        self.inter_info.update_with_other(&inc.inter_info);

        let mut i: usize = 0;
        while i < inc.macros.len()
            invariant
                i <= inc_macros.len(),
                inc_macros == inc.macros@,
                inc_macros == included.macros@,
                self.wf(),
                self.spec_program() == old(self).spec_program(),
                self.spec_inter_info() == old(self).spec_inter_info(),
                forall|j: int| 0 <= j < i ==> key_index(self.macros@, #[trigger] inc_macros[j].0@) is Some,
                self.macros@ == old(self).macros@ + inc_macros.take(i as int),
                first_macro_clash(old(self).macros@, inc_macros.take(i as int)) is None,
                self.mem_init == old(self).mem_init,
                self.port_names@ == old(self).port_names@,
                self.devs@ == old(self).devs@,
            decreases inc_macros.len() - i,
        {
            let name = inc.macros[i].0.clone();
            let code = inc.macros[i].1.clone();
            let ghost before = self.macros@;
            if !self.add_macro(name, code) {
                let macro_name = inc.macros[i].0.clone();
                proof {
                    lemma_key_index_of(inc_macros, i as int);
                    assert(macro_name@ == inc_macros[i as int].0@);
                    assert(inc_macros == included.macros@);
                    let t = inc_macros.take(i as int + 1);
                    assert(t.drop_last() =~= inc_macros.take(i as int));
                    assert(t.last() == inc_macros[i as int]);
                    assert(first_macro_clash(old(self).macros@, t) == Some(i as int));
                    lemma_first_clash_prefix(old(self).macros@, inc_macros, i as int + 1);
                }
                return Some(IncludeError::MacrosAlreadyDefined { macro_name });
            }
            proof {
                assert forall|j: int| 0 <= j < i + 1 implies key_index(self.macros@, #[trigger] inc_macros[j].0@) is Some by {
                    lemma_key_index_push(before, self.macros@.last(), inc_macros[j].0@);
                }
                assert(self.macros@ =~= old(self).macros@ + inc_macros.take(i as int + 1));
                let t = inc_macros.take(i as int + 1);
                assert(t.drop_last() =~= inc_macros.take(i as int));
                assert(t.last() == inc_macros[i as int]);
            }
            i = i + 1;
        }
        proof {
            assert forall|k: Seq<char>| key_index(inc_macros, k) is Some implies key_index(self.macros@, k) is Some by {
                lemma_key_index(inc_macros, k);
                let j = key_index(inc_macros, k)->0;
                assert(inc_macros[j].0@ == k);
            }
        }
        let ghost macros_after = self.macros@;
        proof { assert(inc_macros.take(inc_macros.len() as int) =~= inc_macros); }

        let mut mi = MemInit::new();
        std::mem::swap(&mut mi, &mut self.mem_init);
        let mut inc_mem = inc.mem_init;
        let ghost inc_mem_v = inc_mem;
        let merged = mi.merge(inc_mem);
        self.mem_init = mi;
        match merged {
            Some(mmc) => {
                assert(first_macro_clash(old(self).spec_macros(), included.spec_macros()) is None);
                assert(included.spec_mem_init() == inc_mem_v);
                assert(included.spec_mem_init().spec_has(mmc) && old(self).spec_mem_init().spec_bytes(mmc).len() != 0);
                assert(!(forall|k: usize| included.spec_mem_init().spec_has(k) ==> old(self).spec_mem_init().spec_bytes(k).len() == 0));
                return Some(IncludeError::MemInitMergeError { mmc });
            }
            None => {}
        }

        let ghost inc_ports = inc.port_names@;
        let ghost mem_after = self.mem_init;
        let mut i: usize = 0;
        while i < inc.port_names.len()
            invariant
                i <= inc_ports.len(),
                inc_ports == inc.port_names@,
                inc_ports == included.port_names@,
                self.wf(),
                self.spec_program() == old(self).spec_program(),
                self.spec_inter_info() == old(self).spec_inter_info(),
                self.macros@ == macros_after,
                self.mem_init == mem_after,
                self.devs@ == old(self).devs@,
                forall|k: Seq<char>| #[trigger] key_get(self.port_names@, k)
                    == match key_get_last(inc_ports.take(i as int), k) {
                        Some(p) => Some(p),
                        None => key_get(old(self).port_names@, k),
                    },
            decreases inc_ports.len() - i,
        {
            let port_name = inc.port_names[i].0.clone();
            let port = inc.port_names[i].1;
            let ghost before = self.port_names@;
            proof { assert(inc_ports.take(i as int + 1).drop_last() =~= inc_ports.take(i as int)); }
            match self.add_port(port_name, port) {
                Some(old_port) => {
                    self.warnings.add_warning(CompilerWarning::OtherPortUsedInOtherFile {
                        pos, port_name: inc.port_names[i].0.clone(), new_port: port, old_port,
                    });
                }
                None => {}
            }
            i = i + 1;
        }
        proof { assert(inc_ports.take(inc_ports.len() as int) =~= inc_ports); }
        let ghost ports_after = self.port_names@;
        proof { assert(devs_view(inc.devs@).take(0) =~= Seq::<(PortView, Seq<char>)>::empty()); }

        let mut i: usize = 0;
        while i < inc.devs.len()
            invariant
                i <= inc.devs@.len(),
                self.wf(),
                self.spec_program() == old(self).spec_program(),
                self.spec_inter_info() == old(self).spec_inter_info(),
                self.macros@ == macros_after,
                self.mem_init == mem_after,
                self.port_names@ == ports_after,
                inc.devs@ == included.devs@,
                devs_view(self.devs@) == devs_merged(devs_view(old(self).devs@), devs_view(inc.devs@).take(i as int)),
            decreases inc.devs@.len() - i,
        {
            let port = inc.devs[i].0.clone_port();
            let dev_name = inc.devs[i].1.clone();
            let ghost before = self.devs@;
            let ghost e = (port.view(), dev_name@);
            proof {
                lemma_port_index_view(before, port.view());
                lemma_port_index(before, port.view());
                let t = devs_view(inc.devs@).take(i as int + 1);
                assert(t.drop_last() =~= devs_view(inc.devs@).take(i as int));
                assert(t.last() == e);
            }
            match self.add_dev(port, dev_name) {
                Some(old_name) => {
                    if !(old_name == inc.devs[i].1) {
                        self.warnings.add_warning(CompilerWarning::OtherDevUsedInOtherFile {
                            pos, port: inc.devs[i].0.clone_port(), new_dev_name: inc.devs[i].1.clone(), old_dev_name: old_name,
                        });
                    }
                }
                None => {}
            }
            proof {
                let bv = devs_view(before);
                match port_index_v(bv, e.0) {
                    Some(j) => { assert(devs_view(self.devs@) =~= bv.update(j, e)); }
                    None => { assert(devs_view(self.devs@) =~= bv.push(e)); }
                }
            }
            i = i + 1;
        }
        proof { assert(devs_view(inc.devs@).take(inc.devs@.len() as int) =~= devs_view(inc.devs@)); }
        None
    }

    /// Process the settings that an included file left for its parent: each
    /// through the rules, adding its warnings here, and keeping it for this
    /// file's parent where the rule asks so. The first setting that no rule
    /// takes rightly stops it: its text and result.
    pub fn include_file_setting(&mut self, included: &mut Self, actions: &SettingActions, pos: CompilerPos)
        -> (r: Option<(String, SettingActionResult)>)
        requires
            old(self).wf(),
        ensures
            final(self).wf(),
            final(included).spec_settings_for_parent().len() == 0,
            final(included).wf() == old(included).wf(),
            final(included).spec_program() == old(included).spec_program(),
            final(included).spec_inter_info() == old(included).spec_inter_info(),
            final(self).spec_program() == old(self).spec_program(),
            final(self).spec_macros() == old(self).spec_macros(),
            final(self).spec_inter_info() == old(self).spec_inter_info(),
            r matches Some((_, res)) ==> !res.result_type.spec_right_rule(),
            old(included).spec_settings_for_parent().len() == 0 ==> r is None,
    {
        let settings = included.take_settings_for_parent();
        let mut settings = settings;
        let ghost n0 = settings@.len();
        while settings.len() > 0
            invariant
                n0 == 0 ==> settings@.len() == 0,
                n0 == old(included).spec_settings_for_parent().len(),
                included.wf() == old(included).wf(),
                included.spec_program() == old(included).spec_program(),
                included.spec_inter_info() == old(included).spec_inter_info(),
                self.wf(),
                self.spec_program() == old(self).spec_program(),
                self.spec_macros() == old(self).spec_macros(),
                self.spec_inter_info() == old(self).spec_inter_info(),
                included.spec_settings_for_parent().len() == 0,
            decreases settings@.len(),
        {
            let setting = settings.remove(0);
            let sa_res = actions.make_setting_action(&setting, self);
            if !sa_res.is_right_rule() { return Some((setting.to_string(), sa_res)) }
            let parent_must_process = sa_res.parent_must_process();
            let text = setting.to_string();
            match sa_res.get_warinings() {
                Some(warnings) => {
                    let mut k: usize = 0;
                    while k < warnings.len()
                        invariant
                            self.wf(),
                            self.spec_program() == old(self).spec_program(),
                            self.spec_macros() == old(self).spec_macros(),
                            self.spec_inter_info() == old(self).spec_inter_info(),
                        decreases warnings@.len() - k,
                    {
                        self.add_warning(CompilerWarning::SettingWarning {
                            pos, setting: text.clone(), warning: warnings[k].clone(),
                        });
                        k = k + 1;
                    }
                }
                None => {}
            }
            if parent_must_process { self.add_setting_for_parent(setting) }
        }
        None
    }

    /// The port names, devices and program, taken out.
    pub fn decompile(self) -> (r: (Vec<(String, usize)>, Vec<(Port, String)>, Vec<T>))
        ensures
            r.0@ == self.spec_port_names(),
            r.1@ == self.spec_devs(),
            r.2@ == self.spec_program(),
    {
        (self.port_names, self.devs, self.program)
    }

    /// Take out the settings left for the including file.
    pub fn take_settings_for_parent(&mut self) -> (r: Vec<Setting>)
        ensures
            r@ == old(self).spec_settings_for_parent(),
            final(self).spec_settings_for_parent().len() == 0,
            final(self).wf() == old(self).wf(),
            final(self).spec_program() == old(self).spec_program(),
            final(self).spec_macros() == old(self).spec_macros(),
            final(self).spec_inter_info() == old(self).spec_inter_info(),
            final(self).spec_mem_init() == old(self).spec_mem_init(),
    {
        let mut v: Vec<Setting> = Vec::new();
        std::mem::swap(&mut v, &mut self.settings_for_parent);
        v
    }
}

proof fn lemma_key_update<V>(s: Seq<(String, V)>, i: int, e: (String, V))
    requires
        key_index(s, e.0@) == Some(i),
    ensures
        key_get(s.update(i, e), e.0@) == Some(e.1),
        forall|k: Seq<char>| k != e.0@ ==> key_get(s.update(i, e), k) == key_get(s, k),
{
    lemma_key_index(s, e.0@);
    let t = s.update(i, e);
    lemma_key_index(t, e.0@);
    assert(t[i] == e);
    match key_index(t, e.0@) {
        Some(m) => {
            if m < i { assert(t[m] == s[m]); assert(s[m].0@ != e.0@); }
            if m > i { assert(t[i].0@ != e.0@); }
        }
        None => { assert(t[i].0@ != e.0@); }
    }
    assert forall|k: Seq<char>| k != e.0@ implies key_get(t, k) == key_get(s, k) by {
        lemma_key_index(s, k);
        lemma_key_index(t, k);
        match (key_index(s, k), key_index(t, k)) {
            (Some(a), Some(b)) => {
                assert(a != i);
                assert(b != i);
                assert(t[a] == s[a]);
                assert(t[b] == s[b]);
                if a < b { assert(t[a].0@ != k); }
                if b < a { assert(s[b].0@ != k); }
            }
            (Some(a), None) => { assert(a != i); assert(t[a] == s[a]); assert(t[a].0@ != k); }
            (None, Some(b)) => { assert(b != i); assert(t[b] == s[b]); assert(s[b].0@ != k); }
            (None, None) => {}
        }
    }
}

proof fn lemma_key_push<V>(s: Seq<(String, V)>, e: (String, V))
    requires
        key_index(s, e.0@) is None,
    ensures
        key_get(s.push(e), e.0@) == Some(e.1),
        forall|k: Seq<char>| k != e.0@ ==> key_get(s.push(e), k) == key_get(s, k),
{
    assert(s.push(e).drop_last() =~= s);
    assert forall|k: Seq<char>| k != e.0@ implies key_get(s.push(e), k) == key_get(s, k) by {
        assert(s.push(e).drop_last() =~= s);
        lemma_key_index(s, k);
        if let Some(a) = key_index(s, k) { assert(s.push(e)[a] == s[a]); }
    }
}

/// What `add_macro` adds, `get_macros_code` finds: a macro added under a
/// name that no macro had is found under that name with its code, and
/// every other name keeps what it had.
pub proof fn law_macro_read_after_add(macros: Seq<(String, String)>, name: String, code: String)
    requires
        key_index(macros, name@) is None,
    ensures
        key_get(macros.push((name, code)), name@) == Some(code),
        forall|k: Seq<char>| k != name@ ==> key_get(macros.push((name, code)), k) == key_get(macros, k),
{
    lemma_key_push(macros, (name, code));
}

/// The first of the macros `inc` whose name is already among `have` or
/// among the macros of `inc` before it.
pub open spec fn first_macro_clash(have: Seq<(String, String)>, inc: Seq<(String, String)>) -> Option<int>
    decreases inc.len(),
{
    if inc.len() == 0 {
        None
    } else {
        match first_macro_clash(have, inc.drop_last()) {
            Some(i) => Some(i),
            None => if key_index(have + inc.drop_last(), inc.last().0@) is Some { Some(inc.len() - 1) } else { None },
        }
    }
}

proof fn lemma_first_clash_prefix(have: Seq<(String, String)>, inc: Seq<(String, String)>, n: int)
    requires
        0 <= n <= inc.len(),
        first_macro_clash(have, inc.take(n)) is Some,
    ensures
        first_macro_clash(have, inc) == first_macro_clash(have, inc.take(n)),
    decreases inc.len() - n,
{
    if n < inc.len() {
        assert(inc.take(n + 1).drop_last() =~= inc.take(n));
        lemma_first_clash_prefix(have, inc, n + 1);
    } else {
        assert(inc.take(n) =~= inc);
    }
}

proof fn lemma_key_index_of<V>(s: Seq<(String, V)>, i: int)
    requires
        0 <= i < s.len(),
    ensures
        key_index(s, s[i].0@) is Some,
{
    lemma_key_index(s, s[i].0@);
}

proof fn lemma_key_index_push<V>(s: Seq<(String, V)>, e: (String, V), k: Seq<char>)
    ensures
        key_index(s, k) is Some ==> key_index(s.push(e), k) == key_index(s, k),
        e.0@ == k ==> key_index(s.push(e), k) is Some,
{
    assert(s.push(e).drop_last() =~= s);
}

proof fn lemma_port_update(s: Seq<(Port, String)>, i: int, e: (Port, String))
    requires
        port_index(s, e.0.view()) == Some(i),
    ensures
        port_index(s.update(i, e), e.0.view()) == Some(i),
        forall|p: PortView| p != e.0.view() ==> port_index(s.update(i, e), p) == port_index(s, p)
            && (port_index(s, p) matches Some(a) ==> a != i),
{
    lemma_port_index(s, e.0.view());
    let t = s.update(i, e);
    lemma_port_index(t, e.0.view());
    assert(t[i] == e);
    match port_index(t, e.0.view()) {
        Some(m) => {
            if m < i { assert(t[m] == s[m]); assert(s[m].0.view() != e.0.view()); }
            if m > i { assert(t[i].0.view() != e.0.view()); }
        }
        None => { assert(t[i].0.view() != e.0.view()); }
    }
    assert forall|p: PortView| p != e.0.view() implies port_index(t, p) == port_index(s, p)
        && (port_index(s, p) matches Some(a) ==> a != i) by {
        lemma_port_index(s, p);
        lemma_port_index(t, p);
        match (port_index(s, p), port_index(t, p)) {
            (Some(a), Some(b)) => {
                assert(a != i);
                assert(b != i);
                assert(t[a] == s[a]);
                assert(t[b] == s[b]);
                if a < b { assert(t[a].0.view() != p); }
                if b < a { assert(s[b].0.view() != p); }
            }
            (Some(a), None) => { assert(a != i); assert(t[a] == s[a]); assert(t[a].0.view() != p); }
            (None, Some(b)) => { assert(b != i); assert(t[b] == s[b]); assert(s[b].0.view() != p); }
            (None, None) => {}
        }
    }
}

proof fn lemma_port_push(s: Seq<(Port, String)>, e: (Port, String))
    requires
        port_index(s, e.0.view()) is None,
    ensures
        port_index(s.push(e), e.0.view()) == Some(s.len() as int),
        forall|p: PortView| p != e.0.view() ==> port_index(s.push(e), p) == port_index(s, p)
            && (port_index(s, p) matches Some(a) ==> a < s.len()),
{
    assert forall|p: PortView| #![trigger port_index(s, p)] (port_index(s, p) matches Some(a) ==> a < s.len()) by { lemma_port_index(s, p); }
    assert(s.push(e).drop_last() =~= s);
    assert forall|p: PortView| p != e.0.view() implies port_index(s.push(e), p) == port_index(s, p) by {
        assert(s.push(e).drop_last() =~= s);
    }
}

proof fn lemma_transform_err(parts: Seq<Seq<char>>, macros: Seq<(String, String)>, i: int)
    requires
        0 <= i <= parts.len(),
        spec_macro_transform(parts.take(i), macros) is Err,
    ensures
        spec_macro_transform(parts, macros) == spec_macro_transform(parts.take(i), macros),
    decreases parts.len() - i,
{
    if i < parts.len() {
        assert(parts.take(i + 1).drop_last() =~= parts.take(i));
        lemma_transform_err(parts, macros, i + 1);
    } else {
        assert(parts.take(i) =~= parts);
    }
}

/// Split at each `%`.
pub fn split_percent_parts(s: &Vec<char>) -> (r: Vec<Vec<char>>)
    ensures
        Seq::new(r@.len(), |k: int| r@[k]@) == split_on(s@, '%'),
{
    let mut parts: Vec<Vec<char>> = Vec::new();
    let mut cur: Vec<char> = Vec::new();
    let mut i: usize = 0;
    assert(s@.take(0) =~= Seq::<char>::empty());
    assert(Seq::new(parts@.len(), |k: int| parts@[k]@).push(cur@) =~= split_on(s@.take(0), '%'));
    while i < s.len()
        invariant
            i <= s@.len(),
            Seq::new(parts@.len(), |k: int| parts@[k]@).push(cur@) == split_on(s@.take(i as int), '%'),
        decreases s@.len() - i,
    {
        let c = s[i];
        assert(s@.take(i as int + 1).drop_last() =~= s@.take(i as int));
        let ghost prev = split_on(s@.take(i as int), '%');
        if c == '%' {
            parts.push(cur);
            cur = Vec::new();
            assert(Seq::new(parts@.len(), |k: int| parts@[k]@).push(cur@) =~= prev.push(seq![]));
        } else {
            cur.push(c);
            assert(Seq::new(parts@.len(), |k: int| parts@[k]@).push(cur@) =~= prev.update(prev.len() - 1, prev.last().push(c)));
        }
        i = i + 1;
    }
    assert(s@.take(s@.len() as int) =~= s@);
    let ghost before = Seq::new(parts@.len(), |k: int| parts@[k]@);
    parts.push(cur);
    assert(Seq::new(parts@.len(), |k: int| parts@[k]@) =~= before.push(parts@.last()@));
    parts
}

}
