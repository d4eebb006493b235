use vstd::prelude::*;
use crate::general::text::{str_to_chars, string_of, string_push_str, parse_usize, usize_to_string, chars_eq, all_digits, spec_parse_usize, spec_decimal};
use crate::compiler::compiler_info::key_get;
use crate::dev_emulators::dev_utilities::names::spec_right_dev_name;
use crate::compiler::compiler_info::CompilerInfo;
use crate::vm::port::Port;
use crate::dev_emulators::dev_utilities::names::right_std_dev_name;
use super::settings::{Setting, SettingOneParam};
use crate::compiler::mem_init::MemInit;
use crate::vm::port::PortView;
use crate::compiler::compiler_info::port_index;
use super::setting_action_result::{SettingActionResult, SettingActionResultType, owned};

verus! {

/// Whether a string is the given text.
pub fn is_lit(s: &String, lit: &str) -> (r: bool)
    ensures
        r == (s@ == lit@),
{
    let a = str_to_chars(s.as_str());
    let b = str_to_chars(lit);
    chars_eq(a.as_slice(), b.as_slice())
}

/// The rules that settings follow.
#[derive(Clone, Copy, Debug, PartialEq, Eq, Structural)]
pub enum SettingRule {
    /// `'win-sz[x|y]'`: the screen size, as six bytes after the screen cell
    WinSz,
    /// `'dev[port]:name'`: connect a device to a port
    AddDev,
    /// `'+param:n'`: put a byte among the plain parameters
    AddParam,
    /// `'port-name:name:n'`: name a port
    PortName,
    /// `'dis-all-dev'`: disconnect all devices
    DisAllDev,
    /// `'param-pos--just+win:j:w'`: the cells of the parameters
    ParamPosSetJw,
    /// `'del-all-port-name'` or `'del-all-pn'`: forget all port names
    DelAllPortName,
}

/// The rules, tried in order on each setting.
pub struct SettingActions {
    actions: Vec<SettingRule>,
}

/// The key a port name is kept under: a number in decimal, else the name.
pub open spec fn spec_port_key(s: Seq<char>) -> Seq<char> {
    match spec_parse_usize(s) {
        Some(n) => spec_decimal(n as nat),
        None => s,
    }
}

/// The port of a `dev[..]` setting's additional parameters: any port
/// without one, else the number or the name given.
pub open spec fn spec_dev_port(add: Seq<String>) -> PortView {
    if add.len() == 0 {
        PortView::Any
    } else {
        match spec_parse_usize(add[0]@) {
            Some(n) => PortView::Number(n),
            None => PortView::Name(add[0]@),
        }
    }
}

/// Whether a `dev[..]:name` setting is written right.
pub open spec fn dev_setting_ok(ps: Seq<SettingOneParam>) -> bool {
    &&& ps.len() == 2
    &&& ps[1].param@.len() != 0
    &&& ps[0].additional_params@.len() <= 1
    &&& ps[1].additional_params@.len() == 0
    &&& spec_right_dev_name(ps[1].param@)
    &&& ps[0].additional_params@.len() == 1 ==> {
        let a = ps[0].additional_params@[0]@;
        spec_right_dev_name(a) || (a.len() > 0 && forall|i: int| 0 <= i < a.len() ==> '0' <= #[trigger] a[i] <= '9')
    }
}

/// The screen size as six bytes: each of width and height in three
/// bytes, lowest first.
pub open spec fn win_bytes(x: usize, y: usize) -> Seq<u8> {
    seq![(x % 256) as u8, ((x / 256) % 256) as u8, (x / 65536) as u8,
        (y % 256) as u8, ((y / 256) % 256) as u8, (y / 65536) as u8]
}

/// The name of a setting: its first parameter's name.
pub open spec fn setting_name(st: &Setting) -> Option<Seq<char>> {
    if st.params@.len() >= 1 { Some(st.params@[0].param@) } else { None }
}

/// Whether a `port-name:name:n` setting is written right.
pub open spec fn port_name_setting_ok(ps: Seq<SettingOneParam>) -> bool {
    !(ps.len() != 3 || ps[0].additional_params@.len() != 0 || !spec_right_dev_name(ps[1].param@)
        || spec_parse_usize(ps[2].param@) is None)
}

/// Whether a `+param:n` setting is written right and its place is set.
pub open spec fn add_param_setting_ok(ps: Seq<SettingOneParam>, mi: MemInit) -> bool {
    !(mi.spec_just_pos() is None || ps.len() != 2 || ps[0].additional_params@.len() != 0
        || spec_parse_usize(ps[1].param@) is None || spec_parse_usize(ps[1].param@)->0 > 255)
}

/// Whether a `win-sz[x|y]` setting is written right and its place is set.
pub open spec fn win_sz_setting_ok(ps: Seq<SettingOneParam>, mi: MemInit) -> bool {
    !(mi.spec_win_pos() is None || ps.len() != 1 || ps[0].additional_params@.len() != 2
        || spec_parse_usize(ps[0].additional_params@[0]@) is None
        || spec_parse_usize(ps[0].additional_params@[1]@) is None
        || spec_parse_usize(ps[0].additional_params@[0]@)->0 > 256 * 256 * 256 - 1
        || spec_parse_usize(ps[0].additional_params@[1]@)->0 > 256 * 256 * 256 - 1)
}

/// What the rule for `dev` does to a setting of its name: connect a device.
pub open spec fn add_dev_effect<T>(setting: &Setting, old_ci: CompilerInfo<T>, new_ci: CompilerInfo<T>, r: SettingActionResult) -> bool {
    let ps = setting.params@;
    if !dev_setting_ok(ps) {
        r.result_type is Error && new_ci == old_ci
    } else {
        let pv = spec_dev_port(ps[0].additional_params@);
        let old_devs = old_ci.spec_devs();
        let new_devs = new_ci.spec_devs();
        &&& new_ci.spec_port_names() == old_ci.spec_port_names()
        &&& new_ci.spec_mem_init() == old_ci.spec_mem_init()
        &&& match port_index(old_devs, pv) {
            Some(i) => {
                &&& new_devs.len() == old_devs.len()
                &&& new_devs[i].0.view() == pv && new_devs[i].1@ == ps[1].param@
                &&& forall|j: int| 0 <= j < old_devs.len() && j != i ==> #[trigger] new_devs[j] == old_devs[j]
                &&& r.result_type is OkWithWarnings
            },
            None => {
                &&& new_devs.len() == old_devs.len() + 1
                &&& new_devs.last().0.view() == pv && new_devs.last().1@ == ps[1].param@
                &&& forall|j: int| 0 <= j < old_devs.len() ==> #[trigger] new_devs[j] == old_devs[j]
                &&& r.result_type is AllOk
            },
        }
    }
}

/// What the rule for `port-name` does to a setting of its name: name a port.
pub open spec fn port_name_effect<T>(setting: &Setting, old_ci: CompilerInfo<T>, new_ci: CompilerInfo<T>, r: SettingActionResult) -> bool {
    let ps = setting.params@;
    if !port_name_setting_ok(ps) {
        r.result_type is Error && new_ci == old_ci
    } else {
        let key = spec_port_key(ps[1].param@);
        let port = spec_parse_usize(ps[2].param@)->0;
        &&& key_get(new_ci.spec_port_names(), key) == Some(port)
        &&& forall|k: Seq<char>| k != key ==> key_get(new_ci.spec_port_names(), k)
            == key_get(old_ci.spec_port_names(), k)
        &&& new_ci.spec_devs() == old_ci.spec_devs()
        &&& new_ci.spec_mem_init() == old_ci.spec_mem_init()
        &&& match key_get(old_ci.spec_port_names(), key) {
            Some(o) => if o != port { r.result_type is OkWithWarnings } else { r.result_type is AllOk },
            None => r.result_type is AllOk,
        }
    }
}

/// What the rule for `+param` does to a setting of its name: add a plain parameter.
pub open spec fn add_param_effect<T>(setting: &Setting, old_ci: CompilerInfo<T>, new_ci: CompilerInfo<T>, r: SettingActionResult) -> bool {
    let ps = setting.params@;
    let mi = old_ci.spec_mem_init();
    if !add_param_setting_ok(ps, mi) {
        r.result_type is Error && new_ci == old_ci
    } else {
        let j = mi.spec_just_pos()->0;
        &&& r.result_type is AllOk
        &&& new_ci.spec_mem_init().spec_bytes(j)
            == mi.spec_bytes(j).push(spec_parse_usize(ps[1].param@)->0 as u8)
        &&& forall|k: usize| k != j ==> #[trigger] new_ci.spec_mem_init().spec_bytes(k) == mi.spec_bytes(k)
        &&& new_ci.spec_port_names() == old_ci.spec_port_names()
        &&& new_ci.spec_devs() == old_ci.spec_devs()
    }
}

/// What the rule for `win-sz` does to a setting of its name: set the screen size.
pub open spec fn win_sz_effect<T>(setting: &Setting, old_ci: CompilerInfo<T>, new_ci: CompilerInfo<T>, r: SettingActionResult) -> bool {
    let ps = setting.params@;
    let mi = old_ci.spec_mem_init();
    if !win_sz_setting_ok(ps, mi) {
        r.result_type is Error && new_ci == old_ci
    } else {
        let w = mi.spec_win_pos()->0;
        let x = spec_parse_usize(ps[0].additional_params@[0]@)->0;
        let y = spec_parse_usize(ps[0].additional_params@[1]@)->0;
        &&& new_ci.spec_mem_init().spec_bytes(w) == mi.spec_bytes(w) + win_bytes(x, y)
        &&& forall|k: usize| k != w ==> #[trigger] new_ci.spec_mem_init().spec_bytes(k) == mi.spec_bytes(k)
        &&& new_ci.spec_port_names() == old_ci.spec_port_names()
        &&& new_ci.spec_devs() == old_ci.spec_devs()
        &&& if mi.spec_bytes(w).len() > 0 { r.result_type is OkWithWarnings } else { r.result_type is AllOk }
    }
}

/// Whether a setting is named for the rule of the parameters' cells (the
/// name with one `-` too few included).
pub open spec fn param_pos_named(setting: &Setting) -> bool {
    let n = setting_name(setting);
    n == Some("param-pos--just+win"@) || n == Some("param-pos-jw"@) || n == Some("param-pos-just+win"@)
}

/// Whether a `param-pos--just+win:j:w` setting is written right and can
/// be taken: two different cells, and nothing put in the initial memory.
pub open spec fn param_pos_setting_ok(ps: Seq<SettingOneParam>, mi: MemInit) -> bool {
    &&& ps.len() == 3
    &&& ps[0].additional_params@.len() == 0
    &&& spec_parse_usize(ps[1].param@) is Some
    &&& spec_parse_usize(ps[2].param@) is Some
    &&& spec_parse_usize(ps[1].param@)->0 != spec_parse_usize(ps[2].param@)->0
    &&& mi.spec_len() == 0
}

/// What the rule of the parameters' cells does to a setting of its names.
pub open spec fn param_pos_effect<T>(setting: &Setting, old_ci: CompilerInfo<T>, new_ci: CompilerInfo<T>, r: SettingActionResult) -> bool {
    let ps = setting.params@;
    if setting_name(setting) == Some("param-pos-just+win"@) || !param_pos_setting_ok(ps, old_ci.spec_mem_init()) {
        r.result_type is Error && !r.parent_must_process && new_ci == old_ci
    } else {
        &&& r.result_type is AllOk
        &&& r.parent_must_process
        &&& new_ci.spec_mem_init().spec_just_pos() == spec_parse_usize(ps[1].param@)
        &&& new_ci.spec_mem_init().spec_win_pos() == spec_parse_usize(ps[2].param@)
        &&& new_ci.spec_mem_init().spec_entries() == old_ci.spec_mem_init().spec_entries()
        &&& new_ci.spec_port_names() == old_ci.spec_port_names()
        &&& new_ci.spec_devs() == old_ci.spec_devs()
    }
}

/// What a rule does to a setting that it takes.
pub open spec fn rule_effect<T>(rule: SettingRule, setting: &Setting, old_ci: CompilerInfo<T>, new_ci: CompilerInfo<T>, r: SettingActionResult) -> bool {
    match rule {
        SettingRule::WinSz => win_sz_effect(setting, old_ci, new_ci, r),
        SettingRule::AddDev => add_dev_effect(setting, old_ci, new_ci, r),
        SettingRule::AddParam => add_param_effect(setting, old_ci, new_ci, r),
        SettingRule::PortName => port_name_effect(setting, old_ci, new_ci, r),
        SettingRule::DisAllDev => new_ci.spec_devs().len() == 0,
        SettingRule::ParamPosSetJw => param_pos_effect(setting, old_ci, new_ci, r),
        SettingRule::DelAllPortName => new_ci.spec_port_names().len() == 0,
    }
}

/// Whether a rule answers a setting at all (its result is not `NoSatisfy`).
pub open spec fn rule_takes(rule: SettingRule, setting: &Setting) -> bool {
    let n = setting_name(setting);
    match rule {
        SettingRule::WinSz => n == Some("win-sz"@),
        SettingRule::AddDev => n == Some("dev"@),
        SettingRule::AddParam => n == Some("+param"@),
        SettingRule::PortName => n == Some("port-name"@),
        SettingRule::DisAllDev => n == Some("dis-all-dev"@),
        SettingRule::ParamPosSetJw => param_pos_named(setting),
        SettingRule::DelAllPortName => n == Some("del-all-port-name"@) || n == Some("del-all-pn"@),
    }
}

/// Whether a rule takes a setting rightly, with the compiler's data `ci`
/// as it stands.
pub open spec fn rule_fits<T>(rule: SettingRule, setting: &Setting, ci: CompilerInfo<T>) -> bool {
    let ps = setting.params@;
    &&& rule_takes(rule, setting)
    &&& match rule {
        SettingRule::WinSz => win_sz_setting_ok(ps, ci.spec_mem_init()),
        SettingRule::AddDev => dev_setting_ok(ps),
        SettingRule::AddParam => add_param_setting_ok(ps, ci.spec_mem_init()),
        SettingRule::PortName => port_name_setting_ok(ps),
        SettingRule::DisAllDev => true,
        SettingRule::ParamPosSetJw => setting_name(setting) != Some("param-pos-just+win"@)
            && param_pos_setting_ok(ps, ci.spec_mem_init()),
        SettingRule::DelAllPortName => true,
    }
}

/// Whether a rule's right result asks the including file to process the
/// setting too.
pub open spec fn rule_passes_up(rule: SettingRule) -> bool {
    rule is DisAllDev || rule is DelAllPortName || rule is ParamPosSetJw
}

impl SettingActions {
    pub closed spec fn spec_actions(&self) -> Seq<SettingRule> { self.actions@ }

    pub fn new() -> (r: Self)
        ensures r.spec_actions() == Seq::<SettingRule>::empty(),
    {
        Self { actions: Vec::new() }
    }

    pub fn add_action(&mut self, action: SettingRule)
        ensures final(self).spec_actions() == old(self).spec_actions().push(action),
    {
        self.actions.push(action)
    }

    /// Try the rules in order: the first that takes the setting rightly
    /// gives the result; else the last error, else `NoSatisfy`.
    pub fn make_setting_action<T>(&self, setting: &Setting, c_info: &mut CompilerInfo<T>) -> (r: SettingActionResult)
        requires
            old(c_info).wf(),
        ensures
            final(c_info).wf(),
            final(c_info).spec_program() == old(c_info).spec_program(),
            final(c_info).spec_macros() == old(c_info).spec_macros(),
            final(c_info).spec_inter_info() == old(c_info).spec_inter_info(),
            r.result_type.spec_right_rule()
                <==> exists|i: int| 0 <= i < self.spec_actions().len() && rule_fits(#[trigger] self.spec_actions()[i], setting, *old(c_info)),
            forall|i: int| 0 <= i < self.spec_actions().len() && rule_fits(#[trigger] self.spec_actions()[i], setting, *old(c_info))
                && (forall|j: int| 0 <= j < i ==> !rule_fits(self.spec_actions()[j], setting, *old(c_info)))
                ==> r.parent_must_process == rule_passes_up(self.spec_actions()[i])
                    && rule_effect(self.spec_actions()[i], setting, *old(c_info), *final(c_info), r),
            !r.result_type.spec_right_rule() ==> {
                &&& *final(c_info) == *old(c_info)
                &&& !r.parent_must_process
                &&& (r.result_type is Error <==> exists|i: int| 0 <= i < self.spec_actions().len()
                    && rule_takes(#[trigger] self.spec_actions()[i], setting))
                &&& (r.result_type is NoSatisfy <==> forall|i: int| 0 <= i < self.spec_actions().len()
                    ==> !rule_takes(#[trigger] self.spec_actions()[i], setting))
                &&& r.result_type is Error ==> exists|i: int| 0 <= i < self.spec_actions().len()
                    && rule_takes(#[trigger] self.spec_actions()[i], setting)
                    && (forall|j: int| i < j < self.spec_actions().len() ==> !rule_takes(self.spec_actions()[j], setting))
                    && rule_effect(self.spec_actions()[i], setting, *old(c_info), *old(c_info), r)
            },
    {
        let mut last_error: Option<SettingActionResult> = None;
        let ghost mut last_j: int = 0;
        let mut i: usize = 0;
        while i < self.actions.len()
            invariant
                i <= self.actions@.len(),
                *c_info == *old(c_info),
                self.spec_actions() == self.actions@,
                forall|j: int| 0 <= j < i ==> !rule_fits(#[trigger] self.spec_actions()[j], setting, *old(c_info)),
                last_error matches Some(e) ==> e.result_type is Error && !e.parent_must_process,
                last_error matches Some(e) ==> 0 <= last_j < i && rule_takes(self.spec_actions()[last_j], setting)
                    && (forall|j: int| last_j < j < i ==> !rule_takes(#[trigger] self.spec_actions()[j], setting))
                    && rule_effect(self.spec_actions()[last_j], setting, *old(c_info), *old(c_info), e),
                last_error is None <==> forall|j: int| 0 <= j < i ==> !rule_takes(#[trigger] self.spec_actions()[j], setting),
                c_info.wf(),
                c_info.spec_program() == old(c_info).spec_program(),
                c_info.spec_macros() == old(c_info).spec_macros(),
                c_info.spec_inter_info() == old(c_info).spec_inter_info(),
            decreases self.actions@.len() - i,
        {
            let res = Self::apply(self.actions[i], setting, c_info);
            if res.is_right_rule() {
                assert(rule_fits(self.spec_actions()[i as int], setting, *old(c_info)));
                return res
            }
            if res.is_error() {
                last_error = Some(res);
                proof { last_j = i as int; }
            }
            i = i + 1;
        }
        match last_error {
            Some(e) => e,
            None => SettingActionResult::new_no(),
        }
    }

    fn apply<T>(rule: SettingRule, setting: &Setting, c_info: &mut CompilerInfo<T>) -> (r: SettingActionResult)
        requires
            old(c_info).wf(),
        ensures
            final(c_info).wf(),
            final(c_info).spec_program() == old(c_info).spec_program(),
            final(c_info).spec_macros() == old(c_info).spec_macros(),
            final(c_info).spec_inter_info() == old(c_info).spec_inter_info(),
            r.result_type is NoSatisfy <==> !rule_takes(rule, setting),
            r.result_type.spec_right_rule() <==> rule_fits(rule, setting, *old(c_info)),
            !rule_fits(rule, setting, *old(c_info)) ==> *final(c_info) == *old(c_info) && !r.parent_must_process,
            rule_fits(rule, setting, *old(c_info)) ==> r.parent_must_process == rule_passes_up(rule),
            rule_takes(rule, setting) ==> rule_effect(rule, setting, *old(c_info), *final(c_info), r),
    {
        match rule {
            SettingRule::WinSz => Self::std_action_win_sz(setting, c_info),
            SettingRule::AddDev => Self::std_action_add_dev(setting, c_info),
            SettingRule::AddParam => Self::std_action_add_param(setting, c_info),
            SettingRule::PortName => Self::std_action_port_name(setting, c_info),
            SettingRule::DisAllDev => Self::std_action_dis_all_dev(setting, c_info),
            SettingRule::ParamPosSetJw => Self::std_action_param_pos_set_jw(setting, c_info),
            SettingRule::DelAllPortName => Self::std_action_del_all_port_name(setting, c_info),
        }
    }

    /// `'dev[port]:name'`: connect device `name` to the port (any port
    /// without `[port]`); the name of the device replaced gives a warning.
    /// The device name is not checked against the known devices.
    pub fn std_action_add_dev<T>(setting: &Setting, c_info: &mut CompilerInfo<T>) -> (r: SettingActionResult)
        requires
            old(c_info).wf(),
        ensures
            final(c_info).wf(),
            final(c_info).spec_program() == old(c_info).spec_program(),
            final(c_info).spec_macros() == old(c_info).spec_macros(),
            final(c_info).spec_inter_info() == old(c_info).spec_inter_info(),
            setting_name(setting) != Some("dev"@) ==> r.result_type is NoSatisfy && *final(c_info) == *old(c_info),
            setting_name(setting) == Some("dev"@) ==> !(r.result_type is NoSatisfy),
            !r.parent_must_process,
            setting_name(setting) == Some("dev"@) ==> add_dev_effect(setting, *old(c_info), *final(c_info), r),
    {
        if setting.params.len() < 1 { return SettingActionResult::new_no() }
        if !is_lit(&setting.params[0].param, "dev") { return SettingActionResult::new_no() }
        if setting.params.len() == 1 { return SettingActionResult::new_error("after dev must stay dev name.\ngeneral form: 'dev[dev_port]:dev-name'") }
        if setting.params.len() > 2 { return SettingActionResult::new_error("too many parameters for dev setting") }
        if setting.params[1].param.as_str().is_empty() { return SettingActionResult::new_error("empty device name") }
        if setting.params[0].additional_params.len() > 1 { return SettingActionResult::new_error("too many aditional params for dev (was 'dev[x|y]' must 'dev[x]')") }
        if setting.params[1].additional_params.len() > 0 { return SettingActionResult::new_error("too many aditional params for dev-name (was 'dev[...]:x[y]' must 'dev[...]:x')") }

        let dev_param = &setting.params[0].additional_params;
        let dev_name = &setting.params[1].param;
        if !right_std_dev_name(dev_name.as_str()) {
            let mut e = owned("bad device name: ");
            string_push_str(&mut e, dev_name.as_str());
            return SettingActionResult::new_error_s(e);
        }

        let port = if dev_param.len() == 0 {
            Port::new_any()
        } else {
            let p0 = str_to_chars(dev_param[0].as_str());
            let is_dev_num = p0.len() > 0 && all_digits_exec(p0.as_slice());
            if Port::right_port_name(dev_param[0].as_str()) || is_dev_num {
                Port::new(dev_param[0].as_str())
            } else {
                let mut e = owned("wrong port name: ");
                string_push_str(&mut e, dev_param[0].as_str());
                return SettingActionResult::new_error_s(e);
            }
        };

        let name_copy = dev_name.clone();
        assert(name_copy@ == dev_name@);
        assert(port.view() == spec_dev_port(setting.params@[0].additional_params@));
        proof { crate::compiler::compiler_info::lemma_port_index(c_info.spec_devs(), port.view()); }
        match c_info.add_dev(port, name_copy) {
            Some(prev_name) => {
                let mut w = owned("device [");
                string_push_str(&mut w, dev_name.as_str());
                string_push_str(&mut w, "] stay instead device [");
                string_push_str(&mut w, prev_name.as_str());
                string_push_str(&mut w, "]");
                SettingActionResult::new_warning_s(w, false)
            }
            None => SettingActionResult::new_ok(false),
        }
    }

    fn std_action_only_name<T>(setting: &Setting, c_info: &mut CompilerInfo<T>, is_devs: bool) -> (r: SettingActionResult)
        requires
            old(c_info).wf(),
            setting.params@.len() >= 1,
        ensures
            final(c_info).wf(),
            final(c_info).spec_program() == old(c_info).spec_program(),
            final(c_info).spec_macros() == old(c_info).spec_macros(),
            final(c_info).spec_inter_info() == old(c_info).spec_inter_info(),
            is_devs ==> final(c_info).spec_devs().len() == 0 && final(c_info).spec_port_names() == old(c_info).spec_port_names(),
            !is_devs ==> final(c_info).spec_port_names().len() == 0 && final(c_info).spec_devs() == old(c_info).spec_devs(),
            r.result_type.spec_right_rule(),
            r.parent_must_process,
    {
        if is_devs { c_info.clear_devs(); } else { c_info.clear_port_names(); }
        if setting.params[0].additional_params.len() != 0 || setting.params.len() != 1 {
            SettingActionResult::new_warning("waste params", true)
        } else {
            SettingActionResult::new_ok(true)
        }
    }

    /// `'dis-all-dev'`: disconnect all devices (extra parameters give a
    /// warning); the including file processes it too.
    pub fn std_action_dis_all_dev<T>(setting: &Setting, c_info: &mut CompilerInfo<T>) -> (r: SettingActionResult)
        requires
            old(c_info).wf(),
        ensures
            final(c_info).wf(),
            final(c_info).spec_program() == old(c_info).spec_program(),
            final(c_info).spec_macros() == old(c_info).spec_macros(),
            final(c_info).spec_inter_info() == old(c_info).spec_inter_info(),
            setting_name(setting) != Some("dis-all-dev"@) ==> r.result_type is NoSatisfy && *final(c_info) == *old(c_info)
                && !r.parent_must_process,
            setting_name(setting) == Some("dis-all-dev"@) ==> r.result_type.spec_right_rule() && r.parent_must_process
                && final(c_info).spec_devs().len() == 0,
    {
        if setting.params.len() < 1 { return SettingActionResult::new_no() }
        if !is_lit(&setting.params[0].param, "dis-all-dev") { return SettingActionResult::new_no() }
        Self::std_action_only_name(setting, c_info, true)
    }

    /// `'del-all-port-name'` or `'del-all-pn'`: forget all port names
    /// (extra parameters give a warning); the including file processes it
    /// too.
    pub fn std_action_del_all_port_name<T>(setting: &Setting, c_info: &mut CompilerInfo<T>) -> (r: SettingActionResult)
        requires
            old(c_info).wf(),
        ensures
            final(c_info).wf(),
            final(c_info).spec_program() == old(c_info).spec_program(),
            final(c_info).spec_macros() == old(c_info).spec_macros(),
            final(c_info).spec_inter_info() == old(c_info).spec_inter_info(),
            setting_name(setting) != Some("del-all-port-name"@) && setting_name(setting) != Some("del-all-pn"@) ==>
                r.result_type is NoSatisfy && *final(c_info) == *old(c_info) && !r.parent_must_process,
            setting_name(setting) == Some("del-all-port-name"@) || setting_name(setting) == Some("del-all-pn"@) ==>
                r.result_type.spec_right_rule() && r.parent_must_process && final(c_info).spec_port_names().len() == 0,
    {
        if setting.params.len() < 1 { return SettingActionResult::new_no() }
        if !is_lit(&setting.params[0].param, "del-all-port-name") && !is_lit(&setting.params[0].param, "del-all-pn") {
            return SettingActionResult::new_no()
        }
        Self::std_action_only_name(setting, c_info, false)
    }

    /// `'param-pos--just+win:j:w'` (or `'param-pos-jw:j:w'`): the cells of
    /// the plain and of the screen parameters, two different cells, set
    /// only while nothing is put in the initial memory; the including file
    /// processes it too. The name `param-pos-just+win` gets an error that
    /// suggests the right one.
    pub fn std_action_param_pos_set_jw<T>(setting: &Setting, c_info: &mut CompilerInfo<T>) -> (r: SettingActionResult)
        requires
            old(c_info).wf(),
        ensures
            final(c_info).wf(),
            final(c_info).spec_program() == old(c_info).spec_program(),
            final(c_info).spec_macros() == old(c_info).spec_macros(),
            final(c_info).spec_inter_info() == old(c_info).spec_inter_info(),
            !param_pos_named(setting) ==> r.result_type is NoSatisfy && *final(c_info) == *old(c_info)
                && !r.parent_must_process,
            param_pos_named(setting) ==> param_pos_effect(setting, *old(c_info), *final(c_info), r),
    {
        if setting.params.len() < 1 { return SettingActionResult::new_no() }
        let name = &setting.params[0].param;
        if !is_lit(name, "param-pos--just+win") && !is_lit(name, "param-pos-jw") {
            if is_lit(name, "param-pos-just+win") {
                return SettingActionResult::new_error("maybe you want to write 'param-pos--just+win' (twiced \"-\")")
            }
            return SettingActionResult::new_no()
        }
        proof {
            reveal_strlit("param-pos-just+win");
            reveal_strlit("param-pos--just+win");
            reveal_strlit("param-pos-jw");
            assert("param-pos--just+win"@.len() == 19);
            assert("param-pos-jw"@.len() == 12);
            assert("param-pos-just+win"@.len() == 18);
        }
        if setting.params.len() != 3 { return SettingActionResult::new_error("here must be name and two uszie params") }
        if setting.params[0].additional_params.len() != 0 { return SettingActionResult::new_error("excess additional params!") }

        let p1 = str_to_chars(setting.params[1].param.as_str());
        let p2 = str_to_chars(setting.params[2].param.as_str());
        let j_param = match parse_usize(p1.as_slice()) {
            Some(j) => j,
            None => { return SettingActionResult::new_error("param must be usize; for example: 'param-pos--just+win : 1 : 0'") }
        };
        let w_param = match parse_usize(p2.as_slice()) {
            Some(w) => w,
            None => { return SettingActionResult::new_error("param must be usize; for example: 'param-pos--just+win : 1 : 0'") }
        };
        if j_param == w_param { return SettingActionResult::new_error("param pos number must be different!") }
        if !c_info.get_mem_init().is_empty() {
            return SettingActionResult::new_error("mem already initialized, change param pos can only be done before it!")
        }
        assert(setting_name(setting) != Some("param-pos-just+win"@));
        assert(spec_parse_usize(setting.params@[1].param@) == Some(j_param));
        assert(spec_parse_usize(setting.params@[2].param@) == Some(w_param));
        assert(param_pos_setting_ok(setting.params@, c_info.spec_mem_init()));
        let mut mi = c_info.take_mem_init();
        let done = mi.set_param_pos(j_param, w_param);
        assert(done);
        c_info.set_mem_init(mi);
        SettingActionResult::new_ok(true)
    }

    /// `'port-name:name:n'`: map a right port name to port `n`; a change of
    /// the port gives a warning.
    pub fn std_action_port_name<T>(setting: &Setting, c_info: &mut CompilerInfo<T>) -> (r: SettingActionResult)
        requires
            old(c_info).wf(),
        ensures
            final(c_info).wf(),
            final(c_info).spec_program() == old(c_info).spec_program(),
            final(c_info).spec_macros() == old(c_info).spec_macros(),
            final(c_info).spec_inter_info() == old(c_info).spec_inter_info(),
            setting_name(setting) != Some("port-name"@) ==> r.result_type is NoSatisfy && *final(c_info) == *old(c_info),
            setting_name(setting) == Some("port-name"@) ==> !(r.result_type is NoSatisfy),
            !r.parent_must_process,
            setting_name(setting) == Some("port-name"@) ==> port_name_effect(setting, *old(c_info), *final(c_info), r),
    {
        if setting.params.len() < 1 { return SettingActionResult::new_no() }
        if !is_lit(&setting.params[0].param, "port-name") { return SettingActionResult::new_no() }
        if setting.params.len() != 3 { return SettingActionResult::new_error("here must be name and 2 params") }
        if setting.params[0].additional_params.len() != 0 { return SettingActionResult::new_error("excess additional params!") }

        let port_name = &setting.params[1].param;
        if !Port::right_port_name(port_name.as_str()) {
            let mut e = owned("wrong port name: ");
            string_push_str(&mut e, port_name.as_str());
            return SettingActionResult::new_error_s(e);
        }
        let port_name = Port::new(port_name.as_str()).to_name();

        let p2 = str_to_chars(setting.params[2].param.as_str());
        let port = match parse_usize(p2.as_slice()) {
            Some(p) => p,
            None => {
                let mut e = owned("wrong port number: ");
                string_push_str(&mut e, setting.params[2].param.as_str());
                return SettingActionResult::new_error_s(e);
            }
        };

        match c_info.add_port(port_name, port) {
            Some(prev_port) => {
                let mut w = owned("! changed port position from ");
                string_push_str(&mut w, usize_to_string(port).as_str());
                string_push_str(&mut w, " to ");
                string_push_str(&mut w, usize_to_string(prev_port).as_str());
                SettingActionResult::new_warning_s(w, false)
            }
            None => SettingActionResult::new_ok(false),
        }
    }

    /// `'+param:n'`: put byte `n` among the plain parameters (their place
    /// must be set).
    pub fn std_action_add_param<T>(setting: &Setting, c_info: &mut CompilerInfo<T>) -> (r: SettingActionResult)
        requires
            old(c_info).wf(),
        ensures
            final(c_info).wf(),
            final(c_info).spec_program() == old(c_info).spec_program(),
            final(c_info).spec_macros() == old(c_info).spec_macros(),
            final(c_info).spec_inter_info() == old(c_info).spec_inter_info(),
            setting_name(setting) != Some("+param"@) ==> r.result_type is NoSatisfy && *final(c_info) == *old(c_info),
            setting_name(setting) == Some("+param"@) ==> !(r.result_type is NoSatisfy),
            !r.parent_must_process,
            setting_name(setting) == Some("+param"@) ==> add_param_effect(setting, *old(c_info), *final(c_info), r),
    {
        if setting.params.len() < 1 { return SettingActionResult::new_no() }
        if !is_lit(&setting.params[0].param, "+param") { return SettingActionResult::new_no() }
        if !c_info.get_mem_init().can_add_just_param() { return SettingActionResult::new_error("cant add param (seems like position of just-param is not seted)") }
        if setting.params.len() != 2 { return SettingActionResult::new_error("here must be name and 1 param") }
        if setting.params[0].additional_params.len() != 0 { return SettingActionResult::new_error("excess additional params!") }

        let p1 = str_to_chars(setting.params[1].param.as_str());
        let num = match parse_usize(p1.as_slice()) {
            Some(n) => n,
            None => {
                let mut e = owned("wrong number: ");
                string_push_str(&mut e, setting.params[1].param.as_str());
                return SettingActionResult::new_error_s(e);
            }
        };
        if num > 255 {
            let mut e = owned("too big number(must be in [0; 2^8) ): ");
            string_push_str(&mut e, usize_to_string(num).as_str());
            return SettingActionResult::new_error_s(e);
        }
        let mut mi = c_info.take_mem_init();
        mi.add_just_param(num as u8);
        c_info.set_mem_init(mi);
        SettingActionResult::new_ok(false)
    }

    /// `'win-sz[x|y]'`: the screen size; each below 2^24, put as three
    /// little-endian bytes each after the screen cell (its place must be
    /// set); bytes already there give a warning.
    pub fn std_action_win_sz<T>(setting: &Setting, c_info: &mut CompilerInfo<T>) -> (r: SettingActionResult)
        requires
            old(c_info).wf(),
        ensures
            final(c_info).wf(),
            final(c_info).spec_program() == old(c_info).spec_program(),
            final(c_info).spec_macros() == old(c_info).spec_macros(),
            final(c_info).spec_inter_info() == old(c_info).spec_inter_info(),
            setting_name(setting) != Some("win-sz"@) ==> r.result_type is NoSatisfy && *final(c_info) == *old(c_info),
            setting_name(setting) == Some("win-sz"@) ==> !(r.result_type is NoSatisfy),
            !r.parent_must_process,
            setting_name(setting) == Some("win-sz"@) ==> win_sz_effect(setting, *old(c_info), *final(c_info), r),
    {
        if setting.params.len() < 1 { return SettingActionResult::new_no() }
        if !is_lit(&setting.params[0].param, "win-sz") { return SettingActionResult::new_no() }
        if !c_info.get_mem_init().can_add_win_param() { return SettingActionResult::new_error("cant add param (seems like position of just-param is not seted)") }
        if setting.params.len() != 1 { return SettingActionResult::new_error("here must be name and 1 param") }
        if setting.params[0].additional_params.len() != 2 { return SettingActionResult::new_error("after 'win-sz' must stay 2 additional params") }

        let xs = str_to_chars(setting.params[0].additional_params[0].as_str());
        let ys = str_to_chars(setting.params[0].additional_params[1].as_str());
        let x_sz = match parse_usize(xs.as_slice()) { Some(x) => x, None => { return SettingActionResult::new_error("wrong win x szie") } };
        let y_sz = match parse_usize(ys.as_slice()) { Some(y) => y, None => { return SettingActionResult::new_error("wrong win y szie") } };

        let max_sz: usize = 256 * 256 * 256 - 1;
        if x_sz > max_sz { return SettingActionResult::new_error("too big win x szie") }
        if y_sz > max_sz { return SettingActionResult::new_error("too big win y szie") }

        let already_in_win = c_info.get_mem_init().len_in_win_mmc() > 0;

        let mut win_mmc: Vec<u8> = Vec::new();
        win_mmc.push((x_sz % 256) as u8);
        win_mmc.push(((x_sz / 256) % 256) as u8);
        win_mmc.push((x_sz / 65536) as u8);
        win_mmc.push((y_sz % 256) as u8);
        win_mmc.push(((y_sz / 256) % 256) as u8);
        win_mmc.push((y_sz / 65536) as u8);

        assert(win_mmc@ =~= win_bytes(x_sz, y_sz));
        let win_pos = c_info.get_mem_init().get_win_pos();
        let mut mi = c_info.take_mem_init();
        mi.add_bytes(win_pos, win_mmc.as_slice());
        c_info.set_mem_init(mi);

        if already_in_win { return SettingActionResult::new_warning("in windows cell already exist params!", false) }
        SettingActionResult::new_ok(false)
    }

    /// Add the standard rules, in the order they are tried.
    pub fn add_std_actions(actions: &mut Self)
        ensures
            final(actions).spec_actions() == old(actions).spec_actions() + seq![
                SettingRule::WinSz, SettingRule::AddDev, SettingRule::AddParam, SettingRule::PortName,
                SettingRule::DisAllDev, SettingRule::ParamPosSetJw, SettingRule::DelAllPortName,
            ],
    {
        actions.add_action(SettingRule::WinSz);
        actions.add_action(SettingRule::AddDev);
        actions.add_action(SettingRule::AddParam);
        actions.add_action(SettingRule::PortName);
        actions.add_action(SettingRule::DisAllDev);
        actions.add_action(SettingRule::ParamPosSetJw);
        actions.add_action(SettingRule::DelAllPortName);
        assert(actions.spec_actions() =~= old(actions).spec_actions() + seq![
                SettingRule::WinSz, SettingRule::AddDev, SettingRule::AddParam, SettingRule::PortName,
                SettingRule::DisAllDev, SettingRule::ParamPosSetJw, SettingRule::DelAllPortName,
            ]);
    }
}

/// Whether every character is a decimal digit.
pub fn all_digits_exec(s: &[char]) -> (r: bool)
    ensures
        r == (forall|i: int| 0 <= i < s@.len() ==> '0' <= #[trigger] s@[i] <= '9'),
{
    let mut i: usize = 0;
    while i < s.len()
        invariant
            i <= s@.len(),
            forall|j: int| 0 <= j < i ==> '0' <= #[trigger] s@[j] <= '9',
        decreases s@.len() - i,
    {
        if !('0' <= s[i] && s[i] <= '9') { return false }
        i = i + 1;
    }
    true
}

}
