use vstd::prelude::*;
use super::dev_name::{DevName, param_get};
use super::dev_constructor::{DevCtorErr, DevCtorWarn, DevCtorHelper, spec_parse_flag, unused_warns, is_used};
use crate::general::text::{str_is, spec_parse_usize, string_push_str};

verus! {

/// The devices that the standard tools know.
#[derive(Clone, Copy, Debug, PartialEq, Eq, Structural, Hash)]
pub enum StdDevName {
    Console,
    Win,
    CellMem,
    CmdMem,
}

/// The window devices that the standard tools know.
pub enum StdWinDev {
    Screen,
}

impl StdWinDev {
    pub fn is_screen(&self) -> (r: bool)
        ensures r == (*self is Screen),
    {
        match self { Self::Screen => true }
    }
}

/// A standard device as made from its name: which one, with the values of
/// its parameters. The memories take their sizes from the machine; the
/// consoles read and write the terminal.
#[derive(Clone, Copy, Debug, PartialEq, Eq, Structural)]
pub enum StdDevKind {
    Cem,
    Com,
    ConsoleUtf8 { print_state: bool },
    ConsoleAscii { print_state: bool },
    ConsoleNum { new_line: usize },
}

/// A device made, and the warnings of making it.
pub struct DevCtorOk {
    pub dev: StdDevKind,
    pub warns: Vec<DevCtorWarn>,
}

impl DevCtorOk {
    pub fn new(dev: StdDevKind, warns: Vec<DevCtorWarn>) -> (r: Self)
        ensures r.dev == dev, r.warns == warns,
    {
        Self { dev, warns }
    }
}

/// Makes a device from its parameters. Its users implement it.
pub trait DevCtor {
    fn dev_ctor(dev_name_params: &Vec<(String, String)>) -> Result<DevCtorOk, DevCtorErr>;
}

/// How many printed numbers a number console puts on one line by default.
pub const DEFAULT_NEW_LINE_FREQ: usize = 10;

pub open spec fn is_cem_name(n: Seq<char>) -> bool {
    n == "CEM"@ || n == "cem"@ || n == "std-cem"@ || n == "STD-CEM"@
}

pub open spec fn is_com_name(n: Seq<char>) -> bool {
    n == "COM"@ || n == "com"@ || n == "std-com"@ || n == "STD-COM"@
}

/// The warnings of a device that used the parameters `used`: one for each
/// other parameter, where fewer were used than there are.
pub open spec fn ctor_warns_ok(warns: Seq<DevCtorWarn>, ps: Seq<(String, String)>, used: Seq<String>) -> bool {
    if ps.len() > used.len() {
        &&& warns.len() == unused_warns(ps, used).len()
        &&& forall|i: int| 0 <= i < warns.len() ==>
            ((#[trigger] warns[i]) matches DevCtorWarn::UnusedDevParam(n) && n@ == unused_warns(ps, used)[i])
    } else {
        warns.len() == 0
    }
}

/// The names used in reading parameter `k`: it, where it is given.
pub open spec fn used_of(ps: Seq<(String, String)>, k: Seq<char>, used: Seq<String>) -> bool {
    if param_get(ps, k) is Some {
        used.len() == 1 && used[0]@ == k
    } else {
        used.len() == 0
    }
}

fn finish_ctor(helper: DevCtorHelper, dev: StdDevKind) -> (r: DevCtorOk)
    requires
        helper.spec_warns().len() == 0,
    ensures
        r.dev == dev,
        ctor_warns_ok(r.warns@, helper.spec_params(), helper.spec_used()),
{
    let mut helper = helper;
    helper.add_unused_warn();
    let warns = helper.take_warn();
    proof {
        if helper.spec_params().len() > helper.spec_used().len() {
            assert forall|i: int| 0 <= i < warns@.len() implies
                ((#[trigger] warns@[i]) matches DevCtorWarn::UnusedDevParam(n) && n@ == unused_warns(helper.spec_params(), helper.spec_used())[i]) by {
                assert(warns@[0 + i] == warns@[i]);
            }
        }
    }
    DevCtorOk::new(dev, warns)
}

/// Make a standard device from its name: the cell memory (`CEM`, `cem`,
/// `std-cem`, `STD-CEM`) and the command memory (`COM`, ...) take no
/// parameter; `utf8-console` and `ascii-console` take `print-state` (`+` or
/// `-`, default `-`); `num-console` takes `new-line` (a number, default
/// `DEFAULT_NEW_LINE_FREQ`). A parameter not taken gives a warning; a bad
/// value or an unknown name, an error.
pub fn std_dev_constructor(dev_name: &DevName) -> (r: Result<DevCtorOk, DevCtorErr>)
    ensures
        ({
            let n = dev_name.spec_name();
            let ps = dev_name.spec_params();
            if is_cem_name(n) {
                r matches Ok(ok) && ok.dev == StdDevKind::Cem && ctor_warns_ok(ok.warns@, ps, Seq::empty())
            } else if is_com_name(n) {
                r matches Ok(ok) && ok.dev == StdDevKind::Com && ctor_warns_ok(ok.warns@, ps, Seq::empty())
            } else if n == "utf8-console"@ || n == "ascii-console"@ {
                let utf8 = n == "utf8-console"@;
                match param_get(ps, "print-state"@) {
                    None => r matches Ok(ok) && ok.dev == (if utf8 { StdDevKind::ConsoleUtf8 { print_state: false } }
                        else { StdDevKind::ConsoleAscii { print_state: false } }) && ctor_warns_ok(ok.warns@, ps, Seq::empty()),
                    Some(x) => match spec_parse_flag(x@) {
                        Some(f) => r matches Ok(ok) && ok.dev == (if utf8 { StdDevKind::ConsoleUtf8 { print_state: f } }
                            else { StdDevKind::ConsoleAscii { print_state: f } }),
                        None => r matches Err(DevCtorErr::BadParamValue { name, bad_value }) && name@ == "print-state"@ && bad_value == x,
                    },
                }
            } else if n == "num-console"@ {
                match param_get(ps, "new-line"@) {
                    None => r matches Ok(ok) && ok.dev == (StdDevKind::ConsoleNum { new_line: DEFAULT_NEW_LINE_FREQ })
                        && ctor_warns_ok(ok.warns@, ps, Seq::empty()),
                    Some(x) => match spec_parse_usize(x@) {
                        Some(v) => r matches Ok(ok) && ok.dev == (StdDevKind::ConsoleNum { new_line: v }),
                        None => r matches Err(DevCtorErr::BadParamValue { name, bad_value }) && name@ == "new-line"@ && bad_value == x,
                    },
                }
            } else {
                r matches Err(DevCtorErr::UnknownName(m)) && m@ == n
            }
        }),
{
    let name = dev_name.get_name();
    let params = dev_name.get_params();
    let helper = DevCtorHelper::new(params);
    assert(helper.spec_used() =~= Seq::<String>::empty());
    if name_is(name, "CEM") || name_is(name, "cem") || name_is(name, "std-cem") || name_is(name, "STD-CEM") {
        Ok(finish_ctor(helper, StdDevKind::Cem))
    } else if name_is(name, "COM") || name_is(name, "com") || name_is(name, "std-com") || name_is(name, "STD-COM") {
        Ok(finish_ctor(helper, StdDevKind::Com))
    } else if name_is(name, "utf8-console") || name_is(name, "ascii-console") {
        let utf8 = name_is(name, "utf8-console");
        let mut helper = helper;
        match helper.dev_ctor_parse_flag("print-state", false) {
            Ok(f) => {
                let dev = if utf8 { StdDevKind::ConsoleUtf8 { print_state: f } } else { StdDevKind::ConsoleAscii { print_state: f } };
                Ok(finish_ctor(helper, dev))
            }
            Err(e) => Err(e),
        }
    } else if name_is(name, "num-console") {
        let mut helper = helper;
        match helper.dev_ctor_parse("new-line", DEFAULT_NEW_LINE_FREQ) {
            Ok(v) => Ok(finish_ctor(helper, StdDevKind::ConsoleNum { new_line: v })),
            Err(e) => Err(e),
        }
    } else {
        let mut n = String::new();
        string_push_str(&mut n, name);
        Err(DevCtorErr::UnknownName(n))
    }
}

fn name_is(name: &str, lit: &str) -> (r: bool)
    ensures r == (name@ == lit@),
{
    str_is(name, crate::general::text::str_to_chars(lit).as_slice())
}

/// The window device of a name: `std-win` is the screen.
pub fn get_std_win_dev_type(dev_name: &DevName) -> (r: Option<StdWinDev>)
    ensures
        dev_name.spec_name() == "std-win"@ <==> r matches Some(StdWinDev::Screen),
        r is None <==> dev_name.spec_name() != "std-win"@,
{
    if name_is(dev_name.get_name(), "std-win") { Some(StdWinDev::Screen) } else { None }
}

impl DevCtor for super::cem::std_cem::DevStdCem {
    /// The cell memory takes no parameter: each one given is a warning.
    fn dev_ctor(dev_name_params: &Vec<(String, String)>) -> (r: Result<DevCtorOk, DevCtorErr>)
        ensures
            r matches Ok(ok) && ok.dev == StdDevKind::Cem && ctor_warns_ok(ok.warns@, dev_name_params@, Seq::empty()),
    {
        let helper = DevCtorHelper::new(dev_name_params);
        assert(helper.spec_used() =~= Seq::<String>::empty());
        Ok(finish_ctor(helper, StdDevKind::Cem))
    }
}

impl DevCtor for super::com::com::DevCom {
    /// The command memory takes no parameter: each one given is a warning.
    fn dev_ctor(dev_name_params: &Vec<(String, String)>) -> (r: Result<DevCtorOk, DevCtorErr>)
        ensures
            r matches Ok(ok) && ok.dev == StdDevKind::Com && ctor_warns_ok(ok.warns@, dev_name_params@, Seq::empty()),
    {
        let helper = DevCtorHelper::new(dev_name_params);
        assert(helper.spec_used() =~= Seq::<String>::empty());
        Ok(finish_ctor(helper, StdDevKind::Com))
    }
}

}
