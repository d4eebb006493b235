use vstd::prelude::*;
use crate::general::text::str_to_chars;

verus! {

/// How a setting rule took a setting.
pub enum SettingActionResultType {
    /// another rule's setting
    NoSatisfy,
    /// most likely this rule's setting, but written wrong
    Error { error: String },
    /// this rule's setting, with warnings
    OkWithWarnings { warning: Vec<String> },
    /// this rule's setting, with no warning
    AllOk,
}

/// A string with the characters of `s`.
pub fn owned(s: &str) -> (r: String)
    ensures
        r@ == s@,
{
    let v = str_to_chars(s);
    crate::general::text::string_of(v.as_slice())
}

impl SettingActionResultType {
    pub fn new_ok() -> (r: Self)
        ensures r is AllOk,
    {
        Self::AllOk
    }

    pub fn new_no() -> (r: Self)
        ensures r is NoSatisfy,
    {
        Self::NoSatisfy
    }

    pub fn new_warning_s(warning: String) -> (r: Self)
        ensures r matches Self::OkWithWarnings { warning: w } && w@ == seq![warning],
    {
        let mut v: Vec<String> = Vec::new();
        v.push(warning);
        Self::OkWithWarnings { warning: v }
    }

    pub fn new_warning(warning: &str) -> (r: Self)
        ensures r matches Self::OkWithWarnings { warning: w } && w@.len() == 1 && w@[0]@ == warning@,
    {
        Self::new_warning_s(owned(warning))
    }

    pub fn new_error_s(error: String) -> (r: Self)
        ensures r matches Self::Error { error: e } && e == error,
    {
        Self::Error { error }
    }

    pub fn new_error(error: &str) -> (r: Self)
        ensures r matches Self::Error { error: e } && e@ == error@,
    {
        Self::Error { error: owned(error) }
    }

    pub fn is_ok(&self) -> (r: bool)
        ensures r == (*self is AllOk),
    {
        match self { Self::AllOk => true, _ => false }
    }

    pub fn is_no(&self) -> (r: bool)
        ensures r == (*self is NoSatisfy),
    {
        match self { Self::NoSatisfy => true, _ => false }
    }

    pub fn is_with_warning(&self) -> (r: bool)
        ensures r == (*self is OkWithWarnings),
    {
        match self { Self::OkWithWarnings { .. } => true, _ => false }
    }

    pub fn is_error(&self) -> (r: bool)
        ensures r == (*self is Error),
    {
        match self { Self::Error { .. } => true, _ => false }
    }

    /// Whether the setting was this rule's and right: `AllOk` or
    /// `OkWithWarnings`.
    pub open spec fn spec_right_rule(&self) -> bool {
        *self is AllOk || *self is OkWithWarnings
    }

    pub fn is_right_rule(&self) -> (r: bool)
        ensures r == self.spec_right_rule(),
    {
        self.is_ok() || self.is_with_warning()
    }

    pub fn get_warinings(self) -> (r: Option<Vec<String>>)
        ensures
            match self {
                Self::OkWithWarnings { warning } => r == Some(warning),
                _ => r is None,
            },
    {
        match self {
            Self::OkWithWarnings { warning } => Some(warning),
            _ => None,
        }
    }

    /// Add a warning to a right result: `AllOk` becomes `OkWithWarnings`.
    pub fn add_warning_s(&mut self, warning: String)
        requires
            old(self).spec_right_rule(),
        ensures
            match *old(self) {
                Self::OkWithWarnings { warning: w } => *final(self) matches Self::OkWithWarnings { warning: w2 } && w2@ == w@.push(warning),
                _ => *final(self) matches Self::OkWithWarnings { warning: w2 } && w2@ == seq![warning],
            },
    {
        match self {
            Self::OkWithWarnings { warning: w } => { w.push(warning); }
            _ => { *self = Self::new_warning_s(warning); }
        }
    }

    pub fn add_warning(&mut self, warning: &str)
        requires
            old(self).spec_right_rule(),
        ensures
            *final(self) is OkWithWarnings,
    {
        self.add_warning_s(owned(warning))
    }
}

/// A rule's result, and whether the including file must process the
/// setting too.
pub struct SettingActionResult {
    pub result_type: SettingActionResultType,
    pub parent_must_process: bool,
}

impl SettingActionResult {
    pub fn new_no() -> (r: Self)
        ensures r.result_type is NoSatisfy, !r.parent_must_process,
    {
        Self::new(SettingActionResultType::NoSatisfy, false)
    }

    pub fn new_ok(parent_must_process: bool) -> (r: Self)
        ensures r.result_type is AllOk, r.parent_must_process == parent_must_process,
    {
        Self::new(SettingActionResultType::AllOk, parent_must_process)
    }

    pub fn new_ok_need_in_parent() -> (r: Self)
        ensures r.result_type is AllOk, r.parent_must_process,
    {
        Self::new(SettingActionResultType::new_ok(), true)
    }

    pub fn new_error_s(x: String) -> (r: Self)
        ensures r.result_type matches SettingActionResultType::Error { error: e } && e == x, !r.parent_must_process,
    {
        Self::new(SettingActionResultType::new_error_s(x), false)
    }

    pub fn new_error(x: &str) -> (r: Self)
        ensures r.result_type matches SettingActionResultType::Error { error: e } && e@ == x@, !r.parent_must_process,
    {
        Self::new(SettingActionResultType::new_error(x), false)
    }

    pub fn new_warning_s(x: String, parent_must_process: bool) -> (r: Self)
        ensures
            r.result_type matches SettingActionResultType::OkWithWarnings { warning: w } && w@ == seq![x],
            r.parent_must_process == parent_must_process,
    {
        Self::new(SettingActionResultType::new_warning_s(x), parent_must_process)
    }

    pub fn new_warning(x: &str, parent_must_process: bool) -> (r: Self)
        ensures
            r.result_type matches SettingActionResultType::OkWithWarnings { warning: w } && w@.len() == 1 && w@[0]@ == x@,
            r.parent_must_process == parent_must_process,
    {
        Self::new(SettingActionResultType::new_warning(x), parent_must_process)
    }

    pub fn is_right_rule(&self) -> (r: bool)
        ensures r == self.result_type.spec_right_rule(),
    {
        self.result_type.is_right_rule()
    }

    pub fn is_error(&self) -> (r: bool)
        ensures r == (self.result_type is Error),
    {
        self.result_type.is_error()
    }

    pub fn new(result_type: SettingActionResultType, parent_must_process: bool) -> (r: Self)
        ensures r.result_type == result_type, r.parent_must_process == parent_must_process,
    {
        Self { result_type, parent_must_process }
    }

    pub fn parent_must_process(&self) -> (r: bool)
        ensures r == self.parent_must_process,
    {
        self.parent_must_process
    }

    pub fn into_result(self) -> (r: SettingActionResultType)
        ensures r == self.result_type,
    {
        self.result_type
    }

    pub fn get_warinings(self) -> (r: Option<Vec<String>>)
        ensures
            match self.result_type {
                SettingActionResultType::OkWithWarnings { warning } => r == Some(warning),
                _ => r is None,
            },
    {
        self.result_type.get_warinings()
    }

    pub fn add_warning(&mut self, warning: String)
        requires
            old(self).result_type.spec_right_rule(),
        ensures
            final(self).result_type is OkWithWarnings,
            final(self).parent_must_process == old(self).parent_must_process,
    {
        self.result_type.add_warning_s(warning)
    }

    pub fn add_warning_by_ref(&mut self, warning: &str)
        requires
            old(self).result_type.spec_right_rule(),
        ensures
            final(self).result_type is OkWithWarnings,
            final(self).parent_must_process == old(self).parent_must_process,
    {
        self.result_type.add_warning(warning)
    }
}

}
