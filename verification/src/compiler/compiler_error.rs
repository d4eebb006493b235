use vstd::prelude::*;
use super::compiler_pos::{CompilerPos, ExtCompilerPos};
use super::dif_part_helper::settings::ErrorSetting;
use super::dif_part_helper::setting_action_result::SettingActionResult;
use super::mnc_checker::mnc_checker::ChekerErrorMNC;

verus! {

/// What was open when the file ended.
#[derive(Clone, Copy, Debug, PartialEq, Eq, Structural)]
pub enum CompilerErrorUnexpEOF {
    NotClosedInclude,
    NotClosedMacro,
    NotClosedUseMacro,
}

/// Why an included file could not be merged.
pub enum IncludeError {
    MacrosAlreadyDefined { macro_name: String },
    MemInitMergeError { mmc: usize },
}

pub enum CompilerErrorType {
    UnknownCmd(char),
    FileOpenError,
    UnexpectedEOF,
    EmptyFileName,
    EmptyMacroName,
    BadMacroName(char),
    MacroAlreadyDefined,
    UnknownMacros(String),
    NotAllowedCompileCode,
    NotAllowedCompileMacros,
    NotAllowedCompileSettings,
    NotClosedWhile(Vec<CompilerPos>),
    ClosedWhileWithoutOpen,
    SettingError(ErrorSetting),
    SettingActionError(String, SettingActionResult),
    IncludeError(IncludeError),
    MacroNameCheckError { rule_checker_name: String, error: ChekerErrorMNC },
    /// `%%%` was awaited; the character found instead, if any
    ExpectedSpaceSep(Option<char>),
    Other(String),
}

impl CompilerErrorType {
    /// Every error but a file that cannot be opened has a position.
    pub open spec fn spec_need_pos(&self) -> bool {
        !(*self is FileOpenError)
    }

    pub fn need_pos(&self) -> (r: bool)
        ensures
            r == self.spec_need_pos(),
    {
        match self {
            Self::FileOpenError => false,
            _ => true,
        }
    }
}

/// An error, and where it came from: the place of the error first, then
/// the place in each file that brought in the next.
pub struct CompilerError {
    pub err_type: CompilerErrorType,
    pub err_stack_pos: Vec<ExtCompilerPos>,
}

impl CompilerError {
    /// The character found where `%%%` was awaited (`None` for any other
    /// error).
    pub open spec fn spec_space_sep_found(&self) -> Option<char> {
        match self.err_type {
            CompilerErrorType::ExpectedSpaceSep(x) => x,
            _ => None,
        }
    }

    pub fn new_file_open_err(file_name: String) -> (r: Self)
        ensures
            r.err_type is FileOpenError,
            r.err_stack_pos@.len() == 1,
            r.err_stack_pos@[0].pos is None,
            r.err_stack_pos@[0].file_name == file_name,
    {
        Self::new_wo_pos(CompilerErrorType::FileOpenError, file_name)
    }

    /// An error from a setting rule; the rule's result must be an error.
    pub fn new_setting_action_error(pos: CompilerPos, file_name: String, error: SettingActionResult, in_setting: String) -> (r: Self)
        requires
            !error.result_type.spec_right_rule(),
        ensures
            r.err_type matches CompilerErrorType::SettingActionError(s, e) && s == in_setting && e == error,
            r.err_stack_pos@.len() == 1,
            r.err_stack_pos@[0].pos == Some(pos), r.err_stack_pos@[0].file_name == file_name,
            r.err_stack_pos@[0].file_name == file_name,
    {
        Self::new(CompilerErrorType::SettingActionError(in_setting, error), pos, file_name)
    }

    /// An error with no position; only for an error that needs none.
    pub fn new_wo_pos(err_type: CompilerErrorType, file_name: String) -> (r: Self)
        requires
            !err_type.spec_need_pos(),
        ensures
            r.err_type == err_type,
            r.err_stack_pos@.len() == 1,
            r.err_stack_pos@[0].pos is None,
            r.err_stack_pos@[0].file_name == file_name,
    {
        let mut v: Vec<ExtCompilerPos> = Vec::new();
        v.push(ExtCompilerPos { pos: None, file_name });
        Self { err_type, err_stack_pos: v }
    }

    /// An error at `pos` of `file_name` (with no position when the error
    /// needs none).
    pub fn new(err_type: CompilerErrorType, pos: CompilerPos, file_name: String) -> (r: Self)
        ensures
            r.err_type == err_type,
            r.err_stack_pos@.len() == 1,
            r.err_stack_pos@[0].pos == if err_type.spec_need_pos() { Some(pos) } else { None::<CompilerPos> },
            r.err_stack_pos@[0].file_name == file_name,
    {
        if !err_type.need_pos() { return Self::new_wo_pos(err_type, file_name) }
        let mut v: Vec<ExtCompilerPos> = Vec::new();
        v.push(ExtCompilerPos { pos: Some(pos), file_name });
        Self { err_type, err_stack_pos: v }
    }

    /// Note the place `pos` of `file_name` that brought in the file of the error.
    pub fn add_err_pos(&mut self, pos: CompilerPos, file_name: String)
        ensures
            final(self).err_type == old(self).err_type,
            final(self).err_stack_pos@.len() == old(self).err_stack_pos@.len() + 1,
            forall|i: int| 0 <= i < old(self).err_stack_pos@.len() ==> final(self).err_stack_pos@[i] == old(self).err_stack_pos@[i],
            final(self).err_stack_pos@.last().pos == Some(pos),
            final(self).err_stack_pos@.last().file_name == file_name,
    {
        self.err_stack_pos.push(ExtCompilerPos { pos: Some(pos), file_name });
    }

    pub fn new_already_defined(pos: CompilerPos, file_name: String) -> (r: Self)
        ensures r.err_type is MacroAlreadyDefined, r.err_stack_pos@.len() == 1, r.err_stack_pos@[0].pos == Some(pos), r.err_stack_pos@[0].file_name == file_name,
    {
        Self::new(CompilerErrorType::MacroAlreadyDefined, pos, file_name)
    }

    pub fn new_cant_compile_code(pos: CompilerPos, file_name: String) -> (r: Self)
        ensures r.err_type is NotAllowedCompileCode, r.err_stack_pos@.len() == 1, r.err_stack_pos@[0].pos == Some(pos), r.err_stack_pos@[0].file_name == file_name,
    {
        Self::new(CompilerErrorType::NotAllowedCompileCode, pos, file_name)
    }

    pub fn new_cant_compile_macros(pos: CompilerPos, file_name: String) -> (r: Self)
        ensures r.err_type is NotAllowedCompileMacros, r.err_stack_pos@.len() == 1, r.err_stack_pos@[0].pos == Some(pos), r.err_stack_pos@[0].file_name == file_name,
    {
        Self::new(CompilerErrorType::NotAllowedCompileMacros, pos, file_name)
    }

    pub fn new_cant_compile_settings(pos: CompilerPos, file_name: String) -> (r: Self)
        ensures r.err_type is NotAllowedCompileSettings, r.err_stack_pos@.len() == 1, r.err_stack_pos@[0].pos == Some(pos), r.err_stack_pos@[0].file_name == file_name,
    {
        Self::new(CompilerErrorType::NotAllowedCompileSettings, pos, file_name)
    }

    pub fn new_empty_name(pos: CompilerPos, file_name: String) -> (r: Self)
        ensures r.err_type is EmptyFileName, r.err_stack_pos@.len() == 1, r.err_stack_pos@[0].pos == Some(pos), r.err_stack_pos@[0].file_name == file_name,
    {
        Self::new(CompilerErrorType::EmptyFileName, pos, file_name)
    }

    pub fn new_unexp_eof(pos: CompilerPos, file_name: String) -> (r: Self)
        ensures r.err_type is UnexpectedEOF, r.err_stack_pos@.len() == 1, r.err_stack_pos@[0].pos == Some(pos), r.err_stack_pos@[0].file_name == file_name,
    {
        Self::new(CompilerErrorType::UnexpectedEOF, pos, file_name)
    }

    pub fn new_unknown_macros(pos: CompilerPos, file_name: String, x: String) -> (r: Self)
        ensures r.err_type == CompilerErrorType::UnknownMacros(x), r.err_stack_pos@.len() == 1, r.err_stack_pos@[0].pos == Some(pos), r.err_stack_pos@[0].file_name == file_name,
    {
        Self::new(CompilerErrorType::UnknownMacros(x), pos, file_name)
    }

    pub fn new_bad_macro_name(pos: CompilerPos, file_name: String, x: char) -> (r: Self)
        ensures r.err_type == CompilerErrorType::BadMacroName(x), r.err_stack_pos@.len() == 1, r.err_stack_pos@[0].pos == Some(pos), r.err_stack_pos@[0].file_name == file_name,
    {
        Self::new(CompilerErrorType::BadMacroName(x), pos, file_name)
    }

    pub fn new_setting_error(pos: CompilerPos, file_name: String, x: ErrorSetting) -> (r: Self)
        ensures r.err_type == CompilerErrorType::SettingError(x), r.err_stack_pos@.len() == 1, r.err_stack_pos@[0].pos == Some(pos), r.err_stack_pos@[0].file_name == file_name,
    {
        Self::new(CompilerErrorType::SettingError(x), pos, file_name)
    }

    pub fn new_include_error(pos: CompilerPos, file_name: String, x: IncludeError) -> (r: Self)
        ensures r.err_type == CompilerErrorType::IncludeError(x), r.err_stack_pos@.len() == 1, r.err_stack_pos@[0].pos == Some(pos), r.err_stack_pos@[0].file_name == file_name,
    {
        Self::new(CompilerErrorType::IncludeError(x), pos, file_name)
    }

    pub fn new_expect_space_sep(pos: CompilerPos, file_name: String, x: Option<char>) -> (r: Self)
        ensures r.err_type == CompilerErrorType::ExpectedSpaceSep(x), r.err_stack_pos@.len() == 1, r.err_stack_pos@[0].pos == Some(pos), r.err_stack_pos@[0].file_name == file_name,
    {
        Self::new(CompilerErrorType::ExpectedSpaceSep(x), pos, file_name)
    }
}

}
