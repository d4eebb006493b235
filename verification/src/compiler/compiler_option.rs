use vstd::prelude::*;
use super::comand_compiler::cmd_compiler::CmdCompiler;
use super::dif_part_helper::setting_action::SettingActions;
use super::mnc_checker::mnc_checker::MacroNameCodeChecker;
use super::mnc_checker::mncc_holder::HolderChekerMNC;
use super::compiler_error::CompilerErrorType;

verus! {

/// What a file may hold.
#[derive(Clone, Copy, Debug, PartialEq, Eq, Structural)]
pub enum CanCompile {
    OnlyMacros,
    OnlySettings,
    MacroAndSettings,
    /// code, settings and macros
    All,
}

impl CanCompile {
    pub fn can_compile_code(&self) -> (r: bool)
        ensures
            r == (*self == CanCompile::All),
    {
        match self { CanCompile::All => true, _ => false }
    }

    pub fn can_compile_macro(&self) -> (r: bool)
        ensures
            r == (*self != CanCompile::OnlySettings),
    {
        match self {
            CanCompile::OnlyMacros | CanCompile::MacroAndSettings | CanCompile::All => true,
            _ => false,
        }
    }

    pub fn can_compile_settings(&self) -> (r: bool)
        ensures
            r == (*self != CanCompile::OnlyMacros),
    {
        match self {
            CanCompile::OnlySettings | CanCompile::MacroAndSettings | CanCompile::All => true,
            _ => false,
        }
    }
}

/// How the initial memory gets into the program.
#[derive(Clone, Copy, Debug, PartialEq, Eq, Structural)]
pub enum MemInitType {
    Dirrect,
    BeforeCode,
    AfterCodeByConcat,
}

impl MemInitType {
    pub fn mem_init_only_before_code(&self) -> (r: bool)
        ensures
            r == (*self == MemInitType::BeforeCode),
    {
        match self { Self::BeforeCode => true, _ => false }
    }
}

/// How to compile a file: what it may hold, how the initial memory goes
/// in, the command compiler (none for a file that may hold no code), the
/// setting rules, the settings to process first, and the macro-name rules.
pub struct CompilerOption<'a, CC, T, M: MacroNameCodeChecker> {
    pub phantom: std::marker::PhantomData<T>,
    pub can_compile: CanCompile,
    pub mem_init_type: MemInitType,
    pub cmd_compiler: Option<CC>,
    pub setting_action: &'a SettingActions,
    pub default_settings: Vec<String>,
    pub mnc_checker: &'a HolderChekerMNC<M>,
}

impl<'a, CC: CmdCompiler<T>, T, M: MacroNameCodeChecker> CompilerOption<'a, CC, T, M> {
    /// Options for a file that may hold anything.
    pub fn new(
        mem_init_type: MemInitType,
        cmd_compiler: CC,
        setting_action: &'a SettingActions,
        default_settings: Vec<String>,
        mnc_checker: &'a HolderChekerMNC<M>,
    ) -> (r: Self)
        ensures
            r.can_compile == CanCompile::All,
            r.mem_init_type == mem_init_type,
            r.cmd_compiler == Some(cmd_compiler),
            r.setting_action == setting_action,
            r.default_settings == default_settings,
            r.mnc_checker == mnc_checker,
    {
        Self {
            phantom: std::marker::PhantomData,
            can_compile: CanCompile::All,
            mem_init_type,
            cmd_compiler: Some(cmd_compiler),
            setting_action,
            default_settings,
            mnc_checker,
        }
    }

    /// Options for a file that this one brings in: it may hold no code, and
    /// its memory goes before the code; same rules, no settings to process
    /// first (those belong to the first file only).
    pub fn new_only(&self, can_compile: CanCompile) -> (r: Self)
        requires
            can_compile != CanCompile::All,
        ensures
            r.can_compile == can_compile,
            r.mem_init_type == MemInitType::BeforeCode,
            r.cmd_compiler is None,
            r.setting_action == self.setting_action,
            r.default_settings@.len() == 0,
            r.mnc_checker == self.mnc_checker,
    {
        Self {
            phantom: std::marker::PhantomData,
            can_compile,
            mem_init_type: MemInitType::BeforeCode,
            cmd_compiler: None,
            setting_action: self.setting_action,
            default_settings: Vec::new(),
            mnc_checker: self.mnc_checker,
        }
    }

    pub fn need_processed_default_settings(&self) -> (r: bool)
        ensures r == (self.default_settings@.len() != 0),
    {
        self.default_settings.len() != 0
    }

    /// Take the settings to process first, leaving none.
    pub fn get_default_settings(&mut self) -> (r: Vec<String>)
        ensures
            r == old(self).default_settings,
            final(self).default_settings@.len() == 0,
            final(self).can_compile == old(self).can_compile,
            final(self).mem_init_type == old(self).mem_init_type,
            final(self).cmd_compiler == old(self).cmd_compiler,
            final(self).setting_action == old(self).setting_action,
            final(self).mnc_checker == old(self).mnc_checker,
    {
        let mut v: Vec<String> = Vec::new();
        std::mem::swap(&mut v, &mut self.default_settings);
        v
    }

    pub fn can_compile_code(&self) -> (r: bool)
        ensures r == (self.can_compile == CanCompile::All),
    {
        self.can_compile.can_compile_code()
    }

    pub fn can_compile_macro(&self) -> (r: bool)
        ensures r == (self.can_compile != CanCompile::OnlySettings),
    {
        self.can_compile.can_compile_macro()
    }

    pub fn can_compile_settings(&self) -> (r: bool)
        ensures r == (self.can_compile != CanCompile::OnlyMacros),
    {
        self.can_compile.can_compile_settings()
    }

    /// The first macro-name rule that the macro does not pass, as an error.
    pub fn mnc_check(&self, macro_name: &str, macro_code: &str) -> (r: Option<CompilerErrorType>)
        ensures
            r matches Some(e) ==> e is MacroNameCheckError,
            r is None <==> forall|i: int| 0 <= i < self.mnc_checker.len() ==> self.mnc_checker.fits_at(i, macro_name@, macro_code@),
            r matches Some(CompilerErrorType::MacroNameCheckError { rule_checker_name, .. }) ==>
                exists|i: int| 0 <= i < self.mnc_checker.len() && self.mnc_checker.names()[i] == rule_checker_name@
                    && !self.mnc_checker.fits_at(i, macro_name@, macro_code@)
                    && forall|j: int| 0 <= j < i ==> self.mnc_checker.fits_at(j, macro_name@, macro_code@),
    {
        match self.mnc_checker.check_all(macro_name, macro_code) {
            Some((name, error)) => Some(CompilerErrorType::MacroNameCheckError { rule_checker_name: name, error }),
            None => None,
        }
    }
}

}
