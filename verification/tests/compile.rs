use bf_cell_gen::compiler::compiler::{compile, resolve_path, MemFiles, FileSource};
use bf_cell_gen::compiler::compiler_option::{CompilerOption, MemInitType};
use bf_cell_gen::compiler::compiler_error::CompilerErrorType;
use bf_cell_gen::compiler::comand_compiler::interpreter_cc::InterpreterCmdCompiler;
use bf_cell_gen::compiler::dif_part_helper::setting_action::SettingActions;
use bf_cell_gen::compiler::mnc_checker::mncc_holder::HolderChekerMNC;
use bf_cell_gen::compiler::mnc_checker::cell_checker::CellCheckerCD;
use bf_cell_gen::compiler::valid_cmd::ValidCMD;

fn files(list: &[(&str, &str)]) -> MemFiles {
    MemFiles { files: list.iter().map(|(p, t)| (p.to_string(), t.to_string())).collect() }
}

fn run(list: &[(&str, &str)], main: &str) -> Result<Vec<ValidCMD>, CompilerErrorType> {
    let mut actions = SettingActions::new();
    SettingActions::add_std_actions(&mut actions);
    let checker: HolderChekerMNC<CellCheckerCD> = HolderChekerMNC::new();
    let option = CompilerOption::new(MemInitType::BeforeCode, InterpreterCmdCompiler::new(), &actions, vec![], &checker);
    let mut fs = files(list);
    match compile(main.to_string(), option, None, &mut fs) {
        Ok(info) => Ok(info.get_ref_program().clone()),
        Err(e) => Err(e.err_type),
    }
}

#[test]
fn compile_plain_commands() {
    let r = run(&[("main.bfcg", "+-  ; a comment\n>")], "main");
    assert_eq!(r.ok().unwrap(), vec![ValidCMD::IncValue, ValidCMD::DecValue, ValidCMD::NextCell]);
}

#[test]
fn compile_macro_definition_and_use() {
    let r = run(&[("main.bfcg", "#m#++#-%m%")], "main");
    assert_eq!(r.ok().unwrap(), vec![ValidCMD::DecValue, ValidCMD::IncValue, ValidCMD::IncValue]);
}

#[test]
fn compile_space_separated_macros() {
    let r = run(&[("main.bfcg", "#a#+#\n#b#-#\n%%% a b a %%%")], "main");
    assert_eq!(r.ok().unwrap(), vec![ValidCMD::IncValue, ValidCMD::DecValue, ValidCMD::IncValue]);
}

#[test]
fn compile_include_brings_macros() {
    let r = run(&[("main.bfcg", "##lib#+%x%"), ("lib.bfcg", "#x#-#")], "main");
    assert_eq!(r.ok().unwrap(), vec![ValidCMD::IncValue, ValidCMD::DecValue]);
}

#[test]
fn compile_missing_file_is_open_error() {
    let r = run(&[("main.bfcg", "+")], "other");
    assert!(matches!(r, Err(CompilerErrorType::FileOpenError)));
}

#[test]
fn compile_wrong_extension_is_open_error() {
    let r = run(&[("main.txt", "+")], "main.txt");
    assert!(matches!(r, Err(CompilerErrorType::FileOpenError)));
}

#[test]
fn compile_unknown_macro() {
    let r = run(&[("main.bfcg", "%nope%")], "main");
    match r {
        Err(CompilerErrorType::UnknownMacros(n)) => assert_eq!(n, "nope"),
        _ => panic!("expected an unknown macro"),
    }
}

#[test]
fn compile_unknown_command() {
    let r = run(&[("main.bfcg", "+q")], "main");
    assert!(matches!(r, Err(CompilerErrorType::UnknownCmd('q'))));
}

#[test]
fn compile_open_loop_is_error() {
    let r = run(&[("main.bfcg", "[+")], "main");
    assert!(matches!(r, Err(CompilerErrorType::NotClosedWhile(_))));
}

#[test]
fn compile_macro_only_file_cannot_hold_code() {
    let r = run(&[("main.bfcg", "##lib#"), ("lib.bfcg", "+")], "main");
    assert!(matches!(r, Err(CompilerErrorType::NotAllowedCompileCode)));
}

#[test]
fn compile_self_include_stops() {
    let r = run(&[("main.bfcg", "##main#")], "main");
    assert!(r.is_err());
}

#[test]
fn resolve_adds_extension() {
    assert_eq!(resolve_path(None, &"main".to_string()), Some("main.bfcg".to_string()));
    assert_eq!(resolve_path(None, &"dir/a.bfcg".to_string()), Some("dir/a.bfcg".to_string()));
    assert_eq!(resolve_path(None, &"a.txt".to_string()), None);
}

#[test]
fn resolve_from_including_file() {
    assert_eq!(resolve_path(Some("dir/a.bfcg".to_string()), &"b".to_string()), Some("dir/b.bfcg".to_string()));
    assert_eq!(resolve_path(Some("dir/a.bfcg".to_string()), &"../b".to_string()), Some("b.bfcg".to_string()));
    assert_eq!(resolve_path(Some("a.bfcg".to_string()), &"../b".to_string()), None);
}

#[test]
fn mem_files_reads_first_match() {
    let mut fs = files(&[("a", "1"), ("a", "2")]);
    assert_eq!(fs.read_to_string(&"a".to_string()), Some("1".to_string()));
    assert_eq!(fs.read_to_string(&"b".to_string()), None);
}
