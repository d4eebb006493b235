use bf_cell_gen::compiler::compiler_pos::CompilerPos;
use bf_cell_gen::compiler::compiler_warning::{CompilerWarning, CompilerWarnings};
use bf_cell_gen::vm::port::Port;

#[test]
fn warnings_report_lines() {
    let mut ws = CompilerWarnings::new();
    assert_eq!(ws.to_string(), "warning in <unknown file>:");
    ws.set_file("a.bfcg".to_string());
    ws.add_warning(CompilerWarning::SettingWarning {
        pos: CompilerPos { line: 2, symb: 5 },
        setting: "'port:x'".to_string(),
        warning: "w".to_string(),
    });
    ws.add_warning(CompilerWarning::OtherPortUsedInOtherFile {
        pos: CompilerPos { line: 1, symb: 0 },
        port_name: "x".to_string(),
        new_port: 7,
        old_port: 3,
    });
    ws.add_warning(CompilerWarning::OtherDevUsedInOtherFile {
        pos: CompilerPos { line: 3, symb: 1 },
        port: Port::Number(4),
        new_dev_name: "std-cem".to_string(),
        old_dev_name: "std-com".to_string(),
    });
    assert_eq!(
        ws.to_string(),
        "warning in <a.bfcg>:    in setting [line: 2  symb: 5] at positon 'port:x': w\n    other port number used for port-name x at position [line: 1  symb: 0]:  3 --> 7\n    other dev used in port 4 at position [line: 3  symb: 1]:  std-com --> std-cem\n"
    );
}

#[test]
fn nested_warnings_are_indented() {
    let mut inner = CompilerWarnings::new();
    inner.set_file("b.bfcg".to_string());
    inner.add_warning(CompilerWarning::SettingWarning {
        pos: CompilerPos { line: 1, symb: 1 },
        setting: "s".to_string(),
        warning: "w".to_string(),
    });
    let mut outer = CompilerWarnings::new();
    outer.add_warning(CompilerWarning::FromOtherFile { pos: CompilerPos { line: 4, symb: 2 }, warnings: inner });
    assert_eq!(
        outer.to_string(),
        "warning in <unknown file>:    at position [line: 4  symb: 2]  warning in <b.bfcg>:    in setting [line: 1  symb: 1] at positon s: w\n        \n"
    );
}
