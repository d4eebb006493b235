use bf_cell_gen::compiler::compiler::{CompilerParser, SharpParse};
use bf_cell_gen::compiler::compiler_option::CanCompile;

fn parser(s: &str) -> CompilerParser {
    CompilerParser::new(s.chars().collect())
}

#[test]
fn sharp_macro_definition() {
    let mut p = parser(" name# +%m% -- ;c\n > #rest");
    match SharpParse::parse_sharp(&mut p, CanCompile::All) {
        SharpParse::Macros { macro_name, macro_cmds } => {
            assert_eq!(macro_name, "name");
            assert_eq!(macro_cmds, "+%m% -->");
        }
        _ => panic!("a macro was expected"),
    }
    assert_eq!(p.next(), Some('r'));
}

#[test]
fn sharp_space_separated_name() {
    let mut p = parser("m# %%%a b%%% #");
    match SharpParse::parse_sharp(&mut p, CanCompile::All) {
        SharpParse::Macros { macro_cmds, .. } => assert_eq!(macro_cmds, "%%% a b%%% "),
        _ => panic!("a macro was expected"),
    }
}

#[test]
fn sharp_includes() {
    let mut p = parser("#lib#");
    assert!(matches!(SharpParse::parse_sharp(&mut p, CanCompile::All),
        SharpParse::FileInclude(f, CanCompile::OnlyMacros) if f == "lib"));
    let mut p = parser("#!#both#");
    assert!(matches!(SharpParse::parse_sharp(&mut p, CanCompile::All),
        SharpParse::FileInclude(f, CanCompile::MacroAndSettings) if f == "both"));
    let mut p = parser("#'#set#");
    assert!(matches!(SharpParse::parse_sharp(&mut p, CanCompile::All),
        SharpParse::FileInclude(f, CanCompile::OnlySettings) if f == "set"));
    let mut p = parser("#'#set#");
    assert!(matches!(SharpParse::parse_sharp(&mut p, CanCompile::OnlyMacros), SharpParse::CantCompileSetting));
    let mut p = parser("#lib#");
    assert!(matches!(SharpParse::parse_sharp(&mut p, CanCompile::OnlySettings), SharpParse::CantCompileMacro));
}

#[test]
fn sharp_errors() {
    let mut p = parser("  ");
    assert!(matches!(SharpParse::parse_sharp(&mut p, CanCompile::All), SharpParse::UnexpectedEOF));
    let mut p = parser(" %x#");
    assert!(matches!(SharpParse::parse_sharp(&mut p, CanCompile::All), SharpParse::BadMacroName('%')));
    let mut p = parser("a%b#code#");
    assert!(matches!(SharpParse::parse_sharp(&mut p, CanCompile::All), SharpParse::BadMacroName('%')));
    let mut p = parser("##");
    assert!(matches!(SharpParse::parse_sharp(&mut p, CanCompile::All), SharpParse::EmptyName));
    let mut p = parser("name#code");
    assert!(matches!(SharpParse::parse_sharp(&mut p, CanCompile::All), SharpParse::UnexpectedEOF));
}
