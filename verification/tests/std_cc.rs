use bf_cell_gen::compiler::comand_compiler::std_cc::{StdCmdCompiler, StdCmdNames, RegCmdNames};
use bf_cell_gen::compiler::comand_compiler::cmd_compiler::CmdCompiler;
use bf_cell_gen::compiler::comand_compiler::port_name_handler::PortNameHandler;
use bf_cell_gen::compiler::comand_compiler::to_u8_seq::ToU8Seq;
use bf_cell_gen::compiler::comand_compiler::std_cc_additional_info::PrPrepared;
use bf_cell_gen::compiler::compiler_pos::CompilerPos;
use bf_cell_gen::compiler::compiler_error::CompilerErrorType;
use bf_cell_gen::compiler::valid_cmd::ValidCMD;
use bf_cell_gen::vm::hardware_info::HardwareInfo;

fn std_cc() -> StdCmdCompiler {
    StdCmdCompiler::try_new(&HardwareInfo::new(64, 1 << 20)).unwrap()
}

fn prefix_len(p: &[u8]) -> usize {
    // the program starts with the zero room, then CUR[0] SET
    let mut i = 0;
    while p[i] == 0 { i += 1; }
    assert_eq!(&p[i..i + 3], &[0x02, 0x00, 0x03][..]);
    i + 3
}

#[test]
fn std_cc_starts_with_room_and_user_port() {
    let p = std_cc().get_program().ok().unwrap();
    let n = prefix_len(&p);
    assert_eq!(n, p.len());
    assert!(n > 3);
    assert_eq!((n - 3) % 2, 0);
}

#[test]
fn std_cc_inc_loads_and_stores_cell() {
    let mut cc = std_cc();
    assert!(cc.cmd_compile('+', CompilerPos::new()).is_none());
    let p = cc.get_program().ok().unwrap();
    let n = prefix_len(&p);
    assert_eq!(&p[n..], &[0x02, 0x01, 0x06, 0x08, 0x05, 0x04, 0x08, 0x06, 0x08, 0x0A, 0x05, 0x05][..]);
}

#[test]
fn std_cc_print_value() {
    let mut cc = std_cc();
    assert!(cc.cmd_compile('.', CompilerPos::new()).is_none());
    let p = cc.get_program().ok().unwrap();
    let n = prefix_len(&p);
    assert_eq!(&p[n..], &[0x02, 0x01, 0x06, 0x08, 0x05, 0x04, 0x02, 0x03, 0x05,
        0x02, 0x01, 0x06, 0x08, 0x0A, 0x05, 0x05][..]);
}

#[test]
fn std_cc_loop_fills_forward_jump() {
    let mut cc = std_cc();
    assert!(cc.cmd_compile('[', CompilerPos::new()).is_none());
    assert!(cc.cmd_compile(']', CompilerPos::new()).is_none());
    let p = cc.get_program().ok().unwrap();
    assert!(p.len() > prefix_len(&p));
}

#[test]
fn std_cc_errors() {
    let mut cc = std_cc();
    assert!(matches!(cc.cmd_compile(']', CompilerPos::new()), Some(CompilerErrorType::ClosedWhileWithoutOpen)));
    assert!(matches!(cc.cmd_compile('q', CompilerPos::new()), Some(CompilerErrorType::UnknownCmd('q'))));
    assert!(cc.cmd_compile('[', CompilerPos { line: 3, symb: 4 }).is_none());
    match cc.get_program() {
        Err(CompilerErrorType::NotClosedWhile(v)) => assert_eq!(v, vec![CompilerPos { line: 3, symb: 4 }]),
        _ => panic!("expected an open loop"),
    }
}

#[test]
fn std_cc_too_few_ports() {
    assert!(StdCmdCompiler::try_new(&HardwareInfo::new(3, 1 << 20)).is_none());
}

#[test]
fn std_cc_port_names_set_up_registers() {
    let fresh = std_cc().get_program().ok().unwrap();
    let mut cc = std_cc();
    assert!(cc.need_port_name_handle());
    assert!(cc.port_name_handle(&vec![("console".to_string(), 5)]).is_none());
    assert!(cc.need_port_name_handle());
    assert!(cc.port_name_handle(&vec![("screen".to_string(), 6), ("other".to_string(), 99)]).is_none());
    assert!(!cc.need_port_name_handle());
    let p = cc.get_program().ok().unwrap();
    assert_eq!(p.len(), fresh.len());
    assert_ne!(p, fresh);
    assert_eq!(&p[p.len() - 3..], &[0x02, 0x00, 0x03][..]);
    // the console's room starts by shifting to a fresh cell
    assert_eq!(&p[..2], &[0x02, 0x01][..]);
}

#[test]
fn std_cc_port_number_too_big() {
    let mut cc = std_cc();
    assert!(cc.port_name_handle(&vec![("win".to_string(), 64)]).is_some());
}

#[test]
fn std_cmd_names_bytes() {
    assert_eq!(StdCmdNames::Cur(130).to_u8_seq(), vec![0x02, 0x82, 0x01]);
    assert_eq!(StdCmdNames::Write.to_u8_seq(), vec![0x05]);
    assert!(matches!(StdCmdNames::is_start_byte(3), Some(StdCmdNames::SetPort)));
    assert!(StdCmdNames::is_start_byte(6).is_none());
    assert_eq!(RegCmdNames::try_from_byte(0x0A), Some(RegCmdNames::LeftShift));
    assert_eq!(RegCmdNames::try_from_valid_cmd(ValidCMD::IncValue), Some(RegCmdNames::Inc));
    assert_eq!(RegCmdNames::Bnd.to_u8_seq(), vec![0x0D]);
    assert_eq!(PrPrepared::from_name("display"), Some(PrPrepared::Win));
    assert_eq!(PrPrepared::from_name("cem"), None);
    assert_eq!(PrPrepared::Win.to_index(), 1);
}
