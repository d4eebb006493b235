use bf_cell_gen::disasm::std_disasm::{std_disasm, std_disasm_can_run, StdDisasmInfo};
use bf_cell_gen::dev_emulators::std_dev::StdDevName;

fn std_header() -> String {
    let mut s = String::new();
    s += "CONST CEM_PR = 1\nCONST CEM_GET_VAL = 1\nCONST CEM_SET_VAL = 2\nCONST CEM_PREV = 3\nCONST CEM_NEXT = 4\nCONST CEM_CR = 5\nCONST CEM_DEL = 6\n";
    s += "CONST COM_PR = 2\nCONST COM_JMP_F = 2\nCONST COM_JMP_B = 1\n";
    s += "CONST CONSOLE_PR = 3\n";
    s += "CONST WIN_PR = 4\nCONST WIN_DEC_X = 4\nCONST WIN_DEC_Y = 8\nCONST WIN_INC_X = 6\nCONST WIN_INC_Y = 2\nCONST WIN_REDRAW = 13\nCONST WIN_SET_VAL = 15\n";
    s
}

#[test]
fn disasm_std_program() {
    let mut info = StdDisasmInfo::new();
    info.std_init();
    let prog = [0x00u8, 0x02, 0x01, 0x06, 0x08, 0x06, 0x05, 0x0F];
    let r = std_disasm(&prog, &info).unwrap();
    let body = "PASS\nCUR[CEM_PR]\n\nSWAP  INC SWAP  ;; CWR[CEM_GET_VAL]     {*1}: if compiled by std compiler => this is CWR cmd ([C]onst [WR]ite)\nWR\n![15]\n";
    assert_eq!(r, std_header() + body);
}

#[test]
fn disasm_unknown_port_and_second_pair() {
    let info = StdDisasmInfo::new();
    let prog = [0x02u8, 0x85, 0x01, 0x06, 0x0E, 0x06];
    let r = std_disasm(&prog, &info).unwrap();
    assert_eq!(r, "CUR[133]\n\nSWAP  ZER SWAP  ;; CWR[0]     {*1}: if compiled by std compiler => this is CWR cmd ([C]onst [WR]ite)\n");
}

#[test]
fn disasm_two_swap_pairs() {
    let info = StdDisasmInfo::new();
    let r = std_disasm(&[0x06u8, 0x06, 0x06, 0x0A, 0x06], &info).unwrap();
    assert_eq!(r, "SWAP  SWAP  ;; CWR[0]     {*1}: if compiled by std compiler => this is CWR cmd ([C]onst [WR]ite)\nSWAP  LSH SWAP  ;; CWR[0]      (check {*1})\n");
}

#[test]
fn disasm_program_ending_in_cur() {
    let info = StdDisasmInfo::new();
    assert_eq!(std_disasm(&[0x02u8, 0x81], &info), Err("program ended on CUR".to_string()));
}

#[test]
fn disasm_info_entries() {
    let mut info = StdDisasmInfo::new();
    info.add_dev_to_pr(StdDevName::Win, 7);
    assert_eq!(info.get_dev_to_pr().clone(), vec![(StdDevName::Win, 7)]);
    assert_eq!(info.get_pr_to_dev(), vec![(7, StdDevName::Win)]);
    let r = std_disasm(&[0x02u8, 0x07, 0x06, 0x08, 0x08, 0x08, 0x08, 0x06], &info).unwrap();
    assert!(r.starts_with("CONST WIN_PR = 7\n"));
    assert!(r.ends_with("CUR[WIN_PR]\n\nSWAP  INC INC INC INC SWAP  ;; CWR[WIN_DEC_X]     {*1}: if compiled by std compiler => this is CWR cmd ([C]onst [WR]ite)\n"));
}

#[test]
fn disasm_can_run_checks_cur_numbers() {
    let info = StdDisasmInfo::new();
    assert!(std_disasm_can_run(&[0x00u8, 0x02, 0x81, 0x01, 0x05], &info));
    assert!(std_disasm_can_run(&[0x02u8, 0x81], &info));
    let mut long = vec![0x02u8];
    long.extend(std::iter::repeat(0xC8u8).take(11));
    long.push(0x01);
    assert!(!std_disasm_can_run(&long, &info));
}

#[test]
fn disasm_without_cur_always_succeeds() {
    let info = StdDisasmInfo::new();
    let r = std_disasm(&[0x00u8, 0x01, 0x03, 0x04, 0x05, 0x07, 0x09, 0x0B, 0x0C, 0x0D, 0x10], &info).unwrap();
    assert_eq!(r, "PASS\nTEST\nSET\nREAD\nWR\nTZ\nDEC\nRSH\nAND\nBND\n![16]\n");
}
