use bf_cell_gen::compiler::code_gen::code_gen::{cgen_set_cell_value, cgen_set_cell_max_cmds};
use bf_cell_gen::compiler::compiler_info::CompilerInfo;
use bf_cell_gen::compiler::dif_part_helper::setting_action::SettingActions;
use bf_cell_gen::compiler::dif_part_helper::settings::{ErrorSettingHelper, Setting};
use bf_cell_gen::compiler::mnc_checker::cell_checker::CellCheckerCD;
use bf_cell_gen::compiler::mnc_checker::mnc_checker::MacroNameCodeChecker;
use bf_cell_gen::dev_emulators::cem::std_cem::DevStdCem;
use bf_cell_gen::dev_emulators::dev::Dev;

fn run_cell(code: &str, start: u32) -> u32 {
    let mut x = start;
    for c in code.chars() {
        match c {
            '0' => x = 0,
            '+' => x = (x + 1) % 256,
            '*' => x = (2 * x) % 256,
            _ => {}
        }
    }
    x
}

#[test]
fn set_cell_code_leaves_the_value() {
    assert_eq!(cgen_set_cell_value(2, false), "+*");
    assert_eq!(cgen_set_cell_value(6, true), "0+*+*");
    assert_eq!(cgen_set_cell_value(0, false), "");
    for v in 0..=255u32 {
        assert_eq!(run_cell(&cgen_set_cell_value(v as u8, false), 0), v);
        assert_eq!(run_cell(&cgen_set_cell_value(v as u8, true), 77), v);
        assert!(cgen_set_cell_value(v as u8, true).len() <= cgen_set_cell_max_cmds().len());
    }
    assert_eq!(cgen_set_cell_max_cmds().len(), 16);
}

#[test]
fn second_additional_part_is_twice_additional() {
    match Setting::prepare_settings("xx[not][hehe]") {
        Err(e) => assert!(e.error == ErrorSettingHelper::TwiceAdditional),
        Ok(_) => panic!("the setting should not read"),
    }
    match Setting::prepare_settings("x[y|z]not-hehe") {
        Err(e) => assert!(e.error == ErrorSettingHelper::CharAfterAdditional),
        Ok(_) => panic!("the setting should not read"),
    }
}

#[test]
fn param_pos_rule_takes_its_name_only() {
    let mut actions = SettingActions::new();
    SettingActions::add_std_actions(&mut actions);
    let mut c: CompilerInfo<u8> = CompilerInfo::new(None);
    let foo = Setting::prepare_settings("foo").ok().unwrap();
    assert!(actions.make_setting_action(&foo, &mut c).result_type.is_no());
    let pp = Setting::prepare_settings("param-pos--just+win:1:0").ok().unwrap();
    let r = actions.make_setting_action(&pp, &mut c);
    assert!(r.is_right_rule());
    assert!(r.parent_must_process());
    assert_eq!(c.get_mem_init().get_win_pos(), 0);
    let typo = Setting::prepare_settings("param-pos-just+win:1:0").ok().unwrap();
    assert!(actions.make_setting_action(&typo, &mut c).is_error());
    let same = Setting::prepare_settings("param-pos-jw:2:2").ok().unwrap();
    assert!(actions.make_setting_action(&same, &mut c).is_error());
}

#[test]
fn cell_checker_counts_created_cells() {
    let ck = CellCheckerCD::new_std();
    assert!(ck.check("m", "c>").is_some());
    assert!(ck.check("m", "c>d").is_none());
    assert!(ck.check("@[1]m", "c>").is_none());
    assert!(ck.check("@[1]m", "%@[1]x%").is_none());
    assert!(ck.check("m", "%@[1]x%d").is_none());
}

#[test]
fn std_cem_create_then_delete() {
    let mut d = DevStdCem::new(1024, 1024);
    let fresh = d.memory_print();
    d.write_byte(0x05);
    assert!(!d.have_error());
    d.write_byte(0x06);
    assert!(!d.have_error());
    assert_eq!(d.memory_print(), fresh);
}

#[test]
fn setting_read_then_printed_gives_text_back() {
    for text in ["dev[3]:std-cem", "win-sz[640|480]", "port-name:abc:5", "a[b|c|d]:e:f[g]"] {
        let st = Setting::prepare_settings(text).ok().unwrap();
        assert_eq!(st.to_string(), format!("'{}'", text));
    }
}
