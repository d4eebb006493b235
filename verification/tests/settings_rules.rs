use bf_cell_gen::compiler::compiler_info::CompilerInfo;
use bf_cell_gen::compiler::dif_part_helper::setting_action::SettingActions;
use bf_cell_gen::compiler::dif_part_helper::setting_action_result::SettingActionResultType;
use bf_cell_gen::compiler::dif_part_helper::settings::Setting;

fn std_actions() -> SettingActions {
    let mut a = SettingActions::new();
    SettingActions::add_std_actions(&mut a);
    a
}

fn apply(actions: &SettingActions, info: &mut CompilerInfo<u8>, text: &str) -> SettingActionResultType {
    let setting = match Setting::prepare_settings(text) {
        Ok(s) => s,
        Err(_) => panic!("the setting should read"),
    };
    actions.make_setting_action(&setting, info).result_type
}

#[test]
fn port_name_rule() {
    let a = std_actions();
    let mut info: CompilerInfo<u8> = CompilerInfo::new(None);
    assert!(matches!(apply(&a, &mut info, "port-name:abc:5"), SettingActionResultType::AllOk));
    assert_eq!(info.get_port_names_ref().clone(), vec![("abc".to_string(), 5usize)]);
    assert!(matches!(apply(&a, &mut info, "port-name:abc:6"), SettingActionResultType::OkWithWarnings { .. }));
    assert_eq!(info.get_port_names_ref().clone(), vec![("abc".to_string(), 6usize)]);
    assert!(matches!(apply(&a, &mut info, "port-name:Abc:5"), SettingActionResultType::Error { .. }));
    assert!(matches!(apply(&a, &mut info, "port-name:abc"), SettingActionResultType::Error { .. }));
    assert_eq!(info.get_port_names_ref().len(), 1);
}

#[test]
fn dev_rule() {
    let a = std_actions();
    let mut info: CompilerInfo<u8> = CompilerInfo::new(None);
    assert!(matches!(apply(&a, &mut info, "dev[3]:std-cem"), SettingActionResultType::AllOk));
    assert_eq!(info.get_devs().len(), 1);
    assert_eq!(info.get_devs()[0].0.to_string(), "3");
    assert_eq!(info.get_devs()[0].1, "std-cem");
    assert!(matches!(apply(&a, &mut info, "dev[3]:std-com"), SettingActionResultType::OkWithWarnings { .. }));
    assert_eq!(info.get_devs()[0].1, "std-com");
    assert!(matches!(apply(&a, &mut info, "dev[pr]:num-console"), SettingActionResultType::AllOk));
    assert_eq!(info.get_devs()[1].0.to_string(), "pr");
    assert!(matches!(apply(&a, &mut info, "dev:utf8-console"), SettingActionResultType::AllOk));
    assert_eq!(info.get_devs()[2].0.to_string(), "any");
    assert!(matches!(apply(&a, &mut info, "dev[A]:std-cem"), SettingActionResultType::Error { .. }));
    assert!(matches!(apply(&a, &mut info, "dev[1]:Bad"), SettingActionResultType::Error { .. }));
    assert!(matches!(apply(&a, &mut info, "dev[1]"), SettingActionResultType::Error { .. }));
    assert_eq!(info.get_devs().len(), 3);
}

#[test]
fn param_and_win_size_rules() {
    let a = std_actions();
    let mut info: CompilerInfo<u8> = CompilerInfo::new(None);
    assert!(matches!(apply(&a, &mut info, "+param:7"), SettingActionResultType::Error { .. }));
    let mut mi = info.take_mem_init();
    assert!(mi.set_param_pos(2, 3));
    info.set_mem_init(mi);
    assert!(matches!(apply(&a, &mut info, "+param:7"), SettingActionResultType::AllOk));
    assert!(matches!(apply(&a, &mut info, "+param:300"), SettingActionResultType::Error { .. }));
    assert_eq!(info.get_mem_init().get_memory(2).unwrap().clone(), vec![7u8]);
    assert!(matches!(apply(&a, &mut info, "win-sz[1|258]"), SettingActionResultType::AllOk));
    assert_eq!(info.get_mem_init().get_memory(3).unwrap().clone(), vec![1u8, 0, 0, 2, 1, 0]);
    assert!(matches!(apply(&a, &mut info, "win-sz[1|1]"), SettingActionResultType::OkWithWarnings { .. }));
    assert!(matches!(apply(&a, &mut info, "win-sz[1]"), SettingActionResultType::Error { .. }));
    assert!(matches!(apply(&a, &mut info, "win-sz[1|16777216]"), SettingActionResultType::Error { .. }));
}
