use bf_cell_gen::dev_emulators::dev_name::DevName;
use bf_cell_gen::dev_emulators::dev_constructor::{DevCtorErr, DevCtorWarn};
use bf_cell_gen::dev_emulators::std_dev::{std_dev_constructor, get_std_win_dev_type, StdDevKind, StdWinDev};

#[test]
fn dev_name_params() {
    let mut d = DevName::new("num-console".to_string());
    assert_eq!(d.add_param("new-line".to_string(), "5".to_string()), None);
    assert_eq!(d.add_param("new-line".to_string(), "7".to_string()), Some("5".to_string()));
    assert_eq!(d.get_param("new-line"), Some(&"7".to_string()));
    assert_eq!(d.get_param("x"), None);
    assert_eq!(d.get_name(), "num-console");
    assert_eq!(d.to_string(), "num-console< |new-line = 7| >");
    assert_eq!(DevName::new("cem".to_string()).to_string(), "cem");
}

#[test]
fn std_dev_memories_warn_on_params() {
    let mut d = DevName::new("std-cem".to_string());
    d.add_param("size".to_string(), "5".to_string());
    let ok = std_dev_constructor(&d).ok().unwrap();
    assert_eq!(ok.dev, StdDevKind::Cem);
    assert_eq!(ok.warns.len(), 1);
    assert!(matches!(&ok.warns[0], DevCtorWarn::UnusedDevParam(n) if n == "size"));
    let ok = std_dev_constructor(&DevName::new("COM".to_string())).ok().unwrap();
    assert_eq!(ok.dev, StdDevKind::Com);
    assert!(ok.warns.is_empty());
}

#[test]
fn std_dev_consoles() {
    let mut d = DevName::new("num-console".to_string());
    d.add_param("new-line".to_string(), "5".to_string());
    assert_eq!(std_dev_constructor(&d).ok().unwrap().dev, StdDevKind::ConsoleNum { new_line: 5 });
    let d = DevName::new("num-console".to_string());
    assert_eq!(std_dev_constructor(&d).ok().unwrap().dev, StdDevKind::ConsoleNum { new_line: 10 });
    let mut d = DevName::new("utf8-console".to_string());
    d.add_param("print-state".to_string(), " + ".to_string());
    assert_eq!(std_dev_constructor(&d).ok().unwrap().dev, StdDevKind::ConsoleUtf8 { print_state: true });
    let d = DevName::new("ascii-console".to_string());
    assert_eq!(std_dev_constructor(&d).ok().unwrap().dev, StdDevKind::ConsoleAscii { print_state: false });
}

#[test]
fn std_dev_errors() {
    let mut d = DevName::new("num-console".to_string());
    d.add_param("new-line".to_string(), "x".to_string());
    match std_dev_constructor(&d) {
        Err(DevCtorErr::BadParamValue { name, bad_value }) => { assert_eq!(name, "new-line"); assert_eq!(bad_value, "x"); }
        _ => panic!("expected a bad value"),
    }
    match std_dev_constructor(&DevName::new("printer".to_string())) {
        Err(e) => assert_eq!(e.to_string(), "unknown device name: printer"),
        _ => panic!("expected an unknown name"),
    }
}

#[test]
fn std_win_dev_type() {
    assert!(matches!(get_std_win_dev_type(&DevName::new("std-win".to_string())), Some(StdWinDev::Screen)));
    assert!(get_std_win_dev_type(&DevName::new("win".to_string())).is_none());
}
