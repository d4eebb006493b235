use bf_cell_gen::dev_emulators::com::com::DevCom;
use bf_cell_gen::dev_emulators::dev::Dev;

fn com_with(mem: Vec<u8>) -> DevCom {
    let mut d = DevCom::new(64);
    d.set_mem(mem);
    d
}

#[test]
fn com_forward_jump_on_zero_cell() {
    let mut d = com_with(vec![0xAA, 0x05, 10, 11, 12, 13, 14, 15, 16]);
    d.write_byte(2);
    assert_eq!(d.read_byte(), 0xAA);
    d.write_byte(0);
    assert!(!d.have_error());
    assert_eq!(d.read_byte(), 14);
}

#[test]
fn com_forward_no_jump_on_other_cell() {
    let mut d = com_with(vec![0xAA, 0x05, 10, 11, 12, 13, 14, 15, 16]);
    d.write_byte(2);
    assert_eq!(d.read_byte(), 0xAA);
    d.write_byte(3);
    assert!(!d.have_error());
    assert_eq!(d.read_byte(), 10);
}

#[test]
fn com_backward_request_jumps_on_other_cell() {
    let mut d = com_with(vec![0xAA, 0x05, 10, 11, 12, 13, 0xAA, 0x03, 16]);
    d.write_byte(2);
    assert_eq!(d.read_byte(), 0xAA);
    d.write_byte(0);
    assert!(!d.have_error());
    d.write_byte(1);
    assert_eq!(d.read_byte(), 0xAA);
    d.write_byte(7);
    assert!(!d.have_error());
    assert_eq!(d.read_byte(), 12);
    let mut d = com_with(vec![0xAA, 0x02, 10, 11, 12, 13, 14, 15, 16]);
    d.write_byte(1);
    assert_eq!(d.read_byte(), 0xAA);
    d.write_byte(0);
    assert_eq!(d.read_byte(), 10);
}

#[test]
fn com_backward_jump_before_start_fails() {
    let mut d = com_with(vec![0xAA, 0x02, 10, 11]);
    d.write_byte(1);
    assert_eq!(d.read_byte(), 0xAA);
    d.write_byte(7);
    assert!(d.have_error());
}

#[test]
fn com_jump_errors() {
    let mut d = com_with(vec![0xAA, 0x00, 10]);
    d.write_byte(2);
    d.read_byte();
    d.write_byte(0);
    assert!(d.have_error());

    let mut d = com_with(vec![0xAA, 0x7F, 10]);
    d.write_byte(2);
    d.read_byte();
    d.write_byte(0);
    assert!(d.have_error());

    let mut d = com_with(vec![0xAA]);
    d.write_byte(2);
    d.write_byte(0);
    assert!(d.have_error());

    let mut d = com_with(vec![0xAA]);
    d.write_byte(9);
    assert!(d.have_error());
}
