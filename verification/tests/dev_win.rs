use bf_cell_gen::dev_emulators::dev::Dev;
use bf_cell_gen::dev_emulators::win::DevWin;

#[test]
fn dev_win_sets_and_gets_cells() {
    let mut w = DevWin::new(2, 2, vec![0u8; 16]);
    w.write_byte(15);
    w.write_byte(7);
    w.write_byte(6);
    w.write_byte(15);
    w.write_byte(9);
    assert_eq!(w.buffer()[0], 7);
    assert_eq!(w.buffer()[1], 9);
    assert!(!w.test_can_read_byte());
    w.write_byte(14);
    assert!(w.test_can_read_byte());
    assert_eq!(w.read_byte(), 9);
    w.write_byte(2);
    w.write_byte(15);
    w.write_byte(3);
    assert_eq!(w.buffer()[3], 3);
    w.write_byte(13);
    assert!(w.take_redraw());
    assert!(!w.take_redraw());
    w.write_byte(14);
    assert_eq!(w.read_byte(), 7);
    assert!(!w.have_error());
}

#[test]
fn dev_win_cursor_wraps() {
    let mut w = DevWin::new(3, 2, vec![0u8; 24]);
    w.write_byte(4);
    w.write_byte(8);
    w.write_byte(15);
    w.write_byte(42);
    assert_eq!(w.buffer()[5], 42);
    w.write_byte(6);
    w.write_byte(2);
    w.write_byte(15);
    w.write_byte(1);
    assert_eq!(w.buffer()[0], 1);
}

#[test]
fn dev_win_errors() {
    let mut w = DevWin::new(2, 2, vec![0u8; 16]);
    assert_eq!(w.read_byte(), 0xA4);
    assert!(w.have_error());
    assert!(!w.in_infinity_state());
    assert_eq!(w.read_byte(), 0xA4);
    assert!(w.in_infinity_state());

    let mut w = DevWin::new(2, 2, vec![0u8; 16]);
    w.write_byte(99);
    assert!(w.have_error());

    let mut w = DevWin::new(2, 2, vec![0u8; 16]);
    w.write_byte(14);
    w.write_byte(6);
    assert!(w.have_error());

    let mut w = DevWin::new(2, 2, vec![0u8; 16]);
    w.write_byte(13);
    w.redraw_failed();
    assert!(w.have_error());
}
