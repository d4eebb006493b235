use bf_cell_gen::dev_emulators::cem::std_cem::DevStdCem;
use bf_cell_gen::dev_emulators::dev::Dev;
use bf_cell_gen::dev_emulators::cem::cem_inner::CemInner;

#[test]
fn cem_test_cem_01() {
    let mut cem = CemInner::new(1024, 1024);
    cem.next_cell();
    cem.set_value(2);
    cem.next_cell();
    cem.next_cell();
    assert_eq!(&cem.print_om(0), "|F4F0|F0F0|...");
    cem.next_cell();
    assert_eq!(&cem.print_om(0), "|F5F0|F0F0|...");
    cem.prev_cell();
    assert_eq!(&cem.print_om(0), "|F4F0|F0F0|...");
    cem.set_value(3);
    cem.next_cell();
    cem.next_cell();
    cem.next_cell();
    cem.set_value(4);
    assert_eq!(&cem.print_om(0), "|F7F0|F0F0|...");
    cem.next_cell();
    cem.next_cell();
    assert_eq!(&cem.print_om(0), "|T7F0|F2F0|F0F0|...");
    assert_eq!(&cem.print_mm(0), "|00|02|00|03|00|00|04|00|00|00|...");
    cem.prev_cell();
    cem.prev_cell();
    assert_eq!(&cem.print_om(0), "|F7F0|F0F0|...");
    cem.prev_cell();
    cem.prev_cell();
    assert_eq!(&cem.print_om(0), "|F7F0|F0F0|...");
    cem.set_value(1);
    assert_eq!(&cem.print_mm(0), "|00|02|00|03|01|00|04|00|...");
    assert_eq!(cem.error(), false);

    println!("OM: {}", cem.print_om(0));
    println!("MM: {}", cem.print_mm(0));
    println!("AM: {}", cem.print_am(0));
}

#[test]
fn std_cem_reads_what_was_set() {
    let mut d = DevStdCem::new(16, 16);
    d.write_byte(4);
    d.write_byte(2);
    d.write_byte(77);
    d.write_byte(3);
    d.write_byte(4);
    d.write_byte(1);
    assert!(d.test_can_read_byte());
    assert_eq!(d.read_byte(), 77);
    assert_eq!(d.read_byte(), 77);
    assert!(!d.have_error());
    // a read request stays: any other byte is an error
    d.write_byte(4);
    assert!(d.have_error());
    assert_eq!(d.read_byte(), 0);
    assert!(d.in_infinity_state());
}
