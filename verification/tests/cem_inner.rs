use bf_cell_gen::dev_emulators::cem::cem_inner::{CemInner, AMOUNT_MAX};

fn full_print(cem: &CemInner) {
    println!("+++ ↓↓↓ ↓↓↓ ↓↓↓ +++");  
    println!("{} ERROR", if cem.error() { "!!!" } else { "NO" });
    println!("reg con amount = {}", cem.reg_con_amount());
    println!("STAY ON [{}]", if cem.trig_cur_am() { "AM" } else { "MM" });
    println!("CAN CREATE = {}", cem.trig_am_can_create());
    println!("PTR[AM]: cur_ptr = {:?}; last_clear_ptr = {:?};", cem.am_pos(), cem.am_last_clear_pos());
    println!("PTR[OM]: am = {}; am_end = {}; mm = {}; mm_end = {};", cem.om_am_pos(), cem.om_am_end_pos(), cem.om_mm_pos(), cem.om_mm_end_pos());
    println!("OM: {}", cem.print_om(0));
    println!("MM: {}", cem.print_mm(0));
    println!("AM: {}", cem.print_am(0));  
    println!("--- ↑↑↑ ↑↑↑ ↑↑↑ ---");  
}

#[test]
fn cem_inner_test_cem_01(){
    let mut cem = CemInner::new(1024, 1024);
    cem.next_cell();
    cem.set_value(2);
    cem.next_cell();
    cem.next_cell();
    assert_eq!(&cem.print_om(0), "|F4F0|F0F0|...");
    cem.next_cell();
    assert_eq!(&cem.print_om(0), "|F5F0|F0F0|...");
    cem.prev_cell();
    assert_eq!(&cem.print_om(0), "|F4F0|F0F0|...");
    cem.set_value(3);
    cem.next_cell();
    cem.next_cell();
    cem.next_cell();
    cem.set_value(4);
    assert_eq!(&cem.print_om(0), "|F7F0|F0F0|...");
    cem.next_cell();
    cem.next_cell();
    assert_eq!(&cem.print_om(0), "|T7F0|F2F0|F0F0|...");
    assert_eq!(&cem.print_mm(0), "|00|02|00|03|00|00|04|00|00|00|...");
    cem.prev_cell();
    cem.prev_cell();
    assert_eq!(&cem.print_om(0), "|F7F0|F0F0|...");
    cem.prev_cell();
    cem.prev_cell();
    assert_eq!(&cem.print_om(0), "|F7F0|F0F0|...");
    cem.set_value(1);
    assert_eq!(&cem.print_om(0), "|F7F0|F0F0|...");
    assert_eq!(&cem.print_mm(0), "|00|02|00|03|01|00|04|00|...");
    assert_eq!(cem.error(), false);

    println!("OM: {}", cem.print_om(0));
    println!("MM: {}", cem.print_mm(0));
    println!("AM: {}", cem.print_am(0));
}

#[test]
fn test_cem_02(){
    let const_mem = "|00|01|02|03|04|05|06|07|08|09|0A|0B|0C|0D|0E|0F|10|11|12|13|14|15|16|17|18|19|1A|1B|1C|1D|1E|1F|00|...";
    let mut cem = CemInner::new(1024, 1024);
    for i in 0..31 {
        cem.next_cell();
        cem.set_value(i + 1);
    }
    assert_eq!(&cem.print_om(0), "|T7F0|T7F0|T7F0|T7F0|F4F0|F0F0|...");
    for _ in 0..16 { cem.prev_cell(); }
    
    cem.create_cell();
    cem.set_value(0xAC);
    assert_eq!(&cem.print_om(0), "|T7F1|T7F0|F2F0|T7F0|T7F0|F2F0|F0F0|...");
    assert_eq!(&cem.print_am(0), "|AC|00|...");
    cem.create_cell();
    cem.set_value(0xAB);
    assert_eq!(&cem.print_om(0), "|T7F2|T7F0|F2F0|T7F0|T7F0|F2F0|F0F0|...");
    assert_eq!(&cem.print_am(0), "|AC|AB|00|...");
    assert_eq!(&cem.print_mm(0), const_mem);
    
    cem.create_cell();
    cem.prev_cell();
    cem.create_cell();
    cem.prev_cell();
    cem.create_cell();
    assert_eq!(&cem.print_am(0), "|AC|AB|00|00|00|00|...");
    assert_eq!(cem.am_last_clear_pos(), Some(1));
    assert_eq!(cem.am_pos(), Some(2));
    assert_eq!(cem.trig_am_can_create(), true);
    cem.prev_cell();
    cem.prev_cell();
    assert_eq!(cem.trig_am_can_create(), false);
    cem.next_cell();
    assert_eq!(cem.am_pos(), Some(1));
    assert_eq!(cem.trig_am_can_create(), true);
    cem.prev_cell();
    assert_eq!(cem.am_pos(), Some(0));
    assert_eq!(cem.trig_cur_am(), true);
    cem.prev_cell();
    assert_eq!(cem.am_pos(), None);
    assert_eq!(cem.trig_cur_am(), false);
    cem.prev_cell();
    assert_eq!(cem.am_pos(), None);
    assert_eq!(cem.trig_cur_am(), false);
    for _ in 0..4 { 
        cem.prev_cell(); 
        assert_eq!(cem.trig_cur_am(), false);
    }
    for _ in 0..4 { 
        cem.next_cell(); 
        assert_eq!(cem.trig_cur_am(), false);
    }
    cem.next_cell();
    cem.next_cell();
    assert_eq!(cem.trig_cur_am(), true);
    assert_eq!(cem.am_pos(), Some(0));
    assert_eq!(cem.trig_am_can_create(), false);
    cem.next_cell(); 
    cem.next_cell(); 
    assert_eq!(cem.trig_am_can_create(), true);
    for _ in 0..2 { cem.next_cell(); }
    assert_eq!(cem.trig_cur_am(), true);
    cem.create_cell();
    assert_eq!(cem.am_last_clear_pos(), Some(1));
    cem.set_value(0xFF);
    assert_eq!(cem.am_last_clear_pos(), Some(5));
    assert_eq!(&cem.print_am(0), "|AC|AB|00|00|00|FF|00|...");
    assert_eq!(&cem.print_om(0), "|T7F6|T7F0|F2F0|T7F0|T7F0|F2F0|F0F0|...");
    
    cem.next_cell();
    assert_eq!(cem.am_pos(), Some(5));
    assert_eq!(cem.trig_cur_am(), false);
    assert_eq!(cem.get_value(), Some(0x10));
    cem.set_value(0x10);
    assert_eq!(&cem.print_mm(0), const_mem);
    for _ in 0..0x0F { 
        cem.next_cell();
        assert_eq!(cem.trig_cur_am(), false);
        assert_eq!(cem.trig_am_can_create(), true);
    }
    assert_eq!(cem.am_pos(), Some(5));
    assert_eq!(cem.get_value(), Some(0x1F));
    assert_eq!(cem.stay_on_the_end(), true);

    for _ in 0..0x0F { cem.prev_cell(); }
    assert_eq!(cem.trig_cur_am(), false);
    assert_eq!(cem.trig_am_can_create(), true);
    assert_eq!(cem.get_value(), Some(0x10));
    cem.prev_cell();
    assert_eq!(cem.trig_cur_am(), true);
    assert_eq!(cem.trig_am_can_create(), true);
    assert_eq!(cem.get_value(), Some(0xFF));
    for _ in 0..5 { 
        cem.prev_cell(); 
        assert_eq!(cem.trig_am_can_create(), false);
    }
    assert_eq!(cem.trig_cur_am(), true);
    assert_eq!(cem.get_value(), Some(0xAC));
    cem.prev_cell();
    assert_eq!(cem.trig_cur_am(), false);
    assert_eq!(cem.get_value(), Some(0x0F));

    for _ in 0..0x0F { cem.prev_cell(); }
    assert_eq!(cem.stay_on_the_start(), true);

    for _ in 0..(0x0F + 1 + 5 + 1 + 5) { cem.next_cell(); }
    assert_eq!(cem.get_value(), Some(0x15));
    assert_eq!(cem.trig_cur_am(), false);
    assert_eq!(cem.trig_am_can_create(), true);

    for i in 0..10 {
        cem.create_cell();
        cem.set_value(10 - i);
    }
    assert_eq!(&cem.print_om(0), "|T7F6|T7T7|F2F3|F6F0|T7F0|F3F0|F0F0|...");
    assert_eq!(&cem.print_am(0),  "|AC|AB|00|00|00|FF|0A|09|08|07|06|05|04|03|02|01|00|...");
    assert_eq!(&cem.print_mm(0), const_mem);
    assert_eq!(cem.stay_on_the_start(), false);
    assert_eq!(cem.stay_on_the_end(), false);

    // go to mem end:
    for _ in 0x16..0x20 { cem.next_cell(); } 
    assert_eq!(cem.stay_on_the_end(), true);

    // check all memory when go backward:
    for x in (0x16..0x20).rev() { 
        assert_eq!(cem.get_value(), Some(x));
        cem.prev_cell(); 
    }
    for x in 0..10 { 
        assert_eq!(cem.get_value(), Some(x + 1));
        cem.prev_cell(); 
    }
    for x in (0x10..=0x15).rev() { 
        assert_eq!(cem.get_value(), Some(x));
        cem.prev_cell(); 
    }
    assert_eq!(cem.get_value(), Some(0xFF));
    cem.prev_cell(); 
    for _ in 0..3 { 
        assert_eq!(cem.get_value(), Some(0x00));
        cem.prev_cell(); 
    }
    let ab = cem.get_value().unwrap();
    cem.prev_cell();
    let ac = cem.get_value().unwrap();
    cem.prev_cell(); 
    assert_eq!((ac, ab), (0xAC, 0xAB));
    for x in (0x01..0x10).rev() { 
        assert_eq!(cem.get_value(), Some(x));
        cem.prev_cell(); 
    }
    assert_eq!(cem.get_value(), Some(0x00));
    assert_eq!(cem.stay_on_the_start(), true);

    // check all memory when go forward:
    for x in 0x00..0x10 { 
        assert_eq!(cem.get_value(), Some(x));
        cem.next_cell(); 
    }
    let ac = cem.get_value().unwrap();
    cem.next_cell();
    let ab = cem.get_value().unwrap();
    cem.next_cell(); 
    assert_eq!((ac, ab), (0xAC, 0xAB));
    for _ in 0..3 { 
        assert_eq!(cem.get_value(), Some(0x00));
        cem.next_cell(); 
    }
    assert_eq!(cem.get_value(), Some(0xFF));
    cem.next_cell();
    for x in 0x10..=0x15 { 
        assert_eq!(cem.get_value(), Some(x));
        cem.next_cell(); 
    }
    for x in 0..10 { 
        assert_eq!(cem.get_value(), Some(10 - x));
        cem.next_cell(); 
    }
    for x in 0x16..0x20 { 
        assert_eq!(cem.get_value(), Some(x));
        cem.next_cell(); 
    }
    assert_eq!(cem.get_value(), Some(0x00));
    cem.prev_cell(); 


    assert_eq!(cem.error(), false);
    assert_eq!(cem.print_mm(0), const_mem);
    full_print(&cem);
}

#[test]
fn test_cem_03(){
    let mut cem = CemInner::new(1024, 1024);
    for _ in 0..3 { 
        cem.create_cell();
        cem.next_cell();
    }

    assert_eq!(&cem.print_om(0), "|F1F1|F1F1|F1F1|F1F0|F0F0|...");

    for _ in 0..3 { 
        cem.prev_cell(); 
        cem.prev_cell(); 
    }
    assert_eq!(&cem.print_om(0), "|F1F1|F1F1|F1F1|F0F0|...");
    assert_eq!(&cem.print_mm(0), "|00|00|00|00|...");
    assert_eq!(&cem.print_am(0), "|00|00|00|00|...");

    for _ in 0..6 { cem.next_cell(); }
    assert_eq!(&cem.print_om(0), "|F1F1|F1F1|F1F1|F1F0|F0F0|...");
    assert_eq!(&cem.print_mm(0), "|00|00|00|00|00|...");
    assert_eq!(&cem.print_am(0), "|00|00|00|00|...");

    for _ in 0..4 { cem.next_cell(); }
    assert_eq!(&cem.print_om(0), "|F1F1|F1F1|F1F1|F5F0|F0F0|...");
    assert_eq!(&cem.print_mm(0), "|00|00|00|00|00|00|00|00|00|...");
    assert_eq!(&cem.print_am(0), "|00|00|00|00|...");

    for _ in 0..4 { cem.prev_cell(); }
    assert_eq!(&cem.print_om(0), "|F1F1|F1F1|F1F1|F1F0|F0F0|...");
    assert_eq!(&cem.print_mm(0), "|00|00|00|00|00|...");
    assert_eq!(&cem.print_am(0), "|00|00|00|00|...");

    for _ in 0..4 { cem.prev_cell(); }
    assert_eq!(&cem.print_om(0), "|F1F1|F1F1|F1F1|F0F0|...");
    assert_eq!(&cem.print_mm(0), "|00|00|00|00|...");
    assert_eq!(&cem.print_am(0), "|00|00|00|00|...");

    assert_eq!(cem.error(), false);
    full_print(&cem);
}

#[test]
fn test_cem_04(){
    let mut cem = CemInner::new(1024, 1024);
    cem.set_value(0xFF);
    cem.next_cell();
    cem.set_value(0xFF);
    cem.next_cell();
    cem.set_value(0xFF);
    assert_eq!(cem.stay_on_the_end(), true);

    cem.prev_cell();
    cem.prev_cell();

    for x in 0..15 { 
        cem.create_cell();
        cem.set_value(0xA0 + x);
        assert_eq!(cem.stay_on_the_end(), false);
    }
    cem.next_cell();
    for x in 0..15 { 
        cem.create_cell();
        cem.set_value(0xB0 + x);
        assert_eq!(cem.stay_on_the_end(), false);
    }
    cem.next_cell();
    assert_eq!(cem.stay_on_the_end(), true);
    
    for _ in 0..(15+15+2) { cem.prev_cell(); } 
    assert_eq!(cem.stay_on_the_start(), true);
    
    assert_eq!(cem.get_value(), Some(0xFF));
    for x in 0..15 {
        cem.next_cell();
        assert_eq!(cem.get_value(), Some(0xA0 + x));
    }
    cem.next_cell();
    assert_eq!(cem.get_value(), Some(0xFF));
    for x in 0..15 {
        cem.next_cell();
        assert_eq!(cem.get_value(), Some(0xB0 + x));
    }
    cem.next_cell();
    assert_eq!(cem.get_value(), Some(0xFF));
    assert_eq!(cem.stay_on_the_end(), true);


    assert_eq!(cem.error(), false);
    assert_eq!(&cem.print_om(0), "|F1T7|F1T7|F1F1|F0T7|F0T7|F0F1|F0F0|...");
    assert_eq!(&cem.print_mm(0), "|FF|FF|FF|00|...");
    assert_eq!(&cem.print_am(0), "|A0|A1|A2|A3|A4|A5|A6|A7|A8|A9|AA|AB|AC|AD|AE|B0|B1|B2|B3|B4|B5|B6|B7|B8|B9|BA|BB|BC|BD|BE|00|...");
    full_print(&cem);
}

#[test]
fn test_cem_05(){
    let mut cem = CemInner::new(1024, 1024);
    cem.create_cell();
    for ind in 2..25 {
        cem.create_cell();
        cem.prev_cell();
        assert_eq!(cem.stay_on_the_end(), false);
        assert_eq!(cem.om_am_pos(), 0);
        assert_eq!(cem.om_am_end_pos(), ((ind - 1) / AMOUNT_MAX) as usize);
        assert_eq!(cem.om_mm_pos(), 0);
        assert_eq!(cem.om_mm_end_pos(), 0);
        if ind <= AMOUNT_MAX { assert_eq!(cem.print_om(0), format!("|F1F{}|F0F0|...", ind)); } 
        else if ind <= AMOUNT_MAX * 2 { assert_eq!(cem.print_om(0), format!("|F1T7|F0F{}|F0F0|...", ind - AMOUNT_MAX)); } 
        else if ind <= AMOUNT_MAX * 3 { assert_eq!(cem.print_om(0), format!("|F1T7|F0T7|F0F{}|F0F0|...", ind - AMOUNT_MAX * 2)); } 
        else if ind <= AMOUNT_MAX * 4 { assert_eq!(cem.print_om(0), format!("|F1T7|F0T7|F0T7|F0F{}|F0F0|...", ind - AMOUNT_MAX * 3)); } 
    }
    full_print(&cem);
}

fn test_cem_06_helper(version: usize) {
    let mut cem = CemInner::new(1024, 1024);
    cem.set_value(0x01);
    cem.next_cell();
    cem.set_value(0x02);
    cem.next_cell();
    cem.set_value(0x04);
    cem.next_cell();
    cem.set_value(0x08);
    loop { 
        cem.prev_cell();
        if let Some(0x01) = cem.get_value() { break; }
    }

    cem.create_cell();
    cem.set_value(0xAC);
    cem.create_cell();
    cem.set_value(0xAB);

    cem.next_cell();
    cem.next_cell();

    cem.create_cell();
    cem.set_value(0x1C);

    cem.delete_cell();
    assert_eq!(cem.get_value(), Some(0x04));
    cem.next_cell();
    assert_eq!(cem.get_value(), Some(0x08));
    cem.prev_cell();

    cem.create_cell();
    cem.create_cell();
    cem.prev_cell();
    cem.create_cell();
    cem.set_value(0x1C);
    cem.prev_cell();
    cem.set_value(0xC1);
    assert_eq!(&cem.print_om(0), "|F1F2|F2F3|F1F0|F0F0|...");
    assert_eq!(cem.error(), false);
    // LOL we really cant! it's first catched by cem error! : cem.delete_cell();
    if version == 1 {
        cem.delete_cell();
        assert_eq!(cem.error(), true);
        return
    }
    cem.next_cell();
    assert_eq!(cem.get_value(), Some(0x1C));
    cem.delete_cell();
    assert_eq!(cem.get_value(), Some(0xC1));
    cem.create_cell();

    if version == 2 || version == 3 || version == 4 || version == 5 {
        cem.prev_cell();
        cem.prev_cell();
        cem.prev_cell();
        cem.prev_cell();
        assert_eq!(cem.error(), false);
        assert_eq!(cem.get_value(), Some(0xAB));
        if version == 2 { cem.create_cell(); }
        if version == 3 { cem.delete_cell(); }
        if version == 4  || version == 5 { 
            cem.next_cell();
            assert_eq!(cem.get_value(), Some(0x02));
            if version == 4 { cem.delete_cell(); }
            else { cem.create_cell(); } 
        }
        assert_eq!(cem.error(), true);
        return
    }

    cem.next_cell();
    cem.create_cell();
    cem.delete_cell();

    cem.delete_cell();
    assert_eq!(cem.get_value(), Some(0x00));
    cem.delete_cell();
    assert_eq!(cem.get_value(), Some(0xC1));
    assert_eq!(&cem.print_om(0), "|F1F2|F2F1|F1F0|F0F0|...");
    cem.delete_cell();
    assert_eq!(&cem.print_om(0), "|F1F2|F3F0|F0F0|...");
    assert_eq!(cem.get_value(), Some(0x04));
    cem.next_cell();
    assert_eq!(cem.get_value(), Some(0x08));
    cem.prev_cell();

    cem.prev_cell();
    cem.prev_cell();

    assert_eq!(cem.get_value(), Some(0xAB));
    cem.delete_cell();
    assert_eq!(cem.get_value(), Some(0xAC));
    assert_eq!(&cem.print_om(0), "|F1F1|F3F0|F0F0|...");
    cem.delete_cell();
    assert_eq!(&cem.print_om(0), "|F4F0|F0F0|...");
    assert_eq!(cem.get_value(), Some(0x01));

    assert_eq!(cem.error(), false);
    full_print(&cem);
}

#[test]    
fn test_cem_06() {
    test_cem_06_helper(1);
    
    test_cem_06_helper(2);
    test_cem_06_helper(3);
    test_cem_06_helper(4);
    test_cem_06_helper(5);

    test_cem_06_helper(0);
}

#[test]    
fn test_cem_07() {
    let check_only_first = |x: &CemInner| {
        assert_eq!(x.get_value(), Some(0x11));
        assert_eq!(x.print_om(0), "|F1F0|F0F0|...");
        assert_eq!(x.print_mm(0), "|11|00|...");
        assert_eq!(x.print_am(0), "|00|...");
        assert_eq!(x.trig_cur_am(), false);
        assert_eq!(x.error(), false);
        assert_eq!(x.am_pos(), None);
        assert_eq!(x.am_last_clear_pos(), None);
        assert_eq!(x.om_am_pos(), 0);
        assert_eq!(x.om_mm_pos(), 0);
        assert_eq!(x.om_am_end_pos(), 0);
        assert_eq!(x.om_mm_end_pos(), 0);
    };

    let mut cem = CemInner::new(1024, 1024);
    cem.set_value(0x11);
    check_only_first(&cem);

    // M : main mem cell
    // A : addi clear mem cell
    // D : addi dirty mem cell

    //  del        here
    //   ↓    then  ↓
    // M A          M
    cem.create_cell();
    assert_eq!(cem.print_om(0), "|F1F1|F0F0|...");
    assert_eq!(cem.print_mm(0), "|11|00|...");
    assert_eq!(cem.print_am(0), "|00|00|...");
    assert_eq!(cem.trig_cur_am(), true);
    cem.delete_cell();
    check_only_first(&cem);

    
    //  del        here
    //   ↓    then  ↓
    // M D          M
    cem.create_cell();
    cem.set_value(0x33);
    cem.delete_cell();
    check_only_first(&cem);

    
    //  del         {here+del}       here
    //   ↓     then     ↓       then  ↓
    // M D A          M A             M
    cem.create_cell();
    cem.create_cell();
    cem.prev_cell();
    cem.set_value(0x33);
    assert_eq!(cem.print_am(0), "|33|00|00|...");
    cem.delete_cell();
    assert_eq!(cem.get_value(), Some(0x00));
    cem.delete_cell();
    check_only_first(&cem);

    //    del         {here+del}         here
    //     ↓     then     ↓         then  ↓
    // M D D A          M D A             M
    cem.create_cell();
    cem.create_cell();
    cem.prev_cell();
    cem.create_cell();
    cem.set_value(0x44);
    cem.prev_cell();
    cem.set_value(0x33);
    assert_eq!(cem.print_am(0), "|33|44|00|00|...");
    cem.next_cell();
    cem.delete_cell();
    assert_eq!(cem.get_value(), Some(0x33));
    assert_eq!(cem.print_am(0), "|33|00|00|...");
    cem.delete_cell();
    assert_eq!(cem.get_value(), Some(0x00));
    assert_eq!(cem.print_am(0), "|00|00|...");
    cem.delete_cell();
    check_only_first(&cem);


    //        del            {here+del}       {here+del}      here
    //         ↓      then        ↓     then      ↓      ...   ↓ 
    // M D A A A A          M D A A A         M D A A          M
    cem.create_cell();  //D
    cem.set_value(0x33);
    cem.create_cell();  //A[1]
    cem.create_cell();  //A[2]
    cem.create_cell();  //A[3]
    cem.create_cell();  //A[4]
    cem.prev_cell();    //cur : A[3]
    assert_eq!(cem.am_pos(), Some(3));
    assert_eq!(cem.print_am(0), "|33|00|00|00|00|00|...");
    assert_eq!(cem.print_om(0), "|F1F5|F0F0|...");
    cem.delete_cell();
    assert_eq!(cem.print_am(0), "|33|00|00|00|00|...");
    assert_eq!(cem.am_pos(), Some(2));
    assert_eq!(cem.get_value(), Some(0x00));
    cem.delete_cell();
    assert_eq!(cem.print_am(0), "|33|00|00|00|...");
    assert_eq!(cem.am_pos(), Some(1));
    assert_eq!(cem.get_value(), Some(0x00));
    cem.delete_cell();
    assert_eq!(cem.print_am(0), "|33|00|00|...");
    assert_eq!(cem.am_pos(), Some(0));
    assert_eq!(cem.get_value(), Some(0x33));
    cem.delete_cell();
    assert_eq!(cem.print_am(0), "|00|00|...");
    assert_eq!(cem.am_pos(), Some(0));
    assert_eq!(cem.get_value(), Some(0x00));
    cem.delete_cell();
    check_only_first(&cem);


    //          del                     
    //           ↓                  
    //      M DAAAA AAAAA AAAAA A   
    //then   
    //                     del            
    //                      ↓        
    //      M DAAAA DAAAA DAAAA    
    //then   
    // ...
    for ind in 0..16 {
        cem.create_cell();
        if ind == 0 { cem.set_value(5); }
    }
    assert_eq!(cem.print_om(0), "|F1T7|F0T7|F0F2|F0F0|...");
    assert_eq!(cem.print_mm(0), "|11|00|...");
    assert_eq!(cem.print_am(0), "|05|00|00|00|00|00|00|00|00|00|00|00|00|00|00|00|00|...");
    for _ in 0..12 { cem.prev_cell(); }
    assert_eq!(cem.am_pos(), Some(3));
    cem.delete_cell();
    assert_eq!(cem.am_pos(), Some(2));
    assert_eq!(cem.print_om(0), "|F1T7|F0T7|F0F1|F0F0|...");
    assert_eq!(cem.print_mm(0), "|11|00|...");
    assert_eq!(cem.print_am(0), "|05|00|00|00|00|00|00|00|00|00|00|00|00|00|00|00|...");

    cem.next_cell();
    cem.next_cell();
    cem.create_cell();
    cem.set_value(0x0A);
    for _ in 0..5 { cem.next_cell(); }
    cem.set_value(0x0F);
    cem.next_cell();
    cem.delete_cell();
    cem.next_cell();
    cem.next_cell();
    assert_eq!(cem.print_om(0), "|F1T7|F0T7|F0F1|F0F0|...");
    assert_eq!(cem.print_mm(0), "|11|00|...");
    assert_eq!(cem.print_am(0), "|05|00|00|00|00|0A|00|00|00|00|0F|00|00|00|00|00|...");
    assert_eq!(cem.am_pos(), Some(12));
    assert_eq!(cem.am_last_clear_pos(), Some(10));

    cem.delete_cell();
    assert_eq!(cem.am_pos(), Some(11));
    assert_eq!(cem.am_last_clear_pos(), Some(10));
    cem.delete_cell();
    assert_eq!(cem.am_pos(), Some(10));
    assert_eq!(cem.am_last_clear_pos(), Some(10));
    assert_eq!(cem.get_value(), Some(0x0F));
    for ind in 0..10 { 
        cem.delete_cell(); 
        assert_eq!(cem.am_last_clear_pos(), Some(9 - ind));
        assert_eq!(cem.am_pos(), Some(9 - ind));
    }
    assert_eq!(cem.print_om(0), "|F1F3|F0F0|...");
    assert_eq!(cem.print_am(0), "|05|00|00|00|...");
    cem.delete_cell();
    assert_eq!(cem.am_pos(), Some(0));
    for _ in 0..2 { cem.delete_cell(); }
    check_only_first(&cem);
}

#[test]
fn test_cem_08() {
    let move_to_start = |cem: &mut CemInner| {
        loop { 
            cem.prev_cell();
            if cem.get_value() == Some(0x01) { break; }  
        }
    };

    let move_forward = |cem: &mut CemInner, step: usize| {
        for _ in 0..step { cem.next_cell(); }
    };

    let move_forward_while = |cem: &mut CemInner, value: u8| {
        loop { 
            cem.next_cell(); 
            if cem.get_value() == Some(value) { break; }
        }
    };

    let mm_const = "|01|02|03|04|05|06|07|08|09|0A|0B|0C|0D|0E|0F|10|11|12|13|14|15|16|17|18|00|...";
    let om_const = "|T7F0|T7F0|T7F0|F3F0|F0F0|...";
    let mut cem = CemInner::new(1024, 1024);
    cem.set_value(0x01);
    for ind in 2..25 {
        cem.next_cell();
        cem.set_value(ind);
    }
    assert_eq!(cem.print_om(0), om_const);
    assert_eq!(cem.print_mm(0), mm_const);

    move_to_start(&mut cem);
    move_forward(&mut cem, 7);
    assert_eq!(cem.get_value(), Some(0x08));
    cem.create_cell();
    assert_eq!(cem.print_om(0), "|T7F1|F1F0|T7F0|T7F0|F2F0|F0F0|...");
    assert_eq!(cem.print_mm(0), mm_const);
    cem.delete_cell();
    assert_eq!(cem.print_om(0), om_const);
    assert_eq!(cem.print_mm(0), mm_const);

    move_forward_while(&mut cem, 15);
    cem.create_cell();
    assert_eq!(cem.print_om(0), "|T7F1|T7F0|F1F0|T7F0|F2F0|F0F0|...");
    assert_eq!(cem.print_mm(0), mm_const);
    cem.delete_cell();
    assert_eq!(cem.print_om(0), om_const);
    assert_eq!(cem.print_mm(0), mm_const);


    move_forward_while(&mut cem, 20);
    cem.create_cell();
    assert_eq!(cem.print_om(0), "|T7F1|T7F0|F6F0|F4F0|F0F0|...");
    assert_eq!(cem.print_mm(0), mm_const);
    cem.delete_cell();
    assert_eq!(cem.print_om(0), om_const);
    assert_eq!(cem.print_mm(0), mm_const);

    move_forward_while(&mut cem, 21);
    cem.create_cell();
    assert_eq!(cem.print_om(0), "|T7F1|T7F0|F7F0|F3F0|F0F0|...");
    assert_eq!(cem.print_mm(0), mm_const);
    cem.delete_cell();
    assert_eq!(cem.print_om(0), om_const);
    assert_eq!(cem.print_mm(0), mm_const);

    move_forward_while(&mut cem, 22);
    cem.create_cell();
    assert_eq!(cem.print_om(0), "|T7F1|T7F0|T7F0|F1F0|F2F0|F0F0|...");
    assert_eq!(cem.print_mm(0), mm_const);
    cem.delete_cell();
    assert_eq!(cem.print_om(0), om_const);
    assert_eq!(cem.print_mm(0), mm_const);

    assert_eq!(cem.error(), false);
}

#[test]
fn test_cem_09() {
    let mut cem = CemInner::new(1024, 1024);
    for _ in 0..15 { cem.next_cell(); }
    assert_eq!(cem.print_om(0), "|T7F0|T7F0|F2F0|F0F0|...");
    assert_eq!(cem.print_mm(0), "|00|00|00|00|00|00|00|00|00|00|00|00|00|00|00|00|00|...");
    for _ in 0..15 { cem.prev_cell(); }
    assert_eq!(cem.print_om(0), "|F1F0|F0F0|...");
    assert_eq!(cem.print_mm(0), "|00|00|...");

    assert_eq!(cem.error(), false);
}

#[test]
fn step_back_after_step_on_returns_to_cell() {
    let mut cem = CemInner::new(16, 16);
    cem.set_value(5);
    cem.next_cell();
    cem.set_value(6);
    cem.prev_cell();
    assert_eq!(cem.get_value(), Some(5));
    assert_eq!(cem.am_pos(), None);
    cem.create_cell();
    assert!(cem.trig_cur_am());
    assert_eq!(cem.am_pos(), Some(0));
    cem.set_value(9);
    cem.next_cell();
    assert_eq!(cem.get_value(), Some(6));
    cem.prev_cell();
    assert_eq!(cem.get_value(), Some(9));
    assert_eq!(cem.am_pos(), Some(0));
    assert!(!cem.error());
}
