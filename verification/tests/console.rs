use bf_cell_gen::dev_emulators::console::console_inner::{PrivateConsoleNeedWrite, ReadStep};
use bf_cell_gen::dev_emulators::console::{DevConsoleAscii, DevConsoleNum, DevConsoleUtf8};

fn marked() -> PrivateConsoleNeedWrite {
    PrivateConsoleNeedWrite { need_write_state: true }
}

fn plain() -> PrivateConsoleNeedWrite {
    PrivateConsoleNeedWrite { need_write_state: false }
}

#[test]
fn ascii_console_marks_input_and_output() {
    let mut c = DevConsoleAscii::new(marked());
    c.write_byte(b'A');
    c.write_byte(b'b');
    assert_eq!(c.take_output(), "[OUTPUT]:\nAb");
    assert!(c.read_step() == ReadStep::NeedLine);
    assert_eq!(c.take_output(), "\n[INPUT ]:\n");
    assert!(c.resume_read(Some("hi\n")) == ReadStep::Byte(b'h'));
    assert!(c.read_step() == ReadStep::Byte(b'i'));
    assert!(c.read_step() == ReadStep::Byte(b'\n'));
    assert!(c.read_step() == ReadStep::Byte(b'\n'));
    assert!(c.read_step() == ReadStep::NeedLine);
    assert_eq!(c.take_output(), "");
    c.write_byte(b'z');
    assert_eq!(c.take_output(), "[OUTPUT]:\nz");
    assert!(!c.have_error());
}

#[test]
fn ascii_console_refuses_other_bytes() {
    let mut c = DevConsoleAscii::new(plain());
    c.write_byte(0x80);
    assert!(c.have_error());
    assert!(!c.in_infinity_state());
    assert!(c.read_step() == ReadStep::Byte(0));
    assert!(c.in_infinity_state());
    assert_eq!(c.take_output(), "");

    let mut c = DevConsoleAscii::new(plain());
    assert!(c.read_step() == ReadStep::NeedLine);
    assert!(c.resume_read(Some("é")) == ReadStep::Byte(0));
    assert!(c.have_error());

    let mut c = DevConsoleAscii::new(plain());
    assert!(c.read_step() == ReadStep::NeedLine);
    assert!(c.resume_read(None) == ReadStep::Byte(0));
    assert!(c.have_error());
    assert!(!c.test_can_read_byte());
}

#[test]
fn num_console_writes_lines() {
    let mut c = DevConsoleNum::new(2);
    c.write_byte(7);
    c.write_byte(255);
    c.write_byte(0);
    assert_eq!(c.take_output(), "7 255 \n0 ");
    let mut c = DevConsoleNum::new(0);
    c.write_byte(10);
    c.write_byte(11);
    c.write_byte(12);
    assert_eq!(c.take_output(), "10 11 12 ");
}

#[test]
fn num_console_reads_numbers() {
    let mut c = DevConsoleNum::new(10);
    assert!(c.read_step() == ReadStep::NeedLine);
    assert!(c.resume_read(Some("  12 7\n")) == ReadStep::Byte(12));
    assert!(c.read_step() == ReadStep::Byte(7));
    assert!(c.read_step() == ReadStep::NeedLine);
    assert!(c.resume_read(Some("\n")) == ReadStep::NeedLine);
    assert!(c.resume_read(Some("25")) == ReadStep::Byte(25));
    assert!(!c.have_error());
}

#[test]
fn num_console_number_spans_reads() {
    let mut c = DevConsoleNum::new(10);
    assert!(c.read_step() == ReadStep::NeedLine);
    assert!(c.resume_read(Some("300 ")) == ReadStep::Byte(0));
    assert!(c.have_error());

    let mut c = DevConsoleNum::new(10);
    assert!(c.read_step() == ReadStep::NeedLine);
    assert!(c.resume_read(Some("1234")) == ReadStep::Byte(0));
    assert!(c.have_error());

    let mut c = DevConsoleNum::new(10);
    assert!(c.read_step() == ReadStep::NeedLine);
    assert!(c.resume_read(Some("4x")) == ReadStep::Byte(0));
    assert!(c.have_error());
    assert!(c.read_step() == ReadStep::Byte(0));
    assert!(c.in_infinity_state());
}

#[test]
fn utf8_console_reads_length_then_bytes() {
    let mut c = DevConsoleUtf8::new(plain());
    assert!(c.read_step() == ReadStep::NeedLine);
    assert!(c.resume_read(Some("é")) == ReadStep::Byte(2));
    assert!(c.read_step() == ReadStep::Byte(0xC3));
    assert!(c.read_step() == ReadStep::Byte(0xA9));
    assert!(c.read_step() == ReadStep::Byte(1));
    assert!(c.read_step() == ReadStep::Byte(b'\n'));
    assert!(c.read_step() == ReadStep::NeedLine);
    assert!(c.resume_read(Some("€")) == ReadStep::Byte(3));
    assert!(c.read_step() == ReadStep::Byte(0xE2));
    assert!(c.read_step() == ReadStep::Byte(0x82));
    assert!(c.read_step() == ReadStep::Byte(0xAC));
}

#[test]
fn utf8_console_writes_utf8_characters() {
    let mut c = DevConsoleUtf8::new(plain());
    c.write_byte(1);
    c.write_byte(0x41);
    c.write_byte(2);
    c.write_byte(0xC3);
    c.write_byte(0xA9);
    c.write_byte(3);
    c.write_byte(0xE2);
    c.write_byte(0x82);
    c.write_byte(0xAC);
    assert_eq!(c.take_output(), "Aé€");
    assert!(!c.have_error());
    c.write_byte(2);
    c.write_byte(0xD8);
    c.write_byte(0x00);
    assert!(c.have_error());

    let mut c = DevConsoleUtf8::new(plain());
    c.write_byte(5);
    assert!(c.have_error());

    let mut c = DevConsoleUtf8::new(plain());
    c.write_byte(1);
    assert!(c.read_step() == ReadStep::Byte(0));
    assert!(c.in_infinity_state());
}
