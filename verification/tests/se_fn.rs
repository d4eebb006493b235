use bf_cell_gen::general::se_fn::{std_se_decoding, std_se_encoding};

#[test]
fn se_encoding_small_and_large() {
    assert_eq!(std_se_encoding(0), vec![0x00]);
    assert_eq!(std_se_encoding(5), vec![0x05]);
    assert_eq!(std_se_encoding(127), vec![0x7F]);
    assert_eq!(std_se_encoding(128), vec![0x80, 0x01]);
    assert_eq!(std_se_encoding(300), vec![0xAC, 0x02]);
}

#[test]
fn se_roundtrip_values() {
    for n in [0usize, 1, 127, 128, 255, 16383, 16384, 1 << 20, usize::MAX] {
        assert_eq!(std_se_decoding(&std_se_encoding(n)), Some(n));
    }
}

#[test]
fn se_decoding_rejects() {
    assert_eq!(std_se_decoding(&[]), None);
    assert_eq!(std_se_decoding(&[0x80]), None);
    assert_eq!(std_se_decoding(&[0x01, 0x02]), None);
    assert_eq!(std_se_decoding(&[0x01, 0x00, 0x00]), Some(1));
}
