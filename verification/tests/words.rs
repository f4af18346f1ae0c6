use dk_run::words::{decode_words, word_from_le};

#[test]
fn word_is_little_endian() {
    assert_eq!(word_from_le(0x78, 0x56, 0x34, 0x12), 0x1234_5678);
    assert_eq!(word_from_le(0xff, 0xff, 0xff, 0xff), 0xffff_ffff);
    assert_eq!(word_from_le(0, 0, 0, 0x80), 0x8000_0000);
}

#[test]
fn decode_words_reads_four_bytes_each() {
    let bytes = [0x00, 0x00, 0x04, 0x20, 0x01, 0x01, 0x00, 0x20];
    assert_eq!(decode_words(&bytes), vec![0x2004_0000, 0x2000_0101]);
    assert_eq!(decode_words(&[]), Vec::<u32>::new());
}
