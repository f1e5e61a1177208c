use cyw43_spi::buffer::{slice32_mut, slice32_ref, word_count, WordBuf};

#[test]
fn words_are_little_endian_and_padded() {
    let buf = WordBuf::from_bytes(&[1, 2, 3, 4, 5, 6]);
    assert_eq!(buf.len(), 6);
    assert_eq!(slice32_ref(&buf).to_vec(), vec![0x0403_0201, 0x0000_0605]);
    assert_eq!(buf.get(0), 1);
    assert_eq!(buf.get(5), 6);
}

#[test]
fn empty_buffer() {
    let buf = WordBuf::from_bytes(&[]);
    assert_eq!(buf.len(), 0);
    assert_eq!(slice32_ref(&buf).len(), 0);
}

#[test]
fn word_counts() {
    assert_eq!(word_count(0), 0);
    assert_eq!(word_count(1), 1);
    assert_eq!(word_count(4), 1);
    assert_eq!(word_count(5), 2);
    assert_eq!(word_count(usize::MAX), usize::MAX / 4 + 1);
}

#[test]
fn bytes_are_copied_in() {
    let mut buf = WordBuf::from_bytes(&[0xFF; 8]);
    buf.copy_in(3, &[10, 11, 12, 13], 1, 3);
    let mut out = [0u8; 8];
    buf.copy_out(0, &mut out, 0, 8);
    assert_eq!(out, [255, 255, 255, 11, 12, 13, 255, 255]);
}

#[test]
fn bytes_are_copied_out() {
    let mut buf = WordBuf::from_bytes(&[0; 12]);
    slice32_mut(&mut buf)[1] = 0x4433_2211;
    slice32_mut(&mut buf)[2] = 0x8877_6655;
    let mut out = [9u8; 7];
    buf.copy_out(4, &mut out, 1, 5);
    assert_eq!(out, [9, 0x11, 0x22, 0x33, 0x44, 0x55, 9]);
}

#[test]
fn head_is_replaced() {
    let mut buf = WordBuf::from_bytes(&[1, 2, 3, 4, 5]);
    assert_eq!(buf.head(), 0x0403_0201);
    buf.set_head(0xAABB_CCDD);
    assert_eq!(buf.head(), 0xAABB_CCDD);
    assert_eq!(buf.get(0), 0xDD);
    assert_eq!(buf.get(4), 5);
}
