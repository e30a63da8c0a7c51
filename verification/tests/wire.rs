use pagestore::wire::{decode_byte_count, decode_offset, frame, CountWidth};

#[test]
fn offset_is_little_endian() {
    assert_eq!(decode_offset(&[1, 2, 0, 0, 0, 0, 0, 0], 8), 513);
    assert_eq!(decode_offset(&[0x78, 0x56, 0x34, 0x12, 0, 0, 0, 0], 8), 0x1234_5678);
    assert_eq!(
        decode_offset(&[0xef, 0xcd, 0xab, 0x89, 0x67, 0x45, 0x23, 0x01], 8),
        0x0123_4567_89ab_cdef
    );
}

#[test]
fn offset_bounds() {
    assert_eq!(decode_offset(&[0; 8], 8), 0);
    assert_eq!(decode_offset(&[0xff; 8], 8), u64::MAX);
    assert_eq!(decode_offset(&[0, 0, 0, 0, 0, 0, 0, 0x80], 8), 1u64 << 63);
}

#[test]
fn offset_takes_the_first_eight_bytes() {
    assert_eq!(decode_offset(&[0, 16, 0, 0, 0, 0, 0, 0, 7, 7, 7], 11), 4096);
}

#[test]
fn offset_counts_only_what_was_delivered() {
    let data = [1, 2, 3, 4, 5, 6, 7, 8];
    assert_eq!(decode_offset(&data, 1), 1);
    assert_eq!(decode_offset(&data, 2), 0x0201);
    assert_eq!(decode_offset(&data, 0), 0);
    assert_eq!(decode_offset(&data, 8), 0x0807_0605_0403_0201);
    assert_eq!(decode_offset(&data, 100), 0x0807_0605_0403_0201);
}

#[test]
fn offset_of_a_short_buffer_is_zero_padded() {
    assert_eq!(decode_offset(&[], 8), 0);
    assert_eq!(decode_offset(&[5], 8), 5);
    assert_eq!(decode_offset(&[0, 1], 8), 256);
}

#[test]
fn byte_count_of_four_bytes() {
    assert_eq!(decode_byte_count(&[0, 0, 0, 0], 4, CountWidth::Four), 0);
    assert_eq!(decode_byte_count(&[0, 16, 0, 0], 4, CountWidth::Four), 4096);
    assert_eq!(decode_byte_count(&[1, 16, 0, 0], 4, CountWidth::Four), 4097);
    assert_eq!(decode_byte_count(&[0xff, 0xff, 0xff, 0xff], 4, CountWidth::Four), 0xffff_ffff);
}

#[test]
fn byte_count_of_four_bytes_ignores_what_follows() {
    assert_eq!(decode_byte_count(&[1, 0, 0, 0, 9, 9, 9, 9], 8, CountWidth::Four), 1);
}

#[test]
fn byte_count_of_eight_bytes() {
    assert_eq!(decode_byte_count(&[1, 0, 0, 0, 9, 0, 0, 0], 8, CountWidth::Eight), 0x9_0000_0001);
    assert_eq!(decode_byte_count(&[0xff; 8], 8, CountWidth::Eight), u64::MAX);
    assert_eq!(decode_byte_count(&[1, 16, 0, 0], 4, CountWidth::Eight), 4097);
}

#[test]
fn byte_count_counts_only_what_was_delivered() {
    assert_eq!(decode_byte_count(&[1, 16, 3, 4], 2, CountWidth::Four), 4097);
    assert_eq!(decode_byte_count(&[1, 16, 3, 4], 0, CountWidth::Four), 0);
}

#[test]
fn width_is_four_bytes_unless_agreed_otherwise() {
    assert_eq!(CountWidth::default(), CountWidth::Four);
}

#[test]
fn width_in_bytes() {
    assert_eq!(CountWidth::Four.bytes(), 4);
    assert_eq!(CountWidth::Eight.bytes(), 8);
}

#[test]
fn frame_keeps_delivered_bytes_and_pads_with_zeros() {
    assert_eq!(frame(&[1, 2, 3], 3, 5), vec![1, 2, 3, 0, 0]);
    assert_eq!(frame(&[1, 2, 3], 2, 5), vec![1, 2, 0, 0, 0]);
    assert_eq!(frame(&[1, 2, 3], 9, 5), vec![1, 2, 3, 0, 0]);
    assert_eq!(frame(&[1, 2, 3], 0, 2), vec![0, 0]);
}

#[test]
fn frame_cuts_to_the_length() {
    assert_eq!(frame(&[1, 2, 3, 4], 4, 2), vec![1, 2]);
    assert_eq!(frame(&[1, 2, 3, 4], 4, 0), Vec::<u8>::new());
}

#[test]
fn frame_of_a_page() {
    let data = vec![0xabu8; 5000];
    let page = frame(&data, 100, 4096);
    assert_eq!(page.len(), 4096);
    assert!(page[..100].iter().all(|b| *b == 0xab));
    assert!(page[100..].iter().all(|b| *b == 0));
}
