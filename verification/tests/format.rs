use vga_console::format::{u32_to_str, DIGIT_ZERO, MAX_DIGITS};

#[test]
fn zero_is_the_single_digit_zero() {
    let mut buffer = [0u8; 10];
    let out = u32_to_str(0, &mut buffer);
    assert_eq!(out.len(), 1);
    assert_eq!(out, &[b'0'][..]);
}

#[test]
fn digits_come_least_significant_first() {
    let mut buffer = [0u8; 10];
    let out = u32_to_str(12345, &mut buffer);
    assert_eq!(out, &[b'5', b'4', b'3', b'2', b'1'][..]);
}

#[test]
fn forty_two_reads_backwards() {
    let mut buffer = [0u8; 10];
    assert_eq!(u32_to_str(42, &mut buffer), &b"24"[..]);
}

#[test]
fn largest_value_fits_in_ten_bytes() {
    let mut buffer = [0u8; 10];
    let out = u32_to_str(4294967295, &mut buffer);
    assert_eq!(out, &b"5927694924"[..]);
    assert_eq!(out.len(), MAX_DIGITS);
}

#[test]
fn short_buffer_gets_the_low_digits() {
    let mut buffer = [0u8; 3];
    let out = u32_to_str(4294967295, &mut buffer);
    assert_eq!(out.len(), 3);
    assert_eq!(out, &b"592"[..]);
}

#[test]
fn buffer_of_exactly_the_digit_count_is_not_cut() {
    let mut buffer = [0u8; 5];
    assert_eq!(u32_to_str(12345, &mut buffer), &b"54321"[..]);
    let mut shorter = [0u8; 4];
    assert_eq!(u32_to_str(12345, &mut shorter), &b"5432"[..]);
}

#[test]
fn empty_buffer_gets_nothing() {
    let mut buffer = [0u8; 0];
    assert_eq!(u32_to_str(7, &mut buffer).len(), 0);
    assert_eq!(u32_to_str(0, &mut buffer).len(), 0);
}

#[test]
fn single_digits_and_round_numbers() {
    let mut buffer = [0u8; 10];
    assert_eq!(u32_to_str(7, &mut buffer), &b"7"[..]);
    assert_eq!(u32_to_str(9, &mut buffer), &b"9"[..]);
    assert_eq!(u32_to_str(10, &mut buffer), &b"01"[..]);
    assert_eq!(u32_to_str(100, &mut buffer), &b"001"[..]);
    assert_eq!(u32_to_str(1_000_000_000, &mut buffer), &b"0000000001"[..]);
    assert_eq!(u32_to_str(999_999_999, &mut buffer), &b"999999999"[..]);
}

#[test]
fn bytes_behind_the_digits_are_left_alone() {
    let mut buffer = [0xaau8; 10];
    let written = u32_to_str(907, &mut buffer).len();
    assert_eq!(written, 3);
    assert_eq!(&buffer[..3], &b"709"[..]);
    assert_eq!(&buffer[3..], &[0xaau8; 7][..]);
}

#[test]
fn returned_slice_is_the_front_of_the_buffer() {
    let mut buffer = [0u8; 10];
    let out = u32_to_str(65535, &mut buffer).to_vec();
    assert_eq!(&buffer[..out.len()], &out[..]);
    assert_eq!(out, b"53556".to_vec());
}

#[test]
fn digits_denote_the_value() {
    let values = [0u32, 1, 9, 10, 11, 99, 100, 101, 4096, 65535, 65536, 123456789, 4294967294, 4294967295];
    for value in values {
        let mut buffer = [0u8; 10];
        let out = u32_to_str(value, &mut buffer);
        let mut number: u64 = 0;
        for digit in out.iter().rev() {
            assert!((b'0'..=b'9').contains(digit));
            number = number * 10 + (digit - DIGIT_ZERO) as u64;
        }
        assert_eq!(number, value as u64);
        assert_eq!(out.len(), value.to_string().len());
    }
}
