use led_control::error::{handle_err, LedControlError};
use led_control::pixel::{column_state, switch_led};
use led_control::segments::{char_segments, digit_segments, with_decimal_point, DECIMAL_POINT};
use max7219::DataError;

#[test]
fn digit_segments_of_each_digit() {
    let expected: [u8; 10] = [
        0b0111_1110,
        0b0011_0000,
        0b0110_1101,
        0b0111_1001,
        0b0011_0011,
        0b0101_1011,
        0b0101_1111,
        0b0111_0000,
        0b0111_1111,
        0b0111_1011,
    ];
    for (value, pattern) in expected.iter().enumerate() {
        assert_eq!(digit_segments(value), *pattern);
    }
}

#[test]
fn char_segments_of_digits_match_digit_segments() {
    for value in 0usize..10 {
        let as_char = char::from_digit(value as u32, 10).unwrap();
        assert_eq!(char_segments(as_char), digit_segments(value));
        let as_code = char::from_u32(value as u32).unwrap();
        assert_eq!(char_segments(as_code), digit_segments(value));
    }
}

#[test]
fn char_segments_of_letters() {
    let letters = [
        ('A', 0b0111_0111u8),
        ('b', 0b0001_1111),
        ('c', 0b0000_1101),
        ('d', 0b0011_1101),
        ('E', 0b0100_1111),
        ('F', 0b0100_0111),
        ('H', 0b0011_0111),
        ('L', 0b0000_1110),
        ('P', 0b0110_0111),
    ];
    for (letter, pattern) in letters {
        assert_eq!(char_segments(letter.to_ascii_uppercase()), pattern);
        assert_eq!(char_segments(letter.to_ascii_lowercase()), pattern);
    }
    assert_eq!(char_segments('n'), 0b0001_0101);
    assert_eq!(char_segments('o'), 0b0001_1101);
    assert_eq!(char_segments('N'), 0);
    assert_eq!(char_segments('O'), 0);
    for code in 10u32..16 {
        let letter = char::from_digit(code, 16).unwrap();
        assert_eq!(char_segments(char::from_u32(code).unwrap()), char_segments(letter));
    }
}

#[test]
fn char_segments_of_signs() {
    assert_eq!(char_segments('.'), 0b1000_0000);
    assert_eq!(char_segments(','), 0b1000_0000);
    assert_eq!(char_segments('-'), 0b0000_0001);
    assert_eq!(char_segments('_'), 0b0000_1000);
    assert_eq!(char_segments(' '), 0);
}

#[test]
fn char_segments_blank_where_nothing_is_defined() {
    let shown = "0123456789ABCDEFHLPabcdefhlnop,-._";
    for code in 16u32..128 {
        let value = char::from_u32(code).unwrap();
        if !shown.contains(value) {
            assert_eq!(char_segments(value), 0, "code {}", code);
        } else {
            assert_ne!(char_segments(value), 0, "code {}", code);
        }
    }
}

#[test]
fn char_segments_beyond_the_table_read_as_space() {
    assert_eq!(char_segments(char::from_u32(200).unwrap()), char_segments(' '));
    assert_eq!(char_segments(char::from_u32(128).unwrap()), 0);
    assert_eq!(char_segments('\u{e9}'), 0);
    assert_eq!(char_segments('\u{10ffff}'), 0);
    assert_eq!(char_segments('\u{7f}'), 0);
}

#[test]
fn decimal_point_is_bit_seven() {
    assert_eq!(DECIMAL_POINT, 0x80);
    assert_eq!(with_decimal_point(0b0111_1111, true), 0b1111_1111);
    assert_eq!(with_decimal_point(0b0111_1111, false), 0b0111_1111);
    assert_eq!(with_decimal_point(0, true), 0b1000_0000);
    assert_eq!(with_decimal_point(0b1000_0000, false), 0b1000_0000);
    assert_eq!(with_decimal_point(0b1000_0001, true), 0b1000_0001);
}

#[test]
fn switch_led_counts_columns_from_the_left() {
    assert_eq!(switch_led(0, 0, true), 0b1000_0000);
    assert_eq!(switch_led(0, 3, true), 0b0001_0000);
    assert_eq!(switch_led(0, 7, true), 0b0000_0001);
    assert_eq!(switch_led(0xFF, 0, false), 0b0111_1111);
    assert_eq!(switch_led(0xFF, 7, false), 0b1111_1110);
    assert_eq!(switch_led(0b0101_0101, 1, true), 0b0101_0101);
    assert_eq!(switch_led(0b0101_0101, 0, false), 0b0101_0101);
}

#[test]
fn switch_led_round_trip_on_every_byte() {
    for byte in 0u8..=255 {
        for col in 0u8..8 {
            let on = switch_led(byte, col, true);
            let off = switch_led(on, col, false);
            assert_eq!(off, switch_led(byte, col, false));
            assert_eq!(on & !(0x80u8 >> col), byte & !(0x80u8 >> col));
            if byte & (0x80 >> col) == 0 {
                assert_eq!(off, byte);
            }
        }
    }
}

#[test]
fn column_state_reads_row_zero_from_bit_seven() {
    assert!(column_state(0b1000_0000, 0));
    assert!(!column_state(0b1000_0000, 1));
    assert!(column_state(0b0000_0001, 7));
    assert!(!column_state(0b1111_1110, 7));
    assert!(column_state(0b0001_0000, 3));
    for value in 0u8..=255 {
        let mut back = 0u8;
        for row in 0u8..8 {
            if column_state(value, row) {
                back |= 1 << (7 - row);
            }
        }
        assert_eq!(back, value);
    }
}

#[test]
fn handle_err_keeps_success_and_wraps_failure() {
    assert!(matches!(handle_err(Ok(())), Ok(())));
    assert!(matches!(handle_err(Err(DataError::Spi)), Err(LedControlError::DataError(DataError::Spi))));
    assert!(matches!(handle_err(Err(DataError::Pin)), Err(LedControlError::DataError(DataError::Pin))));
}
