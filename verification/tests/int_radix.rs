use std_mangle_rs::int_radix::{ascii_digit_to_value, radix};

const DIGITS: &[u8] = b"0123456789abcdefghijklmnopqrstuvwxyzABCDEFGHIJKLMNOPQRSTUVWXYZ";

#[test]
fn ascii_digit_to_value_cross_check() {
    for (i, &d) in DIGITS.iter().enumerate() {
        for radix in 0..DIGITS.len() {
            if i < radix {
                assert_eq!(Some(i as u64), ascii_digit_to_value(d, radix as u8));
            } else {
                assert_eq!(None, ascii_digit_to_value(d, radix as u8));
            }
        }
    }
}

#[test]
fn radix_fmt_display_zero() {
    for base in 2..=62 {
        assert_eq!("0", &radix(base as u8, 0).render());
    }
}

#[test]
fn radix_fmt_display_max_digit() {
    for base in 2..=62usize {
        let expected = &[DIGITS[base - 1]];
        let expected = std::str::from_utf8(expected).unwrap();
        let actual = radix(base as u8, base as u64 - 1).render();
        assert_eq!(expected, actual);
    }
}
