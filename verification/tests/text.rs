use musicbee_iced::text::{chars_of, parse_i32, parse_u32, parse_usize, push_decimal};

fn c(s: &str) -> Vec<char> {
    chars_of(s)
}

#[test]
fn parses_like_from_str() {
    for s in ["0", "42", "+7", "0007", "4294967295", "", "+", "-1", "-0", "4294967296", "1 ", " 1", "١"] {
        assert_eq!(parse_u32(&c(s)), s.parse::<u32>().ok(), "u32 {s:?}");
    }
    for s in ["0", "-0", "-2147483648", "-2147483649", "2147483647", "2147483648", "+-1", "-+1", "-", "+5", "--1"] {
        assert_eq!(parse_i32(&c(s)), s.parse::<i32>().ok(), "i32 {s:?}");
    }
    for s in ["18446744073709551615", "18446744073709551616", "12"] {
        assert_eq!(parse_usize(&c(s)), s.parse::<usize>().ok(), "usize {s:?}");
    }
}

#[test]
fn decimal_rendering_reads_back() {
    for n in [0u64, 9, 10, 99, 100, 12345, u64::MAX] {
        let mut s = String::new();
        push_decimal(&mut s, n);
        assert_eq!(s, n.to_string());
    }
    for n in [0u32, 1, 65535, u32::MAX] {
        let mut s = String::new();
        push_decimal(&mut s, n as u64);
        assert_eq!(parse_u32(&c(&s)), Some(n));
    }
}
