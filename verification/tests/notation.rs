use u64_id::decimal::format_decimal;
use u64_id::hex::{format_hex, parse_hex};

fn samples() -> Vec<u64> {
    let mut out = vec![0, 1, 9, 10, 15, 16, 17, 99, 100, 255, 256, 4095, 4096, 65535, 65536];
    for shift in 0..64 {
        let bit = 1u64 << shift;
        out.push(bit);
        out.push(bit - 1);
        out.push(bit | 1);
    }
    let mut power: u64 = 1;
    for _ in 0..19 {
        power *= 10;
        out.push(power - 1);
        out.push(power);
        out.push(power + 1);
    }
    let mut x: u64 = 0x9e37_79b9_7f4a_7c15;
    for _ in 0..500 {
        x ^= x << 13;
        x ^= x >> 7;
        x ^= x << 17;
        out.push(x);
        out.push(x >> (x % 64));
    }
    out.push(u64::MAX - 128);
    out.push(u64::MAX - 1);
    out.push(u64::MAX);
    out
}

#[test]
fn format_hex_exact_values() {
    assert_eq!(format_hex(0, false), "0");
    assert_eq!(format_hex(0, true), "0");
    assert_eq!(format_hex(9, false), "9");
    assert_eq!(format_hex(10, false), "a");
    assert_eq!(format_hex(10, true), "A");
    assert_eq!(format_hex(15, false), "f");
    assert_eq!(format_hex(16, false), "10");
    assert_eq!(format_hex(74565, false), "12345");
    assert_eq!(format_hex(123454321, false), "75bc371");
    assert_eq!(format_hex(123456305, false), "75bcb31");
    assert_eq!(format_hex(0xfedc_ba98_7654_3210, false), "fedcba9876543210");
    assert_eq!(format_hex(0xfedc_ba98_7654_3210, true), "FEDCBA9876543210");
    assert_eq!(format_hex(u64::MAX, false), "ffffffffffffffff");
}

#[test]
fn format_hex_agrees_with_std() {
    for v in samples() {
        assert_eq!(format_hex(v, false), format!("{:x}", v));
        assert_eq!(format_hex(v, true), format!("{:X}", v));
    }
}

#[test]
fn format_decimal_exact_values() {
    assert_eq!(format_decimal(0), "0");
    assert_eq!(format_decimal(7), "7");
    assert_eq!(format_decimal(10), "10");
    assert_eq!(format_decimal(12345), "12345");
    assert_eq!(format_decimal(1_000_000), "1000000");
    assert_eq!(format_decimal(u64::MAX), "18446744073709551615");
}

#[test]
fn format_decimal_agrees_with_std() {
    for v in samples() {
        assert_eq!(format_decimal(v), v.to_string());
    }
}

#[test]
fn parse_hex_exact_values() {
    assert_eq!(parse_hex("0"), Some(0));
    assert_eq!(parse_hex("a"), Some(10));
    assert_eq!(parse_hex("F"), Some(15));
    assert_eq!(parse_hex("10"), Some(16));
    assert_eq!(parse_hex("12345"), Some(74565));
    assert_eq!(parse_hex("a12b345"), Some(168997701));
    assert_eq!(parse_hex("A12B345"), Some(168997701));
    assert_eq!(parse_hex("a12B345"), Some(168997701));
    assert_eq!(parse_hex("75bc371"), Some(123454321));
    assert_eq!(parse_hex("75bcb31"), Some(123456305));
    assert_eq!(parse_hex("123454321"), Some(0x123454321));
    assert_eq!(parse_hex("ffffffffffffffff"), Some(u64::MAX));
    assert_eq!(parse_hex("FFFFFFFFFFFFFFFF"), Some(u64::MAX));
}

#[test]
fn parse_hex_takes_leading_zeros() {
    assert_eq!(parse_hex("00"), Some(0));
    assert_eq!(parse_hex("00ff"), Some(255));
    assert_eq!(parse_hex("0000000000000000000000000001"), Some(1));
    assert_eq!(parse_hex("000000000000000000ffffffffffffffff"), Some(u64::MAX));
}

#[test]
fn parse_hex_refuses_a_sign() {
    assert_eq!(parse_hex("+ff"), None);
    assert_eq!(parse_hex("+0"), None);
    assert_eq!(parse_hex("+1"), None);
    assert_eq!(parse_hex("+000000000000000000ffffffffffffffff"), None);
    assert_eq!(parse_hex("-ff"), None);
    assert_eq!(parse_hex("-0"), None);
    assert_eq!(parse_hex("f+f"), None);
    assert_eq!(parse_hex("ff+"), None);
}

#[test]
fn parse_hex_refuses_what_is_not_hex() {
    for text in [
        "", "+", "-", "++1", "+-1", "-1", "-ff", "zzz", "g", "12g", "g12", "0x10", "0X10", " ff",
        "ff ", "f f", "ff\n", "1_000", "1.5", "é", "ffé", "éff", "１２", "٣", "a\u{0}", "+ ff",
        "ff+", "𝟙",
    ] {
        assert_eq!(parse_hex(text), None, "{text:?}");
    }
}

#[test]
fn parse_hex_refuses_what_does_not_fit() {
    assert_eq!(parse_hex("10000000000000000"), None);
    assert_eq!(parse_hex("ffffffffffffffff0"), None);
    assert_eq!(parse_hex("fffffffffffffffff"), None);
    assert_eq!(parse_hex("+10000000000000000"), None);
    assert_eq!(parse_hex("010000000000000000"), None);
    assert_eq!(parse_hex("18446744073709551615"), None);
    assert_eq!(parse_hex("10000000000000000zz"), None);
    assert_eq!(parse_hex("0ffffffffffffffff"), Some(u64::MAX));
}

#[test]
fn parse_hex_agrees_with_std_on_unsigned_text() {
    let alphabet: Vec<char> = "0123456789abcdefABCDEFg+- _xzGé".chars().collect();
    let mut x: u64 = 0x2545_f491_4f6c_dd1d;
    for _ in 0..20_000 {
        x ^= x << 13;
        x ^= x >> 7;
        x ^= x << 17;
        let len = (x % 20) as usize;
        let mut y = x;
        let mut text = String::new();
        for _ in 0..len {
            y = y.wrapping_mul(6364136223846793005).wrapping_add(1442695040888963407);
            let pick = if (y >> 60) < 13 { (y >> 33) % 22 } else { (y >> 33) % alphabet.len() as u64 };
            text.push(alphabet[pick as usize]);
        }
        let expected = if text.starts_with('+') {
            None
        } else {
            u64::from_str_radix(&text, 16).ok()
        };
        assert_eq!(parse_hex(&text), expected, "{text:?}");
        let signed = format!("+{text}");
        assert_eq!(parse_hex(&signed), None, "{signed:?}");
    }
}

#[test]
fn parse_hex_inverts_format_hex() {
    for v in samples() {
        assert_eq!(parse_hex(&format_hex(v, false)), Some(v));
        assert_eq!(parse_hex(&format_hex(v, true)), Some(v));
    }
}

#[test]
fn format_hex_inverts_parse_hex_on_canonical_text() {
    for text in ["0", "1", "a", "10", "75bc371", "75bcb31", "123454321", "deadbeef", "ffffffffffffffff"] {
        let v = parse_hex(text).unwrap();
        assert_eq!(format_hex(v, false), text);
    }
    for text in ["00", "01", "0a", "A", "DEADBEEF"] {
        let v = parse_hex(text).unwrap();
        assert_ne!(format_hex(v, false), text);
    }
}

#[test]
fn decimal_digits_read_as_hex() {
    assert_eq!(parse_hex(&format_decimal(12345)), Some(0x12345));
    assert_eq!(parse_hex(&format_decimal(0)), Some(0));
    assert_eq!(parse_hex(&format_decimal(9_999_999_999_999_999)), Some(0x9999_9999_9999_9999));
    assert_eq!(parse_hex(&format_decimal(10_000_000_000_000_000)), None);
    for v in samples() {
        let read = parse_hex(&format_decimal(v));
        assert_eq!(read.is_some(), v < 10_000_000_000_000_000, "{v}");
        if let Some(r) = read {
            assert!(r >= v);
            assert_eq!(format_hex(r, false), format_decimal(v));
        }
    }
}
