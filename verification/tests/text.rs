use akasha_core::single;
use akasha_core::text::{
    chars_of, is_named, parse_usize, same_text, trim, words, write_decimal, write_padded,
};

fn parse(s: &str) -> Option<usize> {
    parse_usize(&chars_of(s))
}

#[test]
fn numbers_are_written_and_read() {
    for n in [0usize, 7, 10, 99, 100, 16_000_000, usize::MAX] {
        let s = write_decimal(n as u64);
        assert_eq!(s, n.to_string());
        assert_eq!(parse(&s), Some(n));
    }
    assert_eq!(write_padded(42, 5), "00042");
    assert_eq!(write_padded(123456, 5), "123456");
}

#[test]
fn numbers_are_read_as_std_reads_them() {
    for s in [
        "", "+", "+7", "-7", "007", "18446744073709551615", "18446744073709551616", "1 ", " 1",
        "12a", "++1", "99999999999999999999999", "٣",
    ] {
        assert_eq!(parse(s), s.parse::<usize>().ok(), "{s:?}");
    }
}

#[test]
fn white_space_is_that_of_std() {
    for s in [
        "", "  ", "a", " a ", "\t\n a b \r\n", "\u{a0}x\u{3000}", "\u{2028}y", "\u{200b}z ",
        "\u{85}\u{1680}q\u{202f}\u{205f}",
    ] {
        assert_eq!(trim(s), s.trim(), "{s:?}");
        let ours = words(s);
        let theirs: Vec<&str> = s.split_whitespace().collect();
        assert_eq!(ours, theirs, "{s:?}");
    }
    assert_eq!(words("  run \u{2003} 12\tx "), ["run", "12", "x"]);
}

#[test]
fn names_ignore_the_case_of_ascii() {
    assert!(is_named(&chars_of("ExIt"), "exit"));
    assert!(!is_named(&chars_of("exits"), "exit"));
    assert!(!is_named(&chars_of("exi\u{307}t"), "exit"));
    assert!(same_text("a", "a"));
    assert!(!same_text("a", "A"));
}

#[test]
fn bits_are_judged_as_their_values() {
    let values = [
        0.0f32, -0.0, 1.0, -1.0, 0.1, 100.0, 99.999, 1e-7, 1e-45, -1e-45, f32::MAX, f32::MIN,
        f32::INFINITY, f32::NEG_INFINITY, f32::NAN, -f32::NAN,
    ];
    for a in values {
        let x = a.to_bits();
        assert_eq!(single::is_nan(x), a.is_nan());
        assert_eq!(single::is_finite(x), a.is_finite());
        assert_eq!(single::is_zero(x), a == 0.0);
        for b in values {
            assert_eq!(single::is_greater(x, b.to_bits()), a > b, "{a} {b}");
            if !a.is_nan() && !b.is_nan() {
                assert_eq!(single::key(x) == single::key(b.to_bits()), a == b);
            }
        }
    }
}
