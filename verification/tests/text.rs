use ntoseye::text::{
    decimal, decimal_int, find, hexadecimal, hexadecimal_padded, hexadecimal_prefixed, is_before,
    join, pad_left, pad_right, parse_unsigned, repeat, same, split_lines, trim, whitespace,
};
use ntoseye::ui;

fn chars(s: &str) -> Vec<char> {
    s.chars().collect()
}

#[test]
fn numbers_are_written_as_std_writes_them() {
    for v in [0, 7, 10, 255, 4096, u64::MAX] {
        assert_eq!(decimal(v), v.to_string());
        assert_eq!(hexadecimal(v), format!("{v:x}"));
        assert_eq!(hexadecimal_prefixed(v), format!("{v:#x}"));
        assert_eq!(hexadecimal_padded(v, 16), format!("{v:016x}"));
        assert_eq!(hexadecimal_padded(v, 4), format!("{v:04x}"));
    }
    for v in [0, -1, 42, i64::MAX, i64::MIN + 1] {
        assert_eq!(decimal_int(v), v.to_string());
    }
}

#[test]
fn numbers_are_read_as_std_reads_them() {
    for s in ["0", "9", "+9", "", "+", "-1", "12a", "ff", "FF", "256", "99999999999999999999"] {
        assert_eq!(parse_unsigned(&chars(s), 10, 255), s.parse::<u8>().ok().map(u64::from), "{s}");
        assert_eq!(
            parse_unsigned(&chars(s), 16, u64::MAX),
            u64::from_str_radix(s, 16).ok(),
            "{s}"
        );
    }
}

#[test]
fn white_space_is_that_of_unicode() {
    for c in (0..0x3100u32).filter_map(char::from_u32) {
        assert_eq!(whitespace(c), c.is_whitespace(), "{c:?}");
    }
    assert_eq!(trim("\u{3000} a b\t\n"), "a b");
    assert_eq!(trim(" \n"), "");
}

#[test]
fn lines_are_cut_as_std_cuts_them() {
    for s in ["", "a", "a\n", "a\nb", "a\r\nb\r", "\n\n", "a\r\r\nb\n"] {
        assert_eq!(split_lines(s), s.lines().collect::<Vec<_>>(), "{s:?}");
    }
}

#[test]
fn padding_counts_characters() {
    for s in ["", "ab", "äöü", "abcdef"] {
        assert_eq!(pad_right(s, 4), format!("{s:<4}"));
        assert_eq!(pad_left(s, ' ', 4), format!("{s:>4}"));
    }
    assert_eq!(repeat('x', 3), "xxx");
    assert_eq!(join(&["a".to_string(), "b".to_string(), "c".to_string()], ", "), "a, b, c");
    assert_eq!(join(&[], ", "), "");
    assert!(same("ab", "ab") && !same("ab", "abc"));
    assert_eq!(find(&chars("a-b-c"), 2, '-'), 3);
    assert_eq!(find(&chars("abc"), 0, '-'), 3);
}

#[test]
fn order_is_that_of_std() {
    let words = ["", "a", "ab", "b", "A", "é", "0", "10", "9"];
    for a in words {
        for b in words {
            assert_eq!(is_before(a, b), a < b, "{a} {b}");
        }
    }
}

#[test]
fn the_house_style_is_ansi() {
    assert_eq!(ui::addr(0xabc), "\x1b[1m\x1b[97m0000000000000abc\x1b[39m\x1b[0m");
    assert_eq!(ui::addr_opt(Some(1)), ui::addr(1));
    assert_eq!(ui::addr_opt(None), "\x1b[90munknown\x1b[39m");
    assert_eq!(ui::muted("x"), "\x1b[90mx\x1b[39m");
    assert_eq!(ui::label("x"), "\x1b[1mx\x1b[0m");
    assert_eq!(ui::symbol("nt!Foo"), "\x1b[32mnt!Foo\x1b[39m");
    assert_eq!(
        ui::symbol("nt!Foo+0x1c"),
        "\x1b[32mnt!Foo\x1b[39m\x1b[90m+0x1c\x1b[39m"
    );
    assert_eq!(ui::bp_id(3), "\x1b[1m#3\x1b[0m");
    assert_eq!(ui::thread_id("p1.1"), "\x1b[1mp1.1\x1b[0m");
    assert_eq!(ui::badge("BREAK"), "\x1b[1m\x1b[31m BREAK \x1b[39m\x1b[0m");
    assert_eq!(ui::plate(" x "), "\x1b[1m x \x1b[0m");
}
