use blue_compositor::geometry::{halve, to_i32, to_u32};
use blue_compositor::text::{decimal_text, join_path, lines, signed_decimal_text, trim};

#[test]
fn numbers_are_written_in_decimal() {
    for n in [0, 9, 10, 99, 100, 4294967296, u64::MAX] {
        assert_eq!(decimal_text(n), n.to_string());
    }
    for i in [0, -1, 5, -10, 1234, i32::MAX, i32::MIN] {
        assert_eq!(signed_decimal_text(i), i.to_string());
    }
}

#[test]
fn paths_are_joined_like_those_of_std() {
    for (base, leaf) in [("/a", "b"), ("/a/", "b"), ("", "b"), ("/", "b"), ("a/b", "c.d")] {
        let expected = std::path::PathBuf::from(base).join(leaf);
        assert_eq!(join_path(base, leaf), expected.to_string_lossy());
    }
}

#[test]
fn trimming_is_that_of_std() {
    for s in ["", " ", "a", " a ", "\t\n\u{a0}x y\u{3000}\u{2028}", "\u{200b}z\u{200b}", "\u{85}q\u{1680}"] {
        assert_eq!(trim(s), s.trim());
    }
}

#[test]
fn lines_are_those_of_std() {
    for s in ["", "\n", "a", "a\n", "a\r\nb", "a\rb\n\nc\r", "\r\n\r\n", "x\n\r\ny\r\n", "\r"] {
        let expected: Vec<String> = s.lines().map(String::from).collect();
        assert_eq!(lines(s), expected);
    }
}

#[test]
fn casts_keep_the_bits() {
    for v in [0, 1, -1, i32::MAX, i32::MIN, -77] {
        assert_eq!(to_u32(v), v as u32);
        assert_eq!(to_i32(to_u32(v)), v);
    }
    assert_eq!(to_i32(u32::MAX), -1);
    for v in [0, 1, 2, 7, -1, -7, -8] {
        assert_eq!(halve(v), v / 2);
    }
}
