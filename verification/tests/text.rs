use icobgone::text::{chars_of, eq_ignore_ascii_case, strip_prefix, substring, to_wide_null, trim_end_nuls};

#[test]
fn wide_null_matches_encode_utf16() {
    for s in ["", "abc", "héllo", "😀 icon", "\u{ffff}\u{10000}\u{10ffff}"] {
        let expected: Vec<u16> = s.encode_utf16().chain(std::iter::once(0)).collect();
        assert_eq!(to_wide_null(s), expected);
    }
}

#[test]
fn wide_null_of_astral_char_is_a_surrogate_pair() {
    assert_eq!(to_wide_null("😀"), vec![0xD83D, 0xDE00, 0]);
}

#[test]
fn trailing_nuls_are_trimmed() {
    assert_eq!(trim_end_nuls("C:\\a.exe\0\0\0"), "C:\\a.exe");
    assert_eq!(trim_end_nuls("\0a\0b\0"), "\0a\0b");
    assert_eq!(trim_end_nuls("\0\0"), "");
    assert_eq!(trim_end_nuls("plain"), "plain");
}

#[test]
fn strip_prefix_matches_std() {
    for (s, p) in [("abc", "ab"), ("abc", "abc"), ("abc", "abcd"), ("abc", ""), ("ébc", "é"), ("abc", "b")] {
        assert_eq!(strip_prefix(s, p), s.strip_prefix(p).map(|r| r.to_string()));
    }
}

#[test]
fn ascii_case_is_ignored() {
    assert!(eq_ignore_ascii_case("LNK", "lnk"));
    assert!(eq_ignore_ascii_case("eXe", "ExE"));
    assert!(!eq_ignore_ascii_case("lnk", "lnk "));
    assert!(!eq_ignore_ascii_case("É", "é"));
    assert!(eq_ignore_ascii_case("", ""));
}

#[test]
fn chars_and_substring() {
    assert_eq!(chars_of("aé😀"), vec!['a', 'é', '😀']);
    assert_eq!(substring("aé😀b", 1, 3), "é😀");
}

