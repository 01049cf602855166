use loglens::text::{chars_of, contains_str, str_eq, trim_str};

#[test]
fn trim_matches_std() {
    for s in ["", "  ", " a ", "\t\na b\r\n", "\u{3000}登录\u{2028}", "\u{85}x\u{a0}", "\u{200b}x"] {
        assert_eq!(trim_str(s), s.trim(), "{s:?}");
    }
}

#[test]
fn contains_matches_std() {
    let cases = [("abc", "b"), ("abc", "abcd"), ("", ""), ("aaab", "aab"), ("登录成功", "成功"), ("x", "")];
    for (h, n) in cases {
        assert_eq!(contains_str(h, n), h.contains(n), "{h:?} {n:?}");
    }
}

#[test]
fn chars_and_equality() {
    assert_eq!(chars_of("a登b"), vec!['a', '登', 'b']);
    assert!(str_eq("登录", "登录"));
    assert!(!str_eq("登录", "登"));
    assert!(!str_eq("ab", "ba"));
}
