use postwoman::text::{chars_of, contains, is_whitespace, less, trim};

#[test]
fn whitespace_matches_the_standard_library() {
    for u in 0u32..=0x10FFFF {
        if let Some(c) = char::from_u32(u) {
            assert_eq!(is_whitespace(c), c.is_whitespace(), "U+{u:04X}");
        }
    }
}

#[test]
fn trim_matches_the_standard_library() {
    for s in ["", "  ", " a ", "\t\n x y \r\n", "\u{3000}넓은\u{00A0}", "abc", " \u{2028}a\u{85}"] {
        assert_eq!(trim(s), s.trim(), "{s:?}");
    }
}

#[test]
fn contains_matches_the_standard_library() {
    let hays = ["", "https://httpbin.org/get", "héllo wörld", "aaab"];
    let needles = ["", "http", "get", "ö", "wör", "aab", "xyz", "https://httpbin.org/get/"];
    for h in hays {
        for n in needles {
            assert_eq!(contains(h, n), h.contains(n), "{h:?} {n:?}");
        }
    }
}

#[test]
fn less_matches_string_order() {
    let words = ["", "a", "ab", "b", "Z", "é", "가", "x-b", "x-a", "content-type"];
    for a in words {
        for b in words {
            assert_eq!(less(a, b), a < b, "{a:?} {b:?}");
        }
    }
}

#[test]
fn chars_in_order() {
    assert_eq!(chars_of("a가b"), vec!['a', '가', 'b']);
}

#[test]
fn trimming_twice_is_trimming_once() {
    for s in ["  a b  ", "\u{3000}\u{2028}x\u{85}", "", "   "] {
        assert_eq!(trim(trim(s)), trim(s));
    }
}
