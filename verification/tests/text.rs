use audio_snip::number::{decimal_string, parse_u32, parse_u64};
use audio_snip::text::{from_chars, is_white_space, same_text, split_at_each, strip_prefix, to_chars, trim};

#[test]
fn white_space_agrees_with_standard_library() {
    for code in 0..=0x10ffffu32 {
        if let Some(c) = char::from_u32(code) {
            assert_eq!(is_white_space(c), c.is_whitespace(), "{code:x}");
        }
    }
}

#[test]
fn trim_agrees_with_standard_library() {
    for s in ["", " ", "a", " a ", "\n\ta b\r\n", "\u{3000}x\u{a0}", "x\u{200b}", "\u{85}"] {
        assert_eq!(trim(s), s.trim());
    }
}

#[test]
fn text_goes_through_characters() {
    for s in ["", "abc", "\u{e9}\u{1f3ac}\0"] {
        assert_eq!(to_chars(s), s.chars().collect::<Vec<char>>());
        assert_eq!(from_chars(&to_chars(s)), s);
        assert!(same_text(s, s));
        assert!(!same_text(s, "abd"));
    }
    assert!(!same_text("ab", "abc"));
}

#[test]
fn split_agrees_with_standard_library() {
    for s in ["", ":", "a", "a:b", "::", "a::b:", ":a"] {
        let ours: Vec<String> = split_at_each(s, ':').iter().map(|p| from_chars(p)).collect();
        let theirs: Vec<&str> = s.split(':').collect();
        assert_eq!(ours, theirs);
    }
}

#[test]
fn prefix_is_taken_off() {
    assert_eq!(strip_prefix("bytes=0-1", "bytes=").unwrap(), "0-1");
    assert_eq!(strip_prefix("bytes=", "bytes=").unwrap(), "");
    assert!(strip_prefix("byte", "bytes=").is_none());
    assert!(strip_prefix("Bytes=0-1", "bytes=").is_none());
}

#[test]
fn numbers_agree_with_standard_library() {
    let mut words: Vec<String> = vec![String::new()];
    let mut from = 0;
    for _ in 0..5 {
        let to = words.len();
        for i in from..to {
            for c in ['+', '-', '0', '7', ' '] {
                let mut longer = words[i].clone();
                longer.push(c);
                words.push(longer);
            }
        }
        from = to;
    }
    for w in ["4294967295", "4294967296", "18446744073709551615", "18446744073709551616", "99999999999999999999999"] {
        words.push(w.to_string());
        words.push(format!("+000{w}"));
    }
    for w in &words {
        let chars = to_chars(w);
        assert_eq!(parse_u32(&chars), w.parse::<u32>().ok(), "{w}");
        assert_eq!(parse_u64(&chars), w.parse::<u64>().ok(), "{w}");
    }
}

#[test]
fn decimals_read_back() {
    for n in [0u64, 7, 10, 99, 100, 4096, 4294967296, u64::MAX] {
        assert_eq!(decimal_string(n), n.to_string());
        assert_eq!(parse_u64(&to_chars(&decimal_string(n))), Some(n));
    }
}
