use wiki_server::text::{
    chars_of, contains_str, first_segment_str, hex_encode, i64_to_decimal, is_blank, lex_less, parse_u16,
    replace_char_str, replace_str, starts_with, str_eq, string_of, trim_str, u64_to_decimal,
};

#[test]
fn chars_round_trip() {
    let s = "héllo wörld";
    let v = chars_of(s);
    assert_eq!(v.len(), 11);
    assert_eq!(string_of(&v), s);
}

#[test]
fn replace_matches_std() {
    for (s, p, r) in [
        ("a&amp;b&amp;", "&amp;", "&"),
        ("aaaa", "aa", "b"),
        ("no match", "xyz", "q"),
        ("", "x", "y"),
        ("&amp;amp;", "&amp;", "&"),
    ] {
        assert_eq!(replace_str(s, p, r), s.replace(p, r));
    }
    assert_eq!(replace_char_str(r"C:\a\b", '\\', '/'), "C:/a/b");
}

#[test]
fn trim_matches_std() {
    for s in ["  x  ", "\t\nabc\r\n", "", "   ", "\u{a0}wide\u{3000}", "inner  space"] {
        assert_eq!(trim_str(s), s.trim());
    }
    assert!(is_blank(" \t "));
    assert!(!is_blank(" a "));
}

#[test]
fn parse_u16_matches_std() {
    for s in ["3000", "+80", "0", "65535", "65536", "", "+", "-1", "12a", " 1", "0065535", "99999999999"] {
        assert_eq!(parse_u16(s), s.parse::<u16>().ok(), "input {:?}", s);
    }
}

#[test]
fn decimal_formatting() {
    assert_eq!(u64_to_decimal(0), "0");
    assert_eq!(u64_to_decimal(1234567890), "1234567890");
    assert_eq!(u64_to_decimal(u64::MAX), u64::MAX.to_string());
    assert_eq!(i64_to_decimal(-42), "-42");
    assert_eq!(i64_to_decimal(i64::MIN), i64::MIN.to_string());
}

#[test]
fn hex_encoding() {
    assert_eq!(hex_encode(&vec![0x00, 0x0f, 0xa5, 0xff]), "000fa5ff");
    let bytes: Vec<u8> = (0..32).collect();
    let expected: String = bytes.iter().map(|b| format!("{:02x}", b)).collect();
    assert_eq!(hex_encode(&bytes), expected);
}

#[test]
fn lexicographic_order_matches_string_order() {
    let words = ["", "a", "ab", "b", "Z", "é", "ä", "abc", "abd"];
    for x in words {
        for y in words {
            assert_eq!(lex_less(x, y), x.to_string() < y.to_string(), "{:?} {:?}", x, y);
        }
    }
}

#[test]
fn prefix_and_containment() {
    assert!(starts_with("Bearer x", "Bearer "));
    assert!(!starts_with("Bear", "Bearer "));
    assert!(contains_str("has result__a here", "result__a"));
    assert!(contains_str("anything", ""));
    assert!(!contains_str("", "a"));
    assert!(str_eq("same", "same"));
    assert!(!str_eq("same", "Same"));
    assert_eq!(first_segment_str("notes.v2.pdf", '.'), "notes");
    assert_eq!(first_segment_str("plain", '.'), "plain");
    assert_eq!(first_segment_str("a3f9-11", '-'), "a3f9");
}

#[test]
fn trim_agrees_with_std_on_every_whitespace_candidate() {
    for c in (0u32..0x3100).filter_map(char::from_u32) {
        let t = format!("{c}x{c}");
        assert_eq!(trim_str(&t), t.trim(), "U+{:04X}", c as u32);
    }
}
