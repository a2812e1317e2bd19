use adaptive_site::text::{chars_of, contains_seq, first_piece, lowercase, split_on, starts_with_seq, trim_chars};

fn v(s: &str) -> Vec<char> {
    s.chars().collect()
}

#[test]
fn split_keeps_empty_pieces() {
    assert_eq!(split_on(&v(""), ';'), vec![v("")]);
    assert_eq!(split_on(&v(";"), ';'), vec![v(""), v("")]);
    assert_eq!(split_on(&v("a;b;;c"), ';'), vec![v("a"), v("b"), v(""), v("c")]);
    assert_eq!(first_piece(&v("de-DE;q=0.9"), ';'), v("de-DE"));
}

#[test]
fn trim_matches_str_trim() {
    for s in ["", "  ", " a b ", "\u{3000}x\u{2009}", "\t\r\nlang=de \u{85}", "\u{200B}z"] {
        let expected: Vec<char> = s.trim().chars().collect();
        assert_eq!(trim_chars(&v(s)), expected, "{:?}", s);
    }
}

#[test]
fn substring_and_prefix() {
    assert!(contains_seq(&v("googlebot/2.1"), &v("bot")));
    assert!(contains_seq(&v("abc"), &v("")));
    assert!(!contains_seq(&v("bo"), &v("bot")));
    assert!(starts_with_seq(&v("lang=de"), &v("lang=")));
    assert!(!starts_with_seq(&v("xlang=de"), &v("lang=")));
}

#[test]
fn lowercase_and_chars() {
    assert_eq!(lowercase(&v("MoZiLLa ÄÖ")), v("mozilla äö"));
    assert_eq!(chars_of("añb"), vec!['a', 'ñ', 'b']);
}
