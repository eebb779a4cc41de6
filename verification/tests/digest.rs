use mmdb_downloader::digest::{is_digest_different, white_space};

const HELLO: &str = "2cf24dba5fb0a30e26e83b2ac5b9e29e1b161e5c1fa7425e73043362938b9824";
const OTHER: &str = "433855b7d2b96c23a6f60e70c655eb4305e8806b682a9596a200642f947259b1";

#[test]
fn white_space_is_the_unicode_property() {
    let mut code: u32 = 0;
    while code <= 0x10FFFF {
        if let Some(c) = char::from_u32(code) {
            assert_eq!(white_space(c), c.is_whitespace(), "U+{:04X}", code);
        }
        code += 1;
    }
}

#[test]
fn white_space_holds_of_each_listed_character() {
    for c in [
        '\t', '\n', '\u{0B}', '\u{0C}', '\r', ' ', '\u{85}', '\u{A0}', '\u{1680}', '\u{2000}',
        '\u{2005}', '\u{200A}', '\u{2028}', '\u{2029}', '\u{202F}', '\u{205F}', '\u{3000}',
    ] {
        assert!(white_space(c), "{:?}", c);
    }
    for c in ['\u{08}', '\u{0E}', '\u{1F}', '!', 'a', '0', '\u{200B}', '\u{FEFF}', '\u{180E}'] {
        assert!(!white_space(c), "{:?}", c);
    }
}

#[test]
fn equal_digests_are_not_different() {
    assert!(!is_digest_different(Some(HELLO), HELLO));
}

#[test]
fn unequal_digests_are_different() {
    assert!(is_digest_different(Some(HELLO), OTHER));
    assert!(is_digest_different(Some(OTHER), HELLO));
}

#[test]
fn white_space_around_the_remote_text_is_ignored() {
    for remote in [
        format!("{}\n", HELLO),
        format!("{}\r\n", HELLO),
        format!("  {}", HELLO),
        format!("\t {} \n\n", HELLO),
        format!("\u{A0}{}\u{3000}\u{2028}", HELLO),
    ] {
        assert!(!is_digest_different(Some(HELLO), &remote), "{:?}", remote);
    }
}

#[test]
fn white_space_around_the_local_digest_is_ignored() {
    let local = format!(" {}\n", HELLO);
    assert!(!is_digest_different(Some(&local), HELLO));
    assert!(!is_digest_different(Some(&local), &format!("\n{}  ", HELLO)));
}

#[test]
fn white_space_inside_a_text_is_kept() {
    assert!(is_digest_different(Some("abcdef"), "abc def"));
    assert!(is_digest_different(Some("abc def"), "abc  def"));
    assert!(!is_digest_different(Some("abc def"), " abc def "));
}

#[test]
fn a_digest_followed_by_a_file_name_is_different() {
    let remote = format!("{}  GeoLite2-City.mmdb\n", HELLO);
    assert!(is_digest_different(Some(HELLO), &remote));
}

#[test]
fn digests_are_compared_by_case() {
    assert!(is_digest_different(Some("abcdef"), "ABCDEF"));
}

#[test]
fn a_prefix_is_different() {
    assert!(is_digest_different(Some("abc"), "abcd"));
    assert!(is_digest_different(Some("abcd"), "abc"));
    assert!(is_digest_different(Some("abc"), "xabc"));
}

#[test]
fn a_missing_local_file_is_different() {
    assert!(is_digest_different(None, HELLO));
    assert!(is_digest_different(None, &format!("{}\n", HELLO)));
    assert!(is_digest_different(None, "0"));
}

#[test]
fn a_missing_local_file_compares_as_the_empty_text() {
    for remote in ["", " ", "\n", "\t\r\n ", HELLO, "x"] {
        assert_eq!(
            is_digest_different(None, remote),
            is_digest_different(Some(""), remote),
            "{:?}",
            remote
        );
    }
}

#[test]
fn an_empty_remote_text_matches_a_missing_local_file() {
    assert!(!is_digest_different(None, ""));
    assert!(!is_digest_different(None, " \n"));
    assert!(!is_digest_different(Some("  "), "\n"));
    assert!(is_digest_different(Some(HELLO), ""));
}

#[test]
fn the_answer_is_that_of_trimming_and_comparing() {
    let texts = [
        "", " ", "a", " a", "a ", " a ", "a b", " a b ", "\na\n", "\u{85}a\u{85}", "\u{200B}a",
        "a\u{200B}", "ab", "ba", "\u{1680}\u{2003}", "é", " é\t", "\u{FEFF}", "日本", "日本\u{3000}",
    ];
    for local in texts {
        for remote in texts {
            assert_eq!(
                is_digest_different(Some(local), remote),
                remote.trim() != local.trim(),
                "{:?} against {:?}",
                local,
                remote
            );
        }
    }
}

#[test]
fn trimming_twice_changes_nothing() {
    for remote in ["  abc \n", "\tabc", "abc", " a b ", "", " \n "] {
        let once = remote.trim();
        assert!(!is_digest_different(Some(once), remote), "{:?}", remote);
        assert!(!is_digest_different(Some(once), once), "{:?}", remote);
    }
}
