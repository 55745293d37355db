use buzz_firstmate::encoding::show;
use buzz_firstmate::path::FsPath;
use buzz_firstmate::text::{
    characters, eq_ignore_ascii_case, is_blank, is_white_space, join, lines, number_string,
    parse_number, same_text, split_once, stands_before, starts_with, strip_prefixes, trim,
};

const SAMPLES: &[&str] = &[
    "",
    " ",
    "a",
    " a b ",
    "\t\u{a0}x\u{3000}\r\n",
    "one\ntwo",
    "one\r\ntwo\r\n",
    "\n",
    "\r\n",
    "\n\n",
    "a\rb\n",
    "last\r",
    "k=v",
    "k=v=w",
    "=v",
    "k=",
    "refused:refused: x",
    "refuse",
    "éclair=ß",
    "\u{200b}",
    "\u{2028}x",
];

#[test]
fn whitespace_is_that_of_unicode() {
    for code in 0..=0x10ffffu32 {
        if let Some(c) = char::from_u32(code) {
            assert_eq!(is_white_space(c), c.is_whitespace(), "{code:x}");
        }
    }
}

#[test]
fn text_functions_agree_with_the_standard_library() {
    for s in SAMPLES {
        assert_eq!(trim(s), s.trim());
        assert_eq!(is_blank(s), s.trim().is_empty());
        assert_eq!(characters(s), s.chars().collect::<Vec<char>>());
        assert_eq!(lines(s), s.lines().collect::<Vec<&str>>());
        assert_eq!(
            split_once(s, '='),
            s.split_once('=')
                .map(|(a, b)| (a.to_string(), b.to_string()))
        );
        assert_eq!(
            strip_prefixes(s, "refused:"),
            s.trim_start_matches("refused:")
        );
        for t in SAMPLES {
            assert_eq!(same_text(s, t), s == t);
            assert_eq!(starts_with(s, t), s.starts_with(t));
            assert_eq!(stands_before(s, t), s < t);
            assert_eq!(eq_ignore_ascii_case(s, t), s.eq_ignore_ascii_case(t));
        }
    }
    assert!(eq_ignore_ascii_case("DEFAULT", "default"));
    assert!(!eq_ignore_ascii_case("É", "é"));
}

#[test]
fn numbers_are_read_as_the_standard_library_reads_them() {
    for s in [
        "0",
        "7",
        "+7",
        "-7",
        "",
        "+",
        "++1",
        "007",
        "4294967295",
        "4294967296",
        "18446744073709551615",
        "18446744073709551616",
        "99999999999999999999999999",
        "1x",
        " 1",
        "١",
    ] {
        assert_eq!(parse_number(s, u64::MAX), s.parse::<u64>().ok(), "{s}");
        assert_eq!(
            parse_number(s, u32::MAX as u64),
            s.parse::<u32>().ok().map(u64::from),
            "{s}"
        );
    }
}

#[test]
fn written_numbers_read_back() {
    for n in [0, 9, 10, 42, 1000, u32::MAX as u64, u64::MAX] {
        assert_eq!(number_string(n), n.to_string());
        assert_eq!(parse_number(&number_string(n), u64::MAX), Some(n));
    }
}

#[test]
fn joined_parts_stand_apart() {
    assert_eq!(join(&[], " or "), "");
    assert_eq!(join(&["a"], " or "), "a");
    assert_eq!(join(&["a", "", "c"], " or "), "a or  or c");
}

#[test]
fn bytes_are_shown_as_the_standard_library_shows_them() {
    for bytes in [
        b"plain".to_vec(),
        "é".as_bytes().to_vec(),
        vec![0xff],
        vec![b'a', 0xe2, 0x82, b'b'],
        vec![0xf0, 0x9f, 0x98, 0x80],
        Vec::new(),
    ] {
        assert_eq!(show(&bytes), String::from_utf8_lossy(&bytes));
        assert_eq!(
            FsPath::from_bytes(bytes.clone()).display(),
            String::from_utf8_lossy(&bytes)
        );
    }
}

#[test]
fn paths_compare_and_join_as_those_of_the_standard_library() {
    let samples = [
        "", "/", "//", ".", "./", "./a", "a", "a/", "a//b", "a/./b", "a/b", "/a", "/a/", "/./a",
        "//a", "/a/../b", "/b", "..", "../a", "a/.", ".a", "a/..", "/.", "./.", "././a", "a/b/.",
    ];
    for a in samples {
        let path = std::path::Path::new(a);
        assert_eq!(FsPath::from_text(a).is_absolute(), path.is_absolute());
        for b in samples {
            assert_eq!(
                FsPath::from_text(a) == FsPath::from_text(b),
                path == std::path::Path::new(b),
                "{a} {b}"
            );
            assert_eq!(
                FsPath::from_text(a).join(b).display(),
                path.join(b).display().to_string(),
                "{a} {b}"
            );
        }
    }
}
