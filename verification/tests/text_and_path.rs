use oh_my_sftp::path::{
    display_name, expand_home_with, expand_tilde, file_name, join_path, parent_path, shorten_path,
};
use oh_my_sftp::text::{
    chars_of, decimal_string, is_whitespace, parse_bounded, split_lines, split_words, trim_str,
};
use std::path::Path;

const SAMPLES: &[&str] = &[
    "", "/", "//", "///", ".", "..", "./", "../", "./.", "a", "a/", "a//", "a/.", "a/./", "a/..",
    "a/b", "a/b/", "a/b/.", "/a", "/a/", "/a/b", "/a/b/", "/a/./b", "/a/b/./", "//a", "//a/b",
    "./a", "./a/b", "../a", "a/../b", "...", "a/...", ".a", "a/.b", "/.", "/..", "/./", "foo/bar.txt",
    "~/x", "a//b//", "./", ". /x", "a/ ./b",
];

#[test]
fn whitespace_matches_std() {
    for code in 0u32..0x3100 {
        if let Some(c) = char::from_u32(code) {
            assert_eq!(is_whitespace(c), c.is_whitespace(), "code {:x}", code);
        }
    }
    for c in ['\u{feff}', '\u{180e}', '\u{200b}', 'x'] {
        assert_eq!(is_whitespace(c), c.is_whitespace());
    }
}

#[test]
fn trim_lines_and_words_match_std() {
    let texts = [
        "", "  a b  ", "\t\nx\u{3000}", "a\nb\r\nc", "a\n", "\n", "\r\n", "a\r", "a\n\nb",
        " one  two\tthree\n", "\u{a0}x\u{85}", "line1\r\nline2\r",
    ];
    for t in texts {
        assert_eq!(trim_str(t), t.trim());
        let ls: Vec<String> = split_lines(&chars_of(t)).iter().map(|l| l.iter().collect()).collect();
        let expected: Vec<String> = t.lines().map(|l| l.to_string()).collect();
        assert_eq!(ls, expected, "lines of {:?}", t);
        let ws: Vec<String> = split_words(&chars_of(t)).iter().map(|l| l.iter().collect()).collect();
        let expected: Vec<String> = t.split_whitespace().map(|l| l.to_string()).collect();
        assert_eq!(ws, expected);
    }
}

#[test]
fn number_parsing_matches_std() {
    let inputs = [
        "", "0", "00", "+", "+1", "-1", "-0", "12", "65535", "65536", "1a", " 1", "18446744073709551615",
        "18446744073709551616", "99999999999999999999", "+0018",
    ];
    for s in inputs {
        let v = chars_of(s);
        assert_eq!(parse_bounded(&v, u64::MAX), s.parse::<u64>().ok(), "u64 {:?}", s);
        assert_eq!(parse_bounded(&v, 65535).map(|n| n as u16), s.parse::<u16>().ok(), "u16 {:?}", s);
    }
    for n in [0u64, 7, 10, 99, 100, 12345, u64::MAX] {
        assert_eq!(decimal_string(n), n.to_string());
    }
}

#[test]
fn path_functions_match_std() {
    for s in SAMPLES {
        let p = Path::new(s);
        assert_eq!(
            file_name(s),
            p.file_name().map(|n| n.to_string_lossy().into_owned()),
            "file_name of {:?}",
            s
        );
        assert_eq!(
            parent_path(s),
            p.parent().map(|n| n.to_string_lossy().into_owned()),
            "parent of {:?}",
            s
        );
        for q in ["", "x", "x/y", "/abs", "./rel"] {
            assert_eq!(join_path(s, q), p.join(q).to_string_lossy().into_owned(), "{:?} join {:?}", s, q);
        }
    }
}

#[test]
fn shorten_path_keeps_the_last_levels() {
    assert_eq!(shorten_path("/home/user/projects/app/src", 2), "...app/src");
    assert_eq!(shorten_path("/home/user", 2), "/home/user");
    assert_eq!(shorten_path("a//b/", 5), "a//b/");
    assert_eq!(shorten_path("/a/b/c", 0), "...");
    assert_eq!(shorten_path("/a/b/c", 1), "...c");
}

#[test]
fn display_name_marks_directories() {
    assert_eq!(display_name("/var/log", true), "log/");
    assert_eq!(display_name("/var/log/syslog", false), "syslog");
    assert_eq!(display_name("/", true), "//");
    assert_eq!(display_name("a/..", false), "a/..");
}

#[test]
fn home_expansion() {
    let home = Some("/home/me".to_string());
    assert_eq!(expand_home_with("~", &home), "/home/me");
    assert_eq!(expand_home_with("~/docs", &home), "/home/me/docs");
    assert_eq!(expand_home_with("~//etc", &home), "/etc");
    assert_eq!(expand_home_with("~bob/x", &home), "~bob/x");
    assert_eq!(expand_home_with("/abs", &home), "/abs");
    assert_eq!(expand_home_with("~/docs", &None), "~/docs");
    assert_eq!(expand_tilde("~/id", "/cfg", ""), "id");
    assert_eq!(expand_tilde("id", "/cfg/", "/h"), "/cfg/id");
    assert_eq!(expand_tilde("", "/cfg", "/h"), "/cfg/");
}

#[test]
fn file_name_of_a_joined_name_is_the_name() {
    for base in ["", "/", "a", "a/", "/x/y", ".", "./", "..", "//", "a/./"] {
        for name in ["f", "file.txt", ".hidden", "...", "a b"] {
            assert_eq!(file_name(&join_path(base, name)).as_deref(), Some(name), "{:?} {:?}", base, name);
        }
    }
}
