//! Text, numbers, paths, order and moving through rows.

use helium_shell::navigation::{step, step_fits};
use helium_shell::numbers::{decimal_text, parse_u64, parse_u8, signed_decimal_text};
use helium_shell::paths::{file_extension, home_dir, join_path};
use helium_shell::slint_text::{escape_slint_lines, escape_slint_string};
use helium_shell::sorting::sort_by_keys;
use helium_shell::text::{
    chars_of, concat2, concat3, has_char, has_prefix, has_text, join, owned, replace, same_ignoring_case, same_text,
    space, split_at_char, split_lines, split_words, string_of, strip_char, strip_prefix, trim,
};
use std::path::{Path, PathBuf};

const SAMPLES: [&str; 16] = [
    "",
    " ",
    "a",
    " a b \n",
    "\t\u{3000}x\u{2003}y\u{85}",
    "line\nline\r\nlast",
    "line\n",
    "\n\n",
    "\r\n\r",
    "a\r\r\nb",
    "one[50%] [on]",
    "[[%%",
    "caf\u{e9} \u{1F600}",
    "\u{200B}zero width",
    "a,b,,c,",
    "==",
];

#[test]
fn white_space_is_that_of_unicode() {
    for code in 0..0x110000u32 {
        if let Some(c) = char::from_u32(code) {
            assert_eq!(space(c), c.is_whitespace(), "{code:x}");
        }
    }
}

#[test]
fn trimming_agrees_with_the_standard_library() {
    for s in SAMPLES {
        assert_eq!(trim(s), s.trim());
    }
}

#[test]
fn stripping_takes_one_character_off_both_ends() {
    assert_eq!(strip_char("\0\0net\0work\0", '\0'), "net\0work");
    assert_eq!(strip_char("\0\0", '\0'), "");
    assert_eq!(strip_char("net", '\0'), "net");
}

#[test]
fn words_agree_with_the_standard_library() {
    for s in SAMPLES {
        assert_eq!(split_words(s), s.split_whitespace().collect::<Vec<_>>());
    }
}

#[test]
fn lines_agree_with_the_standard_library() {
    for s in SAMPLES {
        assert_eq!(split_lines(s), s.lines().collect::<Vec<_>>(), "{s:?}");
    }
}

#[test]
fn pieces_agree_with_the_standard_library() {
    for s in SAMPLES {
        for c in ['[', '%', ',', ' ', '='] {
            assert_eq!(split_at_char(s, c), s.split(c).collect::<Vec<_>>());
        }
    }
}

#[test]
fn searching_agrees_with_the_standard_library() {
    for s in SAMPLES {
        for p in ["", "a", "ne", "line", "%]", "==", "===", "\n", "\u{1F600}"] {
            assert_eq!(has_text(s, p), s.contains(p));
            assert_eq!(has_prefix(s, p), s.starts_with(p));
            assert_eq!(strip_prefix(s, p).as_deref(), s.strip_prefix(p));
        }
        for c in ['%', ' ', '\u{e9}'] {
            assert_eq!(has_char(s, c), s.contains(c));
        }
    }
}

#[test]
fn replacing_and_joining_agree_with_the_standard_library() {
    for s in SAMPLES {
        assert_eq!(replace(s, ' ', "--"), s.replace(' ', "--"));
        let parts: Vec<String> = s.split(',').map(str::to_string).collect();
        assert_eq!(join(&parts, " || "), parts.join(" || "));
    }
    assert_eq!(join(&vec![], ", "), "");
}

#[test]
fn case_counts_only_where_it_should() {
    assert!(same_ignoring_case("TRUE", "true"));
    assert!(same_ignoring_case("tRuE", "true"));
    assert!(!same_ignoring_case("tru", "true"));
    assert!(!same_ignoring_case("\u{c9}", "\u{e9}"));
    assert!(same_text("a", "a"));
    assert!(!same_text("a", "A"));
}

#[test]
fn texts_are_taken_apart_and_put_together() {
    let v = chars_of("caf\u{e9}!");
    assert_eq!(v.len(), 5);
    assert_eq!(string_of(&v, 1, 4), "af\u{e9}");
    assert_eq!(concat2("a", "b"), "ab");
    assert_eq!(concat3("a", "-", "b"), "a-b");
    assert_eq!(owned("x"), "x");
}

#[test]
fn numbers_are_read_as_the_standard_library_reads_them() {
    for s in [
        "", "+", "-", "0", "007", "+5", "-5", "-0", "12a", " 1", "255", "256", "18446744073709551615",
        "18446744073709551616", "99999999999999999999999", "\u{0663}", "1_000", "++1",
    ] {
        assert_eq!(parse_u64(s), s.parse::<u64>().ok(), "{s:?}");
        assert_eq!(parse_u8(s), s.parse::<u8>().ok(), "{s:?}");
    }
}

#[test]
fn a_written_number_reads_back_as_itself() {
    for n in [0u64, 1, 9, 10, 99, 100, 12345, u32::MAX as u64, u64::MAX] {
        let text = decimal_text(n);
        assert_eq!(text, n.to_string());
        assert_eq!(parse_u64(&text), Some(n));
    }
    for n in [0i32, -1, 7, -28, i32::MAX, i32::MIN] {
        assert_eq!(signed_decimal_text(n), n.to_string());
    }
}

#[test]
fn paths_are_joined_as_the_standard_library_joins_them() {
    for base in ["/home/u", "/", "", "relative/"] {
        for part in ["Wallpaper", ".cache/x", "/absolute", ""] {
            assert_eq!(PathBuf::from(join_path(base, part)), PathBuf::from(base).join(part));
        }
    }
    assert_eq!(join_path("/home/u", "Wallpaper"), "/home/u/Wallpaper");
    assert_eq!(home_dir(None), "/root");
    assert_eq!(home_dir(Some("/home/u")), "/home/u");
}

#[test]
fn extensions_are_those_of_the_standard_library() {
    for name in ["a.png", "a.tar.gz", ".hidden", ".hidden.desktop", "plain", "dot.", "a..b", "x.PNG"] {
        let expected = Path::new(name).extension().and_then(|e| e.to_str());
        assert_eq!(file_extension(name).as_deref(), expected, "{name}");
    }
}

#[test]
fn sorting_is_stable() {
    let keys: Vec<String> = ["b", "a", "b", "", "ab", "a"].iter().map(|s| s.to_string()).collect();
    let items: Vec<usize> = (0..6).collect();
    assert_eq!(sort_by_keys(items.clone(), &keys), vec![3, 1, 5, 4, 0, 2]);
    let mut expected = items.clone();
    expected.sort_by(|x, y| keys[*x].cmp(&keys[*y]));
    assert_eq!(sort_by_keys(items, &keys), expected);
}

#[test]
fn sorting_goes_by_characters() {
    let keys: Vec<String> = ["z", "\u{e9}", "\u{1F600}", "\u{FFFD}", "zz"].iter().map(|s| s.to_string()).collect();
    let mut expected = keys.clone();
    expected.sort();
    assert_eq!(sort_by_keys(keys.clone(), &keys), expected);
}

#[test]
fn steps_go_around() {
    assert_eq!(step(0, 1, 3), 1);
    assert_eq!(step(2, 1, 3), 0);
    assert_eq!(step(0, -1, 3), 2);
    assert_eq!(step(1, -7, 3), 0);
    assert_eq!(step(0, 5, 1), 0);
    assert_eq!(step(step(1, 2, 3), -2, 3), 1);
    assert!(step_fits(2, 1, 3));
    assert!(step_fits(0, i32::MIN, 3));
    assert!(!step_fits(1, i32::MAX, 3));
}

#[test]
fn escaped_text_is_fit_for_a_literal() {
    assert_eq!(escape_slint_string(r#"C:\x "y""#), r#"C:\\x \"y\""#);
    assert_eq!(escape_slint_string("a\nb"), "a\nb");
    assert_eq!(escape_slint_lines("a\nb \"\\"), r#"a\nb \"\\"#);
}
