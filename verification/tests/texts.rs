use hydro::text::{chars_of, contains, split_once, trim, u64_to_string};

const SAMPLES: &[&str] = &[
    "",
    " ",
    "a",
    " a",
    "a ",
    "  a b  ",
    "\t\n x \r\n",
    "\u{a0}x\u{a0}",
    "\u{2003}wide\u{3000}",
    "\u{85}next line\u{2028}",
    "\u{200b}zero width\u{200b}",
    "\u{feff}bom",
    "   ",
    "\n\t \u{1680}",
    "Aare - Bern, Schönau",
    "no hyphen",
    "-",
    "--",
    "a-b-c",
    "-a",
    "a-",
    "é-ü",
    "14.06.2023 10:20",
];

#[test]
fn trim_agrees_with_the_standard_trim() {
    for text in SAMPLES {
        assert_eq!(trim(text), text.trim(), "{:?}", text);
    }
    assert_eq!(trim("  Hitzkirch, Richensee\n"), "Hitzkirch, Richensee");
}

#[test]
fn trim_is_idempotent() {
    for text in SAMPLES {
        assert_eq!(trim(trim(text)), trim(text), "{:?}", text);
    }
}

#[test]
fn split_once_agrees_with_the_standard_split() {
    for text in SAMPLES {
        for delimiter in ['-', '.', ' ', 'ö', 'a'] {
            assert_eq!(split_once(text, delimiter), text.split_once(delimiter), "{:?} at {:?}", text, delimiter);
        }
    }
    assert_eq!(split_once("a-b-c", '-'), Some(("a", "b-c")));
    assert_eq!(split_once("abc", '-'), None);
}

#[test]
fn contains_agrees_with_the_standard_search() {
    for hay in SAMPLES {
        for needle in ["", "a", "-", "ö", "Bern", "  ", "b-c", "Schönau", "no hyphen", "no hyphen!", "u\u{a0}"] {
            assert_eq!(contains(hay, needle), hay.contains(needle), "{:?} in {:?}", needle, hay);
        }
    }
    assert!(contains("aaab", "aab"));
    assert!(!contains("aaab", "aba"));
    assert!(contains("abc", "abc"));
    assert!(!contains("abc", "abcd"));
}

#[test]
fn numbers_in_decimal_digits() {
    for n in [0u64, 1, 9, 10, 11, 99, 100, 101, 2135, 65535, 1_000_000, u64::MAX - 1, u64::MAX] {
        assert_eq!(u64_to_string(n), n.to_string());
    }
    assert_eq!(u64_to_string(2416), "2416");
    assert_eq!(u64_to_string(u64::MAX), "18446744073709551615");
}

#[test]
fn characters_of_a_text() {
    assert_eq!(chars_of(""), Vec::<char>::new());
    assert_eq!(chars_of("Zürich"), vec!['Z', 'ü', 'r', 'i', 'c', 'h']);
}
