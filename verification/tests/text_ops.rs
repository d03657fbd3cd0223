use wpm::text::{chars_of, eq_ignore_ascii_case, parse_words, string_of, to_ascii_lower, trim, trim_bounds};

fn strings(words: &[&str]) -> Vec<String> {
    words.iter().map(|w| w.to_string()).collect()
}

#[test]
fn chars_of_lists_the_characters_in_order() {
    assert_eq!(chars_of("dog"), vec!['d', 'o', 'g']);
    assert_eq!(chars_of(""), Vec::<char>::new());
    assert_eq!(chars_of("h\u{e9}\u{8d8a}!"), vec!['h', '\u{e9}', '\u{8d8a}', '!']);
}

#[test]
fn string_of_builds_the_requested_stretch() {
    let chars = vec!['t', 'y', 'p', 'i', 'n', 'g'];
    assert_eq!(string_of(&chars, 0, 6), "typing");
    assert_eq!(string_of(&chars, 2, 4), "pi");
    assert_eq!(string_of(&chars, 3, 3), "");
    assert_eq!(string_of(&Vec::new(), 0, 0), "");
}

#[test]
fn string_of_undoes_chars_of() {
    for s in ["", "cat", "  spaced out  ", "na\u{ef}ve \u{8d8a}"] {
        let chars = chars_of(s);
        assert_eq!(string_of(&chars, 0, chars.len()), s);
    }
}

#[test]
fn trim_drops_white_space_at_both_ends_only() {
    assert_eq!(trim("DOG "), "DOG");
    assert_eq!(trim("  cat \t\r\n"), "cat");
    assert_eq!(trim("a b"), "a b");
    assert_eq!(trim("  a  b  "), "a  b");
    assert_eq!(trim("cats"), "cats");
}

#[test]
fn trim_of_nothing_but_white_space_is_empty() {
    assert_eq!(trim(""), "");
    assert_eq!(trim(" "), "");
    assert_eq!(trim(" \t\n\r "), "");
}

#[test]
fn trim_knows_white_space_beyond_ascii() {
    assert_eq!(trim("\u{a0}x\u{3000}"), "x");
    assert_eq!(trim("\u{2003}wide\u{2028}"), "wide");
    assert_eq!(trim("\u{8d8a} "), "\u{8d8a}");
    // A zero-width space is not white space.
    assert_eq!(trim("\u{200b}x"), "\u{200b}x");
}

#[test]
fn trim_agrees_with_the_standard_library() {
    let samples = [
        "",
        " ",
        "x",
        " x",
        "x ",
        "\tx y\n",
        "\u{85}next line\u{85}",
        "\u{1680}ogham\u{1680}",
        "\u{202f}narrow\u{205f}",
        "\u{b}\u{c}form\u{c}\u{b}",
        "  \u{e9}t\u{e9}  ",
    ];
    for s in samples {
        assert_eq!(trim(s), s.trim());
    }
}

#[test]
fn trim_bounds_stay_inside_the_stretch() {
    let chars = chars_of("ab  cd  ef");
    assert_eq!(trim_bounds(&chars, 0, 10), (0, 10));
    assert_eq!(trim_bounds(&chars, 2, 8), (4, 6));
    assert_eq!(trim_bounds(&chars, 2, 4), (4, 4));
    assert_eq!(trim_bounds(&chars, 5, 5), (5, 5));
    assert_eq!(trim_bounds(&chars, 6, 10), (8, 10));
}

#[test]
fn ascii_capitals_are_lowered_and_nothing_else() {
    assert_eq!(to_ascii_lower('A'), 'a');
    assert_eq!(to_ascii_lower('M'), 'm');
    assert_eq!(to_ascii_lower('Z'), 'z');
    assert_eq!(to_ascii_lower('a'), 'a');
    assert_eq!(to_ascii_lower('@'), '@');
    assert_eq!(to_ascii_lower('['), '[');
    assert_eq!(to_ascii_lower('7'), '7');
    assert_eq!(to_ascii_lower('\u{c9}'), '\u{c9}');
    assert_eq!(to_ascii_lower('\u{8d8a}'), '\u{8d8a}');
}

#[test]
fn to_ascii_lower_agrees_with_the_standard_library() {
    for code in 0u32..0x250 {
        let c = char::from_u32(code).unwrap();
        assert_eq!(to_ascii_lower(c), c.to_ascii_lowercase());
    }
}

#[test]
fn comparison_ignores_the_case_of_ascii_letters() {
    assert!(eq_ignore_ascii_case("DOG", "dog"));
    assert!(eq_ignore_ascii_case("dog", "DoG"));
    assert!(eq_ignore_ascii_case("", ""));
    assert!(eq_ignore_ascii_case("Ferris 42!", "fERRIS 42!"));
}

#[test]
fn comparison_tells_different_words_apart() {
    assert!(!eq_ignore_ascii_case("cats", "cat"));
    assert!(!eq_ignore_ascii_case("cat", "cats"));
    assert!(!eq_ignore_ascii_case("dog", "dot"));
    assert!(!eq_ignore_ascii_case("", "a"));
    assert!(!eq_ignore_ascii_case("a b", "ab"));
    // Neighbours of the capitals in the ASCII table are not letters.
    assert!(!eq_ignore_ascii_case("@", "`"));
    assert!(!eq_ignore_ascii_case("[", "{"));
}

#[test]
fn comparison_leaves_letters_beyond_ascii_alone() {
    assert!(eq_ignore_ascii_case("caf\u{e9}", "CAF\u{e9}"));
    assert!(!eq_ignore_ascii_case("caf\u{e9}", "CAF\u{c9}"));
    assert!(!eq_ignore_ascii_case("\u{212a}", "k"));
}

#[test]
fn comparison_agrees_with_the_standard_library() {
    let samples = ["", "a", "A", "dog", "DOG", "Dog ", "d\u{f6}g", "D\u{d6}G", "[", "{", "@", "`"];
    for a in samples {
        for b in samples {
            assert_eq!(eq_ignore_ascii_case(a, b), a.eq_ignore_ascii_case(b));
        }
    }
}

#[test]
fn parse_words_reads_one_word_per_line() {
    assert_eq!(parse_words("cat\ndog"), strings(&["cat", "dog"]));
    assert_eq!(parse_words("one"), strings(&["one"]));
    assert_eq!(parse_words("a\nb\nc\nd"), strings(&["a", "b", "c", "d"]));
}

#[test]
fn parse_words_trims_each_line() {
    assert_eq!(parse_words("  cat \n\tdog\t"), strings(&["cat", "dog"]));
    assert_eq!(parse_words("cat\r\ndog\r\n"), strings(&["cat", "dog", ""]));
    assert_eq!(parse_words("two words \n next"), strings(&["two words", "next"]));
}

#[test]
fn parse_words_keeps_empty_lines() {
    assert_eq!(parse_words(""), strings(&[""]));
    assert_eq!(parse_words("\n"), strings(&["", ""]));
    assert_eq!(parse_words("cat\n"), strings(&["cat", ""]));
    assert_eq!(parse_words("\ncat"), strings(&["", "cat"]));
    assert_eq!(parse_words("a\n\n\nb"), strings(&["a", "", "", "b"]));
    assert_eq!(parse_words("  \n  "), strings(&["", ""]));
}

#[test]
fn parse_words_agrees_with_split_and_trim() {
    let samples = ["", "\n", "a", "a\nb", " a \n\n b\n", "x\ry\nz", "\u{a0}k\u{a0}\nl"];
    for text in samples {
        let expected: Vec<String> = text.split('\n').map(|line| line.trim().to_string()).collect();
        assert_eq!(parse_words(text), expected);
    }
}
