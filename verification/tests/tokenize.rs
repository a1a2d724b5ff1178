use arg_tokens::tokenizer::{tokenize, tokens, tokens_2008, tokens_pre2008};
use arg_tokens::units::{classify, UnitClass, Variant};
use arg_tokens::wide::CWSTR;

fn wide(text: &str) -> Vec<u16> {
    text.encode_utf16().collect()
}

fn words(texts: &[&str]) -> Vec<Vec<u16>> {
    texts.iter().map(|text| wide(text)).collect()
}

const ALL: [Variant; 3] = [Variant::Pre2008, Variant::Post2008, Variant::Generalized];

#[test]
fn plain_words_split_alike_under_every_variant() {
    for variant in ALL {
        assert_eq!(tokenize(&wide("this that"), variant), words(&["this", "that"]));
    }
}

#[test]
fn doubled_quote_leaves_the_quotes_before_2008() {
    let line = wide(r#"this "that""the other""#);
    assert_eq!(
        tokenize(&line, Variant::Pre2008),
        words(&["this", r#"that"the"#, "other"])
    );
}

#[test]
fn doubled_quote_stays_in_the_quotes_from_2008() {
    let line = wide(r#"this "that""the other""#);
    assert_eq!(
        tokenize(&line, Variant::Post2008),
        words(&["this", r#"that"the other"#])
    );
    assert_eq!(
        tokenize(&line, Variant::Generalized),
        words(&["this", r#"that"the other"#])
    );
}

#[test]
fn four_backslashes_before_a_quote_leave_two_and_the_quote_delimits() {
    for variant in ALL {
        assert_eq!(tokenize(&wide(r#"a\\\\"b"#), variant), words(&[r"a\\b"]));
    }
}

#[test]
fn three_backslashes_before_a_quote_leave_one_and_a_literal_quote() {
    for variant in ALL {
        assert_eq!(tokenize(&wide(r#"a\\\"b"#), variant), words(&[r#"a\"b"#]));
    }
}

#[test]
fn odd_run_keeps_the_quoting_context() {
    for variant in ALL {
        assert_eq!(
            tokenize(&wide(r#""a\"b c" d"#), variant),
            words(&[r#"a"b c"#, "d"])
        );
        assert_eq!(
            tokenize(&wide(r#"a\"b c"#), variant),
            words(&[r#"a"b"#, "c"])
        );
    }
}

#[test]
fn even_run_outside_quotes_opens_quotes() {
    for variant in ALL {
        assert_eq!(
            tokenize(&wide(r#"a\\"b c"#), variant),
            words(&[r"a\b c"])
        );
        assert_eq!(
            tokenize(&wide(r#"x \\\\"b c" d"#), variant),
            words(&["x", r"\\b c", "d"])
        );
    }
}

#[test]
fn even_run_inside_quotes_ends_the_argument() {
    let line = wide(r#""a\\" b"#);
    assert_eq!(tokenize(&line, Variant::Pre2008), words(&[r"a\", "", "b"]));
    assert_eq!(tokenize(&line, Variant::Post2008), words(&[r"a\", "b"]));
    assert_eq!(tokenize(&line, Variant::Generalized), words(&[r"a\", "b"]));
}

#[test]
fn even_run_inside_quotes_starts_the_next_token_at_once() {
    for variant in ALL {
        assert_eq!(tokenize(&wide(r#""a\\"b"#), variant), words(&[r"a\", "b"]));
    }
}

#[test]
fn backslashes_before_other_units_stay_as_they_are() {
    for variant in ALL {
        assert_eq!(
            tokenize(&wide(r"c:\\dir\file \\x"), variant),
            words(&[r"c:\\dir\file", r"\\x"])
        );
    }
}

#[test]
fn open_quote_at_the_end_still_yields_its_content() {
    for variant in ALL {
        assert_eq!(tokenize(&wide(r#"x "abc def"#), variant), words(&["x", "abc def"]));
    }
}

#[test]
fn nothing_gathered_at_the_end_yields_nothing() {
    for variant in ALL {
        assert_eq!(tokenize(&wide(r#"x """#), variant), words(&["x"]));
        assert_eq!(tokenize(&wide(r#"""#), variant), words(&[]));
    }
}

#[test]
fn empty_quotes_before_whitespace_are_an_empty_argument() {
    for variant in ALL {
        assert_eq!(tokenize(&wide(r#""" x"#), variant), words(&["", "x"]));
    }
}

#[test]
fn a_lone_backslash_at_the_end_is_lost() {
    for variant in ALL {
        assert_eq!(tokenize(&wide(r"a\"), variant), words(&["a"]));
        assert_eq!(tokenize(&wide(r"\"), variant), words(&[]));
    }
}

#[test]
fn a_run_that_ends_the_line_is_kept_whole() {
    for variant in ALL {
        assert_eq!(tokenize(&wide(r"a\\"), variant), words(&[r"a\\"]));
        assert_eq!(tokenize(&wide(r"a\\\"), variant), words(&[r"a\\\"]));
    }
}

#[test]
fn backslash_after_a_closing_quote_is_an_ordinary_unit() {
    assert_eq!(
        tokenize(&wide(r#""a"\"b c"#), Variant::Post2008),
        words(&[r"a\b c"])
    );
}

#[test]
fn whitespace_alone_has_no_arguments() {
    for variant in ALL {
        assert_eq!(tokenize(&wide(" \t  \t"), variant), words(&[]));
        assert_eq!(tokenize(&wide(""), variant), words(&[]));
    }
}

#[test]
fn tabs_and_spaces_both_separate() {
    for variant in ALL {
        assert_eq!(
            tokenize(&wide("\ta b\tc \t d  "), variant),
            words(&["a", "b", "c", "d"])
        );
    }
}

#[test]
fn a_plain_line_splits_where_its_whitespace_is() {
    let text = "  alpha\tbeta   gamma-delta \t 'x\ty' ";
    let expected: Vec<Vec<u16>> = text
        .split(|c| c == ' ' || c == '\t')
        .filter(|word| !word.is_empty())
        .map(|word| wide(word))
        .collect();
    assert_eq!(expected.len(), 5);
    assert_eq!(tokenize(&wide(text), Variant::Pre2008), expected);
    assert_eq!(tokenize(&wide(text), Variant::Post2008), expected);
    let plain = "  alpha\tbeta   gamma-delta \t ";
    assert_eq!(
        tokenize(&wide(plain), Variant::Generalized),
        words(&["alpha", "beta", "gamma-delta"])
    );
}

#[test]
fn other_blank_characters_do_not_separate() {
    for variant in ALL {
        assert_eq!(tokenize(&wide("a\nb\u{a0}c"), variant), words(&["a\nb\u{a0}c"]));
    }
}

#[test]
fn a_run_of_whitespace_separates_as_one_unit_does() {
    for variant in ALL {
        assert_eq!(
            tokenize(&wide(r#"a  	  "b  c"   d"#), variant),
            tokenize(&wide(r#"a "b  c" d"#), variant)
        );
        assert_eq!(
            tokenize(&wide(r#"a "b  c" d"#), variant),
            words(&["a", "b  c", "d"])
        );
    }
}

#[test]
fn single_quotes_quote_under_the_generalized_variant_only() {
    let line = wide("'a b' c");
    assert_eq!(tokenize(&line, Variant::Generalized), words(&["a b", "c"]));
    assert_eq!(tokenize(&line, Variant::Pre2008), words(&["'a", "b'", "c"]));
    assert_eq!(tokenize(&line, Variant::Post2008), words(&["'a", "b'", "c"]));
}

#[test]
fn doubled_single_quote_is_a_literal_one_and_stays_quoted() {
    assert_eq!(
        tokenize(&wide("'it''s here' x"), Variant::Generalized),
        words(&["it's here", "x"])
    );
}

#[test]
fn single_quote_inside_double_quotes_is_an_ordinary_unit() {
    assert_eq!(
        tokenize(&wide(r#""it's here" x"#), Variant::Generalized),
        words(&["it's here", "x"])
    );
}

#[test]
fn single_quote_opens_inside_an_unquoted_token() {
    assert_eq!(
        tokenize(&wide("ab'c d'e f"), Variant::Generalized),
        words(&["abc de", "f"])
    );
}

#[test]
fn double_quote_closes_single_quotes_too() {
    assert_eq!(
        tokenize(&wide(r#"'a b"c d"#), Variant::Generalized),
        words(&["a bc", "d"])
    );
}

#[test]
fn a_run_before_a_single_quote_is_kept_whole_with_the_quote() {
    assert_eq!(
        tokenize(&wide(r"'a\' b' c"), Variant::Generalized),
        words(&[r"a\' b", "c"])
    );
}

#[test]
fn even_run_inside_single_quotes_ends_the_argument() {
    assert_eq!(
        tokenize(&wide(r#"'a\\" b"#), Variant::Generalized),
        words(&[r"a\", "b"])
    );
}

#[test]
fn unpaired_surrogates_pass_through_unchanged() {
    let line: Vec<u16> = vec![0xD800, 0x0061, 0x0020, 0x0022, 0xDC00, 0x0020, 0xDBFF, 0x0022];
    let expected: Vec<Vec<u16>> = vec![vec![0xD800, 0x0061], vec![0xDC00, 0x0020, 0xDBFF]];
    for variant in ALL {
        assert_eq!(tokenize(&line, variant), expected);
    }
}

#[test]
fn units_beyond_ascii_are_ordinary() {
    let line: Vec<u16> = vec![0x2022, 0x0020, 0x5C5C, 0x0920, 0x2220];
    let expected: Vec<Vec<u16>> = vec![vec![0x2022], vec![0x5C5C, 0x0920, 0x2220]];
    for variant in ALL {
        assert_eq!(tokenize(&line, variant), expected);
    }
}

#[test]
fn the_same_line_splits_the_same_way_twice() {
    let line = wide(r#"one "two \"three\\" 'four five' \\six\ "#);
    for variant in ALL {
        let first = tokenize(&line, variant);
        let second = tokenize(&line, variant);
        assert_eq!(first, second);
    }
}

#[test]
fn named_entry_points_follow_their_variants() {
    let line = wide(r#"x "a""b c" 'd e'"#);
    assert_eq!(tokens_pre2008(&line), tokenize(&line, Variant::Pre2008));
    assert_eq!(tokens_2008(&line), tokenize(&line, Variant::Post2008));
    assert_eq!(tokens(&line), tokenize(&line, Variant::Generalized));
    assert_eq!(tokens_pre2008(&line), words(&["x", r#"a"b"#, "c 'd e'"]));
    assert_eq!(tokens_2008(&line), words(&["x", r#"a"b c"#, "'d", "e'"]));
    assert_eq!(tokens(&line), words(&["x", r#"a"b c"#, "d e"]));
}

#[test]
fn units_fall_into_their_classes() {
    for variant in ALL {
        assert_eq!(classify(0x20, variant), UnitClass::Whitespace);
        assert_eq!(classify(0x09, variant), UnitClass::Whitespace);
        assert_eq!(classify(0x22, variant), UnitClass::DoubleQuote);
        assert_eq!(classify(0x5C, variant), UnitClass::Backslash);
        assert_eq!(classify(0x61, variant), UnitClass::Other);
        assert_eq!(classify(0x0A, variant), UnitClass::Other);
        assert_eq!(classify(0xD800, variant), UnitClass::Other);
    }
    assert_eq!(classify(0x27, Variant::Generalized), UnitClass::SingleQuote);
    assert_eq!(classify(0x27, Variant::Pre2008), UnitClass::Other);
    assert_eq!(classify(0x27, Variant::Post2008), UnitClass::Other);
}

#[test]
fn wide_string_ends_in_one_nul() {
    let text = CWSTR::from(wide("ab"));
    assert_eq!(text.as_ptr(), &[0x61, 0x62, 0][..]);
    let empty = CWSTR::from(Vec::new());
    assert_eq!(empty.as_ptr(), &[0][..]);
    let odd = CWSTR::from(vec![0xD800, 0, 0x61]);
    assert_eq!(odd.as_ptr(), &[0xD800, 0, 0x61, 0][..]);
}
