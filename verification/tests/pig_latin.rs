use collections::pig_latin::{is_whitespace_char, to_pig_latin};

#[test]
fn consonant_initial_word() {
    assert_eq!(to_pig_latin("first"), "irst-fay");
}

#[test]
fn vowel_initial_word() {
    assert_eq!(to_pig_latin("apple"), "apple-hay");
}

#[test]
fn two_words() {
    // "b" is a single-letter consonant token, so it keeps its empty
    // remainder: "-bay", not "b-hay"
    assert_eq!(to_pig_latin("a b"), "a-hay -bay");
    assert_eq!(to_pig_latin("a be"), "a-hay e-bay");
}

#[test]
fn single_letter_consonant_keeps_its_empty_remainder() {
    assert_eq!(to_pig_latin("b"), "-bay");
}

#[test]
fn pig_latin_of_the_driver_example() {
    assert_eq!(
        to_pig_latin("Hello from a string literal!"),
        "ello-Hay rom-fay a-hay tring-say iteral!-lay"
    );
}

#[test]
fn whitespace_runs_collapse_and_edges_are_trimmed() {
    assert_eq!(to_pig_latin("  hello \t  world  "), "ello-hay orld-way");
    assert_eq!(to_pig_latin(""), "");
    assert_eq!(to_pig_latin("   \n "), "");
}

#[test]
fn first_character_is_a_unicode_scalar_not_a_byte() {
    // 'é' is two bytes in UTF-8; the whole scalar moves to the end
    assert_eq!(to_pig_latin("étude"), "tude-éay");
    // uppercase vowels are not special-cased
    assert_eq!(to_pig_latin("Apple"), "pple-Aay");
}

#[test]
fn output_has_as_many_tokens_as_the_input() {
    for input in ["one", "one two three", "  padded   input here ", "a e i o u", ""] {
        let output = to_pig_latin(input);
        let input_tokens = input.split_whitespace().count();
        let output_tokens = output.split_whitespace().count();
        assert_eq!(input_tokens, output_tokens);
    }
}

#[test]
fn whitespace_test_matches_std() {
    for c in [' ', '\t', '\n', '\r', 'x', '-', '\u{a0}', '\u{2003}', '\u{3000}', 'é'] {
        assert_eq!(is_whitespace_char(c), c.is_whitespace());
    }
}
