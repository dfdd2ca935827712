use gui_shell::words::{is_blank_char, split_words};

fn owned(words: &[&str]) -> Vec<String> {
    words.iter().map(|w| w.to_string()).collect()
}

#[test]
fn blank_characters_are_space_and_tab_to_carriage_return() {
    for c in [' ', '\t', '\n', '\u{b}', '\u{c}', '\r'] {
        assert!(is_blank_char(c), "{:?}", c);
    }
}

#[test]
fn neighbours_of_the_blank_controls_are_not_blank() {
    assert!(!is_blank_char('\u{8}'));
    assert!(!is_blank_char('\u{e}'));
    assert!(!is_blank_char('\u{1f}'));
    assert!(!is_blank_char('!'));
    assert!(!is_blank_char('\0'));
}

#[test]
fn letters_digits_and_quotes_are_not_blank() {
    for c in ['a', 'Z', '0', '"', '\'', '\\', '|', '>', '$', '*'] {
        assert!(!is_blank_char(c), "{:?}", c);
    }
}

#[test]
fn blanks_beyond_ascii_are_ordinary_characters() {
    for c in ['\u{85}', '\u{a0}', '\u{1680}', '\u{2003}', '\u{2028}', '\u{3000}'] {
        assert!(!is_blank_char(c), "{:?}", c);
    }
}

#[test]
fn empty_line_has_no_words() {
    assert_eq!(split_words(""), Vec::<String>::new());
}

#[test]
fn blank_line_has_no_words() {
    assert_eq!(split_words("   "), Vec::<String>::new());
    assert_eq!(split_words(" \t\r\n\u{b}\u{c}"), Vec::<String>::new());
}

#[test]
fn single_word_is_its_own_word() {
    assert_eq!(split_words("ls"), owned(&["ls"]));
}

#[test]
fn words_come_in_their_order() {
    assert_eq!(split_words("echo hello world"), owned(&["echo", "hello", "world"]));
}

#[test]
fn runs_of_blanks_count_as_one() {
    assert_eq!(split_words("echo  a   b"), owned(&["echo", "a", "b"]));
    assert_eq!(split_words("echo \t a\n\n\nb"), owned(&["echo", "a", "b"]));
}

#[test]
fn blanks_at_the_ends_make_no_words() {
    assert_eq!(split_words("  ls -l  "), owned(&["ls", "-l"]));
    assert_eq!(split_words("\tls"), owned(&["ls"]));
    assert_eq!(split_words("ls\n"), owned(&["ls"]));
}

#[test]
fn quotes_do_not_hold_words_together() {
    assert_eq!(split_words("echo \"a b\""), owned(&["echo", "\"a", "b\""]));
    assert_eq!(split_words("echo 'a b'"), owned(&["echo", "'a", "b'"]));
}

#[test]
fn backslash_does_not_escape_a_blank() {
    assert_eq!(split_words("cat a\\ b"), owned(&["cat", "a\\", "b"]));
}

#[test]
fn shell_syntax_is_passed_on_as_words() {
    assert_eq!(
        split_words("ls | grep x > out.txt"),
        owned(&["ls", "|", "grep", "x", ">", "out.txt"])
    );
    assert_eq!(split_words("echo $HOME *.rs"), owned(&["echo", "$HOME", "*.rs"]));
}

#[test]
fn characters_beyond_ascii_stay_in_their_words() {
    assert_eq!(split_words("echo héllo 世界"), owned(&["echo", "héllo", "世界"]));
    assert_eq!(split_words("a\u{a0}b c"), owned(&["a\u{a0}b", "c"]));
}

#[test]
fn each_word_is_free_of_blanks_and_not_empty() {
    for line in ["", " ", "a", " a b ", "x\ty\nz", "  many   words in\r\n a line  "] {
        for word in split_words(line) {
            assert!(!word.is_empty());
            assert!(word.chars().all(|c| !is_blank_char(c)));
        }
    }
}

#[test]
fn more_blanks_in_a_gap_change_no_word() {
    assert_eq!(split_words("a b"), split_words("a \t\n b"));
    assert_eq!(split_words("ab cd ef"), split_words("ab   cd\tef"));
}

#[test]
fn words_of_two_parts_with_a_blank_between() {
    let left = "run  this";
    let right = "and that ";
    let mut both = split_words(left);
    both.extend(split_words(right));
    assert_eq!(split_words(&format!("{} {}", left, right)), both);
}

#[test]
fn joining_words_with_spaces_and_splitting_gives_them_back() {
    let words = owned(&["grep", "-rn", "\"x", "src/"]);
    assert_eq!(split_words(&words.join(" ")), words);
}
