use gui_shell::trim::trim;
use gui_shell::words::split_words;

#[test]
fn trim_of_empty_is_empty() {
    assert_eq!(trim(""), "");
}

#[test]
fn trim_of_blanks_is_empty() {
    assert_eq!(trim("   "), "");
    assert_eq!(trim("\t\n\u{b}\u{c}\r "), "");
}

#[test]
fn trim_takes_blanks_off_both_ends() {
    assert_eq!(trim("  ls -l  "), "ls -l");
    assert_eq!(trim("\techo hi\r\n"), "echo hi");
}

#[test]
fn trim_keeps_blanks_inside() {
    assert_eq!(trim(" a  \t b "), "a  \t b");
}

#[test]
fn trim_leaves_a_trimmed_line_alone() {
    assert_eq!(trim("ls"), "ls");
    assert_eq!(trim("x"), "x");
    assert_eq!(trim("echo a b"), "echo a b");
}

#[test]
fn trim_on_one_side_only() {
    assert_eq!(trim("  left"), "left");
    assert_eq!(trim("right  "), "right");
}

#[test]
fn trim_counts_characters_not_bytes() {
    assert_eq!(trim("  héllo 世界  "), "héllo 世界");
    assert_eq!(trim(" é "), "é");
}

#[test]
fn trim_keeps_blanks_beyond_ascii() {
    assert_eq!(trim("\u{a0}ls\u{a0}"), "\u{a0}ls\u{a0}");
    assert_eq!(trim(" \u{3000} "), "\u{3000}");
}

#[test]
fn trim_twice_is_trim_once() {
    for line in ["", "  ", " a ", "a b", "\t x  y \n"] {
        assert_eq!(trim(trim(line)), trim(line));
    }
}

#[test]
fn trim_changes_no_word() {
    for line in ["", "  ", " a ", "a b", "\t x  y \n", "  echo  a   b "] {
        assert_eq!(split_words(trim(line)), split_words(line));
    }
}
