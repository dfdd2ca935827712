use gui_shell::invocation::CommandInvocation;

fn invocation(program: &str, arguments: &[&str]) -> CommandInvocation {
    CommandInvocation {
        program: program.to_string(),
        arguments: arguments.iter().map(|a| a.to_string()).collect(),
    }
}

#[test]
fn empty_line_is_no_invocation() {
    assert_eq!(CommandInvocation::parse(""), None);
}

#[test]
fn blank_line_is_no_invocation() {
    assert_eq!(CommandInvocation::parse("   "), None);
    assert_eq!(CommandInvocation::parse("\t \n"), None);
}

#[test]
fn program_alone_has_no_arguments() {
    assert_eq!(CommandInvocation::parse("ls"), Some(invocation("ls", &[])));
    assert_eq!(
        CommandInvocation::parse("no-such-binary-xyz"),
        Some(invocation("no-such-binary-xyz", &[]))
    );
}

#[test]
fn first_word_is_the_program() {
    assert_eq!(
        CommandInvocation::parse("echo hello"),
        Some(invocation("echo", &["hello"]))
    );
}

#[test]
fn repeated_blanks_give_no_empty_argument() {
    assert_eq!(
        CommandInvocation::parse("echo  a   b"),
        Some(invocation("echo", &["a", "b"]))
    );
}

#[test]
fn quoted_argument_is_split_at_its_blank() {
    assert_eq!(
        CommandInvocation::parse("echo \"a b\""),
        Some(invocation("echo", &["\"a", "b\""]))
    );
}

#[test]
fn blanks_around_the_line_are_ignored() {
    assert_eq!(
        CommandInvocation::parse("  git   status  "),
        Some(invocation("git", &["status"]))
    );
}

#[test]
fn arguments_keep_their_order_and_their_text() {
    assert_eq!(
        CommandInvocation::parse("cp -r ./a/b /tmp/c=d"),
        Some(invocation("cp", &["-r", "./a/b", "/tmp/c=d"]))
    );
}

#[test]
fn same_line_parses_the_same() {
    assert_eq!(
        CommandInvocation::parse("echo a b"),
        CommandInvocation::parse("echo a b")
    );
}
