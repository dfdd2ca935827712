use gui_shell::executor::{
    captured_text, failure_message, join_output, no_command_message, plan, report, Plan,
    SpawnOutcome,
};
use gui_shell::invocation::CommandInvocation;

fn exited(stdout: &[u8], stderr: &[u8]) -> SpawnOutcome {
    SpawnOutcome::Exited { stdout: stdout.to_vec(), stderr: stderr.to_vec() }
}

fn spawn(program: &str, arguments: &[&str]) -> Plan {
    Plan::Spawn(CommandInvocation {
        program: program.to_string(),
        arguments: arguments.iter().map(|a| a.to_string()).collect(),
    })
}

#[test]
fn no_command_message_text() {
    assert_eq!(no_command_message(), "No command entered.");
}

#[test]
fn empty_line_is_answered_at_once() {
    assert_eq!(plan(""), Plan::Answer("No command entered.".to_string()));
}

#[test]
fn blank_line_is_answered_at_once() {
    assert_eq!(plan("   "), Plan::Answer("No command entered.".to_string()));
    assert_eq!(plan(" \t\n"), Plan::Answer("No command entered.".to_string()));
}

#[test]
fn echo_hello_is_spawned_with_one_argument() {
    assert_eq!(plan("echo hello"), spawn("echo", &["hello"]));
}

#[test]
fn echo_hello_gives_its_line() {
    assert_eq!(report(&exited(b"hello\n", b"")), "hello\n");
}

#[test]
fn repeated_blanks_collapse_in_the_plan() {
    assert_eq!(plan("echo  a   b"), spawn("echo", &["a", "b"]));
}

#[test]
fn quotes_are_not_read_in_the_plan() {
    assert_eq!(plan("echo \"a b\""), spawn("echo", &["\"a", "b\""]));
}

#[test]
fn unknown_program_is_still_spawned() {
    assert_eq!(plan("no-such-binary-xyz"), spawn("no-such-binary-xyz", &[]));
}

#[test]
fn failure_message_has_the_prefix_and_the_reason() {
    assert_eq!(
        failure_message("No such file or directory (os error 2)"),
        "Failed to execute command: No such file or directory (os error 2)"
    );
    assert_eq!(failure_message(""), "Failed to execute command: ");
}

#[test]
fn failed_spawn_is_reported_with_the_prefix() {
    let outcome = SpawnOutcome::Failed { reason: "Permission denied (os error 13)".to_string() };
    let text = report(&outcome);
    assert!(text.starts_with("Failed to execute command: "));
    assert_eq!(text, "Failed to execute command: Permission denied (os error 13)");
}

#[test]
fn stdout_and_stderr_are_joined_by_a_line_feed() {
    assert_eq!(report(&exited(b"out", b"err")), "out\nerr");
    assert_eq!(join_output("out", "err"), "out\nerr");
}

#[test]
fn stdout_comes_before_stderr() {
    assert_eq!(report(&exited(b"second written\n", b"first written\n")), "second written\n\nfirst written\n");
}

#[test]
fn stdout_alone_is_given_as_it_is() {
    assert_eq!(report(&exited(b"out", b"")), "out");
    assert_eq!(report(&exited(b"line one\nline two\n", b"")), "line one\nline two\n");
    assert_eq!(join_output("out", ""), "out");
}

#[test]
fn stderr_that_is_not_utf8_is_still_joined() {
    assert_eq!(report(&exited(b"out", b"\xff")), "out\n\u{fffd}");
    assert_eq!(captured_text(b"", b"\x80"), "\n\u{fffd}");
}

#[test]
fn stderr_alone_follows_a_line_feed() {
    assert_eq!(report(&exited(b"", b"err")), "\nerr");
    assert_eq!(join_output("", "err"), "\nerr");
}

#[test]
fn silent_child_gives_empty_text() {
    assert_eq!(report(&exited(b"", b"")), "");
    assert_eq!(join_output("", ""), "");
}

#[test]
fn bytes_that_are_not_utf8_become_replacement_characters() {
    assert_eq!(captured_text(b"a\xffb", b""), "a\u{fffd}b");
    assert_eq!(captured_text(b"ok", b"\xc3"), "ok\n\u{fffd}");
    assert_eq!(report(&exited(b"\xf0\x9f", b"")), "\u{fffd}");
}

#[test]
fn utf8_bytes_are_decoded() {
    assert_eq!(captured_text("héllo 世界\n".as_bytes(), b""), "héllo 世界\n");
    assert_eq!(captured_text(b"", "ошибка".as_bytes()), "\nошибка");
}

#[test]
fn same_outcome_gives_the_same_text() {
    let outcome = exited(b"out\n", b"warn\n");
    assert_eq!(report(&outcome), report(&outcome));
    assert_eq!(plan("echo a"), plan("echo a"));
}
