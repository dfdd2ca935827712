//! The text that running a command line gives.
//!
//! Running has three steps, and the one in the middle is not this library's:
//! [`plan`] reads the line and says what to do, the caller starts the child
//! process and waits for it, and [`report`] turns what came of that into the
//! text to show. The child's exit status plays no part.

use crate::invocation::{invocation_of, lemma_invocation_of, CommandInvocation, InvocationView};
use crate::text::{decode_lossy, lossy_utf8};
use crate::trim::{lemma_words_of_trimmed, trimmed};
use crate::words::all_blank;
use vstd::prelude::*;
use vstd::string::StringExecFns;
use vstd::utf8::{decode_utf8, valid_utf8};

verus! {

/// What to do about a command line.
#[derive(Debug, PartialEq, Eq)]
pub enum Plan {
    /// Nothing is to be run: this text is the answer.
    Answer(String),
    /// This program is to be started with these arguments, and waited for.
    Spawn(CommandInvocation),
}

/// What a [`Plan`] holds, as plain values.
pub enum PlanView {
    Answer(Seq<char>),
    Spawn(InvocationView),
}

impl View for Plan {
    type V = PlanView;

    open spec fn view(&self) -> PlanView {
        match self {
            Plan::Answer(text) => PlanView::Answer(text@),
            Plan::Spawn(invocation) => PlanView::Spawn(invocation@),
        }
    }
}

/// What came of starting a child process and waiting for it.
#[derive(Debug, PartialEq, Eq)]
pub enum SpawnOutcome {
    /// The child ran and exited: the bytes it wrote to its standard output
    /// and to its standard error.
    Exited { stdout: Vec<u8>, stderr: Vec<u8> },
    /// The child could not be started: the system's description of why.
    Failed { reason: String },
}

/// What a [`SpawnOutcome`] holds, as plain values.
pub enum OutcomeView {
    Exited { stdout: Seq<u8>, stderr: Seq<u8> },
    Failed { reason: Seq<char> },
}

impl View for SpawnOutcome {
    type V = OutcomeView;

    open spec fn view(&self) -> OutcomeView {
        match self {
            SpawnOutcome::Exited { stdout, stderr } => OutcomeView::Exited {
                stdout: stdout@,
                stderr: stderr@,
            },
            SpawnOutcome::Failed { reason } => OutcomeView::Failed { reason: reason@ },
        }
    }
}

/// The answer to a command line without a word.
pub open spec fn no_command_text() -> Seq<char> {
    "No command entered."@
}

/// What the answer to a child that could not be started begins with.
pub open spec fn failure_prefix() -> Seq<char> {
    "Failed to execute command: "@
}

/// The answer to a child that could not be started for `reason`.
pub open spec fn failure_text(reason: Seq<char>) -> Seq<char> {
    failure_prefix() + reason
}

/// One text out of the two that a child wrote: its standard output alone
/// where it wrote no standard error, else its standard output, a line feed,
/// and its standard error.
pub open spec fn joined_output(stdout: Seq<char>, stderr: Seq<char>) -> Seq<char> {
    if stderr.len() == 0 {
        stdout
    } else {
        stdout + seq!['\n'] + stderr
    }
}

/// The text to show for `outcome`.
pub open spec fn report_text(outcome: OutcomeView) -> Seq<char> {
    match outcome {
        OutcomeView::Exited { stdout, stderr } => joined_output(
            lossy_utf8(stdout),
            lossy_utf8(stderr),
        ),
        OutcomeView::Failed { reason } => failure_text(reason),
    }
}

/// What to do about the command line `line`.
pub open spec fn plan_of(line: Seq<char>) -> PlanView {
    match invocation_of(line) {
        None => PlanView::Answer(no_command_text()),
        Some(invocation) => PlanView::Spawn(invocation),
    }
}

/// A line is answered at once exactly when it is empty or all blank; any
/// other line has a program started.
pub proof fn lemma_plan_of(line: Seq<char>)
    ensures
        all_blank(line) ==> plan_of(line) == PlanView::Answer(no_command_text()),
        !all_blank(line) ==> plan_of(line) is Spawn && plan_of(line)->Spawn_0.well_formed(),
{
    lemma_invocation_of(line);
}

/// Blanks at the two ends of a line play no part in what is done about it.
pub proof fn lemma_plan_of_trimmed(line: Seq<char>)
    ensures
        plan_of(trimmed(line)) == plan_of(line),
{
    lemma_words_of_trimmed(line);
}

/// The answer to a command line without a word.
pub fn no_command_message() -> (text: String)
    ensures
        text@ == no_command_text(),
{
    String::from_str("No command entered.")
}

/// The answer to a child that could not be started for `reason`.
pub fn failure_message(reason: &str) -> (text: String)
    ensures
        text@ == failure_text(reason@),
{
    let mut text = String::from_str("Failed to execute command: ");
    text.append(reason);
    text
}

/// Makes one text of the two that a child wrote, already decoded.
pub fn join_output(stdout: &str, stderr: &str) -> (text: String)
    ensures
        text@ == joined_output(stdout@, stderr@),
{
    let mut text = String::from_str(stdout);
    if !stderr.is_empty() {
        proof {
            reveal_strlit("\n");
            assert("\n"@ == seq!['\n']);
        }
        text.append("\n");
        text.append(stderr);
    }
    text
}

/// Decodes the bytes that a child wrote, U+FFFD standing for what is no
/// UTF-8, and makes one text of them. Where the child wrote nothing to its
/// standard error, the text is its decoded standard output and no more;
/// where it wrote anything there, a line feed and the decoded standard error
/// follow.
pub fn captured_text(stdout: &[u8], stderr: &[u8]) -> (text: String)
    ensures
        text@ == joined_output(lossy_utf8(stdout@), lossy_utf8(stderr@)),
        valid_utf8(stdout@) && valid_utf8(stderr@) ==> text@ == joined_output(
            decode_utf8(stdout@),
            decode_utf8(stderr@),
        ),
        stderr@.len() == 0 ==> text@ == lossy_utf8(stdout@),
        stderr@.len() > 0 ==> text@ == lossy_utf8(stdout@) + seq!['\n'] + lossy_utf8(stderr@),
{
    let out = decode_lossy(stdout);
    let err = decode_lossy(stderr);
    join_output(out.as_str(), err.as_str())
}

/// Reads a command line and says what to do about it: answer at once where
/// it is empty or all blank, else start the program that it names.
pub fn plan(line: &str) -> (step: Plan)
    ensures
        step@ == plan_of(line@),
        step is Answer <==> all_blank(line@),
{
    proof {
        lemma_plan_of(line@);
    }
    match CommandInvocation::parse(line) {
        None => Plan::Answer(no_command_message()),
        Some(invocation) => Plan::Spawn(invocation),
    }
}

/// The text to show for what came of starting the child: what it wrote,
/// decoded and made one text, or the reason why it could not be started
/// behind a fixed prefix.
pub fn report(outcome: &SpawnOutcome) -> (text: String)
    ensures
        text@ == report_text(outcome@),
        match outcome@ {
            OutcomeView::Exited { stdout, stderr } => {
                &&& valid_utf8(stdout) && valid_utf8(stderr) ==> text@ == joined_output(
                    decode_utf8(stdout),
                    decode_utf8(stderr),
                )
                &&& stderr.len() == 0 ==> text@ == lossy_utf8(stdout)
                &&& stderr.len() > 0 ==> text@ == lossy_utf8(stdout) + seq!['\n'] + lossy_utf8(
                    stderr,
                )
            },
            OutcomeView::Failed { reason } => text@ == failure_prefix() + reason,
        },
{
    match outcome {
        SpawnOutcome::Exited { stdout, stderr } => captured_text(
            stdout.as_slice(),
            stderr.as_slice(),
        ),
        SpawnOutcome::Failed { reason } => failure_message(reason.as_str()),
    }
}

} // verus!
