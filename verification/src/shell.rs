//! The state of the shell's window, and what each message does to it.
//!
//! The window first shows a splash screen and, once that has been up for long
//! enough, a line to type commands into above a log of what they gave. This
//! module decides; it neither reads a clock nor runs anything. [`GuiShell::update`]
//! takes a message, changes the state, and says in an [`Action`] what the
//! caller is to do next; the caller reports back in a further message.
//!
//! Every submission on the main screen has its line run, the empty line too,
//! and the window remembers the line until the output comes: the log entry
//! is made of the line that was submitted and the output that was handed in.

use crate::invocation::invocation_of;
use crate::trim::{lemma_trimmed_frame, lemma_trimmed_twice, trim, trimmed};
use crate::words::lemma_words_of_blanks;
use vstd::prelude::*;
use vstd::string::StringExecFns;

verus! {

/// How long the splash screen stays up, in nanoseconds: three seconds.
pub const SPLASH_DURATION_NANOS: u128 = 3_000_000_000;

/// Which of its two screens the window shows.
#[derive(Clone, Copy, Debug, PartialEq, Eq, Structural)]
pub enum AppState {
    Splash,
    Main,
}

/// What can happen to the window.
#[derive(Debug, PartialEq, Eq)]
pub enum Message {
    /// The text in the input line is now this.
    InputChanged(String),
    /// The input line was submitted.
    SubmitPressed,
    /// It is time to look whether the splash screen has been up for long
    /// enough. With it comes the time since the splash screen came up, in
    /// nanoseconds; `None` where that moment was not recorded.
    SplashTimeout(Option<u128>),
    /// The oldest command that an [`Action::Execute`] asked for and that has
    /// not been answered yet has run and has given this output.
    CommandFinished { output: String },
}

/// What a [`Message`] holds, as plain values.
pub enum MessageView {
    InputChanged(Seq<char>),
    SubmitPressed,
    SplashTimeout(Option<u128>),
    CommandFinished { output: Seq<char> },
}

impl View for Message {
    type V = MessageView;

    open spec fn view(&self) -> MessageView {
        match self {
            Message::InputChanged(value) => MessageView::InputChanged(value@),
            Message::SubmitPressed => MessageView::SubmitPressed,
            Message::SplashTimeout(elapsed) => MessageView::SplashTimeout(*elapsed),
            Message::CommandFinished { output } => MessageView::CommandFinished {
                output: output@,
            },
        }
    }
}

/// What the caller is to do after a message.
#[derive(Debug, PartialEq, Eq)]
pub enum Action {
    /// Nothing.
    Nothing,
    /// Send a [`Message::SplashTimeout`] again.
    PollSplash,
    /// Run this command line, then send a [`Message::CommandFinished`] with
    /// what it gave. Where several are asked for, they are answered in the
    /// order in which they were asked for.
    Execute(String),
}

/// What an [`Action`] holds, as plain values.
pub enum ActionView {
    Nothing,
    PollSplash,
    Execute(Seq<char>),
}

impl View for Action {
    type V = ActionView;

    open spec fn view(&self) -> ActionView {
        match self {
            Action::Nothing => ActionView::Nothing,
            Action::PollSplash => ActionView::PollSplash,
            Action::Execute(command) => ActionView::Execute(command@),
        }
    }
}

/// The state of the window.
pub struct GuiShell {
    state: AppState,
    input_value: String,
    output_log: String,
    command_history: Vec<String>,
    pending: Vec<String>,
    splash_duration: u128,
}

/// What a [`GuiShell`] holds, as plain values.
pub struct ShellView {
    /// The screen that is shown.
    pub state: AppState,
    /// The text in the input line.
    pub input_value: Seq<char>,
    /// Everything the log shows.
    pub output_log: Seq<char>,
    /// The commands that were run, oldest first.
    pub command_history: Seq<Seq<char>>,
    /// The lines that were asked to be run and whose output has not come
    /// yet, oldest first.
    pub pending: Seq<Seq<char>>,
    /// How long the splash screen stays up, in nanoseconds.
    pub splash_duration: nat,
}

impl View for GuiShell {
    type V = ShellView;

    closed spec fn view(&self) -> ShellView {
        ShellView {
            state: self.state,
            input_value: self.input_value@,
            output_log: self.output_log@,
            command_history: self.command_history.deep_view(),
            pending: self.pending.deep_view(),
            splash_duration: self.splash_duration as nat,
        }
    }
}

/// A line that can be run as it stands: it is not empty, and trimming would
/// take nothing off it.
pub open spec fn is_command(line: Seq<char>) -> bool {
    line.len() > 0 && trimmed(line) == line
}

impl ShellView {
    /// What holds of the window whatever messages have come: the splash
    /// screen stays up for three seconds; while it is up, the input line,
    /// the log and the history are empty and nothing waits for its output;
    /// each entry of the history is a line that could be run as it stands;
    /// and each line that waits for its output is a trimmed one.
    pub open spec fn well_formed(self) -> bool {
        &&& self.splash_duration == SPLASH_DURATION_NANOS
        &&& self.state == AppState::Splash ==> {
            &&& self.input_value.len() == 0
            &&& self.output_log.len() == 0
            &&& self.command_history.len() == 0
            &&& self.pending.len() == 0
        }
        &&& forall|i: int|
            0 <= i < self.command_history.len() ==> is_command(#[trigger] self.command_history[i])
        &&& forall|i: int|
            0 <= i < self.pending.len() ==> trimmed(#[trigger] self.pending[i]) == self.pending[i]
    }
}

/// The window's title.
pub open spec fn title_text() -> Seq<char> {
    "AI Shell"@
}

/// What the log gains when `command` has given `output`: a line with `> `
/// and the command, then the output, then a line feed.
pub open spec fn log_entry(command: Seq<char>, output: Seq<char>) -> Seq<char> {
    "> "@ + command + seq!['\n'] + output + seq!['\n']
}

/// The state that a new window starts in.
pub open spec fn initial() -> ShellView {
    ShellView {
        state: AppState::Splash,
        input_value: Seq::empty(),
        output_log: Seq::empty(),
        command_history: Seq::empty(),
        pending: Seq::empty(),
        splash_duration: SPLASH_DURATION_NANOS as nat,
    }
}

/// The state after `message` has come in state `pre`, and what the caller is
/// to do.
///
/// * A splash timeout ends the splash screen once it has been up for the
///   splash duration; before that it asks to be sent again; without a time
///   it does nothing.
/// * While the splash screen is up, nothing else has any effect.
/// * A change of the input replaces the text in the input line.
/// * A submission asks for the input line, trimmed, to be run, whatever it
///   holds, and has it wait for its output. Where the trimmed line is not
///   empty, it is entered in the history too.
/// * A finished command is the one that has waited longest: its entry, made
///   of its line and the output, is added to the log, and the input line is
///   emptied. Where nothing waits, nothing happens.
pub open spec fn step(pre: ShellView, message: MessageView) -> (ShellView, ActionView) {
    match message {
        MessageView::SplashTimeout(Some(elapsed)) => {
            if elapsed >= pre.splash_duration {
                (ShellView { state: AppState::Main, ..pre }, ActionView::Nothing)
            } else {
                (pre, ActionView::PollSplash)
            }
        },
        MessageView::SplashTimeout(None) => (pre, ActionView::Nothing),
        MessageView::InputChanged(value) => {
            if pre.state == AppState::Main {
                (ShellView { input_value: value, ..pre }, ActionView::Nothing)
            } else {
                (pre, ActionView::Nothing)
            }
        },
        MessageView::SubmitPressed => {
            let command = trimmed(pre.input_value);
            if pre.state == AppState::Main {
                (
                    ShellView {
                        command_history: if command.len() > 0 {
                            pre.command_history.push(command)
                        } else {
                            pre.command_history
                        },
                        pending: pre.pending.push(command),
                        ..pre
                    },
                    ActionView::Execute(command),
                )
            } else {
                (pre, ActionView::Nothing)
            }
        },
        MessageView::CommandFinished { output } => {
            if pre.state == AppState::Main && pre.pending.len() > 0 {
                (
                    ShellView {
                        output_log: pre.output_log + log_entry(pre.pending.first(), output),
                        input_value: Seq::empty(),
                        pending: pre.pending.drop_first(),
                        ..pre
                    },
                    ActionView::Nothing,
                )
            } else {
                (pre, ActionView::Nothing)
            }
        },
    }
}

/// The log only grows: what it showed before a message, it shows after it,
/// in front of anything new. So does the history.
pub proof fn lemma_step_appends(pre: ShellView, message: MessageView)
    ensures
        pre.output_log.is_prefix_of(step(pre, message).0.output_log),
        pre.command_history.is_prefix_of(step(pre, message).0.command_history),
{
    let post = step(pre, message).0;
    assert(pre.output_log.is_prefix_of(post.output_log)) by {
        assert(post.output_log.subrange(0, pre.output_log.len() as int) == pre.output_log);
    }
    assert(pre.command_history.is_prefix_of(post.command_history)) by {
        assert(post.command_history.subrange(0, pre.command_history.len() as int)
            == pre.command_history);
    }
}

/// The splash screen never comes back, and the splash duration never changes.
pub proof fn lemma_step_keeps_main(pre: ShellView, message: MessageView)
    ensures
        pre.state == AppState::Main ==> step(pre, message).0.state == AppState::Main,
        step(pre, message).0.splash_duration == pre.splash_duration,
{
}

/// While the splash screen is up, no message changes the input line, the log
/// or the history, and none has a command run.
pub proof fn lemma_step_in_splash(pre: ShellView, message: MessageView)
    requires
        pre.state == AppState::Splash,
    ensures
        step(pre, message).0.input_value == pre.input_value,
        step(pre, message).0.output_log == pre.output_log,
        step(pre, message).0.command_history == pre.command_history,
        step(pre, message).0.pending == pre.pending,
        !(step(pre, message).1 is Execute),
{
}

/// On the main screen every submission has a command run: the input line,
/// trimmed, whatever it holds.
pub proof fn lemma_step_submits(pre: ShellView)
    requires
        pre.state == AppState::Main,
    ensures
        step(pre, MessageView::SubmitPressed).1 == ActionView::Execute(trimmed(pre.input_value)),
{
}

/// The log changes in one way only: the output of a finished command comes,
/// and the entry of the line that has waited longest, with that output, is
/// added at the end. That line then waits no more.
pub proof fn lemma_step_logs(pre: ShellView, message: MessageView)
    requires
        step(pre, message).0.output_log != pre.output_log,
    ensures
        message is CommandFinished,
        pre.pending.len() > 0,
        step(pre, message).0.output_log == pre.output_log + log_entry(
            pre.pending.first(),
            message->output,
        ),
        step(pre, message).0.pending == pre.pending.drop_first(),
{
}

/// A submission and the output that is handed in for it: where nothing else
/// waited, the log gains the entry of the trimmed input line with that
/// output, the input line is emptied, and nothing waits any more.
pub proof fn lemma_submission_round(pre: ShellView, output: Seq<char>)
    requires
        pre.state == AppState::Main,
        pre.pending.len() == 0,
    ensures
        ({
            let submitted = step(pre, MessageView::SubmitPressed).0;
            let post = step(submitted, MessageView::CommandFinished { output }).0;
            &&& post.output_log == pre.output_log + log_entry(trimmed(pre.input_value), output)
            &&& post.input_value.len() == 0
            &&& post.pending.len() == 0
            &&& post.command_history == submitted.command_history
            &&& post.state == AppState::Main
        }),
{
    let submitted = step(pre, MessageView::SubmitPressed).0;
    assert(submitted.pending.first() == trimmed(pre.input_value));
    assert(submitted.pending.drop_first().len() == 0);
}

/// A line that can be run as it stands names a program.
pub proof fn lemma_command_names_program(line: Seq<char>)
    requires
        is_command(line),
    ensures
        invocation_of(line) is Some,
{
    lemma_trimmed_frame(line);
    lemma_words_of_blanks(line);
}

/// A command that is to be run is the trimmed input line of a submission
/// on the main screen, and it waits for its output behind those that waited
/// already. Where it is not empty, it can be run as it stands and is the
/// entry that the history gains; the empty line leaves the history as it is.
pub proof fn lemma_step_executes(pre: ShellView, message: MessageView)
    requires
        step(pre, message).1 is Execute,
    ensures
        message is SubmitPressed,
        pre.state == AppState::Main,
        step(pre, message).1->Execute_0 == trimmed(pre.input_value),
        trimmed(step(pre, message).1->Execute_0) == step(pre, message).1->Execute_0,
        step(pre, message).0.pending == pre.pending.push(step(pre, message).1->Execute_0),
        step(pre, message).1->Execute_0.len() > 0 ==> {
            &&& is_command(step(pre, message).1->Execute_0)
            &&& step(pre, message).0.command_history == pre.command_history.push(
                step(pre, message).1->Execute_0,
            )
        },
        step(pre, message).1->Execute_0.len() == 0 ==> step(pre, message).0.command_history
            == pre.command_history,
{
    lemma_trimmed_twice(pre.input_value);
}

/// A new window is well formed.
pub proof fn lemma_initial_well_formed()
    ensures
        initial().well_formed(),
{
}

/// No message takes a well-formed window to one that is not.
pub proof fn lemma_step_keeps_well_formed(pre: ShellView, message: MessageView)
    requires
        pre.well_formed(),
    ensures
        step(pre, message).0.well_formed(),
{
    let post = step(pre, message).0;
    if step(pre, message).1 is Execute {
        lemma_step_executes(pre, message);
    }
    assert forall|i: int| 0 <= i < post.command_history.len() implies is_command(
        #[trigger] post.command_history[i],
    ) by {
        if i < pre.command_history.len() {
            assert(post.command_history[i] == pre.command_history[i]);
        }
    }
    assert forall|i: int| 0 <= i < post.pending.len() implies trimmed(
        #[trigger] post.pending[i],
    ) == post.pending[i] by {
        if message is CommandFinished {
            if post.pending.len() < pre.pending.len() {
                assert(post.pending[i] == pre.pending[i + 1]);
            }
        } else if i < pre.pending.len() {
            assert(post.pending[i] == pre.pending[i]);
        }
    }
}

impl GuiShell {
    /// A new window: the splash screen is up, the input line, the log and
    /// the history are empty, nothing waits for its output, and the first
    /// splash timeout is to be sent.
    pub fn new() -> (start: (GuiShell, Action))
        ensures
            start.0@ == initial(),
            start.0@.well_formed(),
            start.1@ == ActionView::PollSplash,
    {
        let shell = GuiShell {
            state: AppState::Splash,
            input_value: String::new(),
            output_log: String::new(),
            command_history: Vec::new(),
            pending: Vec::new(),
            splash_duration: SPLASH_DURATION_NANOS,
        };
        assert(shell.command_history.deep_view() == Seq::<Seq<char>>::empty());
        assert(shell.pending.deep_view() == Seq::<Seq<char>>::empty());
        (shell, Action::PollSplash)
    }

    /// The window's title.
    pub fn title(&self) -> (title: String)
        ensures
            title@ == title_text(),
    {
        String::from_str("AI Shell")
    }

    /// The screen that is shown.
    pub fn state(&self) -> (state: AppState)
        ensures
            state == self@.state,
    {
        self.state
    }

    /// The text in the input line.
    pub fn input_value(&self) -> (value: &str)
        ensures
            value@ == self@.input_value,
    {
        self.input_value.as_str()
    }

    /// Everything the log shows.
    pub fn output_log(&self) -> (log: &str)
        ensures
            log@ == self@.output_log,
    {
        self.output_log.as_str()
    }

    /// The commands that were run, oldest first.
    pub fn command_history(&self) -> (history: &Vec<String>)
        ensures
            history.deep_view() == self@.command_history,
    {
        &self.command_history
    }

    /// The lines that were asked to be run and whose output has not come
    /// yet, oldest first.
    pub fn pending(&self) -> (pending: &Vec<String>)
        ensures
            pending.deep_view() == self@.pending,
    {
        &self.pending
    }

    /// How long the splash screen stays up, in nanoseconds.
    pub fn splash_duration(&self) -> (nanos: u128)
        ensures
            nanos == self@.splash_duration,
    {
        self.splash_duration
    }

    /// Takes a message: changes the state and says what the caller is to do,
    /// both as [`step`] has it. A well-formed window stays well formed.
    pub fn update(&mut self, message: Message) -> (action: Action)
        ensures
            (final(self)@, action@) == step(old(self)@, message@),
            old(self)@.well_formed() ==> final(self)@.well_formed(),
    {
        proof {
            if self@.well_formed() {
                lemma_step_keeps_well_formed(self@, message@);
            }
        }
        match message {
            Message::SplashTimeout(Some(elapsed)) => {
                if elapsed >= self.splash_duration {
                    self.state = AppState::Main;
                    Action::Nothing
                } else {
                    Action::PollSplash
                }
            },
            Message::SplashTimeout(None) => Action::Nothing,
            Message::InputChanged(value) => {
                if self.state == AppState::Main {
                    self.input_value = value;
                }
                Action::Nothing
            },
            Message::SubmitPressed => {
                if self.state == AppState::Main {
                    let command = String::from_str(trim(self.input_value.as_str()));
                    if !command.as_str().is_empty() {
                        let ghost before = self.command_history.deep_view();
                        self.command_history.push(command.clone());
                        assert(self.command_history.deep_view() == before.push(command@));
                    }
                    let ghost waiting = self.pending.deep_view();
                    self.pending.push(command.clone());
                    assert(self.pending.deep_view() == waiting.push(command@));
                    return Action::Execute(command);
                }
                Action::Nothing
            },
            Message::CommandFinished { output } => {
                if self.state == AppState::Main && self.pending.len() > 0 {
                    let ghost waiting = self.pending.deep_view();
                    let command = self.pending.remove(0);
                    assert(command@ == waiting.first());
                    assert(self.pending.deep_view() == waiting.drop_first());
                    proof {
                        reveal_strlit("> ");
                        reveal_strlit("\n");
                    }
                    self.output_log.append("> ");
                    self.output_log.append(command.as_str());
                    self.output_log.append("\n");
                    self.output_log.append(output.as_str());
                    self.output_log.append("\n");
                    self.input_value = String::new();
                    assert(self.output_log@ == old(self).output_log@ + log_entry(
                        command@,
                        output@,
                    ));
                }
                Action::Nothing
            },
        }
    }
}

} // verus!
