//! From a command line to the program to run and the arguments to hand it.

use crate::words::{all_blank, is_word, lemma_words_are_words, lemma_words_of_blanks, split_words, words};
use vstd::prelude::*;

verus! {

/// One program to run, and the arguments to hand it, in their order.
#[derive(Debug, PartialEq, Eq)]
pub struct CommandInvocation {
    pub program: String,
    pub arguments: Vec<String>,
}

/// What a [`CommandInvocation`] holds, as plain sequences of characters.
pub struct InvocationView {
    pub program: Seq<char>,
    pub arguments: Seq<Seq<char>>,
}

impl View for CommandInvocation {
    type V = InvocationView;

    open spec fn view(&self) -> InvocationView {
        InvocationView { program: self.program@, arguments: self.arguments.deep_view() }
    }
}

impl InvocationView {
    /// The program's name and each argument is a word: none is empty, none
    /// holds a blank.
    pub open spec fn well_formed(self) -> bool {
        &&& is_word(self.program)
        &&& forall|i: int| 0 <= i < self.arguments.len() ==> is_word(#[trigger] self.arguments[i])
    }
}

/// The invocation that a command line stands for: its first word names the
/// program, the words after it are the arguments as they stand. A line
/// without a word stands for none.
pub open spec fn invocation_of(line: Seq<char>) -> Option<InvocationView> {
    if words(line).len() == 0 {
        None
    } else {
        Some(InvocationView { program: words(line).first(), arguments: words(line).drop_first() })
    }
}

/// A line stands for no invocation exactly when it is empty or all blank,
/// and the invocation that any other line stands for is well formed.
pub proof fn lemma_invocation_of(line: Seq<char>)
    ensures
        invocation_of(line) is None <==> all_blank(line),
        invocation_of(line) matches Some(invocation) ==> invocation.well_formed(),
{
    lemma_words_of_blanks(line);
    lemma_words_are_words(line);
    if let Some(invocation) = invocation_of(line) {
        assert forall|i: int| 0 <= i < invocation.arguments.len() implies is_word(
            #[trigger] invocation.arguments[i],
        ) by {
            assert(invocation.arguments[i] == words(line)[i + 1]);
        }
    }
}

impl CommandInvocation {
    /// Reads a command line: `None` where it is empty or all blank, else the
    /// program that its first word names with the remaining words as
    /// arguments.
    pub fn parse(line: &str) -> (parsed: Option<CommandInvocation>)
        ensures
            parsed is None <==> all_blank(line@),
            match parsed {
                Some(invocation) => invocation_of(line@) == Some(invocation@)
                    && invocation@.well_formed(),
                None => invocation_of(line@) is None,
            },
    {
        proof {
            lemma_invocation_of(line@);
        }
        let mut found = split_words(line);
        if found.len() == 0 {
            None
        } else {
            let ghost all = found.deep_view();
            let program = found.remove(0);
            assert(program@ == all[0]);
            assert(found.deep_view() == all.drop_first());
            Some(CommandInvocation { program, arguments: found })
        }
    }
}

} // verus!
