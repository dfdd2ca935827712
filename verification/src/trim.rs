//! Taking the blanks off the two ends of a text.

use crate::words::{all_blank, is_blank, is_blank_char, lemma_words_concat, lemma_words_of_blanks, words};
use vstd::prelude::*;

verus! {

/// The number of blanks in front of the first character of `s` that is none;
/// the length of `s` where all of it is blank.
pub open spec fn leading_blanks(s: Seq<char>) -> nat
    decreases s.len(),
{
    if s.len() == 0 || !is_blank(s[0]) {
        0
    } else {
        1 + leading_blanks(s.drop_first())
    }
}

/// The number of blanks behind the last character of `s` that is none; the
/// length of `s` where all of it is blank.
pub open spec fn trailing_blanks(s: Seq<char>) -> nat
    decreases s.len(),
{
    if s.len() == 0 || !is_blank(s.last()) {
        0
    } else {
        1 + trailing_blanks(s.drop_last())
    }
}

/// `s` without the blanks at its two ends: nothing where `s` is all blank,
/// else what reaches from its first character that is no blank to its last.
pub open spec fn trimmed(s: Seq<char>) -> Seq<char> {
    if all_blank(s) {
        Seq::empty()
    } else {
        s.subrange(leading_blanks(s) as int, s.len() - trailing_blanks(s))
    }
}

/// `leading_blanks(s)` stops at the first character that is no blank.
pub proof fn lemma_leading_blanks(s: Seq<char>)
    ensures
        leading_blanks(s) <= s.len(),
        all_blank(s.take(leading_blanks(s) as int)),
        leading_blanks(s) < s.len() ==> !is_blank(s[leading_blanks(s) as int]),
    decreases s.len(),
{
    if s.len() == 0 || !is_blank(s[0]) {
    } else {
        let t = s.drop_first();
        lemma_leading_blanks(t);
        let n: int = leading_blanks(s) as int;
        assert forall|i: int| 0 <= i < n implies is_blank(#[trigger] s.take(n)[i]) by {
            if i > 0 {
                assert(s.take(n)[i] == t.take(n - 1)[i - 1]);
            }
        }
    }
}

/// Only one length is that of the run of blanks at the front of `s`.
pub proof fn lemma_leading_blanks_is(s: Seq<char>, k: int)
    requires
        0 <= k <= s.len(),
        all_blank(s.take(k)),
        k < s.len() ==> !is_blank(s[k]),
    ensures
        leading_blanks(s) == k,
    decreases s.len(),
{
    if k == 0 {
    } else {
        assert(s.take(k)[0] == s[0]);
        let t = s.drop_first();
        assert forall|i: int| 0 <= i < k - 1 implies is_blank(#[trigger] t.take(k - 1)[i]) by {
            assert(t.take(k - 1)[i] == s.take(k)[i + 1]);
        }
        lemma_leading_blanks_is(t, k - 1);
    }
}

/// `trailing_blanks(s)` reaches back to the last character that is no blank.
pub proof fn lemma_trailing_blanks(s: Seq<char>)
    ensures
        trailing_blanks(s) <= s.len(),
        all_blank(s.skip(s.len() - trailing_blanks(s))),
        trailing_blanks(s) < s.len() ==> !is_blank(s[s.len() - trailing_blanks(s) - 1]),
    decreases s.len(),
{
    if s.len() == 0 || !is_blank(s.last()) {
    } else {
        let t = s.drop_last();
        lemma_trailing_blanks(t);
        let from: int = s.len() - trailing_blanks(s);
        assert forall|i: int| 0 <= i < s.skip(from).len() implies is_blank(
            #[trigger] s.skip(from)[i],
        ) by {
            if from + i < t.len() {
                assert(s.skip(from)[i] == t.skip(from)[i]);
            }
        }
    }
}

/// Only one length is that of the run of blanks at the end of `s`.
pub proof fn lemma_trailing_blanks_is(s: Seq<char>, k: int)
    requires
        0 <= k <= s.len(),
        all_blank(s.skip(s.len() - k)),
        k < s.len() ==> !is_blank(s[s.len() - k - 1]),
    ensures
        trailing_blanks(s) == k,
    decreases s.len(),
{
    if k == 0 {
    } else {
        let from: int = s.len() - k;
        assert(s.skip(from)[k - 1] == s.last());
        let t = s.drop_last();
        assert forall|i: int| 0 <= i < t.skip(from).len() implies is_blank(
            #[trigger] t.skip(from)[i],
        ) by {
            assert(t.skip(from)[i] == s.skip(from)[i]);
        }
        lemma_trailing_blanks_is(t, k - 1);
    }
}

/// What trimming leaves is framed by blanks alone, and is itself empty or
/// begins and ends with a character that is no blank.
pub proof fn lemma_trimmed_frame(s: Seq<char>)
    ensures
        !all_blank(s) ==> s == s.take(leading_blanks(s) as int) + trimmed(s) + s.skip(
            s.len() - trailing_blanks(s),
        ),
        all_blank(s.take(leading_blanks(s) as int)),
        all_blank(s.skip(s.len() - trailing_blanks(s))),
        trimmed(s).len() == 0 <==> all_blank(s),
        trimmed(s).len() > 0 ==> !is_blank(trimmed(s).first()) && !is_blank(trimmed(s).last()),
{
    lemma_leading_blanks(s);
    lemma_trailing_blanks(s);
    let a: int = leading_blanks(s) as int;
    let b: int = s.len() - trailing_blanks(s);
    if !all_blank(s) {
        let j: int = choose|j: int| 0 <= j < s.len() && !is_blank(#[trigger] s[j]);
        if j < a {
            assert(s.take(a)[j] == s[j]);
        }
        if j >= b {
            assert(s.skip(b)[j - b] == s[j]);
        }
        assert(a <= j < b);
        assert(s =~= s.take(a) + s.subrange(a, b) + s.skip(b));
    }
}

/// Trimming a second time changes nothing.
pub proof fn lemma_trimmed_twice(s: Seq<char>)
    ensures
        trimmed(trimmed(s)) == trimmed(s),
{
    lemma_trimmed_frame(s);
    let t = trimmed(s);
    if t.len() > 0 {
        assert(!all_blank(t));
        assert(t.take(0).len() == 0);
        lemma_leading_blanks_is(t, 0);
        assert(t.skip(t.len() as int).len() == 0);
        lemma_trailing_blanks_is(t, 0);
        assert(t.subrange(0, t.len() as int) == t);
    }
}

/// Trimming takes no word away and changes none.
pub proof fn lemma_words_of_trimmed(s: Seq<char>)
    ensures
        words(trimmed(s)) == words(s),
{
    lemma_trimmed_frame(s);
    lemma_words_of_blanks(s);
    if !all_blank(s) {
        let front = s.take(leading_blanks(s) as int);
        let back = s.skip(s.len() - trailing_blanks(s));
        let t = trimmed(s);
        lemma_words_of_blanks(front);
        lemma_words_of_blanks(back);
        if front.len() > 0 {
            assert(is_blank(front[front.len() - 1]));
        }
        if back.len() > 0 {
            assert(is_blank(back[0]));
        }
        lemma_words_concat(front + t, back);
        lemma_words_concat(front, t);
        assert(words(s) == words(front) + words(t) + words(back));
        assert(words(s) == words(t));
    }
}

/// Takes the blanks off the two ends of `line`.
pub fn trim(line: &str) -> (out: &str)
    ensures
        out@ == trimmed(line@),
{
    let total = line.unicode_len();
    let mut first: usize = 0;
    let mut end: usize = 0;
    let mut i: usize = 0;
    for c in it: line.chars()
        invariant
            it.seq() == line@,
            total == line@.len(),
            i == it.index(),
            first <= end <= i,
            end == 0 ==> first == 0,
            end > 0 ==> first < end && !is_blank(line@[first as int]) && !is_blank(
                line@[end - 1],
            ),
            forall|j: int| 0 <= j < first ==> is_blank(#[trigger] line@[j]),
            forall|j: int| end <= j < i ==> is_blank(#[trigger] line@[j]),
    {
        if !is_blank_char(c) {
            if end == 0 {
                first = i;
            }
            end = i + 1;
        }
        i = i + 1;
    }
    proof {
        let s = line@;
        if end == 0 {
            assert(all_blank(s));
            assert(s.subrange(0, 0) == Seq::<char>::empty());
        } else {
            assert(!all_blank(s));
            assert forall|j: int| 0 <= j < s.take(first as int).len() implies is_blank(
                #[trigger] s.take(first as int)[j],
            ) by {
                assert(s.take(first as int)[j] == s[j]);
            }
            lemma_leading_blanks_is(s, first as int);
            assert forall|j: int| 0 <= j < s.skip(end as int).len() implies is_blank(
                #[trigger] s.skip(end as int)[j],
            ) by {
                assert(s.skip(end as int)[j] == s[end + j]);
            }
            lemma_trailing_blanks_is(s, s.len() - end);
        }
    }
    line.substring_char(first, end)
}

} // verus!
