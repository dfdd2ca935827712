//! Blank characters and the words between them.
//!
//! A line of text is cut into words at its blanks: a word is a run of
//! characters without a blank that no neighbouring character could extend.
//! Nothing else has a meaning here: no quoting, no escapes.

use crate::text::push_char;
use vstd::prelude::*;

verus! {

/// The characters that separate words: space, and the ASCII controls from
/// horizontal tab (U+0009) to carriage return (U+000D).
pub open spec fn is_blank(c: char) -> bool {
    c == ' ' || ('\u{9}' <= c && c <= '\u{d}')
}

/// Every character of `s` is a blank.
pub open spec fn all_blank(s: Seq<char>) -> bool {
    forall|i: int| 0 <= i < s.len() ==> is_blank(#[trigger] s[i])
}

/// No character of `s` is a blank.
pub open spec fn no_blank(s: Seq<char>) -> bool {
    forall|i: int| 0 <= i < s.len() ==> !is_blank(#[trigger] s[i])
}

/// A word: at least one character, none of them a blank.
pub open spec fn is_word(s: Seq<char>) -> bool {
    s.len() > 0 && no_blank(s)
}

/// Nothing that is a word in `a + b` lies across the seam: one side is empty,
/// or a blank stands on one side of it.
pub open spec fn splits_cleanly(a: Seq<char>, b: Seq<char>) -> bool {
    a.len() == 0 || b.len() == 0 || is_blank(a.last()) || is_blank(b[0])
}

/// The number of characters of `s` in front of its first blank; all of them
/// where `s` holds no blank.
pub open spec fn word_len(s: Seq<char>) -> nat
    decreases s.len(),
{
    if s.len() == 0 || is_blank(s[0]) {
        0
    } else {
        1 + word_len(s.drop_first())
    }
}

/// The words of `s`, from left to right: blanks in front are passed over,
/// then the characters up to the next blank are a word, and so on behind it.
pub open spec fn words(s: Seq<char>) -> Seq<Seq<char>>
    decreases s.len(),
    via words_terminates
{
    if s.len() == 0 {
        Seq::empty()
    } else if is_blank(s[0]) {
        words(s.drop_first())
    } else {
        seq![s.take(word_len(s) as int)] + words(s.skip(word_len(s) as int))
    }
}

#[via_fn]
proof fn words_terminates(s: Seq<char>) {
    lemma_word_len(s);
}

/// `word_len(s)` stops at the first blank of `s`, and not before.
pub proof fn lemma_word_len(s: Seq<char>)
    ensures
        word_len(s) <= s.len(),
        s.len() > 0 && !is_blank(s[0]) ==> word_len(s) >= 1,
        no_blank(s.take(word_len(s) as int)),
        word_len(s) < s.len() ==> is_blank(s[word_len(s) as int]),
    decreases s.len(),
{
    if s.len() == 0 || is_blank(s[0]) {
    } else {
        let t = s.drop_first();
        lemma_word_len(t);
        let n: int = word_len(s) as int;
        assert forall|i: int| 0 <= i < n implies !is_blank(#[trigger] s.take(n)[i]) by {
            if i > 0 {
                assert(s.take(n)[i] == t.take(n - 1)[i - 1]);
            }
        }
    }
}

/// Only one length is that of the blank-free run at the front of `s`.
pub proof fn lemma_word_len_is(s: Seq<char>, k: int)
    requires
        0 <= k <= s.len(),
        no_blank(s.take(k)),
        k < s.len() ==> is_blank(s[k]),
    ensures
        word_len(s) == k,
    decreases s.len(),
{
    if k == 0 {
    } else {
        assert(s.take(k)[0] == s[0]);
        let t = s.drop_first();
        assert forall|i: int| 0 <= i < k - 1 implies !is_blank(#[trigger] t.take(k - 1)[i]) by {
            assert(t.take(k - 1)[i] == s.take(k)[i + 1]);
        }
        lemma_word_len_is(t, k - 1);
    }
}

/// Each of the words of a text is a word: it has a character, and no blank.
pub proof fn lemma_words_are_words(s: Seq<char>)
    ensures
        forall|i: int| 0 <= i < words(s).len() ==> is_word(#[trigger] words(s)[i]),
    decreases s.len(),
{
    if s.len() == 0 {
        assert(words(s).len() == 0);
    } else if is_blank(s[0]) {
        lemma_words_are_words(s.drop_first());
        assert(words(s) == words(s.drop_first()));
    } else {
        let n: int = word_len(s) as int;
        lemma_word_len(s);
        lemma_words_are_words(s.skip(n));
        assert(words(s) == seq![s.take(n)] + words(s.skip(n)));
        assert forall|i: int| 0 <= i < words(s).len() implies is_word(#[trigger] words(s)[i]) by {
            if i > 0 {
                assert(words(s)[i] == words(s.skip(n))[i - 1]);
            } else {
                assert(words(s)[0] == s.take(n));
            }
        }
    }
}

/// A text has no word exactly when it has nothing but blanks.
pub proof fn lemma_words_of_blanks(s: Seq<char>)
    ensures
        words(s).len() == 0 <==> all_blank(s),
    decreases s.len(),
{
    if s.len() == 0 {
    } else if is_blank(s[0]) {
        let t = s.drop_first();
        lemma_words_of_blanks(t);
        if all_blank(t) {
            assert forall|i: int| 0 <= i < s.len() implies is_blank(#[trigger] s[i]) by {
                if i > 0 {
                    assert(s[i] == t[i - 1]);
                }
            }
        }
        if all_blank(s) {
            assert forall|i: int| 0 <= i < t.len() implies is_blank(#[trigger] t[i]) by {
                assert(t[i] == s[i + 1]);
            }
        }
    } else {
        assert(words(s).len() > 0);
    }
}

/// A word is the one word of itself.
pub proof fn lemma_words_of_word(w: Seq<char>)
    requires
        is_word(w),
    ensures
        words(w) == seq![w],
{
    let n: int = w.len() as int;
    assert(w.take(n) == w);
    lemma_word_len_is(w, n);
    assert(!is_blank(w[0]));
    assert(words(w.skip(n)) == Seq::<Seq<char>>::empty());
    assert(words(w) == seq![w.take(n)] + words(w.skip(n)));
}

/// Cutting a text where no word is cut in two cuts its words into those of
/// the left part followed by those of the right part.
pub proof fn lemma_words_concat(a: Seq<char>, b: Seq<char>)
    requires
        splits_cleanly(a, b),
    ensures
        words(a + b) == words(a) + words(b),
    decreases a.len(),
{
    if a.len() == 0 {
        assert(a + b == b);
        assert(words(a) + words(b) == words(b));
    } else if is_blank(a[0]) {
        let t = a.drop_first();
        assert((a + b).drop_first() == t + b);
        if t.len() > 0 {
            assert(t.last() == a.last());
        }
        lemma_words_concat(t, b);
    } else {
        let n: int = word_len(a) as int;
        lemma_word_len(a);
        let t = a.skip(n);
        if t.len() > 0 {
            assert(t.last() == a.last());
        } else {
            assert(!is_blank(a.take(n)[n - 1]));
        }
        assert((a + b).take(n) == a.take(n));
        lemma_word_len_is(a + b, n);
        assert((a + b).skip(n) == t + b);
        lemma_words_concat(t, b);
        assert(words(a + b) == seq![a.take(n)] + (words(t) + words(b)));
        assert(words(a + b) == words(a) + words(b));
    }
}

/// However many blanks stand between two parts of a text, its words are
/// those of the one part followed by those of the other.
pub proof fn lemma_words_across_blanks(a: Seq<char>, gap: Seq<char>, b: Seq<char>)
    requires
        gap.len() > 0,
        all_blank(gap),
    ensures
        words(a + gap + b) == words(a) + words(b),
{
    assert(is_blank(gap[0]));
    assert(is_blank(gap[gap.len() - 1]));
    lemma_words_concat(a, gap);
    lemma_words_concat(a + gap, b);
    lemma_words_of_blanks(gap);
    assert(words(a) + words(gap) == words(a));
}

/// Tells whether `c` separates words.
pub fn is_blank_char(c: char) -> (b: bool)
    ensures
        b == is_blank(c),
{
    c == ' ' || ('\u{9}' <= c && c <= '\u{d}')
}

/// Cuts `line` into its words.
pub fn split_words(line: &str) -> (out: Vec<String>)
    ensures
        out.deep_view() == words(line@),
{
    let mut out: Vec<String> = Vec::new();
    let mut current = String::new();
    // Where the word in the making began: what lies before is dealt with.
    let ghost mut start: int = 0;
    for c in it: line.chars()
        invariant
            it.seq() == line@,
            0 <= start <= it.index(),
            start > 0 ==> is_blank(line@[start - 1]),
            out.deep_view() == words(line@.take(start)),
            current@ == line@.subrange(start, it.index()),
            no_blank(current@),
    {
        let ghost i: int = it.index();
        let ghost done = line@.take(start);
        if is_blank_char(c) {
            proof {
                assert(line@.take(i + 1) == (done + current@) + seq![c]);
                lemma_words_concat(done + current@, seq![c]);
                lemma_words_of_blanks(seq![c]);
                lemma_words_concat(done, current@);
            }
            if !current.as_str().is_empty() {
                proof {
                    lemma_words_of_word(current@);
                }
                let ghost before = out.deep_view();
                out.push(current);
                assert(out.deep_view() == before.push(current@));
                current = String::new();
            }
            proof {
                start = i + 1;
            }
        } else {
            push_char(&mut current, c);
        }
    }
    proof {
        let done = line@.take(start);
        assert(line@ == done + current@);
        lemma_words_concat(done, current@);
    }
    if !current.as_str().is_empty() {
        proof {
            lemma_words_of_word(current@);
        }
        let ghost before = out.deep_view();
        out.push(current);
        assert(out.deep_view() == before.push(current@));
    }
    out
}

} // verus!
