//! Laws of the functions on text.

use vstd::prelude::*;

use crate::text::{
    ends_with, find_first, frame, lemma_before_first, lemma_trimmed_end_is_trimmed,
    lemma_trimmed_end_removes_only_marks, same_text, strip_prefix, trim_end, trimmed_end,
};

verus! {

/// Whether `short` is `long` without the marks at its end: a front of it that does
/// not end with a mark, behind which there are only marks.
pub open spec fn is_trimmed(long: Seq<char>, mark: char, short: Seq<char>) -> bool {
    &&& short.len() <= long.len()
    &&& short == long.take(short.len() as int)
    &&& short.len() > 0 ==> short.last() != mark
    &&& forall|i: int| short.len() <= i < long.len() ==> #[trigger] long[i] == mark
}

/// There is one way to trim a text.
pub proof fn law_one_trimming(long: Seq<char>, mark: char, left: Seq<char>, right: Seq<char>)
    requires
        is_trimmed(long, mark, left),
        is_trimmed(long, mark, right),
    ensures
        left == right,
{
    if left.len() < right.len() {
        assert(right.last() == long[right.len() - 1]);
    }
    if right.len() < left.len() {
        assert(left.last() == long[left.len() - 1]);
    }
}

/// Trimming takes the marks off the end of a text, all of them and nothing else.
pub proof fn law_trim_end(text: &str, mark: char, trimmed: String)
    requires
        call_ensures(trim_end, (text, mark), trimmed),
    ensures
        is_trimmed(text@, mark, trimmed@),
{
    lemma_trimmed_end(text@, mark);
}

/// The trimmed text is one that is trimmed.
pub proof fn lemma_trimmed_end(text: Seq<char>, mark: char)
    ensures
        is_trimmed(text, mark, trimmed_end(text, mark)),
{
    let short = trimmed_end(text, mark);
    lemma_trimmed_end_is_trimmed(text, mark);
    lemma_trimmed_end_removes_only_marks(text, mark);
    let marks = Seq::new((text.len() - short.len()) as nat, |i: int| mark);
    assert(text == short + marks);
    assert forall|i: int| short.len() <= i < text.len() implies #[trigger] text[i] == mark by {
        assert(text[i] == marks[i - short.len()]);
    }
    assert(short == text.take(short.len() as int));
}

/// Taking a prefix off gives what stands behind it in the text, where it stands in
/// front of the text, and nothing elsewhere.
pub proof fn law_strip_prefix(text: &str, prefix: &str, rest: Option<String>)
    requires
        call_ensures(strip_prefix, (text, prefix), rest),
    ensures
        rest matches Some(tail) ==> text@ == prefix@ + tail@,
        rest is None ==> forall|tail: Seq<char>| text@ != #[trigger] (prefix@ + tail),
{
    if let Some(tail) = rest {
        assert(text@ == prefix@ + tail@);
    } else {
        assert forall|tail: Seq<char>| text@ != #[trigger] (prefix@ + tail) by {
            if text@ == prefix@ + tail {
                assert(text@.take(prefix@.len() as int) == prefix@);
            }
        }
    }
}

/// Texts are the same if they have the same characters.
pub proof fn law_same_text(left: &str, right: &str, same: bool)
    requires
        call_ensures(same_text, (left, right), same),
    ensures
        same <==> left@ == right@,
{
}

/// A text ends with a mark if its last character is one.
pub proof fn law_ends_with(text: &str, mark: char, yes: bool)
    requires
        call_ensures(ends_with, (text, mark), yes),
    ensures
        yes <==> text@.len() > 0 && text@[text@.len() - 1] == mark,
{
}

/// What is counted are the characters before the first mark.
pub proof fn law_find_first(text: &str, mark: char, count: usize)
    requires
        call_ensures(find_first, (text, mark), count),
    ensures
        count <= text@.len(),
        count < text@.len() ==> text@[count as int] == mark,
        forall|i: int| 0 <= i < count ==> #[trigger] text@[i] != mark,
{
    lemma_before_first(text@, mark);
    let front = text@.take(count as int);
    assert forall|i: int| 0 <= i < count implies #[trigger] text@[i] != mark by {
        assert(front[i] == text@[i]);
        assert(front.contains(front[i]));
    }
}

/// The line of a message is its text and a line feed.
pub proof fn law_frame(text: String, line: String)
    requires
        call_ensures(frame, (text,), line),
    ensures
        line@ == text@ + seq!['\n'],
{
    assert(line@ == text@ + seq!['\n']);
}

} // verus!
