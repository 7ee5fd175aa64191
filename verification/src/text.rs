//! Small functions on text that the rest of the client is written with, and
//! the line framing of a stream of messages.

use vstd::prelude::*;

verus! {

/// `text` without the run of `mark` at its end.
pub open spec fn trimmed_end(text: Seq<char>, mark: char) -> Seq<char>
    decreases text.len(),
{
    if text.len() > 0 && text.last() == mark {
        trimmed_end(text.drop_last(), mark)
    } else {
        text
    }
}

/// What is left of `text` once `prefix` is taken off its front, where it
/// begins with `prefix`.
pub open spec fn without_prefix(text: Seq<char>, prefix: Seq<char>) -> Option<Seq<char>> {
    if prefix.is_prefix_of(text) {
        Some(text.skip(prefix.len() as int))
    } else {
        None
    }
}

/// Removes every `mark` from the end of `text`.
pub fn trim_end(text: &str, mark: char) -> (trimmed: String)
    ensures
        trimmed@ == trimmed_end(text@, mark),
{
    let mut end: usize = text.unicode_len();
    assert(text@.take(end as int) == text@);
    while end > 0 && text.get_char(end - 1) == mark
        invariant
            end <= text@.len(),
            trimmed_end(text@, mark) == trimmed_end(text@.take(end as int), mark),
        decreases end,
    {
        assert(text@.take(end as int).drop_last() == text@.take(end - 1));
        end = end - 1;
    }
    assert(text@.subrange(0, end as int) == text@.take(end as int));
    text.substring_char(0, end).to_owned()
}

/// Takes `prefix` off the front of `text`, if it is there.
pub fn strip_prefix(text: &str, prefix: &str) -> (rest: Option<String>)
    ensures
        match rest {
            Some(tail) => without_prefix(text@, prefix@) == Some(tail@),
            None => without_prefix(text@, prefix@) is None,
        },
{
    let whole: usize = text.unicode_len();
    let head: usize = prefix.unicode_len();
    if head > whole {
        return None;
    }
    let mut i: usize = 0;
    while i < head
        invariant
            i <= head == prefix@.len() <= whole == text@.len(),
            forall|j: int| 0 <= j < i ==> prefix@[j] == text@[j],
        decreases head - i,
    {
        if prefix.get_char(i) != text.get_char(i) {
            assert(prefix@[i as int] != text@.take(head as int)[i as int]);
            return None;
        }
        i = i + 1;
    }
    assert(prefix@ == text@.take(head as int));
    assert(text@.subrange(head as int, whole as int) == text@.skip(head as int));
    Some(text.substring_char(head, whole).to_owned())
}

/// Whether two texts are the same, character for character.
pub fn same_text(left: &str, right: &str) -> (same: bool)
    ensures
        same == (left@ == right@),
{
    let len: usize = left.unicode_len();
    if right.unicode_len() != len {
        return false;
    }
    let mut i: usize = 0;
    while i < len
        invariant
            i <= len == left@.len() == right@.len(),
            forall|j: int| 0 <= j < i ==> left@[j] == right@[j],
        decreases len - i,
    {
        if left.get_char(i) != right.get_char(i) {
            return false;
        }
        i = i + 1;
    }
    assert(left@ == right@);
    true
}

/// Whether `text` ends with `mark`.
pub fn ends_with(text: &str, mark: char) -> (yes: bool)
    ensures
        yes == (text@.len() > 0 && text@.last() == mark),
{
    let len: usize = text.unicode_len();
    len > 0 && text.get_char(len - 1) == mark
}

/// How many characters stand before the first `mark` in `text`: all of them where
/// it has none.
pub open spec fn before_first(text: Seq<char>, mark: char) -> nat
    decreases text.len(),
{
    if text.len() == 0 || text.first() == mark {
        0
    } else {
        1 + before_first(text.drop_first(), mark)
    }
}

/// Counts the characters before the first `mark`.
pub fn find_first(text: &str, mark: char) -> (count: usize)
    ensures
        count == before_first(text@, mark),
        count <= text@.len(),
{
    let len: usize = text.unicode_len();
    let mut i: usize = 0;
    assert(text@.skip(0) == text@);
    while i < len && text.get_char(i) != mark
        invariant
            i <= len == text@.len(),
            before_first(text@, mark) == i + before_first(text@.skip(i as int), mark),
        decreases len - i,
    {
        assert(text@.skip(i as int).drop_first() == text@.skip(i + 1));
        i = i + 1;
    }
    i
}

/// The first `mark` stands right behind the characters before it, and none of
/// those is one.
pub proof fn lemma_before_first(text: Seq<char>, mark: char)
    ensures
        before_first(text, mark) <= text.len(),
        before_first(text, mark) < text.len() ==> text[before_first(text, mark) as int] == mark,
        !text.take(before_first(text, mark) as int).contains(mark),
    decreases text.len(),
{
    if text.len() > 0 && text.first() != mark {
        let rest = text.drop_first();
        lemma_before_first(rest, mark);
        let end = before_first(rest, mark) as int;
        let front = text.take(end + 1);
        assert forall|i: int| 0 <= i < front.len() implies front[i] != mark by {
            if i > 0 {
                assert(front[i] == rest.take(end)[i - 1]);
                assert(rest.take(end).contains(rest.take(end)[i - 1]));
            }
        }
    }
}

/// In a text that is put together from a front without marks, a mark and a rest,
/// the front is what stands before the first mark.
pub proof fn lemma_before_first_joined(front: Seq<char>, mark: char, rest: Seq<char>)
    requires
        !front.contains(mark),
    ensures
        before_first(front.push(mark) + rest, mark) == front.len(),
    decreases front.len(),
{
    let text = front.push(mark) + rest;
    if front.len() > 0 {
        assert(text.first() == front[0]);
        assert forall|i: int| 0 <= i < front.len() - 1 implies front.drop_first()[i] != mark by {
            assert(front.contains(front[i + 1]));
        }
        lemma_before_first_joined(front.drop_first(), mark, rest);
        assert(text.drop_first() == front.drop_first().push(mark) + rest);
    }
}

/// The pieces of `text` between the marks.
pub open spec fn pieces_of(text: Seq<char>, mark: char) -> Seq<Seq<char>>
    decreases text.len(),
{
    let end = before_first(text, mark) as int;
    if end < text.len() {
        seq![text.take(end)] + pieces_of(text.skip(end + 1), mark)
    } else {
        seq![text]
    }
}

/// Trimming leaves nothing to trim.
pub proof fn lemma_trimmed_end_is_trimmed(text: Seq<char>, mark: char)
    ensures
        trimmed_end(text, mark).len() > 0 ==> trimmed_end(text, mark).last() != mark,
        trimmed_end(trimmed_end(text, mark), mark) == trimmed_end(text, mark),
    decreases text.len(),
{
    if text.len() > 0 && text.last() == mark {
        lemma_trimmed_end_is_trimmed(text.drop_last(), mark);
    }
}

/// Trimming takes off marks and nothing else: what is left, with the right
/// number of marks behind it, is the text again.
pub proof fn lemma_trimmed_end_removes_only_marks(text: Seq<char>, mark: char)
    ensures
        trimmed_end(text, mark).len() <= text.len(),
        text == trimmed_end(text, mark) + Seq::new(
            (text.len() - trimmed_end(text, mark).len()) as nat,
            |i: int| mark,
        ),
    decreases text.len(),
{
    if text.len() > 0 && text.last() == mark {
        lemma_trimmed_end_removes_only_marks(text.drop_last(), mark);
        assert(text == text.drop_last().push(mark));
    }
}

/// Marks appended to a text do not change what trimming makes of it.
pub proof fn lemma_trimmed_end_ignores_marks(text: Seq<char>, mark: char, count: nat)
    ensures
        trimmed_end(text + Seq::new(count, |i: int| mark), mark) == trimmed_end(text, mark),
    decreases count,
{
    let longer = text + Seq::new(count, |i: int| mark);
    if count > 0 {
        let less = (count - 1) as nat;
        assert(longer.drop_last() == text + Seq::new(less, |i: int| mark));
        lemma_trimmed_end_ignores_marks(text, mark, less);
    } else {
        assert(longer == text);
    }
}

/// A message as it goes down the stream: its text, then a line feed.
pub open spec fn framed(text: Seq<char>) -> Seq<char> {
    text.push('\n')
}

/// Makes a line of a message.
pub fn frame(text: String) -> (line: String)
    ensures
        line@ == framed(text@),
{
    proof {
        reveal_strlit("\n");
    }
    let ghost plain = text@;
    let line = text.concat("\n");
    assert(line@ == framed(plain));
    line
}

/// The stream that a row of messages makes.
pub open spec fn stream_of(texts: Seq<Seq<char>>) -> Seq<char>
    decreases texts.len(),
{
    if texts.len() == 0 {
        Seq::empty()
    } else {
        framed(texts.first()) + stream_of(texts.drop_first())
    }
}

/// The lines that a reader of a stream sees: the pieces that line feeds end.
pub open spec fn lines_of(stream: Seq<char>) -> Seq<Seq<char>>
    decreases stream.len(),
{
    if stream.contains('\n') {
        let end = stream.index_of_first('\n')->0;
        if 0 <= end < stream.len() {
            seq![stream.take(end)] + lines_of(stream.skip(end + 1))
        } else {
            Seq::empty()
        }
    } else {
        Seq::empty()
    }
}

/// Messages free of line feeds come out of the stream as they went in: one line
/// each, in order.
pub proof fn lemma_stream_keeps_messages(texts: Seq<Seq<char>>)
    requires
        forall|i: int| 0 <= i < texts.len() ==> !(#[trigger] texts[i]).contains('\n'),
    ensures
        lines_of(stream_of(texts)) == texts,
    decreases texts.len(),
{
    if texts.len() > 0 {
        let head = texts.first();
        let rest = texts.drop_first();
        let stream = stream_of(texts);
        let end = head.len() as int;
        assert(!texts[0].contains('\n'));
        assert forall|i: int| 0 <= i < rest.len() implies !(#[trigger] rest[i]).contains('\n') by {
            assert(rest[i] == texts[i + 1]);
        }
        lemma_stream_keeps_messages(rest);
        assert(stream[end] == '\n');
        assert(stream.contains('\n'));
        assert forall|i: int| 0 <= i < end implies stream[i] != '\n' by {
            assert(stream[i] == head[i]);
            assert(head.contains(head[i]));
        }
        stream.index_of_first_ensures('\n');
        assert(stream.index_of_first('\n') == Some(end));
        assert(stream.take(end) == head);
        assert(stream.skip(end + 1) == stream_of(rest));
        assert(seq![head] + rest == texts);
    } else {
        assert(stream_of(texts) == Seq::<char>::empty());
        assert(lines_of(stream_of(texts)) == texts);
    }
}

} // verus!
