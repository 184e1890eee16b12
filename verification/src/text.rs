//! Lines of text and the text that joins them.

use vstd::prelude::*;

verus! {

/// `String::push` of the standard library: the character is appended at the
/// end of the string and nothing else changes. That the buffer can grow is
/// taken for granted, as it is for `Vec::push`: where memory runs out the
/// process ends.
pub assume_specification[ String::push ](s: &mut String, ch: char)
    ensures
        final(s)@ == old(s)@.push(ch),
;

/// `String::pop` of the standard library: the last character is removed
/// and returned; on an empty string nothing changes and `None` is returned.
pub assume_specification[ String::pop ](s: &mut String) -> (last: Option<char>)
    ensures
        old(s)@.len() == 0 ==> last.is_none() && final(s)@ == old(s)@,
        old(s)@.len() > 0 ==> last == Some(old(s)@.last()) && final(s)@ == old(s)@.drop_last(),
;

/// The line break between two lines.
pub open spec fn line_break() -> char {
    '\n'
}

/// The lines one after the other with a line break between two neighbours,
/// and none after the last line.
pub open spec fn join_lines(lines: Seq<Seq<char>>) -> Seq<char>
    decreases lines.len(),
{
    if lines.len() == 0 {
        Seq::empty()
    } else if lines.len() == 1 {
        lines[0]
    } else {
        join_lines(lines.drop_last()).push(line_break()) + lines.last()
    }
}

/// The lines one after the other with a line break after every line.
pub open spec fn end_lines(lines: Seq<Seq<char>>) -> Seq<char>
    decreases lines.len(),
{
    if lines.len() == 0 {
        Seq::empty()
    } else {
        (end_lines(lines.drop_last()) + lines.last()).push(line_break())
    }
}

/// Ending every line differs from joining the lines by one last line break.
pub proof fn lemma_end_lines(lines: Seq<Seq<char>>)
    requires
        lines.len() > 0,
    ensures
        end_lines(lines) == join_lines(lines).push(line_break()),
    decreases lines.len(),
{
    if lines.len() == 1 {
        assert(lines.drop_last().len() == 0);
        assert(end_lines(lines.drop_last()) + lines.last() =~= lines[0]);
    } else {
        lemma_end_lines(lines.drop_last());
    }
}

/// The pieces into which the line breaks cut a text. There is always a
/// first piece, and every line break starts another one.
pub open spec fn split_at_breaks(text: Seq<char>) -> Seq<Seq<char>>
    decreases text.len(),
{
    if text.len() == 0 {
        seq![Seq::empty()]
    } else {
        let before = split_at_breaks(text.drop_last());
        if text.last() == line_break() {
            before.push(Seq::empty())
        } else {
            before.update(before.len() - 1, before.last().push(text.last()))
        }
    }
}

/// The lines of a text. An empty text has no line.
pub open spec fn lines_of(text: Seq<char>) -> Seq<Seq<char>> {
    if text.len() == 0 {
        Seq::empty()
    } else {
        split_at_breaks(text)
    }
}

/// No character of `line` is a line break.
pub open spec fn unbroken(line: Seq<char>) -> bool {
    forall|i: int| 0 <= i < line.len() ==> line[i] != line_break()
}

proof fn lemma_split_nonempty(text: Seq<char>)
    ensures
        split_at_breaks(text).len() > 0,
    decreases text.len(),
{
    if text.len() > 0 {
        lemma_split_nonempty(text.drop_last());
    }
}

proof fn lemma_split_append(text: Seq<char>, line: Seq<char>)
    requires
        unbroken(line),
    ensures
        split_at_breaks(text + line) == split_at_breaks(text).update(
            split_at_breaks(text).len() - 1,
            split_at_breaks(text).last() + line,
        ),
    decreases line.len(),
{
    let pieces = split_at_breaks(text);
    lemma_split_nonempty(text);
    if line.len() == 0 {
        assert(text + line =~= text);
        assert(pieces.last() + line =~= pieces.last());
        assert(pieces.update(pieces.len() - 1, pieces.last()) =~= pieces);
    } else {
        let shorter = line.drop_last();
        lemma_split_append(text, shorter);
        assert((text + line).drop_last() =~= text + shorter);
        assert((text + line).last() == line.last());
        assert(line.last() == line[line.len() - 1]);
        assert((pieces.last() + shorter).push(line.last()) =~= pieces.last() + line);
        assert(pieces.update(pieces.len() - 1, pieces.last() + shorter).update(
            pieces.len() - 1,
            pieces.last() + line,
        ) =~= pieces.update(pieces.len() - 1, pieces.last() + line));
    }
}

/// Lines without a line break in them are found again in the text that
/// joins them.
pub proof fn lemma_split_join(lines: Seq<Seq<char>>)
    requires
        lines.len() > 0,
        forall|i: int| 0 <= i < lines.len() ==> unbroken(#[trigger] lines[i]),
    ensures
        split_at_breaks(join_lines(lines)) == lines,
    decreases lines.len(),
{
    if lines.len() == 1 {
        let empty = Seq::<char>::empty();
        lemma_split_append(empty, lines[0]);
        assert(empty + lines[0] =~= lines[0]);
        assert(split_at_breaks(empty) =~= seq![empty]);
        assert(seq![empty].update(0, empty + lines[0]) =~= lines);
    } else {
        let front = lines.drop_last();
        let joined = join_lines(front);
        lemma_split_join(front);
        let opened = joined.push(line_break());
        assert(opened.drop_last() =~= joined);
        assert(split_at_breaks(opened) == front.push(Seq::empty()));
        lemma_split_append(opened, lines.last());
        assert(Seq::<char>::empty() + lines.last() =~= lines.last());
        assert(front.push(Seq::empty()).update(front.len() as int, lines.last()) =~= lines);
    }
}

} // verus!
