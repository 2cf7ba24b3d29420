//! Datasets: text files with one block or one transaction on each line.

use vstd::prelude::*;

verus! {

/// The standard library's `String::push`: one character is added at the end.
pub assume_specification[ String::push ](text: &mut String, c: char)
    ensures
        final(text)@ == old(text)@.push(c),
;

/// The position of the first line feed, or the length where there is none.
pub open spec fn line_end(text: Seq<char>) -> int
    decreases text.len(),
{
    if text.len() == 0 || text[0] == '\n' {
        0
    } else {
        1 + line_end(text.skip(1))
    }
}

/// A terminated line without the carriage return in front of its line feed.
pub open spec fn without_return(line: Seq<char>) -> Seq<char> {
    if line.len() > 0 && line.last() == '\r' {
        line.drop_last()
    } else {
        line
    }
}

/// The lines of a text. Each ends at a line feed, which is not part of it, nor is a
/// carriage return right before it; what follows the last line feed is a line of its
/// own, as it stands, unless it is empty.
pub open spec fn lines_of(text: Seq<char>) -> Seq<Seq<char>>
    decreases text.len(),
    via lines_of_decreases
{
    let end = line_end(text);
    if text.len() == 0 {
        Seq::empty()
    } else if end == text.len() {
        seq![text]
    } else {
        seq![without_return(text.take(end))] + lines_of(text.skip(end + 1))
    }
}

#[via_fn]
proof fn lines_of_decreases(text: Seq<char>) {
    lemma_line_end(text);
}

proof fn lemma_line_end(text: Seq<char>)
    ensures
        0 <= line_end(text) <= text.len(),
        line_end(text) < text.len() ==> text[line_end(text)] == '\n',
        forall|i: int| 0 <= i < line_end(text) ==> text[i] != '\n',
    decreases text.len(),
{
    if text.len() > 0 && text[0] != '\n' {
        let rest = text.skip(1);
        lemma_line_end(rest);
        assert forall|i: int| 0 <= i < line_end(text) implies text[i] != '\n' by {
            if i > 0 {
                assert(rest[i - 1] == text[i]);
            }
        }
    }
}

/// Whether a line has no line feed in it.
pub open spec fn is_line(line: Seq<char>) -> bool {
    forall|i: int| 0 <= i < line.len() ==> line[i] != '\n'
}

proof fn lemma_line_end_is(text: Seq<char>, end: int)
    requires
        0 <= end <= text.len(),
        is_line(text.take(end)),
        end < text.len() ==> text[end] == '\n',
    ensures
        line_end(text) == end,
{
    lemma_line_end(text);
    if line_end(text) < end {
        assert(text.take(end)[line_end(text)] == '\n');
    }
}

pub(crate) proof fn lemma_first_line(line: Seq<char>, rest: Seq<char>)
    requires
        is_line(line),
    ensures
        lines_of(line.push('\n') + rest) == seq![without_return(line)] + lines_of(rest),
{
    let text = line.push('\n') + rest;
    assert(text.take(line.len() as int) =~= line);
    lemma_line_end_is(text, line.len() as int);
    assert(text.skip(line.len() as int + 1) =~= rest);
}

pub(crate) proof fn lemma_last_line(line: Seq<char>)
    requires
        is_line(line),
    ensures
        lines_of(line) == (if line.len() == 0 {
            Seq::<Seq<char>>::empty()
        } else {
            seq![line]
        }),
{
    assert(line.take(line.len() as int) =~= line);
    lemma_line_end_is(line, line.len() as int);
}

/// The texts of a list of strings.
pub open spec fn texts(strings: Seq<String>) -> Seq<Seq<char>> {
    strings.map_values(|s: String| s@)
}

/// Reads a list of blocks or transactions: the lines of a file's contents, in order.
pub fn read_dataset(contents: &str) -> (r: Vec<String>)
    ensures
        texts(r@) == lines_of(contents@),
{
    let mut lines: Vec<String> = Vec::new();
    let mut line: String = String::new();
    let mut held_return: bool = false;
    let ghost text = contents@;
    let ghost mut raw: Seq<char> = Seq::empty();
    assert(raw + text.skip(0) =~= text);
    assert(texts(lines@) =~= Seq::empty());
    assert(Seq::<Seq<char>>::empty() + lines_of(text) =~= lines_of(text));
    for c in it: contents.chars()
        invariant
            it.seq() == text,
            raw == (if held_return {
                line@.push('\r')
            } else {
                line@
            }),
            held_return || line@.len() == 0 || line@.last() != '\r',
            is_line(raw),
            lines_of(text) == texts(lines@) + lines_of(raw + text.skip(it.index() as int)),
    {
        let ghost rest = text.skip(it.index() + 1);
        let ghost raw_before = raw;
        let ghost lines_before = texts(lines@);
        assert(raw + text.skip(it.index() as int) =~= raw.push(c) + rest);
        if c == '\n' {
            proof {
                lemma_first_line(raw, rest);
                assert(without_return(raw) =~= line@);
                raw = Seq::empty();
            }
            let ghost done = line@;
            lines.push(line);
            line = String::new();
            held_return = false;
            proof {
                assert(texts(lines@) =~= lines_before.push(done));
                assert(raw + rest =~= rest);
                assert(lines_before + (seq![done] + lines_of(rest)) =~= lines_before.push(done)
                    + lines_of(rest));
            }
        } else {
            if held_return {
                line.push('\r');
            }
            if c == '\r' {
                held_return = true;
            } else {
                held_return = false;
                line.push(c);
            }
            proof {
                raw = raw.push(c);
            }
        }
    }
    if held_return {
        line.push('\r');
    }
    proof {
        assert(raw + text.skip(text.len() as int) =~= raw);
        lemma_last_line(raw);
        assert(raw =~= line@);
    }
    let ghost lines_before = texts(lines@);
    if !line.as_str().is_empty() {
        lines.push(line);
        assert(texts(lines@) =~= lines_before + seq![raw]);
    } else {
        assert(lines_before + Seq::<Seq<char>>::empty() =~= lines_before);
    }
    lines
}

/// A file's contents with the given lines, a line feed behind each.
pub open spec fn written(lines: Seq<Seq<char>>) -> Seq<char>
    decreases lines.len(),
{
    if lines.len() == 0 {
        Seq::empty()
    } else {
        lines[0].push('\n') + written(lines.skip(1))
    }
}

/// No line of a dataset has a line feed in it.
pub proof fn law_lines_hold_no_line_feed(text: Seq<char>)
    ensures
        forall|k: int| 0 <= k < lines_of(text).len() ==> is_line(#[trigger] lines_of(text)[k]),
    decreases text.len(),
{
    lemma_line_end(text);
    let end = line_end(text);
    if text.len() > 0 && end < text.len() {
        let first = without_return(text.take(end));
        let others = lines_of(text.skip(end + 1));
        law_lines_hold_no_line_feed(text.skip(end + 1));
        assert forall|k: int| 0 <= k < lines_of(text).len() implies is_line(
            #[trigger] lines_of(text)[k],
        ) by {
            if k == 0 {
                assert(lines_of(text)[0] == first);
            } else {
                assert(lines_of(text)[k] == others[k - 1]);
            }
        }
    }
}

/// Lines that are written out are read back as they were, as long as none has a line
/// feed in it or ends in a carriage return.
pub proof fn law_read_of_written(lines: Seq<Seq<char>>)
    requires
        forall|k: int| 0 <= k < lines.len() ==> is_line(#[trigger] lines[k]),
        forall|k: int|
            0 <= k < lines.len() ==> (#[trigger] lines[k]).len() == 0 || lines[k].last() != '\r',
    ensures
        lines_of(written(lines)) == lines,
    decreases lines.len(),
{
    if lines.len() > 0 {
        let others = lines.skip(1);
        law_read_of_written(others);
        assert(is_line(lines[0]));
        lemma_first_line(lines[0], written(others));
        assert(seq![lines[0]] + others =~= lines);
    } else {
        assert(lines =~= Seq::empty());
    }
}

/// Contents without carriage returns, with a line feed behind every line, are what
/// writing out their lines gives.
pub proof fn law_written_of_read(text: Seq<char>)
    requires
        forall|i: int| 0 <= i < text.len() ==> text[i] != '\r',
        text.len() > 0 ==> text.last() == '\n',
    ensures
        written(lines_of(text)) == text,
    decreases text.len(),
{
    lemma_line_end(text);
    let end = line_end(text);
    if text.len() > 0 {
        let first = text.take(end);
        let rest = text.skip(end + 1);
        law_written_of_read(rest);
        assert(without_return(first) == first);
        assert(lines_of(text).skip(1) =~= lines_of(rest));
        assert(lines_of(text)[0] == first);
        assert(first.push('\n') + rest =~= text);
    }
}

} // verus!
