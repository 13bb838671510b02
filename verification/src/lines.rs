//! The format of a word list: plain text, one word per line.
//!
//! A line ends at a line feed, or at the end of the text. The line feed is not
//! part of the line, and neither is a carriage return that stands directly
//! before it. A last line without a line feed is kept as it is; a text that
//! ends in a line feed has no empty line after it.

use vstd::prelude::*;

verus! {

/// The number of characters from position `start` up to the next line feed,
/// or up to the end of the text.
pub open spec fn line_len(text: Seq<char>, start: int) -> nat
    decreases text.len() - start,
{
    if start < 0 || start >= text.len() || text[start] == '\n' {
        0
    } else {
        1 + line_len(text, start + 1)
    }
}

/// `line` without one carriage return at its end.
pub open spec fn strip_cr(line: Seq<char>) -> Seq<char> {
    if line.len() > 0 && line.last() == '\r' {
        line.drop_last()
    } else {
        line
    }
}

/// The lines of the part of `text` that begins at position `start`.
pub open spec fn lines_from(text: Seq<char>, start: int) -> Seq<Seq<char>>
    decreases text.len() - start,
{
    if start < 0 || start >= text.len() {
        Seq::empty()
    } else {
        let end = start + line_len(text, start);
        if end >= text.len() {
            seq![text.subrange(start, text.len() as int)]
        } else {
            seq![strip_cr(text.subrange(start, end))] + lines_from(text, end + 1)
        }
    }
}

/// The lines of `text`.
pub open spec fn text_lines(text: Seq<char>) -> Seq<Seq<char>> {
    lines_from(text, 0)
}

/// The character sequences of a list of strings.
pub open spec fn texts(strings: Seq<String>) -> Seq<Seq<char>> {
    Seq::new(strings.len(), |i: int| strings[i]@)
}

/// Trusted: `String::push` of the standard library, which "appends the given
/// `char` to the end of this `String`".
pub assume_specification[ String::push ](s: &mut String, c: char)
    ensures
        final(s)@ == old(s)@.push(c),
;

proof fn lemma_line_len_run(text: Seq<char>, start: int, pos: int)
    requires
        0 <= start <= pos <= text.len(),
        forall|j: int| start <= j < pos ==> text[j] != '\n',
        pos == text.len() || text[pos] == '\n',
    ensures
        start + line_len(text, start) == pos,
    decreases pos - start,
{
    if start < pos {
        lemma_line_len_run(text, start + 1, pos);
    }
}

/// Splits `text` into its lines.
pub fn split_lines(text: &str) -> (lines: Vec<String>)
    ensures
        texts(lines@) == text_lines(text@),
{
    let mut lines: Vec<String> = Vec::new();
    let mut current = String::new();
    // A carriage return that has been read but not yet stored: it is dropped
    // if a line feed follows, and stored with the line otherwise.
    let mut held = false;
    let ghost s = text@;
    let ghost mut start: int = 0;
    let ghost mut pos: int = 0;
    for c in it: text.chars()
        invariant
            it.seq() == s,
            s == text@,
            pos == it.index(),
            0 <= start <= pos <= s.len(),
            forall|j: int| start <= j < pos ==> s[j] != '\n',
            s.subrange(start, pos) == current@ + if held {
                seq!['\r']
            } else {
                Seq::<char>::empty()
            },
            !held ==> current@.len() == 0 || current@.last() != '\r',
            texts(lines@) + lines_from(s, start) == text_lines(s),
    {
        let ghost segment = s.subrange(start, pos);
        if c == '\n' {
            proof {
                lemma_line_len_run(s, start, pos);
                if held {
                    assert(segment.drop_last() =~= current@);
                }
                assert(strip_cr(segment) == current@);
                assert(texts(lines@.push(current)) =~= texts(lines@) + seq![current@]);
                assert(texts(lines@.push(current)) + lines_from(s, pos + 1) =~= texts(lines@) + (
                seq![current@] + lines_from(s, pos + 1)));
            }
            lines.push(current);
            current = String::new();
            held = false;
            proof {
                start = pos + 1;
                pos = pos + 1;
                assert(s.subrange(start, pos) =~= current@ + Seq::<char>::empty());
            }
        } else if c == '\r' {
            if held {
                current.push('\r');
            }
            held = true;
            proof {
                pos = pos + 1;
                assert(s.subrange(start, pos) =~= segment.push('\r'));
                assert(s.subrange(start, pos) =~= current@ + seq!['\r']);
            }
        } else {
            if held {
                current.push('\r');
            }
            current.push(c);
            held = false;
            proof {
                pos = pos + 1;
                assert(s.subrange(start, pos) =~= segment.push(c));
                assert(s.subrange(start, pos) =~= current@ + Seq::<char>::empty());
            }
        }
    }
    let ghost segment = s.subrange(start, pos);
    if held {
        current.push('\r');
    }
    assert(current@ =~= segment);
    if !current.as_str().is_empty() {
        proof {
            lemma_line_len_run(s, start, pos);
            assert(texts(lines@.push(current)) =~= texts(lines@) + seq![current@]);
        }
        lines.push(current);
    }
    lines
}

} // verus!
