//! The line format of a text file: what lines a text holds, and the text
//! that holds given lines.

use vstd::prelude::*;
use crate::text::{chars_of, find_char, push_char, string_of};

verus! {

/// `line` without the carriage return at its end, if it has one.
pub open spec fn strip_cr(line: Seq<char>) -> Seq<char> {
    if line.len() > 0 && line.last() == '\r' {
        line.drop_last()
    } else {
        line
    }
}

/// The lines of `text`. A line ends at a line feed, or at the end of the
/// text; a carriage return directly before the line feed belongs to the
/// line ending. No line follows the last line feed of the text.
pub open spec fn lines_of(text: Seq<char>) -> Seq<Seq<char>>
    decreases text.len(),
{
    if text.len() == 0 {
        Seq::empty()
    } else {
        match text.index_of_first('\n') {
            Some(k) => {
                proof {
                    text.index_of_first_ensures('\n');
                }
                seq![strip_cr(text.take(k))] + lines_of(text.skip(k + 1))
            },
            None => seq![text],
        }
    }
}

/// Each of `lines` with a line feed at its end.
pub open spec fn ended(lines: Seq<Seq<char>>) -> Seq<Seq<char>> {
    lines.map_values(|line: Seq<char>| line.push('\n'))
}

/// The text that holds `lines`, each ended by a line feed.
pub open spec fn text_of(lines: Seq<Seq<char>>) -> Seq<char> {
    ended(lines).flatten()
}

/// A line that is read back as it was written: it holds no line feed and
/// does not end in a carriage return.
pub open spec fn is_line(line: Seq<char>) -> bool {
    &&& !line.contains('\n')
    &&& line.len() > 0 ==> line.last() != '\r'
}

/// Every one of `lines` is read back as it was written.
pub open spec fn all_lines(lines: Seq<Seq<char>>) -> bool {
    forall|i: int| 0 <= i < lines.len() ==> is_line(#[trigger] lines[i])
}

/// A text in which every line is ended by a line feed that no carriage
/// return precedes: the text is exactly what its lines are written as.
pub open spec fn well_formed(text: Seq<char>) -> bool {
    &&& text.len() > 0 ==> text.last() == '\n'
    &&& forall|i: int| 0 < i < text.len() && #[trigger] text[i] == '\n' ==> text[i - 1] != '\r'
}

/// Writing one more line appends it, with its line feed, to the text.
pub proof fn lemma_text_of_push(lines: Seq<Seq<char>>, line: Seq<char>)
    ensures
        text_of(lines.push(line)) == text_of(lines) + line.push('\n'),
{
    assert(ended(lines.push(line)) =~= ended(lines).push(line.push('\n')));
    ended(lines).lemma_flatten_push(line.push('\n'));
}

/// The text of a line followed by more lines starts with that line and its
/// line feed.
pub proof fn lemma_text_of_prepend(line: Seq<char>, lines: Seq<Seq<char>>)
    ensures
        text_of(seq![line] + lines) == line.push('\n') + text_of(lines),
{
    let all = ended(seq![line] + lines);
    assert(all.first() == line.push('\n'));
    assert(all.drop_first() =~= ended(lines));
}

/// The text of any lines is empty or ends in a line feed.
pub proof fn lemma_text_of_ends_in_feed(lines: Seq<Seq<char>>)
    ensures
        text_of(lines).len() > 0 ==> text_of(lines).last() == '\n',
        lines.len() == 0 ==> text_of(lines).len() == 0,
{
    if lines.len() > 0 {
        assert(lines.drop_last().push(lines.last()) =~= lines);
        lemma_text_of_push(lines.drop_last(), lines.last());
    }
}

/// No line of a text holds a line feed.
pub proof fn lemma_lines_hold_no_feed(text: Seq<char>)
    ensures
        forall|i: int| 0 <= i < lines_of(text).len() ==> !(#[trigger] lines_of(text)[i]).contains('\n'),
    decreases text.len(),
{
    if text.len() > 0 {
        text.index_of_first_ensures('\n');
        match text.index_of_first('\n') {
            Some(k) => {
                lemma_lines_hold_no_feed(text.skip(k + 1));
                let head = strip_cr(text.take(k));
                assert(!head.contains('\n')) by {
                    if head.contains('\n') {
                        let j = choose|j: int| 0 <= j < head.len() && head[j] == '\n';
                        assert(text[j] == '\n');
                    }
                }
                assert forall|i: int| 0 <= i < lines_of(text).len() implies !(
                #[trigger] lines_of(text)[i]).contains('\n') by {
                    if i > 0 {
                        assert(lines_of(text)[i] == lines_of(text.skip(k + 1))[i - 1]);
                    }
                }
            },
            None => {},
        }
    }
}

/// The lines of a text that ends in a line feed, followed by more text, are
/// the lines of the one followed by the lines of the other.
pub proof fn lemma_lines_of_concat(a: Seq<char>, b: Seq<char>)
    requires
        a.len() > 0 ==> a.last() == '\n',
    ensures
        lines_of(a + b) == lines_of(a) + lines_of(b),
    decreases a.len(),
{
    if a.len() == 0 {
        assert(a + b =~= b);
        assert(lines_of(a) + lines_of(b) =~= lines_of(b));
    } else {
        let ab = a + b;
        a.index_of_first_ensures('\n');
        ab.index_of_first_ensures('\n');
        assert(a[a.len() - 1] == '\n');
        assert(a.contains('\n'));
        let k = a.index_of_first('\n')->0;
        assert(ab[k] == '\n');
        assert(ab.contains('\n'));
        let m = ab.index_of_first('\n')->0;
        assert(m == k) by {
            if m < k {
                assert(a[m] == ab[m]);
            }
        }
        assert(ab.take(k) =~= a.take(k));
        assert(ab.skip(k + 1) =~= a.skip(k + 1) + b);
        lemma_lines_of_concat(a.skip(k + 1), b);
        assert(lines_of(ab) =~= lines_of(a) + lines_of(b));
    }
}

/// A line written alone is read back alone.
pub proof fn lemma_lines_of_one(line: Seq<char>)
    requires
        is_line(line),
    ensures
        lines_of(line.push('\n')) == seq![line],
{
    let text = line.push('\n');
    text.index_of_first_ensures('\n');
    assert(text[line.len() as int] == '\n');
    assert(text.contains('\n'));
    let k = text.index_of_first('\n')->0;
    assert(k == line.len()) by {
        if k < line.len() {
            assert(line[k] == '\n');
            assert(line.contains('\n'));
        }
    }
    assert(text.take(k) =~= line);
    assert(text.skip(k + 1) =~= Seq::<char>::empty());
    assert(lines_of(text.skip(k + 1)) =~= Seq::<Seq<char>>::empty());
    assert(lines_of(text) =~= seq![line]);
}

/// Lines that are written are read back unchanged.
pub proof fn lemma_lines_of_text_of(lines: Seq<Seq<char>>)
    requires
        all_lines(lines),
    ensures
        lines_of(text_of(lines)) == lines,
    decreases lines.len(),
{
    lemma_text_of_ends_in_feed(lines);
    if lines.len() > 0 {
        let init = lines.drop_last();
        let last = lines.last();
        assert(init.push(last) =~= lines);
        lemma_text_of_push(init, last);
        lemma_text_of_ends_in_feed(init);
        lemma_lines_of_text_of(init);
        lemma_lines_of_concat(text_of(init), last.push('\n'));
        lemma_lines_of_one(last);
        assert(init + seq![last] =~= lines);
    }
}

/// A well-formed text is what its lines are written as, and each of its
/// lines is read back as it was written.
pub proof fn lemma_text_of_lines_of(text: Seq<char>)
    requires
        well_formed(text),
    ensures
        text_of(lines_of(text)) == text,
        all_lines(lines_of(text)),
    decreases text.len(),
{
    if text.len() == 0 {
        assert(ended(lines_of(text)) =~= Seq::<Seq<char>>::empty());
        assert(text_of(lines_of(text)) =~= text);
    } else {
        text.index_of_first_ensures('\n');
        assert(text[text.len() - 1] == '\n');
        assert(text.contains('\n'));
        let k = text.index_of_first('\n')->0;
        let line = text.take(k);
        let rest = text.skip(k + 1);
        assert(is_line(line)) by {
            if line.contains('\n') {
                let j = choose|j: int| 0 <= j < line.len() && line[j] == '\n';
                assert(text[j] == '\n');
            }
            if line.len() > 0 {
                assert(text[k] == '\n');
                assert(line.last() == text[k - 1]);
            }
        }
        assert(well_formed(rest)) by {
            assert forall|i: int| 0 < i < rest.len() && #[trigger] rest[i] == '\n' implies rest[i
                - 1] != '\r' by {
                assert(text[i + k + 1] == '\n');
            }
        }
        lemma_text_of_lines_of(rest);
        lemma_text_of_prepend(line, lines_of(rest));
        assert(line.push('\n') + rest =~= text);
        assert forall|i: int| 0 <= i < lines_of(text).len() implies is_line(
            #[trigger] lines_of(text)[i],
        ) by {
            if i > 0 {
                assert(lines_of(text)[i] == lines_of(rest)[i - 1]);
            }
        }
    }
}

/// The text of lines that are read back as written is well formed.
pub proof fn lemma_text_of_well_formed(lines: Seq<Seq<char>>)
    requires
        all_lines(lines),
    ensures
        well_formed(text_of(lines)),
    decreases lines.len(),
{
    lemma_text_of_ends_in_feed(lines);
    if lines.len() > 0 {
        let init = lines.drop_last();
        let last = lines.last();
        assert(init.push(last) =~= lines);
        lemma_text_of_push(init, last);
        lemma_text_of_ends_in_feed(init);
        lemma_text_of_well_formed(init);
        lemma_well_formed_append(text_of(init), last);
    }
}

/// A well-formed text stays well formed when one more line is written
/// after it.
pub proof fn lemma_well_formed_append(text: Seq<char>, line: Seq<char>)
    requires
        well_formed(text),
        is_line(line),
    ensures
        well_formed(text + line.push('\n')),
{
    let whole = text + line.push('\n');
    assert forall|i: int| 0 < i < whole.len() && #[trigger] whole[i] == '\n' implies whole[i - 1]
        != '\r' by {
        if i < text.len() {
            assert(text[i] == '\n');
        } else if i < text.len() + line.len() {
            assert(line[i - text.len()] == '\n');
            assert(line.contains('\n'));
        } else if line.len() > 0 {
            assert(whole[i - 1] == line.last());
        } else {
            assert(whole[i - 1] == text.last());
        }
    }
}

/// Splits a text into its lines.
pub fn split_lines(text: &str) -> (lines: Vec<String>)
    ensures
        lines.deep_view() == lines_of(text@),
{
    let v = chars_of(text);
    let mut lines: Vec<String> = Vec::new();
    let mut start: usize = 0;
    assert(v@.skip(0) =~= v@);
    assert(lines.deep_view() + lines_of(v@) =~= lines_of(v@));
    while start < v.len()
        invariant
            start <= v.len(),
            lines.deep_view() + lines_of(v@.skip(start as int)) == lines_of(v@),
        decreases v.len() - start,
    {
        let ghost tail = v@.skip(start as int);
        let ghost before = lines.deep_view();
        match find_char(&v, start, '\n') {
            Some(k) => {
                let end: usize = if k > start && v[k - 1] == '\r' {
                    k - 1
                } else {
                    k
                };
                let line = string_of(&v, start, end);
                proof {
                    assert(tail.take(k - start) =~= v@.subrange(start as int, k as int));
                    assert(line@ =~= strip_cr(tail.take(k - start)));
                    assert(tail.skip(k - start + 1) =~= v@.skip(k + 1));
                }
                lines.push(line);
                proof {
                    assert(lines.deep_view() =~= before.push(line@));
                    assert(before.push(line@) + lines_of(v@.skip(k + 1)) =~= before + lines_of(
                        tail,
                    ));
                }
                start = k + 1;
            },
            None => {
                let line = string_of(&v, start, v.len());
                proof {
                    assert(line@ =~= tail);
                }
                lines.push(line);
                proof {
                    assert(lines.deep_view() =~= before.push(line@));
                    assert(v@.skip(v.len() as int) =~= Seq::<char>::empty());
                    assert(before.push(line@) + lines_of(v@.skip(v.len() as int)) =~= before
                        + lines_of(tail));
                }
                start = v.len();
            },
        }
    }
    assert(lines.deep_view() + lines_of(v@.skip(start as int)) =~= lines.deep_view());
    lines
}

/// Writes lines as one text, each ended by a line feed.
pub fn join_lines(lines: &Vec<String>) -> (text: String)
    ensures
        text@ == text_of(lines.deep_view()),
{
    let mut text = String::new();
    let mut i: usize = 0;
    assert(ended(lines.deep_view().take(0)) =~= Seq::<Seq<char>>::empty());
    while i < lines.len()
        invariant
            i <= lines.len(),
            text@ == text_of(lines.deep_view().take(i as int)),
        decreases lines.len() - i,
    {
        proof {
            let done = lines.deep_view().take(i as int);
            assert(lines.deep_view().take(i + 1) =~= done.push(lines[i as int]@));
            lemma_text_of_push(done, lines[i as int]@);
        }
        text.append(lines[i].as_str());
        push_char(&mut text, '\n');
        i += 1;
    }
    assert(lines.deep_view().take(i as int) =~= lines.deep_view());
    text
}

} // verus!
