//! Line splitting and trimming of command output, as std's `str` does them.

use vstd::prelude::*;

verus! {

/// The pieces of `s` between newlines: one more piece than `s` has
/// newlines.
pub open spec fn split_newlines(s: Seq<char>) -> Seq<Seq<char>>
    decreases s.len(),
{
    if s.len() == 0 {
        seq![Seq::empty()]
    } else {
        let rest = split_newlines(s.drop_last());
        if s.last() == '\n' {
            rest.push(Seq::empty())
        } else {
            rest.update(rest.len() - 1, rest.last().push(s.last()))
        }
    }
}

/// A piece that a newline ends loses one carriage return before it.
pub open spec fn strip_cr(piece: Seq<char>) -> Seq<char> {
    if piece.len() > 0 && piece.last() == '\r' {
        piece.drop_last()
    } else {
        piece
    }
}

/// The lines of `s`: split at `\n` or `\r\n`; a final line ending adds no
/// empty line, and an empty text has no line.
pub open spec fn lines_of(s: Seq<char>) -> Seq<Seq<char>> {
    let pieces = split_newlines(s);
    let ended = pieces.drop_last();
    let ended_lines = Seq::new(ended.len(), |i: int| strip_cr(ended[i]));
    if pieces.last().len() == 0 {
        ended_lines
    } else {
        ended_lines.push(pieces.last())
    }
}

/// Relies on std's `str::lines`: lines split at `\n` or `\r\n`, without their
/// endings; the final line ending is optional.
#[verifier::external_body]
pub(crate) fn text_lines(s: &str) -> (r: Vec<String>)
    ensures
        r@.len() == lines_of(s@).len(),
        forall|i: int| 0 <= i < r@.len() ==> #[trigger] r@[i]@ == lines_of(s@)[i],
{
    s.lines().map(|l| l.to_owned()).collect()
}

/// `s` without the Unicode white space at either end.
pub uninterp spec fn trimmed(s: Seq<char>) -> Seq<char>;

/// Relies on std's `str::trim`: removes leading and trailing white space; the
/// result depends on the text alone.
#[verifier::external_body]
pub(crate) fn trim_text(s: &str) -> (r: String)
    ensures
        r@ == trimmed(s@),
        s@.len() == 0 ==> r@.len() == 0,
{
    s.trim().to_owned()
}

} // verus!
