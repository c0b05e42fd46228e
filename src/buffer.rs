//! A text buffer with an index of where each line starts, in bytes.

use vstd::prelude::*;
use vstd::string::*;
use vstd::utf8::*;
use std::ops::Range;

verus! {

/// Where each line of `b` starts: offset 0, then one past every newline.
pub open spec fn line_starts_of(b: Seq<u8>) -> Seq<usize>
    decreases b.len(),
{
    if b.len() == 0 {
        seq![0usize]
    } else {
        let rest = line_starts_of(b.drop_last());
        if b.last() == 10 {
            rest.push(b.len() as usize)
        } else {
            rest
        }
    }
}

/// Line starts begin at 0, strictly increase, and stay within the text.
pub proof fn lemma_line_starts(b: Seq<u8>)
    requires
        b.len() <= usize::MAX,
    ensures
        line_starts_of(b).len() >= 1,
        line_starts_of(b)[0] == 0,
        forall|i: int, j: int|
            0 <= i < j < line_starts_of(b).len() ==> line_starts_of(b)[i] < line_starts_of(b)[j],
        forall|i: int| 0 <= i < line_starts_of(b).len() ==> line_starts_of(b)[i] <= b.len(),
        forall|i: int|
            1 <= i < line_starts_of(b).len() ==> line_starts_of(b)[i] >= 1 && b[line_starts_of(
                b,
            )[i] - 1] == 10,
    decreases b.len(),
{
    if b.len() > 0 {
        let p = b.drop_last();
        lemma_line_starts(p);
        assert forall|i: int| 1 <= i < line_starts_of(p).len() implies b[line_starts_of(p)[i] - 1]
            == 10 by {
            assert(b[line_starts_of(p)[i] - 1] == p[line_starts_of(p)[i] - 1]);
        }
    }
}

/// The byte after an ASCII byte of valid UTF-8 starts a character, or is the
/// end.
pub proof fn lemma_boundary_after_ascii(bytes: Seq<u8>, i: int)
    requires
        valid_utf8(bytes),
        0 <= i < bytes.len(),
        bytes[i] < 128,
    ensures
        is_char_boundary(bytes, i + 1),
{
    is_char_boundary_iff_not_is_continuation_byte(bytes, i);
    valid_utf8_split(bytes, i);
    let s = bytes.subrange(i, bytes.len() as int);
    assert(s[0] == bytes[i]);
    assert(length_of_first_scalar(s) == 1);
    let rest = pop_first_scalar(s);
    assert(rest =~= bytes.subrange(i + 1, bytes.len() as int));
    if i + 1 == bytes.len() {
        is_char_boundary_start_end_of_seq(bytes);
    } else {
        assert(valid_utf8(rest));
        assert(valid_first_scalar(rest));
        assert(rest[0] == bytes[i + 1]);
        is_char_boundary_iff_not_is_continuation_byte(bytes, i + 1);
    }
}

/// The byte before an ASCII byte of valid UTF-8 ends a character.
pub proof fn lemma_boundary_at_ascii(bytes: Seq<u8>, i: int)
    requires
        valid_utf8(bytes),
        0 <= i < bytes.len(),
        bytes[i] < 128,
    ensures
        is_char_boundary(bytes, i),
{
    is_char_boundary_iff_not_is_continuation_byte(bytes, i);
}

/// A boundary of valid UTF-8 stays one in any prefix that reaches it.
pub proof fn lemma_boundary_in_prefix(bytes: Seq<u8>, end: int, k: int)
    requires
        valid_utf8(bytes),
        is_char_boundary(bytes, end),
        is_char_boundary(bytes, k),
        0 <= k <= end <= bytes.len(),
    ensures
        valid_utf8(bytes.subrange(0, end)),
        is_char_boundary(bytes.subrange(0, end), k),
{
    valid_utf8_split(bytes, end);
    let p = bytes.subrange(0, end);
    if k == end {
        is_char_boundary_start_end_of_seq(p);
    } else if k == 0 {
    } else {
        is_char_boundary_iff_not_is_continuation_byte(bytes, k);
        is_char_boundary_iff_not_is_continuation_byte(p, k);
    }
}

/// Encoding a concatenation encodes each part.
pub proof fn lemma_encode_concat(x: Seq<char>, y: Seq<char>)
    ensures
        encode_utf8(x + y) == encode_utf8(x) + encode_utf8(y),
    decreases x.len(),
{
    if x.len() == 0 {
        assert(x + y =~= y);
    } else {
        lemma_encode_concat(x.drop_first(), y);
        assert((x + y).drop_first() =~= x.drop_first() + y);
        assert((x + y)[0] == x[0]);
        assert(encode_utf8(x + y) =~= encode_utf8(x) + encode_utf8(y));
    }
}

/// A text buffer with line indexing.
pub struct Buffer {
    text: String,
    line_starts: Vec<usize>,
}

impl Buffer {
    /// The UTF-8 bytes of the text.
    pub closed spec fn bytes(&self) -> Seq<u8> {
        encode_utf8(self.text@)
    }

    /// The text.
    pub closed spec fn chars(&self) -> Seq<char> {
        self.text@
    }

    /// The line starts, as offsets into `bytes`.
    pub closed spec fn starts(&self) -> Seq<usize> {
        self.line_starts@
    }

    pub closed spec fn wf(&self) -> bool {
        &&& self.line_starts@ == line_starts_of(encode_utf8(self.text@))
        &&& encode_utf8(self.text@).len() <= usize::MAX
    }

    proof fn lemma_wf(&self)
        requires
            self.wf(),
        ensures
            valid_utf8(self.bytes()),
            self.starts() == line_starts_of(self.bytes()),
            self.starts().len() >= 1,
            self.starts()[0] == 0,
            forall|i: int, j: int| 0 <= i < j < self.starts().len() ==> self.starts()[i] < self.starts()[j],
            forall|i: int| 0 <= i < self.starts().len() ==> self.starts()[i] <= self.bytes().len(),
            forall|i: int|
                0 <= i < self.starts().len() ==> is_char_boundary(self.bytes(), self.starts()[i] as int),
    {
        encode_utf8_valid_utf8(self.text@);
        lemma_line_starts(self.bytes());
        assert forall|i: int|
            0 <= i < self.starts().len() implies is_char_boundary(self.bytes(), self.starts()[i] as int) by {
            if i == 0 {
            } else {
                lemma_boundary_after_ascii(self.bytes(), self.starts()[i] - 1);
            }
        }
    }

    fn compute_line_starts(text: &str) -> (r: Vec<usize>)
        ensures
            r@ == line_starts_of(text.spec_bytes()),
            text.spec_bytes().len() <= usize::MAX,
    {
        let bytes = text.as_bytes();
        let total = bytes.len();
        assert(total == bytes@.len());
        let mut starts: Vec<usize> = Vec::new();
        starts.push(0);
        let mut i: usize = 0;
        assert(bytes@.subrange(0, 0).len() == 0);
        while i < bytes.len()
            invariant
                i <= bytes@.len(),
                bytes@ == text.spec_bytes(),
                starts@ == line_starts_of(bytes@.subrange(0, i as int)),
            decreases bytes@.len() - i,
        {
            assert(bytes@.subrange(0, i + 1).drop_last() =~= bytes@.subrange(0, i as int));
            if bytes[i] == 10 {
                starts.push(i + 1);
            }
            i = i + 1;
        }
        assert(bytes@.subrange(0, bytes@.len() as int) =~= bytes@);
        starts
    }

    pub fn new(text: String) -> (r: Buffer)
        ensures
            r.wf(),
            r.chars() == text@,
    {
        let line_starts = Self::compute_line_starts(text.as_str());
        Buffer { text, line_starts }
    }

    pub fn text(&self) -> (r: &str)
        ensures
            r@ == self.chars(),
    {
        self.text.as_str()
    }

    /// The length in bytes.
    pub fn len(&self) -> (r: usize)
        requires
            self.wf(),
        ensures
            r == self.bytes().len(),
    {
        self.text.as_str().len()
    }

    pub fn is_empty(&self) -> (r: bool)
        ensures
            r == (self.chars().len() == 0),
    {
        self.text.as_str().is_empty()
    }

    /// How many lines: one more than the text has newlines.
    pub fn line_count(&self) -> (r: usize)
        requires
            self.wf(),
        ensures
            r == self.starts().len(),
    {
        self.line_starts.len()
    }

    /// The byte range of line `line`, its newline included; a line past the
    /// last is the empty range at the end.
    pub fn line_byte_range(&self, line: usize) -> (r: Range<usize>)
        requires
            self.wf(),
        ensures
            r.start == (if line < self.starts().len() {
                self.starts()[line as int] as int
            } else {
                self.bytes().len() as int
            }),
            r.end == (if line + 1 < self.starts().len() {
                self.starts()[line + 1] as int
            } else {
                self.bytes().len() as int
            }),
    {
        let n = self.text.as_str().len();
        let start = if line < self.line_starts.len() {
            self.line_starts[line]
        } else {
            n
        };
        let end = if self.line_starts.len() > 1 && line < self.line_starts.len() - 1 {
            self.line_starts[line + 1]
        } else {
            n
        };
        Range { start, end }
    }

    /// The text of line `line`, without its newline.
    pub fn line_text(&self, line: usize) -> (r: &str)
        requires
            self.wf(),
        ensures
            ({
                let start = if line < self.starts().len() {
                    self.starts()[line as int] as int
                } else {
                    self.bytes().len() as int
                };
                let end = if line + 1 < self.starts().len() {
                    self.starts()[line + 1] as int
                } else {
                    self.bytes().len() as int
                };
                let whole = self.bytes().subrange(start, end);
                r.spec_bytes() == if whole.len() > 0 && whole.last() == 10 {
                    whole.drop_last()
                } else {
                    whole
                }
            }),
    {
        proof {
            self.lemma_wf();
            is_char_boundary_start_end_of_seq(self.bytes());
        }
        let range = self.line_byte_range(line);
        let text = self.text.as_str();
        assert(text.spec_bytes() == self.bytes());
        let (head, _) = text.split_at(range.end);
        proof {
            lemma_boundary_in_prefix(self.bytes(), range.end as int, range.start as int);
        }
        let (_, slice) = head.split_at(range.start);
        assert(slice.spec_bytes() =~= self.bytes().subrange(range.start as int, range.end as int));
        let n = slice.len();
        if n > 0 && slice.as_bytes()[n - 1] == 10 {
            proof {
                valid_utf8_split(head.spec_bytes(), range.start as int);
                lemma_boundary_at_ascii(slice.spec_bytes(), n - 1);
            }
            let (body, _) = slice.split_at(n - 1);
            assert(body.spec_bytes() =~= slice.spec_bytes().drop_last());
            body
        } else {
            slice
        }
    }

    /// The line and the byte column of `offset`, clamped to the text.
    pub fn offset_to_point(&self, offset: usize) -> (r: (usize, usize))
        requires
            self.wf(),
        ensures
            ({
                let off = if offset <= self.bytes().len() {
                    offset as int
                } else {
                    self.bytes().len() as int
                };
                &&& r.0 < self.starts().len()
                &&& self.starts()[r.0 as int] <= off
                &&& r.0 + 1 < self.starts().len() ==> off < self.starts()[r.0 + 1]
                &&& r.1 == off - self.starts()[r.0 as int]
            }),
    {
        proof {
            self.lemma_wf();
        }
        let n = self.text.as_str().len();
        let off = if offset <= n {
            offset
        } else {
            n
        };
        let mut lo: usize = 0;
        let mut hi: usize = self.line_starts.len();
        while hi - lo > 1
            invariant
                self.wf(),
                self.starts() == self.line_starts@,
                0 <= lo < hi <= self.line_starts@.len(),
                self.line_starts@[lo as int] <= off,
                hi < self.line_starts@.len() ==> off < self.line_starts@[hi as int],
                forall|i: int, j: int|
                    0 <= i < j < self.line_starts@.len() ==> self.line_starts@[i] < self.line_starts@[j],
            decreases hi - lo,
        {
            let mid = lo + (hi - lo) / 2;
            if self.line_starts[mid] <= off {
                lo = mid;
            } else {
                hi = mid;
            }
        }
        (lo, off - self.line_starts[lo])
    }

    /// The byte offset of column `col` on line `row`, clamped to that line's
    /// end; a row past the last gives the end of the text.
    pub fn point_to_offset(&self, row: usize, col: usize) -> (r: usize)
        requires
            self.wf(),
        ensures
            row >= self.starts().len() ==> r == self.bytes().len(),
            row < self.starts().len() ==> {
                let start = self.starts()[row as int] as int;
                let end = if row + 1 < self.starts().len() {
                    self.starts()[row + 1] as int
                } else {
                    self.bytes().len() as int
                };
                r == if start + col < end {
                    start + col
                } else {
                    end
                }
            },
    {
        proof {
            self.lemma_wf();
        }
        let n = self.text.as_str().len();
        if row >= self.line_starts.len() {
            return n;
        }
        let start = self.line_starts[row];
        let end = if row < self.line_starts.len() - 1 {
            self.line_starts[row + 1]
        } else {
            n
        };
        if col < end - start {
            start + col
        } else {
            end
        }
    }

    /// Inserts `new_text` at byte `offset`, clamped to the end.
    pub fn insert(&mut self, offset: usize, new_text: &str)
        requires
            old(self).wf(),
            is_char_boundary(
                old(self).bytes(),
                if offset <= old(self).bytes().len() {
                    offset as int
                } else {
                    old(self).bytes().len() as int
                },
            ),
            old(self).bytes().len() + new_text.spec_bytes().len() <= usize::MAX,
        ensures
            final(self).wf(),
            ({
                let off = if offset <= old(self).bytes().len() {
                    offset as int
                } else {
                    old(self).bytes().len() as int
                };
                final(self).bytes() == old(self).bytes().subrange(0, off) + new_text.spec_bytes()
                    + old(self).bytes().subrange(off, old(self).bytes().len() as int)
            }),
    {
        let n = self.text.as_str().len();
        let off = if offset <= n {
            offset
        } else {
            n
        };
        let (a, b) = self.text.as_str().split_at(off);
        let mut s = a.to_owned();
        s.append(new_text);
        s.append(b);
        proof {
            lemma_encode_concat(a@, new_text@);
            lemma_encode_concat(a@ + new_text@, b@);
            assert(s@ == a@ + new_text@ + b@);
        }
        self.line_starts = Self::compute_line_starts(s.as_str());
        self.text = s;
    }

    /// Deletes the bytes in `range`, each end clamped to the text.
    pub fn delete(&mut self, range: Range<usize>)
        requires
            old(self).wf(),
            ({
                let n = old(self).bytes().len() as int;
                let start = if range.start <= n {
                    range.start as int
                } else {
                    n
                };
                let end = if range.end <= n {
                    range.end as int
                } else {
                    n
                };
                start < end ==> is_char_boundary(old(self).bytes(), start) && is_char_boundary(
                    old(self).bytes(),
                    end,
                )
            }),
        ensures
            final(self).wf(),
            ({
                let n = old(self).bytes().len() as int;
                let start = if range.start <= n {
                    range.start as int
                } else {
                    n
                };
                let end = if range.end <= n {
                    range.end as int
                } else {
                    n
                };
                final(self).bytes() == if start < end {
                    old(self).bytes().subrange(0, start) + old(self).bytes().subrange(end, n)
                } else {
                    old(self).bytes()
                }
            }),
    {
        let n = self.text.as_str().len();
        let start = if range.start <= n {
            range.start
        } else {
            n
        };
        let end = if range.end <= n {
            range.end
        } else {
            n
        };
        if start < end {
            proof {
                encode_utf8_valid_utf8(self.text@);
                lemma_boundary_in_prefix(self.bytes(), end as int, start as int);
            }
            let (head, tail) = self.text.as_str().split_at(end);
            let (a, _) = head.split_at(start);
            let mut s = a.to_owned();
            s.append(tail);
            proof {
                lemma_encode_concat(a@, tail@);
                assert(a.spec_bytes() =~= self.bytes().subrange(0, start as int));
            }
            self.line_starts = Self::compute_line_starts(s.as_str());
            self.text = s;
        }
    }

    /// Replaces the whole text.
    pub fn set_text(&mut self, text: String)
        ensures
            final(self).wf(),
            final(self).chars() == text@,
    {
        self.line_starts = Self::compute_line_starts(text.as_str());
        self.text = text;
    }
}

} // verus!
