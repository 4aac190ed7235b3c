//! Source positions: a point is a line/column pair with its byte offset,
//! and a position is a start and end point. Lines are separated by line
//! feeds (a carriage return before a line feed belongs to the separator),
//! and lines and columns count from one.

use vstd::prelude::*;

use crate::markdown_text::{last_byte_before, lemma_last_byte_before};

verus! {

/// One place in a document.
#[derive(Clone, Copy, Debug, PartialEq, Eq, Structural)]
pub struct Point {
    /// The line number, counting from 1.
    pub line: usize,
    /// The column number within the line, counting from 1.
    pub column: usize,
    /// The byte offset, counting from 0.
    pub offset: usize,
}

/// The extent of a node in a document.
#[derive(Clone, Copy, Debug, PartialEq, Eq, Structural)]
pub struct Position {
    /// Where the node begins.
    pub start: Point,
    /// Just past where the node ends.
    pub end: Point,
}

/// The number of line feeds among the first `k` bytes of `s`.
pub open spec fn sp_count_nl(s: Seq<u8>, k: int) -> int
    decreases k,
    when 0 <= k <= s.len()
{
    if k <= 0 {
        0
    } else {
        sp_count_nl(s, k - 1) + if s[k - 1] == 10 {
            1int
        } else {
            0int
        }
    }
}

pub proof fn lemma_count_nl(s: Seq<u8>, k: int)
    requires
        0 <= k <= s.len(),
    ensures
        0 <= sp_count_nl(s, k) <= k,
    decreases k,
{
    if k > 0 {
        lemma_count_nl(s, k - 1);
    }
}

/// The prefix that precedes the offset's own line: everything up to and
/// including the last line feed strictly before the clamped offset.
pub open spec fn sp_line_scan_end(s: Seq<u8>, offset: int) -> int {
    if offset + 1 <= s.len() {
        offset
    } else {
        s.len() - 1
    }
}

/// The line number of a byte offset in `s` (clamped to the end of `s`).
pub open spec fn sp_point_line(s: Seq<u8>, offset: int) -> int {
    1 + sp_count_nl(s, sp_line_scan_end(s, offset))
}

/// The column number of a byte offset in `s`.
pub open spec fn sp_point_column(s: Seq<u8>, offset: int) -> int {
    offset + 1 - (last_byte_before(s, 10, 0, sp_line_scan_end(s, offset)) + 1)
}

impl Point {
    /// Builds a point at the given byte offset of `value`, computing its
    /// line and column. An offset past the end of the value falls on the
    /// value's last line, with the column counting on past its end.
    pub fn new_offset(offset: usize, value: &[u8]) -> (r: Point)
        requires
            value@.len() >= 1,
            offset < usize::MAX,
        ensures
            r.line == sp_point_line(value@, offset as int),
            r.column == sp_point_column(value@, offset as int),
            r.offset == offset,
    {
        let end1: usize = if offset + 1 <= value.len() {
            offset
        } else {
            value.len() - 1
        };
        let mut i: usize = 0;
        let mut count: usize = 0;
        let mut prefix: usize = 0;
        while i < end1
            invariant
                0 <= i <= end1,
                end1 < value@.len(),
                end1 == sp_line_scan_end(value@, offset as int),
                end1 <= offset,
                count == sp_count_nl(value@, i as int),
                count <= i,
                prefix == last_byte_before(value@, 10, 0, i as int) + 1,
                prefix <= i,
            decreases end1 - i,
        {
            if value[i] == 10 {
                count = count + 1;
                prefix = i + 1;
            }
            i = i + 1;
        }
        proof {
            lemma_count_nl(value@, end1 as int);
            lemma_last_byte_before(value@, 10, 0, end1 as int);
        }
        Point { line: 1 + count, column: offset + 1 - prefix, offset }
    }
}

impl Position {
    /// The slice of `value` this position covers, with the end clamped to
    /// the value's length.
    pub fn slice(&self, value: &[u8]) -> (r: Vec<u8>)
        requires
            self.start.offset <= self.end.offset,
            self.start.offset <= value@.len(),
        ensures
            r@ == value@.subrange(
                self.start.offset as int,
                if self.end.offset <= value@.len() {
                    self.end.offset as int
                } else {
                    value@.len() as int
                },
            ),
    {
        let hi: usize = if self.end.offset <= value.len() {
            self.end.offset
        } else {
            value.len()
        };
        crate::util::copy_range(value, self.start.offset, hi)
    }
}

} // verus!
